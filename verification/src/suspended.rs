//! The hash set in which suspended calls are kept.

use vstd::prelude::*;

verus! {

/// A suspended call in numbers: the two numbers of what it waits for, and the
/// number of its cookie.
pub type SuspendedItem = (u8, u32, u64);

/// A `hashbrown::HashSet` of suspended calls.
#[verifier::external_body]
pub struct SuspendedSet {
    inner: hashbrown::HashSet<SuspendedItem>,
}

/// The items in the set.
pub uninterp spec fn suspended_items(set: SuspendedSet) -> Set<SuspendedItem>;

impl SuspendedSet {
    /// Calls `hashbrown::HashSet::new`: the set is empty.
    #[verifier::external_body]
    pub(crate) fn new() -> (result: Self)
        ensures
            suspended_items(result) == Set::<SuspendedItem>::empty(),
    {
        Self { inner: hashbrown::HashSet::new() }
    }

    /// Calls `hashbrown::HashSet::insert`: the item is in the set afterwards, the
    /// other items stay, and the result says whether the item is new.
    #[verifier::external_body]
    pub(crate) fn insert(&mut self, item: SuspendedItem) -> (result: bool)
        ensures
            suspended_items(*final(self)) == suspended_items(*old(self)).insert(item),
            result == !suspended_items(*old(self)).contains(item),
    {
        self.inner.insert(item)
    }

    /// Calls `hashbrown::HashSet::remove`: the item is not in the set afterwards,
    /// the other items stay, and the result says whether the item was there.
    #[verifier::external_body]
    pub(crate) fn remove(&mut self, item: SuspendedItem) -> (result: bool)
        ensures
            suspended_items(*final(self)) == suspended_items(*old(self)).remove(item),
            result == suspended_items(*old(self)).contains(item),
    {
        self.inner.remove(&item)
    }

    /// Calls `hashbrown::HashSet::iter` and lists what it yields: every item of the
    /// set, once, in an order that is not specified.
    #[verifier::external_body]
    pub(crate) fn list(&self) -> (result: Vec<SuspendedItem>)
        ensures
            result@.no_duplicates(),
            result@.to_set() == suspended_items(*self),
    {
        self.inner.iter().copied().collect()
    }

    /// Calls `hashbrown::HashSet::drain` and lists what it yields: every item of
    /// the set, once, in an order that is not specified. The set is left empty.
    #[verifier::external_body]
    pub(crate) fn drain(&mut self) -> (result: Vec<SuspendedItem>)
        ensures
            suspended_items(*final(self)) == Set::<SuspendedItem>::empty(),
            result@.no_duplicates(),
            result@.to_set() == suspended_items(*old(self)),
    {
        self.inner.drain().collect()
    }
}

} // verus!
