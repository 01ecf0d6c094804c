//! Segments, their flags, and sequence numbers.

use vstd::prelude::*;

verus! {

/// An integer reduced to the sequence number space.
pub open spec fn wrap(x: int) -> int {
    x % 0x1_0000_0000
}

proof fn lemma_wrap_next(x: int)
    ensures
        wrap(x + 1) == (if wrap(x) == u32::MAX {
            0
        } else {
            wrap(x) + 1
        }),
{
}

/// A TCP sequence number, handles wrap-around
#[derive(Debug, Clone, Copy, PartialEq, Eq, Hash, Structural)]
pub struct SeqN(pub u32);

impl SeqN {
    /// How many steps forward lead from `self` to `to`, going around the end of
    /// the sequence number space if need be.
    pub open spec fn distance_to(self, to: SeqN) -> int {
        wrap(to.0 - self.0)
    }

    /// The sequence number `by` steps ahead (behind, if `by` is negative).
    pub open spec fn step(self, by: int) -> SeqN {
        SeqN(wrap(self.0 + by) as u32)
    }

    /// `self` is met on the way forward from `start` to `end`, both included.
    pub open spec fn between(self, start: SeqN, end: SeqN) -> bool {
        start.distance_to(self) <= start.distance_to(end)
    }

    /// `self` is `other`, or behind it by less than half of the sequence number space.
    pub open spec fn at_or_before(self, other: SeqN) -> bool {
        self.distance_to(other) <= 0x7fff_ffff
    }

    /// The sequence number zero.
    #[verifier::allow_in_spec]
    pub fn zero() -> Self
        returns
            SeqN(0),
    {
        Self(0)
    }

    pub fn new(value: u32) -> (result: Self)
        ensures
            result == SeqN(value),
    {
        Self(value)
    }

    pub fn raw(self) -> (result: u32)
        ensures
            result == self.0,
    {
        self.0
    }

    pub fn wrapping_add(self, v: u32) -> (result: Self)
        ensures
            result == self.step(v as int),
            result.0 == self.0 + v || result.0 == self.0 + v - 0x1_0000_0000,
    {
        Self(self.0.wrapping_add(v))
    }

    pub fn wrapping_sub(self, v: u32) -> (result: Self)
        ensures
            result == self.step(-v),
            result.0 == self.0 - v || result.0 == self.0 - v + 0x1_0000_0000,
    {
        Self(self.0.wrapping_sub(v))
    }

    pub fn in_range_inclusive(self, start: Self, end: Self) -> (result: bool)
        ensures
            result == self.between(start, end),
    {
        if start == end {
            self.0 == start.0
        } else if start.0 < end.0 {
            start.0 <= self.0 && self.0 <= end.0
        } else {
            start.0 <= self.0 || self.0 <= end.0
        }
    }

    /// `self` is not ahead of `other`, in the half of the sequence number space
    /// that ends at `other`. A sequence number stands in this relation to itself.
    pub fn lt(self, other: Self) -> (result: bool)
        ensures
            result == self.at_or_before(other),
    {
        self.in_range_inclusive(other.wrapping_sub(u32::MAX / 2), other)
    }

    /// The same relation as [`SeqN::lt`].
    pub fn lte(self, other: Self) -> (result: bool)
        ensures
            result == self.at_or_before(other),
    {
        self == other || self.lt(other)
    }
}

/// Going forward and then back by the same amount, or back and then forward, ends where it began.
pub proof fn law_seqn_add_sub_inverse(n: SeqN, v: u32)
    ensures
        n.step(v as int).step(-v) == n,
        n.step(-v).step(v as int) == n,
{
}

/// Steps forward add up, around the end of the space too.
pub proof fn law_seqn_steps_add_up(n: SeqN, a: int, b: int)
    ensures
        n.step(a).step(b) == n.step(a + b),
{
}

/// The distance from one sequence number to another is what has to be added to reach it.
pub proof fn law_seqn_distance_reaches(a: SeqN, b: SeqN)
    ensures
        0 <= a.distance_to(b) < 0x1_0000_0000,
        a.step(a.distance_to(b)) == b,
{
}

/// Steps are plain addition, taken around at the end of the space: a step leads to
/// the sum where that is a sequence number, and to where the sum lies beyond the end of
/// the space, or before its beginning, counted from the other side.
pub proof fn law_seqn_steps_add(n: SeqN, v: u32)
    ensures
        n.0 + v <= u32::MAX ==> n.step(v as int).0 == n.0 + v,
        n.0 + v > u32::MAX ==> n.step(v as int).0 == n.0 + v - u32::MAX - 1,
        n.0 >= v ==> n.step(-v).0 == n.0 - v,
        n.0 < v ==> n.step(-v).0 == n.0 - v + u32::MAX + 1,
{
}

/// Going forward by less than the whole space, the distance is what was gone.
pub proof fn law_seqn_distance_is_what_was_gone(n: SeqN, v: u32)
    ensures
        n.distance_to(n.step(v as int)) == v,
        n.step(-v).distance_to(n) == v,
{
}

/// A range holds what is met on the way from its start to its end, and nothing else:
/// `v` steps from the start are in a range of `length` steps if and only if `v` is not
/// more than `length`.
pub proof fn law_seqn_range_holds_what_is_on_the_way(start: SeqN, length: u32, v: u32)
    ensures
        start.step(v as int).between(start, start.step(length as int)) <==> v <= length,
{
    law_seqn_distance_is_what_was_gone(start, v);
    law_seqn_distance_is_what_was_gone(start, length);
}

/// What is ahead by less than half of the space comes after, all else does not.
pub proof fn law_seqn_order_is_by_half_of_the_space(n: SeqN, v: u32)
    ensures
        n.at_or_before(n.step(v as int)) <==> v < 0x8000_0000,
        n.step(-v).at_or_before(n) <==> v < 0x8000_0000,
{
    law_seqn_distance_is_what_was_gone(n, v);
}

/// Wrap-around goes unnoticed: moving all operands by the same amount changes
/// neither a range check nor an ordering.
pub proof fn law_seqn_order_ignores_wrap_around(n: SeqN, start: SeqN, end: SeqN, v: int)
    ensures
        n.step(v).between(start.step(v), end.step(v)) == n.between(start, end),
        n.step(v).at_or_before(end.step(v)) == n.at_or_before(end),
{
    lemma_distance_ignores_shift(start, n, v);
    lemma_distance_ignores_shift(start, end, v);
    lemma_distance_ignores_shift(n, end, v);
}

proof fn lemma_distance_ignores_shift(a: SeqN, b: SeqN, v: int)
    ensures
        a.step(v).distance_to(b.step(v)) == a.distance_to(b),
{
    vstd::arithmetic::div_mod::lemma_sub_mod_noop(b.0 + v, a.0 + v, 0x1_0000_0000);
}

/// Of two different sequence numbers, one is before the other, and both are
/// before each other never: except at opposite points of the space, of which
/// neither is before the other.
pub proof fn law_seqn_order_is_total_but_for_opposites(a: SeqN, b: SeqN)
    ensures
        a.at_or_before(a),
        a.at_or_before(b) && b.at_or_before(a) ==> a == b,
        a.at_or_before(b) || b.at_or_before(a) || a.distance_to(b) == 0x8000_0000,
{
}

/// Header flags of a segment: a set of bits.
#[derive(Clone, Copy, PartialEq, Eq, PartialOrd, Ord, Hash, Structural)]
pub struct SegmentFlags {
    pub bits: u16,
}

impl SegmentFlags {
    /// All bits of `other` are set in `self`.
    pub open spec fn has(self, other: SegmentFlags) -> bool {
        self.bits & other.bits == other.bits
    }

    /// The bits of both.
    pub open spec fn with(self, other: SegmentFlags) -> SegmentFlags {
        SegmentFlags { bits: self.bits | other.bits }
    }

    /// The names of the flags that are set, lowest bit first.
    pub open spec fn shown_names(self) -> Seq<Seq<char>> {
        name_if(self.has(SegmentFlags::fin()), "FIN"@) + name_if(
            self.has(SegmentFlags::syn()),
            "SYN"@,
        ) + name_if(self.has(SegmentFlags::rst()), "RST"@) + name_if(
            self.has(SegmentFlags::psh()),
            "PSH"@,
        ) + name_if(self.has(SegmentFlags::ack()), "ACK"@) + name_if(
            self.has(SegmentFlags::urg()),
            "URG"@,
        ) + name_if(self.has(SegmentFlags::ece()), "ECE"@) + name_if(
            self.has(SegmentFlags::cwr()),
            "CWR"@,
        ) + name_if(self.has(SegmentFlags::ns()), "NS"@)
    }

    #[verifier::allow_in_spec]
    pub fn fin() -> Self
        returns
            (SegmentFlags { bits: 0x001 }),
    {
        Self { bits: 0x001 }
    }

    #[verifier::allow_in_spec]
    pub fn syn() -> Self
        returns
            (SegmentFlags { bits: 0x002 }),
    {
        Self { bits: 0x002 }
    }

    #[verifier::allow_in_spec]
    pub fn rst() -> Self
        returns
            (SegmentFlags { bits: 0x004 }),
    {
        Self { bits: 0x004 }
    }

    #[verifier::allow_in_spec]
    pub fn psh() -> Self
        returns
            (SegmentFlags { bits: 0x008 }),
    {
        Self { bits: 0x008 }
    }

    #[verifier::allow_in_spec]
    pub fn ack() -> Self
        returns
            (SegmentFlags { bits: 0x010 }),
    {
        Self { bits: 0x010 }
    }

    #[verifier::allow_in_spec]
    pub fn urg() -> Self
        returns
            (SegmentFlags { bits: 0x020 }),
    {
        Self { bits: 0x020 }
    }

    #[verifier::allow_in_spec]
    pub fn ece() -> Self
        returns
            (SegmentFlags { bits: 0x040 }),
    {
        Self { bits: 0x040 }
    }

    #[verifier::allow_in_spec]
    pub fn cwr() -> Self
        returns
            (SegmentFlags { bits: 0x080 }),
    {
        Self { bits: 0x080 }
    }

    #[verifier::allow_in_spec]
    pub fn ns() -> Self
        returns
            (SegmentFlags { bits: 0x100 }),
    {
        Self { bits: 0x100 }
    }

    pub fn contains(&self, other: Self) -> (result: bool)
        ensures
            result == self.has(other),
            result == (self.bits & other.bits == other.bits),
    {
        self.bits & other.bits == other.bits
    }

    /// What a debug print shows: the names of the flags that are set. Bits that are
    /// no flag have no name.
    pub fn names(&self) -> (result: Vec<&'static str>)
        ensures
            texts(result@) == self.shown_names(),
    {
        let mut names: Vec<&'static str> = Vec::new();
        assert(texts(names@) =~= Seq::<Seq<char>>::empty());
        push_if(&mut names, self.contains(Self::fin()), "FIN");
        push_if(&mut names, self.contains(Self::syn()), "SYN");
        push_if(&mut names, self.contains(Self::rst()), "RST");
        push_if(&mut names, self.contains(Self::psh()), "PSH");
        push_if(&mut names, self.contains(Self::ack()), "ACK");
        push_if(&mut names, self.contains(Self::urg()), "URG");
        push_if(&mut names, self.contains(Self::ece()), "ECE");
        push_if(&mut names, self.contains(Self::cwr()), "CWR");
        push_if(&mut names, self.contains(Self::ns()), "NS");
        assert(texts(names@) =~= self.shown_names());
        names
    }
}

/// The name alone if it is to be shown, else nothing.
pub open spec fn name_if(shown: bool, name: Seq<char>) -> Seq<Seq<char>> {
    Seq::new(
        if shown {
            1
        } else {
            0
        },
        |i: int| name,
    )
}

/// The characters of each of the texts.
pub open spec fn texts(names: Seq<&'static str>) -> Seq<Seq<char>> {
    Seq::new(names.len(), |i: int| names[i]@)
}

fn push_if(names: &mut Vec<&'static str>, shown: bool, name: &'static str)
    ensures
        texts(final(names)@) == texts(old(names)@) + name_if(shown, name@),
{
    if shown {
        names.push(name);
    }
    assert(texts(names@) =~= texts(old(names)@) + name_if(shown, name@));
}

impl core::fmt::Debug for SegmentFlags {
    /// Prints the names of the flags that are set, with bars between them.
    fn fmt(&self, f: &mut core::fmt::Formatter<'_>) -> (result: core::fmt::Result) {
        let names = self.names();
        if names.len() == 0 {
            return f.write_str("(empty)");
        }
        let mut i: usize = 0;
        while i < names.len()
            decreases names.len() - i,
        {
            if i > 0 {
                f.write_str(" | ")?;
            }
            f.write_str(names[i])?;
            i += 1;
        }
        Ok(())
    }
}

impl vstd::std_specs::ops::BitOrSpecImpl for SegmentFlags {
    open spec fn obeys_bitor_spec() -> bool {
        true
    }

    open spec fn bitor_req(self, rhs: Self) -> bool {
        true
    }

    open spec fn bitor_spec(self, rhs: Self) -> Self {
        self.with(rhs)
    }
}

impl core::ops::BitOr for SegmentFlags {
    type Output = Self;

    fn bitor(self, rhs: Self) -> (result: Self) {
        Self { bits: self.bits | rhs.bits }
    }
}

/// A union of flags has a single flag if and only if one of its parts has it.
pub proof fn law_flags_union(a: SegmentFlags, b: SegmentFlags, flag: SegmentFlags)
    requires
        exists|shift: u16| shift < 16 && flag.bits == 1u16 << shift,
    ensures
        a.with(b).has(flag) <==> a.has(flag) || b.has(flag),
{
    let (x, y, z) = (a.bits, b.bits, flag.bits);
    let shift = choose|shift: u16| shift < 16 && z == 1u16 << shift;
    assert((x | y) & z == z <==> (x & z == z || y & z == z)) by (bit_vector)
        requires
            shift < 16,
            z == 1u16 << shift,
    ;
}

/// Flags are independent bits: each of the sixteen is set in a union where it is set in
/// a part, and a set of flags is there if and only if all its bits are.
pub proof fn law_flags_are_bits(a: SegmentFlags, b: SegmentFlags, shift: u16)
    requires
        shift < 16,
    ensures
        a.has(SegmentFlags { bits: 1u16 << shift }) <==> (a.bits >> shift) % 2 == 1,
        (a.with(b).bits >> shift) % 2 == 1 <==> (a.bits >> shift) % 2 == 1 || (b.bits >> shift) % 2
            == 1,
        a.has(b) && (b.bits >> shift) % 2 == 1 ==> (a.bits >> shift) % 2 == 1,
        !a.has(b) ==> exists|i: u16|
            i < 16 && #[trigger] (b.bits >> i) % 2 == 1 && (a.bits >> i) % 2 == 0,
{
    let (x, y) = (a.bits, b.bits);
    assert(x & (1u16 << shift) == (1u16 << shift) <==> (x >> shift) % 2 == 1) by (bit_vector)
        requires
            shift < 16,
    ;
    assert(((x | y) >> shift) % 2 == 1 <==> (x >> shift) % 2 == 1 || (y >> shift) % 2 == 1)
        by (bit_vector)
        requires
            shift < 16,
    ;
    assert(x & y == y && (y >> shift) % 2 == 1 ==> (x >> shift) % 2 == 1) by (bit_vector)
        requires
            shift < 16,
    ;
    if !a.has(b) {
        assert(x >> 0u16 == x && y >> 0u16 == y) by (bit_vector);
        lemma_bits_differ_somewhere(x, y, 0);
    }
}

proof fn lemma_bits_differ_somewhere(x: u16, y: u16, from: u16)
    requires
        from <= 16,
        (x >> from) & (y >> from) != (y >> from),
    ensures
        exists|i: u16| i < 16 && #[trigger] (y >> i) % 2 == 1 && (x >> i) % 2 == 0,
    decreases 16 - from,
{
    if from == 16 {
        assert((y >> 16u16) == 0 && (x >> 16u16) & (y >> 16u16) == 0) by (bit_vector);
    } else if (y >> from) % 2 == 1 && (x >> from) % 2 == 0 {
    } else {
        let next = (from + 1) as u16;
        assert((x >> next) & (y >> next) != (y >> next)) by (bit_vector)
            requires
                from < 16,
                next == from + 1,
                (x >> from) & (y >> from) != (y >> from),
                !((y >> from) % 2 == 1 && (x >> from) % 2 == 0),
        ;
        lemma_bits_differ_somewhere(x, y, next);
    }
}

/// A debug print of flags shows a name if and only if its flag is set, and none twice.
#[verifier::spinoff_prover]
#[verifier::rlimit(40)]
pub proof fn law_flags_are_shown_by_name(flags: SegmentFlags)
    ensures
        flags.shown_names().contains("FIN"@) <==> flags.has(SegmentFlags::fin()),
        flags.shown_names().contains("SYN"@) <==> flags.has(SegmentFlags::syn()),
        flags.shown_names().contains("RST"@) <==> flags.has(SegmentFlags::rst()),
        flags.shown_names().contains("PSH"@) <==> flags.has(SegmentFlags::psh()),
        flags.shown_names().contains("ACK"@) <==> flags.has(SegmentFlags::ack()),
        flags.shown_names().contains("URG"@) <==> flags.has(SegmentFlags::urg()),
        flags.shown_names().contains("ECE"@) <==> flags.has(SegmentFlags::ece()),
        flags.shown_names().contains("CWR"@) <==> flags.has(SegmentFlags::cwr()),
        flags.shown_names().contains("NS"@) <==> flags.has(SegmentFlags::ns()),
        flags.shown_names().no_duplicates(),
        forall|name: Seq<char>| #[trigger]
            flags.shown_names().contains(name) ==> name == "FIN"@ || name == "SYN"@ || name
                == "RST"@ || name == "PSH"@ || name == "ACK"@ || name == "URG"@ || name == "ECE"@
                || name == "CWR"@ || name == "NS"@,
{
    let fin = name_if(flags.has(SegmentFlags::fin()), "FIN"@);
    lemma_name_if(flags.has(SegmentFlags::fin()), "FIN"@);
    let syn = name_if(flags.has(SegmentFlags::syn()), "SYN"@);
    lemma_name_if(flags.has(SegmentFlags::syn()), "SYN"@);
    let rst = name_if(flags.has(SegmentFlags::rst()), "RST"@);
    lemma_name_if(flags.has(SegmentFlags::rst()), "RST"@);
    let psh = name_if(flags.has(SegmentFlags::psh()), "PSH"@);
    lemma_name_if(flags.has(SegmentFlags::psh()), "PSH"@);
    let ack = name_if(flags.has(SegmentFlags::ack()), "ACK"@);
    lemma_name_if(flags.has(SegmentFlags::ack()), "ACK"@);
    let urg = name_if(flags.has(SegmentFlags::urg()), "URG"@);
    lemma_name_if(flags.has(SegmentFlags::urg()), "URG"@);
    let ece = name_if(flags.has(SegmentFlags::ece()), "ECE"@);
    lemma_name_if(flags.has(SegmentFlags::ece()), "ECE"@);
    let cwr = name_if(flags.has(SegmentFlags::cwr()), "CWR"@);
    lemma_name_if(flags.has(SegmentFlags::cwr()), "CWR"@);
    let ns = name_if(flags.has(SegmentFlags::ns()), "NS"@);
    lemma_name_if(flags.has(SegmentFlags::ns()), "NS"@);
    lemma_nine_names(fin, syn, rst, psh, ack, urg, ece, cwr, ns);
}

proof fn lemma_name_if(shown: bool, name: Seq<char>)
    ensures
        name_if(shown, name).contains(name) <==> shown,
        only(name_if(shown, name), name),
{
    let names = name_if(shown, name);
    if shown {
        assert(names[0] == name);
    }
}

/// There is nothing among the names but `name`, and that once at most.
spec fn only(names: Seq<Seq<char>>, name: Seq<char>) -> bool {
    &&& names.no_duplicates()
    &&& forall|other: Seq<char>| #[trigger] names.contains(other) ==> other == name
}

proof fn lemma_add_names(before: Seq<Seq<char>>, part: Seq<Seq<char>>, name: Seq<char>)
    requires
        before.no_duplicates(),
        !before.contains(name),
        only(part, name),
    ensures
        (before + part).no_duplicates(),
        forall|other: Seq<char>| #[trigger]
            (before + part).contains(other) <==> before.contains(other) || part.contains(other),
{
    let after = before + part;
    assert forall|other: Seq<char>| #[trigger] after.contains(other) <==> before.contains(other)
        || part.contains(other) by {
        if after.contains(other) {
            let k = choose|k: int| 0 <= k < after.len() && after[k] == other;
            if k < before.len() {
                assert(before[k] == other);
            } else {
                assert(part[k - before.len()] == other);
            }
        }
        if before.contains(other) {
            let k = choose|k: int| 0 <= k < before.len() && before[k] == other;
            assert(after[k] == other);
        }
        if part.contains(other) {
            let k = choose|k: int| 0 <= k < part.len() && part[k] == other;
            assert(after[before.len() + k] == other);
        }
    }
    assert forall|i: int, j: int|
        0 <= i < after.len() && 0 <= j < after.len() && i != j implies after[i] != after[j] by {
        if i < before.len() && j < before.len() {
            assert(before[i] != before[j]);
        } else if i < before.len() {
            assert(before.contains(before[i]));
            assert(part.contains(part[j - before.len()]));
        } else if j < before.len() {
            assert(before.contains(before[j]));
            assert(part.contains(part[i - before.len()]));
        } else {
            assert(part[i - before.len()] != part[j - before.len()]);
        }
    }
}

/// What the names of all flags are together, if those of each flag are nothing but its own.
proof fn lemma_nine_names(
    fin: Seq<Seq<char>>,
    syn: Seq<Seq<char>>,
    rst: Seq<Seq<char>>,
    psh: Seq<Seq<char>>,
    ack: Seq<Seq<char>>,
    urg: Seq<Seq<char>>,
    ece: Seq<Seq<char>>,
    cwr: Seq<Seq<char>>,
    ns: Seq<Seq<char>>,
)
    requires
        only(fin, "FIN"@),
        only(syn, "SYN"@),
        only(rst, "RST"@),
        only(psh, "PSH"@),
        only(ack, "ACK"@),
        only(urg, "URG"@),
        only(ece, "ECE"@),
        only(cwr, "CWR"@),
        only(ns, "NS"@),
    ensures
        ({
            let all = fin + syn + rst + psh + ack + urg + ece + cwr + ns;
            &&& all.no_duplicates()
            &&& all.contains("FIN"@) <==> fin.contains("FIN"@)
            &&& all.contains("SYN"@) <==> syn.contains("SYN"@)
            &&& all.contains("RST"@) <==> rst.contains("RST"@)
            &&& all.contains("PSH"@) <==> psh.contains("PSH"@)
            &&& all.contains("ACK"@) <==> ack.contains("ACK"@)
            &&& all.contains("URG"@) <==> urg.contains("URG"@)
            &&& all.contains("ECE"@) <==> ece.contains("ECE"@)
            &&& all.contains("CWR"@) <==> cwr.contains("CWR"@)
            &&& all.contains("NS"@) <==> ns.contains("NS"@)
            &&& forall|name: Seq<char>| #[trigger]
                all.contains(name) ==> name == "FIN"@ || name == "SYN"@ || name == "RST"@ || name
                    == "PSH"@ || name == "ACK"@ || name == "URG"@ || name == "ECE"@ || name
                    == "CWR"@ || name == "NS"@
        }),
{
    lemma_names_differ();
    lemma_add_names(fin, syn, "SYN"@);
    lemma_add_names(fin + syn, rst, "RST"@);
    lemma_add_names(fin + syn + rst, psh, "PSH"@);
    lemma_add_names(fin + syn + rst + psh, ack, "ACK"@);
    lemma_add_names(fin + syn + rst + psh + ack, urg, "URG"@);
    lemma_add_names(fin + syn + rst + psh + ack + urg, ece, "ECE"@);
    lemma_add_names(fin + syn + rst + psh + ack + urg + ece, cwr, "CWR"@);
    lemma_add_names(fin + syn + rst + psh + ack + urg + ece + cwr, ns, "NS"@);
}

/// The names of the flags begin with different letters.
proof fn lemma_names_differ()
    ensures
        "FIN"@[0] == 'F',
        "SYN"@[0] == 'S',
        "RST"@[0] == 'R',
        "PSH"@[0] == 'P',
        "ACK"@[0] == 'A',
        "URG"@[0] == 'U',
        "ECE"@[0] == 'E',
        "CWR"@[0] == 'C',
        "NS"@[0] == 'N',
{
    reveal_strlit("FIN");
    reveal_strlit("SYN");
    reveal_strlit("RST");
    reveal_strlit("PSH");
    reveal_strlit("ACK");
    reveal_strlit("URG");
    reveal_strlit("ECE");
    reveal_strlit("CWR");
    reveal_strlit("NS");
}

/// What a segment says, with its data as a sequence of bytes.
#[verifier::ext_equal]
pub struct SegmentView {
    pub seqn: SeqN,
    pub ackn: SeqN,
    pub window: u16,
    pub flags: SegmentFlags,
    pub data: Seq<u8>,
}

impl SegmentView {
    /// Size in the sequence number space: a byte of data counts one, SYN and FIN one each.
    pub open spec fn seq_size(self) -> int {
        wrap(
            self.data.len() + (if self.flags.has(SegmentFlags::syn()) {
                1int
            } else {
                0
            }) + (if self.flags.has(SegmentFlags::fin()) {
                1int
            } else {
                0
            }),
        )
    }

    /// The sequence number just after the segment.
    pub open spec fn seqn_after(self) -> SeqN {
        self.seqn.step(self.seq_size())
    }
}

#[derive(PartialEq, Eq)]
pub struct SegmentMeta {
    pub seqn: SeqN,
    pub ackn: SeqN,
    pub window: u16,
    pub flags: SegmentFlags,
    pub data: Vec<u8>,
}

impl View for SegmentMeta {
    type V = SegmentView;

    open spec fn view(&self) -> SegmentView {
        SegmentView {
            seqn: self.seqn,
            ackn: self.ackn,
            window: self.window,
            flags: self.flags,
            data: self.data@,
        }
    }
}

impl Clone for SegmentMeta {
    fn clone(&self) -> (result: Self)
        ensures
            result@ == self@,
            result.seqn == self.seqn,
            result.ackn == self.ackn,
            result.window == self.window,
            result.flags == self.flags,
            result.data@ == self.data@,
    {
        let data = self.data.clone();
        assert(data@ =~= self.data@);
        Self { seqn: self.seqn, ackn: self.ackn, window: self.window, flags: self.flags, data }
    }
}

/// How the data of a segment is best shown to a reader.
#[derive(Debug, Clone, Copy, PartialEq, Eq)]
pub enum ShownData<'a> {
    Empty,
    Text(&'a str),
    Bytes(&'a [u8]),
}

/// Calls `core::str::from_utf8`, which gives the text that the bytes encode if
/// they are valid UTF-8, and an error otherwise. The error is dropped.
#[verifier::external_body]
fn text_of_bytes(bytes: &[u8]) -> (result: Option<&str>)
    ensures
        result is Some <==> vstd::utf8::valid_utf8(bytes@),
        result matches Some(text) ==> vstd::utf8::encode_utf8(text@) == bytes@,
{
    core::str::from_utf8(bytes).ok()
}

impl SegmentMeta {
    /// Size in the sequence number space
    pub fn seq_size(&self) -> (result: u32)
        ensures
            result == self@.seq_size(),
            self.data@.len() + 2 <= u32::MAX ==> result == self.data@.len() + (
            if self.flags.bits & 2 == 2 {
                1int
            } else {
                0
            }) + (if self.flags.bits & 1 == 1 {
                1int
            } else {
                0
            }),
    {
        let len: u64 = self.data.len() as u64;
        let mut result: u32 = #[verifier::truncate] (len as u32);
        assert(len as u32 == len % 0x1_0000_0000u64) by (bit_vector);
        let ghost mut size: int = len as int;
        if self.flags.contains(SegmentFlags::syn()) {
            proof {
                lemma_wrap_next(size);
                size = size + 1;
            }
            result = result.wrapping_add(1);
        }
        assert(result == wrap(size));
        if self.flags.contains(SegmentFlags::fin()) {
            proof {
                lemma_wrap_next(size);
                size = size + 1;
            }
            result = result.wrapping_add(1);
        }
        assert(result == wrap(size));
        result
    }

    /// End of the seqn range used by this packet
    pub fn last_seqn(&self) -> (result: SeqN)
        ensures
            result == self@.seqn_after().step(-1),
            result.distance_to(self@.seqn_after()) == 1,
    {
        self.seqn_after().wrapping_sub(1)
    }

    /// SeqN just after this segment
    ///
    /// ## Example
    ///
    /// Packet at seqn=10 with data "123" and a FIN bit looks like this:
    ///
    /// |10 |11 |12 |13 |
    /// |---|---|---|---|
    /// | 1 | 2 | 3 |FIN|
    /// |---|---|---|---|
    ///
    /// So this function would return 14
    pub fn seqn_after(&self) -> (result: SeqN)
        ensures
            result == self@.seqn_after(),
            self.seqn.distance_to(result) == self@.seq_size(),
    {
        self.seqn.wrapping_add(self.seq_size())
    }

    /// What a debug print shows of the data: nothing, the text if it is valid
    /// UTF-8, else the bytes.
    pub fn shown_data(&self) -> (result: ShownData<'_>)
        ensures
            match result {
                ShownData::Empty => self.data@.len() == 0,
                ShownData::Text(text) => {
                    &&& self.data@.len() != 0
                    &&& vstd::utf8::valid_utf8(self.data@)
                    &&& vstd::utf8::encode_utf8(text@) == self.data@
                },
                ShownData::Bytes(bytes) => {
                    &&& self.data@.len() != 0
                    &&& !vstd::utf8::valid_utf8(self.data@)
                    &&& bytes@ == self.data@
                },
            },
    {
        if self.data.len() == 0 {
            ShownData::Empty
        } else {
            match text_of_bytes(self.data.as_slice()) {
                Some(text) => ShownData::Text(text),
                None => ShownData::Bytes(self.data.as_slice()),
            }
        }
    }
}

impl core::fmt::Debug for SegmentMeta {
    /// Prints the fields, with the data as text where it is text.
    fn fmt(&self, f: &mut core::fmt::Formatter<'_>) -> (result: core::fmt::Result) {
        let mut fs = f.debug_struct("SegmentMeta");
        fs.field("seqn", &self.seqn);
        fs.field("ackn", &self.ackn);
        fs.field("window", &self.window);
        fs.field("flags", &self.flags);
        match self.shown_data() {
            ShownData::Text(text) => {
                fs.field("data", &text);
            },
            ShownData::Empty | ShownData::Bytes(_) => {
                fs.field("data", &self.data);
            },
        }
        fs.finish()
    }
}

/// The model of a segment has all that the segment has.
pub proof fn law_segment_view_shows_the_segment(seg: SegmentMeta)
    ensures
        seg@.seqn == seg.seqn,
        seg@.ackn == seg.ackn,
        seg@.window == seg.window,
        seg@.flags == seg.flags,
        seg@.data == seg.data@,
{
}

/// Each byte of data counts one, and so do SYN and FIN, as long as the sum fits in the
/// sequence number space.
pub proof fn law_segment_size_counts_bytes(seg: SegmentView)
    requires
        seg.data.len() + 2 <= u32::MAX,
    ensures
        seg.flags.bits & 1 == 1 && seg.flags.bits & 2 == 2 ==> seg.seq_size() == seg.data.len() + 2,
        seg.flags.bits & 1 == 1 && seg.flags.bits & 2 != 2 ==> seg.seq_size() == seg.data.len() + 1,
        seg.flags.bits & 1 != 1 && seg.flags.bits & 2 == 2 ==> seg.seq_size() == seg.data.len() + 1,
        seg.flags.bits & 1 != 1 && seg.flags.bits & 2 != 2 ==> seg.seq_size() == seg.data.len(),
{
}

/// One more byte of data moves the sequence number after a segment by one, however
/// much data there is, and a segment without data, SYN and FIN has no size. Nothing
/// else in a segment matters.
pub proof fn law_segment_size_grows_with_data(seg: SegmentView, byte: u8, other: SegmentView)
    ensures
        (SegmentView { data: seg.data.push(byte), ..seg }).seqn_after() == seg.seqn_after().step(1),
        seg.data.len() == 0 && seg.flags.bits & 1 != 1 && seg.flags.bits & 2 != 2 ==> {
            &&& seg.seq_size() == 0
            &&& seg.seqn_after() == seg.seqn
        },
        seg.data.len() == other.data.len() && seg.flags == other.flags ==> seg.seq_size()
            == other.seq_size(),
{
    let longer = SegmentView { data: seg.data.push(byte), ..seg };
    assert(longer.data.len() == seg.data.len() + 1);
    let size = seg.data.len() + (if seg.flags.has(SegmentFlags::syn()) {
        1int
    } else {
        0
    }) + (if seg.flags.has(SegmentFlags::fin()) {
        1int
    } else {
        0
    });
    assert(longer.seq_size() == wrap(size + 1));
    assert(seg.seq_size() == wrap(size));
    lemma_wrap_next(size);
}

/// The sequence number after a segment is as far from its own as the segment is long.
pub proof fn law_segment_ends_after_its_size(seg: SegmentView)
    ensures
        0 <= seg.seq_size() <= u32::MAX,
        seg.seqn.distance_to(seg.seqn_after()) == seg.seq_size(),
{
}

/// A segment that takes up room in the sequence number space covers the numbers
/// from its own to the last one: the one just after it is not among them.
pub proof fn law_segment_covers_its_range(seg: SegmentView)
    requires
        seg.seq_size() > 0,
    ensures
        seg.seqn.distance_to(seg.seqn_after().step(-1)) == seg.seq_size() - 1,
        seg.seqn.between(seg.seqn, seg.seqn_after().step(-1)),
        !seg.seqn_after().between(seg.seqn, seg.seqn_after().step(-1)),
{
}

} // verus!
