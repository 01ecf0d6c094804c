//! Suspended calls, and the cookies by which they are woken.

use vstd::prelude::*;

use crate::result::Error;
use crate::segment::SeqN;
use crate::suspended::{SuspendedItem, SuspendedSet};

verus! {

/// Blocking operation returns an event cookie.
/// The operation can block in either continue or retry mode,
/// and the corresponding action should be taken when the cookie
/// is sent through `user_data.event()`.
#[derive(Debug, Clone, Copy, PartialEq, Eq, Hash, Structural)]
pub struct Cookie(u64);

impl Cookie {
    /// The number of the cookie. Cookies are numbered in the order in which they are made.
    pub closed spec fn number(self) -> nat {
        self.0 as nat
    }

    /// The cookie with the number zero, the first one.
    pub(crate) fn zero() -> (result: Cookie)
        ensures
            result.number() == 0,
    {
        Cookie(0)
    }

    /// The cookie that follows this one.
    pub(crate) fn next(self) -> (result: Cookie)
        requires
            self.number() < u64::MAX,
        ensures
            result.number() == self.number() + 1,
    {
        Cookie(self.0 + 1)
    }
}

/// Cookies with the same number are the same.
pub proof fn law_cookie_is_its_number(a: Cookie, b: Cookie)
    ensures
        a.number() == b.number() ==> a == b,
{
}

/// Something that a suspended call can wait for, and that two numbers can stand for.
pub trait Condition: Sized {
    /// The two numbers.
    spec fn code(self) -> (u8, u32);

    /// Different conditions have different numbers.
    proof fn lemma_code_injective(a: Self, b: Self)
        ensures
            a.code() == b.code() ==> a == b,
    ;

    fn to_code(self) -> (result: (u8, u32))
        ensures
            result == self.code(),
    ;

    fn from_code(code: (u8, u32)) -> (result: Self)
        requires
            exists|condition: Self| condition.code() == code,
        ensures
            result.code() == code,
    ;
}

/// The only condition of its kind: there is nothing to tell apart.
impl Condition for () {
    open spec fn code(self) -> (u8, u32) {
        (0, 0)
    }

    proof fn lemma_code_injective(a: Self, b: Self) {
    }

    fn to_code(self) -> (result: (u8, u32)) {
        (0, 0)
    }

    fn from_code(code: (u8, u32)) -> (result: Self) {
        ()
    }
}

#[derive(Debug, Clone, Copy, PartialEq, Eq, Hash, Structural)]
pub enum WaitUntil {
    /// Wait until connection has been established
    Established,
    /// No data in tx buffer and no queued tx calls
    TxQueueEmpty,
    /// Tx side of buffer is closed (FIN ACK'd)
    TxClosed,
    /// Rx side of buffer is closed (FIN ACK'd)
    RxClosed,
    /// Both tx and rx sides of buffer are closed (FINs ACK'd)
    BothClosed,
    /// Wait until a receive buffer has enough data
    Recv { count: u32 },
    /// Wait until a segment is sent and acknowledged
    Acknowledged { seqn: SeqN },
}

impl Condition for WaitUntil {
    open spec fn code(self) -> (u8, u32) {
        match self {
            WaitUntil::Established => (0, 0),
            WaitUntil::TxQueueEmpty => (1, 0),
            WaitUntil::TxClosed => (2, 0),
            WaitUntil::RxClosed => (3, 0),
            WaitUntil::BothClosed => (4, 0),
            WaitUntil::Recv { count } => (5, count),
            WaitUntil::Acknowledged { seqn } => (6, seqn.0),
        }
    }

    proof fn lemma_code_injective(a: Self, b: Self) {
    }

    fn to_code(self) -> (result: (u8, u32)) {
        match self {
            WaitUntil::Established => (0, 0),
            WaitUntil::TxQueueEmpty => (1, 0),
            WaitUntil::TxClosed => (2, 0),
            WaitUntil::RxClosed => (3, 0),
            WaitUntil::BothClosed => (4, 0),
            WaitUntil::Recv { count } => (5, count),
            WaitUntil::Acknowledged { seqn } => (6, seqn.raw()),
        }
    }

    fn from_code(code: (u8, u32)) -> (result: Self) {
        match code.0 {
            0 => WaitUntil::Established,
            1 => WaitUntil::TxQueueEmpty,
            2 => WaitUntil::TxClosed,
            3 => WaitUntil::RxClosed,
            4 => WaitUntil::BothClosed,
            5 => WaitUntil::Recv { count: code.1 },
            _ => WaitUntil::Acknowledged { seqn: SeqN::new(code.1) },
        }
    }
}

/// The numbers of a suspended call.
spec fn item_of<Event: Condition>(call: (Event, Cookie)) -> SuspendedItem {
    (call.0.code().0, call.0.code().1, call.1.0)
}

/// The suspended call that the numbers stand for.
spec fn call_of<Event: Condition>(item: SuspendedItem) -> (Event, Cookie) {
    (choose|event: Event| event.code() == (item.0, item.1), Cookie(item.2))
}

proof fn lemma_call_of_item<Event: Condition>(call: (Event, Cookie))
    ensures
        call_of::<Event>(item_of(call)) == call,
{
    let item = item_of(call);
    assert(call.0.code() == (item.0, item.1));
    Event::lemma_code_injective(call_of::<Event>(item).0, call.0);
}

/// Calls that are waiting for an event.
pub struct Events<Event: Condition> {
    /// Suspended user queries waiting for condition
    suspended: SuspendedSet,
    next_cookie: Cookie,
    _event: core::marker::PhantomData<Event>,
}

/// What an [`Events`] holds: the calls that are suspended, each with its cookie,
/// and the number of the cookie that the next one will get.
#[verifier::ext_equal]
#[verifier::reject_recursive_types(Event)]
pub struct EventsView<Event> {
    pub suspended: Set<(Event, Cookie)>,
    pub next_cookie: nat,
}

impl<Event: Condition> View for Events<Event> {
    type V = EventsView<Event>;

    closed spec fn view(&self) -> EventsView<Event> {
        EventsView {
            suspended: Set::new(
                |call: (Event, Cookie)|
                    crate::suspended::suspended_items(self.suspended).contains(item_of(call)),
            ),
            next_cookie: self.next_cookie.number(),
        }
    }
}

impl<Event: Condition> Events<Event> {
    /// Each item stands for a suspended call, and has an older cookie than the next one.
    pub closed spec fn wf(&self) -> bool {
        forall|item: SuspendedItem| #[trigger]
            crate::suspended::suspended_items(self.suspended).contains(item) ==> {
                &&& item_of(call_of::<Event>(item)) == item
                &&& item.2 < self.next_cookie.0
            }
    }

    /// No suspended call has the cookie that the next one will get, or one after that.
    pub proof fn lemma_cookies_are_fresh(&self)
        requires
            self.wf(),
        ensures
            forall|event: Event, cookie: Cookie| #[trigger]
                self@.suspended.contains((event, cookie)) ==> cookie.number() < self@.next_cookie,
    {
        assert forall|event: Event, cookie: Cookie| #[trigger]
            self@.suspended.contains((event, cookie)) implies cookie.number()
            < self@.next_cookie by {
            let item = item_of((event, cookie));
            assert(crate::suspended::suspended_items(self.suspended).contains(item));
        }
    }

    pub fn new() -> (result: Self)
        ensures
            result.wf(),
            result@ == (EventsView::<Event> { suspended: Set::empty(), next_cookie: 0 }),
    {
        let result = Self {
            suspended: SuspendedSet::new(),
            next_cookie: Cookie::zero(),
            _event: core::marker::PhantomData,
        };
        assert(result@.suspended =~= Set::<(Event, Cookie)>::empty());
        result
    }

    /// A cookie that was not handed out before.
    pub fn new_cookie(&mut self) -> (result: Cookie)
        requires
            old(self).wf(),
            old(self)@.next_cookie < u64::MAX,
        ensures
            final(self).wf(),
            result.number() == old(self)@.next_cookie,
            final(self)@ == (EventsView { next_cookie: old(self)@.next_cookie + 1, ..old(self)@ }),
    {
        let result = self.next_cookie;
        self.next_cookie = self.next_cookie.next();
        result
    }

    /// Suspends a call that is to be tried again.
    pub fn return_retry_after<T>(&mut self, until: Event) -> (result: Result<T, Error>)
        requires
            old(self).wf(),
            old(self)@.next_cookie < u64::MAX,
        ensures
            final(self).wf(),
            result matches Err(Error::RetryAfter(cookie)) && {
                &&& cookie.number() == old(self)@.next_cookie
                &&& final(self)@.suspended == old(self)@.suspended.insert((until, cookie))
                &&& final(self)@.next_cookie == old(self)@.next_cookie + 1
                &&& final(self)@ == old(self)@.suspend(until, cookie)
            },
    {
        let cookie = self.new_cookie();
        self.insert(until, cookie);
        Err(Error::RetryAfter(cookie))
    }

    /// Suspends a call that is to go on where it stopped.
    pub fn return_continue_after<T>(&mut self, until: Event) -> (result: Result<T, Error>)
        requires
            old(self).wf(),
            old(self)@.next_cookie < u64::MAX,
        ensures
            final(self).wf(),
            result matches Err(Error::ContinueAfter(cookie)) && {
                &&& cookie.number() == old(self)@.next_cookie
                &&& final(self)@.suspended == old(self)@.suspended.insert((until, cookie))
                &&& final(self)@.next_cookie == old(self)@.next_cookie + 1
                &&& final(self)@ == old(self)@.suspend(until, cookie)
            },
    {
        let cookie = self.new_cookie();
        self.insert(until, cookie);
        Err(Error::ContinueAfter(cookie))
    }

    /// Some suspended call waits for a condition that `f` accepts.
    ///
    /// `f` may be asked about any of the conditions that suspended calls wait for,
    /// and if the result is `false` it was asked about all of them.
    pub fn any_suspended<F: Fn(Event) -> bool>(&mut self, f: F) -> (result: bool)
        requires
            old(self).wf(),
            forall|event: Event, cookie: Cookie| #[trigger]
                old(self)@.suspended.contains((event, cookie)) ==> call_requires(f, (event,)),
        ensures
            *final(self) == *old(self),
            result ==> exists|event: Event, cookie: Cookie|
                #![trigger old(self)@.suspended.contains((event, cookie))]
                old(self)@.suspended.contains((event, cookie)) && call_ensures(f, (event,), true),
            !result ==> forall|event: Event, cookie: Cookie| #[trigger]
                old(self)@.suspended.contains((event, cookie)) ==> call_ensures(
                    f,
                    (event,),
                    false,
                ),
    {
        let items = self.suspended.list();
        let mut i: usize = 0;
        while i < items.len()
            invariant
                self.wf(),
                items@.to_set() == crate::suspended::suspended_items(self.suspended),
                forall|event: Event, cookie: Cookie| #[trigger]
                    self@.suspended.contains((event, cookie)) ==> call_requires(f, (event,)),
                i <= items.len(),
                *self == *old(self),
                forall|j: int|
                    0 <= j < i ==> call_ensures(
                        f,
                        (call_of::<Event>(#[trigger] items[j]).0,),
                        false,
                    ),
            decreases items.len() - i,
        {
            let item = items[i];
            let ghost call = call_of::<Event>(item);
            assert(items@.to_set().contains(item));
            assert(call.0.code() == (item.0, item.1));
            let event = Event::from_code((item.0, item.1));
            proof {
                Event::lemma_code_injective(event, call.0);
                assert(self@.suspended.contains((call.0, call.1)));
            }
            if f(event) {
                assert(old(self)@.suspended.contains((call.0, call.1)));
                return true;
            }
            i += 1;
        }
        proof {
            assert forall|event: Event, cookie: Cookie| #[trigger]
                old(self)@.suspended.contains((event, cookie)) implies call_ensures(
                f,
                (event,),
                false,
            ) by {
                assert(items@.to_set().contains(item_of((event, cookie))));
                let j = choose|j: int| 0 <= j < items.len() && items[j] == item_of((event, cookie));
                lemma_call_of_item((event, cookie));
            }
        }
        false
    }

    /// Takes out one suspended call, if there is any. Which one is left open.
    pub fn take_any(&mut self) -> (result: Option<(Event, Cookie)>)
        requires
            old(self).wf(),
        ensures
            final(self).wf(),
            match result {
                Some(call) => {
                    &&& old(self)@.suspended.contains(call)
                    &&& final(self)@ == (EventsView {
                        suspended: old(self)@.suspended.remove(call),
                        ..old(self)@
                    })
                },
                None => {
                    &&& old(self)@.suspended == Set::<(Event, Cookie)>::empty()
                    &&& final(self)@ == old(self)@
                },
            },
    {
        let items = self.suspended.list();
        if items.len() == 0 {
            proof {
                assert forall|call: (Event, Cookie)| !old(self)@.suspended.contains(call) by {
                    assert(!items@.to_set().contains(item_of(call)));
                }
                assert(old(self)@.suspended =~= Set::<(Event, Cookie)>::empty());
            }
            return None;
        }
        let item = items[0];
        let ghost call = call_of::<Event>(item);
        assert(items@.to_set().contains(item));
        assert(call.0.code() == (item.0, item.1));
        let event = Event::from_code((item.0, item.1));
        self.suspended.remove(item);
        proof {
            Event::lemma_code_injective(event, call.0);
            assert forall|other: (Event, Cookie)| item_of(other) == item implies other == call by {
                lemma_call_of_item(other);
            }
            assert(self@.suspended =~= old(self)@.suspended.remove(call));
        }
        Some((event, Cookie(item.2)))
    }

    /// Takes out all suspended calls and lists them, each once. Their order is left open.
    pub fn take_all(&mut self) -> (result: Vec<(Event, Cookie)>)
        requires
            old(self).wf(),
        ensures
            final(self).wf(),
            final(self)@ == (EventsView { suspended: Set::empty(), ..old(self)@ }),
            result@.no_duplicates(),
            result@.to_set() == old(self)@.suspended,
    {
        let items = self.suspended.drain();
        let mut result: Vec<(Event, Cookie)> = Vec::new();
        let mut i: usize = 0;
        while i < items.len()
            invariant
                i <= items.len(),
                result.len() == i,
                old(self).wf(),
                items@.to_set() == crate::suspended::suspended_items(old(self).suspended),
                forall|j: int| 0 <= j < i ==> result[j] == call_of::<Event>(#[trigger] items[j]),
            decreases items.len() - i,
        {
            let item = items[i];
            let ghost call = call_of::<Event>(item);
            assert(items@.to_set().contains(item));
            assert(call.0.code() == (item.0, item.1));
            let event = Event::from_code((item.0, item.1));
            proof {
                Event::lemma_code_injective(event, call.0);
            }
            result.push((event, Cookie(item.2)));
            i += 1;
        }
        proof {
            assert forall|j: int| 0 <= j < items.len() implies item_of(#[trigger] result[j])
                == items[j] by {
                assert(items@.to_set().contains(items[j]));
            }
            assert forall|call: (Event, Cookie)|
                result@.to_set().contains(call) == old(self)@.suspended.contains(call) by {
                if result@.to_set().contains(call) {
                    let j = choose|j: int| 0 <= j < result.len() && result[j] == call;
                    assert(items@.to_set().contains(items[j]));
                }
                if old(self)@.suspended.contains(call) {
                    assert(items@.to_set().contains(item_of(call)));
                    let j = choose|j: int| 0 <= j < items.len() && items[j] == item_of(call);
                    lemma_call_of_item(call);
                    assert(result[j] == call);
                }
            }
            assert(result@.to_set() =~= old(self)@.suspended);
            assert(self@.suspended =~= Set::<(Event, Cookie)>::empty());
        }
        result
    }

    fn insert(&mut self, until: Event, cookie: Cookie)
        requires
            old(self).wf(),
            cookie.number() < old(self)@.next_cookie,
        ensures
            final(self).wf(),
            final(self)@ == (EventsView {
                suspended: old(self)@.suspended.insert((until, cookie)),
                ..old(self)@
            }),
    {
        let code = until.to_code();
        let item: SuspendedItem = (code.0, code.1, cookie.0);
        self.suspended.insert(item);
        proof {
            assert(item == item_of((until, cookie)));
            lemma_call_of_item((until, cookie));
            assert forall|call: (Event, Cookie)| item_of(call) == item implies call == (
            until,
            cookie,
            ) by {
                lemma_call_of_item(call);
            }
            assert(self@.suspended =~= old(self)@.suspended.insert((until, cookie)));
        }
    }
}

impl<Event> EventsView<Event> {
    /// The same with one more suspended call, which has the next cookie.
    pub open spec fn suspend(self, until: Event, cookie: Cookie) -> EventsView<Event> {
        EventsView {
            suspended: self.suspended.insert((until, cookie)),
            next_cookie: self.next_cookie + 1,
        }
    }
}

/// Suspending a call keeps all that are suspended, adds the one, and counts its cookie.
pub proof fn law_suspending_adds_one_call<Event>(
    events: EventsView<Event>,
    until: Event,
    cookie: Cookie,
)
    ensures
        forall|call: (Event, Cookie)| #[trigger]
            events.suspend(until, cookie).suspended.contains(call) <==> call == (until, cookie)
                || events.suspended.contains(call),
        events.suspend(until, cookie).next_cookie == events.next_cookie + 1,
{
}

/// No two suspended calls share a cookie: where all suspended calls have older
/// cookies than the next one (see [`Events::lemma_cookies_are_fresh`]), the next two
/// calls get cookies that are in nobody's hands, and different ones. It stays so.
pub proof fn law_cookies_do_not_repeat<Event>(
    events: EventsView<Event>,
    first_until: Event,
    first: Cookie,
    second: Cookie,
)
    requires
        forall|event: Event, cookie: Cookie| #[trigger]
            events.suspended.contains((event, cookie)) ==> cookie.number() < events.next_cookie,
        first.number() == events.next_cookie,
        second.number() == events.suspend(first_until, first).next_cookie,
    ensures
        first != second,
        forall|event: Event| !events.suspended.contains((event, first)),
        forall|event: Event| !events.suspend(first_until, first).suspended.contains(
            (event, second),
        ),
        forall|event: Event, cookie: Cookie| #[trigger]
            events.suspend(first_until, first).suspended.contains((event, cookie))
                ==> cookie.number() < events.suspend(first_until, first).next_cookie,
{
}

} // verus!
