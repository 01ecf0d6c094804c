//! Sockets that wait for connection requests.

use std::collections::VecDeque;

use vstd::prelude::*;

use crate::connection::{Connection, Protocol};
use crate::event::{Cookie, Events, EventsView};
use crate::options::SocketOptions;
use crate::result::Error;
use crate::segment::{SegmentFlags, SegmentMeta, SegmentView, SeqN};
use crate::state::ConnectionState;
use crate::time::Duration;
use crate::user_data::{UserCall, UserData};

verus! {

/// Reset without acknowledgement, numbered as the other side expects it from the
/// acknowledgement in its segment.
pub open spec fn reset_for(seg: SegmentView) -> SegmentView {
    SegmentView {
        seqn: seg.ackn,
        ackn: SeqN::zero(),
        window: 0,
        flags: SegmentFlags::rst(),
        data: Seq::empty(),
    }
}

/// Answer to a connection request for which there is no room.
pub open spec fn refusal_of(seg: SegmentView) -> SegmentView {
    SegmentView {
        seqn: seg.ackn.step(1),
        ackn: SeqN::zero(),
        window: 0,
        flags: SegmentFlags::ack().with(SegmentFlags::rst()),
        data: Seq::empty(),
    }
}

/// Telling the suspended calls that the socket was closed, in the order given.
pub open spec fn cancel_all<Addr, Time>(woken: Seq<((), Cookie)>) -> Seq<UserCall<Addr, Time>> {
    Seq::new(
        woken.len(),
        |i: int| UserCall::Event { cookie: woken[i].1, result: Err(Error::ListenClosed) },
    )
}

/// A reset for each of the connection requests, in the order given.
pub open spec fn reset_all<Addr, Time>(queue: Seq<(Addr, SegmentMeta)>) -> Seq<
    UserCall<Addr, Time>,
> {
    Seq::new(queue.len(), |i: int| UserCall::Send { dst: queue[i].0, seg: reset_for(queue[i].1@) })
}

pub struct ListenSocket<U: UserData> {
    queue: VecDeque<(U::Addr, SegmentMeta)>,
    backlog: usize,
    open: bool,
    events: Events<()>,
    options: SocketOptions,
    user_data: U,
}

/// What a [`ListenSocket`] holds.
#[verifier::ext_equal]
#[verifier::reject_recursive_types(U)]
pub struct ListenView<U: UserData> {
    /// Connection requests that wait to be accepted, each with its sender, oldest first
    pub queue: Seq<(U::Addr, SegmentMeta)>,
    /// How many requests may wait
    pub backlog: nat,
    pub open: bool,
    /// Suspended calls of accept
    pub events: EventsView<()>,
    pub options: SocketOptions,
    /// What the user has been called with
    pub calls: Seq<UserCall<U::Addr, U::Time>>,
}

impl<U: UserData> View for ListenSocket<U> {
    type V = ListenView<U>;

    closed spec fn view(&self) -> ListenView<U> {
        ListenView {
            queue: self.queue@,
            backlog: self.backlog as nat,
            open: self.open,
            events: self.events@,
            options: self.options,
            calls: self.user_data.calls(),
        }
    }
}

impl<U: UserData> ListenView<U> {
    /// A socket that has just begun to listen. There is room for one request at least.
    pub open spec fn starting(backlog: usize, user_data: U) -> ListenView<U> {
        ListenView {
            queue: Seq::empty(),
            backlog: if backlog == 0 {
                1
            } else {
                backlog as nat
            },
            open: true,
            events: EventsView { suspended: Set::empty(), next_cookie: 0 },
            options: SocketOptions { nagle_delay: Duration::zero() },
            calls: user_data.calls(),
        }
    }

    /// Sends `seg` to `dst`.
    pub open spec fn sending(self, dst: U::Addr, seg: SegmentView) -> ListenView<U> {
        ListenView { calls: self.calls.push(UserCall::Send { dst, seg }), ..self }
    }

    /// Puts a connection request at the end of the queue.
    pub open spec fn queueing(self, addr: U::Addr, seg: SegmentMeta) -> ListenView<U> {
        ListenView { queue: self.queue.push((addr, seg)), ..self }
    }

    /// Wakes one suspended call of accept.
    pub open spec fn waking(self, cookie: Cookie) -> ListenView<U> {
        ListenView {
            events: EventsView {
                suspended: self.events.suspended.remove(((), cookie)),
                ..self.events
            },
            calls: self.calls.push(UserCall::Event { cookie, result: Ok(()) }),
            ..self
        }
    }

    /// What an incoming segment makes of the socket. A reset changes nothing. What
    /// does not belong here is answered by a reset: all else on a closed socket, and
    /// acknowledgements. Of the rest, only connection requests count. They are queued,
    /// and refused when the queue is full. A queued one wakes one call of accept, if
    /// any is suspended; which one is left open.
    pub open spec fn on_segment(self, addr: U::Addr, seg: SegmentMeta, post: ListenView<U>) -> bool {
        if seg.flags.has(SegmentFlags::rst()) {
            post == self
        } else if seg.flags.has(SegmentFlags::ack()) || !self.open {
            post == self.sending(addr, reset_for(seg@))
        } else if !seg.flags.has(SegmentFlags::syn()) {
            post == self
        } else if self.queue.len() >= self.backlog {
            post == self.sending(addr, refusal_of(seg@))
        } else if self.events.suspended =~= Set::empty() {
            post == self.queueing(addr, seg)
        } else {
            exists|cookie: Cookie| #[trigger]
                self.events.suspended.contains(((), cookie)) && post == self.queueing(
                    addr,
                    seg,
                ).waking(cookie)
        }
    }

    /// What closing makes of the socket, where `woken` are the suspended calls in the
    /// order in which they are told: each gets an error, then every waiting request a
    /// reset, in the order of the queue.
    pub open spec fn closing(self, woken: Seq<((), Cookie)>) -> ListenView<U> {
        ListenView {
            queue: Seq::empty(),
            open: false,
            events: EventsView { suspended: Set::empty(), ..self.events },
            calls: self.calls + cancel_all(woken) + reset_all(self.queue),
            ..self
        }
    }
}

impl<U: UserData> ListenSocket<U> {
    /// The queue keeps to the backlog, which has room for one request at least, and
    /// a closed socket has neither waiting requests nor suspended calls.
    pub closed spec fn wf(&self) -> bool {
        &&& self.events.wf()
        &&& 1 <= self.backlog
        &&& self.queue@.len() <= self.backlog
        &&& !self.open ==> self.queue@.len() == 0 && self.events@.suspended == Set::<
            ((), Cookie),
        >::empty()
    }

    /// The data of the user.
    pub closed spec fn user(&self) -> U {
        self.user_data
    }

    /// What [`ListenSocket::wf`] says of the view.
    pub proof fn lemma_wf(&self)
        requires
            self.wf(),
        ensures
            1 <= self@.backlog <= usize::MAX,
            self@.queue.len() <= self@.backlog,
            !self@.open ==> self@.queue.len() == 0 && self@.events.suspended == Set::<
                ((), Cookie),
            >::empty(),
            forall|cookie: Cookie| #[trigger]
                self@.events.suspended.contains(((), cookie)) ==> cookie.number()
                    < self@.events.next_cookie,
            self@.calls == self.user().calls(),
    {
        self.events.lemma_cookies_are_fresh();
    }

    pub fn user_data(&self) -> (result: &U)
        ensures
            *result == self.user(),
    {
        &self.user_data
    }

    pub fn user_data_mut(&mut self) -> (result: &mut U)
        requires
            old(self).wf(),
        ensures
            *result == old(self).user(),
            final(self).wf(),
            final(self).user() == *final(result),
            final(self)@ == (ListenView { calls: final(result).calls(), ..old(self)@ }),
    {
        &mut self.user_data
    }

    pub fn options(&self) -> (result: &SocketOptions)
        ensures
            *result == self@.options,
    {
        &self.options
    }

    pub fn options_mut(&mut self) -> (result: &mut SocketOptions)
        requires
            old(self).wf(),
        ensures
            *result == old(self)@.options,
            final(self).wf(),
            final(self).user() == old(self).user(),
            final(self)@ == (ListenView { options: *final(result), ..old(self)@ }),
    {
        &mut self.options
    }

    /// New socket in initial state
    pub fn call_listen(backlog: usize, user_data: U) -> (result: Self)
        ensures
            result.wf(),
            result.user() == user_data,
            result@ == ListenView::<U>::starting(backlog, user_data),
            result@.queue.len() == 0,
            backlog >= 1 ==> result@.backlog == backlog,
            backlog == 0 ==> result@.backlog == 1,
            result@.open,
            result@.events.suspended == Set::<((), Cookie)>::empty(),
            result@.events.next_cookie == 0,
            result@.options.nagle_delay.nanos == 0,
            result@.calls == user_data.calls(),
    {
        Self {
            queue: VecDeque::new(),
            backlog: if backlog == 0 {
                1
            } else {
                backlog
            },
            open: true,
            events: Events::new(),
            options: SocketOptions::default(),
            user_data,
        }
    }

    /// Takes the socket apart, when it turns to something else
    pub(crate) fn into_common(self) -> (result: (U, SocketOptions))
        ensures
            result == (self.user(), self@.options),
    {
        (self.user_data, self.options)
    }

    /// Request closing the socket
    /// Will cancel ongoing listen if any in progress
    ///
    /// The user data goes through the calls to the user one after the other: `users`
    /// is what it is before the first call and after each of them.
    pub fn call_close(&mut self)
        requires
            old(self).wf(),
        ensures
            final(self).wf(),
            exists|woken: Seq<((), Cookie)>, users: Seq<U>|
                {
                    &&& woken.no_duplicates()
                    &&& woken.to_set() == old(self)@.events.suspended
                    &&& final(self)@ == #[trigger] old(self)@.closing(woken)
                    &&& users.len() == woken.len() + old(self)@.queue.len() + 1
                    &&& #[trigger] users.first() == old(self).user()
                    &&& users.last() == final(self).user()
                    &&& forall|k: int|
                        #![trigger woken[k]]
                        0 <= k < woken.len() ==> {
                            &&& users[k + 1].calls() == users[k].calls().push(
                                UserCall::Event { cookie: woken[k].1, result: Err(Error::ListenClosed) },
                            )
                            &&& exists|m: &mut U|
                                {
                                    &&& #[trigger] call_ensures(
                                        U::event,
                                        (m, woken[k].1, Err(Error::ListenClosed)),
                                        (),
                                    )
                                    &&& *m == users[k]
                                    &&& *final(m) == users[k + 1]
                                }
                        }
                    &&& forall|k: int|
                        #![trigger old(self)@.queue[k]]
                        0 <= k < old(self)@.queue.len() ==> {
                            &&& users[woken.len() + k + 1].calls()
                                == users[woken.len() + k].calls().push(
                                UserCall::Send { dst: old(self)@.queue[k].0, seg: reset_for(old(self)@.queue[k].1@) },
                            )
                            &&& exists|m: &mut U, sent: SegmentMeta|
                                {
                                    &&& #[trigger] call_ensures(U::send, (m, old(self)@.queue[k].0, sent), ())
                                    &&& sent@ == reset_for(old(self)@.queue[k].1@)
                                    &&& *m == users[woken.len() + k]
                                    &&& *final(m) == users[woken.len() + k + 1]
                                }
                        }
                },
            final(self)@.calls == old(self)@.calls ==> final(self).user() == old(self).user(),
    {
        self.open = false;

        let ghost mut users: Seq<U> = seq![self.user_data];
        let woken = self.events.take_all();
        let mut i: usize = 0;
        while i < woken.len()
            invariant
                i <= woken.len(),
                self.queue == old(self).queue,
                self.backlog == old(self).backlog,
                !self.open,
                self.events.wf(),
                self.events@ == (EventsView { suspended: Set::empty(), ..old(self).events@ }),
                self.options == old(self).options,
                self.user_data.calls() == old(self).user_data.calls() + cancel_all(
                    woken@.take(i as int),
                ),
                users.len() == i + 1,
                users.first() == old(self).user_data,
                users.last() == self.user_data,
                forall|k: int|
                    #![trigger woken@[k]]
                    0 <= k < i ==> {
                        &&& users[k + 1].calls() == users[k].calls().push(
                            UserCall::Event { cookie: woken@[k].1, result: Err(Error::ListenClosed) },
                        )
                        &&& exists|m: &mut U|
                            {
                                &&& #[trigger] call_ensures(
                                    U::event,
                                    (m, woken@[k].1, Err(Error::ListenClosed)),
                                    (),
                                )
                                &&& *m == users[k]
                                &&& *final(m) == users[k + 1]
                            }
                    },
            decreases woken.len() - i,
        {
            let cookie = woken[i].1;
            let ghost before = users;
            self.user_data.event(cookie, Err(Error::ListenClosed));
            proof {
                users = users.push(self.user_data);
                assert forall|k: int| 0 <= k <= i implies #[trigger] users[k] == before[k] by {}
            }
            assert(self.user_data.calls() =~= old(self).user_data.calls() + cancel_all(
                woken@.take(i + 1),
            ));
            i += 1;
        }
        assert(woken@.take(i as int) =~= woken@);

        // RST all queued connections
        let ghost queue = self.queue@;
        let ghost calls = self.user_data.calls();
        let ghost mut done: int = 0;
        while self.queue.len() > 0
            invariant
                0 <= done <= queue.len(),
                self.queue@ == queue.skip(done),
                self.backlog == old(self).backlog,
                !self.open,
                self.events.wf(),
                self.events@ == (EventsView { suspended: Set::empty(), ..old(self).events@ }),
                self.options == old(self).options,
                self.user_data.calls() == calls + reset_all(queue.take(done)),
                users.len() == woken.len() + done + 1,
                users.first() == old(self).user_data,
                users.last() == self.user_data,
                forall|k: int|
                    #![trigger woken@[k]]
                    0 <= k < woken.len() ==> {
                        &&& users[k + 1].calls() == users[k].calls().push(
                            UserCall::Event { cookie: woken@[k].1, result: Err(Error::ListenClosed) },
                        )
                        &&& exists|m: &mut U|
                            {
                                &&& #[trigger] call_ensures(
                                    U::event,
                                    (m, woken@[k].1, Err(Error::ListenClosed)),
                                    (),
                                )
                                &&& *m == users[k]
                                &&& *final(m) == users[k + 1]
                            }
                    },
                forall|k: int|
                    #![trigger queue[k]]
                    0 <= k < done ==> {
                        &&& users[woken.len() + k + 1].calls()
                            == users[woken.len() + k].calls().push(
                            UserCall::Send { dst: queue[k].0, seg: reset_for(queue[k].1@) },
                        )
                        &&& exists|m: &mut U, sent: SegmentMeta|
                            {
                                &&& #[trigger] call_ensures(U::send, (m, queue[k].0, sent), ())
                                &&& sent@ == reset_for(queue[k].1@)
                                &&& *m == users[woken.len() + k]
                                &&& *final(m) == users[woken.len() + k + 1]
                            }
                    },
            decreases queue.len() - done,
        {
            let (addr, seg) = self.queue.pop_front().unwrap();
            let answer = SegmentMeta {
                seqn: seg.ackn,
                ackn: SeqN::zero(),
                window: 0,
                flags: SegmentFlags::rst(),
                data: Vec::new(),
            };
            assert(answer@ =~= reset_for(seg@));
            let ghost before = users;
            self.user_data.send(addr, answer);
            proof {
                users = users.push(self.user_data);
                assert forall|k: int| 0 <= k < before.len() implies #[trigger] users[k]
                    == before[k] by {}
                assert(self.user_data.calls() =~= calls + reset_all(queue.take(done + 1)));
                assert(queue.skip(done).skip(1) =~= queue.skip(done + 1));
                done = done + 1;
            }
        }
        assert(queue.take(done) =~= queue);
        assert(self@ =~= old(self)@.closing(woken@));
        assert(self@.calls.len() == old(self)@.calls.len() + woken.len() + queue.len());
    }

    /// Accept a new connection from the backlog
    ///
    /// The oldest request is taken from the queue and handed to a new connection,
    /// which inherits the options of this socket. `make_user_data` gives it its user
    /// data. If there is no request, the call is suspended.
    pub fn call_accept<P: Protocol<U>, F: FnOnce(&ListenSocket<U>) -> U>(
        &mut self,
        make_user_data: F,
    ) -> (result: Result<(U::Addr, Connection<U, P>), Error>)
        requires
            old(self).wf(),
            old(self)@.open && old(self)@.queue.len() == 0 ==> old(self)@.events.next_cookie
                < u64::MAX,
            forall|socket: &ListenSocket<U>|
                socket.wf() ==> #[trigger] call_requires(make_user_data, (socket,)),
        ensures
            final(self).wf(),
            final(self).user() == old(self).user(),
            if !old(self)@.open {
                &&& result == Err::<(U::Addr, Connection<U, P>), Error>(Error::ConnectionClosing)
                &&& *final(self) == *old(self)
            } else if old(self)@.queue.len() == 0 {
                &&& result matches Err(Error::RetryAfter(cookie))
                &&& cookie.number() == old(self)@.events.next_cookie
                &&& final(self)@.events.suspended == old(self)@.events.suspended.insert(
                    ((), cookie),
                )
                &&& final(self)@.events.next_cookie == old(self)@.events.next_cookie + 1
                &&& final(self)@ == (ListenView {
                    events: old(self)@.events.suspend((), cookie),
                    ..old(self)@
                })
            } else {
                &&& result matches Ok((addr, connection))
                &&& addr == old(self)@.queue[0].0
                &&& connection.options == old(self)@.options
                &&& final(self)@ == (ListenView {
                    queue: old(self)@.queue.drop_first(),
                    ..old(self)@
                })
                &&& exists|
                    user_data: U,
                    made: Connection<U, P>,
                    with_state: &mut Connection<U, P>,
                    with_segment: &mut Connection<U, P>,
                |
                    {
                        &&& #[trigger] call_ensures(make_user_data, (&*final(self),), user_data)
                        &&& #[trigger] call_ensures(
                            Connection::<U, P>::new,
                            (addr, user_data),
                            made,
                        )
                        &&& *with_state == (Connection { options: old(self)@.options, ..made })
                        &&& #[trigger] call_ensures(
                            Connection::<U, P>::set_state,
                            (with_state, ConnectionState::Listen),
                            (),
                        )
                        &&& *with_segment == *final(with_state)
                        &&& #[trigger] call_ensures(
                            Connection::<U, P>::on_segment,
                            (with_segment, old(self)@.queue[0].1),
                            (),
                        )
                        &&& connection == *final(with_segment)
                    }
            },
    {
        if !self.open {
            return Err(Error::ConnectionClosing);
        }
        if self.queue.len() > 0 {
            let (addr, seg) = self.queue.pop_front().unwrap();
            assert(self.queue@ =~= old(self).queue@.drop_first());
            let user_data = make_user_data(&*self);
            let mut socket = Connection::<U, P>::new(addr, user_data);
            socket.options = self.options.clone();  // Inherits options
            socket.set_state(ConnectionState::Listen);
            socket.on_segment(seg);
            Ok((addr, socket))
        } else {
            self.events.return_retry_after(())
        }
    }

    /// Called on incoming segment
    /// See RFC 793 page 64
    pub fn on_segment(&mut self, addr: U::Addr, seg: SegmentMeta)
        requires
            old(self).wf(),
        ensures
            final(self).wf(),
            old(self)@.on_segment(addr, seg, final(self)@),
            final(self)@.open == old(self)@.open,
            final(self)@.backlog == old(self)@.backlog,
            final(self)@.options == old(self)@.options,
            old(self)@.open && seg.flags.bits & 0x002 == 0x002 && seg.flags.bits & 0x010 != 0x010
                && seg.flags.bits & 0x004 != 0x004 ==> if old(self)@.queue.len()
                < old(self)@.backlog {
                final(self)@.queue == old(self)@.queue.push((addr, seg))
            } else {
                final(self)@.queue == old(self)@.queue
            },
            // The user data is what the call to the user leaves, if there is one.
            if seg.flags.has(SegmentFlags::rst()) {
                final(self).user() == old(self).user()
            } else if seg.flags.has(SegmentFlags::ack()) || !old(self)@.open {
                exists|m: &mut U, sent: SegmentMeta|
                    {
                        &&& #[trigger] call_ensures(U::send, (m, addr, sent), ())
                        &&& sent@ == reset_for(seg@)
                        &&& *m == old(self).user()
                        &&& *final(m) == final(self).user()
                    }
            } else if !seg.flags.has(SegmentFlags::syn()) {
                final(self).user() == old(self).user()
            } else if old(self)@.queue.len() >= old(self)@.backlog {
                exists|m: &mut U, sent: SegmentMeta|
                    {
                        &&& #[trigger] call_ensures(U::send, (m, addr, sent), ())
                        &&& sent@ == refusal_of(seg@)
                        &&& *m == old(self).user()
                        &&& *final(m) == final(self).user()
                    }
            } else if old(self)@.events.suspended =~= Set::empty() {
                final(self).user() == old(self).user()
            } else {
                exists|m: &mut U, cookie: Cookie|
                    {
                        &&& #[trigger] call_ensures(U::event, (m, cookie, Ok(())), ())
                        &&& old(self)@.events.suspended.contains(((), cookie))
                        &&& final(self)@ == old(self)@.queueing(addr, seg).waking(cookie)
                        &&& *m == old(self).user()
                        &&& *final(m) == final(self).user()
                    }
            },
    {
        if seg.flags.contains(SegmentFlags::rst()) {
            return;
        }
        if seg.flags.contains(SegmentFlags::ack()) || !self.open {
            let answer = SegmentMeta {
                seqn: seg.ackn,
                ackn: SeqN::zero(),
                window: 0,
                flags: SegmentFlags::rst(),
                data: Vec::new(),
            };
            assert(answer@ =~= reset_for(seg@));
            self.user_data.send(addr, answer);
            return;
        }
        if !seg.flags.contains(SegmentFlags::syn()) {
            return;
        }
        let queue_full = self.queue.len() >= self.backlog;

        if queue_full {
            let answer = SegmentMeta {
                seqn: seg.ackn.wrapping_add(1),
                ackn: SeqN::zero(),
                window: 0,
                flags: SegmentFlags::ack() | SegmentFlags::rst(),
                data: Vec::new(),
            };
            assert(answer@ =~= refusal_of(seg@));
            self.user_data.send(addr, answer);
            return;
        }
        self.queue.push_back((addr, seg));

        // Awake an arbitrarily selected single listener
        match self.events.take_any() {
            Some(call) => {
                let cookie = call.1;
                self.user_data.event(cookie, Ok(()));
                assert(call == ((), cookie));
                assert(old(self)@.events.suspended.contains(((), cookie)));
            },
            None => {},
        }
    }
}

/// What the answers to segments hold. A reset has the number that the other side
/// expects, and no acknowledgement. A refusal has the one after it, and counts as an
/// acknowledgement. Neither has data, nor room for any.
pub proof fn law_listen_answers_hold(seg: SegmentView)
    ensures
        reset_for(seg).seqn == seg.ackn,
        reset_for(seg).ackn.0 == 0,
        reset_for(seg).window == 0,
        reset_for(seg).flags.bits == 0x004,
        reset_for(seg).data.len() == 0,
        seg.ackn.distance_to(refusal_of(seg).seqn) == 1,
        refusal_of(seg).ackn.0 == 0,
        refusal_of(seg).window == 0,
        refusal_of(seg).flags.bits == 0x014,
        refusal_of(seg).data.len() == 0,
{
    assert(0x010u16 | 0x004u16 == 0x014u16) by (bit_vector);
}

/// What a socket that begins to listen has: an empty queue with room for the backlog, or
/// for one request where none was asked for, no suspended calls, and default options.
pub proof fn law_listen_starts_empty<U: UserData>(backlog: usize, user_data: U)
    ensures
        ({
            let start = ListenView::<U>::starting(backlog, user_data);
            &&& start.queue.len() == 0
            &&& backlog >= 1 ==> start.backlog == backlog
            &&& backlog == 0 ==> start.backlog == 1
            &&& start.open
            &&& start.events.suspended == Set::<((), Cookie)>::empty()
            &&& start.events.next_cookie == 0
            &&& start.options.nagle_delay.nanos == 0
            &&& start.calls == user_data.calls()
        }),
{
}

/// A socket that begins to listen has room for exactly as many requests as its backlog
/// says, and for one at least. As long as nothing is accepted, the first requests that
/// come in are queued up to that number, whoever sends them, and nobody is called. Each
/// one after that is refused: it gets a reset, and the queue stays.
///
/// `states` are the states of the socket, from the first one to that after the last of
/// the `requests`.
pub proof fn law_listen_has_room_for_its_backlog<U: UserData>(
    backlog: usize,
    user_data: U,
    requests: Seq<(U::Addr, SegmentMeta)>,
    states: Seq<ListenView<U>>,
    count: nat,
)
    requires
        states.len() == requests.len() + 1,
        states[0] == ListenView::<U>::starting(backlog, user_data),
        forall|i: int|
            #![trigger requests[i]]
            0 <= i < requests.len() ==> {
                &&& requests[i].1.flags.bits & 0x002 == 0x002
                &&& requests[i].1.flags.bits & 0x010 != 0x010
                &&& requests[i].1.flags.bits & 0x004 != 0x004
                &&& states[i].on_segment(requests[i].0, requests[i].1, states[i + 1])
            },
        count <= requests.len(),
    ensures
        ({
            let room = if backlog == 0 {
                1
            } else {
                backlog as nat
            };
            let now = states[count as int];
            &&& count <= room ==> now.queue == requests.take(count as int) && now.calls
                == user_data.calls()
            &&& count >= room ==> now.queue == requests.take(room as int)
            &&& count > room ==> {
                &&& now.calls.len() == user_data.calls().len() + (count - room)
                &&& now.calls.last() matches UserCall::Send { dst, seg: answer }
                &&& dst == requests[count - 1].0
                &&& answer.flags.bits & 0x004 == 0x004
            }
            &&& now.open
            &&& now.backlog == room
            &&& now.events.suspended == Set::<((), Cookie)>::empty()
        }),
    decreases count,
{
    if count == 0 {
        assert(requests.take(0) =~= Seq::<(U::Addr, SegmentMeta)>::empty());
    } else {
        let i = count - 1;
        law_listen_has_room_for_its_backlog(backlog, user_data, requests, states, i as nat);
        let request = requests[i];
        assert(requests.take(count as int) =~= requests.take(i).push(request));
        law_listen_answers_hold(request.1@);
        assert(0x014u16 & 0x004u16 == 0x004u16) by (bit_vector);
    }
}

/// What an incoming segment does, by its flags. A reset does nothing. An acknowledgement,
/// or anything that comes to a closed socket, is answered by a reset to its sender. What
/// is no request after that does nothing. A request is queued, and wakes exactly one
/// suspended call of accept if there is any, or is refused when there is no room. Nothing
/// else about the socket ever changes.
pub proof fn law_listen_segments_by_their_flags<U: UserData>(
    pre: ListenView<U>,
    addr: U::Addr,
    seg: SegmentMeta,
    post: ListenView<U>,
)
    requires
        pre.on_segment(addr, seg, post),
    ensures
        post.open == pre.open,
        post.backlog == pre.backlog,
        post.options == pre.options,
        post.events.next_cookie == pre.events.next_cookie,
        seg.flags.bits & 0x004 == 0x004 ==> post == pre,
        seg.flags.bits & 0x004 != 0x004 && (seg.flags.bits & 0x010 == 0x010 || !pre.open) ==> {
            &&& post.queue == pre.queue
            &&& post.events == pre.events
            &&& post.calls == pre.calls.push(UserCall::Send { dst: addr, seg: reset_for(seg@) })
        },
        pre.open && seg.flags.bits & 0x016 == 0 ==> post == pre,
        pre.open && seg.flags.bits & 0x002 == 0x002 && seg.flags.bits & 0x010 != 0x010
            && seg.flags.bits & 0x004 != 0x004 && pre.queue.len() >= pre.backlog ==> {
            &&& post.queue == pre.queue
            &&& post.events == pre.events
            &&& post.calls == pre.calls.push(UserCall::Send { dst: addr, seg: refusal_of(seg@) })
        },
        pre.open && seg.flags.bits & 0x002 == 0x002 && seg.flags.bits & 0x010 != 0x010
            && seg.flags.bits & 0x004 != 0x004 && pre.queue.len() < pre.backlog ==> {
            &&& post.queue == pre.queue.push((addr, seg))
            &&& pre.events.suspended == Set::<((), Cookie)>::empty() ==> {
                &&& post.calls == pre.calls
                &&& post.events == pre.events
            }
            &&& pre.events.suspended != Set::<((), Cookie)>::empty() ==> exists|cookie: Cookie|
                {
                    &&& #[trigger] pre.events.suspended.contains(((), cookie))
                    &&& post.events.suspended == pre.events.suspended.remove(((), cookie))
                    &&& post.calls == pre.calls.push(UserCall::Event { cookie, result: Ok(()) })
                }
        },
{
    let bits = seg.flags.bits;
    assert(bits & 0x016 == 0 ==> bits & 0x004 != 0x004 && bits & 0x010 != 0x010 && bits & 0x002
        != 0x002) by (bit_vector);
}

/// Closing leaves all but the queue, the suspended calls and being open as it is. A
/// closed socket stays closed and empty, whatever comes in.
pub proof fn law_listen_closing_is_for_good<U: UserData>(
    pre: ListenView<U>,
    woken: Seq<((), Cookie)>,
    addr: U::Addr,
    seg: SegmentMeta,
    post: ListenView<U>,
)
    requires
        pre.closing(woken).on_segment(addr, seg, post),
    ensures
        !pre.closing(woken).open,
        pre.closing(woken).backlog == pre.backlog,
        pre.closing(woken).options == pre.options,
        pre.closing(woken).events.next_cookie == pre.events.next_cookie,
        !post.open,
        post.queue.len() == 0,
        post.events.suspended == Set::<((), Cookie)>::empty(),
{
}

/// A reset is never answered: it changes nothing.
pub proof fn law_listen_ignores_resets<U: UserData>(
    pre: ListenView<U>,
    addr: U::Addr,
    seg: SegmentMeta,
    post: ListenView<U>,
)
    requires
        pre.on_segment(addr, seg, post),
        seg.flags.has(SegmentFlags::rst()),
    ensures
        post == pre,
{
}

/// Once closed, a socket stays as it is, and answers all but resets by a reset.
pub proof fn law_listen_closed_answers_by_reset<U: UserData>(
    pre: ListenView<U>,
    woken: Seq<((), Cookie)>,
    addr: U::Addr,
    seg: SegmentMeta,
    post: ListenView<U>,
)
    requires
        pre.closing(woken).on_segment(addr, seg, post),
        !seg.flags.has(SegmentFlags::rst()),
    ensures
        post == pre.closing(woken).sending(addr, reset_for(seg@)),
        reset_for(seg@).flags.has(SegmentFlags::rst()),
        post.queue.len() == 0,
        !post.open,
{
    assert(0x004u16 & 0x004u16 == 0x004u16) by (bit_vector);
}

/// Closing leaves no one waiting: each suspended call is told exactly once that the
/// socket was closed, and after that each waiting request gets a reset, oldest first.
pub proof fn law_listen_close_answers_everyone_once<U: UserData>(
    pre: ListenView<U>,
    woken: Seq<((), Cookie)>,
)
    requires
        woken.no_duplicates(),
        woken.to_set() == pre.events.suspended,
    ensures
        ({
            let post = pre.closing(woken);
            let told = pre.calls.len() + woken.len();
            &&& post.events.suspended == Set::<((), Cookie)>::empty()
            &&& post.queue.len() == 0
            &&& post.calls.len() == told + pre.queue.len()
            &&& post.calls.take(pre.calls.len() as int) == pre.calls
            &&& forall|i: int|
                pre.calls.len() <= i < told ==> (#[trigger] post.calls[i] matches UserCall::Event {
                    cookie,
                    result,
                } && result == Err::<(), Error>(Error::ListenClosed)
                    && pre.events.suspended.contains(((), cookie)))
            &&& forall|i: int, j: int|
                pre.calls.len() <= i < j < told ==> #[trigger] post.calls[i]
                    != #[trigger] post.calls[j]
            &&& forall|cookie: Cookie| #[trigger]
                pre.events.suspended.contains(((), cookie)) ==> exists|i: int|
                    pre.calls.len() <= i < told && #[trigger] post.calls[i]
                        == (UserCall::<U::Addr, U::Time>::Event {
                        cookie,
                        result: Err(Error::ListenClosed),
                    })
            &&& forall|i: int|
                0 <= i < pre.queue.len() ==> post.calls[told + i]
                    == (UserCall::<U::Addr, U::Time>::Send {
                    dst: (#[trigger] pre.queue[i]).0,
                    seg: reset_for(pre.queue[i].1@),
                })
        }),
{
    let post = pre.closing(woken);
    let told = pre.calls.len() + woken.len();
    assert(post.calls.take(pre.calls.len() as int) =~= pre.calls);
    assert forall|i: int| pre.calls.len() <= i < told implies (
    #[trigger] post.calls[i] matches UserCall::Event { cookie, result } && result == Err::<
        (),
        Error,
    >(Error::ListenClosed) && pre.events.suspended.contains(((), cookie))) by {
        let call = woken[i - pre.calls.len()];
        assert(woken.to_set().contains(call));
        assert(call == ((), call.1));
    }
    assert forall|i: int, j: int| pre.calls.len() <= i < j < told implies #[trigger] post.calls[i]
        != #[trigger] post.calls[j] by {
        let (a, b) = (woken[i - pre.calls.len()], woken[j - pre.calls.len()]);
        assert(a == ((), a.1) && b == ((), b.1));
    }
    assert forall|cookie: Cookie| #[trigger]
        pre.events.suspended.contains(((), cookie)) implies exists|i: int|
        pre.calls.len() <= i < told && #[trigger] post.calls[i] == (UserCall::<
            U::Addr,
            U::Time,
        >::Event { cookie, result: Err(Error::ListenClosed) }) by {
        assert(woken.to_set().contains(((), cookie)));
        let k = choose|k: int| 0 <= k < woken.len() && woken[k] == ((), cookie);
        assert(post.calls[pre.calls.len() + k] == UserCall::<U::Addr, U::Time>::Event {
            cookie,
            result: Err(Error::ListenClosed),
        });
    }
}

/// A connection request is not lost without a word: it is queued, or its sender
/// gets a reset.
pub proof fn law_listen_queues_or_refuses_requests<U: UserData>(
    pre: ListenView<U>,
    addr: U::Addr,
    seg: SegmentMeta,
    post: ListenView<U>,
)
    requires
        pre.on_segment(addr, seg, post),
        seg.flags.has(SegmentFlags::syn()),
        !seg.flags.has(SegmentFlags::rst()),
    ensures
        post.queue == pre.queue.push((addr, seg)) || {
            &&& post.queue == pre.queue
            &&& post.calls.len() == pre.calls.len() + 1
            &&& post.calls.last() matches UserCall::Send { dst, seg: answer }
            &&& dst == addr
            &&& answer.flags.has(SegmentFlags::rst())
        },
{
    assert(0x004u16 & 0x004u16 == 0x004u16) by (bit_vector);
    assert((0x010u16 | 0x004u16) & 0x004u16 == 0x004u16) by (bit_vector);
}

/// Requests over the limit are dropped: the sender gets a reset, and nothing else changes.
pub proof fn law_listen_drops_over_limit<U: UserData>(
    pre: ListenView<U>,
    addr: U::Addr,
    seg: SegmentMeta,
    post: ListenView<U>,
)
    requires
        pre.on_segment(addr, seg, post),
        pre.open,
        pre.queue.len() >= pre.backlog,
        seg.flags.has(SegmentFlags::syn()),
        !seg.flags.has(SegmentFlags::ack()),
        !seg.flags.has(SegmentFlags::rst()),
    ensures
        post == pre.sending(addr, refusal_of(seg@)),
        refusal_of(seg@).flags.has(SegmentFlags::rst()),
{
    assert((0x010u16 | 0x004u16) & 0x004u16 == 0x004u16) by (bit_vector);
}

/// Requests are kept in the order in which they came, so accept, which takes the
/// first one, takes the oldest. The queue does not grow over the backlog.
pub proof fn law_listen_queue_is_first_come_first_served<U: UserData>(
    pre: ListenView<U>,
    addr: U::Addr,
    seg: SegmentMeta,
    post: ListenView<U>,
)
    requires
        pre.on_segment(addr, seg, post),
        pre.queue.len() <= pre.backlog,
    ensures
        pre.queue.is_prefix_of(post.queue),
        post.queue.len() <= pre.queue.len() + 1,
        post.queue.len() <= post.backlog,
        post.backlog == pre.backlog,
{
}

/// An incoming segment leads to one call to the user at most, and wakes one
/// suspended call of accept at most, which is told that all is well.
pub proof fn law_listen_calls_the_user_once<U: UserData>(
    pre: ListenView<U>,
    addr: U::Addr,
    seg: SegmentMeta,
    post: ListenView<U>,
)
    requires
        pre.on_segment(addr, seg, post),
    ensures
        pre.calls.is_prefix_of(post.calls),
        post.calls.len() <= pre.calls.len() + 1,
        post.events.suspended != pre.events.suspended ==> exists|cookie: Cookie|
            {
                &&& #[trigger] pre.events.suspended.contains(((), cookie))
                &&& post.events.suspended == pre.events.suspended.remove(((), cookie))
                &&& post.calls == pre.calls.push(UserCall::Event { cookie, result: Ok(()) })
            },
{
}

} // verus!
