//! Sockets, in whichever role they are.

use vstd::prelude::*;

use crate::connection::{Connection, Protocol};
use crate::event::Cookie;
use crate::listen::{ListenSocket, ListenView};
use crate::options::SocketOptions;
use crate::result::Error;
use crate::segment::{SegmentFlags, SegmentMeta, SegmentView, SeqN};
use crate::state::ConnectionState;
use crate::time::Duration;
use crate::user_data::{UserCall, UserData};

verus! {

/// The answer of a closed socket: none to a reset, else a reset that the other side
/// can accept. Where the segment acknowledges something, the reset has the number that
/// the other side expects next. Where it does not, the reset has the number zero, and
/// acknowledges the whole segment, SYN and FIN included.
pub open spec fn closed_response(seg: SegmentView) -> Option<SegmentView> {
    if seg.flags.has(SegmentFlags::rst()) {
        None
    } else if seg.flags.has(SegmentFlags::ack()) {
        Some(
            SegmentView {
                seqn: seg.ackn,
                ackn: SeqN::zero(),
                window: 0,
                flags: SegmentFlags::rst(),
                data: Seq::empty(),
            },
        )
    } else {
        Some(
            SegmentView {
                seqn: SeqN::zero(),
                ackn: seg.seqn_after(),
                window: 0,
                flags: SegmentFlags::rst().with(SegmentFlags::ack()),
                data: Seq::empty(),
            },
        )
    }
}

/// Response to a packet when the socket is closed
/// RFC 793 page 64
pub fn response_to_closed(seg: SegmentMeta) -> (result: Option<SegmentMeta>)
    ensures
        match result {
            Some(answer) => closed_response(seg@) == Some(answer@),
            None => closed_response(seg@) is None,
        },
{
    if seg.flags.contains(SegmentFlags::rst()) {
        None
    } else if seg.flags.contains(SegmentFlags::ack()) {
        let answer = SegmentMeta {
            seqn: seg.ackn,
            ackn: SeqN::zero(),
            window: 0,
            flags: SegmentFlags::rst(),
            data: Vec::new(),
        };
        assert(closed_response(seg@)->0 =~= answer@);
        Some(answer)
    } else {
        let answer = SegmentMeta {
            seqn: SeqN::zero(),
            ackn: seg.seqn_after(),
            window: 0,
            flags: SegmentFlags::rst() | SegmentFlags::ack(),
            data: Vec::new(),
        };
        assert(closed_response(seg@)->0 =~= answer@);
        Some(answer)
    }
}

/// What the answer of a closed socket holds. To an acknowledgement, the reset has the
/// number that was acknowledged, which is the one the other side expects, and
/// acknowledges nothing. To all else it has the number zero, and acknowledges the
/// segment by its whole size. It never has data, nor room for any.
pub proof fn law_closed_response_holds(seg: SegmentView)
    ensures
        closed_response(seg) is None <==> seg.flags.bits & 0x004 == 0x004,
        closed_response(seg) matches Some(answer) ==> {
            &&& answer.window == 0
            &&& answer.data.len() == 0
            &&& seg.flags.bits & 0x010 == 0x010 ==> {
                &&& answer.seqn == seg.ackn
                &&& answer.ackn.0 == 0
                &&& answer.flags.bits == 0x004
            }
            &&& seg.flags.bits & 0x010 != 0x010 ==> {
                &&& answer.seqn.0 == 0
                &&& seg.seqn.distance_to(answer.ackn) == seg.seq_size()
                &&& answer.flags.bits == 0x014
            }
        },
{
    assert(0x004u16 | 0x010u16 == 0x014u16) by (bit_vector);
    crate::segment::law_segment_ends_after_its_size(seg);
}

/// A closed socket answers everything but resets, always by a reset, which another
/// closed socket does not answer: two closed sockets do not go on answering each other.
pub proof fn law_closed_response_is_final(seg: SegmentView)
    ensures
        closed_response(seg) is None <==> seg.flags.has(SegmentFlags::rst()),
        closed_response(seg) matches Some(answer) ==> answer.flags.has(SegmentFlags::rst())
            && closed_response(answer) is None,
{
    assert(0x004u16 & 0x004u16 == 0x004u16) by (bit_vector);
    assert((0x004u16 | 0x010u16) & 0x004u16 == 0x004u16) by (bit_vector);
}

/// Common data for all socket types
pub struct SocketCommon<U: UserData> {
    pub user_data: U,
    pub options: SocketOptions,
}

/// The role of a socket, with what belongs to it.
pub enum SocketInner<U: UserData, P: Protocol<U>> {
    Closed(SocketCommon<U>),
    Connection(Connection<U, P>),
    Listen(ListenSocket<U>),
    /// Used as a placeholder when swapping items out of the non-copy field
    SwapTemp,
}

impl<U: UserData, P: Protocol<U>> SocketInner<U, P> {
    /// `state` may be the state of a socket in this role.
    pub open spec fn may_be_in(self, state: ConnectionState) -> bool {
        match self {
            SocketInner::SwapTemp => false,
            SocketInner::Closed(_) => state == ConnectionState::Closed,
            SocketInner::Listen(_) => state == ConnectionState::Listen,
            SocketInner::Connection(s) => call_ensures(P::state, (&s.protocol,), state),
        }
    }

    /// What every role has. The placeholder has nothing.
    pub open spec fn common(self) -> SocketCommon<U> {
        match self {
            SocketInner::SwapTemp => arbitrary(),
            SocketInner::Closed(s) => s,
            SocketInner::Listen(s) => SocketCommon { user_data: s.user(), options: s@.options },
            SocketInner::Connection(s) => SocketCommon {
                user_data: s.user_data,
                options: s.options,
            },
        }
    }

    /// Deconstructs self and returns user_data.
    /// Used only as a helper for `inner`-replacing functions.
    fn extract_common(self) -> (result: SocketCommon<U>)
        requires
            self !is SwapTemp,
        ensures
            result == self.common(),
    {
        match self {
            SocketInner::SwapTemp => vstd::pervasive::unreached(),
            SocketInner::Closed(common) => common,
            SocketInner::Listen(s) => {
                let (user_data, options) = s.into_common();
                SocketCommon { user_data, options }
            },
            SocketInner::Connection(s) => SocketCommon {
                user_data: s.user_data,
                options: s.options,
            },
        }
    }
}

/// The state of a socket with a connection is the very state that the protocol of the
/// connection is in. A socket in another role has the state that goes by its role.
pub proof fn law_socket_state_is_that_of_its_role<U: UserData, P: Protocol<U>>(
    role: SocketInner<U, P>,
    state: ConnectionState,
)
    ensures
        role matches SocketInner::Connection(s) ==> (role.may_be_in(state) <==> call_ensures(
            P::state,
            (&s.protocol,),
            state,
        )),
        role is Closed ==> (role.may_be_in(state) <==> state == ConnectionState::Closed),
        role is Listen ==> (role.may_be_in(state) <==> state == ConnectionState::Listen),
        role is SwapTemp ==> !role.may_be_in(state),
{
}

/// The user data and the options of a socket are those of what it holds in its role.
pub proof fn law_socket_has_what_its_role_has<U: UserData, P: Protocol<U>>(role: SocketInner<U, P>)
    ensures
        role matches SocketInner::Closed(s) ==> role.common() == s,
        role matches SocketInner::Listen(s) ==> role.common().user_data == s.user()
            && role.common().options == s@.options,
        role matches SocketInner::Connection(s) ==> role.common().user_data == s.user_data
            && role.common().options == s.options,
{
}

/// A socket, which is closed at first and can then be made to listen or to connect.
pub struct Socket<U: UserData, P: Protocol<U>> {
    inner: SocketInner<U, P>,
}

impl<U: UserData, P: Protocol<U>> View for Socket<U, P> {
    type V = SocketInner<U, P>;

    closed spec fn view(&self) -> SocketInner<U, P> {
        self.inner
    }
}

impl<U: UserData, P: Protocol<U>> Socket<U, P> {
    /// The socket is in one of its roles, and a listening one is well-formed.
    pub open spec fn wf(&self) -> bool {
        &&& self@ !is SwapTemp
        &&& self@ matches SocketInner::Listen(s) ==> s.wf()
    }

    pub fn new(user_data: U) -> (result: Self)
        ensures
            result.wf(),
            result@ == SocketInner::<U, P>::Closed(
                SocketCommon {
                    user_data,
                    options: SocketOptions { nagle_delay: Duration::zero() },
                },
            ),
    {
        Self {
            inner: SocketInner::Closed(
                SocketCommon { user_data, options: SocketOptions::default() },
            ),
        }
    }

    pub fn state(&self) -> (result: ConnectionState)
        requires
            self.wf(),
        ensures
            self@.may_be_in(result),
            self@ is Closed ==> result == ConnectionState::Closed,
            self@ is Listen ==> result == ConnectionState::Listen,
            self@ matches SocketInner::Connection(s) ==> call_ensures(
                P::state,
                (&s.protocol,),
                result,
            ),
    {
        match &self.inner {
            SocketInner::SwapTemp => vstd::pervasive::unreached(),
            SocketInner::Closed(_) => ConnectionState::Closed,
            SocketInner::Listen(_) => ConnectionState::Listen,
            SocketInner::Connection(s) => s.state(),
        }
    }

    pub fn options(&self) -> (result: &SocketOptions)
        requires
            self.wf(),
        ensures
            *result == self@.common().options,
    {
        match &self.inner {
            SocketInner::SwapTemp => vstd::pervasive::unreached(),
            SocketInner::Closed(s) => &s.options,
            SocketInner::Listen(s) => s.options(),
            SocketInner::Connection(s) => &s.options,
        }
    }

    pub fn options_mut(&mut self) -> (result: &mut SocketOptions)
        requires
            old(self).wf(),
        ensures
            final(self).wf(),
            *result == old(self)@.common().options,
            final(self)@.common() == (SocketCommon {
                options: *final(result),
                ..old(self)@.common()
            }),
            match old(self)@ {
                SocketInner::SwapTemp => false,
                SocketInner::Closed(_) => final(self)@ is Closed,
                SocketInner::Listen(s) => {
                    &&& final(self)@ matches SocketInner::Listen(after)
                    &&& after@ == (ListenView { options: *final(result), ..s@ })
                },
                SocketInner::Connection(s) => final(self)@ == SocketInner::<U, P>::Connection(
                    Connection { options: *final(result), ..s },
                ),
            },
    {
        match &mut self.inner {
            SocketInner::SwapTemp => vstd::pervasive::unreached(),
            SocketInner::Closed(s) => &mut s.options,
            SocketInner::Listen(s) => s.options_mut(),
            SocketInner::Connection(s) => &mut s.options,
        }
    }

    pub fn user_data(&self) -> (result: &U)
        requires
            self.wf(),
        ensures
            *result == self@.common().user_data,
    {
        match &self.inner {
            SocketInner::SwapTemp => vstd::pervasive::unreached(),
            SocketInner::Closed(s) => &s.user_data,
            SocketInner::Listen(s) => s.user_data(),
            SocketInner::Connection(s) => &s.user_data,
        }
    }

    pub fn user_data_mut(&mut self) -> (result: &mut U)
        requires
            old(self).wf(),
        ensures
            final(self).wf(),
            *result == old(self)@.common().user_data,
            final(self)@.common() == (SocketCommon {
                user_data: *final(result),
                ..old(self)@.common()
            }),
            match old(self)@ {
                SocketInner::SwapTemp => false,
                SocketInner::Closed(_) => final(self)@ is Closed,
                SocketInner::Listen(s) => {
                    &&& final(self)@ matches SocketInner::Listen(after)
                    &&& after@ == (ListenView { calls: final(result).calls(), ..s@ })
                },
                SocketInner::Connection(s) => final(self)@ == SocketInner::<U, P>::Connection(
                    Connection { user_data: *final(result), ..s },
                ),
            },
    {
        match &mut self.inner {
            SocketInner::SwapTemp => vstd::pervasive::unreached(),
            SocketInner::Closed(s) => &mut s.user_data,
            SocketInner::Listen(s) => s.user_data_mut(),
            SocketInner::Connection(s) => &mut s.user_data,
        }
    }

    /// Starts to connect to `remote`. Only a socket in the closed state can. The new
    /// connection has the user data and the options of the socket.
    pub fn call_connect(&mut self, remote: U::Addr) -> (result: Result<(), Error>)
        requires
            old(self).wf(),
        ensures
            final(self).wf(),
            final(self)@.common().options == old(self)@.common().options,
            match old(self)@ {
                SocketInner::SwapTemp => false,
                SocketInner::Closed(_) => final(self)@ is Connection,
                SocketInner::Listen(_) => {
                    &&& result == Err::<(), Error>(Error::InvalidStateTransition)
                    &&& *final(self) == *old(self)
                },
                SocketInner::Connection(s) => exists|state: ConnectionState| #[trigger]
                    call_ensures(P::state, (&s.protocol,), state) && if state
                        == ConnectionState::Closed {
                        final(self)@ is Connection
                    } else {
                        &&& result == Err::<(), Error>(Error::InvalidStateTransition)
                        &&& *final(self) == *old(self)
                    },
            },
            exists|state: ConnectionState| #[trigger]
                old(self)@.may_be_in(state) && {
                    if state != ConnectionState::Closed {
                        &&& result == Err::<(), Error>(Error::InvalidStateTransition)
                        &&& *final(self) == *old(self)
                    } else {
                        &&& final(self)@ matches SocketInner::Connection(after)
                        &&& exists|made: Connection<U, P>, connected: &mut Connection<U, P>|
                            {
                                &&& #[trigger] call_ensures(
                                    Connection::<U, P>::new,
                                    (remote, old(self)@.common().user_data),
                                    made,
                                )
                                &&& *connected == (Connection {
                                    options: old(self)@.common().options,
                                    ..made
                                })
                                &&& #[trigger] call_ensures(
                                    Connection::<U, P>::call_connect,
                                    (connected,),
                                    result,
                                )
                                &&& after == *final(connected)
                            }
                    }
                },
    {
        let state = self.state();
        assert(old(self)@.may_be_in(state));
        if state != ConnectionState::Closed {
            return Err(Error::InvalidStateTransition);
        }
        // Do some swapping so that we don't need Copy property for UserData
        let mut inner = SocketInner::SwapTemp;
        core::mem::swap(&mut self.inner, &mut inner);
        let SocketCommon { user_data, options } = inner.extract_common();

        let mut c = Connection::<U, P>::new(remote, user_data);
        c.options = options;
        let result = c.call_connect();
        self.inner = SocketInner::Connection(c);
        result
    }

    /// Starts to listen, with room for `backlog` connection requests. Only a socket
    /// in the closed state can.
    pub fn call_listen(&mut self, backlog: usize) -> (result: Result<(), Error>)
        requires
            old(self).wf(),
        ensures
            final(self).wf(),
            final(self)@.common().user_data == old(self)@.common().user_data,
            match old(self)@ {
                SocketInner::SwapTemp => false,
                SocketInner::Closed(_) => final(self)@ is Listen,
                SocketInner::Listen(_) => {
                    &&& result == Err::<(), Error>(Error::InvalidStateTransition)
                    &&& *final(self) == *old(self)
                },
                SocketInner::Connection(s) => exists|state: ConnectionState| #[trigger]
                    call_ensures(P::state, (&s.protocol,), state) && if state
                        == ConnectionState::Closed {
                        final(self)@ is Listen && result == Ok::<(), Error>(())
                    } else {
                        &&& result == Err::<(), Error>(Error::InvalidStateTransition)
                        &&& *final(self) == *old(self)
                    },
            },
            exists|state: ConnectionState| #[trigger]
                old(self)@.may_be_in(state) && {
                    if state != ConnectionState::Closed {
                        &&& result == Err::<(), Error>(Error::InvalidStateTransition)
                        &&& *final(self) == *old(self)
                    } else {
                        &&& result == Ok::<(), Error>(())
                        &&& final(self)@ matches SocketInner::Listen(after)
                        &&& after@ == ListenView::<U>::starting(
                            backlog,
                            old(self)@.common().user_data,
                        )
                    }
                },
    {
        let state = self.state();
        assert(old(self)@.may_be_in(state));
        if state != ConnectionState::Closed {
            return Err(Error::InvalidStateTransition);
        }
        // Do some swapping so that we don't need Copy property for UserData
        let mut inner = SocketInner::SwapTemp;
        core::mem::swap(&mut self.inner, &mut inner);
        let SocketCommon { user_data, .. } = inner.extract_common();
        self.inner = SocketInner::Listen(ListenSocket::call_listen(backlog, user_data));
        Ok(())
    }

    /// Accepts a connection, see [`ListenSocket::call_accept`]. Only a listening socket can.
    pub fn call_accept<F: FnOnce(&ListenSocket<U>) -> U>(&mut self, make_user_data: F) -> (result:
        Result<(U::Addr, Connection<U, P>), Error>)
        requires
            old(self).wf(),
            old(self)@ matches SocketInner::Listen(s) ==> (s@.open && s@.queue.len() == 0
                ==> s@.events.next_cookie < u64::MAX),
            forall|socket: &ListenSocket<U>|
                socket.wf() ==> #[trigger] call_requires(make_user_data, (socket,)),
        ensures
            final(self).wf(),
            match old(self)@ {
                SocketInner::SwapTemp => false,
                SocketInner::Closed(_) => {
                    &&& result == Err::<(U::Addr, Connection<U, P>), Error>(Error::Closed)
                    &&& *final(self) == *old(self)
                },
                SocketInner::Connection(_) => {
                    &&& result == Err::<(U::Addr, Connection<U, P>), Error>(Error::InvalidStateTransition)
                    &&& *final(self) == *old(self)
                },
                SocketInner::Listen(s) => {
                    &&& final(self)@ matches SocketInner::Listen(after)
                    &&& exists|m: &mut ListenSocket<U>| #[trigger]
                        call_ensures(
                            ListenSocket::<U>::call_accept::<P, F>,
                            (m, make_user_data),
                            result,
                        ) && *m == s && *final(m) == after
                },
            },
    {
        match &mut self.inner {
            SocketInner::SwapTemp => vstd::pervasive::unreached(),
            SocketInner::Closed(_) => Err(Error::Closed),
            SocketInner::Connection(_) => Err(Error::InvalidStateTransition),
            SocketInner::Listen(s) => s.call_accept(make_user_data),
        }
    }

    /// Closes a connection, or stops listening.
    pub fn call_close(&mut self) -> (result: Result<(), Error>)
        requires
            old(self).wf(),
        ensures
            final(self).wf(),
            match old(self)@ {
                SocketInner::SwapTemp => false,
                SocketInner::Closed(_) => {
                    &&& result == Err::<(), Error>(Error::Closed)
                    &&& *final(self) == *old(self)
                },
                SocketInner::Connection(s) => {
                    &&& final(self)@ matches SocketInner::Connection(after)
                    &&& exists|m: &mut Connection<U, P>| #[trigger]
                        call_ensures(Connection::<U, P>::call_close, (m,), result)
                            && *m == s && *final(m) == after
                },
                SocketInner::Listen(s) => {
                    &&& result == Ok::<(), Error>(())
                    &&& final(self)@ matches SocketInner::Listen(after)
                    &&& exists|woken: Seq<((), Cookie)>|
                        {
                            &&& woken.no_duplicates()
                            &&& woken.to_set() == s@.events.suspended
                            &&& after@ == #[trigger] s@.closing(woken)
                        }
                    &&& after@.calls == s@.calls ==> after.user() == s.user()
                    &&& exists|m: &mut ListenSocket<U>| #[trigger]
                        call_ensures(ListenSocket::<U>::call_close, (m,), ()) && *m == s
                            && *final(m) == after
                },
            },
    {
        match &mut self.inner {
            SocketInner::SwapTemp => vstd::pervasive::unreached(),
            SocketInner::Closed(_) => Err(Error::Closed),
            SocketInner::Connection(s) => s.call_close(),
            SocketInner::Listen(s) => {
                s.call_close();
                Ok(())
            },
        }
    }

    /// Aborts a connection, or stops listening.
    pub fn call_abort(&mut self) -> (result: Result<(), Error>)
        requires
            old(self).wf(),
        ensures
            final(self).wf(),
            match old(self)@ {
                SocketInner::SwapTemp => false,
                SocketInner::Closed(_) => {
                    &&& result == Err::<(), Error>(Error::Closed)
                    &&& *final(self) == *old(self)
                },
                SocketInner::Connection(s) => {
                    &&& final(self)@ matches SocketInner::Connection(after)
                    &&& exists|m: &mut Connection<U, P>| #[trigger]
                        call_ensures(Connection::<U, P>::call_abort, (m,), result)
                            && *m == s && *final(m) == after
                },
                SocketInner::Listen(s) => {
                    &&& result == Ok::<(), Error>(())
                    &&& final(self)@ matches SocketInner::Listen(after)
                    &&& exists|woken: Seq<((), Cookie)>|
                        {
                            &&& woken.no_duplicates()
                            &&& woken.to_set() == s@.events.suspended
                            &&& after@ == #[trigger] s@.closing(woken)
                        }
                    &&& after@.calls == s@.calls ==> after.user() == s.user()
                    &&& exists|m: &mut ListenSocket<U>| #[trigger]
                        call_ensures(ListenSocket::<U>::call_close, (m,), ()) && *m == s
                            && *final(m) == after
                },
            },
    {
        match &mut self.inner {
            SocketInner::SwapTemp => vstd::pervasive::unreached(),
            SocketInner::Closed(_) => Err(Error::Closed),
            SocketInner::Connection(s) => s.call_abort(),
            SocketInner::Listen(s) => {
                s.call_close();
                Ok(())
            },
        }
    }

    /// Closes the sending direction of a connection.
    pub fn call_shutdown(&mut self) -> (result: Result<(), Error>)
        requires
            old(self).wf(),
        ensures
            final(self).wf(),
            match old(self)@ {
                SocketInner::SwapTemp => false,
                SocketInner::Closed(_) => {
                    &&& result == Err::<(), Error>(Error::Closed)
                    &&& *final(self) == *old(self)
                },
                SocketInner::Listen(_) => {
                    &&& result == Err::<(), Error>(Error::Listening)
                    &&& *final(self) == *old(self)
                },
                SocketInner::Connection(s) => {
                    &&& final(self)@ matches SocketInner::Connection(after)
                    &&& exists|m: &mut Connection<U, P>| #[trigger]
                        call_ensures(Connection::<U, P>::call_shutdown, (m,), result)
                            && *m == s && *final(m) == after
                },
            },
    {
        match &mut self.inner {
            SocketInner::SwapTemp => vstd::pervasive::unreached(),
            SocketInner::Closed(_) => Err(Error::Closed),
            SocketInner::Listen(_) => Err(Error::Listening),
            SocketInner::Connection(s) => s.call_shutdown(),
        }
    }

    /// Sends data over a connection.
    pub fn call_send(&mut self, data: Vec<u8>) -> (result: Result<(), Error>)
        requires
            old(self).wf(),
        ensures
            final(self).wf(),
            match old(self)@ {
                SocketInner::SwapTemp => false,
                SocketInner::Closed(_) => {
                    &&& result == Err::<(), Error>(Error::Closed)
                    &&& *final(self) == *old(self)
                },
                SocketInner::Listen(_) => {
                    &&& result == Err::<(), Error>(Error::Listening)
                    &&& *final(self) == *old(self)
                },
                SocketInner::Connection(s) => {
                    &&& final(self)@ matches SocketInner::Connection(after)
                    &&& exists|m: &mut Connection<U, P>| #[trigger]
                        call_ensures(Connection::<U, P>::call_send, (m, data), result)
                            && *m == s && *final(m) == after
                },
            },
    {
        match &mut self.inner {
            SocketInner::SwapTemp => vstd::pervasive::unreached(),
            SocketInner::Closed(_) => Err(Error::Closed),
            SocketInner::Listen(_) => Err(Error::Listening),
            SocketInner::Connection(s) => s.call_send(data),
        }
    }

    /// Receives data from a connection.
    pub fn call_recv(&mut self, buffer: &mut [u8]) -> (result: Result<usize, Error>)
        requires
            old(self).wf(),
        ensures
            final(self).wf(),
            match old(self)@ {
                SocketInner::SwapTemp => false,
                SocketInner::Closed(_) => {
                    &&& result == Err::<usize, Error>(Error::Closed)
                    &&& *final(self) == *old(self)
                    &&& final(buffer)@ == old(buffer)@
                },
                SocketInner::Listen(_) => {
                    &&& result == Err::<usize, Error>(Error::Listening)
                    &&& *final(self) == *old(self)
                    &&& final(buffer)@ == old(buffer)@
                },
                SocketInner::Connection(s) => {
                    &&& final(self)@ matches SocketInner::Connection(after)
                    &&& exists|m: &mut Connection<U, P>, b: &mut [u8]| #[trigger]
                        call_ensures(Connection::<U, P>::call_recv, (m, b), result)
                            && *m == s && *final(m) == after && b@
                            == old(buffer)@ && final(b)@ == final(buffer)@
                },
            },
    {
        match &mut self.inner {
            SocketInner::SwapTemp => vstd::pervasive::unreached(),
            SocketInner::Closed(_) => Err(Error::Closed),
            SocketInner::Listen(_) => Err(Error::Listening),
            SocketInner::Connection(s) => s.call_recv(buffer),
        }
    }

    /// Number of bytes that a connection has received and the user has not.
    pub fn recv_available(&mut self) -> (result: Result<usize, Error>)
        requires
            old(self).wf(),
        ensures
            final(self).wf(),
            match old(self)@ {
                SocketInner::SwapTemp => false,
                SocketInner::Closed(_) => {
                    &&& result == Err::<usize, Error>(Error::Closed)
                    &&& *final(self) == *old(self)
                },
                SocketInner::Listen(_) => {
                    &&& result == Err::<usize, Error>(Error::Listening)
                    &&& *final(self) == *old(self)
                },
                SocketInner::Connection(s) => {
                    &&& *final(self) == *old(self)
                    &&& exists|count: usize| #[trigger]
                        call_ensures(P::recv_available, (&s.protocol,), count) && result == Ok::<
                            usize,
                            Error,
                        >(count)
                },
            },
    {
        match &mut self.inner {
            SocketInner::SwapTemp => vstd::pervasive::unreached(),
            SocketInner::Closed(_) => Err(Error::Closed),
            SocketInner::Listen(_) => Err(Error::Listening),
            SocketInner::Connection(s) => {
                let count: usize = s.recv_available();
                Ok(count)
            },
        }
    }

    /// To be called with every segment that comes in for the socket, and its sender.
    pub fn on_segment(&mut self, src: U::Addr, seg: SegmentMeta)
        requires
            old(self).wf(),
        ensures
            final(self).wf(),
            match old(self)@ {
                SocketInner::SwapTemp => false,
                SocketInner::Closed(s) => match closed_response(seg@) {
                    Some(answer) => {
                        &&& final(self)@ matches SocketInner::Closed(after)
                        &&& after.options == s.options
                        &&& after.user_data.calls() == s.user_data.calls().push(
                            UserCall::Send { dst: src, seg: answer },
                        )
                        &&& exists|m: &mut U, sent: SegmentMeta|
                            {
                                &&& #[trigger] call_ensures(U::send, (m, src, sent), ())
                                &&& sent@ == answer
                                &&& *m == s.user_data
                                &&& *final(m) == after.user_data
                            }
                    },
                    None => *final(self) == *old(self),
                },
                SocketInner::Listen(s) => {
                    &&& final(self)@ matches SocketInner::Listen(after)
                    &&& s@.on_segment(src, seg, after@)
                    &&& exists|m: &mut ListenSocket<U>| #[trigger]
                        call_ensures(ListenSocket::<U>::on_segment, (m, src, seg), ()) && *m == s
                            && *final(m) == after
                },
                SocketInner::Connection(s) => {
                    &&& final(self)@ matches SocketInner::Connection(after)
                    &&& exists|m: &mut Connection<U, P>| #[trigger]
                        call_ensures(Connection::<U, P>::on_segment, (m, seg), ())
                            && *m == s && *final(m) == after
                },
            },
    {
        match &mut self.inner {
            SocketInner::SwapTemp => vstd::pervasive::unreached(),
            SocketInner::Closed(s) => {
                if let Some(resp) = response_to_closed(seg) {
                    s.user_data.send(src, resp);
                }
            },
            SocketInner::Listen(s) => s.on_segment(src, seg),
            SocketInner::Connection(s) => s.on_segment(seg),
        }
    }

    /// To be called whenever a timer expires, or simply periodically
    pub fn on_time_tick(&mut self, time: U::Time)
        requires
            old(self).wf(),
        ensures
            final(self).wf(),
            match old(self)@ {
                SocketInner::SwapTemp => false,
                SocketInner::Closed(_) => *final(self) == *old(self),
                SocketInner::Listen(_) => *final(self) == *old(self),
                SocketInner::Connection(s) => {
                    &&& final(self)@ matches SocketInner::Connection(after)
                    &&& exists|m: &mut Connection<U, P>| #[trigger]
                        call_ensures(Connection::<U, P>::on_time_tick, (m, time), ())
                            && *m == s && *final(m)
                            == after
                },
            },
    {
        match &mut self.inner {
            SocketInner::SwapTemp => vstd::pervasive::unreached(),
            SocketInner::Closed(_) => {},
            SocketInner::Listen(_) => {},
            SocketInner::Connection(s) => s.on_time_tick(time),
        }
    }
}

/// A socket can be used in every role, if only what listens is well-formed.
pub proof fn law_socket_can_be_used_in_every_role<U: UserData, P: Protocol<U>>(
    socket: Socket<U, P>,
)
    ensures
        socket@ is Closed ==> socket.wf(),
        socket@ is Connection ==> socket.wf(),
        socket@ matches SocketInner::Listen(s) ==> (socket.wf() <==> s.wf()),
{
}

impl<U: UserData, P: Protocol<U>> vstd::std_specs::convert::FromSpecImpl<Connection<U, P>> for Socket<U, P> {
    open spec fn obeys_from_spec() -> bool {
        true
    }

    closed spec fn from_spec(value: Connection<U, P>) -> Self {
        Socket { inner: SocketInner::Connection(value) }
    }
}

impl<U: UserData, P: Protocol<U>> From<Connection<U, P>> for Socket<U, P> {
    fn from(value: Connection<U, P>) -> (result: Self)
        ensures
            result@ == SocketInner::<U, P>::Connection(value),
            result.wf(),
    {
        Self { inner: SocketInner::Connection(value) }
    }
}

impl<U: UserData, P: Protocol<U>> vstd::std_specs::convert::FromSpecImpl<ListenSocket<U>> for Socket<U, P> {
    open spec fn obeys_from_spec() -> bool {
        true
    }

    closed spec fn from_spec(value: ListenSocket<U>) -> Self {
        Socket { inner: SocketInner::Listen(value) }
    }
}

impl<U: UserData, P: Protocol<U>> From<ListenSocket<U>> for Socket<U, P> {
    fn from(value: ListenSocket<U>) -> (result: Self)
        ensures
            result@ == SocketInner::<U, P>::Listen(value),
            value.wf() ==> result.wf(),
    {
        Self { inner: SocketInner::Listen(value) }
    }
}

} // verus!
