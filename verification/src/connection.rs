//! Connections, and what they need of the protocol that they run.

use vstd::prelude::*;

use crate::options::SocketOptions;
use crate::result::Error;
use crate::segment::SegmentMeta;
use crate::state::ConnectionState;
use crate::time::Duration;
use crate::user_data::UserData;

verus! {

/// The protocol that a connection with one remote end runs. It reads the options of
/// the connection, and calls the user through the user data.
///
/// Nothing is promised of these functions here. Where a connection passes a call on,
/// its contract says which function is called, on what and with what.
pub trait Protocol<U: UserData>: Sized {
    /// The protocol in its initial state
    fn new(remote: U::Addr) -> Self;

    fn state(&self) -> ConnectionState;

    fn set_state(&mut self, options: &SocketOptions, user_data: &mut U, state: ConnectionState);

    fn call_connect(&mut self, options: &SocketOptions, user_data: &mut U) -> Result<(), Error>;

    fn call_close(&mut self, options: &SocketOptions, user_data: &mut U) -> Result<(), Error>;

    fn call_abort(&mut self, options: &SocketOptions, user_data: &mut U) -> Result<(), Error>;

    fn call_shutdown(&mut self, options: &SocketOptions, user_data: &mut U) -> Result<(), Error>;

    fn call_send(
        &mut self,
        options: &SocketOptions,
        user_data: &mut U,
        data: Vec<u8>,
    ) -> Result<(), Error>;

    fn call_recv(
        &mut self,
        options: &SocketOptions,
        user_data: &mut U,
        buffer: &mut [u8],
    ) -> Result<usize, Error>;

    fn recv_available(&self) -> usize;

    fn on_segment(&mut self, options: &SocketOptions, user_data: &mut U, seg: SegmentMeta);

    fn on_time_tick(&mut self, options: &SocketOptions, user_data: &mut U, time: U::Time);
}

/// A connection with one remote end: what a socket holds once it is neither closed
/// nor listening.
pub struct Connection<U: UserData, P: Protocol<U>> {
    pub options: SocketOptions,
    pub user_data: U,
    pub protocol: P,
}

impl<U: UserData, P: Protocol<U>> Connection<U, P> {
    /// A connection in its initial state, with the default options
    pub fn new(remote: U::Addr, user_data: U) -> (result: Self)
        ensures
            result.options == (SocketOptions { nagle_delay: Duration::zero() }),
            result.user_data == user_data,
            call_ensures(P::new, (remote,), result.protocol),
    {
        Self { options: SocketOptions::default(), user_data, protocol: P::new(remote) }
    }

    pub fn state(&self) -> (result: ConnectionState)
        ensures
            call_ensures(P::state, (&self.protocol,), result),
    {
        self.protocol.state()
    }

    pub fn set_state(&mut self, state: ConnectionState)
        ensures
            final(self).options == old(self).options,
            exists|p: &mut P, u: &mut U|
                {
                    &&& #[trigger] call_ensures(P::set_state, (p, &old(self).options, u, state), ())
                    &&& *p == old(self).protocol
                    &&& *final(p) == final(self).protocol
                    &&& *u == old(self).user_data
                    &&& *final(u) == final(self).user_data
                },
    {
        self.protocol.set_state(&self.options, &mut self.user_data, state)
    }

    /// Starts to connect
    pub fn call_connect(&mut self) -> (result: Result<(), Error>)
        ensures
            final(self).options == old(self).options,
            exists|p: &mut P, u: &mut U|
                {
                    &&& #[trigger] call_ensures(P::call_connect, (p, &old(self).options, u), result)
                    &&& *p == old(self).protocol
                    &&& *final(p) == final(self).protocol
                    &&& *u == old(self).user_data
                    &&& *final(u) == final(self).user_data
                },
    {
        self.protocol.call_connect(&self.options, &mut self.user_data)
    }

    /// Closes the connection
    pub fn call_close(&mut self) -> (result: Result<(), Error>)
        ensures
            final(self).options == old(self).options,
            exists|p: &mut P, u: &mut U|
                {
                    &&& #[trigger] call_ensures(P::call_close, (p, &old(self).options, u), result)
                    &&& *p == old(self).protocol
                    &&& *final(p) == final(self).protocol
                    &&& *u == old(self).user_data
                    &&& *final(u) == final(self).user_data
                },
    {
        self.protocol.call_close(&self.options, &mut self.user_data)
    }

    /// Aborts the connection
    pub fn call_abort(&mut self) -> (result: Result<(), Error>)
        ensures
            final(self).options == old(self).options,
            exists|p: &mut P, u: &mut U|
                {
                    &&& #[trigger] call_ensures(P::call_abort, (p, &old(self).options, u), result)
                    &&& *p == old(self).protocol
                    &&& *final(p) == final(self).protocol
                    &&& *u == old(self).user_data
                    &&& *final(u) == final(self).user_data
                },
    {
        self.protocol.call_abort(&self.options, &mut self.user_data)
    }

    /// Closes the sending direction
    pub fn call_shutdown(&mut self) -> (result: Result<(), Error>)
        ensures
            final(self).options == old(self).options,
            exists|p: &mut P, u: &mut U|
                {
                    &&& #[trigger] call_ensures(P::call_shutdown, (p, &old(self).options, u), result)
                    &&& *p == old(self).protocol
                    &&& *final(p) == final(self).protocol
                    &&& *u == old(self).user_data
                    &&& *final(u) == final(self).user_data
                },
    {
        self.protocol.call_shutdown(&self.options, &mut self.user_data)
    }

    /// Sends data
    pub fn call_send(&mut self, data: Vec<u8>) -> (result: Result<(), Error>)
        ensures
            final(self).options == old(self).options,
            exists|p: &mut P, u: &mut U|
                {
                    &&& #[trigger] call_ensures(P::call_send, (p, &old(self).options, u, data), result)
                    &&& *p == old(self).protocol
                    &&& *final(p) == final(self).protocol
                    &&& *u == old(self).user_data
                    &&& *final(u) == final(self).user_data
                },
    {
        self.protocol.call_send(&self.options, &mut self.user_data, data)
    }

    /// Called on incoming segment
    pub fn on_segment(&mut self, seg: SegmentMeta)
        ensures
            final(self).options == old(self).options,
            exists|p: &mut P, u: &mut U|
                {
                    &&& #[trigger] call_ensures(P::on_segment, (p, &old(self).options, u, seg), ())
                    &&& *p == old(self).protocol
                    &&& *final(p) == final(self).protocol
                    &&& *u == old(self).user_data
                    &&& *final(u) == final(self).user_data
                },
    {
        self.protocol.on_segment(&self.options, &mut self.user_data, seg)
    }

    /// To be called whenever a timer expires, or simply periodically
    pub fn on_time_tick(&mut self, time: U::Time)
        ensures
            final(self).options == old(self).options,
            exists|p: &mut P, u: &mut U|
                {
                    &&& #[trigger] call_ensures(P::on_time_tick, (p, &old(self).options, u, time), ())
                    &&& *p == old(self).protocol
                    &&& *final(p) == final(self).protocol
                    &&& *u == old(self).user_data
                    &&& *final(u) == final(self).user_data
                },
    {
        self.protocol.on_time_tick(&self.options, &mut self.user_data, time)
    }

    /// Number of bytes that were received and not yet handed to the user
    pub fn recv_available(&self) -> (result: usize)
        ensures
            call_ensures(P::recv_available, (&self.protocol,), result),
    {
        self.protocol.recv_available()
    }

    /// Receives data into `buffer`, and returns how much that was
    pub fn call_recv(&mut self, buffer: &mut [u8]) -> (result: Result<usize, Error>)
        ensures
            final(self).options == old(self).options,
            exists|p: &mut P, u: &mut U, b: &mut [u8]|
                {
                    &&& #[trigger] call_ensures(P::call_recv, (p, &old(self).options, u, b), result)
                    &&& *p == old(self).protocol
                    &&& *final(p) == final(self).protocol
                    &&& *u == old(self).user_data
                    &&& *final(u) == final(self).user_data
                    &&& b@ == old(buffer)@
                    &&& final(b)@ == final(buffer)@
                },
    {
        self.protocol.call_recv(&self.options, &mut self.user_data, buffer)
    }
}

} // verus!
