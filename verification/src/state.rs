//! States of a connection and of its two directions.

use vstd::prelude::*;

verus! {

#[derive(Debug, Clone, Copy, PartialEq, Eq, PartialOrd, Ord, Structural)]
pub enum ChannelState {
    /// Data is allowed to flow through
    Open,
    /// End of data on this channel has been reached, indicated by a FIN packet.
    ///
    /// On sending side, FIN is queued for sending and no more data will be accepted.
    ///
    /// On receiving side, FIN has been ACK and no more data will be arriving,
    /// but the buffer may still contain some data.
    Fin,
    /// FIN has been ACK'd. No more data remains in the buffer.
    Closed,
}

impl ChannelState {
    /// How far the channel has come towards its end.
    pub open spec fn progress(self) -> int {
        match self {
            ChannelState::Open => 0,
            ChannelState::Fin => 1,
            ChannelState::Closed => 2,
        }
    }

    /// The channel has not come further than `other`.
    fn at_most(self, other: Self) -> (result: bool)
        ensures
            result == (self.progress() <= other.progress()),
    {
        match (self, other) {
            (ChannelState::Open, _) => true,
            (ChannelState::Fin, ChannelState::Open) => false,
            (ChannelState::Fin, _) => true,
            (ChannelState::Closed, ChannelState::Closed) => true,
            (ChannelState::Closed, _) => false,
        }
    }
}

#[derive(Debug, Clone, Copy, PartialEq, Eq, Structural)]
pub enum ConnectionState {
    /// Server: Waiting for a connection request from any client.
    Listen,
    /// Client: SYN packet sent, waiting for SYN-ACK response.
    SynSent,
    /// Server: SYN packet received, SYN-ACK sent.
    SynReceived,
    /// Connection is open and operational, or in the process of closing down
    Established {
        tx_state: ChannelState,
        rx_state: ChannelState,
        /// User has waited for the connection to close
        close_called: bool,
        /// We called close before receiving FIN, so we must enter TimeWait before closing
        close_active: bool,
    },
    /// Waiting to make sure the other side has time to close the connection.
    TimeWait,
    /// Connection has been terminated due to a reset, and the next call returns that
    Reset,
    /// Connection has been closed, or has never been opened at all. Initial state.
    Closed,
}

impl ConnectionState {
    /// Whether the step from `self` to `to` is not one of those that are known to
    /// be invalid. While a connection is established, neither direction of it goes
    /// back, what was called stays called, and once close was called the sending
    /// side does not stay open. Other steps are not looked at.
    pub open spec fn may_become(self, to: ConnectionState) -> bool {
        match (self, to) {
            (
                ConnectionState::Established { tx_state, rx_state, close_called, close_active },
                ConnectionState::Established {
                    tx_state: to_tx_state,
                    rx_state: to_rx_state,
                    close_called: to_close_called,
                    close_active: to_close_active,
                },
            ) => {
                &&& tx_state.progress() <= to_tx_state.progress()
                &&& rx_state.progress() <= to_rx_state.progress()
                &&& close_called ==> to_close_called
                &&& close_active ==> to_close_active
                &&& close_called ==> to_tx_state !is Open
            },
            _ => true,
        }
    }

    /// Progress of the sending direction: open during the handshake, closed where
    /// there is no connection.
    pub open spec fn tx_of(self) -> ChannelState {
        match self {
            ConnectionState::SynSent | ConnectionState::SynReceived => ChannelState::Open,
            ConnectionState::Established { tx_state, .. } => tx_state,
            _ => ChannelState::Closed,
        }
    }

    /// Progress of the receiving direction: open during the handshake, closed where
    /// there is no connection.
    pub open spec fn rx_of(self) -> ChannelState {
        match self {
            ConnectionState::SynSent | ConnectionState::SynReceived => ChannelState::Open,
            ConnectionState::Established { rx_state, .. } => rx_state,
            _ => ChannelState::Closed,
        }
    }

    /// The handshake is under way or done, and the connection is still there.
    pub open spec fn is_connecting_or_established(self) -> bool {
        self is SynSent || self is SynReceived || self is Established
    }

    /// The state right after the handshake.
    #[verifier::allow_in_spec]
    pub fn fully_open() -> Self
        returns
            (ConnectionState::Established {
                tx_state: ChannelState::Open,
                rx_state: ChannelState::Open,
                close_called: false,
                close_active: false,
            }),
    {
        ConnectionState::Established {
            tx_state: ChannelState::Open,
            rx_state: ChannelState::Open,
            close_called: false,
            close_active: false,
        }
    }

    /// Whether the transition is not one of those that are known to be invalid.
    pub fn is_valid_transition(self, to: ConnectionState) -> (result: bool)
        ensures
            result == self.may_become(to),
    {
        if let ConnectionState::Established { tx_state, rx_state, close_called, close_active }
            = self {
            if let ConnectionState::Established {
                tx_state: to_tx_state,
                rx_state: to_rx_state,
                close_called: to_close_called,
                close_active: to_close_active,
            } = to {
                return tx_state.at_most(to_tx_state) && rx_state.at_most(to_rx_state) && (
                !close_called || to_close_called) && (!close_active || to_close_active) && (
                !close_called || ChannelState::Fin.at_most(to_tx_state));
            }
        }
        true
    }

    /// Check for some invalid transitions. It does not return from one, and is not to be
    /// called with one.
    pub fn debug_validate_transition(self, to: ConnectionState)
        requires
            self.may_become(to),
    {
        if !self.is_valid_transition(to) {
            vstd::pervasive::unreached()
        }
    }

    pub fn tx(self) -> (result: ChannelState)
        ensures
            result == self.tx_of(),
            self is Established ==> result == self->tx_state,
            self is SynSent || self is SynReceived ==> result == ChannelState::Open,
            self is Listen || self is TimeWait || self is Reset || self is Closed ==> result
                == ChannelState::Closed,
    {
        match self {
            ConnectionState::SynSent | ConnectionState::SynReceived => ChannelState::Open,
            ConnectionState::Established { tx_state, .. } => tx_state,
            ConnectionState::Listen
            | ConnectionState::TimeWait
            | ConnectionState::Reset
            | ConnectionState::Closed => ChannelState::Closed,
        }
    }

    pub fn rx(self) -> (result: ChannelState)
        ensures
            result == self.rx_of(),
            self is Established ==> result == self->rx_state,
            self is SynSent || self is SynReceived ==> result == ChannelState::Open,
            self is Listen || self is TimeWait || self is Reset || self is Closed ==> result
                == ChannelState::Closed,
    {
        match self {
            ConnectionState::SynSent | ConnectionState::SynReceived => ChannelState::Open,
            ConnectionState::Established { rx_state, .. } => rx_state,
            ConnectionState::Listen
            | ConnectionState::TimeWait
            | ConnectionState::Reset
            | ConnectionState::Closed => ChannelState::Closed,
        }
    }

    /// Has the user called close? Not to be asked where there is no connection to close.
    pub fn close_called(self) -> (result: bool)
        requires
            self.is_connecting_or_established(),
        ensures
            result == (self matches ConnectionState::Established { close_called: true, .. }),
    {
        match self {
            ConnectionState::Established { close_called, .. } => close_called,
            _ => false,
        }
    }

    /// Did we close first? Not to be asked where there is no connection to close.
    pub fn close_active(self) -> (result: bool)
        requires
            self.is_connecting_or_established() || self is TimeWait,
        ensures
            result == (self is TimeWait || self matches ConnectionState::Established {
                close_active: true,
                ..
            }),
    {
        match self {
            ConnectionState::Established { close_active, .. } => close_active,
            ConnectionState::TimeWait => true,
            _ => false,
        }
    }

    /// Have we sent a FIN packet already?
    pub fn fin_sent(self) -> (result: bool)
        requires
            self !is Closed,
        ensures
            result == ((self is Established || self is TimeWait) && self.tx_of() !is Open),
            result == (self is TimeWait || self is Established && self->tx_state !is Open),
    {
        matches!(
            self,
            ConnectionState::Established { tx_state: ChannelState::Fin | ChannelState::Closed, .. }
            | ConnectionState::TimeWait
        )
    }

    /// Have we received a FIN packet
    pub fn fin_received(self) -> (result: bool)
        requires
            self !is Closed,
        ensures
            result == ((self is Established || self is TimeWait) && self.rx_of() !is Open),
            result == (self is TimeWait || self is Established && self->rx_state !is Open),
    {
        matches!(
            self,
            ConnectionState::Established { rx_state: ChannelState::Fin | ChannelState::Closed, .. }
            | ConnectionState::TimeWait
        )
    }

    /// Output buffer must be empty by now
    pub fn output_buffer_guaranteed_clear(self) -> (result: bool)
        requires
            self !is Closed,
        ensures
            result == ((self is Established || self is TimeWait) && self.tx_of() is Closed),
            result == (self is TimeWait || self is Established && self->tx_state is Closed),
    {
        matches!(
            self,
            ConnectionState::Established { tx_state: ChannelState::Closed, .. }
            | ConnectionState::TimeWait
        )
    }
}

/// While a connection is established, a valid step never takes back a FIN that
/// was sent or received, nor a call of close.
pub proof fn law_valid_steps_only_go_forward(from: ConnectionState, to: ConnectionState)
    requires
        from is Established,
        to is Established,
        from.may_become(to),
    ensures
        from.tx_of().progress() <= to.tx_of().progress(),
        from.rx_of().progress() <= to.rx_of().progress(),
        from->close_called ==> to->close_called && to.tx_of() !is Open,
        from->close_active ==> to->close_active,
{
}

/// A channel goes from open by its FIN to closed.
pub proof fn law_channels_go_from_open_to_closed()
    ensures
        ChannelState::Open.progress() < ChannelState::Fin.progress(),
        ChannelState::Fin.progress() < ChannelState::Closed.progress(),
{
}

/// The invalid steps are these, within an established connection: a channel that was
/// closed or had its FIN goes back, a call of close or its being first is forgotten, or
/// the sending side stays open although close was called.
pub proof fn law_invalid_steps(from: ConnectionState, to: ConnectionState)
    ensures
        !from.may_become(to) <==> from is Established && to is Established && {
            ||| from->tx_state is Closed && to->tx_state !is Closed
            ||| from->tx_state is Fin && to->tx_state is Open
            ||| from->rx_state is Closed && to->rx_state !is Closed
            ||| from->rx_state is Fin && to->rx_state is Open
            ||| from->close_called && !to->close_called
            ||| from->close_active && !to->close_active
            ||| from->close_called && to->tx_state is Open
        },
{
}

/// A state stays valid, unless close was called with the sending side still open.
pub proof fn law_states_may_stay(state: ConnectionState)
    ensures
        state.may_become(state) <==> !(state is Established && state->close_called
            && state->tx_state is Open),
{
}

/// The channels of a connection are what the state says while it is established, open
/// before, and closed where there is none.
pub proof fn law_channels_of_states(state: ConnectionState)
    ensures
        state is Established ==> state.tx_of() == state->tx_state && state.rx_of()
            == state->rx_state,
        state is SynSent || state is SynReceived ==> state.tx_of() is Open && state.rx_of() is Open,
        state is Listen || state is TimeWait || state is Reset || state is Closed
            ==> state.tx_of() is Closed && state.rx_of() is Closed,
        state.is_connecting_or_established() <==> !(state is Listen || state is TimeWait
            || state is Reset || state is Closed),
{
}

/// Valid steps within an established connection add up to a valid step.
pub proof fn law_valid_steps_compose(
    first: ConnectionState,
    second: ConnectionState,
    third: ConnectionState,
)
    requires
        second is Established,
        first.may_become(second),
        second.may_become(third),
    ensures
        first.may_become(third),
{
}

/// From the state right after the handshake every state may follow.
pub proof fn law_fully_open_may_become_anything(to: ConnectionState)
    ensures
        ConnectionState::fully_open().may_become(to),
{
}

} // verus!
