use tcpstate::state::ChannelState;
use tcpstate::ConnectionState;

fn established(
    tx_state: ChannelState,
    rx_state: ChannelState,
    close_called: bool,
    close_active: bool,
) -> ConnectionState {
    ConnectionState::Established { tx_state, rx_state, close_called, close_active }
}

const OPEN: ChannelState = ChannelState::Open;
const FIN: ChannelState = ChannelState::Fin;
const CLOSED: ChannelState = ChannelState::Closed;

#[test]
fn fully_open_is_open_both_ways() {
    let state = ConnectionState::fully_open();
    assert_eq!(state, established(OPEN, OPEN, false, false));
    assert_eq!(state.tx(), OPEN);
    assert_eq!(state.rx(), OPEN);
    assert!(!state.close_called());
    assert!(!state.close_active());
    assert!(!state.fin_sent());
    assert!(!state.fin_received());
    assert!(!state.output_buffer_guaranteed_clear());
}

#[test]
fn channel_states_of_connection_states() {
    for state in [ConnectionState::SynSent, ConnectionState::SynReceived] {
        assert_eq!(state.tx(), OPEN);
        assert_eq!(state.rx(), OPEN);
        assert!(!state.close_called());
        assert!(!state.close_active());
        assert!(!state.fin_sent());
        assert!(!state.fin_received());
    }
    for state in [
        ConnectionState::Listen,
        ConnectionState::TimeWait,
        ConnectionState::Reset,
        ConnectionState::Closed,
    ] {
        assert_eq!(state.tx(), CLOSED);
        assert_eq!(state.rx(), CLOSED);
    }
    assert_eq!(established(FIN, CLOSED, true, false).tx(), FIN);
    assert_eq!(established(FIN, CLOSED, true, false).rx(), CLOSED);
}

#[test]
fn closing_questions() {
    assert!(established(FIN, OPEN, true, false).close_called());
    assert!(!established(FIN, OPEN, true, false).close_active());
    assert!(established(FIN, OPEN, true, true).close_active());
    assert!(ConnectionState::TimeWait.close_active());

    assert!(established(FIN, OPEN, false, false).fin_sent());
    assert!(established(CLOSED, OPEN, false, false).fin_sent());
    assert!(!established(OPEN, CLOSED, false, false).fin_sent());
    assert!(ConnectionState::TimeWait.fin_sent());
    assert!(!ConnectionState::Reset.fin_sent());
    assert!(!ConnectionState::Listen.fin_sent());

    assert!(established(OPEN, FIN, false, false).fin_received());
    assert!(established(OPEN, CLOSED, false, false).fin_received());
    assert!(!established(CLOSED, OPEN, false, false).fin_received());
    assert!(ConnectionState::TimeWait.fin_received());
    assert!(!ConnectionState::SynSent.fin_received());

    assert!(established(CLOSED, OPEN, false, false).output_buffer_guaranteed_clear());
    assert!(!established(FIN, OPEN, false, false).output_buffer_guaranteed_clear());
    assert!(!established(OPEN, CLOSED, false, false).output_buffer_guaranteed_clear());
    assert!(ConnectionState::TimeWait.output_buffer_guaranteed_clear());
    assert!(!ConnectionState::Reset.output_buffer_guaranteed_clear());
}

#[test]
fn valid_and_invalid_transitions() {
    let open = ConnectionState::fully_open();
    let closing = established(FIN, OPEN, true, true);
    assert!(open.is_valid_transition(closing));
    open.debug_validate_transition(closing);
    assert!(!closing.is_valid_transition(open));
    assert!(closing.is_valid_transition(established(CLOSED, FIN, true, true)));
    // Back on one side only
    assert!(!established(FIN, FIN, false, false)
        .is_valid_transition(established(OPEN, FIN, false, false)));
    assert!(!established(FIN, CLOSED, false, false)
        .is_valid_transition(established(FIN, FIN, false, false)));
    assert!(!established(FIN, OPEN, true, false)
        .is_valid_transition(established(FIN, OPEN, false, false)));
    assert!(!established(FIN, OPEN, true, true)
        .is_valid_transition(established(FIN, OPEN, true, false)));
    // Close was called, and the sending side is still open
    assert!(!established(OPEN, OPEN, true, false)
        .is_valid_transition(established(OPEN, OPEN, true, false)));
    assert!(established(OPEN, OPEN, true, false)
        .is_valid_transition(established(FIN, OPEN, true, false)));
    // Not looked at
    assert!(closing.is_valid_transition(ConnectionState::Reset));
    closing.debug_validate_transition(ConnectionState::Reset);
    assert!(ConnectionState::TimeWait.is_valid_transition(open));
}

#[test]
fn valid_transitions_compose() {
    let mut all = Vec::new();
    for tx in [OPEN, FIN, CLOSED] {
        for rx in [OPEN, FIN, CLOSED] {
            for called in [false, true] {
                for active in [false, true] {
                    all.push(established(tx, rx, called, active));
                }
            }
        }
    }
    for a in &all {
        assert!(ConnectionState::fully_open().is_valid_transition(*a));
        for b in &all {
            for c in &all {
                if a.is_valid_transition(*b) && b.is_valid_transition(*c) {
                    assert!(a.is_valid_transition(*c));
                }
            }
        }
    }
}
