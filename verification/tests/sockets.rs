use tcpstate::event::{Events, WaitUntil};
use tcpstate::{
    response_to_closed, Connection, ConnectionState, Cookie, Duration, Error, ListenSocket,
    Protocol, SegmentFlags, SegmentMeta, SeqN, Socket, SocketOptions, UserData, UserTime,
};

type Addr = u64;

#[derive(Debug, Clone, Copy, PartialEq, Eq, PartialOrd, Ord)]
struct Ticks(u64);

impl UserTime for Ticks {
    fn now() -> Self {
        Ticks(0)
    }

    fn add(&self, duration: Duration) -> Self {
        Ticks(self.0 + (duration.as_nanos() / 1_000_000) as u64)
    }
}

/// Keeps what it is called with.
#[derive(Debug, Clone, Default)]
struct Handler {
    name: &'static str,
    sent: Vec<(Addr, SegmentMeta)>,
    events: Vec<(Cookie, Result<(), Error>)>,
    timeouts: Vec<Ticks>,
    /// What the connection below was called with
    log: Vec<String>,
}

impl Handler {
    fn named(name: &'static str) -> Self {
        Handler { name, ..Handler::default() }
    }
}

impl UserData for Handler {
    type Time = Ticks;
    type Addr = Addr;

    fn new_seqn(&mut self) -> u32 {
        10_000
    }

    fn send(&mut self, dst: Addr, seg: SegmentMeta) {
        self.sent.push((dst, seg));
    }

    fn event(&mut self, cookie: Cookie, result: Result<(), Error>) {
        self.events.push((cookie, result));
    }

    fn add_timeout(&mut self, instant: Ticks) {
        self.timeouts.push(instant);
    }
}

/// Sends its SYN, notices a reset, and writes down the calls.
struct Probe {
    remote: Addr,
    state: ConnectionState,
    events: Events<WaitUntil>,
}

impl Protocol<Handler> for Probe {
    fn new(remote: Addr) -> Self {
        Probe { remote, state: ConnectionState::Closed, events: Events::new() }
    }

    fn state(&self) -> ConnectionState {
        self.state
    }

    fn set_state(&mut self, _: &SocketOptions, handler: &mut Handler, state: ConnectionState) {
        handler.log.push(format!("set_state {:?}", state));
        self.state = state;
    }

    fn call_connect(&mut self, options: &SocketOptions, handler: &mut Handler) -> Result<(), Error> {
        handler.log.push(format!("connect {}", options.nagle_delay.as_nanos()));
        self.state = ConnectionState::SynSent;
        let seqn = SeqN::new(handler.new_seqn());
        handler.send(
            self.remote,
            SegmentMeta {
                seqn,
                ackn: SeqN::zero(),
                window: 1024,
                flags: SegmentFlags::syn(),
                data: Vec::new(),
            },
        );
        self.events.return_continue_after(WaitUntil::Established)
    }

    fn call_close(&mut self, _: &SocketOptions, _: &mut Handler) -> Result<(), Error> {
        self.state = ConnectionState::Closed;
        Ok(())
    }

    fn call_abort(&mut self, _: &SocketOptions, _: &mut Handler) -> Result<(), Error> {
        Err(Error::ConnectionReset)
    }

    fn call_shutdown(&mut self, _: &SocketOptions, _: &mut Handler) -> Result<(), Error> {
        Err(Error::OutputClosed)
    }

    fn call_send(
        &mut self,
        _: &SocketOptions,
        handler: &mut Handler,
        data: Vec<u8>,
    ) -> Result<(), Error> {
        handler.log.push(format!("send {:?}", data));
        Ok(())
    }

    fn call_recv(
        &mut self,
        _: &SocketOptions,
        _: &mut Handler,
        buffer: &mut [u8],
    ) -> Result<usize, Error> {
        buffer[0] = 42;
        Ok(1)
    }

    fn recv_available(&self) -> usize {
        7
    }

    fn on_segment(&mut self, _: &SocketOptions, handler: &mut Handler, seg: SegmentMeta) {
        handler.log.push(format!("on_segment {}", seg.seqn.raw()));
        if seg.flags.contains(SegmentFlags::rst()) {
            self.state = ConnectionState::Reset;
        }
    }

    fn on_time_tick(&mut self, _: &SocketOptions, handler: &mut Handler, time: Ticks) {
        handler.log.push(format!("on_time_tick {}", time.0));
    }
}

type TestSocket = Socket<Handler, Probe>;

fn segment(seqn: u32, ackn: u32, flags: SegmentFlags, data: &[u8]) -> SegmentMeta {
    SegmentMeta {
        seqn: SeqN::new(seqn),
        ackn: SeqN::new(ackn),
        window: 1024,
        flags,
        data: data.to_vec(),
    }
}

fn reset(seqn: u32, ackn: u32, flags: SegmentFlags) -> SegmentMeta {
    SegmentMeta {
        seqn: SeqN::new(seqn),
        ackn: SeqN::new(ackn),
        window: 0,
        flags,
        data: Vec::new(),
    }
}

fn accept(
    listen: &mut ListenSocket<Handler>,
) -> Result<(Addr, Connection<Handler, Probe>), Error> {
    listen.call_accept(|socket: &ListenSocket<Handler>| {
        let mut handler = socket.user_data().clone();
        handler.name = "accepted";
        handler
    })
}

fn retry_cookie<T>(result: Result<T, Error>) -> Cookie {
    match result {
        Err(Error::RetryAfter(cookie)) => cookie,
        Err(other) => panic!("Expected a retry cookie, got Err({:?})", other),
        Ok(_) => panic!("Expected a retry cookie, got ok"),
    }
}

fn continue_cookie<T>(result: Result<T, Error>) -> Cookie {
    match result {
        Err(Error::ContinueAfter(cookie)) => cookie,
        Err(other) => panic!("Expected a continue cookie, got Err({:?})", other),
        Ok(_) => panic!("Expected a continue cookie, got ok"),
    }
}

#[test]
fn events_hand_out_fresh_cookies() {
    let mut events: Events<WaitUntil> = Events::new();
    let a = retry_cookie::<()>(events.return_retry_after(WaitUntil::Recv { count: 4 }));
    let b = continue_cookie::<()>(events.return_continue_after(WaitUntil::TxClosed));
    let c = events.new_cookie();
    assert_ne!(a, b);
    assert_ne!(b, c);
    assert_ne!(a, c);

    assert!(events.any_suspended(|e| e == WaitUntil::Recv { count: 4 }));
    assert!(!events.any_suspended(|e| e == WaitUntil::Recv { count: 5 }));
    assert!(events.any_suspended(|e| e == WaitUntil::TxClosed));
    assert!(!events.any_suspended(|e| e == WaitUntil::Established));

    let mut all = events.take_all();
    all.sort_by_key(|call| call.1 == b);
    assert_eq!(all, vec![(WaitUntil::Recv { count: 4 }, a), (WaitUntil::TxClosed, b)]);
    assert!(events.take_all().is_empty());
    assert_eq!(events.take_any(), None);
    assert!(!events.any_suspended(|_| true));
}

#[test]
fn events_keep_every_condition_apart() {
    let all = [
        WaitUntil::Established,
        WaitUntil::TxQueueEmpty,
        WaitUntil::TxClosed,
        WaitUntil::RxClosed,
        WaitUntil::BothClosed,
        WaitUntil::Recv { count: 0 },
        WaitUntil::Recv { count: u32::MAX },
        WaitUntil::Acknowledged { seqn: SeqN::new(0) },
        WaitUntil::Acknowledged { seqn: SeqN::new(3) },
    ];
    let mut events: Events<WaitUntil> = Events::new();
    for until in all {
        retry_cookie::<()>(events.return_retry_after(until));
    }
    for until in all {
        assert!(events.any_suspended(|e| e == until));
    }
    let mut left = all.to_vec();
    while let Some((until, _)) = events.take_any() {
        let i = left.iter().position(|e| *e == until).unwrap();
        left.remove(i);
    }
    assert!(left.is_empty());
}

#[test]
fn closed_sockets_answer_by_reset() {
    assert_eq!(response_to_closed(segment(1, 2, SegmentFlags::rst(), b"")), None);
    assert_eq!(
        response_to_closed(segment(1, 2, SegmentFlags::rst() | SegmentFlags::ack(), b"")),
        None
    );
    // With ACK: the number that the other side expects
    assert_eq!(
        response_to_closed(segment(100, 500, SegmentFlags::ack(), b"")),
        Some(reset(500, 0, SegmentFlags::rst()))
    );
    assert_eq!(
        response_to_closed(segment(
            100,
            500,
            SegmentFlags::ack() | SegmentFlags::syn() | SegmentFlags::fin(),
            b"123"
        )),
        Some(reset(500, 0, SegmentFlags::rst()))
    );
    // Without: all of the segment is acknowledged
    assert_eq!(
        response_to_closed(segment(100, 0, SegmentFlags::syn(), b"")),
        Some(reset(0, 101, SegmentFlags::rst() | SegmentFlags::ack()))
    );
    assert_eq!(
        response_to_closed(segment(u32::MAX, 50, SegmentFlags::fin(), b"123")),
        Some(reset(0, 3, SegmentFlags::rst() | SegmentFlags::ack()))
    );
    assert_eq!(
        response_to_closed(segment(10, 50, SegmentFlags::psh(), b"123")),
        Some(reset(0, 13, SegmentFlags::rst() | SegmentFlags::ack()))
    );
    let answer = response_to_closed(segment(10, 50, SegmentFlags::syn(), b"")).unwrap();
    assert_eq!(response_to_closed(answer), None);
}

#[test]
fn tcp_listen_drops_over_limit() {
    let mut server: ListenSocket<Handler> = ListenSocket::call_listen(5, Handler::named("server"));

    for addr in 0..5 {
        let mut client = TestSocket::new(Handler::named("client"));
        let _ = continue_cookie(client.call_connect(99));
        let (_, seg) = client.user_data_mut().sent.pop().unwrap();
        server.on_segment(addr, seg);
    }
    assert!(server.user_data().sent.is_empty());

    let mut client = TestSocket::new(Handler::named("client"));
    let _ = continue_cookie(client.call_connect(99));
    let (_, seg) = client.user_data_mut().sent.pop().unwrap();
    server.on_segment(5, seg);

    let (addr, seg) = server.user_data_mut().sent.pop().unwrap();
    assert_eq!(addr, 5);
    assert!(seg.flags.contains(SegmentFlags::rst()));
    client.on_segment(99, seg);
    assert_eq!(client.state(), ConnectionState::Reset);
}

#[test]
fn listen_queue_is_first_come_first_served() {
    let mut server: ListenSocket<Handler> = ListenSocket::call_listen(3, Handler::named("server"));
    server.options_mut().nagle_delay = Duration::from_millis(5);
    for addr in [7, 8, 9] {
        server.on_segment(addr, segment(100 + addr as u32, 0, SegmentFlags::syn(), b""));
    }
    for expected in [7, 8, 9] {
        let (addr, connection) = accept(&mut server).unwrap_or_else(|_| panic!("accept"));
        assert_eq!(addr, expected);
        assert_eq!(connection.protocol.remote, expected);
        assert_eq!(connection.user_data.name, "accepted");
        assert_eq!(connection.options.nagle_delay, Duration::from_millis(5));
        assert_eq!(
            connection.user_data.log,
            vec!["set_state Listen".to_string(), format!("on_segment {}", 100 + expected)]
        );
    }
    assert_eq!(server.options().nagle_delay, Duration::from_millis(5));
    retry_cookie(accept(&mut server));
}

#[test]
fn listen_backlog_has_room_for_one() {
    let mut server: ListenSocket<Handler> = ListenSocket::call_listen(0, Handler::named("server"));
    server.on_segment(1, segment(10, 20, SegmentFlags::syn(), b""));
    assert!(server.user_data().sent.is_empty());
    server.on_segment(2, segment(10, u32::MAX, SegmentFlags::syn(), b""));
    assert_eq!(
        server.user_data().sent,
        vec![(2, reset(0, 0, SegmentFlags::ack() | SegmentFlags::rst()))]
    );
}

#[test]
fn listen_wakes_one_waiting_call_per_request() {
    let mut server: ListenSocket<Handler> = ListenSocket::call_listen(5, Handler::named("server"));
    let a = retry_cookie(accept(&mut server));
    let b = retry_cookie(accept(&mut server));
    assert_ne!(a, b);
    server.on_segment(1, segment(10, 0, SegmentFlags::syn(), b""));
    let first = server.user_data().events.clone();
    assert_eq!(first.len(), 1);
    assert_eq!(first[0].1, Ok(()));
    assert!(first[0].0 == a || first[0].0 == b);
    server.on_segment(2, segment(10, 0, SegmentFlags::syn(), b""));
    server.on_segment(3, segment(10, 0, SegmentFlags::syn(), b""));
    let events = &server.user_data().events;
    assert_eq!(events.len(), 2);
    assert_ne!(events[0].0, events[1].0);
    assert_eq!(events[1].1, Ok(()));
}

#[test]
fn listen_ignores_resets_and_answers_acknowledgements() {
    let mut server: ListenSocket<Handler> = ListenSocket::call_listen(5, Handler::named("server"));
    server.on_segment(1, segment(10, 20, SegmentFlags::rst() | SegmentFlags::syn(), b""));
    server.on_segment(1, segment(10, 20, SegmentFlags::psh(), b"data"));
    assert!(server.user_data().sent.is_empty());
    server.on_segment(1, segment(10, 20, SegmentFlags::ack() | SegmentFlags::syn(), b""));
    assert_eq!(server.user_data().sent, vec![(1, reset(20, 0, SegmentFlags::rst()))]);
    retry_cookie(accept(&mut server));
}

#[test]
fn listen_close_cancels_calls_and_resets_requests() {
    let mut server: ListenSocket<Handler> = ListenSocket::call_listen(5, Handler::named("server"));
    let a = retry_cookie(accept(&mut server));
    let b = retry_cookie(accept(&mut server));
    let c = retry_cookie(accept(&mut server));
    server.on_segment(1, segment(10, 21, SegmentFlags::syn(), b""));
    server.on_segment(2, segment(10, 22, SegmentFlags::syn(), b""));
    server.call_close();

    let events = &server.user_data().events;
    assert_eq!(events.len(), 3);
    assert_eq!(events[0].1, Ok(()));
    assert_eq!(events[1].1, Ok(()));
    assert_eq!(events[2].1, Err(Error::ListenClosed));
    for cookie in [a, b, c] {
        assert_eq!(events.iter().filter(|e| e.0 == cookie).count(), 1);
    }
    assert_eq!(
        server.user_data().sent,
        vec![
            (1, reset(21, 0, SegmentFlags::rst())),
            (2, reset(22, 0, SegmentFlags::rst())),
        ]
    );

    match accept(&mut server) {
        Err(error) => assert_eq!(error, Error::ConnectionClosing),
        Ok(_) => panic!("accepted after close"),
    }
    server.on_segment(3, segment(10, 23, SegmentFlags::syn(), b""));
    assert_eq!(
        server.user_data().sent.last(),
        Some(&(3, reset(23, 0, SegmentFlags::rst())))
    );
    server.on_segment(3, segment(10, 24, SegmentFlags::rst(), b""));
    assert_eq!(server.user_data().sent.len(), 3);
    server.call_close();
    assert_eq!(server.user_data().sent.len(), 3);
    assert_eq!(server.user_data().events.len(), 3);
}

#[test]
fn socket_is_closed_at_first() {
    let mut socket = TestSocket::new(Handler::named("host"));
    assert_eq!(socket.state(), ConnectionState::Closed);
    assert_eq!(socket.options().nagle_delay, Duration::zero());
    assert_eq!(socket.user_data().name, "host");
    let mut buffer = [0u8; 4];
    assert_eq!(socket.call_close(), Err(Error::Closed));
    assert_eq!(socket.call_abort(), Err(Error::Closed));
    assert_eq!(socket.call_shutdown(), Err(Error::Closed));
    assert_eq!(socket.call_send(vec![1]), Err(Error::Closed));
    assert_eq!(socket.call_recv(&mut buffer), Err(Error::Closed));
    assert_eq!(socket.recv_available(), Err(Error::Closed));
    match socket.call_accept(|_: &ListenSocket<Handler>| Handler::default()) {
        Err(error) => assert_eq!(error, Error::Closed),
        Ok(_) => panic!("accepted"),
    }
    socket.on_time_tick(Ticks(5));
    socket.on_segment(3, segment(10, 50, SegmentFlags::syn(), b""));
    socket.on_segment(3, segment(10, 50, SegmentFlags::rst(), b""));
    socket.on_segment(3, segment(10, 50, SegmentFlags::ack(), b""));
    assert_eq!(
        socket.user_data().sent,
        vec![
            (3, reset(0, 11, SegmentFlags::rst() | SegmentFlags::ack())),
            (3, reset(50, 0, SegmentFlags::rst())),
        ]
    );
    assert!(socket.user_data().events.is_empty());
    assert_eq!(socket.state(), ConnectionState::Closed);
}

#[test]
fn socket_listens() {
    let mut socket = TestSocket::new(Handler::named("host"));
    socket.options_mut().nagle_delay = Duration::from_secs(9);
    assert_eq!(socket.call_listen(2), Ok(()));
    assert_eq!(socket.state(), ConnectionState::Listen);
    // Listening starts with the default options
    assert_eq!(socket.options().nagle_delay, Duration::zero());
    assert_eq!(socket.user_data().name, "host");
    assert_eq!(socket.call_listen(2), Err(Error::InvalidStateTransition));
    assert_eq!(socket.call_connect(3), Err(Error::InvalidStateTransition));
    let mut buffer = [0u8; 4];
    assert_eq!(socket.call_shutdown(), Err(Error::Listening));
    assert_eq!(socket.call_send(vec![1]), Err(Error::Listening));
    assert_eq!(socket.call_recv(&mut buffer), Err(Error::Listening));
    assert_eq!(socket.recv_available(), Err(Error::Listening));
    assert_eq!(buffer, [0; 4]);

    socket.on_segment(4, segment(10, 0, SegmentFlags::syn(), b""));
    socket.on_time_tick(Ticks(5));
    let accepted = socket.call_accept(|s: &ListenSocket<Handler>| s.user_data().clone());
    let (addr, connection) = accepted.unwrap_or_else(|_| panic!("accept"));
    assert_eq!(addr, 4);
    let mut accepted = TestSocket::from(connection);
    assert_eq!(accepted.state(), ConnectionState::Listen);
    accepted.options_mut().nagle_delay = Duration::from_secs(1);
    assert_eq!(accepted.options().nagle_delay, Duration::from_secs(1));

    let waiting = socket.call_accept(|s: &ListenSocket<Handler>| s.user_data().clone());
    let cookie = retry_cookie(waiting);
    assert_eq!(socket.call_abort(), Ok(()));
    assert_eq!(socket.user_data().events, vec![(cookie, Err(Error::ListenClosed))]);
    assert_eq!(socket.call_close(), Ok(()));
    assert_eq!(socket.state(), ConnectionState::Listen);
}

#[test]
fn socket_passes_calls_on_to_its_connection() {
    let mut socket = TestSocket::new(Handler::named("client"));
    socket.options_mut().nagle_delay = Duration::from_secs(9);
    socket.user_data_mut().name = "renamed";
    let _ = continue_cookie(socket.call_connect(3));
    assert_eq!(socket.state(), ConnectionState::SynSent);
    assert_eq!(socket.options().nagle_delay, Duration::from_secs(9));
    assert_eq!(socket.user_data().name, "renamed");
    let (dst, syn_packet) = socket.user_data_mut().sent.pop().unwrap();
    assert_eq!(dst, 3);
    assert_eq!(syn_packet.flags, SegmentFlags::syn());
    assert_eq!(syn_packet.seqn, SeqN::new(10_000));

    let mut buffer = [0u8; 4];
    assert_eq!(socket.call_connect(3), Err(Error::InvalidStateTransition));
    assert_eq!(socket.call_listen(3), Err(Error::InvalidStateTransition));
    assert_eq!(socket.call_abort(), Err(Error::ConnectionReset));
    assert_eq!(socket.call_shutdown(), Err(Error::OutputClosed));
    assert_eq!(socket.call_send(vec![1, 2]), Ok(()));
    assert_eq!(socket.call_recv(&mut buffer), Ok(1));
    assert_eq!(buffer, [42, 0, 0, 0]);
    assert_eq!(socket.recv_available(), Ok(7));
    match socket.call_accept(|_: &ListenSocket<Handler>| Handler::default()) {
        Err(error) => assert_eq!(error, Error::InvalidStateTransition),
        Ok(_) => panic!("accepted"),
    }
    socket.on_time_tick(Ticks(11));
    socket.on_segment(3, segment(77, 0, SegmentFlags::ack(), b""));

    // A closed connection can be opened again, or listen
    assert_eq!(socket.call_close(), Ok(()));
    assert_eq!(socket.state(), ConnectionState::Closed);
    socket.options_mut().nagle_delay = Duration::from_secs(8);
    assert_eq!(socket.options().nagle_delay, Duration::from_secs(8));
    socket.user_data_mut().name = "again";
    let _ = continue_cookie(socket.call_connect(4));
    assert_eq!(socket.options().nagle_delay, Duration::from_secs(8));
    assert_eq!(socket.user_data().name, "again");
    assert_eq!(socket.user_data().log.last(), Some(&"connect 8000000000".to_string()));
    assert_eq!(socket.call_close(), Ok(()));
    assert_eq!(socket.call_listen(1), Ok(()));
    assert_eq!(socket.state(), ConnectionState::Listen);
    assert_eq!(socket.user_data().name, "again");
}

#[test]
fn socket_of_a_connection_passes_on_what_it_gets() {
    let mut socket = TestSocket::from(Connection::new(3, Handler::named("client")));
    socket.on_segment(3, segment(77, 0, SegmentFlags::ack(), b""));
    socket.on_time_tick(Ticks(11));
    assert_eq!(socket.call_send(vec![1, 2]), Ok(()));
    assert_eq!(socket.state(), ConnectionState::Closed);
    assert_eq!(
        socket.user_data().log,
        vec![
            "on_segment 77".to_string(),
            "on_time_tick 11".to_string(),
            "send [1, 2]".to_string(),
        ]
    );
}

#[test]
fn socket_from_listen_socket() {
    let listen = ListenSocket::call_listen(1, Handler::named("server"));
    let socket: TestSocket = Socket::from(listen);
    assert_eq!(socket.state(), ConnectionState::Listen);
    assert_eq!(socket.user_data().name, "server");
}
