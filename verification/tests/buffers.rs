use tcpstate::options::INITIAL_WINDOW_SIZE;
use tcpstate::queue::BlobQueue;
use tcpstate::rx::RxBuffer;
use tcpstate::tx::TxBuffer;
use tcpstate::{SegmentFlags, SegmentMeta, SeqN};

fn segment(seqn: u32, flags: SegmentFlags, data: &[u8]) -> SegmentMeta {
    SegmentMeta {
        seqn: SeqN::new(seqn),
        ackn: SeqN::new(500),
        window: 300,
        flags,
        data: data.to_vec(),
    }
}

#[test]
fn queue_starts_empty() {
    let mut queue = BlobQueue::new();
    assert!(queue.is_empty());
    assert!(!queue.fin());
    assert_eq!(queue.available_bytes(), 0);
    assert_eq!(queue.read_bytes(4), (Vec::new(), false));
}

#[test]
fn queue_reads_what_was_written_in_pieces() {
    let mut queue = BlobQueue::new();
    for _ in 0..4 {
        queue.write_bytes(b"Test!".to_vec());
    }
    assert_eq!(queue.available_bytes(), 20);
    assert_eq!(queue.read_bytes(8), (b"Test!Tes".to_vec(), false));
    assert_eq!(queue.read_bytes(8), (b"t!Test!T".to_vec(), false));
    assert_eq!(queue.available_bytes(), 4);
    assert_eq!(queue.read_bytes(4), (b"est!".to_vec(), false));
    assert!(queue.is_empty());
}

#[test]
fn queue_ends_after_its_last_byte() {
    let mut queue = BlobQueue::new();
    queue.write_bytes(b"GET / HTTP/1.0\r\n\r\n".to_vec());
    queue.mark_fin();
    assert!(queue.fin());
    let mut input: Vec<u8> = Vec::new();
    loop {
        let (data, done) = queue.read_bytes(4);
        input.extend(&data);
        assert_eq!(done, data.len() < 4);
        if done {
            break;
        }
    }
    assert_eq!(input, b"GET / HTTP/1.0\r\n\r\n");
}

#[test]
fn queue_end_does_not_show_in_an_exact_read() {
    let mut queue = BlobQueue::new();
    queue.write_bytes(b"1234".to_vec());
    queue.mark_fin();
    assert_eq!(queue.read_bytes(4), (b"1234".to_vec(), false));
    assert_eq!(queue.read_bytes(4), (Vec::new(), true));
}

#[test]
fn queue_end_shows_however_the_reads_are_cut() {
    let mut queue = BlobQueue::new();
    queue.write_bytes(b"12".to_vec());
    queue.mark_fin();
    let mut copy = queue.clone();
    assert_eq!(queue.read_bytes(4), (b"12".to_vec(), true));
    assert_eq!(queue.read_bytes(3), (Vec::new(), true));
    assert_eq!(copy.read_bytes(7), (b"12".to_vec(), true));
}

#[test]
fn queue_accepts_nothing_after_the_end() {
    let mut queue = BlobQueue::new();
    queue.mark_fin();
    queue.write_bytes(Vec::new());
    assert!(queue.is_empty());
}

#[test]
fn queue_clone_is_separate() {
    let mut queue = BlobQueue::new();
    queue.write_bytes(b"12".to_vec());
    queue.write_bytes(b"34".to_vec());
    let mut copy = queue.clone();
    assert_eq!(queue.read_bytes(10).0, b"1234");
    assert!(queue.is_empty());
    assert_eq!(copy.available_bytes(), 4);
    assert_eq!(copy.read_bytes(3).0, b"123");
}

#[test]
fn rx_starts_after_the_syn() {
    let mut rx = RxBuffer::default();
    assert_eq!(rx.ackd, SeqN::zero());
    assert_eq!(rx.window_size(), INITIAL_WINDOW_SIZE);
    assert_eq!(rx.curr_window(), 0x1000);
    rx.init(SeqN::new(1000));
    assert_eq!(rx.init_seqn, SeqN::new(1000));
    assert_eq!(rx.ackd, SeqN::new(1001));
    rx.init(SeqN::new(u32::MAX));
    assert_eq!(rx.ackd, SeqN::new(0));
}

#[test]
fn rx_window() {
    let mut rx = RxBuffer::default();
    rx.init(SeqN::new(u32::MAX - 10));
    assert!(!rx.in_window(SeqN::new(u32::MAX - 10)));
    assert!(rx.in_window(SeqN::new(u32::MAX - 9)));
    assert!(rx.in_window(SeqN::new(0)));
    assert!(rx.in_window(SeqN::new(0x1000 - 11)));
    assert!(!rx.in_window(SeqN::new(0x1000 - 10)));
}

#[test]
fn rx_reads_what_the_network_brought() {
    let mut rx = RxBuffer::default();
    rx.init(SeqN::new(9));
    rx.write(segment(10, SegmentFlags::ack(), b"C=>S!"));
    assert_eq!(rx.ackd, SeqN::new(15));
    assert_eq!(rx.available_bytes(), 5);
    assert_eq!(rx.curr_window(), 0x1000 - 5);
    rx.write(segment(15, SegmentFlags::ack(), b"Test!"));
    assert_eq!(rx.read_bytes(8), b"C=>S!Tes");
    assert!(!rx.is_done());
    rx.write(segment(20, SegmentFlags::ack() | SegmentFlags::fin(), b""));
    assert_eq!(rx.ackd, SeqN::new(21));
    assert_eq!(rx.curr_window(), 0);
    assert_eq!(rx.read_bytes(8), b"t!");
    assert!(rx.is_done());
    assert_eq!(rx.available_bytes(), 0);
}

#[test]
fn rx_empty_stream_ends_at_once() {
    let mut rx = RxBuffer::default();
    rx.init(SeqN::new(9));
    rx.write(segment(10, SegmentFlags::fin(), b""));
    assert_eq!(rx.read_bytes(1), b"");
    assert!(rx.is_done());
}

#[test]
fn rx_window_field_wraps_below_zero() {
    let mut rx = RxBuffer::default();
    rx.write(segment(0, SegmentFlags::ack(), &[0; 0x1001]));
    assert_eq!(rx.curr_window(), u16::MAX);
    let copy = rx.clone();
    assert_eq!(copy.available_bytes(), 0x1001);
}

#[test]
fn tx_starts_with_the_whole_window() {
    let mut tx = TxBuffer::default();
    assert_eq!(tx.window, 0);
    assert_eq!(tx.last_sent, None);
    tx.window = 100;
    tx.init(SeqN::new(u32::MAX - 5));
    assert_eq!(tx.unack, SeqN::new(u32::MAX - 5));
    assert_eq!(tx.next, SeqN::new(u32::MAX - 5));
    assert_eq!(tx.init_seqn, SeqN::new(u32::MAX - 5));
    assert_eq!(tx.space_available(), 100);
    assert!(tx.unack_has_space());
    assert!(tx.is_curr_ack(SeqN::new(u32::MAX - 5)));
    assert!(!tx.is_non_ordered_ack(SeqN::new(u32::MAX - 5)));
    assert!(!tx.is_non_ordered_ack(SeqN::new(u32::MAX - 4)));
}

#[test]
fn tx_sending_moves_on_and_keeps_what_may_be_lost() {
    let mut tx = TxBuffer::default();
    tx.window = 100;
    tx.init(SeqN::new(u32::MAX - 1));
    tx.on_send(segment(u32::MAX - 1, SegmentFlags::syn(), b""));
    tx.on_send(segment(u32::MAX, SegmentFlags::ack(), b"12345"));
    assert_eq!(tx.next, SeqN::new(4));
    assert_eq!(tx.space_available(), 94);
    assert_eq!(tx.re_tx.len(), 2);
    assert_eq!(tx.re_tx[0].seqn_after(), tx.re_tx[1].seqn);
    assert_eq!(tx.re_tx[1].seqn_after(), tx.next);
    // A bare ACK is not sent again
    tx.on_send(segment(4, SegmentFlags::ack(), b""));
    assert_eq!(tx.next, SeqN::new(4));
    assert_eq!(tx.re_tx.len(), 2);
    assert_eq!(tx.last_sent, Some((SeqN::new(4), SeqN::new(500), 300)));

    assert!(tx.is_non_ordered_ack(SeqN::new(u32::MAX)));
    assert!(tx.is_non_ordered_ack(SeqN::new(4)));
    assert!(!tx.is_non_ordered_ack(SeqN::new(5)));
    assert!(!tx.is_non_ordered_ack(SeqN::new(u32::MAX - 1)));
    assert!(tx.is_curr_ack(SeqN::new(u32::MAX - 1)));

    let copy = tx.clone();
    assert_eq!(copy.re_tx, tx.re_tx);
    assert_eq!(copy.next, tx.next);
}

#[test]
fn tx_full_window() {
    let mut tx = TxBuffer::default();
    assert_eq!(tx.space_available(), 0);
    assert!(!tx.unack_has_space());
    tx.window = 5;
    tx.init(SeqN::new(0));
    tx.on_send(segment(0, SegmentFlags::ack(), b"1234"));
    assert_eq!(tx.space_available(), 1);
    assert!(tx.unack_has_space());
    tx.init(SeqN::new(0));
    tx.on_send(segment(0, SegmentFlags::ack(), b"12345"));
    assert_eq!(tx.space_available(), 0);
    assert!(!tx.unack_has_space());
    tx.on_send(segment(5, SegmentFlags::ack(), b"6"));
    assert_eq!(tx.space_available(), u32::MAX);
    assert!(!tx.unack_has_space());
}
