use tcpstate::mock::RemoteAddr;
use tcpstate::segment::ShownData;
use tcpstate::{SegmentFlags, SegmentMeta, SeqN};

fn segment(seqn: u32, flags: SegmentFlags, data: &[u8]) -> SegmentMeta {
    SegmentMeta {
        seqn: SeqN::new(seqn),
        ackn: SeqN::new(77),
        window: 1024,
        flags,
        data: data.to_vec(),
    }
}

#[test]
fn seqn_arithmetic_wraps_around() {
    assert_eq!(SeqN::zero().raw(), 0);
    assert_eq!(SeqN::new(5).raw(), 5);
    assert_eq!(SeqN::new(u32::MAX - 5).wrapping_add(10), SeqN::new(4));
    assert_eq!(SeqN::new(4).wrapping_sub(10), SeqN::new(u32::MAX - 5));
    assert_eq!(SeqN::new(123).wrapping_add(456).wrapping_sub(456), SeqN::new(123));
    assert_eq!(SeqN::new(u32::MAX).wrapping_add(u32::MAX), SeqN::new(u32::MAX - 1));
}

#[test]
fn seqn_range_is_inclusive() {
    let n = SeqN::new;
    assert!(n(10).in_range_inclusive(n(10), n(20)));
    assert!(n(20).in_range_inclusive(n(10), n(20)));
    assert!(!n(9).in_range_inclusive(n(10), n(20)));
    assert!(!n(21).in_range_inclusive(n(10), n(20)));
    // Around the end of the space
    assert!(n(u32::MAX).in_range_inclusive(n(u32::MAX - 1), n(3)));
    assert!(n(0).in_range_inclusive(n(u32::MAX - 1), n(3)));
    assert!(n(3).in_range_inclusive(n(u32::MAX - 1), n(3)));
    assert!(!n(4).in_range_inclusive(n(u32::MAX - 1), n(3)));
    // Of length one
    assert!(n(8).in_range_inclusive(n(8), n(8)));
    assert!(!n(9).in_range_inclusive(n(8), n(8)));
    // All but one
    assert!(n(7).in_range_inclusive(n(8), n(7)));
    assert!(n(8).in_range_inclusive(n(8), n(7)));
}

#[test]
fn seqn_order() {
    let n = SeqN::new;
    assert!(n(1).lt(n(2)));
    assert!(!n(2).lt(n(1)));
    assert!(n(2).lt(n(2)));
    assert!(n(2).lte(n(2)));
    assert!(n(u32::MAX).lt(n(3)));
    assert!(!n(3).lt(n(u32::MAX)));
    assert!(n(0).lte(n(0x7fff_ffff)));
    assert!(!n(0).lt(n(0x8000_0000)));
    assert!(!n(0x8000_0000).lt(n(0)));
    assert!(!n(0).lte(n(0x8000_0000)));
}

#[test]
fn seqn_order_ignores_wrap_around() {
    let n = SeqN::new;
    for shift in [0, 1, 0x7fff_ffff, 0x8000_0000, u32::MAX - 1, u32::MAX] {
        let s = |v: u32| n(v).wrapping_add(shift);
        assert!(s(3).in_range_inclusive(s(1), s(4)));
        assert!(!s(5).in_range_inclusive(s(1), s(4)));
        assert!(s(3).lt(s(4)));
        assert!(!s(4).lt(s(3)));
    }
}

#[test]
fn flags_are_a_set_of_bits() {
    let all = [
        (SegmentFlags::fin(), 1),
        (SegmentFlags::syn(), 2),
        (SegmentFlags::rst(), 4),
        (SegmentFlags::psh(), 8),
        (SegmentFlags::ack(), 16),
        (SegmentFlags::urg(), 32),
        (SegmentFlags::ece(), 64),
        (SegmentFlags::cwr(), 128),
        (SegmentFlags::ns(), 256),
    ];
    for (flag, bits) in all {
        assert_eq!(flag.bits, bits);
    }
    let both = SegmentFlags::syn() | SegmentFlags::ack();
    assert_eq!(both.bits, 18);
    assert!(both.contains(SegmentFlags::syn()));
    assert!(both.contains(SegmentFlags::ack()));
    assert!(both.contains(both));
    assert!(!both.contains(SegmentFlags::rst()));
    assert!(!SegmentFlags::syn().contains(both));
}

#[test]
fn segment_of_three_bytes_and_fin_ends_at_14() {
    let seg = segment(10, SegmentFlags::fin(), b"123");
    assert_eq!(seg.seq_size(), 4);
    assert_eq!(seg.seqn_after(), SeqN::new(14));
    assert_eq!(seg.last_seqn(), SeqN::new(13));
}

#[test]
fn segment_sizes() {
    assert_eq!(segment(0, SegmentFlags::ack(), b"").seq_size(), 0);
    assert_eq!(segment(0, SegmentFlags::syn(), b"").seq_size(), 1);
    assert_eq!(segment(0, SegmentFlags::syn() | SegmentFlags::fin(), b"").seq_size(), 2);
    assert_eq!(segment(0, SegmentFlags::ack(), b"12345").seq_size(), 5);
    let seg = segment(u32::MAX, SegmentFlags::syn(), b"12");
    assert_eq!(seg.seqn_after(), SeqN::new(2));
    assert_eq!(seg.last_seqn(), SeqN::new(1));
    // Nothing is covered
    assert_eq!(segment(10, SegmentFlags::ack(), b"").last_seqn(), SeqN::new(9));
}

#[test]
fn segment_clone_is_equal() {
    let seg = segment(10, SegmentFlags::fin(), b"123");
    assert_eq!(seg.clone(), seg);
    assert_ne!(seg, segment(10, SegmentFlags::fin(), b"124"));
}

#[test]
fn segment_data_is_shown_as_text_where_it_is_text() {
    assert_eq!(segment(0, SegmentFlags::ack(), b"").shown_data(), ShownData::Empty);
    assert_eq!(
        segment(0, SegmentFlags::ack(), b"Testing!").shown_data(),
        ShownData::Text("Testing!")
    );
    assert_eq!(
        segment(0, SegmentFlags::ack(), &[0xff, 0xfe]).shown_data(),
        ShownData::Bytes(&[0xff, 0xfe])
    );
}

#[test]
fn remote_addrs_count_up() {
    let mut counter = 10_000;
    let a = RemoteAddr::new(&mut counter);
    let b = RemoteAddr::new(&mut counter);
    assert_eq!(a, RemoteAddr(10_000));
    assert_eq!(b, RemoteAddr(10_001));
    assert_ne!(a, b);
    let mut last = u64::MAX;
    assert_eq!(RemoteAddr::new(&mut last), RemoteAddr(u64::MAX));
    assert_eq!(last, 0);
}

#[test]
fn flags_are_printed_by_name() {
    let both = SegmentFlags::ack() | SegmentFlags::syn();
    assert_eq!(both.names(), vec!["SYN", "ACK"]);
    assert_eq!(format!("{:?}", both), "SYN | ACK");
    assert_eq!(format!("{:?}", SegmentFlags::rst()), "RST");
    assert_eq!(format!("{:?}", SegmentFlags { bits: 0 }), "(empty)");
    assert_eq!(
        format!("{:?}", SegmentFlags { bits: 0x1ff }),
        "FIN | SYN | RST | PSH | ACK | URG | ECE | CWR | NS"
    );
}

#[test]
fn segments_are_printed_with_text() {
    assert_eq!(
        format!("{:?}", segment(10, SegmentFlags::fin(), b"123")),
        "SegmentMeta { seqn: SeqN(10), ackn: SeqN(77), window: 1024, flags: FIN, data: \"123\" }"
    );
    assert_eq!(
        format!("{:?}", segment(10, SegmentFlags::fin(), b"")),
        "SegmentMeta { seqn: SeqN(10), ackn: SeqN(77), window: 1024, flags: FIN, data: [] }"
    );
    assert_eq!(
        format!("{:?}", segment(10, SegmentFlags::fin(), &[0xff, 1])),
        "SegmentMeta { seqn: SeqN(10), ackn: SeqN(77), window: 1024, flags: FIN, data: [255, 1] }"
    );
}
