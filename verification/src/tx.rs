//! The sending side of a connection.

use std::collections::VecDeque;

use vstd::prelude::*;

use crate::queue::{BlobQueue, QueueView};
use crate::segment::{SegmentMeta, SegmentView, SeqN};

verus! {

#[derive(Debug)]
pub struct TxBuffer {
    /// Output data stream buffer. User-sent data is written here,
    /// and segmentized into the network and the re_tx buffer.
    pub tx: BlobQueue,
    /// Retransmit queue
    /// Invariant: ordered
    pub re_tx: VecDeque<SegmentMeta>,
    /// Oldest unacknowledged sequence number
    pub unack: SeqN,
    /// Send sequence number to use when sending
    pub next: SeqN,
    pub init_seqn: SeqN,
    pub window: u16,
    /// Last sent (seqn, ackn, window) tuple, to make sure we won't send duplicates without reason
    pub last_sent: Option<(SeqN, SeqN, u16)>,
}

/// What a [`TxBuffer`] holds.
#[verifier::ext_equal]
pub struct TxView {
    pub tx: QueueView,
    pub re_tx: Seq<SegmentView>,
    pub unack: SeqN,
    pub next: SeqN,
    pub init_seqn: SeqN,
    pub window: u16,
    pub last_sent: Option<(SeqN, SeqN, u16)>,
}

impl View for TxBuffer {
    type V = TxView;

    open spec fn view(&self) -> TxView {
        TxView {
            tx: self.tx@,
            re_tx: Seq::new(self.re_tx@.len(), |i: int| self.re_tx@[i]@),
            unack: self.unack,
            next: self.next,
            init_seqn: self.init_seqn,
            window: self.window,
            last_sent: self.last_sent,
        }
    }
}

impl TxView {
    /// The end of the window: the first sequence number that may not be sent yet.
    pub open spec fn window_end(self) -> SeqN {
        self.unack.step(self.window as int)
    }

    /// What is sent next lies within the window: before its end.
    pub open spec fn has_space(self) -> bool {
        self.next != self.window_end() && self.next.at_or_before(self.window_end())
    }

    /// The buffer after its sequence numbers were set to start at `seqn`.
    pub open spec fn after_init(self, seqn: SeqN) -> TxView {
        TxView { init_seqn: seqn, unack: seqn, next: seqn, ..self }
    }

    /// The buffer after `seg` was sent. Only what takes up room in the sequence number
    /// space is kept to be sent again.
    pub open spec fn after_send(self, seg: SegmentView) -> TxView {
        TxView {
            last_sent: Some((seg.seqn, seg.ackn, seg.window)),
            next: self.next.step(seg.seq_size()),
            re_tx: if seg.seq_size() != 0 {
                self.re_tx.push(seg)
            } else {
                self.re_tx
            },
            ..self
        }
    }

    /// The segments to retransmit are ordered: each follows the one before it, and
    /// what is sent next follows the last one.
    pub open spec fn ordered(self) -> bool {
        &&& forall|i: int|
            #![trigger self.re_tx[i]]
            0 <= i < self.re_tx.len() - 1 ==> self.re_tx[i].seqn_after() == self.re_tx[i + 1].seqn
        &&& self.re_tx.len() > 0 ==> self.re_tx.last().seqn_after() == self.next
    }
}

impl Default for TxBuffer {
    fn default() -> (result: Self)
        ensures
            result@ == (TxView {
                tx: QueueView { bytes: Seq::empty(), fin: false },
                re_tx: Seq::empty(),
                unack: SeqN::zero(),
                next: SeqN::zero(),
                init_seqn: SeqN::zero(),
                window: 0,
                last_sent: None,
            }),
            result@.ordered(),
    {
        let result = Self {
            tx: BlobQueue::default(),
            re_tx: VecDeque::new(),
            unack: SeqN::zero(),
            next: SeqN::zero(),
            init_seqn: SeqN::zero(),
            window: 0,
            last_sent: None,
        };
        assert(result@.re_tx =~= Seq::<SegmentView>::empty());
        result
    }
}

impl Clone for TxBuffer {
    fn clone(&self) -> (result: Self)
        ensures
            result@ == self@,
    {
        let mut re_tx: VecDeque<SegmentMeta> = VecDeque::new();
        let mut i: usize = 0;
        while i < self.re_tx.len()
            invariant
                i <= self.re_tx@.len(),
                re_tx@.len() == i,
                forall|j: int| 0 <= j < i ==> (#[trigger] re_tx@[j])@ == self.re_tx@[j]@,
            decreases self.re_tx@.len() - i,
        {
            re_tx.push_back(self.re_tx[i].clone());
            i += 1;
        }
        let result = Self {
            tx: self.tx.clone(),
            re_tx,
            unack: self.unack,
            next: self.next,
            init_seqn: self.init_seqn,
            window: self.window,
            last_sent: self.last_sent,
        };
        assert(result@.re_tx =~= self@.re_tx);
        result
    }
}

impl TxBuffer {
    pub fn init(&mut self, seqn: SeqN)
        ensures
            final(self)@ == old(self)@.after_init(seqn),
            final(self).init_seqn == seqn,
            final(self).unack == seqn,
            final(self).next == seqn,
            final(self)@.tx == old(self)@.tx,
            final(self)@.re_tx == old(self)@.re_tx,
            final(self).window == old(self).window,
            final(self).last_sent == old(self).last_sent,
    {
        self.init_seqn = seqn;
        self.unack = self.init_seqn;
        self.next = self.init_seqn;
        assert(self@.re_tx =~= old(self)@.re_tx);
    }

    /// Next index is within unack window
    pub fn unack_has_space(&self) -> (result: bool)
        ensures
            result == self@.has_space(),
            self@.unack.distance_to(self@.next) <= self.window ==> result == (
            self@.unack.distance_to(self@.next) < self.window),
    {
        let end = self.unack.wrapping_add(self.window as u32);
        self.next != end && self.next.lt(end)
    }

    /// Number of bytes available in unack window
    pub fn space_available(&self) -> (result: u32)
        ensures
            result == self@.next.distance_to(self@.window_end()),
            self@.unack.distance_to(self@.next) <= self.window ==> result == self.window
                - self@.unack.distance_to(self@.next),
    {
        let end = self.unack.wrapping_add(self.window as u32);
        end.raw().wrapping_sub(self.next.raw())
    }

    /// This is the ACK we are waiting for
    pub fn is_curr_ack(&self, ackn: SeqN) -> (result: bool)
        ensures
            result == (self@.unack == ackn),
    {
        self.unack == ackn
    }

    /// This ACK packet for packet we sent, but not the next unack one
    pub fn is_non_ordered_ack(&self, ackn: SeqN) -> (result: bool)
        ensures
            result == (ackn != self@.unack && ackn.between(self@.unack, self@.next)),
    {
        ackn != self.unack && ackn.in_range_inclusive(self.unack, self.next)
    }

    pub fn on_send(&mut self, seg: SegmentMeta)
        ensures
            final(self)@ == old(self)@.after_send(seg@),
            old(self)@.re_tx.is_prefix_of(final(self)@.re_tx),
            seg@.seq_size() != 0 ==> final(self).re_tx@ == old(self).re_tx@.push(seg),
            seg@.seq_size() == 0 ==> final(self).re_tx@ == old(self).re_tx@,
            old(self).next.distance_to(final(self).next) == seg@.seq_size(),
            final(self).last_sent == Some((seg.seqn, seg.ackn, seg.window)),
            final(self)@.tx == old(self)@.tx,
            final(self).unack == old(self).unack,
            final(self).init_seqn == old(self).init_seqn,
            final(self).window == old(self).window,
    {
        self.last_sent = Some((seg.seqn, seg.ackn, seg.window));

        self.next = self.next.wrapping_add(seg.seq_size());

        if seg.seq_size() != 0 {
            self.re_tx.push_back(seg);
        }
        assert(self@.re_tx =~= old(self)@.after_send(seg@).re_tx);
    }
}

/// The retransmit queue is ordered at the start, when it is empty, and stays so as
/// long as what is sent has the sequence number that is next.
pub proof fn law_tx_retransmit_queue_is_ordered(tx: TxView, seqn: SeqN, seg: SegmentView)
    ensures
        tx.re_tx.len() == 0 ==> tx.after_init(seqn).ordered(),
        tx.ordered() && seg.seqn == tx.next ==> tx.after_send(seg).ordered(),
{
    if tx.ordered() && seg.seqn == tx.next {
        let after = tx.after_send(seg);
        assert forall|i: int|
            #![trigger after.re_tx[i]]
            0 <= i < after.re_tx.len() - 1 implies after.re_tx[i].seqn_after() == after.re_tx[i
            + 1].seqn by {
            assert(after.re_tx[i] == tx.re_tx[i]);
            if i + 1 < tx.re_tx.len() {
                assert(after.re_tx[i + 1] == tx.re_tx[i + 1]);
            }
        }
    }
}

/// The model of a buffer has all that the buffer has.
pub proof fn law_tx_view_shows_the_buffer(tx: TxBuffer)
    ensures
        tx@.tx == tx.tx@,
        tx@.re_tx.len() == tx.re_tx@.len(),
        forall|i: int| 0 <= i < tx.re_tx@.len() ==> #[trigger] tx@.re_tx[i] == tx.re_tx@[i]@,
        tx@.unack == tx.unack,
        tx@.next == tx.next,
        tx@.init_seqn == tx.init_seqn,
        tx@.window == tx.window,
        tx@.last_sent == tx.last_sent,
{
}

/// Sending loses nothing that waits to be sent again: the retransmit queue goes on as
/// it was, with the sent segment behind it if that takes up sequence numbers. What is
/// sent next moves on by the size of the segment, the header of the segment is
/// remembered, and all else stays.
pub proof fn law_tx_sending_keeps_what_may_be_lost(tx: TxView, seg: SegmentView)
    ensures
        ({
            let after = tx.after_send(seg);
            &&& tx.re_tx.is_prefix_of(after.re_tx)
            &&& seg.seq_size() == 0 ==> after.re_tx.len() == tx.re_tx.len()
            &&& seg.seq_size() != 0 ==> after.re_tx.len() == tx.re_tx.len() + 1
                && after.re_tx.last() == seg
            &&& tx.next.distance_to(after.next) == seg.seq_size()
            &&& after.last_sent == Some((seg.seqn, seg.ackn, seg.window))
            &&& after.tx == tx.tx
            &&& after.unack == tx.unack
            &&& after.init_seqn == tx.init_seqn
            &&& after.window == tx.window
        }),
{
}

/// The segments to retransmit cover all that is in flight: as long as the oldest of
/// them is the oldest that is not acknowledged, and none is if nothing is in flight, it
/// stays so when more is sent.
pub proof fn law_tx_retransmit_queue_has_no_gap(tx: TxView, seg: SegmentView)
    requires
        tx.ordered(),
        seg.seqn == tx.next,
        tx.re_tx.len() > 0 ==> tx.re_tx.first().seqn == tx.unack,
        tx.re_tx.len() == 0 ==> tx.next == tx.unack,
    ensures
        ({
            let after = tx.after_send(seg);
            &&& after.re_tx.len() > 0 ==> after.re_tx.first().seqn == after.unack
            &&& after.re_tx.len() > 0 ==> after.re_tx.last().seqn_after() == after.next
            &&& forall|i: int|
                #![trigger after.re_tx[i]]
                0 <= i < after.re_tx.len() - 1 ==> after.re_tx[i].seqn_after() == after.re_tx[i
                    + 1].seqn
            &&& after.re_tx.len() == 0 ==> after.next == after.unack
        }),
{
    law_tx_retransmit_queue_is_ordered(tx, tx.init_seqn, seg);
    let after = tx.after_send(seg);
    assert forall|i: int|
        #![trigger after.re_tx[i]]
        0 <= i < after.re_tx.len() - 1 implies after.re_tx[i].seqn_after() == after.re_tx[i
        + 1].seqn by {
    }
    if seg.seq_size() == 0 {
        crate::segment::law_segment_ends_after_its_size(seg);
    }
}

/// The window slides with what is acknowledged: what is in flight and what may still be
/// sent are together the window, wherever in the sequence number space that is, as long
/// as no more is in flight than the window allows. There is space unless it is used up.
pub proof fn law_tx_window_slides(tx: TxView)
    requires
        tx.unack.distance_to(tx.next) <= tx.window,
    ensures
        tx.unack.distance_to(tx.next) + tx.next.distance_to(tx.window_end()) == tx.window,
        tx.has_space() <==> tx.unack.distance_to(tx.next) < tx.window,
{
}

/// Where more is in flight than the window allows, by less than half of the sequence
/// number space, there is no space.
pub proof fn law_tx_overrun_window_has_no_space(tx: TxView)
    requires
        tx.window <= tx.unack.distance_to(tx.next) < 0x8000_0000,
    ensures
        !tx.has_space(),
{
}

/// Starting sets the three sequence numbers, and nothing else.
pub proof fn law_tx_starts_at_its_sequence_number(tx: TxView, seqn: SeqN)
    ensures
        tx.after_init(seqn).init_seqn == seqn,
        tx.after_init(seqn).unack == seqn,
        tx.after_init(seqn).next == seqn,
        tx.after_init(seqn).tx == tx.tx,
        tx.after_init(seqn).re_tx == tx.re_tx,
        tx.after_init(seqn).window == tx.window,
        tx.after_init(seqn).last_sent == tx.last_sent,
{
}

/// Sending uses up exactly the size of the segment of the space in the window, as
/// long as it fits in there.
pub proof fn law_tx_sending_uses_up_space(tx: TxView, seg: SegmentView)
    requires
        seg.seq_size() <= tx.next.distance_to(tx.window_end()),
    ensures
        tx.after_send(seg).next.distance_to(tx.after_send(seg).window_end())
            == tx.next.distance_to(tx.window_end()) - seg.seq_size(),
{
}

/// There is space only where bytes are available, and wherever their number is not so
/// large that the end of the window lies behind what is sent next.
pub proof fn law_tx_has_space_where_bytes_are_available(tx: TxView)
    ensures
        tx.has_space() ==> tx.next.distance_to(tx.window_end()) > 0,
        0 < tx.next.distance_to(tx.window_end()) <= 0x7fff_ffff ==> tx.has_space(),
{
}

/// Right after the start all of the window is free, whatever the initial sequence
/// number is, and there is nothing of which an acknowledgement could come out of order.
pub proof fn law_tx_starts_with_whole_window(tx: TxView, seqn: SeqN, ackn: SeqN)
    ensures
        ({
            let started = tx.after_init(seqn);
            &&& started.next.distance_to(started.window_end()) == tx.window
            &&& started.has_space() <==> tx.window != 0
            &&& !(ackn != started.unack && ackn.between(started.unack, started.next))
        }),
{
}

} // verus!
