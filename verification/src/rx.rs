//! The receiving side of a connection.

use vstd::prelude::*;

use crate::options::INITIAL_WINDOW_SIZE;
use crate::queue::{BlobQueue, QueueView};
use crate::segment::{SegmentFlags, SegmentMeta, SegmentView, SeqN};

verus! {

#[derive(Debug)]
pub struct RxBuffer {
    /// ACK'd user-readable data
    pub buffer: BlobQueue,
    /// Last ACK'd sequence number
    pub ackd: SeqN,
    pub done: bool,
    /// Window size
    pub window: u16,
    /// Initial sequence number
    pub init_seqn: SeqN,
}

/// What an [`RxBuffer`] holds.
#[verifier::ext_equal]
pub struct RxView {
    /// What was received and not yet read
    pub buffer: QueueView,
    /// The sequence number up to which all was received
    pub ackd: SeqN,
    /// The end of the stream was read
    pub done: bool,
    pub window: u16,
    pub init_seqn: SeqN,
}

impl RxView {
    /// The buffer after the segment was taken in.
    pub open spec fn after_write(self, seg: SegmentView) -> RxView {
        RxView {
            buffer: QueueView {
                bytes: self.buffer.bytes + seg.data,
                fin: self.buffer.fin || seg.flags.has(SegmentFlags::fin()),
            },
            ackd: self.ackd.step(seg.seq_size()),
            ..self
        }
    }

    /// The buffer after up to `limit` bytes were taken from it.
    pub open spec fn after_read(self, limit: int) -> RxView {
        RxView {
            buffer: self.buffer.after_read(limit),
            done: self.buffer.read_hits_end(limit),
            ..self
        }
    }

    /// The buffer after a SYN with this sequence number came in.
    pub open spec fn after_init(self, seqn: SeqN) -> RxView {
        RxView { init_seqn: seqn, ackd: seqn.step(1), ..self }
    }

    /// The window to announce: what is left of it beside the unread bytes, in the 16
    /// bits of the field, or nothing once the stream has ended.
    pub open spec fn current_window(self) -> int {
        if self.buffer.fin {
            0
        } else {
            (self.window - self.buffer.bytes.len()) % 0x1_0000
        }
    }

    /// Who has read the end of the stream has read all before it.
    pub open spec fn consistent(self) -> bool {
        self.done ==> self.buffer.fin && self.buffer.bytes.len() == 0
    }

    /// The segment can be taken in: nothing comes after a FIN, neither data nor
    /// another FIN, and a segment with a FIN has no data.
    pub open spec fn can_write(self, seg: SegmentView) -> bool {
        &&& self.buffer.fin ==> seg.data.len() == 0 && !seg.flags.has(SegmentFlags::fin())
        &&& seg.flags.has(SegmentFlags::fin()) ==> seg.data.len() == 0
    }
}

impl View for RxBuffer {
    type V = RxView;

    open spec fn view(&self) -> RxView {
        RxView {
            buffer: self.buffer@,
            ackd: self.ackd,
            done: self.done,
            window: self.window,
            init_seqn: self.init_seqn,
        }
    }
}

impl Default for RxBuffer {
    fn default() -> (result: Self)
        ensures
            result@ == (RxView {
                buffer: QueueView { bytes: Seq::empty(), fin: false },
                ackd: SeqN::zero(),
                done: false,
                window: INITIAL_WINDOW_SIZE,
                init_seqn: SeqN::zero(),
            }),
    {
        Self {
            buffer: BlobQueue::new(),
            ackd: SeqN::zero(),
            done: false,
            window: INITIAL_WINDOW_SIZE,
            init_seqn: SeqN::zero(),
        }
    }
}

impl Clone for RxBuffer {
    fn clone(&self) -> (result: Self)
        ensures
            result@ == self@,
    {
        Self {
            buffer: self.buffer.clone(),
            ackd: self.ackd,
            done: self.done,
            window: self.window,
            init_seqn: self.init_seqn,
        }
    }
}

impl RxBuffer {
    /// Called when in Listen state and a new SYN packet arrives,
    /// or when in SynSent state and a new SYN-ACK packet arrives
    pub fn init(&mut self, seqn: SeqN)
        ensures
            final(self)@ == old(self)@.after_init(seqn),
            final(self).init_seqn == seqn,
            seqn.distance_to(final(self).ackd) == 1,
            final(self)@.buffer == old(self)@.buffer,
            final(self).done == old(self).done,
            final(self).window == old(self).window,
    {
        self.init_seqn = seqn;
        self.ackd = seqn.wrapping_add(1);  // +1 because SYN
    }

    /// The sequence number is one of those that the window allows to be sent, the
    /// first of which is the one that comes next.
    pub fn in_window(&self, seqn: SeqN) -> (result: bool)
        ensures
            self.window > 0 ==> result == (self.ackd.distance_to(seqn) < self.window),
            result == seqn.between(self@.ackd, self@.ackd.step(self@.window - 1)),
            self@.window != 0 ==> result == (self@.ackd.distance_to(seqn) < self@.window),
    {
        seqn.in_range_inclusive(
            self.ackd,
            self.ackd.wrapping_add(self.window as u32).wrapping_sub(1),
        )
    }

    pub fn window_size(&self) -> (result: u16)
        ensures
            result == self@.window,
    {
        self.window
    }

    /// Buffer empty, and will not have any more data
    pub fn is_done(&self) -> (result: bool)
        ensures
            result == self@.done,
    {
        self.done
    }

    /// Number of bytes that can be read
    pub fn available_bytes(&self) -> (result: usize)
        ensures
            result == self@.buffer.bytes.len(),
    {
        self.buffer.available_bytes()
    }

    /// Takes `limit` bytes, or what is left before the end of the stream. To be called
    /// when that many bytes are there, or the end is.
    pub fn read_bytes(&mut self, limit: usize) -> (result: Vec<u8>)
        requires
            limit != 0,
            !old(self)@.done,
            old(self)@.buffer.bytes.len() >= limit || old(self)@.buffer.fin,
        ensures
            result@ == old(self)@.buffer.read(limit as int),
            final(self)@ == old(self)@.after_read(limit as int),
            result@ + final(self)@.buffer.bytes == old(self)@.buffer.bytes,
            result@.len() == limit || result@.len() < limit && final(self)@.buffer.bytes.len() == 0,
            final(self).done == (result@.len() < limit),
            final(self)@.buffer.fin == old(self)@.buffer.fin,
            final(self).ackd == old(self).ackd,
            final(self).window == old(self).window,
            final(self).init_seqn == old(self).init_seqn,
    {
        let (result, fin) = self.buffer.read_bytes(limit);
        self.done = fin;
        result
    }

    /// Bytes from the network are written using this
    pub fn write(&mut self, seg: SegmentMeta)
        requires
            old(self)@.can_write(seg@),
            old(self)@.buffer.bytes.len() + seg.data@.len() <= usize::MAX,
        ensures
            final(self)@ == old(self)@.after_write(seg@),
            final(self)@.buffer.bytes == old(self)@.buffer.bytes + seg.data@,
            final(self)@.buffer.fin == (old(self)@.buffer.fin || seg.flags.bits & 1 == 1),
            old(self).ackd.distance_to(final(self).ackd) == seg@.seq_size(),
            final(self).done == old(self).done,
            final(self).window == old(self).window,
            final(self).init_seqn == old(self).init_seqn,
    {
        self.ackd = self.ackd.wrapping_add(seg.seq_size());
        if seg.flags.contains(SegmentFlags::fin()) {
            self.buffer.mark_fin();
        }
        self.buffer.write_bytes(seg.data);
    }

    /// This can be returned with new packets as window field value
    pub fn curr_window(&self) -> (result: u16)
        ensures
            result == self@.current_window(),
            self@.buffer.fin ==> result == 0,
            !self@.buffer.fin && self@.buffer.bytes.len() <= self.window ==> result
                + self@.buffer.bytes.len() == self.window,
    {
        if self.buffer.fin() {
            return 0;
        }
        let available: u64 = self.available_bytes() as u64;
        assert(available as u16 == available % 0x1_0000u64) by (bit_vector);
        self.window.wrapping_sub(#[verifier::truncate] (available as u16))
    }
}

/// A buffer that is done is empty, has got its FIN, and stays so: no operation
/// leads from a consistent buffer to one that is not.
pub proof fn law_rx_done_means_empty(rx: RxView, seqn: SeqN, seg: SegmentView, limit: int)
    requires
        rx.consistent(),
    ensures
        rx.after_init(seqn).consistent(),
        rx.can_write(seg) ==> rx.after_write(seg).consistent(),
        rx.after_read(limit).consistent(),
        rx.done && rx.can_write(seg) ==> rx.after_write(seg).done && rx.after_write(
            seg,
        ).buffer.bytes.len() == 0,
{
}

/// The segment that comes next in sequence moves the acknowledged sequence number
/// to just after it.
pub proof fn law_rx_acknowledges_what_was_written(rx: RxView, seg: SegmentView)
    requires
        seg.seqn == rx.ackd,
    ensures
        rx.after_write(seg).ackd == seg.seqn_after(),
{
}

/// The model of a buffer has all that the buffer has.
pub proof fn law_rx_view_shows_the_buffer(rx: RxBuffer)
    ensures
        rx@.buffer == rx.buffer@,
        rx@.ackd == rx.ackd,
        rx@.done == rx.done,
        rx@.window == rx.window,
        rx@.init_seqn == rx.init_seqn,
{
}

/// A segment is taken in as it is: its data goes behind what is there, its FIN ends the
/// stream, and it is acknowledged by its whole size. All else stays.
pub proof fn law_rx_takes_in_the_whole_segment(rx: RxView, seg: SegmentView)
    ensures
        ({
            let after = rx.after_write(seg);
            &&& after.buffer.bytes == rx.buffer.bytes + seg.data
            &&& after.buffer.fin <==> rx.buffer.fin || seg.flags.bits & 1 == 1
            &&& rx.ackd.distance_to(after.ackd) == seg.seq_size()
            &&& after.done == rx.done
            &&& after.window == rx.window
            &&& after.init_seqn == rx.init_seqn
        }),
{
}

/// What can be taken in: anything while the stream goes on, except a FIN with data, and
/// after its end only what brings neither data nor another FIN.
pub proof fn law_rx_takes_in_until_the_end(rx: RxView, seg: SegmentView)
    ensures
        !rx.buffer.fin && seg.flags.bits & 1 != 1 ==> rx.can_write(seg),
        !rx.buffer.fin && seg.data.len() == 0 ==> rx.can_write(seg),
        rx.buffer.fin && seg.data.len() == 0 && seg.flags.bits & 1 != 1 ==> rx.can_write(seg),
        rx.can_write(seg) && seg.flags.bits & 1 == 1 ==> seg.data.len() == 0 && !rx.buffer.fin,
        rx.can_write(seg) && rx.buffer.fin ==> seg.data.len() == 0,
{
}

/// A read takes bytes from the front, and what it gives and what it leaves are together
/// what was there. The end of the stream is read where less comes than was asked for.
pub proof fn law_rx_reads_from_the_front(rx: RxView, limit: int)
    requires
        0 < limit,
        rx.buffer.bytes.len() >= limit || rx.buffer.fin,
    ensures
        ({
            let (given, after) = (rx.buffer.read(limit), rx.after_read(limit));
            &&& given + after.buffer.bytes == rx.buffer.bytes
            &&& given.len() <= limit
            &&& given.len() < limit ==> after.buffer.bytes.len() == 0
            &&& after.done <==> given.len() < limit
            &&& after.buffer.fin == rx.buffer.fin
            &&& after.ackd == rx.ackd
            &&& after.window == rx.window
            &&& after.init_seqn == rx.init_seqn
        }),
{
    assert(rx.buffer.read(limit) + rx.after_read(limit).buffer.bytes =~= rx.buffer.bytes);
}

/// A SYN sets the initial sequence number, and what comes next is the one after it. All
/// else stays.
pub proof fn law_rx_starts_after_the_syn(rx: RxView, seqn: SeqN)
    ensures
        rx.after_init(seqn).init_seqn == seqn,
        seqn.distance_to(rx.after_init(seqn).ackd) == 1,
        rx.after_init(seqn).buffer == rx.buffer,
        rx.after_init(seqn).done == rx.done,
        rx.after_init(seqn).window == rx.window,
{
}

/// The announced window differs from the room that is left by whole multiples of what
/// the field can hold, and every unread byte takes one off it.
pub proof fn law_rx_window_shrinks_with_unread_bytes(rx: RxView, byte: u8)
    requires
        !rx.buffer.fin,
    ensures
        0 <= rx.current_window() <= u16::MAX,
        ({
            let fuller = RxView {
                buffer: QueueView { bytes: rx.buffer.bytes.push(byte), ..rx.buffer },
                ..rx
            };
            rx.current_window() == fuller.current_window() + 1 || rx.current_window() == 0
                && fuller.current_window() == u16::MAX
        }),
{
    let fuller = RxView {
        buffer: QueueView { bytes: rx.buffer.bytes.push(byte), ..rx.buffer },
        ..rx
    };
    assert(fuller.buffer.bytes.len() == rx.buffer.bytes.len() + 1);
}

/// What the user reads is what the segments brought, in the order in which they
/// came, after what was there before.
pub proof fn law_rx_reads_what_was_written(rx: RxView, first: SegmentView, second: SegmentView)
    ensures
        ({
            let written = rx.after_write(first).after_write(second);
            let limit = (rx.buffer.bytes.len() + first.data.len() + second.data.len()) as int;
            &&& written.buffer.read(limit) == rx.buffer.bytes + first.data + second.data
            &&& written.after_read(limit).buffer.bytes.len() == 0
        }),
{
    let written = rx.after_write(first).after_write(second);
    let limit = (rx.buffer.bytes.len() + first.data.len() + second.data.len()) as int;
    assert(written.buffer.read(limit) =~= rx.buffer.bytes + first.data + second.data);
}

/// While the unread bytes fit in the window and the stream has not ended, the
/// announced window and the unread bytes add up to the window. After the end it is
/// zero.
pub proof fn law_rx_window_leaves_room(rx: RxView)
    requires
        rx.buffer.bytes.len() <= rx.window,
    ensures
        !rx.buffer.fin ==> rx.current_window() + rx.buffer.bytes.len() == rx.window,
        rx.buffer.fin ==> rx.current_window() == 0,
{
}

} // verus!
