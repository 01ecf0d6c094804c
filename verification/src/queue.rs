//! Buffering of a stream of bytes.

use std::collections::VecDeque;

use vstd::prelude::*;

verus! {

/// The bytes of the blobs, one blob after the other.
spec fn joined(blobs: Seq<Vec<u8>>) -> Seq<u8>
    decreases blobs.len(),
{
    if blobs.len() == 0 {
        Seq::empty()
    } else {
        blobs[0]@ + joined(blobs.drop_first())
    }
}

proof fn lemma_joined_push(blobs: Seq<Vec<u8>>, blob: Vec<u8>)
    ensures
        joined(blobs.push(blob)) == joined(blobs) + blob@,
    decreases blobs.len(),
{
    if blobs.len() == 0 {
        reveal_with_fuel(joined, 2);
        assert(blobs.push(blob).drop_first() =~= Seq::<Vec<u8>>::empty());
        assert(joined(blobs.push(blob)) =~= joined(blobs) + blob@);
    } else {
        assert(blobs.push(blob).drop_first() =~= blobs.drop_first().push(blob));
        lemma_joined_push(blobs.drop_first(), blob);
        assert(joined(blobs.push(blob)) =~= joined(blobs) + blob@);
    }
}

/// Queue of blobs, with a FIN marker
#[derive(Debug)]
pub struct BlobQueue {
    buffer: VecDeque<Vec<u8>>,
    /// Fin has been received from the network. No new data will be added.
    fin: bool,
}

/// What a [`BlobQueue`] holds: the bytes that wait to be read, and whether the
/// stream ends after them. Where one blob ends and the next begins does not show.
#[verifier::ext_equal]
pub struct QueueView {
    pub bytes: Seq<u8>,
    pub fin: bool,
}

impl QueueView {
    /// How many bytes are read where up to `limit` are asked for.
    pub open spec fn readable(self, limit: int) -> int {
        if self.bytes.len() < limit {
            self.bytes.len() as int
        } else {
            limit
        }
    }

    /// The bytes that are read where up to `limit` are asked for.
    pub open spec fn read(self, limit: int) -> Seq<u8> {
        self.bytes.take(self.readable(limit))
    }

    /// The queue after that.
    pub open spec fn after_read(self, limit: int) -> QueueView {
        QueueView { bytes: self.bytes.skip(self.readable(limit)), fin: self.fin }
    }

    /// Whether that showed the end of the stream: less was there than asked for,
    /// and nothing will follow.
    pub open spec fn read_hits_end(self, limit: int) -> bool {
        self.bytes.len() < limit && self.fin
    }

    /// The queue after `data` was written to it.
    pub open spec fn after_write(self, data: Seq<u8>) -> QueueView {
        QueueView { bytes: self.bytes + data, fin: self.fin }
    }
}

impl View for BlobQueue {
    type V = QueueView;

    closed spec fn view(&self) -> QueueView {
        QueueView { bytes: joined(self.buffer@), fin: self.fin }
    }
}

impl Clone for BlobQueue {
    fn clone(&self) -> (result: Self)
        ensures
            result@ == self@,
    {
        let mut buffer: VecDeque<Vec<u8>> = VecDeque::new();
        let mut i: usize = 0;
        while i < self.buffer.len()
            invariant
                i <= self.buffer@.len(),
                joined(buffer@) == joined(self.buffer@.take(i as int)),
            decreases self.buffer@.len() - i,
        {
            let blob = self.buffer[i].clone();
            proof {
                assert(blob@ =~= self.buffer@[i as int]@);
                lemma_joined_push(buffer@, blob);
                lemma_joined_push(self.buffer@.take(i as int), self.buffer@[i as int]);
                assert(self.buffer@.take(i + 1) =~= self.buffer@.take(i as int).push(
                    self.buffer@[i as int],
                ));
            }
            buffer.push_back(blob);
            i += 1;
        }
        assert(self.buffer@.take(i as int) =~= self.buffer@);
        proof {
            use_type_invariant(self);
        }
        Self { buffer, fin: self.fin }
    }
}

impl Default for BlobQueue {
    fn default() -> (result: Self)
        ensures
            result@ == (QueueView { bytes: Seq::empty(), fin: false }),
    {
        Self { buffer: VecDeque::new(), fin: false }
    }
}

impl BlobQueue {
    /// The number of bytes in the queue fits in a `usize`.
    #[verifier::type_invariant]
    spec fn fits(self) -> bool {
        joined(self.buffer@).len() <= usize::MAX
    }

    pub fn new() -> (result: Self)
        ensures
            result@ == (QueueView { bytes: Seq::empty(), fin: false }),
    {
        Self::default()
    }

    pub fn fin(&self) -> (result: bool)
        ensures
            result == self@.fin,
    {
        self.fin
    }

    pub fn mark_fin(&mut self)
        ensures
            final(self)@ == (QueueView { fin: true, ..old(self)@ }),
    {
        proof {
            use_type_invariant(&*self);
        }
        self.fin = true;
    }

    pub fn is_empty(&self) -> (result: bool)
        ensures
            result == (self@.bytes.len() == 0),
    {
        self.available_bytes() == 0
    }

    /// Number of bytes that can be read
    pub fn available_bytes(&self) -> (result: usize)
        ensures
            result == self@.bytes.len(),
    {
        proof {
            use_type_invariant(self);
        }
        let mut sum: usize = 0;
        let mut i: usize = 0;
        assert(self.buffer@.skip(0) =~= self.buffer@);
        while i < self.buffer.len()
            invariant
                i <= self.buffer@.len(),
                self@.bytes.len() <= usize::MAX,
                sum + joined(self.buffer@.skip(i as int)).len() == self@.bytes.len(),
            decreases self.buffer@.len() - i,
        {
            assert(self.buffer@.skip(i as int).drop_first() =~= self.buffer@.skip(i + 1));
            sum = sum + self.buffer[i].len();
            i += 1;
        }
        assert(self.buffer@.skip(i as int).len() == 0);
        sum
    }

    /// Takes up to `limit` bytes, and returns them and whether fin has been reached.
    pub fn read_bytes(&mut self, limit: usize) -> (result: (Vec<u8>, bool))
        requires
            limit != 0,
        ensures
            result.0@ == old(self)@.read(limit as int),
            result.1 == old(self)@.read_hits_end(limit as int),
            final(self)@ == old(self)@.after_read(limit as int),
            result.0@ + final(self)@.bytes == old(self)@.bytes,
            result.0@.len() == limit || result.0@.len() < limit && final(self)@.bytes.len() == 0,
            result.1 == (result.0@.len() < limit && old(self)@.fin),
            final(self)@.fin == old(self)@.fin,
    {
        proof {
            use_type_invariant(&*self);
        }
        let mut buffer: VecDeque<Vec<u8>> = VecDeque::new();
        core::mem::swap(&mut buffer, &mut self.buffer);
        let mut result: Vec<u8> = Vec::new();
        while buffer.len() > 0
            invariant_except_break
                limit != 0,
                result@.len() < limit,
            invariant
                result@ + joined(buffer@) == old(self)@.bytes,
            ensures
                result@.len() == limit || result@.len() < limit && joined(buffer@).len() == 0,
            decreases buffer@.len(),
        {
            let ghost before = buffer@;
            let mut value = buffer.pop_front().unwrap();
            assert(buffer@ =~= before.drop_first());
            result.append(&mut value);
            assert(result@ + joined(buffer@) =~= old(self)@.bytes);
            if result.len() >= limit {
                let ghost whole = result@;
                let ghost behind = buffer@;
                let rest = result.split_off(limit);
                buffer.push_front(rest);
                assert(buffer@.drop_first() =~= behind);
                assert(result@ + rest@ =~= whole);
                assert(result@ + joined(buffer@) =~= old(self)@.bytes);
                break;
            }
        }
        self.buffer = buffer;
        let done = result.len() < limit && self.fin;
        assert(result@ =~= old(self)@.read(limit as int));
        assert(self@ =~= old(self)@.after_read(limit as int));
        (result, done)
    }

    /// Adds bytes at the end. Once the end of the stream is marked, there is nothing to add.
    pub fn write_bytes(&mut self, data: Vec<u8>)
        requires
            data@.len() != 0 ==> !old(self)@.fin,
            old(self)@.bytes.len() + data@.len() <= usize::MAX,
        ensures
            final(self)@ == old(self)@.after_write(data@),
            final(self)@.bytes == old(self)@.bytes + data@,
            final(self)@.fin == old(self)@.fin,
    {
        if data.len() == 0 {
            assert(self@ =~= old(self)@.after_write(data@));
            return;
        }
        let mut buffer: VecDeque<Vec<u8>> = VecDeque::new();
        core::mem::swap(&mut buffer, &mut self.buffer);
        proof {
            lemma_joined_push(buffer@, data);
        }
        buffer.push_back(data);
        self.buffer = buffer;
    }
}

/// What is read is what was written, in the same order: once all that was there
/// before is read, reading as many bytes as `first` and `second` have, which were
/// written one after the other, gives them back and leaves the queue empty.
pub proof fn law_queue_reads_what_was_written(queue: QueueView, first: Seq<u8>, second: Seq<u8>)
    ensures
        ({
            let written = queue.after_write(first).after_write(second);
            let earlier = queue.bytes.len() as int;
            let limit = (first.len() + second.len()) as int;
            &&& written.read(earlier) == queue.bytes
            &&& written.after_read(earlier).read(limit) == first + second
            &&& written.after_read(earlier).after_read(limit).bytes.len() == 0
        }),
{
    let written = queue.after_write(first).after_write(second);
    let earlier = queue.bytes.len() as int;
    let limit = (first.len() + second.len()) as int;
    assert(written.read(earlier) =~= queue.bytes);
    assert(written.after_read(earlier).read(limit) =~= first + second);
}

/// How a stream is cut into reads makes no difference: two reads give what one read
/// of the joint length gives, and leave the same behind.
pub proof fn law_queue_reads_compose(queue: QueueView, a: int, b: int)
    requires
        0 <= a,
        0 <= b,
    ensures
        queue.read(a) + queue.after_read(a).read(b) == queue.read(a + b),
        queue.after_read(a).after_read(b) == queue.after_read(a + b),
        queue.bytes.len() >= a || 0 < b ==> queue.after_read(a).read_hits_end(b)
            == queue.read_hits_end(a + b),
{
    assert(queue.read(a) + queue.after_read(a).read(b) =~= queue.read(a + b));
    assert(queue.after_read(a).after_read(b) =~= queue.after_read(a + b));
}

/// Nothing is lost and nothing is made up: what a read gives and what it leaves
/// behind are together what was there.
pub proof fn law_queue_read_keeps_all_bytes(queue: QueueView, limit: int)
    requires
        0 <= limit,
    ensures
        queue.read(limit) + queue.after_read(limit).bytes == queue.bytes,
        queue.read(limit).len() <= limit,
{
    assert(queue.read(limit) + queue.after_read(limit).bytes =~= queue.bytes);
}

/// A read gives as much as is asked for, or all that is there. It does not change
/// whether the stream has ended, nor does a write.
pub proof fn law_queue_reads_all_that_is_asked_for(queue: QueueView, limit: int, data: Seq<u8>)
    requires
        0 <= limit,
    ensures
        queue.bytes.len() >= limit ==> queue.read(limit).len() == limit,
        queue.bytes.len() <= limit ==> queue.read(limit) == queue.bytes && queue.after_read(
            limit,
        ).bytes.len() == 0,
        queue.after_read(limit).fin == queue.fin,
        queue.after_write(data).fin == queue.fin,
        queue.after_write(data).bytes.len() == queue.bytes.len() + data.len(),
        queue.bytes.is_prefix_of(queue.after_write(data).bytes),
        data.is_suffix_of(queue.after_write(data).bytes),
{
    if queue.bytes.len() <= limit {
        assert(queue.read(limit) =~= queue.bytes);
    }
}

/// Once the end of the stream is marked, it shows in the first read that asks for more
/// than is left, and in no other.
pub proof fn law_queue_end_shows(queue: QueueView, limit: int)
    ensures
        queue.read_hits_end(limit) <==> queue.fin && queue.bytes.len() < limit,
{
}

/// The end of the stream shows only once all bytes before it were read.
pub proof fn law_queue_end_comes_last(queue: QueueView, limit: int)
    requires
        queue.read_hits_end(limit),
    ensures
        queue.read(limit) == queue.bytes,
        queue.after_read(limit).bytes.len() == 0,
        queue.fin,
{
    assert(queue.read(limit) =~= queue.bytes);
}

} // verus!
