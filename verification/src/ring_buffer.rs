//! The bounded byte queue behind a pipe.
//!
//! A `PipeRingBuffer<C>` stores up to `C` bytes in a circular array. Its view
//! is the sequence of bytes it holds, oldest first; every operation is stated
//! over that sequence.

use crate::pipe::{Pipe, WriteEndRef};
use std::sync::Arc;
use vstd::arithmetic::div_mod::{lemma_mod_self_0, lemma_small_mod};
use vstd::prelude::*;

verus! {

/// Capacity of the buffer behind a pipe of the usual size.
pub const RING_BUFFER_SIZE: usize = 1024;

/// Tells an empty buffer from a full one: in both, head and tail coincide.
#[derive(Copy, Clone, PartialEq, Eq, Structural, Debug)]
pub enum RingBufferStatus {
    Full,
    Empty,
    Normal,
}

/// The slot `offset` places after `start` on a ring of `cap` slots.
pub open spec fn slot(start: int, offset: int, cap: int) -> int {
    if start + offset < cap {
        start + offset
    } else {
        start + offset - cap
    }
}

/// How many places after `start` the slot `place` lies on a ring of `cap`
/// slots.
pub open spec fn offset_of(start: int, place: int, cap: int) -> int {
    if place >= start {
        place - start
    } else {
        place + cap - start
    }
}

/// `count` raised by `n`, held at the largest `usize`.
pub open spec fn bumped(count: usize, n: int) -> usize {
    if count + n > usize::MAX {
        usize::MAX
    } else {
        (count + n) as usize
    }
}

/// What the caller of a read does next.
#[derive(Copy, Clone, PartialEq, Eq, Structural, Debug)]
pub enum ReadStep {
    /// The read is over and returns this many bytes.
    Done(usize),
    /// Nothing is buffered and a writer may still come: release the lock,
    /// yield the processor, and try again unless the yield says to stop.
    Yield,
    /// Nothing is buffered and the buffer has no write end recorded, so it
    /// cannot tell whether a writer is left.
    Unbound,
}

/// What the caller of a write does next.
#[derive(Copy, Clone, PartialEq, Eq, Structural, Debug)]
pub enum WriteStep {
    /// The write is over and returns this many bytes.
    Done(usize),
    /// This many bytes are written so far and the source holds more: take
    /// the next step at once.
    Again(usize),
    /// The buffer is full: release the lock, yield the processor, and try
    /// again unless the yield says to stop.
    Yield,
}

/// How many bytes one round of a read moves: all that is buffered, or as
/// many as the destination has room for.
pub open spec fn read_len(buffered: nat, room: nat) -> nat {
    if buffered <= room {
        buffered
    } else {
        room
    }
}

/// How many bytes one round of a write moves: all that is pending, or as
/// many as the buffer has room for.
pub open spec fn write_len(buffered: nat, cap: nat, pending: nat) -> nat {
    if buffered >= cap {
        0
    } else if pending <= cap - buffered {
        pending
    } else {
        (cap - buffered) as nat
    }
}

/// What a buffer of capacity `cap` holds after one round of a write of
/// `pending`, when it held `buffered` before.
pub open spec fn after_write(buffered: Seq<u8>, cap: nat, pending: Seq<u8>) -> Seq<u8> {
    buffered + pending.take(write_len(buffered.len(), cap, pending.len()) as int)
}

/// The bytes that one round of a read takes from a buffer that holds
/// `buffered`, for a destination of `room` bytes.
pub open spec fn bytes_read(buffered: Seq<u8>, room: nat) -> Seq<u8> {
    buffered.take(read_len(buffered.len(), room) as int)
}

/// What a buffer holds after one round of a read into a destination of
/// `room` bytes, when it held `buffered` before.
pub open spec fn after_read(buffered: Seq<u8>, room: nat) -> Seq<u8> {
    buffered.skip(read_len(buffered.len(), room) as int)
}

/// The outcome of one round of a read on a buffer that holds `buffered`
/// bytes, into a destination of `room` bytes.
pub open spec fn read_step_of(buffered: nat, room: nat, writers_gone: bool) -> ReadStep {
    if buffered > 0 {
        ReadStep::Done(read_len(buffered, room) as usize)
    } else if writers_gone {
        ReadStep::Done(0)
    } else {
        ReadStep::Yield
    }
}

/// Whether `step` and `after` are what one step of a read can give on a
/// buffer that holds `buffered`, for a destination that held `before`.
///
/// With bytes buffered the step is fixed. With none it is `Done(0)`, `Yield`
/// or `Unbound`, by what is known of the write end.
pub open spec fn read_step_on(
    buffered: Seq<u8>,
    before: Seq<u8>,
    after: Seq<u8>,
    step: ReadStep,
) -> bool {
    &&& after == bytes_read(buffered, before.len()) + before.skip(
        read_len(buffered.len(), before.len()) as int,
    )
    &&& (step == read_step_of(buffered.len(), before.len(), true) || step == read_step_of(
        buffered.len(),
        before.len(),
        false,
    ) || (buffered.len() == 0 && step == ReadStep::Unbound))
}

/// The outcome of one round of a write of `total` bytes, `written` of them
/// in earlier rounds, on a buffer of capacity `cap` that holds `buffered`
/// bytes.
pub open spec fn write_step_of(buffered: nat, cap: nat, total: nat, written: nat) -> WriteStep {
    if written >= total {
        WriteStep::Done(written as usize)
    } else if buffered >= cap {
        WriteStep::Yield
    } else {
        let now = written + write_len(buffered, cap, (total - written) as nat);
        if now == total {
            WriteStep::Done(now as usize)
        } else {
            WriteStep::Again(now as usize)
        }
    }
}

/// A fixed-capacity circular byte buffer with a fill-state tag.
pub struct PipeRingBuffer<const C: usize> {
    arr: [u8; C],
    head: usize,
    tail: usize,
    status: RingBufferStatus,
    write_end: Option<WriteEndRef<C>>,
    count: usize,
}

impl<const C: usize> View for PipeRingBuffer<C> {
    type V = Seq<u8>;

    /// The buffered bytes, oldest first.
    closed spec fn view(&self) -> Seq<u8> {
        Seq::new(self.spec_available_read(), |i: int| self.arr@[slot(self.head as int, i, C as int)])
    }
}

impl<const C: usize> PipeRingBuffer<C> {
    #[verifier::type_invariant]
    spec fn inv(&self) -> bool {
        self.wf()
    }

    /// Both cursors are inside the array, and the tag is `Normal` exactly
    /// when they differ.
    pub closed spec fn wf(&self) -> bool {
        &&& self.head < C
        &&& self.tail < C
        &&& (self.status == RingBufferStatus::Normal <==> self.head != self.tail)
    }

    /// The fill-state tag.
    pub closed spec fn status(&self) -> RingBufferStatus {
        self.status
    }

    /// The read cursor: the slot of the oldest byte.
    pub closed spec fn head(&self) -> int {
        self.head as int
    }

    /// The write cursor: the slot that the next byte goes to.
    pub closed spec fn tail(&self) -> int {
        self.tail as int
    }

    /// The backing array, slot by slot.
    pub closed spec fn slots(&self) -> Seq<u8> {
        self.arr@
    }

    /// Zero when the tag is `Empty`, else the circular distance from head to
    /// tail.
    pub closed spec fn spec_available_read(&self) -> nat {
        if self.status == RingBufferStatus::Empty {
            0
        } else if self.tail > self.head {
            (self.tail - self.head) as nat
        } else {
            (self.tail + C - self.head) as nat
        }
    }

    /// Zero when the tag is `Full`, else what is left of the capacity.
    pub closed spec fn spec_available_write(&self) -> nat {
        if self.status == RingBufferStatus::Full {
            0
        } else {
            (C - self.spec_available_read()) as nat
        }
    }

    /// Whether a write end has been recorded.
    pub closed spec fn spec_has_write_end(&self) -> bool {
        self.write_end is Some
    }

    /// The transfer counter.
    pub closed spec fn spec_count(&self) -> usize {
        self.count
    }

    /// The bytes that can be read and the bytes that can be written add up to
    /// the capacity, in every state of the buffer: empty, full or between.
    /// The first of the two is the length of the view.
    pub proof fn lemma_available_sum(&self)
        requires
            self.wf(),
        ensures
            self.spec_available_read() + self.spec_available_write() == C,
            self.spec_available_read() == self@.len(),
    {
    }

    /// The tag follows the fill: `Empty` exactly when nothing is buffered,
    /// `Full` exactly when the buffer holds as much as its capacity.
    pub proof fn lemma_status_tells_fill(&self)
        requires
            self.wf(),
        ensures
            self.status() == RingBufferStatus::Empty <==> self@.len() == 0,
            self.status() == RingBufferStatus::Full <==> self@.len() == C,
    {
    }

    /// How the buffered bytes lie in the array: both cursors are inside it,
    /// the bytes start at the head and run round the ring, and the tail is
    /// the slot after the last of them.
    pub proof fn lemma_layout(&self)
        requires
            self.wf(),
        ensures
            self.slots().len() == C,
            0 <= self.head() < C,
            0 <= self.tail() < C,
            self@.len() <= C,
            self.tail() == slot(self.head(), self@.len() as int, C as int),
            forall|i: int|
                0 <= i < self@.len() ==> #[trigger] self@[i] == self.slots()[slot(
                    self.head(),
                    i,
                    C as int,
                )],
    {
    }

    /// An empty buffer with no write end recorded.
    pub fn new() -> (ring: Self)
        requires
            C > 0,
        ensures
            ring.wf(),
            ring@ == Seq::<u8>::empty(),
            ring.status() == RingBufferStatus::Empty,
            ring.head() == 0,
            ring.tail() == 0,
            ring.slots().len() == C,
            !ring.has_write_end(),
            ring.count() == 0,
    {
        Self {
            arr: [0u8; C],
            head: 0,
            tail: 0,
            status: RingBufferStatus::Empty,
            write_end: None,
            count: 0,
        }
    }

    /// Records a non-owning reference to the write end, by which the buffer
    /// later learns that every write handle is gone.
    pub fn set_write_end(&mut self, write_end: &Arc<Pipe<C>>)
        ensures
            final(self).wf(),
            final(self).has_write_end(),
            final(self)@ == old(self)@,
            final(self).status() == old(self).status(),
            final(self).head() == old(self).head(),
            final(self).tail() == old(self).tail(),
            final(self).slots() == old(self).slots(),
            final(self).count() == old(self).count(),
    {
        proof {
            use_type_invariant(&*self);
        }
        self.write_end = Some(WriteEndRef::downgrade(write_end));
    }

    /// Appends one byte. The caller has checked that there is room.
    pub fn write_byte(&mut self, byte: u8)
        requires
            old(self)@.len() < C,
        ensures
            final(self).wf(),
            final(self)@ == old(self)@.push(byte),
            final(self).status() == if final(self)@.len() == C {
                RingBufferStatus::Full
            } else {
                RingBufferStatus::Normal
            },
            final(self).head() == old(self).head(),
            final(self).tail() == slot(old(self).tail(), 1, C as int),
            final(self).slots() == old(self).slots().update(old(self).tail(), byte),
            final(self).slots().len() == C,
            final(self).has_write_end() == old(self).has_write_end(),
            final(self).count() == old(self).count(),
    {
        proof {
            use_type_invariant(&*self);
        }
        self.arr[self.tail] = byte;
        step_cursor::<C>(&mut self.tail, self.head, &mut self.status, RingBufferStatus::Full);
        assert(self@ =~= old(self)@.push(byte));
    }

    /// Removes the oldest byte. The caller has checked that there is one.
    pub fn read_byte(&mut self) -> (byte: u8)
        requires
            old(self)@.len() > 0,
        ensures
            final(self).wf(),
            byte == old(self)@[0],
            final(self)@ == old(self)@.skip(1),
            final(self).status() == if final(self)@.len() == 0 {
                RingBufferStatus::Empty
            } else {
                RingBufferStatus::Normal
            },
            byte == old(self).slots()[old(self).head()],
            final(self).head() == slot(old(self).head(), 1, C as int),
            final(self).tail() == old(self).tail(),
            final(self).slots() == old(self).slots(),
            final(self).has_write_end() == old(self).has_write_end(),
            final(self).count() == old(self).count(),
    {
        proof {
            use_type_invariant(&*self);
        }
        let c = self.arr[self.head];
        step_cursor::<C>(&mut self.head, self.tail, &mut self.status, RingBufferStatus::Empty);
        assert(self@ =~= old(self)@.skip(1));
        c
    }

    /// How many bytes can be read now.
    pub fn available_read(&self) -> (n: usize)
        ensures
            n == self.spec_available_read(),
            n == self@.len(),
            n <= C,
    {
        proof {
            use_type_invariant(self);
        }
        if self.status == RingBufferStatus::Empty {
            0
        } else {
            if self.tail > self.head {
                self.tail - self.head
            } else {
                C - self.head + self.tail
            }
        }
    }

    /// How many bytes can be written now.
    pub fn available_write(&self) -> (n: usize)
        ensures
            n == self.spec_available_write(),
            n == C - self@.len(),
    {
        proof {
            use_type_invariant(self);
        }
        if self.status == RingBufferStatus::Full {
            0
        } else {
            C - self.available_read()
        }
    }

    /// Whether a read of one byte would succeed at once: whether a byte is
    /// buffered.
    pub fn r_ready(&self) -> (ready: bool)
        ensures
            ready == (self@.len() > 0),
    {
        let loop_read = self.available_read();
        loop_read > 0
    }

    /// Whether a write of one byte would succeed at once: whether a slot is
    /// free.
    pub fn w_ready(&self) -> (ready: bool)
        ensures
            ready == (self@.len() < C),
    {
        let loop_write = self.available_write();
        loop_write > 0
    }

    /// Whether every handle to the write end has been dropped. A write end
    /// must have been recorded.
    pub fn all_write_ends_closed(&self) -> (closed: bool)
        requires
            self.has_write_end(),
    {
        self.write_end.as_ref().unwrap().upgrade().is_none()
    }

    /// Whether a write end has been recorded.
    #[verifier::when_used_as_spec(spec_has_write_end)]
    pub fn has_write_end(&self) -> (recorded: bool)
        ensures
            recorded == self.spec_has_write_end(),
    {
        self.write_end.is_some()
    }

    /// The transfer counter: one for each byte that a write round stored and
    /// one for each read round that ran out of room, held at the largest
    /// `usize`.
    #[verifier::when_used_as_spec(spec_count)]
    pub fn count(&self) -> (count: usize)
        ensures
            count == self.spec_count(),
    {
        self.count
    }

    /// One round of a read, on a buffer whose lock the caller holds.
    ///
    /// `writers_gone` says whether every write handle has been dropped; it
    /// matters only when nothing is buffered. When something is, the round
    /// moves the oldest bytes to the front of `dest`, as many as are buffered
    /// or as `dest` has room for, and the read is over.
    pub fn read_round(&mut self, dest: &mut [u8], writers_gone: bool) -> (step: ReadStep)
        ensures
            final(self).wf(),
            old(self)@.len() <= C,
            step == read_step_of(old(self)@.len(), old(dest)@.len(), writers_gone),
            final(self)@ == after_read(old(self)@, old(dest)@.len()),
            final(dest)@ == bytes_read(old(self)@, old(dest)@.len()) + old(dest)@.skip(
                read_len(old(self)@.len(), old(dest)@.len()) as int,
            ),
            final(self).head() == slot(
                old(self).head(),
                read_len(old(self)@.len(), old(dest)@.len()) as int,
                C as int,
            ),
            final(self).tail() == old(self).tail(),
            final(self).slots() == old(self).slots(),
            final(self).count() == if old(dest)@.len() < old(self)@.len() {
                bumped(old(self).count(), 1)
            } else {
                old(self).count()
            },
            final(self).has_write_end() == old(self).has_write_end(),
    {
        proof {
            use_type_invariant(&*self);
        }
        let ghost buffered = self@;
        let ghost before = dest@;
        let loop_read = self.available_read();
        if loop_read == 0 {
            assert(self@ =~= buffered.skip(0));
            assert(dest@ =~= buffered.take(0) + before.skip(0));
            return if writers_gone {
                ReadStep::Done(0)
            } else {
                ReadStep::Yield
            };
        }
        let mut read_size: usize = 0;
        while read_size < loop_read
            invariant
                self.wf(),
                buffered == old(self)@,
                before == old(dest)@,
                loop_read == buffered.len(),
                loop_read <= C,
                read_size <= loop_read,
                read_size <= dest@.len(),
                dest@.len() == before.len(),
                self@ == buffered.skip(read_size as int),
                dest@ == buffered.take(read_size as int) + before.skip(read_size as int),
                0 <= old(self).head() < C,
                self.head() == slot(old(self).head(), read_size as int, C as int),
                self.tail() == old(self).tail(),
                self.slots() == old(self).slots(),
                self.count() == old(self).count(),
                self.has_write_end() == old(self).has_write_end(),
            decreases loop_read - read_size,
        {
            if read_size < dest.len() {
                dest[read_size] = self.read_byte();
                read_size += 1;
                assert(self@ =~= buffered.skip(read_size as int));
                assert(dest@ =~= buffered.take(read_size as int) + before.skip(read_size as int));
            } else {
                self.count = self.count.saturating_add(1);
                return ReadStep::Done(read_size);
            }
        }
        ReadStep::Done(read_size)
    }

    /// One step of a read, on a buffer whose lock the caller holds.
    ///
    /// With bytes buffered this is a round of the read. With none, the step
    /// is `Unbound` when no write end is recorded; otherwise the buffer asks
    /// whether a write handle is left, and the step is `Yield` if one is and
    /// `Done(0)` if none is.
    pub fn read_step(&mut self, dest: &mut [u8]) -> (step: ReadStep)
        ensures
            final(self).wf(),
            old(self)@.len() <= C,
            read_step_on(old(self)@, old(dest)@, final(dest)@, step),
            step == ReadStep::Unbound <==> old(self)@.len() == 0 && !old(self).has_write_end(),
            final(self)@ == after_read(old(self)@, old(dest)@.len()),
            final(self).head() == slot(
                old(self).head(),
                read_len(old(self)@.len(), old(dest)@.len()) as int,
                C as int,
            ),
            final(self).tail() == old(self).tail(),
            final(self).slots() == old(self).slots(),
            final(self).count() == if old(dest)@.len() < old(self)@.len() {
                bumped(old(self).count(), 1)
            } else {
                old(self).count()
            },
            final(self).has_write_end() == old(self).has_write_end(),
    {
        proof {
            use_type_invariant(&*self);
        }
        let idle = self.available_read() == 0;
        if idle && !self.has_write_end() {
            assert(self@ =~= after_read(self@, dest@.len()));
            assert(dest@ =~= bytes_read(self@, dest@.len()) + dest@.skip(0));
            return ReadStep::Unbound;
        }
        let writers_gone = idle && self.all_write_ends_closed();
        self.read_round(dest, writers_gone)
    }

    /// One round of a write, on a buffer whose lock the caller holds.
    ///
    /// `written` bytes of `src` went in during earlier rounds. With nothing
    /// left to write the write is over. With the buffer full the caller has
    /// to wait. Otherwise the round appends the next bytes of `src`, as many
    /// as are left or as the buffer has room for.
    pub fn write_round(&mut self, src: &[u8], written: usize) -> (step: WriteStep)
        requires
            written <= src@.len(),
        ensures
            final(self).wf(),
            old(self)@.len() <= C,
            step == write_step_of(old(self)@.len(), C as nat, src@.len(), written as nat),
            final(self)@ == after_write(old(self)@, C as nat, src@.skip(written as int)),
            final(self).head() == old(self).head(),
            final(self).tail() == slot(
                old(self).tail(),
                write_len(old(self)@.len(), C as nat, (src@.len() - written) as nat) as int,
                C as int,
            ),
            final(self).slots().len() == C,
            forall|place: int|
                0 <= place < C ==> #[trigger] final(self).slots()[place] == if offset_of(
                    old(self).tail(),
                    place,
                    C as int,
                ) < write_len(old(self)@.len(), C as nat, (src@.len() - written) as nat) {
                    src@[written + offset_of(old(self).tail(), place, C as int)]
                } else {
                    old(self).slots()[place]
                },
            final(self).count() == bumped(
                old(self).count(),
                write_len(old(self)@.len(), C as nat, (src@.len() - written) as nat) as int,
            ),
            final(self).has_write_end() == old(self).has_write_end(),
    {
        proof {
            use_type_invariant(&*self);
        }
        let ghost buffered = self@;
        if written >= src.len() {
            assert(self@ =~= buffered + src@.subrange(written as int, written as int));
            return WriteStep::Done(written);
        }
        let loop_write = self.available_write();
        if loop_write == 0 {
            assert(self@ =~= buffered + src@.subrange(written as int, written as int));
            return WriteStep::Yield;
        }
        let mut write_size: usize = written;
        let mut i: usize = 0;
        while i < loop_write && write_size < src.len()
            invariant
                self.wf(),
                buffered == old(self)@,
                loop_write == C - buffered.len(),
                buffered.len() <= C,
                i <= loop_write,
                write_size == written + i,
                write_size <= src@.len(),
                self@ == buffered + src@.subrange(written as int, write_size as int),
                0 <= old(self).tail() < C,
                self.head() == old(self).head(),
                self.tail() == slot(old(self).tail(), i as int, C as int),
                self.slots().len() == C,
                forall|place: int|
                    0 <= place < C ==> #[trigger] self.slots()[place] == if offset_of(
                        old(self).tail(),
                        place,
                        C as int,
                    ) < i {
                        src@[written + offset_of(old(self).tail(), place, C as int)]
                    } else {
                        old(self).slots()[place]
                    },
                self.count() == bumped(old(self).count(), i as int),
                self.has_write_end() == old(self).has_write_end(),
            decreases loop_write - i,
        {
            self.write_byte(src[write_size]);
            write_size += 1;
            i += 1;
            self.count = self.count.saturating_add(1);
            assert(self@ =~= buffered + src@.subrange(written as int, write_size as int));
        }
        if write_size == src.len() {
            WriteStep::Done(write_size)
        } else {
            WriteStep::Again(write_size)
        }
    }
}

/// Moves `cursor` one slot forward around the ring and sets the tag: `met`
/// when the cursor has reached `other`, `Normal` when it has not.
fn step_cursor<const C: usize>(
    cursor: &mut usize,
    other: usize,
    status: &mut RingBufferStatus,
    met: RingBufferStatus,
)
    requires
        *old(cursor) < C,
    ensures
        *final(cursor) == slot(*old(cursor) as int, 1, C as int),
        *final(status) == if *final(cursor) == other {
            met
        } else {
            RingBufferStatus::Normal
        },
    no_unwind
{
    proof {
        if *cursor + 1 < C {
            lemma_small_mod((*cursor + 1) as nat, C as nat);
        } else {
            lemma_mod_self_0(C as int);
        }
    }
    *status = RingBufferStatus::Normal;
    *cursor = (*cursor + 1) % C;
    if *cursor == other {
        *status = met;
    }
}

} // verus!
