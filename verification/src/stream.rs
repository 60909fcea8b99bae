//! The byte stream through a pipe buffer, over many rounds.
//!
//! One round of a write or of a read is stated on `PipeRingBuffer`. Here the
//! rounds are put one after another on the sequence of buffered bytes, and
//! what a pipe promises of the stream as a whole is proved from that.

use crate::ring_buffer::{
    after_read, after_write, bytes_read, read_len, read_step_of, write_len, write_step_of,
    ReadStep, WriteStep,
};
use vstd::prelude::*;

verus! {

/// What a buffer of capacity `cap` holds after one round of a write for each
/// chunk of `chunks` in turn, when it held `buffered` before.
pub open spec fn after_writes(buffered: Seq<u8>, cap: nat, chunks: Seq<Seq<u8>>) -> Seq<u8>
    decreases chunks.len(),
{
    if chunks.len() == 0 {
        buffered
    } else {
        after_writes(after_write(buffered, cap, chunks.first()), cap, chunks.drop_first())
    }
}

/// The bytes that successive rounds of a read deliver from a buffer that
/// holds `buffered`, one round for each destination size in `rooms`.
pub open spec fn all_bytes_read(buffered: Seq<u8>, rooms: Seq<nat>) -> Seq<u8>
    decreases rooms.len(),
{
    if rooms.len() == 0 {
        Seq::empty()
    } else {
        bytes_read(buffered, rooms.first()) + all_bytes_read(
            after_read(buffered, rooms.first()),
            rooms.drop_first(),
        )
    }
}

/// The sum of the destination sizes.
pub open spec fn total_room(rooms: Seq<nat>) -> nat
    decreases rooms.len(),
{
    if rooms.len() == 0 {
        0
    } else {
        rooms.first() + total_room(rooms.drop_first())
    }
}

/// Writes that fit into the buffer append their bytes to it, chunk after
/// chunk, in the order of the writes.
pub proof fn lemma_writes_append(buffered: Seq<u8>, cap: nat, chunks: Seq<Seq<u8>>)
    requires
        buffered.len() + chunks.flatten().len() <= cap,
    ensures
        after_writes(buffered, cap, chunks) == buffered + chunks.flatten(),
    decreases chunks.len(),
{
    if chunks.len() == 0 {
        assert(buffered + chunks.flatten() =~= buffered);
    } else {
        let first = chunks.first();
        let rest = chunks.drop_first();
        assert(chunks.flatten() == first + rest.flatten());
        assert(after_write(buffered, cap, first) =~= buffered + first);
        lemma_writes_append(buffered + first, cap, rest);
        assert((buffered + first) + rest.flatten() =~= buffered + chunks.flatten());
    }
}

/// Successive reads deliver the front of the buffer, oldest byte first: as
/// many bytes as are buffered, or as the destinations have room for.
pub proof fn lemma_reads_take_front(buffered: Seq<u8>, rooms: Seq<nat>)
    ensures
        all_bytes_read(buffered, rooms) == buffered.take(
            read_len(buffered.len(), total_room(rooms)) as int,
        ),
    decreases rooms.len(),
{
    if rooms.len() == 0 {
        assert(buffered.take(0) =~= Seq::<u8>::empty());
    } else {
        let n = read_len(buffered.len(), rooms.first()) as int;
        let rest = after_read(buffered, rooms.first());
        lemma_reads_take_front(rest, rooms.drop_first());
        let m = read_len(rest.len(), total_room(rooms.drop_first())) as int;
        assert(buffered.take(n) + rest.take(m) =~= buffered.take(n + m));
    }
}

/// First in, first out: after writes that together fit into an empty
/// buffer, the bytes that reads deliver are the bytes written, in the order
/// in which they were written. The reads deliver all of them once their
/// destinations have room for all.
pub proof fn lemma_fifo(cap: nat, chunks: Seq<Seq<u8>>, rooms: Seq<nat>)
    requires
        chunks.flatten().len() <= cap,
    ensures
        after_writes(Seq::empty(), cap, chunks) == chunks.flatten(),
        all_bytes_read(after_writes(Seq::empty(), cap, chunks), rooms) == chunks.flatten().take(
            read_len(chunks.flatten().len(), total_room(rooms)) as int,
        ),
        total_room(rooms) >= chunks.flatten().len() ==> all_bytes_read(
            after_writes(Seq::empty(), cap, chunks),
            rooms,
        ) == chunks.flatten(),
{
    lemma_writes_append(Seq::empty(), cap, chunks);
    assert(Seq::<u8>::empty() + chunks.flatten() =~= chunks.flatten());
    lemma_reads_take_front(chunks.flatten(), rooms);
    assert(chunks.flatten().take(chunks.flatten().len() as int) =~= chunks.flatten());
}

/// A buffer filled to its capacity takes no further byte: a write of one
/// more has to wait and leaves the buffer as it is. Once a read has taken at
/// least one byte, the write goes through.
pub proof fn lemma_full_buffer_blocks(cap: nat, bytes: Seq<u8>, more: Seq<u8>, room: nat)
    requires
        0 < cap <= usize::MAX,
        bytes.len() == cap,
        more.len() == 1,
        room >= 1,
    ensures
        after_write(Seq::empty(), cap, bytes) == bytes,
        write_len(bytes.len(), cap, more.len()) == 0,
        write_step_of(bytes.len(), cap, more.len(), 0) == WriteStep::Yield,
        after_write(bytes, cap, more) == bytes,
        write_step_of(after_read(bytes, room).len(), cap, more.len(), 0) == WriteStep::Done(1),
        after_write(after_read(bytes, room), cap, more) == after_read(bytes, room) + more,
{
    assert(after_write(Seq::empty(), cap, bytes) =~= bytes);
    assert(after_write(bytes, cap, more) =~= bytes);
    assert(after_write(after_read(bytes, room), cap, more) =~= after_read(bytes, room) + more);
}

/// End of stream: with every write handle gone, a read whose destination
/// has room for all that is buffered takes it all, and the read after it
/// returns zero bytes instead of waiting.
pub proof fn lemma_end_of_stream(buffered: Seq<u8>, room: nat, next_room: nat)
    requires
        buffered.len() <= room,
        buffered.len() <= usize::MAX,
    ensures
        read_step_of(buffered.len(), room, true) == ReadStep::Done(buffered.len() as usize),
        bytes_read(buffered, room) == buffered,
        after_read(buffered, room) == Seq::<u8>::empty(),
        read_step_of(after_read(buffered, room).len(), next_room, true) == ReadStep::Done(0),
{
    assert(bytes_read(buffered, room) =~= buffered);
    assert(after_read(buffered, room) =~= Seq::<u8>::empty());
}

} // verus!
