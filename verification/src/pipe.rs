//! The two ends of a pipe.
//!
//! Both ends share one ring buffer behind a spin lock. What the buffer holds
//! when an end takes the lock depends on every other holder of the pipe, so
//! the contracts here say what holds whatever it held; what a round does to a
//! given buffer is stated on `PipeRingBuffer`.
//!
//! A read or a write that cannot go on gives the processor away and tries
//! again later. Giving the processor away is the caller's part: `read_step`
//! and `write_step` each run one round under the lock, release it, and say
//! what to do next.

use crate::ring_buffer::{
    read_len, read_step_on, write_step_of, PipeRingBuffer, ReadStep, WriteStep,
};
use spin::Mutex;
use std::sync::{Arc, Weak};
use vstd::prelude::*;

verus! {

/// One end of a pipe: a capability to read or to write, and a share of the
/// buffer.
#[verifier::reject_recursive_types(C)]
pub struct Pipe<const C: usize> {
    readable: bool,
    writable: bool,
    buffer: Arc<Mutex<PipeRingBuffer<C>>>,
}

/// A non-owning reference to the write end of a pipe.
///
/// It holds a `std::sync::Weak`, a type that the verifier cannot take in a
/// field (it has an allocator parameter), so the whole struct is opaque.
#[verifier::external_body]
pub struct WriteEndRef<const C: usize> {
    weak: Weak<Pipe<C>>,
}

impl<const C: usize> WriteEndRef<C> {
    /// `Arc::downgrade`: a weak pointer to the same allocation. It keeps no
    /// owner alive. The reference is opaque, so nothing is claimed of it.
    #[verifier::external_body]
    pub(crate) fn downgrade(write_end: &Arc<Pipe<C>>) -> (end: Self) {
        WriteEndRef { weak: Arc::downgrade(write_end) }
    }

    /// `Weak::upgrade`: an owning handle if an owner is still alive, `None`
    /// once all are gone. Which of the two depends on what the other owners
    /// have done, so nothing is claimed of the result.
    #[verifier::external_body]
    pub(crate) fn upgrade(&self) -> (owner: Option<Arc<Pipe<C>>>) {
        self.weak.upgrade()
    }
}

impl<const C: usize> Pipe<C> {
    pub closed spec fn spec_readable(&self) -> bool {
        self.readable
    }

    pub closed spec fn spec_writable(&self) -> bool {
        self.writable
    }

    /// The buffer that this end shares.
    pub closed spec fn buffer(&self) -> Arc<Mutex<PipeRingBuffer<C>>> {
        self.buffer
    }

    /// The read end of the pipe over `buffer`.
    pub fn read_end_with_buffer(buffer: Arc<Mutex<PipeRingBuffer<C>>>) -> (end: Self)
        ensures
            end.readable(),
            !end.writable(),
            end.buffer() == buffer,
    {
        Self { readable: true, writable: false, buffer }
    }

    /// The write end of the pipe over `buffer`.
    pub fn write_end_with_buffer(buffer: Arc<Mutex<PipeRingBuffer<C>>>) -> (end: Self)
        ensures
            !end.readable(),
            end.writable(),
            end.buffer() == buffer,
    {
        Self { readable: false, writable: true, buffer }
    }

    /// Whether this end may read.
    #[verifier::when_used_as_spec(spec_readable)]
    pub fn readable(&self) -> (yes: bool)
        ensures
            yes == self.spec_readable(),
    {
        self.readable
    }

    /// Whether this end may write.
    #[verifier::when_used_as_spec(spec_writable)]
    pub fn writable(&self) -> (yes: bool)
        ensures
            yes == self.spec_writable(),
    {
        self.writable
    }

    /// One step of a read into `dest`.
    ///
    /// Takes the lock, runs one step of the read on the buffer as it is
    /// then, and releases the lock. What the buffer holds is not known
    /// here, but it holds at most `C` bytes, and the step and `dest` are
    /// what the step gives on those: the bytes read are at the front of
    /// `dest`, and the rest of `dest` is as it was.
    pub fn read_step(&self, dest: &mut [u8]) -> (step: ReadStep)
        requires
            self.readable(),
        ensures
            final(dest)@.len() == old(dest)@.len(),
            exists|buffered: Seq<u8>|
                buffered.len() <= C && #[trigger] read_step_on(
                    buffered,
                    old(dest)@,
                    final(dest)@,
                    step,
                ),
            match step {
                ReadStep::Done(n) => n <= C && n <= old(dest)@.len() && final(dest)@.skip(n as int)
                    == old(dest)@.skip(n as int),
                ReadStep::Yield => final(dest)@ == old(dest)@,
                ReadStep::Unbound => final(dest)@ == old(dest)@,
            },
    {
        let mut ring_buffer = self.buffer.lock();
        let ring: &mut PipeRingBuffer<C> = &mut *ring_buffer;
        let ghost buffered = ring@;
        let ghost before = dest@;
        let step = ring.read_step(dest);
        proof {
            let n = read_len(buffered.len(), before.len()) as int;
            assert(dest@.skip(n) =~= before.skip(n));
            if buffered.len() == 0 {
                assert(dest@ =~= before);
            }
            assert(read_step_on(buffered, before, dest@, step));
        }
        step
    }

    /// One round of a write of `src`, of which `written` bytes went in
    /// during earlier rounds.
    ///
    /// Takes the lock, appends what the buffer has room for, and releases
    /// the lock. With nothing left to write the write is over at once,
    /// whatever the buffer holds.
    pub fn write_step(&self, src: &[u8], written: usize) -> (step: WriteStep)
        requires
            self.writable(),
            written <= src@.len(),
        ensures
            written == src@.len() ==> step == WriteStep::Done(written),
            exists|buffered: Seq<u8>|
                buffered.len() <= C && step == #[trigger] write_step_of(
                    buffered.len(),
                    C as nat,
                    src@.len(),
                    written as nat,
                ),
            match step {
                WriteStep::Done(n) => n == src@.len(),
                WriteStep::Again(n) => written < n < src@.len(),
                WriteStep::Yield => written < src@.len(),
            },
    {
        let mut ring_buffer = self.buffer.lock();
        let ring: &mut PipeRingBuffer<C> = &mut *ring_buffer;
        assert(src@.len() == src.len());
        let ghost buffered = ring@;
        let step = ring.write_round(src, written);
        assert(step == write_step_of(buffered.len(), C as nat, src@.len(), written as nat));
        step
    }

    /// Whether a read of one byte would succeed at once: what the buffer
    /// answers, as it is when the lock is taken. The buffer is left as it
    /// is.
    pub fn r_ready(&self) -> bool {
        let ring_buffer = self.buffer.lock();
        let ring: &PipeRingBuffer<C> = &*ring_buffer;
        ring.r_ready()
    }

    /// Whether a write of one byte would succeed at once: what the buffer
    /// answers, as it is when the lock is taken. The buffer is left as it
    /// is.
    pub fn w_ready(&self) -> bool {
        let ring_buffer = self.buffer.lock();
        let ring: &PipeRingBuffer<C> = &*ring_buffer;
        ring.w_ready()
    }
}

/// Whether a read or a write gives up after a yield that returned `status`:
/// a negative status says that the caller is being torn down.
pub fn yield_says_stop(status: isize) -> (stop: bool)
    ensures
        stop == (status < 0),
{
    status < 0
}

/// A fresh pipe: its read end and its write end, in this order.
pub fn make_pipe<const C: usize>() -> (ends: (Arc<Pipe<C>>, Arc<Pipe<C>>))
    requires
        C > 0,
    ensures
        ends.0.readable() && !ends.0.writable(),
        ends.1.writable() && !ends.1.readable(),
        ends.0.buffer() == ends.1.buffer(),
{
    let buffer = Arc::new(Mutex::new(PipeRingBuffer::new()));
    let read_end = Arc::new(Pipe::read_end_with_buffer(buffer.clone()));
    let write_end = Arc::new(Pipe::write_end_with_buffer(buffer.clone()));
    let mut ring_buffer = buffer.lock();
    ring_buffer.set_write_end(&write_end);
    (read_end, write_end)
}

} // verus!
