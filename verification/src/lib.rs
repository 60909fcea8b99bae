//! The concurrency and inter-process-communication core of a small kernel:
//! a FIFO task scheduler, a bounded-buffer pipe, and the frame arithmetic
//! that a DMA-capable block driver asks of the kernel.

pub mod dma;
pub mod manager;
pub mod pipe;
pub mod ring_buffer;
pub mod stream;
pub mod sync;
