use os_core::pipe::{make_pipe, yield_says_stop, Pipe};
use os_core::ring_buffer::{PipeRingBuffer, ReadStep, WriteStep, RING_BUFFER_SIZE};
use std::sync::Arc;

#[test]
fn ends_have_their_capabilities() {
    let (read_end, write_end) = make_pipe::<4>();
    assert!(read_end.readable());
    assert!(!read_end.writable());
    assert!(write_end.writable());
    assert!(!write_end.readable());
}

#[test]
fn ends_made_by_hand_have_their_capabilities() {
    let buffer = Arc::new(spin::Mutex::new(PipeRingBuffer::<4>::new()));
    let read_end = Pipe::read_end_with_buffer(buffer.clone());
    let write_end = Pipe::write_end_with_buffer(buffer.clone());
    assert!(read_end.readable() && !read_end.writable());
    assert!(write_end.writable() && !write_end.readable());
    assert_eq!(write_end.write_step(b"q", 0), WriteStep::Done(1));
    assert_eq!(buffer.lock().available_read(), 1);
}

#[test]
fn pipe_carries_bytes_from_the_write_end_to_the_read_end() {
    let (read_end, write_end) = make_pipe::<RING_BUFFER_SIZE>();
    assert_eq!(write_end.write_step(b"hello pipe", 0), WriteStep::Done(10));
    let mut dest = [0u8; 32];
    assert_eq!(read_end.read_step(&mut dest), ReadStep::Done(10));
    assert_eq!(&dest[..10], b"hello pipe");
    assert_eq!(&dest[10..], [0u8; 22]);
}

#[test]
fn pipe_capacity_four_scenario() {
    let (read_end, write_end) = make_pipe::<4>();
    assert_eq!(write_end.write_step(b"AB", 0), WriteStep::Done(2));
    assert!(read_end.r_ready());
    assert!(write_end.w_ready());
    let mut one = [0u8; 1];
    assert_eq!(read_end.read_step(&mut one), ReadStep::Done(1));
    assert_eq!(one, [b'A']);
    assert_eq!(write_end.write_step(b"CDE", 0), WriteStep::Done(3));
    assert!(!write_end.w_ready());
    let mut rest = [0u8; 4];
    assert_eq!(read_end.read_step(&mut rest), ReadStep::Done(4));
    assert_eq!(&rest, b"BCDE");
    assert!(!read_end.r_ready());
}

#[test]
fn read_of_two_bytes_out_of_five_leaves_three() {
    let (read_end, write_end) = make_pipe::<8>();
    assert_eq!(write_end.write_step(b"12345", 0), WriteStep::Done(5));
    let mut two = [0u8; 2];
    assert_eq!(read_end.read_step(&mut two), ReadStep::Done(2));
    assert_eq!(&two, b"12");
    let mut more = [0u8; 8];
    assert_eq!(read_end.read_step(&mut more), ReadStep::Done(3));
    assert_eq!(&more[..3], b"345");
}

#[test]
fn readiness_follows_the_buffer() {
    let (read_end, write_end) = make_pipe::<2>();
    assert!(!read_end.r_ready());
    assert!(write_end.w_ready());
    assert_eq!(write_end.write_step(b"a", 0), WriteStep::Done(1));
    assert!(read_end.r_ready());
    assert!(write_end.w_ready());
    assert_eq!(write_end.write_step(b"b", 0), WriteStep::Done(1));
    assert!(read_end.r_ready());
    assert!(!write_end.w_ready());
}

#[test]
fn read_on_an_empty_pipe_waits_for_the_writer() {
    let (read_end, write_end) = make_pipe::<4>();
    let mut dest = [7u8; 4];
    assert_eq!(read_end.read_step(&mut dest), ReadStep::Yield);
    assert_eq!(dest, [7u8; 4]);
    assert_eq!(write_end.write_step(b"z", 0), WriteStep::Done(1));
    assert_eq!(read_end.read_step(&mut dest), ReadStep::Done(1));
    assert_eq!(dest, [b'z', 7, 7, 7]);
}

#[test]
fn read_after_the_writer_is_gone_drains_and_then_returns_zero() {
    let (read_end, write_end) = make_pipe::<4>();
    assert_eq!(write_end.write_step(b"end", 0), WriteStep::Done(3));
    drop(write_end);
    let mut dest = [0u8; 8];
    assert_eq!(read_end.read_step(&mut dest), ReadStep::Done(3));
    assert_eq!(&dest[..3], b"end");
    assert_eq!(read_end.read_step(&mut dest), ReadStep::Done(0));
    assert_eq!(read_end.read_step(&mut dest), ReadStep::Done(0));
}

#[test]
fn read_on_a_pipe_never_written_returns_zero_once_the_writer_is_gone() {
    let (read_end, write_end) = make_pipe::<4>();
    drop(write_end);
    let mut dest = [0u8; 4];
    assert_eq!(read_end.read_step(&mut dest), ReadStep::Done(0));
}

#[test]
fn second_handle_to_the_write_end_keeps_the_stream_open() {
    let (read_end, write_end) = make_pipe::<4>();
    let other = write_end.clone();
    drop(write_end);
    let mut dest = [0u8; 4];
    assert_eq!(read_end.read_step(&mut dest), ReadStep::Yield);
    drop(other);
    assert_eq!(read_end.read_step(&mut dest), ReadStep::Done(0));
}

#[test]
fn read_on_a_buffer_without_a_write_end_says_so() {
    let buffer = Arc::new(spin::Mutex::new(PipeRingBuffer::<4>::new()));
    let read_end = Pipe::read_end_with_buffer(buffer.clone());
    let mut dest = [3u8; 2];
    assert_eq!(read_end.read_step(&mut dest), ReadStep::Unbound);
    assert_eq!(dest, [3u8; 2]);
    buffer.lock().write_byte(8);
    assert_eq!(read_end.read_step(&mut dest), ReadStep::Done(1));
    assert_eq!(dest, [8, 3]);
}

#[test]
fn write_to_a_full_pipe_waits_until_a_byte_is_read() {
    let (read_end, write_end) = make_pipe::<4>();
    assert_eq!(write_end.write_step(b"full", 0), WriteStep::Done(4));
    assert_eq!(write_end.write_step(b"+", 0), WriteStep::Yield);
    let mut one = [0u8; 1];
    assert_eq!(read_end.read_step(&mut one), ReadStep::Done(1));
    assert_eq!(write_end.write_step(b"+", 0), WriteStep::Done(1));
    let mut dest = [0u8; 4];
    assert_eq!(read_end.read_step(&mut dest), ReadStep::Done(4));
    assert_eq!(&dest, b"ull+");
}

#[test]
fn write_longer_than_the_buffer_goes_through_with_a_reader() {
    let (read_end, write_end) = make_pipe::<4>();
    let src: Vec<u8> = (0..23u8).collect();
    let mut written = 0;
    let mut got = Vec::new();
    let total = loop {
        match write_end.write_step(&src, written) {
            WriteStep::Done(n) => break n,
            WriteStep::Again(n) => written = n,
            WriteStep::Yield => {
                assert!(!yield_says_stop(0));
                let mut chunk = [0u8; 3];
                if let ReadStep::Done(n) = read_end.read_step(&mut chunk) {
                    got.extend_from_slice(&chunk[..n]);
                }
            }
        }
    };
    assert_eq!(total, 23);
    drop(write_end);
    loop {
        let mut chunk = [0u8; 3];
        match read_end.read_step(&mut chunk) {
            ReadStep::Done(0) => break,
            ReadStep::Done(n) => got.extend_from_slice(&chunk[..n]),
            other => panic!("unexpected step {:?}", other),
        }
    }
    assert_eq!(got, src);
}

#[test]
fn write_of_nothing_returns_at_once() {
    let (_read_end, write_end) = make_pipe::<1>();
    assert_eq!(write_end.write_step(b"", 0), WriteStep::Done(0));
    assert_eq!(write_end.write_step(b"x", 0), WriteStep::Done(1));
    assert_eq!(write_end.write_step(b"", 0), WriteStep::Done(0));
}

#[test]
fn buffer_goes_away_with_its_two_ends() {
    let buffer = Arc::new(spin::Mutex::new(PipeRingBuffer::<4>::new()));
    let read_end = Arc::new(Pipe::read_end_with_buffer(buffer.clone()));
    let write_end = Arc::new(Pipe::write_end_with_buffer(buffer.clone()));
    buffer.lock().set_write_end(&write_end);
    assert_eq!(Arc::strong_count(&buffer), 3);
    assert_eq!(Arc::strong_count(&write_end), 1);
    drop(write_end);
    assert_eq!(Arc::strong_count(&buffer), 2);
    drop(read_end);
    assert_eq!(Arc::strong_count(&buffer), 1);
}

#[test]
fn negative_yield_status_says_stop() {
    assert!(yield_says_stop(-1));
    assert!(yield_says_stop(isize::MIN));
    assert!(!yield_says_stop(0));
    assert!(!yield_says_stop(1));
    assert!(!yield_says_stop(isize::MAX));
}

#[test]
fn write_probe_is_false_on_a_full_pipe_until_a_byte_is_read() {
    let (read_end, write_end) = make_pipe::<4>();
    assert_eq!(write_end.write_step(b"full", 0), WriteStep::Done(4));
    assert!(!write_end.w_ready());
    assert!(!read_end.w_ready());
    let mut one = [0u8; 1];
    assert_eq!(read_end.read_step(&mut one), ReadStep::Done(1));
    assert!(write_end.w_ready());
    assert!(read_end.r_ready());
}

#[test]
fn probes_leave_the_buffer_as_it_is() {
    let (read_end, write_end) = make_pipe::<4>();
    assert_eq!(write_end.write_step(b"ab", 0), WriteStep::Done(2));
    for _ in 0..3 {
        assert!(read_end.r_ready());
        assert!(write_end.w_ready());
    }
    let mut dest = [0u8; 4];
    assert_eq!(read_end.read_step(&mut dest), ReadStep::Done(2));
    assert_eq!(&dest[..2], b"ab");
    assert!(!read_end.r_ready());
}
