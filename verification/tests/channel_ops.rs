use vmcircbuffer::channel::Channel;
use vmcircbuffer::rounding::{next_pow2, NearestMultiple};
use vmcircbuffer::vmcircbuffer::new;

#[test]
fn round_up_to_page_multiples() {
    assert_eq!(4000usize.round_up_to_multiple(4096), 4096);
    assert_eq!(4096usize.round_up_to_multiple(4096), 4096);
    assert_eq!(4097usize.round_up_to_multiple(4096), 8192);
    assert_eq!(1usize.round_up_to_multiple(1), 1);
    assert_eq!(7usize.round_up_to_multiple(4), 8);
}

#[test]
fn capacity_coercion() {
    // A requested capacity is rounded up to the next power of two; an exact
    // power of two is kept unchanged.
    assert_eq!(next_pow2(1000), 1024);
    assert_eq!(next_pow2(1024), 1024);
    assert_eq!(next_pow2(0), 1);
    assert_eq!(next_pow2(1), 1);
    assert_eq!(next_pow2(3), 4);
    let (w, r) = new::<u32>(1000);
    assert_eq!(w.capacity, 1024);
    assert_eq!(r.capacity, 1024);
    let (w, _r) = new::<u32>(1024);
    assert_eq!(w.capacity, 1024);
}

#[test]
fn core_round_trip_simple() {
    let mut c: Channel<u32> = Channel::new(8);
    assert_eq!(c.capacity(), 8);
    assert_eq!(c.read_len(), 0);
    assert_eq!(c.write_len(), 8);
    let n = c.write(&[10, 20, 30]);
    assert_eq!(n, 3);
    assert_eq!(c.read_len(), 3);
    assert_eq!(c.write_len(), 5);
    let mut out = vec![0u32; 3];
    let m = c.read(&mut out);
    assert_eq!(m, 3);
    assert_eq!(out, vec![10, 20, 30]);
    assert_eq!(c.read_len(), 0);
    assert_eq!(c.write_len(), 8);
}

#[test]
fn core_round_trip_across_wrap() {
    let mut c: Channel<u32> = Channel::new(8);
    // Move both cursors to offset 6 so the next transfer crosses the
    // physical end of the single-copy region.
    let n = c.write(&[0, 0, 0, 0, 0, 0]);
    assert_eq!(n, 6);
    let mut sink = vec![0u32; 6];
    assert_eq!(c.read(&mut sink), 6);
    // Now write five elements: offsets 6, 7, 0, 1, 2.
    let n = c.write(&[1, 2, 3, 4, 5]);
    assert_eq!(n, 5);
    let view = c.readable_view();
    assert_eq!(view, vec![1, 2, 3, 4, 5]);
    let mut out = vec![0u32; 5];
    assert_eq!(c.read(&mut out), 5);
    assert_eq!(out, vec![1, 2, 3, 4, 5]);
}

#[test]
fn core_bound_safety() {
    // A write never transfers more than the free space, a read never more
    // than what is committed, whatever the buffer sizes.
    let mut c: Channel<u32> = Channel::new(8);
    let big: Vec<u32> = (1..=20u32).collect();
    assert_eq!(c.write(&big), 8);
    assert_eq!(c.write(&big), 0);
    let mut out = vec![99u32; 20];
    assert_eq!(c.read(&mut out), 8);
    assert_eq!(&out[0..8], &[1, 2, 3, 4, 5, 6, 7, 8]);
    // The untransferred tail of the buffer is untouched.
    assert!(out[8..].iter().all(|&x| x == 99));
    assert_eq!(c.read(&mut out), 0);
}

#[test]
fn core_produce_consume_cursors() {
    let mut c: Channel<u32> = Channel::new(16);
    c.produce(5);
    assert_eq!(c.read_len(), 5);
    assert_eq!(c.write_len(), 11);
    c.consume(2);
    assert_eq!(c.read_len(), 3);
    assert_eq!(c.write_len(), 13);
    c.consume(3);
    assert_eq!(c.read_len(), 0);
    assert_eq!(c.write_len(), 16);
}

#[test]
fn handles_write_then_read() {
    let (mut w, mut r) = new::<u32>(8);
    let n = w.write(&[7, 8, 9]).unwrap();
    assert_eq!(n, 3);
    let view = r.as_slice();
    assert_eq!(view, vec![7, 8, 9]);
    let mut out = vec![0u32; 2];
    let m = r.read(&mut out).unwrap();
    assert_eq!(m, 2);
    assert_eq!(out, vec![7, 8]);
    let mut rest = vec![0u32; 5];
    let m = r.read(&mut rest).unwrap();
    assert_eq!(m, 1);
    assert_eq!(rest[0], 9);
}

#[test]
fn staged_fill_then_commit() {
    // Filling the writable window in place, one store at a time, then
    // committing exposes exactly the staged values — across the wrap point.
    let mut c: Channel<u32> = Channel::new(4);
    let mut sink = vec![0u32; 3];
    assert_eq!(c.write(&[0, 0, 0]), 3);
    assert_eq!(c.read(&mut sink), 3);
    // Cursors at offset 3: a three-element window wraps.
    c.set_writable(0, 41);
    c.set_writable(1, 42);
    c.set_writable(2, 43);
    c.produce(3);
    assert_eq!(c.readable_view(), vec![41, 42, 43]);
    let mut out = vec![0u32; 3];
    assert_eq!(c.read(&mut out), 3);
    assert_eq!(out, vec![41, 42, 43]);
}

#[test]
fn handles_produce_consume_bounds() {
    let (mut w, mut r) = new::<u32>(1000);
    assert!(w.produce(0));
    assert!(r.consume(0));
    assert!(w.produce(30));
    assert!(!r.consume(31));
    assert!(r.consume(30));
    assert!(!w.produce(1025));
    assert!(w.produce(1024));
    assert!(!w.produce(1));
    assert!(r.consume(1024));
}

#[test]
fn handles_short_write_is_normal() {
    let (mut w, mut r) = new::<f32>(4);
    let v = vec![100.0f32; 100];
    assert_eq!(w.write(v.as_slice()).unwrap(), 4);
    assert_eq!(w.write(v.as_slice()).unwrap(), 0);
    let mut out = vec![0.0f32; 4];
    assert_eq!(r.read_exact(&mut out).unwrap(), 4);
    assert_eq!(out, vec![100.0f32; 4]);
}

#[test]
fn read_exact_returns_full_count() {
    // The prelude of the blocking scenario: commit 30 pre-filled elements,
    // write 100 elements of value 100.0, and drain exactly the 130 available
    // ones with the exact variant; a short read never comes back.
    let (mut w, mut r) = new::<f32>(1024);
    assert_eq!(w.capacity, 1024);
    assert!(w.produce(30));
    let v = vec![100.0f32; 100];
    assert_eq!(w.write(v.as_slice()).unwrap(), 100);
    let mut out = vec![-1.0f32; 130];
    assert_eq!(r.read_exact(&mut out).unwrap(), 130);
    // The 30 committed-without-writing elements hold the region's fill.
    assert!(out[0..30].iter().all(|&x| x == 0.0));
    assert!(out[30..130].iter().all(|&x| x == 100.0));
    assert_eq!(r.as_slice().len(), 0);
}
