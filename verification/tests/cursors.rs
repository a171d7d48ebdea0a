use vmcircbuffer::channel::Channel;
use vmcircbuffer::position::Position;

#[test]
fn position_lengths_and_offsets() {
    let mut p = Position::new(8);
    assert_eq!(p.read_len(), 0);
    assert_eq!(p.write_len(), 8);
    assert_eq!(p.write_offset(), 0);
    assert_eq!(p.read_offset(), 0);
    p.produce(5);
    assert_eq!(p.read_len(), 5);
    assert_eq!(p.write_len(), 3);
    assert_eq!(p.write_offset(), 5);
    assert_eq!(p.read_offset(), 0);
    p.consume(4);
    assert_eq!(p.read_len(), 1);
    assert_eq!(p.write_len(), 7);
    assert_eq!(p.read_offset(), 4);
    assert_eq!(p.write_offset_len(), (5, 7));
    assert_eq!(p.read_offset_len(), (4, 1));
}

#[test]
fn position_wraps_at_word_boundary() {
    // The cursors wrap at the word width without error; the derived lengths
    // and offsets stay exact across the wrap because the capacity is a power
    // of two.
    let mut p = Position {
        write: usize::MAX,
        read: usize::MAX - 5,
        capacity: 8,
    };
    assert_eq!(p.read_len(), 5);
    assert_eq!(p.write_len(), 3);
    assert_eq!(p.write_offset(), usize::MAX & 7);
    assert_eq!(p.read_offset(), (usize::MAX - 5) & 7);
    p.produce(3);
    assert_eq!(p.write, 2);
    assert_eq!(p.read_len(), 8);
    assert_eq!(p.write_len(), 0);
    p.consume(8);
    assert_eq!(p.read_len(), 0);
    assert_eq!(p.read, 2);
}

#[test]
fn round_trip_at_every_offset() {
    // Writing and draining a run that is longer than the distance to the
    // physical end returns the same sequence from every starting offset.
    for start in 0..16usize {
        let mut c: Channel<u32> = Channel::new(8);
        let pad = vec![0u32; 1];
        let mut sink = vec![0u32; 1];
        for _ in 0..start {
            assert_eq!(c.write(&pad), 1);
            assert_eq!(c.read(&mut sink), 1);
        }
        let data: Vec<u32> = (100..107u32).collect();
        assert_eq!(c.write(&data), 7);
        let mut out = vec![0u32; 7];
        assert_eq!(c.read(&mut out), 7);
        assert_eq!(out, data);
    }
}

#[test]
fn empty_transfers() {
    let mut c: Channel<u32> = Channel::new(4);
    let nothing: Vec<u32> = Vec::new();
    assert_eq!(c.write(&nothing), 0);
    let mut empty_out: Vec<u32> = Vec::new();
    assert_eq!(c.read(&mut empty_out), 0);
    assert_eq!(c.readable_view(), Vec::<u32>::new());
    c.produce(0);
    c.consume(0);
    assert_eq!(c.read_len(), 0);
}
