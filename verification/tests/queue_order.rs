use rasterscope::queue::{Frame, FrameQueue, assemble_frame};

fn frame_of(tag: u16, len: usize) -> Frame {
    Frame::new(vec![tag; len])
}

#[test]
fn frames_come_out_in_order() {
    let mut q = FrameQueue::new(8);
    for tag in 0..5u16 {
        assert!(q.send(frame_of(tag, 4)).is_ok());
    }
    assert_eq!(q.len(), 5);
    for tag in 0..5u16 {
        let f = q.recv().unwrap();
        assert_eq!(f.samples, vec![tag; 4]);
    }
    assert!(q.recv().is_none());
}

#[test]
fn order_survives_beyond_capacity_in_waves() {
    // More frames than capacity, sent in waves with receives in between:
    // the order never changes and nothing is lost.
    let mut q = FrameQueue::new(3);
    let mut sent: u16 = 0;
    let mut got: u16 = 0;
    while got < 10 {
        while sent < 10 && q.send(frame_of(sent, 2)).is_ok() {
            sent += 1;
        }
        let f = q.recv().unwrap();
        assert_eq!(f.samples, vec![got; 2]);
        got += 1;
    }
}

#[test]
fn full_queue_is_a_pacing_violation_and_returns_the_frame() {
    let mut q = FrameQueue::new(2);
    assert!(q.send(frame_of(1, 3)).is_ok());
    assert!(q.send(frame_of(2, 3)).is_ok());
    match q.send(frame_of(3, 3)) {
        Ok(()) => panic!("queue accepted a frame past capacity"),
        Err(v) => assert_eq!(v.frame.samples, vec![3u16; 3]),
    }
    // Nothing was lost or reordered.
    assert_eq!(q.len(), 2);
    assert_eq!(q.capacity(), 2);
    assert_eq!(q.recv().unwrap().samples, vec![1u16; 3]);
    assert_eq!(q.recv().unwrap().samples, vec![2u16; 3]);
    assert!(q.recv().is_none());
}

#[test]
fn whole_bursts_assemble_into_one_frame() {
    let bursts = vec![vec![1u16, 2, 3], vec![4u16, 5, 6], vec![7u16, 8, 9]];
    let f = assemble_frame(&bursts, 3).unwrap();
    assert_eq!(f.samples, vec![1, 2, 3, 4, 5, 6, 7, 8, 9]);
    assert_eq!(f.len(), 9);
}

#[test]
fn a_short_burst_never_becomes_a_frame() {
    let bursts = vec![vec![1u16, 2, 3], vec![4u16, 5], vec![7u16, 8, 9]];
    assert!(assemble_frame(&bursts, 3).is_none());
    let too_long = vec![vec![1u16, 2, 3, 4]];
    assert!(assemble_frame(&too_long, 3).is_none());
    // An empty burst group is a valid (empty) frame: zero bursts, zero
    // samples.
    let none: Vec<Vec<u16>> = vec![];
    assert_eq!(assemble_frame(&none, 3).unwrap().len(), 0);
}

#[test]
fn drain_returns_everything_in_order() {
    let mut q = FrameQueue::new(4);
    for tag in 10..14u16 {
        assert!(q.send(frame_of(tag, 1)).is_ok());
    }
    let all = q.drain();
    assert_eq!(all.len(), 4);
    for (i, f) in all.iter().enumerate() {
        assert_eq!(f.samples, vec![10 + i as u16; 1]);
    }
    assert_eq!(q.len(), 0);
}
