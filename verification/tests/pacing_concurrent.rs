use rasterscope::queue::Frame;

#[test]
fn blocking_producer_preserves_order_across_threads() {
    // The cross-thread hand-off stage: a bounded channel of capacity 2,
    // a producer that blocks whenever the consumer falls behind, and far
    // more frames than capacity. Every frame arrives, in order.
    let (tx, rx) = crossbeam::channel::bounded::<Frame>(2);
    crossbeam::scope(|scope| {
        scope.spawn(move |_| {
            for tag in 0..50u16 {
                // `send` blocks on a full channel: backpressure, not loss.
                tx.send(Frame::new(vec![tag; 8])).unwrap();
            }
        });
        for tag in 0..50u16 {
            let f = rx.recv().unwrap();
            assert_eq!(f.samples, vec![tag; 8]);
        }
        assert!(rx.recv().is_err());
    })
    .unwrap();
}
