use termplay::producer::FrameCounter;
use termplay::producer::FrameProducer;
use termplay::producer::ProducerMessage;

#[test]
fn first_delivery_sends_initialize_then_frame_ready() {
    let mut p = FrameProducer::new();
    p.subscribe();
    p.deliver(vec![1, 2, 3, 4], 1, 1);
    assert_eq!(
        p.drain(),
        Some(ProducerMessage::Initialize { width: 1, height: 1 })
    );
    assert_eq!(p.drain(), Some(ProducerMessage::FrameReady));
    assert_eq!(p.drain(), None);
    let c = p.counter();
    assert_eq!((c.dropped, c.not_dropped), (0, 1));
}

#[test]
fn frame_returns_most_recently_delivered_bytes() {
    let mut p = FrameProducer::new();
    p.subscribe();
    p.deliver(vec![1, 1], 1, 1);
    assert_eq!(p.frame().as_slice(), &[1, 1]);
    p.deliver(vec![2, 2], 1, 1);
    // Dropped or not, the shared slot always holds the latest bytes.
    assert_eq!(p.frame().as_slice(), &[2, 2]);
    p.drain();
    p.drain();
    p.deliver(vec![3, 3], 1, 1);
    assert_eq!(p.frame().as_slice(), &[3, 3]);
}

#[test]
fn resolution_change_queues_initialize_before_frame_ready() {
    let mut p = FrameProducer::new();
    p.subscribe();
    p.deliver(vec![0; 4], 1, 1);
    while p.drain().is_some() {}
    p.deliver(vec![0; 16], 2, 2);
    assert_eq!(
        p.drain(),
        Some(ProducerMessage::Initialize { width: 2, height: 2 })
    );
    assert_eq!(p.drain(), Some(ProducerMessage::FrameReady));
    // Same resolution again: no further Initialize.
    p.drain();
    p.deliver(vec![0; 16], 2, 2);
    assert_eq!(p.drain(), Some(ProducerMessage::FrameReady));
}

#[test]
fn saturated_channel_drops_frames_but_counts_all() {
    // Five deliveries; the consumer reads nothing between the second and
    // the fourth, so the capacity-one channel saturates.
    let mut p = FrameProducer::new();
    p.subscribe();
    p.deliver(vec![1], 1, 1); // delivered; queue: Initialize, FrameReady
    while p.drain().is_some() {}
    p.deliver(vec![2], 1, 1); // delivered
    p.deliver(vec![3], 1, 1); // dropped: FrameReady still pending
    p.deliver(vec![4], 1, 1); // dropped
    while p.drain().is_some() {}
    p.deliver(vec![5], 1, 1); // delivered
    let c = p.counter();
    assert!(c.dropped >= 2);
    assert!(c.not_dropped <= 3);
    assert_eq!(c.dropped + c.not_dropped, 5);
    assert_eq!(p.frame().as_slice(), &[5]);
}

#[test]
fn every_delivery_counts_exactly_once() {
    let mut p = FrameProducer::new();
    p.subscribe();
    for i in 0..100u8 {
        p.deliver(vec![i], 1, 1);
        if i % 3 == 0 {
            while p.drain().is_some() {}
        }
    }
    let c = p.counter();
    assert_eq!(c.dropped + c.not_dropped, 100);
}

#[test]
fn counter_summary_formats_percentage() {
    let mut out = Vec::new();
    FrameCounter { dropped: 1, not_dropped: 3 }.push_summary(&mut out);
    assert_eq!(out, b"dropped 1 frames of 4 (25.00%)".to_vec());

    let mut out = Vec::new();
    FrameCounter { dropped: 2, not_dropped: 1 }.push_summary(&mut out);
    assert_eq!(out, b"dropped 2 frames of 3 (66.66%)".to_vec());

    let mut out = Vec::new();
    FrameCounter { dropped: 0, not_dropped: 7 }.push_summary(&mut out);
    assert_eq!(out, b"dropped 0 frames of 7 (0.00%)".to_vec());
}

#[test]
fn counter_summary_with_no_frames_avoids_division() {
    let mut out = Vec::new();
    FrameCounter { dropped: 0, not_dropped: 0 }.push_summary(&mut out);
    assert_eq!(out, b"no frames processed".to_vec());
}
