use sona_calls::audio::ring::FrameRing;

#[test]
fn ring_drops_the_oldest_frame_not_the_newest() {
    let mut ring = FrameRing::<u8>::new(3);
    for i in 0..5u8 {
        ring.push(i);
    }
    assert_eq!(ring.len(), 3);
    // 0 and 1 were evicted; the freshest audio survives.
    assert_eq!(ring.pop(), Some(2));
    assert_eq!(ring.pop(), Some(3));
    assert_eq!(ring.pop(), Some(4));
    assert_eq!(ring.pop(), None);
}
