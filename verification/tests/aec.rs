use sona_calls::aec::reference::{Pull, RefReader, Reference, MAX_LAG_SAMPLES, RING};
use sona_calls::aec::schedule::{
    bit_reversal, hist_index, is_rival, lag_at, lag_step, read_window, reorder, window_start, LagStep,
    Schedule, DELAY_WIN, EST_INTERVAL_HOPS, EXCLUDE, FRAME, HIST, HOP, LATENCY,
};
use sona_calls::audio::ring::SAMPLES_PER_FRAME;

#[test]
fn reader_reseats_when_the_streams_drift_apart() {
    let mut r = Reference::new(0.0f32);
    let token = r.claim();
    r.publish(token, &vec![0.5; SAMPLES_PER_FRAME * 4]);
    let mut reader = RefReader::new();
    let mut out = vec![0.0f32; SAMPLES_PER_FRAME];
    // First pull seats the cursor: not aligned yet, and it lands on the newest block.
    assert!(!reader.pull(&r, &mut out));
    assert!(out.iter().all(|&v| v == 0.5));
    // Writer keeps up: alignment holds.
    r.publish(token, &vec![0.25; SAMPLES_PER_FRAME]);
    assert!(reader.pull(&r, &mut out));
    // Writer runs past the search range (capture stalled): re-seat, drop the lock.
    r.publish(token, &vec![0.1; MAX_LAG_SAMPLES + 2 * SAMPLES_PER_FRAME]);
    assert!(!reader.pull(&r, &mut out));
    // Writer stops entirely: the reader would pass it, so re-seat again.
    assert!(!reader.pull(&r, &mut out));
}

#[test]
fn a_stale_publisher_cannot_write_over_the_live_reference() {
    let mut r = Reference::new(0.0f32);
    let old = r.claim();
    let new = r.claim();
    r.publish(old, &[1.0; 64]);
    assert_eq!(r.wpos(), 0, "the superseded session still wrote");
    r.publish(new, &[1.0; 64]);
    assert_eq!(r.wpos(), 64);
    r.publish_silence(old, 64);
    assert_eq!(r.wpos(), 64);
    r.publish_silence(new, 64);
    assert_eq!(r.wpos(), 128);
}

#[test]
fn a_read_gives_back_what_was_published() {
    let mut r = Reference::new(0i16);
    let token = r.claim();
    r.publish(token, &[1, 2, 3, 4]);
    r.publish_silence(token, 2);
    let mut out = vec![9i16; 8];
    r.read(1, &mut out);
    assert_eq!(out, vec![2, 3, 4, 0, 0, 0, 0, 0]);
    let long: Vec<i16> = (0..RING).map(|i| (i % 1000) as i16).collect();
    r.publish(token, &long);
    let mut newest = vec![0i16; 2];
    r.read(6, &mut newest);
    assert_eq!(newest, vec![0, 1]);
    r.read(5, &mut newest);
    assert_eq!(newest, vec![0, 0]);
}

#[test]
fn a_pull_says_which_way_alignment_was_lost() {
    let mut r = Reference::new(0i16);
    let token = r.claim();
    let mut reader = RefReader::new();
    let mut out = vec![0i16; 10];
    assert!(reader.ready(&r, 10));
    assert!(matches!(reader.pull_detail(&r, &mut out), Pull::ReseatBehind));
    assert!(!reader.ready(&r, 10));
    assert!(matches!(reader.pull_detail(&r, &mut out), Pull::ReseatAhead));
    r.publish(token, &[7; 20]);
    assert!(matches!(reader.pull_detail(&r, &mut out), Pull::Aligned));
    assert_eq!(out, vec![7; 10]);
}

#[test]
fn eight_numbers_are_reordered_by_their_reversed_bits() {
    let order = bit_reversal(3);
    assert_eq!(order, vec![0, 4, 2, 6, 1, 5, 3, 7]);
    let mut values = vec![10, 11, 12, 13, 14, 15, 16, 17];
    reorder(&mut values, &order);
    assert_eq!(values, vec![10, 14, 12, 16, 11, 15, 13, 17]);
    reorder(&mut values, &order);
    assert_eq!(values, vec![10, 11, 12, 13, 14, 15, 16, 17]);
}

#[test]
fn every_frame_brings_fifteen_hops_and_one_frame_out() {
    let mut schedule = Schedule::new();
    let mut estimates = 0;
    for frame in 0..26 {
        schedule.ingest();
        let mut hops = 0;
        while schedule.hop_due() {
            if schedule.hop() {
                estimates += 1;
            }
            hops += 1;
        }
        assert_eq!(hops, FRAME / HOP);
        schedule.drain();
        assert_eq!(schedule.pos, 256 + ((frame + 1) * FRAME) as u64);
    }
    // 26 frames are 390 hops.
    assert_eq!(estimates, 390 / EST_INTERVAL_HOPS);
    assert_eq!(LATENCY, 256);
}

#[test]
fn the_delay_is_estimated_over_windows_the_history_holds() {
    let mut schedule = Schedule::new();
    assert!(schedule.estimate_windows().is_none());
    while schedule.pos < (DELAY_WIN + MAX_LAG_SAMPLES) as u64 {
        schedule.ingest();
        while schedule.hop_due() {
            schedule.hop();
        }
        schedule.drain();
    }
    assert!(schedule.estimate_windows().is_some());
    assert_eq!(hist_index(HIST as u64 + 3), 3);
    assert_eq!(window_start(100), 0);
    assert_eq!(window_start(256), 0);
    assert_eq!(window_start(300), 44);
}

#[test]
fn lags_count_down_and_rivals_keep_their_distance() {
    assert_eq!(lag_at(0, 100), 100);
    assert_eq!(lag_at(100, 100), 0);
    assert_eq!(read_window(5, 10, 100), (5, 15));
    assert_eq!(read_window(95, 10, 100), (95, 100));
    assert!(!is_rival(1000, 1000 + EXCLUDE));
    assert!(is_rival(1000, 1001 + EXCLUDE));
}

#[test]
fn a_lag_is_followed_only_once_it_is_confirmed() {
    assert_eq!(lag_step(false, None, None), LagStep::Ignore);
    assert_eq!(lag_step(true, Some(false), None), LagStep::Track);
    assert_eq!(lag_step(true, Some(true), None), LagStep::Remember);
    assert_eq!(lag_step(true, Some(true), Some(false)), LagStep::Remember);
    assert_eq!(lag_step(true, Some(true), Some(true)), LagStep::Restart);
}
