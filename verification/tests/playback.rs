use am_renderer::playback::{prefetch_after, PlaybackState, TickOutcome, PREFETCH_PAUSED, PREFETCH_PLAYING};

#[test]
fn seek_clamps_to_last_frame() {
    let mut s = PlaybackState::new();
    assert_eq!(s.current_frame, 0);
    assert!(!s.is_playing);
    assert_eq!(s.seek(999_999, 100), 99);
    assert_eq!(s.current_frame, 99);
    assert_eq!(s.seek(5, 100), 5);
    assert_eq!(s.seek(5, 0), 0);
    assert_eq!(s.seek(0, 1), 0);
}

#[test]
fn tick_advances_and_wraps() {
    let mut s = PlaybackState::new();
    // Paused: nothing happens.
    assert_eq!(s.tick(3), TickOutcome::Stopped);
    assert_eq!(s.current_frame, 0);
    assert!(s.play());
    assert!(!s.play());
    assert_eq!(s.tick(3), TickOutcome::Advanced(1));
    assert_eq!(s.tick(3), TickOutcome::Advanced(2));
    assert_eq!(s.tick(3), TickOutcome::Wrapped);
    assert_eq!(s.current_frame, 0);
    s.pause();
    assert_eq!(s.tick(3), TickOutcome::Stopped);
    assert_eq!(s.current_frame, 0);
}

#[test]
fn playback_loops_after_total_ticks() {
    let mut s = PlaybackState::new();
    s.seek(4, 7);
    s.play();
    for _ in 0..7 {
        s.tick(7);
    }
    assert_eq!(s.current_frame, 4);
}

#[test]
fn tick_on_empty_timeline_stays_at_zero() {
    let mut s = PlaybackState::new();
    s.play();
    assert_eq!(s.tick(0), TickOutcome::Wrapped);
    assert_eq!(s.current_frame, 0);
}

#[test]
fn prefetch_stops_at_end() {
    let mut s = PlaybackState::new();
    assert_eq!(s.prefetch_frames(0, 100), vec![1, 2, 3]);
    s.play();
    assert_eq!(s.prefetch_frames(0, 100), (1..=10).collect::<Vec<u32>>());
    assert_eq!(s.prefetch_frames(95, 100), vec![96, 97, 98, 99]);
    assert_eq!(s.prefetch_frames(99, 100), Vec::<u32>::new());
    assert_eq!(prefetch_after(u32::MAX - 1, u32::MAX, 10), Vec::<u32>::new());
    assert_eq!(prefetch_after(5, 3, 10), Vec::<u32>::new());
    assert_eq!(PREFETCH_PLAYING, 10);
    assert_eq!(PREFETCH_PAUSED, 3);
}
