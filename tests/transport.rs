use apz::controls::{Action, Effect};
use apz::timefmt::format_duration;
use apz::transport::{track_duration_ms, PlaybackState, Transport, VOLUME_FULL};

#[test]
fn volume_saturates_going_up() {
    let mut t = Transport::new(1000);
    t.set_volume(-50);
    for _ in 0..30 {
        t.set_volume(7);
        assert!(t.volume() <= VOLUME_FULL);
    }
    assert_eq!(t.volume(), 100);
}

#[test]
fn volume_saturates_going_down() {
    let mut t = Transport::new(1000);
    for _ in 0..40 {
        t.set_volume(-3);
        assert!(t.volume() <= VOLUME_FULL);
    }
    assert_eq!(t.volume(), 0);
    t.set_volume(i32::MIN);
    assert_eq!(t.volume(), 0);
    t.set_volume(i32::MAX);
    assert_eq!(t.volume(), 100);
}

#[test]
fn seek_past_end_finishes() {
    let mut t = Transport::new(10_000);
    assert_eq!(t.seek(25_000), 10_000);
    assert!(t.is_finished());
    assert_eq!(t.position(), t.duration());
}

#[test]
fn seek_before_start_clamps_to_zero() {
    let mut t = Transport::new(10_000);
    t.seek(3_000);
    assert_eq!(t.seek(-5_000), 0);
    assert_eq!(t.position(), 0);
    assert!(!t.is_finished());
}

#[test]
fn seek_back_from_end_unfinishes() {
    let mut t = Transport::new(10_000);
    t.seek(i64::MAX);
    assert!(t.is_finished());
    assert_eq!(t.seek(-4_000), 6_000);
    assert!(!t.is_finished());
}

#[test]
fn ten_second_track_restarts_and_finishes() {
    let duration = track_duration_ms(441_000, 44_100, 1);
    assert_eq!(duration, 10_000);
    let mut t = Transport::new(duration);
    t.seek(4_000);
    t.restart();
    assert_eq!(t.position(), 0);
    assert_eq!(t.state(), PlaybackState::Playing);
    for _ in 0..100 {
        t.advance(100);
    }
    assert!(t.is_finished());
    t.advance(500);
    assert!(t.is_finished());
    assert_eq!(t.position(), 10_000);
}

#[test]
fn paused_transport_does_not_advance() {
    let mut t = Transport::new(10_000);
    t.pause();
    t.advance(20_000);
    assert_eq!(t.position(), 0);
    assert!(!t.is_finished());
    t.toggle();
    t.advance(2_500);
    assert_eq!(t.position(), 2_500);
}

#[test]
fn play_and_pause_are_idempotent() {
    let mut t = Transport::new(10);
    t.play();
    t.play();
    assert_eq!(t.state(), PlaybackState::Playing);
    t.pause();
    t.pause();
    assert_eq!(t.state(), PlaybackState::Paused);
}

#[test]
fn track_duration_counts_frames() {
    assert_eq!(track_duration_ms(88_200, 44_100, 2), 1_000);
    assert_eq!(track_duration_ms(44_099, 44_100, 1), 999);
    assert_eq!(track_duration_ms(u64::MAX, 1, 1), u64::MAX);
}

#[test]
fn reported_position_is_clamped() {
    let mut t = Transport::new(5_000);
    t.sync_position(1_234, false);
    assert_eq!(t.position(), 1_234);
    t.sync_position(9_999, false);
    assert_eq!(t.position(), 5_000);
    assert!(!t.is_finished());
    t.sync_position(4_000, true);
    assert!(t.is_finished());
    assert_eq!(t.position(), 5_000);
}

#[test]
fn actions_map_to_effects() {
    let mut t = Transport::new(60_000);
    assert_eq!(t.apply(Action::PlayPauseToggle), Effect::Suspend);
    assert_eq!(t.apply(Action::PlayPauseToggle), Effect::Resume);
    assert_eq!(t.apply(Action::SeekForward(5_000)), Effect::SeekTo(5_000));
    assert_eq!(t.apply(Action::SeekBackward(9_000)), Effect::SeekTo(0));
    assert_eq!(t.apply(Action::VolumeDown(5)), Effect::SetVolume(95));
    assert_eq!(t.apply(Action::VolumeUp(50)), Effect::SetVolume(100));
    assert_eq!(t.apply(Action::Restart), Effect::Restart);
    assert_eq!(t.apply(Action::Continue), Effect::Nothing);
    assert_eq!(t.apply(Action::Quit), Effect::Quit);
}

#[test]
fn durations_format_as_minutes_and_seconds() {
    assert_eq!(format_duration(0), "00:00");
    assert_eq!(format_duration(65), "01:05");
    assert_eq!(format_duration(3_599), "59:59");
    assert_eq!(format_duration(6_000), "100:00");
}
