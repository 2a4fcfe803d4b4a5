use audio_core::clock::PlaybackClock;
use audio_core::player::track_duration_ms;
use audio_core::player::AudioPlayer;
use audio_core::player::DEFAULT_TRACK_DURATION_MS;

#[test]
fn paused_time_does_not_accumulate() {
    let mut c = PlaybackClock::new();
    c.start(0);
    c.pause(100);
    c.resume(150);
    assert_eq!(c.elapsed(250), 200);
}

#[test]
fn elapsed_is_constant_while_paused() {
    let mut c = PlaybackClock::new();
    c.start(1000);
    c.pause(1300);
    assert_eq!(c.elapsed(1300), 300);
    assert_eq!(c.elapsed(9999), 300);
}

#[test]
fn stop_resets_elapsed_to_zero_from_any_state() {
    let mut running = PlaybackClock::new();
    running.start(5);
    running.stop();
    assert_eq!(running.elapsed(100), 0);
    assert_eq!(running.elapsed(100_000), 0);

    let mut paused = PlaybackClock::new();
    paused.start(0);
    paused.pause(70);
    paused.stop();
    assert_eq!(paused.elapsed(500), 0);

    let mut stopped = PlaybackClock::new();
    stopped.stop();
    assert_eq!(stopped.elapsed(1), 0);
}

#[test]
fn starting_again_begins_from_zero() {
    let mut c = PlaybackClock::new();
    c.start(0);
    c.pause(400);
    c.start(1000);
    assert_eq!(c.elapsed(1250), 250);
}

#[test]
fn second_play_releases_first_session_before_opening() {
    let mut p = AudioPlayer::new();
    let mut releases = 0;

    // play(A): teardown (nothing live yet), then the new session opens.
    if p.stop() {
        releases += 1;
    }
    p.open_session("track_a".to_string(), 0);
    assert_eq!(releases, 0);
    assert_eq!(p.current_file().map(String::as_str), Some("track_a"));

    // play(B): the teardown demands A's release before B's session exists.
    if p.stop() {
        releases += 1;
    }
    assert_eq!(releases, 1);
    assert!(p.current_file().is_none());
    p.open_session("track_b".to_string(), 7);
    assert_eq!(releases, 1);
    assert_eq!(p.current_file().map(String::as_str), Some("track_b"));
}

#[test]
fn failed_play_leaves_the_controller_stopped() {
    let mut p = AudioPlayer::new();
    p.open_session("track_a".to_string(), 0);
    // play of a bad track: teardown happens, then opening the resources
    // fails, so no session is recorded.
    let released = p.stop();
    assert!(released);
    assert!(p.current_file().is_none());
    assert!(!p.is_paused());
    assert_eq!(p.progress(12345), 0);
}

#[test]
fn pause_and_resume_mirror_into_the_clock() {
    let mut p = AudioPlayer::new();
    p.open_session("track".to_string(), 0);
    assert!(!p.is_paused());
    p.pause(100);
    assert!(p.is_paused());
    assert_eq!(p.progress(500), 100);
    p.resume(600);
    assert!(!p.is_paused());
    assert_eq!(p.progress(700), 200);
}

#[test]
fn pause_and_resume_without_a_session_are_no_ops() {
    let mut p = AudioPlayer::new();
    p.pause(10);
    p.resume(20);
    assert!(!p.is_paused());
    assert_eq!(p.progress(30), 0);
    assert!(p.current_file().is_none());
}

#[test]
fn double_pause_and_double_resume_are_no_ops() {
    let mut p = AudioPlayer::new();
    p.open_session("track".to_string(), 0);
    p.pause(50);
    p.pause(80);
    assert_eq!(p.progress(90), 50);
    p.resume(100);
    p.resume(130);
    assert_eq!(p.progress(150), 100);
}

#[test]
fn progress_is_zero_without_a_session() {
    let p = AudioPlayer::new();
    assert_eq!(p.progress(99999), 0);
}

#[test]
fn duration_is_frames_over_rate() {
    assert_eq!(track_duration_ms(Some(88200), Some(44100)), 2000);
    assert_eq!(track_duration_ms(Some(44100), Some(44100)), 1000);
    assert_eq!(track_duration_ms(Some(22050), Some(44100)), 500);
    assert_eq!(track_duration_ms(Some(0), Some(48000)), 0);
}

#[test]
fn duration_falls_back_to_the_default_when_undeterminable() {
    assert_eq!(track_duration_ms(None, Some(44100)), DEFAULT_TRACK_DURATION_MS);
    assert_eq!(track_duration_ms(Some(88200), None), DEFAULT_TRACK_DURATION_MS);
    assert_eq!(track_duration_ms(None, None), DEFAULT_TRACK_DURATION_MS);
    assert_eq!(track_duration_ms(Some(1), Some(0)), DEFAULT_TRACK_DURATION_MS);
}

#[test]
fn duration_saturates_instead_of_overflowing() {
    assert_eq!(track_duration_ms(Some(u64::MAX), Some(1)), u64::MAX);
}
