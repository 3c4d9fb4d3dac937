use link_metronome::session_state::SessionState;
use link_metronome::session_state::BEAT_UNIT;

#[test]
fn fresh_timeline_defaults() {
    let s = SessionState::new();
    assert_eq!(s.tempo(), 120);
    assert!(!s.is_playing());
    assert_eq!(s.time_for_is_playing(), 0);
    assert_eq!(s.beat_at_time(0, 4), 0);
}

#[test]
fn set_tempo_clamps_to_valid_range() {
    let mut s = SessionState::new();
    s.set_tempo(5, 0);
    assert_eq!(s.tempo(), 20);
    s.set_tempo(2000, 0);
    assert_eq!(s.tempo(), 999);
    s.set_tempo(140, 0);
    assert_eq!(s.tempo(), 140);
}

#[test]
fn beat_advances_at_tempo() {
    // 120 BPM: two beats per second, so one beat after 500 ms.
    let s = SessionState::new();
    assert_eq!(s.beat_at_time(500_000, 4), BEAT_UNIT);
    assert_eq!(s.beat_at_time(1_000_000, 4), 2 * BEAT_UNIT);
}

#[test]
fn phase_wraps_at_quantum() {
    // At 120 BPM, 2.5 beats after 1.25 s and 4.5 beats after 2.25 s.
    let s = SessionState::new();
    let p1 = s.phase_at_time(1_250_000, 4);
    assert_eq!(p1, 5 * BEAT_UNIT / 2);
    let p2 = s.phase_at_time(2_250_000, 4);
    assert_eq!(p2, BEAT_UNIT / 2);
}

#[test]
fn negative_beats_have_nonnegative_phase() {
    let s = SessionState::new();
    let b = s.beat_at_time(-250_000, 1);
    assert_eq!(b, -BEAT_UNIT / 2);
    let p = s.phase_at_time(-250_000, 1);
    assert_eq!(p, BEAT_UNIT / 2);
}

#[test]
fn phase_is_zero_exactly_at_the_quantum_boundary() {
    // 120 BPM, quantum 4: a bar lasts two seconds.
    let s = SessionState::new();
    assert_eq!(s.phase_at_time(0, 4), 0);
    assert_eq!(s.phase_at_time(1_999_999, 4), 4 * BEAT_UNIT - 120);
    assert_eq!(s.phase_at_time(2_000_000, 4), 0);
}

#[test]
fn tempo_change_keeps_beat_continuous() {
    // Change to 60 BPM one second in: the beat position at the change
    // time is unchanged, and advances at the new rate afterwards.
    let mut s = SessionState::new();
    let before = s.beat_at_time(1_000_000, 4);
    s.set_tempo(60, 1_000_000);
    assert_eq!(s.beat_at_time(1_000_000, 4), before);
    assert_eq!(s.beat_at_time(2_000_000, 4), before + BEAT_UNIT);
}

#[test]
fn quantized_launch_maps_beat_zero_to_start_time() {
    let mut s = SessionState::new();
    s.set_is_playing_and_request_beat_at_time(true, 3_000_000, 0, 4);
    assert!(s.is_playing());
    assert_eq!(s.time_for_is_playing(), 3_000_000);
    assert_eq!(s.beat_at_time(3_000_000, 4), 0);
    assert!(s.beat_at_time(2_999_999, 4) < 0);
}

#[test]
fn stopping_leaves_the_beat_mapping_alone() {
    let mut s = SessionState::new();
    s.set_is_playing_and_request_beat_at_time(true, 1_000_000, 0, 4);
    let b = s.beat_at_time(4_000_000, 4);
    s.set_is_playing(false, 4_000_000);
    assert!(!s.is_playing());
    assert_eq!(s.time_for_is_playing(), 4_000_000);
    assert_eq!(s.beat_at_time(4_000_000, 4), b);
}

#[test]
fn time_at_beat_inverts_beat_at_time() {
    let s = SessionState::new();
    // 120 BPM: beat 1 is reached exactly 500 ms in.
    let t = s.time_at_beat(BEAT_UNIT, 4);
    assert_eq!(t, 500_000);
    assert_eq!(s.beat_at_time(t, 4), BEAT_UNIT);
    // A beat position between microseconds maps to the first microsecond
    // at or past it.
    let t2 = s.time_at_beat(1, 4);
    assert_eq!(t2, 1);
    assert!(s.beat_at_time(t2, 4) >= 1);
    assert!(s.beat_at_time(t2 - 1, 4) < 1);
}

#[test]
fn request_beat_at_time_remaps() {
    let mut s = SessionState::new();
    s.request_beat_at_time(2 * BEAT_UNIT, 1_000_000, 4);
    assert_eq!(s.beat_at_time(1_000_000, 4), 2 * BEAT_UNIT);
}

#[test]
fn force_beat_at_time_remaps() {
    let mut s = SessionState::new();
    s.force_beat_at_time(BEAT_UNIT, 500_000, 4);
    assert_eq!(s.beat_at_time(500_000, 4), BEAT_UNIT);
}

#[test]
fn request_beat_at_start_playing_time_only_when_playing() {
    let mut s = SessionState::new();
    s.request_beat_at_start_playing_time(5 * BEAT_UNIT, 4);
    assert_eq!(s.beat_at_time(0, 4), 0);
    s.set_is_playing(true, 2_000_000);
    s.request_beat_at_start_playing_time(5 * BEAT_UNIT, 4);
    assert_eq!(s.beat_at_time(2_000_000, 4), 5 * BEAT_UNIT);
}
