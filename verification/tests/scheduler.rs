use link_metronome::click_scheduler::apply_command;
use link_metronome::click_scheduler::render_buffer;
use link_metronome::click_scheduler::ClickSample;
use link_metronome::click_scheduler::ClickState;
use link_metronome::control_channel::Command;
use link_metronome::session_state::SessionState;

#[test]
fn tempo_increase_clamps_at_maximum() {
    let mut s = SessionState::new();
    s.set_tempo(998, 0);
    apply_command(&mut s, Command::TempoIncrease, 1000, 4);
    assert_eq!(s.tempo(), 999);
    apply_command(&mut s, Command::TempoIncrease, 2000, 4);
    assert_eq!(s.tempo(), 999);
    apply_command(&mut s, Command::TempoIncrease, 3000, 4);
    assert_eq!(s.tempo(), 999);
}

#[test]
fn tempo_decrease_clamps_at_minimum() {
    let mut s = SessionState::new();
    s.set_tempo(21, 0);
    apply_command(&mut s, Command::TempoDecrease, 1000, 4);
    assert_eq!(s.tempo(), 20);
    apply_command(&mut s, Command::TempoDecrease, 2000, 4);
    assert_eq!(s.tempo(), 20);
    apply_command(&mut s, Command::TempoDecrease, 3000, 4);
    assert_eq!(s.tempo(), 20);
}

#[test]
fn toggle_starts_with_quantized_launch_then_stops() {
    let mut s = SessionState::new();
    apply_command(&mut s, Command::TogglePlaying, 5_000_000, 4);
    assert!(s.is_playing());
    assert_eq!(s.time_for_is_playing(), 5_000_000);
    assert_eq!(s.beat_at_time(5_000_000, 4), 0);
    apply_command(&mut s, Command::TogglePlaying, 9_000_000, 4);
    assert!(!s.is_playing());
    assert_eq!(s.time_for_is_playing(), 9_000_000);
    // Stopping does not disturb the beat mapping.
    assert_eq!(s.beat_at_time(5_000_000, 4), 0);
}

#[test]
fn stopped_transport_renders_silence() {
    let s = SessionState::new();
    let mut st = ClickState::new();
    let buf = render_buffer(&s, 4, 1_000_000, 48_000, 256, &mut st);
    assert_eq!(buf.len(), 256);
    for sample in buf.iter() {
        assert_eq!(*sample, ClickSample::Silence);
    }
    assert_eq!(st, ClickState::new());
}

#[test]
fn count_in_beats_render_silence() {
    // Playing, but beat 0 is mapped two seconds ahead of the buffer:
    // every beat position in the buffer is negative (count-in).
    let mut s = SessionState::new();
    s.set_is_playing_and_request_beat_at_time(true, 3_000_000, 0, 4);
    let mut st = ClickState::new();
    let buf = render_buffer(&s, 4, 1_000_000, 48_000, 512, &mut st);
    for sample in buf.iter() {
        assert_eq!(*sample, ClickSample::Silence);
    }
}

#[test]
fn zero_length_buffer_is_a_no_op() {
    let s = SessionState::new();
    let mut st = ClickState::new();
    let buf = render_buffer(&s, 4, 1_000_000, 48_000, 0, &mut st);
    assert_eq!(buf.len(), 0);
    assert_eq!(st, ClickState::new());
}

#[test]
fn quantized_start_clicks_high_from_sample_zero() {
    // The end-to-end scenario: quantum 4, 120 BPM, transport starts at T
    // with beat 0 at T, and the buffer starts exactly at T at 48 kHz.
    // The first sample carries the high (bar) tone; the click envelope
    // runs out after 100 ms, i.e. silence from sample 4800 on.
    let t = 1_000_000i64;
    let mut s = SessionState::new();
    s.set_is_playing_and_request_beat_at_time(true, t as u64, 0, 4);
    let mut st = ClickState::new();
    let buf = render_buffer(&s, 4, t, 48_000, 6000, &mut st);
    assert_eq!(
        buf[0],
        ClickSample::Tone { high: true, synth_clock: 0 }
    );
    for i in 0..4800usize {
        assert_eq!(
            buf[i],
            ClickSample::Tone { high: true, synth_clock: i as u64 }
        );
    }
    for i in 4800..6000usize {
        assert_eq!(buf[i], ClickSample::Silence);
    }
}

#[test]
fn one_click_per_beat_even_across_a_long_buffer() {
    // 1 kHz sample rate, 120 BPM: a beat every 500 samples.  A buffer of
    // 1600 samples spans four beat boundaries (samples 0, 500, 1000,
    // 1500); each one triggers exactly one envelope restart.
    let t = 2_000_000i64;
    let mut s = SessionState::new();
    s.set_is_playing_and_request_beat_at_time(true, t as u64, 0, 4);
    let mut st = ClickState::new();
    let buf = render_buffer(&s, 4, t, 1000, 1600, &mut st);
    let mut restarts = Vec::new();
    for (i, sample) in buf.iter().enumerate() {
        if let ClickSample::Tone { synth_clock: 0, .. } = sample {
            restarts.push(i);
        }
    }
    assert_eq!(restarts, vec![0, 500, 1000, 1500]);
    // The envelope is 100 ms = 100 samples long at this rate.
    assert!(matches!(buf[99], ClickSample::Tone { .. }));
    assert_eq!(buf[100], ClickSample::Silence);
    assert_eq!(buf[499], ClickSample::Silence);
    // Beat 0 of the four-beat bar sounds high, the others low.
    assert_eq!(buf[0], ClickSample::Tone { high: true, synth_clock: 0 });
    assert_eq!(buf[500], ClickSample::Tone { high: false, synth_clock: 0 });
    assert_eq!(buf[1000], ClickSample::Tone { high: false, synth_clock: 0 });
    assert_eq!(buf[1500], ClickSample::Tone { high: false, synth_clock: 0 });
}

#[test]
fn envelope_survives_across_buffers() {
    // A wrap at the end of one buffer keeps sounding at the start of the
    // next: the click state carries the envelope clock over.
    let t = 1_000_000i64;
    let mut s = SessionState::new();
    s.set_is_playing_and_request_beat_at_time(true, t as u64, 0, 4);
    let mut st = ClickState::new();
    let first = render_buffer(&s, 4, t, 1000, 50, &mut st);
    assert!(matches!(first[49], ClickSample::Tone { .. }));
    // Second buffer starts 50 samples (50 ms) after T.
    let second = render_buffer(&s, 4, t + 50_000, 1000, 100, &mut st);
    assert_eq!(second[0], ClickSample::Tone { high: true, synth_clock: 50 });
    assert!(matches!(second[49], ClickSample::Tone { .. }));
    assert_eq!(second[50], ClickSample::Silence);
}
