use link_metronome::click_scheduler::ClickSample;
use link_metronome::control_channel::Command;
use link_metronome::control_channel::ControlChannel;
use link_metronome::engine::fan_out;
use link_metronome::engine::latency_or_default;
use link_metronome::engine::AudioEngine;

#[test]
fn silent_buffer_advances_the_sample_counter() {
    let mut e = AudioEngine::new(48_000, 4);
    let out = e.process_buffer(1000, 64, 0, None, None);
    assert_eq!(out.len(), 64);
    for sample in out.iter() {
        assert_eq!(*sample, ClickSample::Silence);
    }
    assert_eq!(e.sample_clock(), 64);
    let out2 = e.process_buffer(2000, 64, 0, None, None);
    assert_eq!(out2.len(), 64);
    assert_eq!(e.sample_clock(), 128);
}

#[test]
fn toggle_command_starts_clicking_at_the_filtered_time() {
    let mut e = AudioEngine::new(48_000, 4);
    // First buffer: one observation (0 samples, 1000 us).
    e.process_buffer(1000, 64, 0, None, None);
    // Second buffer: observations are collinear, so the filtered invoke
    // time is exactly the new reading, 2000 us; the toggle starts
    // transport there with beat 0 mapped to it, and the buffer begins
    // right there, so the bar tone sounds from sample 0.
    let out = e.process_buffer(2000, 64, 0, None, Some(Command::TogglePlaying));
    assert!(e.session.is_playing());
    assert_eq!(e.session.time_for_is_playing(), 2000);
    assert_eq!(e.session.beat_at_time(2000, 4), 0);
    assert_eq!(out[0], ClickSample::Tone { high: true, synth_clock: 0 });
    assert_eq!(out[63], ClickSample::Tone { high: true, synth_clock: 63 });
}

#[test]
fn tempo_commands_through_the_engine_clamp() {
    let mut e = AudioEngine::new(48_000, 4);
    e.session.set_tempo(998, 0);
    e.process_buffer(1000, 8, 0, None, Some(Command::TempoIncrease));
    assert_eq!(e.session.tempo(), 999);
    e.process_buffer(2000, 8, 0, None, Some(Command::TempoIncrease));
    assert_eq!(e.session.tempo(), 999);
}

#[test]
fn quantum_attempt_updates_the_cache() {
    let mut e = AudioEngine::new(48_000, 4);
    e.process_buffer(1000, 8, 0, Some(3), None);
    assert_eq!(e.cached_quantum, 3);
    e.process_buffer(2000, 8, 0, None, None);
    assert_eq!(e.cached_quantum, 3);
}

#[test]
fn negative_estimates_clamp_to_zero() {
    // Observations (0, 3000), (1, 0), (2, 0): the fitted line dips below
    // zero at sample 2 (estimate -500), which the engine clamps to 0, so
    // the toggle takes effect at host time 0.
    let mut e = AudioEngine::new(48_000, 4);
    e.process_buffer(3000, 1, 0, None, None);
    e.process_buffer(0, 1, 0, None, None);
    e.process_buffer(0, 1, 0, None, Some(Command::TogglePlaying));
    assert!(e.session.is_playing());
    assert_eq!(e.session.time_for_is_playing(), 0);
    assert_eq!(e.session.beat_at_time(0, 4), 0);
}

#[test]
fn output_latency_shifts_the_rendered_window() {
    // With 1000 us of output latency, buffers render 1000 us ahead of the
    // filtered invoke time.  Transport starts at 1_002_000 us with beat 0
    // there, but the buffer renders from 1_003_000 us on: the boundary
    // fell before the rendered window, so no wrap is detected and the
    // start click is missed (the envelope from host time 0 has long
    // expired).
    let mut e = AudioEngine::new(48_000, 4);
    e.process_buffer(1_000_000, 64, 1000, None, None);
    let out = e.process_buffer(1_002_000, 64, 1000, None, Some(Command::TogglePlaying));
    assert!(e.session.is_playing());
    for sample in out.iter() {
        assert_eq!(*sample, ClickSample::Silence);
    }
    // Third reading collinear with the first two, so the filtered invoke
    // time is exactly 1_004_000 us and rendering begins at 1_005_000 us.
    // The next beat (120 BPM) starts at 1_502_000 us, which is sample
    // 497 ms * 48 kHz = 23856 of this one-second buffer; it is the second
    // beat of the four-beat bar, hence the low tone.
    let out2 = e.process_buffer(1_004_000, 48_000, 1000, None, None);
    assert_eq!(out2[23855], ClickSample::Silence);
    assert_eq!(out2[23856], ClickSample::Tone { high: false, synth_clock: 0 });
}

#[test]
fn one_queued_command_applies_per_buffer_in_order() {
    let mut queue = ControlChannel::new();
    queue.try_send(Command::TempoIncrease);
    queue.try_send(Command::TempoIncrease);
    queue.try_send(Command::TempoDecrease);

    let mut e = AudioEngine::new(48_000, 4);
    e.session.set_tempo(997, 0);
    let expected = [998u32, 999, 998, 998];
    for (i, want) in expected.iter().enumerate() {
        let cmd = queue.try_receive();
        e.process_buffer(1000 * (i as i64 + 1), 8, 0, None, cmd);
        assert_eq!(e.session.tempo(), *want);
    }
}

#[test]
fn missing_latency_metadata_counts_as_zero() {
    assert_eq!(latency_or_default(Some(1500)), 1500);
    assert_eq!(latency_or_default(None), 0);
}

#[test]
fn fan_out_duplicates_across_channels() {
    let mono: Vec<i32> = vec![10, 20, 30];
    let out = fan_out(&mono, 2);
    assert_eq!(out, vec![10, 10, 20, 20, 30, 30]);

    let wave: Vec<f32> = vec![0.5, -0.25];
    let stereo = fan_out(&wave, 3);
    assert_eq!(stereo, vec![0.5, 0.5, 0.5, -0.25, -0.25, -0.25]);
}
