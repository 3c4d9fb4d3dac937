//! Per-buffer click rendering.
//!
//! Given the timeline snapshot, the active quantum and the buffer's timing,
//! the scheduler decides for every output sample whether the metronome
//! click should sound, and with which tone.  A beat boundary is detected as
//! a *phase wrap*: the phase with respect to a one-beat quantum drops
//! between two consecutive samples.  A detected wrap starts the click
//! envelope, which lasts [`CLICK_DURATION_MICROS`]; samples inside the
//! envelope carry the high tone at a bar (quantum) boundary and the low
//! tone elsewhere.  Actual waveform synthesis is floating-point work that
//! stays outside this crate; a [`ClickSample`] carries everything the synth
//! needs (tone choice and the synth's phase counter).
//!
//! Sample times are exact: within a buffer, sample `i` lies `i / rate`
//! seconds after the buffer's begin time.  The scheduler therefore works in
//! *ticks* of `1 / rate` microseconds — sample `i` starts at tick
//! `begin_micros * rate + i * 1_000_000` — and scales beat positions by
//! `rate` as well ("subticks"), so every comparison below is integer-exact.

use vstd::prelude::*;

verus! {

use vstd::arithmetic::div_mod::lemma_fundamental_div_mod;
use vstd::arithmetic::div_mod::lemma_fundamental_div_mod_converse;
use vstd::arithmetic::div_mod::lemma_mod_bound;
use crate::session_state::SessionState;
use crate::session_state::BEAT_UNIT;
use crate::session_state::MAX_TIME_MICROS;
use crate::control_channel::Command;
use crate::session_state::TEMPO_MIN_BPM;
use crate::session_state::TEMPO_MAX_BPM;

/// How long a click envelope stays audible: 100 ms.
pub const CLICK_DURATION_MICROS: i64 = 100_000;

/// Ticks per sample: sample `i` of a buffer starts at tick
/// `begin_micros * rate + i * TICKS_PER_SAMPLE`.
pub const TICKS_PER_SAMPLE: i64 = 1_000_000;

/// Largest accepted sample rate, in frames per second.
pub const MAX_SAMPLE_RATE: u32 = 1_000_000;

/// Largest accepted buffer length, in samples (2^20).
pub const MAX_BUFFER_SAMPLES: usize = 0x10_0000;

/// Largest tick value the click state may hold (2^69; any tick computed
/// from an in-range begin time and buffer index stays below this).
pub const MAX_CLICK_TICK: i128 = 0x20_0000_0000_0000_0000;

/// One output sample's worth of click decision: silence, or a tone sample
/// with the synth phase counter to render it from.
#[derive(Clone, Copy, PartialEq, Eq, Structural, Debug)]
pub enum ClickSample {
    /// No click at this sample.
    Silence,
    /// A click tone: `high` selects the bar-boundary tone, and
    /// `synth_clock` is the synth's phase counter for this sample.
    Tone { high: bool, synth_clock: u64 },
}

/// The scheduler's per-stream mutable state: when the envelope last
/// started (in ticks) and the synth's phase counter.
#[derive(Clone, Copy, PartialEq, Eq, Structural, Debug)]
pub struct ClickState {
    /// Tick of the sample at which the last click was triggered.
    pub click_tick: i128,
    /// Synth phase counter, advanced once per tone sample, modulo the
    /// sample rate.
    pub synth_clock: u64,
}

impl ClickState {
    /// Range invariant relative to the stream's sample rate.
    pub open spec fn wf(&self, rate: u32) -> bool {
        &&& 0 <= self.click_tick <= MAX_CLICK_TICK
        &&& self.synth_clock < rate
    }

    /// Fresh state: no click seen yet.
    pub fn new() -> (st: ClickState)
        ensures
            st.click_tick == 0,
            st.synth_clock == 0,
    {
        ClickState { click_tick: 0, synth_clock: 0 }
    }
}

/// The beat position at tick `tau`, in subticks (beat units times `rate`).
pub open spec fn beat_subticks(s: SessionState, rate: u32, tau: int) -> int {
    s.beat_origin_units * rate + (tau - s.origin_micros * rate) * s.tempo_bpm
}

/// One beat, in subticks.
pub open spec fn one_beat_subticks(rate: u32) -> int {
    BEAT_UNIT * rate
}

/// The click envelope's length, in ticks.
pub open spec fn click_len_ticks(rate: u32) -> int {
    CLICK_DURATION_MICROS * rate
}

/// The phase with respect to a one-beat quantum at tick `tau`, in
/// subticks: the beat position reduced into `[0, 1)` beats.
pub open spec fn phase_one_subticks(s: SessionState, rate: u32, tau: int) -> int {
    beat_subticks(s, rate, tau) % one_beat_subticks(rate)
}

/// The phase with respect to `quantum` at tick `tau`, in subticks.
pub open spec fn phase_quantum_subticks(s: SessionState, rate: u32, quantum: u32, tau: int) -> int {
    beat_subticks(s, rate, tau) % (quantum * one_beat_subticks(rate))
}

/// Does a beat begin between the previous sample and the one at `tau`?
/// True when the one-beat phase dropped since one sample earlier.
pub open spec fn wrap_at(s: SessionState, rate: u32, tau: int) -> bool {
    phase_one_subticks(s, rate, tau) < phase_one_subticks(s, rate, tau - TICKS_PER_SAMPLE)
}

/// Is the beat at `tau` the first of its bar (the quantum phase still
/// within the first beat)?  Selects the high tone.
pub open spec fn at_bar_start(s: SessionState, rate: u32, quantum: u32, tau: int) -> bool {
    phase_quantum_subticks(s, rate, quantum, tau) < one_beat_subticks(rate)
}

/// The click state after wrap detection at `tau`: a detected wrap restarts
/// the envelope and the synth phase.
pub open spec fn wrap_update(s: SessionState, rate: u32, tau: int, st: ClickState) -> ClickState {
    if wrap_at(s, rate, tau) {
        ClickState { click_tick: tau as i128, synth_clock: 0 }
    } else {
        st
    }
}

/// Is the sample at `tau` inside the click envelope started at
/// `st.click_tick`?
pub open spec fn in_envelope(rate: u32, tau: int, st: ClickState) -> bool {
    tau - st.click_tick < click_len_ticks(rate)
}

/// The sample emitted at tick `tau`.  Transport stopped and count-in
/// (negative) beat positions are silent and leave the state alone;
/// otherwise wrap detection runs first, and the envelope decides between a
/// tone and silence.
pub open spec fn step_sample(
    s: SessionState,
    rate: u32,
    quantum: u32,
    tau: int,
    st: ClickState,
) -> ClickSample {
    if !s.playing {
        ClickSample::Silence
    } else if beat_subticks(s, rate, tau) < 0 {
        ClickSample::Silence
    } else {
        let st1 = wrap_update(s, rate, tau, st);
        if in_envelope(rate, tau, st1) {
            ClickSample::Tone {
                high: at_bar_start(s, rate, quantum, tau),
                synth_clock: st1.synth_clock,
            }
        } else {
            ClickSample::Silence
        }
    }
}

/// The click state after the sample at tick `tau`: the envelope clock from
/// wrap detection, and the synth phase advanced on tone samples.
pub open spec fn step_state(
    s: SessionState,
    rate: u32,
    quantum: u32,
    tau: int,
    st: ClickState,
) -> ClickState {
    if !s.playing {
        st
    } else if beat_subticks(s, rate, tau) < 0 {
        st
    } else {
        let st1 = wrap_update(s, rate, tau, st);
        if in_envelope(rate, tau, st1) {
            ClickState {
                click_tick: st1.click_tick,
                synth_clock: ((st1.synth_clock + 1) % (rate as int)) as u64,
            }
        } else {
            st1
        }
    }
}

/// The tick at which sample `i` of a buffer beginning at `begin` starts.
pub open spec fn sample_tick(begin: int, rate: u32, i: int) -> int {
    begin * rate + i * TICKS_PER_SAMPLE
}

/// The first `n` samples of the buffer beginning at `begin`, with the
/// click state after them: the per-sample step folded in index order.
pub open spec fn render(
    s: SessionState,
    rate: u32,
    quantum: u32,
    begin: int,
    n: nat,
    st: ClickState,
) -> (Seq<ClickSample>, ClickState)
    decreases n,
{
    if n == 0 {
        (Seq::<ClickSample>::empty(), st)
    } else {
        let prefix = render(s, rate, quantum, begin, (n - 1) as nat, st);
        let tau = sample_tick(begin, rate, n - 1);
        (
            prefix.0.push(step_sample(s, rate, quantum, tau, prefix.1)),
            step_state(s, rate, quantum, tau, prefix.1),
        )
    }
}

/// Euclidean remainder of `b` by `m` in `i128`: the value in `[0, m)`
/// congruent to `b`, matching the `%` of specifications.
fn mod_euclid_i128(b: i128, m: i128) -> (r: i128)
    requires
        1 <= m,
        i128::MIN < b,
    ensures
        r == b as int % m as int,
        0 <= r < m,
{
    if b >= 0 {
        proof {
            lemma_mod_bound(b as int, m as int);
        }
        b % m
    } else {
        let bn = -b;
        let rn = bn % m;
        proof {
            lemma_fundamental_div_mod(bn as int, m as int);
            lemma_mod_bound(bn as int, m as int);
        }
        if rn == 0 {
            proof {
                assert((m as int) * (-((bn as int) / (m as int))) == -((m as int) * ((
                bn as int) / (m as int)))) by (nonlinear_arith);
                lemma_fundamental_div_mod_converse(
                    b as int,
                    m as int,
                    -((bn as int) / (m as int)),
                    0int,
                );
            }
            0
        } else {
            proof {
                assert((m as int) * (-((bn as int) / (m as int)) - 1) == -((m as int) * ((
                bn as int) / (m as int))) - m) by (nonlinear_arith);
                lemma_fundamental_div_mod_converse(
                    b as int,
                    m as int,
                    -((bn as int) / (m as int)) - 1,
                    m - rn as int,
                );
            }
            m - rn
        }
    }
}

/// Render one buffer of click decisions.
///
/// Sample `i` of the buffer is judged at tick
/// `begin_micros * rate + i * TICKS_PER_SAMPLE`; the result and the final
/// click state are exactly the [`render`] fold of the per-sample step.
/// A zero-length buffer is a no-op returning an empty vector.
pub fn render_buffer(
    session: &SessionState,
    quantum: u32,
    begin_micros: i64,
    rate: u32,
    buffer_size: usize,
    st: &mut ClickState,
) -> (out: Vec<ClickSample>)
    requires
        session.wf(),
        1 <= quantum <= 1024,
        0 <= begin_micros <= MAX_TIME_MICROS,
        1 <= rate <= MAX_SAMPLE_RATE,
        buffer_size <= MAX_BUFFER_SAMPLES,
        old(st).wf(rate),
    ensures
        out@ == render(
            *session,
            rate,
            quantum,
            begin_micros as int,
            buffer_size as nat,
            *old(st),
        ).0,
        *final(st) == render(
            *session,
            rate,
            quantum,
            begin_micros as int,
            buffer_size as nat,
            *old(st),
        ).1,
        out@.len() == buffer_size,
        final(st).wf(rate),
{
    let rate_i: i128 = rate as i128;
    proof {
        // begin * rate <= 2^48 * 2^20 = 2^68; the anchor products likewise
        assert(0 <= (begin_micros as i128) * rate_i <= 0x10_0000_0000_0000_0000)
            by (nonlinear_arith)
            requires
                0 <= begin_micros <= 0x1_0000_0000_0000,
                1 <= rate_i <= 0x10_0000,
        ;
        assert(0 <= (session.origin_micros as i128) * rate_i <= 0x10_0000_0000_0000_0000)
            by (nonlinear_arith)
            requires
                0 <= session.origin_micros <= 0x1_0000_0000_0000,
                1 <= rate_i <= 0x10_0000,
        ;
        // |beat anchor| * rate <= 2^62 * 2^20 = 2^82
        assert(-0x4_0000_0000_0000_0000_0000 <= (session.beat_origin_units as i128) * rate_i
            <= 0x4_0000_0000_0000_0000_0000) by (nonlinear_arith)
            requires
                -0x4000_0000_0000_0000 <= session.beat_origin_units <= 0x4000_0000_0000_0000,
                1 <= rate_i <= 0x10_0000,
        ;
    }
    let begin_tick: i128 = (begin_micros as i128) * rate_i;
    let origin_tick: i128 = (session.origin_micros as i128) * rate_i;
    let b0_sub: i128 = (session.beat_origin_units as i128) * rate_i;
    let beat_unit_sub: i128 = 60_000_000 * rate_i;
    proof {
        // quantum * one beat <= 2^10 * 2^46 = 2^56
        assert(60_000_000 <= (quantum as i128) * beat_unit_sub <= 0x100_0000_0000_0000)
            by (nonlinear_arith)
            requires
                1 <= quantum <= 0x400,
                60_000_000 <= beat_unit_sub <= 0x4000_0000_0000,
        ;
    }
    let bar_sub: i128 = (quantum as i128) * beat_unit_sub;
    let click_len: i128 = 100_000 * rate_i;
    let bpm: i128 = session.tempo_bpm as i128;
    let playing = session.playing;
    let mut out: Vec<ClickSample> = Vec::new();
    let mut i: usize = 0;
    while i < buffer_size
        invariant
            session.wf(),
            1 <= quantum <= 1024,
            1 <= rate <= MAX_SAMPLE_RATE,
            0 <= begin_micros <= MAX_TIME_MICROS,
            buffer_size <= MAX_BUFFER_SAMPLES,
            rate_i == rate as i128,
            begin_tick == begin_micros * rate,
            0 <= begin_tick <= 0x10_0000_0000_0000_0000,
            origin_tick == session.origin_micros * rate,
            0 <= origin_tick <= 0x10_0000_0000_0000_0000,
            b0_sub == session.beat_origin_units * rate,
            -0x4_0000_0000_0000_0000_0000 <= b0_sub <= 0x4_0000_0000_0000_0000_0000,
            beat_unit_sub == one_beat_subticks(rate),
            60_000_000 <= beat_unit_sub <= 0x4000_0000_0000,
            bar_sub == quantum * one_beat_subticks(rate),
            60_000_000 <= bar_sub <= 0x100_0000_0000_0000,
            click_len == click_len_ticks(rate),
            100_000 <= click_len <= 0x40_0000_0000,
            bpm == session.tempo_bpm,
            playing == session.playing,
            i <= buffer_size,
            out@.len() == i,
            out@ == render(
                *session,
                rate,
                quantum,
                begin_micros as int,
                i as nat,
                *old(st),
            ).0,
            *st == render(*session, rate, quantum, begin_micros as int, i as nat, *old(st)).1,
            st.wf(rate),
        decreases buffer_size - i,
    {
        let ghost st_pre = *st;
        let ghost tau_spec = sample_tick(begin_micros as int, rate, i as int);
        let tau: i128 = begin_tick + (i as i128) * 1_000_000;
        let sample: ClickSample;
        if !playing {
            sample = ClickSample::Silence;
        } else {
            proof {
                // |tick offset from anchor| <= 2^69; times bpm <= 2^79
                assert(-0x8000_0000_0000_0000_0000 <= (tau - origin_tick) * bpm
                    <= 0x8000_0000_0000_0000_0000) by (nonlinear_arith)
                    requires
                        -0x20_0000_0000_0000_0000 <= tau - origin_tick <= 0x20_0000_0000_0000_0000,
                        0 <= bpm <= 0x400,
                ;
                assert(((tau - origin_tick) - 1_000_000) * bpm == (tau - origin_tick) * bpm
                    - 1_000_000 * bpm) by (nonlinear_arith);
            }
            let beat: i128 = b0_sub + (tau - origin_tick) * bpm;
            if beat < 0 {
                sample = ClickSample::Silence;
            } else {
                let beat_prev: i128 = beat - 1_000_000 * bpm;
                let phase_now = mod_euclid_i128(beat, beat_unit_sub);
                let phase_prev = mod_euclid_i128(beat_prev, beat_unit_sub);
                proof {
                    assert(beat == beat_subticks(*session, rate, tau_spec));
                    assert(beat_prev == beat_subticks(
                        *session,
                        rate,
                        tau_spec - TICKS_PER_SAMPLE,
                    ));
                }
                if phase_now < phase_prev {
                    st.click_tick = tau;
                    st.synth_clock = 0;
                }
                proof {
                    assert(*st == wrap_update(*session, rate, tau_spec, st_pre));
                }
                if tau - st.click_tick < click_len {
                    let bar_phase = mod_euclid_i128(beat, bar_sub);
                    sample = ClickSample::Tone {
                        high: bar_phase < beat_unit_sub,
                        synth_clock: st.synth_clock,
                    };
                    st.synth_clock = (st.synth_clock + 1) % (rate as u64);
                } else {
                    sample = ClickSample::Silence;
                }
            }
        }
        out.push(sample);
        proof {
            assert(sample == step_sample(*session, rate, quantum, tau_spec, st_pre));
            assert(*st == step_state(*session, rate, quantum, tau_spec, st_pre));
        }
        i = i + 1;
    }
    out
}

/// The tempo after a one-BPM nudge, clamped to the representable range.
pub open spec fn nudged_tempo(bpm: u32, increase: bool) -> int {
    if increase {
        if bpm >= TEMPO_MAX_BPM {
            TEMPO_MAX_BPM as int
        } else {
            bpm + 1
        }
    } else {
        if bpm <= TEMPO_MIN_BPM {
            TEMPO_MIN_BPM as int
        } else {
            bpm - 1
        }
    }
}

/// How `post` relates to `pre` after applying `cmd` at time `invoke`:
/// tempo nudges re-anchor the timeline at `invoke` with the clamped new
/// tempo; a toggle stops transport at `invoke` when playing, and
/// otherwise starts it there with beat 0 mapped to `invoke`.
pub open spec fn command_applied(
    pre: SessionState,
    post: SessionState,
    cmd: Command,
    invoke: int,
) -> bool {
    match cmd {
        Command::TempoIncrease => {
            &&& post.tempo_bpm == nudged_tempo(pre.tempo_bpm, true)
            &&& post.origin_micros == invoke
            &&& post.beat_origin_units == crate::session_state::clip_units(
                pre.beat_units_at(invoke),
            )
            &&& post.playing == pre.playing
            &&& post.playing_time_micros == pre.playing_time_micros
        },
        Command::TempoDecrease => {
            &&& post.tempo_bpm == nudged_tempo(pre.tempo_bpm, false)
            &&& post.origin_micros == invoke
            &&& post.beat_origin_units == crate::session_state::clip_units(
                pre.beat_units_at(invoke),
            )
            &&& post.playing == pre.playing
            &&& post.playing_time_micros == pre.playing_time_micros
        },
        Command::TogglePlaying => {
            &&& post.playing == !pre.playing
            &&& post.playing_time_micros == invoke
            &&& post.tempo_bpm == pre.tempo_bpm
            &&& if pre.playing {
                post.beat_origin_units == pre.beat_origin_units && post.origin_micros
                    == pre.origin_micros
            } else {
                post.beat_origin_units == 0 && post.origin_micros == invoke
            }
        },
    }
}

/// Working in ticks loses nothing: at a whole-microsecond time `t` the
/// scheduler's scaled beat and phase are exactly the timeline model's
/// values, scaled by the rate.
pub proof fn lemma_scaled_model_agrees(s: SessionState, rate: u32, t: int, quantum: u32)
    requires
        1 <= rate,
        1 <= quantum,
    ensures
        beat_subticks(s, rate, t * rate) == s.beat_units_at(t) * rate,
        phase_quantum_subticks(s, rate, quantum, t * rate) == s.phase_units_at(t, quantum) * rate,
{
    let b = s.beat_units_at(t);
    assert(beat_subticks(s, rate, t * rate) == b * rate) by (nonlinear_arith)
        requires
            beat_subticks(s, rate, t * rate) == s.beat_origin_units * rate + (t * rate
                - s.origin_micros * rate) * s.tempo_bpm,
            b == s.beat_origin_units + (t - s.origin_micros) * s.tempo_bpm,
    ;
    let m = crate::session_state::quantum_units(quantum);
    assert(m >= 1) by (nonlinear_arith)
        requires
            m == quantum * 60_000_000,
            quantum >= 1,
    ;
    lemma_fundamental_div_mod(b, m);
    lemma_mod_bound(b, m);
    let q = b / m;
    let r = b % m;
    assert(b * rate == (m * rate) * q + r * rate && 0 <= r * rate && r * rate < m * rate)
        by (nonlinear_arith)
        requires
            b == m * q + r,
            0 <= r < m,
            rate >= 1,
    ;
    assert(quantum * one_beat_subticks(rate) == m * rate) by (nonlinear_arith)
        requires
            m == quantum * 60_000_000,
            one_beat_subticks(rate) == 60_000_000 * rate,
    ;
    lemma_fundamental_div_mod_converse(b * rate, m * rate, q, r * rate);
}

/// The index of the beat that tick `tau` falls in (floor of the beat
/// position in beats).
pub open spec fn beat_number(s: SessionState, rate: u32, tau: int) -> int {
    beat_subticks(s, rate, tau) / one_beat_subticks(rate)
}

/// How many of the first `n` samples of the buffer at `begin` detect a
/// phase wrap.
pub open spec fn wrap_count(s: SessionState, rate: u32, begin: int, n: nat) -> int
    decreases n,
{
    if n == 0 {
        0
    } else {
        wrap_count(s, rate, begin, (n - 1) as nat) + if wrap_at(
            s,
            rate,
            sample_tick(begin, rate, n - 1),
        ) {
            1int
        } else {
            0int
        }
    }
}

/// Wrap detection is exact: as long as a sample period advances the beat
/// position by less than one beat (`bpm < 60 * rate`), the one-beat phase
/// drops between consecutive samples precisely when the beat number steps
/// from one integer to the next — never by more, and never spuriously.
pub proof fn lemma_wrap_iff_beat_increment(s: SessionState, rate: u32, tau: int)
    requires
        1 <= rate,
        1 <= s.tempo_bpm,
        s.tempo_bpm < 60 * rate,
    ensures
        wrap_at(s, rate, tau) <==> beat_number(s, rate, tau) == beat_number(
            s,
            rate,
            tau - TICKS_PER_SAMPLE,
        ) + 1,
        !wrap_at(s, rate, tau) ==> beat_number(s, rate, tau) == beat_number(
            s,
            rate,
            tau - TICKS_PER_SAMPLE,
        ),
{
    let m = one_beat_subticks(rate);
    let bpm = s.tempo_bpm as int;
    let step = TICKS_PER_SAMPLE * bpm;
    let b1 = beat_subticks(s, rate, tau - TICKS_PER_SAMPLE);
    let b2 = beat_subticks(s, rate, tau);
    assert(b2 == b1 + step) by (nonlinear_arith)
        requires
            b1 == s.beat_origin_units * rate + ((tau - TICKS_PER_SAMPLE) - s.origin_micros * rate)
                * s.tempo_bpm,
            b2 == s.beat_origin_units * rate + (tau - s.origin_micros * rate) * s.tempo_bpm,
            step == TICKS_PER_SAMPLE * s.tempo_bpm,
    ;
    assert(0 < step < m) by (nonlinear_arith)
        requires
            step == TICKS_PER_SAMPLE * bpm,
            m == 60_000_000 * rate,
            1 <= bpm,
            bpm < 60 * rate,
    ;
    lemma_fundamental_div_mod(b1, m);
    lemma_mod_bound(b1, m);
    let q1 = b1 / m;
    let r1 = b1 % m;
    if r1 + step < m {
        lemma_fundamental_div_mod_converse(b2, m, q1, r1 + step);
    } else {
        assert(m * (q1 + 1) == m * q1 + m) by (nonlinear_arith);
        lemma_fundamental_div_mod_converse(b2, m, q1 + 1, r1 + step - m);
    }
}

/// Detected wraps count boundary crossings one for one: over the first
/// `n` samples of a buffer, the number of samples whose wrap check fires
/// equals how far the beat number advanced since just before the first
/// sample.  Each crossed boundary is therefore detected at exactly one
/// sample, never two.
pub proof fn lemma_wrap_count_matches_beats(s: SessionState, rate: u32, begin: int, n: nat)
    requires
        1 <= rate,
        1 <= s.tempo_bpm,
        s.tempo_bpm < 60 * rate,
    ensures
        wrap_count(s, rate, begin, n) == beat_number(s, rate, sample_tick(begin, rate, n - 1))
            - beat_number(s, rate, sample_tick(begin, rate, -1)),
    decreases n,
{
    if n > 0 {
        lemma_wrap_count_matches_beats(s, rate, begin, (n - 1) as nat);
        lemma_wrap_iff_beat_increment(s, rate, sample_tick(begin, rate, n - 1));
        assert(sample_tick(begin, rate, n - 1) - TICKS_PER_SAMPLE == sample_tick(
            begin,
            rate,
            n - 2,
        ));
    }
}

/// The click envelope, exactly: a rendered sample carries a tone precisely
/// when transport plays, the beat position is not a count-in, and the
/// sample lies within the envelope length of the last detected wrap; and
/// the sample at a detected wrap (playing, beat non-negative) always
/// carries a tone, with the synth phase restarted.
pub proof fn lemma_click_envelope(
    s: SessionState,
    rate: u32,
    quantum: u32,
    tau: int,
    st: ClickState,
)
    requires
        1 <= rate,
        0 <= tau <= MAX_CLICK_TICK,
    ensures
        (step_sample(s, rate, quantum, tau, st) is Tone) <==> s.playing && beat_subticks(
            s,
            rate,
            tau,
        ) >= 0 && in_envelope(rate, tau, wrap_update(s, rate, tau, st)),
        s.playing && beat_subticks(s, rate, tau) >= 0 && wrap_at(s, rate, tau) ==> step_sample(
            s,
            rate,
            quantum,
            tau,
            st,
        ) == (ClickSample::Tone { high: at_bar_start(s, rate, quantum, tau), synth_clock: 0u64 }),
{
}

/// Apply one control command to the timeline at `invoke_micros`.
///
/// Tempo nudges move by one whole BPM and clamp to the representable
/// range; toggling stops transport at `invoke_micros` when playing, and
/// otherwise starts it there, requesting beat 0 at that time under the
/// active quantum (quantized launch).
pub fn apply_command(session: &mut SessionState, cmd: Command, invoke_micros: i64, quantum: u32)
    requires
        old(session).wf(),
        0 <= invoke_micros <= MAX_TIME_MICROS,
    ensures
        final(session).wf(),
        command_applied(*old(session), *final(session), cmd, invoke_micros as int),
{
    match cmd {
        Command::TempoIncrease => {
            let t = session.tempo();
            let target = if t >= TEMPO_MAX_BPM {
                TEMPO_MAX_BPM
            } else {
                t + 1
            };
            session.set_tempo(target, invoke_micros);
        },
        Command::TempoDecrease => {
            let t = session.tempo();
            let target = if t <= TEMPO_MIN_BPM {
                TEMPO_MIN_BPM
            } else {
                t - 1
            };
            session.set_tempo(target, invoke_micros);
        },
        Command::TogglePlaying => {
            if session.is_playing() {
                session.set_is_playing(false, invoke_micros as u64);
            } else {
                session.set_is_playing_and_request_beat_at_time(
                    true,
                    invoke_micros as u64,
                    0,
                    quantum,
                );
            }
        },
    }
}

} // verus!
