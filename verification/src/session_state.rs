//! A local model of the shared musical timeline.
//!
//! The timeline maps host time to a beat position that advances at the
//! current tempo, and carries the transport (playing/stopped) intention.
//! Peers exchange it through a capture/commit snapshot discipline; this
//! crate keeps its own snapshot value and mutates it locally.
//!
//! Beat positions are rational numbers, so the model stores them scaled:
//! one beat is [`BEAT_UNIT`] *beat units* (60 000 000), chosen so that a
//! whole-BPM tempo advances the position by exactly `bpm` units per
//! microsecond.  All beat and phase arithmetic is therefore exact.
//!
//! The timeline is a line through an anchor: at `origin_micros` the beat
//! position is `beat_origin_units`, and it grows by `tempo_bpm` units per
//! microsecond.  Re-mapping requests move the anchor; tempo changes move
//! the anchor to the change time first, which keeps the position
//! continuous.

use vstd::prelude::*;

verus! {

use vstd::arithmetic::div_mod::lemma_fundamental_div_mod;
use vstd::arithmetic::div_mod::lemma_fundamental_div_mod_converse;
use vstd::arithmetic::div_mod::lemma_mod_bound;

/// Beat units per beat: beat positions are stored multiplied by this.
pub const BEAT_UNIT: i64 = 60_000_000;

/// Slowest representable tempo, in beats per minute.
pub const TEMPO_MIN_BPM: u32 = 20;

/// Fastest representable tempo, in beats per minute.
pub const TEMPO_MAX_BPM: u32 = 999;

/// Tempo of a freshly created timeline, in beats per minute.
pub const DEFAULT_TEMPO_BPM: u32 = 120;

/// Largest host time (microseconds, 2^48: about nine years) the timeline
/// accepts; keeps the scaled beat arithmetic inside `i64`.
pub const MAX_TIME_MICROS: i64 = 0x1_0000_0000_0000;

/// Largest magnitude of a stored anchor beat position (2^62 beat units);
/// anchor moves saturate here, far beyond any reachable beat count.
pub const MAX_BEAT_UNITS: i64 = 0x4000_0000_0000_0000;

/// `v` clipped into the representable anchor range.
pub open spec fn clip_units(v: int) -> int {
    if v < -MAX_BEAT_UNITS {
        -MAX_BEAT_UNITS as int
    } else if v > MAX_BEAT_UNITS {
        MAX_BEAT_UNITS as int
    } else {
        v
    }
}

/// The quantum (bar length) in beat units.
pub open spec fn quantum_units(quantum: u32) -> int {
    quantum * BEAT_UNIT
}

/// The current local state of the shared timeline: a beat/time mapping and
/// the transport intention.
pub struct SessionState {
    /// Tempo in whole beats per minute, within `[TEMPO_MIN_BPM, TEMPO_MAX_BPM]`.
    pub tempo_bpm: u32,
    /// Beat position at the anchor, in beat units.
    pub beat_origin_units: i64,
    /// Host time of the anchor, in microseconds.
    pub origin_micros: i64,
    /// Whether transport is (or is requested to be) playing.
    pub playing: bool,
    /// Host time at which the last transport start/stop takes effect.
    pub playing_time_micros: u64,
}

impl SessionState {
    /// Range invariant that keeps every query and anchor move inside `i64`.
    pub open spec fn wf(&self) -> bool {
        &&& TEMPO_MIN_BPM <= self.tempo_bpm <= TEMPO_MAX_BPM
        &&& 0 <= self.origin_micros <= MAX_TIME_MICROS
        &&& -MAX_BEAT_UNITS <= self.beat_origin_units <= MAX_BEAT_UNITS
        &&& self.playing_time_micros <= MAX_TIME_MICROS
    }

    /// The beat position at host time `t`, in beat units: the line through
    /// the anchor with slope `tempo_bpm` units per microsecond.
    pub open spec fn beat_units_at(&self, t: int) -> int {
        self.beat_origin_units + (t - self.origin_micros) * self.tempo_bpm
    }

    /// The phase at host time `t` for `quantum`, in beat units: the beat
    /// position reduced into `[0, quantum)` beats.  `%` is Euclidean, so
    /// negative (count-in) beat positions reduce correctly as well.
    pub open spec fn phase_units_at(&self, t: int, quantum: u32) -> int {
        self.beat_units_at(t) % quantum_units(quantum)
    }

    /// A fresh timeline: 120 BPM, beat 0 at host time 0, stopped.
    pub fn new() -> (s: SessionState)
        ensures
            s.wf(),
            s.tempo_bpm == DEFAULT_TEMPO_BPM,
            s.beat_origin_units == 0,
            s.origin_micros == 0,
            !s.playing,
            s.playing_time_micros == 0,
    {
        SessionState {
            tempo_bpm: DEFAULT_TEMPO_BPM,
            beat_origin_units: 0,
            origin_micros: 0,
            playing: false,
            playing_time_micros: 0,
        }
    }

    /// The timeline's tempo, in whole beats per minute.
    pub fn tempo(&self) -> (bpm: u32)
        ensures
            bpm == self.tempo_bpm,
    {
        self.tempo_bpm
    }

    /// Set the tempo to `bpm` (clamped into the representable range),
    /// taking effect at `at_time`: the anchor moves to `at_time` so the
    /// beat position stays continuous, then the slope changes.
    pub fn set_tempo(&mut self, bpm: u32, at_time: i64)
        requires
            old(self).wf(),
            0 <= at_time <= MAX_TIME_MICROS,
        ensures
            final(self).wf(),
            final(self).tempo_bpm == if bpm < TEMPO_MIN_BPM {
                TEMPO_MIN_BPM
            } else if bpm > TEMPO_MAX_BPM {
                TEMPO_MAX_BPM
            } else {
                bpm
            },
            final(self).origin_micros == at_time,
            final(self).beat_origin_units == clip_units(old(self).beat_units_at(at_time as int)),
            final(self).playing == old(self).playing,
            final(self).playing_time_micros == old(self).playing_time_micros,
    {
        let b = self.beat_units_now(at_time);
        self.beat_origin_units = b;
        self.origin_micros = at_time;
        self.tempo_bpm = if bpm < TEMPO_MIN_BPM {
            TEMPO_MIN_BPM
        } else if bpm > TEMPO_MAX_BPM {
            TEMPO_MAX_BPM
        } else {
            bpm
        };
    }

    /// The beat position at `time` in beat units.  The `_quantum` argument
    /// is kept for interface parity: with this single-peer model the beat
    /// magnitude does not depend on the quantum.
    pub fn beat_at_time(&self, time: i64, _quantum: u32) -> (b: i64)
        requires
            self.wf(),
            -MAX_TIME_MICROS <= time <= MAX_TIME_MICROS,
        ensures
            b == self.beat_units_at(time as int),
            -0x4800_0000_0000_0000 <= b <= 0x4800_0000_0000_0000,
    {
        let dt = time - self.origin_micros;
        proof {
            assert(-0x800_0000_0000_0000 <= dt * (self.tempo_bpm as i64)
                <= 0x800_0000_0000_0000) by (nonlinear_arith)
                requires
                    -0x2_0000_0000_0000 <= dt <= 0x2_0000_0000_0000,
                    0 <= self.tempo_bpm <= 0x400,
            ;
        }
        self.beat_origin_units + dt * (self.tempo_bpm as i64)
    }

    /// The phase at `time` for `quantum`, in beat units, in
    /// `[0, quantum * BEAT_UNIT)`.
    pub fn phase_at_time(&self, time: i64, quantum: u32) -> (p: i64)
        requires
            self.wf(),
            -MAX_TIME_MICROS <= time <= MAX_TIME_MICROS,
            1 <= quantum <= 1024,
        ensures
            p == self.phase_units_at(time as int, quantum),
            0 <= p < quantum_units(quantum),
    {
        let b = self.beat_at_time(time, quantum);
        mod_euclid_i64(b, (quantum as i64) * BEAT_UNIT)
    }

    /// The earliest host time whose beat position has reached
    /// `beat_units`: the inverse of [`Self::beat_at_time`] at microsecond
    /// granularity.  When `beat_units - beat_origin_units` is divisible by
    /// the tempo the mapping is exact.  `_quantum` is kept for parity.
    pub fn time_at_beat(&self, beat_units: i64, _quantum: u32) -> (t: i64)
        requires
            self.wf(),
            -MAX_BEAT_UNITS <= beat_units <= MAX_BEAT_UNITS,
        ensures
            self.beat_units_at(t as int) >= beat_units,
            self.beat_units_at(t - 1) < beat_units,
    {
        let d: i128 = (beat_units as i128) - (self.beat_origin_units as i128);
        let m: i128 = self.tempo_bpm as i128;
        let (q, r) = div_mod_euclid_i128(d, m);
        proof {
            lemma_fundamental_div_mod(d as int, m as int);
            // |d| <= 2^63 and m >= 20, so the quotient is well inside 2^59
            assert(-0x800_0000_0000_0000 <= q <= 0x800_0000_0000_0000) by (nonlinear_arith)
                requires
                    d == m * q + r,
                    0 <= r < m,
                    20 <= m <= 1000,
                    -0x8000_0000_0000_0000 <= d <= 0x8000_0000_0000_0000,
            ;
        }
        let c: i128 = if r == 0 {
            q
        } else {
            q + 1
        };
        let t: i64 = self.origin_micros + (c as i64);
        proof {
            let ci = c as int;
            let ti = t as int;
            assert(ci * m >= d && (ci - 1) * m < d) by (nonlinear_arith)
                requires
                    d == m * q + r,
                    0 <= r < m,
                    m >= 1,
                    ci == if r == 0 {
                        q as int
                    } else {
                        q + 1
                    },
            ;
            assert((ti - self.origin_micros) * (self.tempo_bpm as int) == ci * m)
                by (nonlinear_arith)
                requires
                    ti - self.origin_micros == ci,
                    self.tempo_bpm as int == m,
            ;
            assert(((ti - 1) - self.origin_micros) * (self.tempo_bpm as int) == (ci - 1) * m)
                by (nonlinear_arith)
                requires
                    ti - self.origin_micros == ci,
                    self.tempo_bpm as int == m,
            ;
        }
        t
    }

    /// Re-map the timeline so that the beat position at `time` is exactly
    /// `beat_units`.  This is the single-peer behaviour; in a session with
    /// peers the shared service would instead defer the mapping to the
    /// next time whose phase matches.  `_quantum` is kept for parity.
    pub fn request_beat_at_time(&mut self, beat_units: i64, time: i64, _quantum: u32)
        requires
            old(self).wf(),
            -MAX_BEAT_UNITS <= beat_units <= MAX_BEAT_UNITS,
            0 <= time <= MAX_TIME_MICROS,
        ensures
            final(self).wf(),
            final(self).beat_origin_units == beat_units,
            final(self).origin_micros == time,
            final(self).tempo_bpm == old(self).tempo_bpm,
            final(self).playing == old(self).playing,
            final(self).playing_time_micros == old(self).playing_time_micros,
    {
        self.beat_origin_units = beat_units;
        self.origin_micros = time;
    }

    /// Unconditionally re-map `beat_units` to `time`, like
    /// [`Self::request_beat_at_time`]; in the shared service this variant
    /// would override peers rather than quantize, which coincides here.
    pub fn force_beat_at_time(&mut self, beat_units: i64, time: u64, quantum: u32)
        requires
            old(self).wf(),
            -MAX_BEAT_UNITS <= beat_units <= MAX_BEAT_UNITS,
            time <= MAX_TIME_MICROS,
        ensures
            final(self).wf(),
            final(self).beat_origin_units == beat_units,
            final(self).origin_micros == time,
            final(self).tempo_bpm == old(self).tempo_bpm,
            final(self).playing == old(self).playing,
            final(self).playing_time_micros == old(self).playing_time_micros,
    {
        self.request_beat_at_time(beat_units, time as i64, quantum);
    }

    /// Record the intention to start or stop transport at `time`.
    pub fn set_is_playing(&mut self, is_playing: bool, time: u64)
        requires
            old(self).wf(),
            time <= MAX_TIME_MICROS,
        ensures
            final(self).wf(),
            final(self).playing == is_playing,
            final(self).playing_time_micros == time,
            final(self).tempo_bpm == old(self).tempo_bpm,
            final(self).beat_origin_units == old(self).beat_origin_units,
            final(self).origin_micros == old(self).origin_micros,
    {
        self.playing = is_playing;
        self.playing_time_micros = time;
    }

    /// Is transport playing (or requested to play)?
    pub fn is_playing(&self) -> (p: bool)
        ensures
            p == self.playing,
    {
        self.playing
    }

    /// Host time at which the last transport start/stop takes effect.
    pub fn time_for_is_playing(&self) -> (t: u64)
        ensures
            t == self.playing_time_micros,
    {
        self.playing_time_micros
    }

    /// If transport is playing, map `beat_units` to the transport start
    /// time; a no-op otherwise.
    pub fn request_beat_at_start_playing_time(&mut self, beat_units: i64, quantum: u32)
        requires
            old(self).wf(),
            -MAX_BEAT_UNITS <= beat_units <= MAX_BEAT_UNITS,
        ensures
            final(self).wf(),
            final(self).playing == old(self).playing,
            final(self).playing_time_micros == old(self).playing_time_micros,
            final(self).tempo_bpm == old(self).tempo_bpm,
            old(self).playing ==> final(self).beat_origin_units == beat_units
                && final(self).origin_micros == old(self).playing_time_micros,
            !old(self).playing ==> final(self).beat_origin_units == old(self).beat_origin_units
                && final(self).origin_micros == old(self).origin_micros,
    {
        if self.playing {
            let t = self.playing_time_micros;
            self.request_beat_at_time(beat_units, t as i64, quantum);
        }
    }

    /// Start or stop transport at `time` and, when starting, map
    /// `beat_units` to that time (quantized launch).
    pub fn set_is_playing_and_request_beat_at_time(
        &mut self,
        is_playing: bool,
        time: u64,
        beat_units: i64,
        quantum: u32,
    )
        requires
            old(self).wf(),
            time <= MAX_TIME_MICROS,
            -MAX_BEAT_UNITS <= beat_units <= MAX_BEAT_UNITS,
        ensures
            final(self).wf(),
            final(self).playing == is_playing,
            final(self).playing_time_micros == time,
            final(self).tempo_bpm == old(self).tempo_bpm,
            is_playing ==> final(self).beat_origin_units == beat_units
                && final(self).origin_micros == time,
            !is_playing ==> final(self).beat_origin_units == old(self).beat_origin_units
                && final(self).origin_micros == old(self).origin_micros,
    {
        self.set_is_playing(is_playing, time);
        self.request_beat_at_start_playing_time(beat_units, quantum);
    }

    /// The beat position at `at_time`, clipped into the anchor range.
    fn beat_units_now(&self, at_time: i64) -> (b: i64)
        requires
            self.wf(),
            0 <= at_time <= MAX_TIME_MICROS,
        ensures
            b == clip_units(self.beat_units_at(at_time as int)),
    {
        let dt = at_time - self.origin_micros;
        proof {
            assert(-0x800_0000_0000_0000 <= dt * (self.tempo_bpm as i64)
                <= 0x800_0000_0000_0000) by (nonlinear_arith)
                requires
                    -0x2_0000_0000_0000 <= dt <= 0x2_0000_0000_0000,
                    0 <= self.tempo_bpm <= 0x400,
            ;
        }
        let b = self.beat_origin_units + dt * (self.tempo_bpm as i64);
        if b > MAX_BEAT_UNITS {
            MAX_BEAT_UNITS
        } else if b < -MAX_BEAT_UNITS {
            -MAX_BEAT_UNITS
        } else {
            b
        }
    }
}

/// Euclidean quotient and remainder of `a` by `m`, matching the `/` and
/// `%` of specifications.
fn div_mod_euclid_i128(a: i128, m: i128) -> (qr: (i128, i128))
    requires
        1 <= m,
        i128::MIN < a,
    ensures
        qr.0 == a as int / m as int,
        qr.1 == a as int % m as int,
        0 <= qr.1 < m,
{
    if a >= 0 {
        proof {
            lemma_mod_bound(a as int, m as int);
        }
        (a / m, a % m)
    } else {
        let an = -a;
        let dn = an / m;
        let rn = an % m;
        proof {
            lemma_fundamental_div_mod(an as int, m as int);
            lemma_mod_bound(an as int, m as int);
        }
        if rn == 0 {
            proof {
                assert((m as int) * (-(dn as int)) == -((m as int) * (dn as int)))
                    by (nonlinear_arith);
                lemma_fundamental_div_mod_converse(a as int, m as int, -(dn as int), 0int);
            }
            (-dn, 0)
        } else {
            proof {
                assert((m as int) * (-(dn as int) - 1) == -((m as int) * (dn as int)) - m)
                    by (nonlinear_arith);
                lemma_fundamental_div_mod_converse(
                    a as int,
                    m as int,
                    -(dn as int) - 1,
                    m - rn as int,
                );
            }
            (-dn - 1, m - rn)
        }
    }
}

/// Euclidean remainder of `b` by `m`: the value in `[0, m)` congruent to
/// `b`, matching the `%` of specifications.
pub fn mod_euclid_i64(b: i64, m: i64) -> (r: i64)
    requires
        1 <= m,
        i64::MIN < b,
    ensures
        r == b as int % m as int,
{
    if b >= 0 {
        proof {
            lemma_mod_bound(b as int, m as int);
        }
        b % m
    } else {
        let bn = -b;
        let rn = bn % m;
        proof {
            lemma_fundamental_div_mod(bn as int, m as int);
            lemma_mod_bound(bn as int, m as int);
        }
        if rn == 0 {
            proof {
                assert((m as int) * (-((bn as int) / (m as int))) == -((m as int) * ((
                bn as int) / (m as int)))) by (nonlinear_arith);
                lemma_fundamental_div_mod_converse(
                    b as int,
                    m as int,
                    -((bn as int) / (m as int)),
                    0int,
                );
            }
            0
        } else {
            proof {
                assert((m as int) * (-((bn as int) / (m as int)) - 1) == -((m as int) * ((
                bn as int) / (m as int))) - m) by (nonlinear_arith);
                lemma_fundamental_div_mod_converse(
                    b as int,
                    m as int,
                    -((bn as int) / (m as int)) - 1,
                    m - rn as int,
                );
            }
            m - rn
        }
    }
}

} // verus!
