//! The per-buffer engine: everything the audio callback decides.
//!
//! Once per hardware buffer the driver supplies a host-clock reading,
//! the buffer length and the predicted output latency.  The engine then
//! runs the fixed pipeline: filter the clock reading through the
//! [`HostTimeFilter`], refresh the cached quantum from the non-blocking
//! read attempt, apply at most one pending command to the timeline, and
//! render the buffer of click decisions with latency compensation.  It
//! also owns the running sample counter, advanced by one buffer length per
//! invocation and never reset while the stream lives.
//!
//! Channel fan-out ([`fan_out`]) duplicates a mono buffer across the
//! driver's interleaved output channels; the element type is generic, so
//! the caller may use it on synthesized waveform samples of any kind.

use vstd::prelude::*;

verus! {

use crate::click_scheduler::ClickSample;
use crate::click_scheduler::ClickState;
use crate::click_scheduler::MAX_BUFFER_SAMPLES;
use crate::click_scheduler::MAX_SAMPLE_RATE;
use crate::click_scheduler::apply_command;
use crate::click_scheduler::command_applied;
use crate::click_scheduler::render;
use crate::click_scheduler::render_buffer;
use crate::control_channel::Command;
use crate::control_channel::quantum_or_cached;
use crate::host_time_filter::HostTimeFilter;
use crate::host_time_filter::MAX_CLOCK_MICROS;
use crate::host_time_filter::MAX_SAMPLE_CLOCK;
use crate::host_time_filter::TimeDataPoint;
use crate::host_time_filter::estimate_at;
use crate::host_time_filter::ring_insert;
use crate::host_time_filter::saturate_i64;
use crate::session_state::SessionState;

/// Ceiling for the filtered invocation time (2^47 microseconds): estimates
/// are clamped into `[0, INVOKE_CEILING_MICROS]` before use, so a degenerate
/// extrapolation can never push the timeline out of its domain.  Negative
/// estimates are clamped to zero rather than treated as an error.
pub const INVOKE_CEILING_MICROS: i64 = 0x8000_0000_0000;

/// `v` clamped into `[0, INVOKE_CEILING_MICROS]`.
pub open spec fn clamp_invoke(v: int) -> int {
    if v < 0 {
        0
    } else if v > INVOKE_CEILING_MICROS {
        INVOKE_CEILING_MICROS as int
    } else {
        v
    }
}

/// The filter ring's contents after this buffer's observation is inserted.
pub open spec fn updated_points(
    f: HostTimeFilter,
    clock_micros: i64,
    sample_clock: u64,
) -> Seq<TimeDataPoint> {
    ring_insert(
        f.points(),
        f.next_slot(),
        f.capacity(),
        TimeDataPoint { sample_clock, host_clock: clock_micros as u64 },
    )
}

/// The invocation host time the engine works with: the least-squares
/// estimate at the current sample count, clamped into the usable range.
pub open spec fn invoke_time(f: HostTimeFilter, clock_micros: i64, sample_clock: u64) -> int {
    clamp_invoke(
        saturate_i64(estimate_at(updated_points(f, clock_micros, sample_clock), sample_clock as int)),
    )
}

/// The audio-side engine state: exclusively owned by the render context.
pub struct AudioEngine {
    /// Clock-domain reconciliation filter.
    pub filter: HostTimeFilter,
    /// The local timeline snapshot the callback mutates and renders from.
    pub session: SessionState,
    /// Click envelope and synth-phase state.
    pub click: ClickState,
    /// Quantum from the last successful non-blocking read.
    pub cached_quantum: u32,
    /// The stream's negotiated sample rate, fixed at construction.
    pub sample_rate: u32,
    /// Samples rendered since stream start; never reset mid-stream.
    pub sample_clock: u64,
}

impl AudioEngine {
    /// Invariant tying the parts together.
    pub open spec fn wf(&self) -> bool {
        &&& self.filter.wf()
        &&& self.session.wf()
        &&& self.click.wf(self.sample_rate)
        &&& 1 <= self.sample_rate <= MAX_SAMPLE_RATE
        &&& 1 <= self.cached_quantum <= 1024
    }

    /// A fresh engine for a stream at `sample_rate`, with the initial
    /// shared `quantum`: empty filter, default timeline, no click yet,
    /// sample counter at zero.
    pub fn new(sample_rate: u32, quantum: u32) -> (e: AudioEngine)
        requires
            1 <= sample_rate <= MAX_SAMPLE_RATE,
            1 <= quantum <= 1024,
        ensures
            e.wf(),
            e.filter.points() =~= Seq::<TimeDataPoint>::empty(),
            e.session.tempo_bpm == crate::session_state::DEFAULT_TEMPO_BPM,
            e.session.beat_origin_units == 0 && e.session.origin_micros == 0,
            !e.session.playing && e.session.playing_time_micros == 0,
            e.click.click_tick == 0 && e.click.synth_clock == 0,
            e.cached_quantum == quantum,
            e.sample_rate == sample_rate,
            e.sample_clock == 0,
    {
        AudioEngine {
            filter: HostTimeFilter::new(),
            session: SessionState::new(),
            click: ClickState::new(),
            cached_quantum: quantum,
            sample_rate,
            sample_clock: 0,
        }
    }

    /// One audio-callback invocation, minus the waveform synthesis.
    ///
    /// In order: insert the driver's clock reading into the filter and take
    /// the filtered invocation time; refresh the cached quantum when the
    /// non-blocking read attempt succeeded; apply the drained command (at
    /// most one) to the timeline at the invocation time; render
    /// `buffer_size` click decisions beginning at the latency-compensated
    /// time; advance the sample counter by `buffer_size`.
    pub fn process_buffer(
        &mut self,
        clock_micros: i64,
        buffer_size: usize,
        output_latency_micros: i64,
        quantum_attempt: Option<u32>,
        command: Option<Command>,
    ) -> (out: Vec<ClickSample>)
        requires
            old(self).wf(),
            0 <= clock_micros <= MAX_CLOCK_MICROS,
            old(self).sample_clock + buffer_size <= MAX_SAMPLE_CLOCK,
            buffer_size <= MAX_BUFFER_SAMPLES,
            0 <= output_latency_micros <= INVOKE_CEILING_MICROS,
            quantum_attempt matches Some(q) ==> 1 <= q <= 1024,
        ensures
            final(self).wf(),
            final(self).sample_rate == old(self).sample_rate,
            final(self).filter.points() == updated_points(
                old(self).filter,
                clock_micros,
                old(self).sample_clock,
            ),
            final(self).filter.capacity() == old(self).filter.capacity(),
            final(self).cached_quantum == quantum_or_cached_spec(
                quantum_attempt,
                old(self).cached_quantum,
            ),
            command matches Some(cmd) ==> command_applied(
                old(self).session,
                final(self).session,
                cmd,
                invoke_time(old(self).filter, clock_micros, old(self).sample_clock),
            ),
            command is None ==> final(self).session == old(self).session,
            ({
                let begin = invoke_time(old(self).filter, clock_micros, old(self).sample_clock)
                    + output_latency_micros;
                let q = quantum_or_cached_spec(quantum_attempt, old(self).cached_quantum);
                out@ == render(
                    final(self).session,
                    old(self).sample_rate,
                    q,
                    begin,
                    buffer_size as nat,
                    old(self).click,
                ).0 && final(self).click == render(
                    final(self).session,
                    old(self).sample_rate,
                    q,
                    begin,
                    buffer_size as nat,
                    old(self).click,
                ).1
            }),
            out@.len() == buffer_size,
            final(self).sample_clock == old(self).sample_clock + buffer_size,
    {
        let estimate = self.filter.sample_time_to_host_time(clock_micros, self.sample_clock);
        let invoke = if estimate < 0 {
            0
        } else if estimate > INVOKE_CEILING_MICROS {
            INVOKE_CEILING_MICROS
        } else {
            estimate
        };
        self.cached_quantum = quantum_or_cached(quantum_attempt, self.cached_quantum);
        match command {
            Some(cmd) => {
                apply_command(&mut self.session, cmd, invoke, self.cached_quantum);
            },
            None => {},
        }
        let begin = invoke + output_latency_micros;
        let out = render_buffer(
            &self.session,
            self.cached_quantum,
            begin,
            self.sample_rate,
            buffer_size,
            &mut self.click,
        );
        self.sample_clock = self.sample_clock + buffer_size as u64;
        out
    }

    /// The running sample counter.
    pub fn sample_clock(&self) -> (c: u64)
        ensures
            c == self.sample_clock,
    {
        self.sample_clock
    }
}

/// What the quantum cache holds after a read attempt.
pub open spec fn quantum_or_cached_spec(attempt: Option<u32>, cached: u32) -> u32 {
    match attempt {
        Some(v) => v,
        None => cached,
    }
}

/// The output latency to compensate for, from the driver's report:
/// drivers that cannot relate their playback and callback timestamps
/// report nothing, which counts as zero latency rather than an error.
pub fn latency_or_default(reported_micros: Option<i64>) -> (l: i64)
    ensures
        l == match reported_micros {
            Some(v) => v,
            None => 0,
        },
{
    match reported_micros {
        Some(v) => v,
        None => 0,
    }
}

/// Duplicate each mono sample across `channels` interleaved output slots,
/// as drivers expect: slot `s * channels + c` receives mono sample `s`.
pub fn fan_out<T: Copy>(mono: &Vec<T>, channels: usize) -> (out: Vec<T>)
    requires
        1 <= channels,
        mono@.len() * channels <= usize::MAX,
    ensures
        out@.len() == mono@.len() * channels,
        forall|j: int| 0 <= j < out@.len() ==> out@[j] == mono@[j / (channels as int)],
{
    let mut out: Vec<T> = Vec::new();
    let mut s: usize = 0;
    while s < mono.len()
        invariant
            1 <= channels,
            mono@.len() * channels <= usize::MAX,
            s <= mono@.len(),
            out@.len() == s * channels,
            forall|j: int| 0 <= j < out@.len() ==> out@[j] == mono@[j / channels as int],
        decreases mono@.len() - s,
    {
        proof {
            assert((s + 1) * channels == s * channels + channels) by (nonlinear_arith);
            assert((s + 1) * channels <= mono@.len() * channels) by (nonlinear_arith)
                requires
                    s + 1 <= mono@.len(),
                    channels >= 1,
            ;
        }
        let mut c: usize = 0;
        while c < channels
            invariant
                1 <= channels,
                c <= channels,
                s < mono@.len(),
                mono@.len() * channels <= usize::MAX,
                s * channels + channels <= mono@.len() * channels,
                out@.len() == s * channels + c,
                forall|j: int| 0 <= j < out@.len() ==> out@[j] == mono@[j / channels as int],
            decreases channels - c,
        {
            out.push(mono[s]);
            proof {
                let j = out@.len() - 1;
                vstd::arithmetic::div_mod::lemma_div_multiples_vanish_fancy(
                    s as int,
                    c as int,
                    channels as int,
                );
                assert(j == channels * s + c) by (nonlinear_arith)
                    requires
                        j == s * channels + c,
                ;
                assert(out@[j] == mono@[j / channels as int]);
            }
            c = c + 1;
        }
        s = s + 1;
    }
    out
}

} // verus!
