//! A network-metronome core: it reconciles the audio driver's sample clock
//! with the host clock, accepts control commands without blocking the audio
//! path, and decides for every output sample whether a click should sound.
//!
//! The crate is organised around four pieces:
//! - [`host_time_filter`]: an online linear regression that turns a running
//!   sample count into a low-jitter host-time estimate.
//! - [`control_channel`]: a first-in-first-out command queue and the shared
//!   quantum value, written by a control thread and drained by the audio side.
//! - [`session_state`]: a local model of the shared musical timeline (tempo,
//!   beat, phase, transport), kept in exact integer arithmetic.
//! - [`click_scheduler`] and [`engine`]: the per-buffer algorithm that applies
//!   commands, detects beat boundaries and bounds the click envelope.

pub mod click_scheduler;
pub mod control_channel;
pub mod engine;
pub mod host_time_filter;
pub mod session_state;
