//! Command hand-off from the control side to the audio side.
//!
//! The control thread enqueues [`Command`] values; the audio callback
//! drains at most one per rendered buffer, oldest first, so the real-time
//! path never loops over an unbounded backlog.  The queue itself is a
//! plain first-in-first-out buffer; the surrounding program is responsible
//! for sharing it between threads with a non-blocking (`try`-style) lock.
//!
//! The shared quantum travels the same way: the audio side attempts a
//! non-blocking read each buffer and falls back to its cached value when
//! the attempt fails ([`quantum_or_cached`]); a stale quantum for one
//! buffer is tolerated by design.

use vstd::prelude::*;

verus! {

/// A control request, produced by the control thread and applied to the
/// timeline by the audio callback.
#[derive(Clone, Copy, PartialEq, Eq, Structural, Debug)]
pub enum Command {
    /// Raise the tempo by one beat per minute (clamped).
    TempoIncrease,
    /// Lower the tempo by one beat per minute (clamped).
    TempoDecrease,
    /// Stop transport if playing, else start it with a quantized launch.
    TogglePlaying,
}

/// First-in-first-out command queue.
pub struct ControlChannel {
    pub queue: Vec<Command>,
}

impl ControlChannel {
    /// The commands sent but not yet received, oldest first.
    pub open spec fn pending(&self) -> Seq<Command> {
        self.queue@
    }

    pub fn new() -> (c: ControlChannel)
        ensures
            c.pending() =~= Seq::<Command>::empty(),
    {
        ControlChannel { queue: Vec::new() }
    }

    /// Number of commands waiting.
    pub fn len(&self) -> (n: usize)
        ensures
            n == self.pending().len(),
    {
        self.queue.len()
    }

    /// Enqueue `cmd` behind every earlier command.  The queue grows as
    /// needed and the call always succeeds; the `try` in the name is the
    /// interface contract that it never blocks a real-time consumer.
    pub fn try_send(&mut self, cmd: Command)
        ensures
            final(self).pending() == old(self).pending().push(cmd),
    {
        self.queue.push(cmd);
    }

    /// Dequeue the oldest pending command, or return `None` when there is
    /// nothing to receive; never blocks and never waits.
    pub fn try_receive(&mut self) -> (r: Option<Command>)
        ensures
            old(self).pending().len() == 0 ==> r is None && final(self).pending() == old(self).pending(),
            old(self).pending().len() > 0 ==> r == Some(old(self).pending()[0])
                && final(self).pending() == old(self).pending().subrange(
                1,
                old(self).pending().len() as int,
            ),
    {
        if self.queue.len() == 0 {
            None
        } else {
            let cmd = self.queue.remove(0);
            proof {
                assert(old(self).queue@.remove(0) =~= old(self).queue@.subrange(
                    1,
                    old(self).queue@.len() as int,
                ));
            }
            Some(cmd)
        }
    }
}

/// The quantum the audio side works with this buffer: the value read under
/// the shared lock when the non-blocking attempt succeeded, otherwise the
/// previously cached one.
pub fn quantum_or_cached(attempt: Option<u32>, cached: u32) -> (q: u32)
    ensures
        q == match attempt {
            Some(v) => v,
            None => cached,
        },
{
    match attempt {
        Some(v) => v,
        None => cached,
    }
}

} // verus!
