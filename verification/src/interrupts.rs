//! The interrupt flag and the guard that keeps it cleared.

use vstd::prelude::*;

verus! {

/// Ticks of the timer in a second.
pub const TIMER_FREQ: usize = 250;

/// What the kernel knows of the processor's interrupt handling.
#[derive(Clone, Copy, Debug, PartialEq, Eq, Structural)]
pub struct InterruptState {
    /// Whether interrupts are enabled.
    pub enabled: bool,
    /// How many timer interrupts have come in.
    pub ticks: usize,
}

/// How many timer interrupts have come in.
pub fn ticks(state: &InterruptState) -> (ticks: usize)
    ensures
        ticks == state.ticks,
{
    state.ticks
}

/// Interrupts are disabled while this value is alive.
#[derive(Debug)]
pub struct Cli;

impl Cli {
    /// Disables interrupts.
    pub fn new(state: &mut InterruptState) -> (guard: Self)
        ensures
            *final(state) == (InterruptState { enabled: false, ..*old(state) }),
    {
        state.enabled = false;
        Self
    }

    /// Ends the guard and enables interrupts. They must still be disabled:
    /// a guard that finds them enabled has been bypassed.
    pub fn release(self, state: &mut InterruptState)
        requires
            !old(state).enabled,
        ensures
            *final(state) == (InterruptState { enabled: true, ..*old(state) }),
    {
        state.enabled = true;
    }
}

} // verus!
