//! Ticks of the interval timer, the real-time clock's updates, and the
//! speed of the time-stamp counter.

use vstd::prelude::*;
use crate::idt::{set_irq_handler, IrqHandler, IrqHandlers, IRQ_LINES};

verus! {

/// The input frequency of the interval timer in hertz.
pub const PIT_FREQUENCY: usize = 1_193_182;

/// The IRQ line of the interval timer.
pub const PIT_IRQ: u8 = 0;

/// The IRQ line of the real-time clock.
pub const RTC_IRQ: u8 = 8;

/// Microseconds that the time-stamp counter is measured over: a quarter of
/// a second.
pub const CALIBRATION_TIME: u64 = 250_000;

/// The same time in nanoseconds.
pub const CALIBRATION_NANOSECONDS: u64 = 250_000_000;

/// The kernel's clocks.
#[derive(Clone, Copy, Debug, PartialEq, Eq, Structural)]
pub struct Clock {
    pub pit_ticks: usize,
    pub last_rtc_update: usize,
    pub clocks_per_nanosecond: u64,
}

/// How many ticks the interval timer has counted.
pub fn ticks(clock: &Clock) -> (ticks: usize)
    ensures
        ticks == clock.pit_ticks,
{
    clock.pit_ticks
}

/// The tick at which the real-time clock was updated last.
pub fn last_rtc_update(clock: &Clock) -> (tick: usize)
    ensures
        tick == clock.last_rtc_update,
{
    clock.last_rtc_update
}

/// Counts a tick of the interval timer. The count starts again at zero
/// after the largest number.
pub fn pit_interrupt_handler(clock: &mut Clock)
    ensures
        *final(clock) == (Clock {
            pit_ticks: if old(clock).pit_ticks == usize::MAX {
                0
            } else {
                (old(clock).pit_ticks + 1) as usize
            },
            ..*old(clock)
        }),
{
    clock.pit_ticks = if clock.pit_ticks == usize::MAX {
        0
    } else {
        clock.pit_ticks + 1
    };
}

/// Notes the tick at which the real-time clock reports an update.
pub fn rtc_interrupt_handler(clock: &mut Clock)
    ensures
        *final(clock) == (Clock { last_rtc_update: old(clock).pit_ticks, ..*old(clock) }),
{
    clock.last_rtc_update = ticks(clock);
}

/// How many counts of the time-stamp counter a wait of `nanoseconds` takes;
/// the largest number where the product is beyond it.
pub open spec fn wait_counts(clock: Clock, nanoseconds: u64) -> u64 {
    if nanoseconds * clock.clocks_per_nanosecond <= u64::MAX {
        (nanoseconds * clock.clocks_per_nanosecond) as u64
    } else {
        u64::MAX
    }
}

/// How far the time-stamp counter has moved from `start` to `now`, around
/// its end where `now` is the smaller.
pub open spec fn elapsed(start: u64, now: u64) -> u64 {
    if now >= start {
        (now - start) as u64
    } else {
        (now + (u64::MAX - start) + 1) as u64
    }
}

/// Whether a wait of `nanoseconds` that began when the time-stamp counter
/// stood at `start` still goes on when it stands at `now`.
pub fn nanowait(clock: &Clock, nanoseconds: u64, start: u64, now: u64) -> (waiting: bool)
    ensures
        waiting == (elapsed(start, now) < wait_counts(*clock, nanoseconds)),
{
    let delta: u64 = match nanoseconds.checked_mul(clock.clocks_per_nanosecond) {
        Some(delta) => delta,
        None => u64::MAX,
    };
    let gone: u64 = if now >= start {
        now - start
    } else {
        now + (u64::MAX - start) + 1
    };
    gone < delta
}

/// Sets the speed of the time-stamp counter, in counts for each
/// nanosecond, from its readings `a` before and `b` after the calibration
/// time.
pub fn calibrate(clock: &mut Clock, a: u64, b: u64)
    ensures
        *final(clock) == (Clock {
            clocks_per_nanosecond: elapsed(a, b) / CALIBRATION_NANOSECONDS,
            ..*old(clock)
        }),
{
    let gone: u64 = if b >= a {
        b - a
    } else {
        b + (u64::MAX - a) + 1
    };
    clock.clocks_per_nanosecond = gone / CALIBRATION_NANOSECONDS;
}

/// Sets up the clocks: the interval timer and the real-time clock get their
/// IRQ lines, and the counts start at zero.
pub fn init(table: &mut IrqHandlers) -> (clock: Clock)
    requires
        old(table).wf(),
    ensures
        final(table).wf(),
        final(table).handlers@ == old(table).handlers@.update(
            PIT_IRQ as int,
            IrqHandler::Pit,
        ).update(RTC_IRQ as int, IrqHandler::Rtc),
        clock == (Clock { pit_ticks: 0, last_rtc_update: 0, clocks_per_nanosecond: 0 }),
{
    set_irq_handler(table, PIT_IRQ, IrqHandler::Pit);
    set_irq_handler(table, RTC_IRQ, IrqHandler::Rtc);
    Clock { pit_ticks: 0, last_rtc_update: 0, clocks_per_nanosecond: 0 }
}

} // verus!
