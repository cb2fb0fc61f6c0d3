//! The one place where the engine's timer is consulted.

use vstd::prelude::*;

verus! {

/// Whether a countdown of `duration_ms` milliseconds has run out after
/// `delta_ms` milliseconds, as bevy's timer judges it: a new one-shot
/// `bevy::core::Timer` of that duration is given one `tick` of that delta
/// and asked whether it is `finished`.
///
/// The contract is taken from the timer's source and not proved here. A new
/// timer has nothing elapsed and is neither paused nor finished, so `tick`
/// adds the delta to the elapsed time and sets the flag that `finished`
/// returns to `elapsed >= duration`. `Duration::from_millis` keeps the order
/// of the millisecond counts, and a single delta cannot overflow a
/// `Duration`.
#[verifier::external_body]
pub(crate) fn finished_after_tick(duration_ms: u64, delta_ms: u64) -> (finished: bool)
    ensures
        finished == (delta_ms >= duration_ms),
{
    let mut timer = bevy::core::Timer::new(bevy::utils::Duration::from_millis(duration_ms), false);
    timer.tick(bevy::utils::Duration::from_millis(delta_ms)).finished()
}

} // verus!
