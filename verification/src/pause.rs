//! Pausing and resuming the simulation clock.
use vstd::prelude::*;

verus! {

/// The paused state after a frame: a fresh press of the space key flips it,
/// otherwise it stays.
pub open spec fn spec_toggle_pause(paused: bool, space_just_pressed: bool) -> bool {
    if space_just_pressed { !paused } else { paused }
}

/// The paused state of the virtual clock after one frame: the space key,
/// when it was just pressed in this frame, flips the state; otherwise the
/// state stays as it was.
pub fn toggle_pause(paused: bool, space_just_pressed: bool) -> (next: bool)
    ensures
        next == spec_toggle_pause(paused, space_just_pressed),
{
    if space_just_pressed {
        if paused {
            false
        } else {
            true
        }
    } else {
        paused
    }
}

/// Two presses of the space key bring the clock back to the state it was in,
/// and frames without a press leave it alone.
pub proof fn lemma_two_presses_restore(paused: bool)
    ensures
        spec_toggle_pause(spec_toggle_pause(paused, true), true) == paused,
        spec_toggle_pause(paused, false) == paused,
        spec_toggle_pause(paused, true) != paused,
{
}

} // verus!
