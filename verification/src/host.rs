//! One iteration of the host loop: what the machine does for the clocks
//! that fired.

use vstd::prelude::*;
use crate::cpu::Cpu;
use crate::fault::Fault;
use crate::machine::Machine;
use crate::semantics::{step, timers_decremented};
use crate::timing::DoTick;

verus! {

/// Whether `activity` is among the activities `fired`.
pub fn has_fired(fired: &[DoTick], activity: DoTick) -> (found: bool)
    ensures
        found == fired@.contains(activity),
{
    let mut k: usize = 0;
    while k < fired.len()
        invariant
            k <= fired@.len(),
            forall|j: int| 0 <= j < k ==> fired@[j] != activity,
        decreases fired@.len() - k,
    {
        if fired[k] == activity {
            return true;
        }
        k += 1;
    }
    false
}

/// The machine after one iteration of the host loop in which the
/// activities `fired` are due, or the fault that stopped it.
///
/// The instruction comes first, so that the timers count down after it
/// has read or set them. A machine that is paused does neither.
pub open spec fn cycle(
    s: Machine,
    fired: Seq<DoTick>,
    keys: Seq<bool>,
    paused: bool,
    random: u8,
) -> Result<Machine, Fault> {
    let ticked = if !paused && fired.contains(DoTick::Cpu) {
        step(s, keys, random)
    } else {
        Ok(s)
    };
    match ticked {
        Ok(next) => if !paused && fired.contains(DoTick::SoundDelay) {
            Ok(timers_decremented(next))
        } else {
            Ok(next)
        },
        Err(fault) => Err(fault),
    }
}

/// Does the machine's part of one iteration of the host loop, and says
/// whether the screen is to be shown.
///
/// Where the instruction clock fired, one instruction runs; where the
/// timer clock fired, the timers then count down; the screen is shown
/// last, where the display clock fired, so that it shows what this
/// iteration did. A paused machine runs no instruction and keeps its
/// timers, but its screen is still shown. On a fault the machine is left
/// as it was.
pub fn run_cycle(cpu: &mut Cpu, fired: &[DoTick], keys: &[bool; 16], paused: bool) -> (outcome:
    Result<bool, Fault>)
    requires
        old(cpu)@.wf(),
    ensures
        final(cpu)@.wf(),
        exists|random: u8|
            match #[trigger] cycle(old(cpu)@, fired@, keys@, paused, random) {
                Ok(next) => outcome == Ok::<bool, Fault>(fired@.contains(DoTick::Display))
                    && final(cpu)@ == next,
                Err(fault) => outcome == Err::<bool, Fault>(fault) && final(cpu)@ == old(cpu)@,
            },
{
    let ghost before = cpu@;
    let ghost mut random: u8 = 0;
    if !paused && has_fired(fired, DoTick::Cpu) {
        let ticked = cpu.tick(keys);
        proof {
            random = choose|random: u8| #[trigger]
                crate::cpu::settles(before, step(before, keys@, random), cpu@, ticked);
        }
        match ticked {
            Err(fault) => {
                assert(cycle(before, fired@, keys@, paused, random) is Err);
                return Err(fault);
            },
            Ok(()) => {},
        }
    }
    if !paused && has_fired(fired, DoTick::SoundDelay) {
        cpu.decrement_timers();
    }
    let render = has_fired(fired, DoTick::Display);
    assert(cycle(before, fired@, keys@, paused, random) == Ok::<Machine, Fault>(cpu@));
    Ok(render)
}

} // verus!
