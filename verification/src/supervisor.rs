//! The run loop's control skeleton: the supervisor's phases and the
//! operator's stop command.
//!
//! A run moves through `Starting → Running → StopRequested → Draining →
//! Done`, each phase left at most once and never re-entered. The
//! surrounding binary raises the events: it spawns the pool, reads
//! operator input (the literal word "stop", compared without regard to
//! ASCII case, or end of input), sets the stop flag, and joins every
//! worker and the reporter before the final summary.

use vstd::prelude::*;

verus! {

/// The phases of one run, in the order they are passed through.
#[derive(Clone, Copy, Debug, PartialEq, Eq, Structural)]
pub enum Phase {
    /// Building the request, the shared state and the quotas.
    Starting,
    /// Workers and reporter running; blocked on operator input.
    Running,
    /// The operator asked for a stop, or input ended.
    StopRequested,
    /// The stop flag is set; waiting for every loop to observe it.
    Draining,
    /// Everything joined; the final snapshot is read and printed.
    Done,
}

/// The events the surrounding binary raises against the supervisor.
#[derive(Clone, Copy, Debug, PartialEq, Eq, Structural)]
pub enum SupervisorEvent {
    /// All workers and the reporter have been spawned.
    WorkersSpawned,
    /// The operator typed the stop command.
    StopCommand,
    /// Operator input reached its end: treated the same as a stop.
    InputClosed,
    /// The shared stop flag has been set.
    SignalSet,
    /// Every worker and the reporter have terminated.
    AllJoined,
}

/// How far along a phase is: each transition moves strictly forward or
/// stays put, so no phase is ever re-entered.
pub open spec fn phase_rank(p: Phase) -> int {
    match p {
        Phase::Starting => 0,
        Phase::Running => 1,
        Phase::StopRequested => 2,
        Phase::Draining => 3,
        Phase::Done => 4,
    }
}

/// The supervisor's transition rule. An event that does not apply to the
/// current phase leaves it unchanged.
pub open spec fn step_spec(p: Phase, e: SupervisorEvent) -> Phase {
    match (p, e) {
        (Phase::Starting, SupervisorEvent::WorkersSpawned) => Phase::Running,
        (Phase::Running, SupervisorEvent::StopCommand) => Phase::StopRequested,
        (Phase::Running, SupervisorEvent::InputClosed) => Phase::StopRequested,
        (Phase::StopRequested, SupervisorEvent::SignalSet) => Phase::Draining,
        (Phase::Draining, SupervisorEvent::AllJoined) => Phase::Done,
        _ => p,
    }
}

/// Advance the supervisor by one event. Phases only move forward, and
/// `Done` is terminal: the final state is reached exactly once per run.
pub fn supervisor_step(p: Phase, e: SupervisorEvent) -> (r: Phase)
    ensures
        r == step_spec(p, e),
        phase_rank(r) >= phase_rank(p),
        p is Done ==> r is Done,
{
    match (p, e) {
        (Phase::Starting, SupervisorEvent::WorkersSpawned) => Phase::Running,
        (Phase::Running, SupervisorEvent::StopCommand) => Phase::StopRequested,
        (Phase::Running, SupervisorEvent::InputClosed) => Phase::StopRequested,
        (Phase::StopRequested, SupervisorEvent::SignalSet) => Phase::Draining,
        (Phase::Draining, SupervisorEvent::AllJoined) => Phase::Done,
        _ => p,
    }
}

/// Every transition moves the phase forward or leaves it in place; no
/// run ever returns to an earlier phase.
pub proof fn lemma_phases_monotone(p: Phase, e: SupervisorEvent)
    ensures
        phase_rank(step_spec(p, e)) >= phase_rank(p),
{
}

/// The lowercased value of an ASCII byte: letters `A` through `Z` are
/// mapped to their lowercase forms, everything else is unchanged.
pub open spec fn ascii_lower(b: u8) -> u8 {
    if 65 <= b && b <= 90 {
        (b + 32) as u8
    } else {
        b
    }
}

/// The operator's stop token: exactly the ASCII word "stop" (the bytes
/// `s`, `t`, `o`, `p`), compared without regard to case.
pub open spec fn is_stop_line(s: Seq<u8>) -> bool {
    s.map_values(|b: u8| ascii_lower(b)) == seq![115u8, 116u8, 111u8, 112u8]
}

/// Lowercase one ASCII byte.
fn ascii_lower_byte(b: u8) -> (r: u8)
    ensures
        r == ascii_lower(b),
{
    if 65 <= b && b <= 90 {
        b + 32
    } else {
        b
    }
}

/// Whether one line of operator input is the stop command: the word
/// "stop" in any ASCII case. Anything else is ignored by the run loop.
pub fn is_stop_command(line: &Vec<u8>) -> (r: bool)
    ensures
        r == is_stop_line(line@),
{
    let ghost mapped = line@.map_values(|b: u8| ascii_lower(b));
    if line.len() != 4 {
        proof {
            assert(mapped.len() == line@.len());
        }
        return false;
    }
    let r = ascii_lower_byte(line[0]) == 115 && ascii_lower_byte(line[1]) == 116
        && ascii_lower_byte(line[2]) == 111 && ascii_lower_byte(line[3]) == 112;
    proof {
        assert(mapped.len() == 4);
        assert(mapped[0] == ascii_lower(line@[0]));
        assert(mapped[1] == ascii_lower(line@[1]));
        assert(mapped[2] == ascii_lower(line@[2]));
        assert(mapped[3] == ascii_lower(line@[3]));
        if r {
            assert(mapped =~= seq![115u8, 116u8, 111u8, 112u8]);
        }
    }
    r
}

} // verus!
