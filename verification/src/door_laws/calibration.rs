//! Calibration.

use vstd::prelude::*;

use crate::action::Action;
use crate::config::Tuning;
use crate::door_laws::homing::{lemma_standing_prefix, previous, stall_left, standing};
use crate::door_model::{CalibrationStep, DoorView, Sample};

verus! {

/// The ticks that a drive to an endstop can still take.
pub open spec fn leg_ticks_left(timeout_ticks: int, tuning: Tuning) -> int {
    if tuning.calibration_timeout_ticks > timeout_ticks {
        tuning.calibration_timeout_ticks - timeout_ticks
    } else {
        1
    }
}

/// The ticks that calibration can still take: a drive to the closed endstop that
/// takes all of its time is not followed by the rest.
pub open spec fn calibration_ticks_left(
    calibration: Option<CalibrationStep>,
    tuning: Tuning,
) -> int {
    match calibration {
        Some(CalibrationStep::DrivingClosed { timeout_ticks, .. }) => leg_ticks_left(
            timeout_ticks as int,
            tuning,
        ) + tuning.calibration_pause_ticks + leg_ticks_left(0, tuning),
        Some(CalibrationStep::Pause { remaining }) => remaining + 1 + leg_ticks_left(0, tuning),
        Some(CalibrationStep::DrivingOpen { timeout_ticks, .. }) => leg_ticks_left(
            timeout_ticks as int,
            tuning,
        ),
        None => 0,
    }
}

/// A tick of calibration leaves the door calibrating, open, or idle; it is
/// calibrating as long as there is a step left, and asleep once there is none. Only
/// the end of a calibration that found the open endstop changes the opening, and
/// the target is left alone.
pub proof fn law_calibration_tick(door: DoorView, s: Sample, step: CalibrationStep)
    ensures
        is_calibration_tick(door, door.calibrate(s, step).door),
        door.calibration is Some ==> is_calibration_tick(door, door.tick(s).door),
{
}

/// What holds of the door `after` a tick of calibration.
pub open spec fn is_calibration_tick(door: DoorView, after: DoorView) -> bool {
    &&& after.state is Calibrating || after.state is Open || after.state is Idle
    &&& after.state is Calibrating <==> after.calibration is Some
    &&& after.calibration is None ==> !after.motor.awake
    &&& !(after.state is Open) ==> after.opening_counts == door.opening_counts
    &&& after.target == door.target
}

/// Each tick brings calibration closer to its end.
pub proof fn law_calibration_advances(door: DoorView, s: Sample)
    requires
        door.calibration is Some,
    ensures
        calibration_ticks_left(door.tick(s).door.calibration, door.tuning)
            < calibration_ticks_left(door.calibration, door.tuning),
        calibration_ticks_left(door.tick(s).door.calibration, door.tuning) >= 0,
        door.tick(s).door.tuning == door.tuning,
        door.tick(s).door.calibration is Some ==> door.tick(s).door.state is Calibrating,
{
}

proof fn lemma_calibration_runs_down(door: DoorView, samples: Seq<Sample>)
    requires
        forall|k: int|
            0 <= k < samples.len() ==> door.run(#[trigger] samples.take(k)).calibration is Some,
    ensures
        calibration_ticks_left(door.run(samples).calibration, door.tuning)
            <= calibration_ticks_left(door.calibration, door.tuning) - samples.len(),
        door.run(samples).tuning == door.tuning,
    decreases samples.len(),
{
    door.lemma_run(samples);
    if samples.len() > 0 {
        let front = samples.drop_last();
        assert forall|k: int| 0 <= k < front.len() implies door.run(
            #[trigger] front.take(k),
        ).calibration is Some by {
            assert(front.take(k) =~= samples.take(k));
        }
        assert(samples.take(samples.len() - 1) =~= front);
        lemma_calibration_runs_down(door, front);
        law_calibration_advances(door.run(front), samples.last());
    }
}

/// Calibration ends, whatever the door does.
pub proof fn law_calibration_ends(door: DoorView, samples: Seq<Sample>)
    requires
        door.calibration is Some,
        samples.len() >= calibration_ticks_left(door.calibration, door.tuning),
    ensures
        exists|k: int|
            0 < k <= calibration_ticks_left(door.calibration, door.tuning) && door.run(
                #[trigger] samples.take(k),
            ).calibration is None,
{
    door.lemma_run(seq![]);
    let n = calibration_ticks_left(door.calibration, door.tuning);
    let s = samples.take(n);
    assert(s.take(n) =~= s);
    if forall|k: int| 0 <= k < n ==> door.run(#[trigger] s.take(k)).calibration is Some {
        lemma_calibration_runs_down(door, s);
        assert(door.run(samples.take(n)).calibration is None);
    } else {
        let k = choose|k: int| 0 <= k < n && !(door.run(#[trigger] s.take(k)).calibration is Some);
        assert(s.take(k) =~= samples.take(k));
        assert(samples.take(0) =~= seq![]);
    }
}

/// Calibration that ends either found the open endstop, and the opening is where
/// it was found, or gave up and kept the opening that was known before. Either way
/// the power is off.
pub proof fn law_calibration_result(door: DoorView, s: Sample)
    requires
        door.calibration is Some,
        door.tick(s).door.calibration is None,
    ensures
        !door.tick(s).door.motor.awake,
        door.tick(s).door.motor.power() == 0,
        ({
            ||| {
                &&& door.tick(s).door.state is Open
                &&& door.calibration->0 is DrivingOpen
                &&& door.stuck(s)
                &&& door.tick(s).door.opening_counts == s.recheck
            }
            ||| {
                &&& door.tick(s).door.state is Idle
                &&& door.tick(s).door.opening_counts == door.opening_counts
            }
        }),
{
}

/// How long a leg of calibration has been standing still, and how long it took.
pub open spec fn leg(step: CalibrationStep) -> (u32, u32) {
    match step {
        CalibrationStep::DrivingClosed { stall_count, timeout_ticks } => (
            stall_count,
            timeout_ticks,
        ),
        CalibrationStep::Pause { .. } => (0, 0),
        CalibrationStep::DrivingOpen { stall_count, timeout_ticks } => (stall_count, timeout_ticks),
    }
}

/// The door is on a leg of calibration, and stands still in all of `samples`,
/// before the leg times out.
pub open spec fn leg_stalls(door: DoorView, samples: Seq<Sample>) -> bool {
    &&& door.calibration is Some
    &&& !(door.calibration->0 is Pause)
    &&& standing(door, samples)
    &&& leg(door.calibration->0).1 + samples.len() < door.tuning.calibration_timeout_ticks
}

proof fn lemma_leg_stalls_add_up(door: DoorView, samples: Seq<Sample>)
    requires
        leg_stalls(door, samples),
        samples.len() < stall_left(
            leg(door.calibration->0).0,
            door.tuning.calibration_stall_ticks,
        ),
    ensures
        door.run(samples).calibration is Some,
        door.run(samples).calibration->0 is DrivingClosed <==> door.calibration->0 is DrivingClosed,
        door.run(samples).calibration->0 is DrivingOpen <==> door.calibration->0 is DrivingOpen,
        leg(door.run(samples).calibration->0).0 == leg(door.calibration->0).0 + samples.len(),
        leg(door.run(samples).calibration->0).1 == leg(door.calibration->0).1 + samples.len(),
        door.run(samples).tuning == door.tuning,
        door.run(samples).last_pos == previous(door, samples, samples.len() as int),
    decreases samples.len(),
{
    door.lemma_run(samples);
    if samples.len() > 0 {
        let front = samples.drop_last();
        lemma_standing_prefix(door, samples);
        lemma_leg_stalls_add_up(door, front);
        assert(previous(door, front, front.len() as int) == previous(
            door,
            samples,
            samples.len() - 1,
        ));
        assert(door.run(front).stuck(samples.last()));
    }
}

/// A leg of calibration finds its endstop: a door that stands still for long
/// enough before the timeout has its encoder set to zero at the closed endstop,
/// or its opening measured, and the power off, at the open one.
pub proof fn law_calibration_finds_endstops(door: DoorView, samples: Seq<Sample>)
    requires
        leg_stalls(door, samples),
        samples.len() == stall_left(
            leg(door.calibration->0).0,
            door.tuning.calibration_stall_ticks,
        ),
    ensures
        door.calibration->0 is DrivingClosed ==> {
            &&& door.run(samples).calibration == Some(
                CalibrationStep::Pause { remaining: door.tuning.calibration_pause_ticks },
            )
            &&& door.run(samples.drop_last()).tick(samples.last()).actions.last()
                == Action::ResetEncoder
        },
        door.calibration->0 is DrivingOpen ==> {
            &&& door.run(samples).calibration is None
            &&& door.run(samples).state is Open
            &&& door.run(samples).opening_counts == samples.last().recheck
            &&& !door.run(samples).motor.awake
            &&& door.run(samples).motor.power() == 0
        },
{
    let front = samples.drop_last();
    door.lemma_run(samples);
    lemma_standing_prefix(door, samples);
    lemma_leg_stalls_add_up(door, front);
    assert(previous(door, front, front.len() as int) == previous(door, samples, samples.len() - 1));
    assert(door.run(front).stuck(samples.last()));
}

/// After the pause, and not before, the door is driven open.
pub proof fn law_calibration_pauses(door: DoorView, samples: Seq<Sample>)
    requires
        door.calibration is Some,
        door.calibration->0 is Pause,
        samples.len() <= door.calibration->0->remaining + 1,
    ensures
        samples.len() <= door.calibration->0->remaining ==> {
            &&& door.run(samples).calibration == Some(
                CalibrationStep::Pause {
                    remaining: (door.calibration->0->remaining - samples.len()) as u32,
                },
            )
            &&& door.run(samples).motor == door.motor
        },
        samples.len() == door.calibration->0->remaining + 1 ==> {
            &&& door.run(samples).calibration == Some(
                CalibrationStep::DrivingOpen { stall_count: 0, timeout_ticks: 0 },
            )
            &&& door.run(samples).motor == door.motor.woken().powered(
                door.tuning.outward(door.tuning.calibrate_power as int),
            )
        },
        door.run(samples).tuning == door.tuning,
    decreases samples.len(),
{
    door.lemma_run(samples);
    if samples.len() > 0 {
        law_calibration_pauses(door, samples.drop_last());
    }
}

/// The drive to the open endstop starts only from a closed endstop at which the
/// encoder was set to zero: calibration reaches the pause in no other way.
pub proof fn law_calibration_zeroes_encoder(door: DoorView, s: Sample)
    requires
        door.calibration is Some,
        door.calibration->0 is DrivingClosed,
        door.tick(s).door.calibration is Some,
    ensures
        door.tick(s).door.calibration->0 is DrivingClosed || {
            &&& door.tick(s).door.calibration == Some(
                CalibrationStep::Pause { remaining: door.tuning.calibration_pause_ticks },
            )
            &&& door.stuck(s)
            &&& door.tick(s).actions.last() == Action::ResetEncoder
        },
{
}

} // verus!
