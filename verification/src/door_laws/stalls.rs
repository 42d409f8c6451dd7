//! Obstacles.

use vstd::prelude::*;

use crate::door_laws::targets::is_free;
use crate::door_model::{DoorView, Sample};

verus! {

/// The door stands still, short of the endstop it may be driven to, in all of
/// `samples`.
pub open spec fn blocked(door: DoorView, samples: Seq<Sample>) -> bool {
    forall|i: int|
        0 <= i < samples.len() ==> !door.moving(#[trigger] samples[i]) && !door.arrived(
            samples[i].pos as int,
        )
}

proof fn lemma_blocked_prefix(door: DoorView, samples: Seq<Sample>)
    requires
        samples.len() > 0,
        blocked(door, samples),
    ensures
        blocked(door, samples.drop_last()),
        !door.moving(samples.last()),
        !door.arrived(samples.last().pos as int),
{
    assert forall|i: int| 0 <= i < samples.drop_last().len() implies !door.moving(
        #[trigger] samples.drop_last()[i],
    ) && !door.arrived(samples.drop_last()[i].pos as int) by {
        assert(samples.drop_last()[i] == samples[i]);
    }
    assert(samples[samples.len() - 1] == samples.last());
}

/// Stall detection is suppressed during the grace period: a door that does not
/// move yet goes on being driven.
pub proof fn law_grace_suppresses_stalls(door: DoorView, samples: Seq<Sample>)
    requires
        door.wf(),
        is_free(door),
        door.opening_counts != 0,
        door.target is Some,
        door.drive_ticks + samples.len() <= door.tuning.stall_grace_ticks,
        blocked(door, samples),
    ensures
        is_free(door.run(samples)),
        door.run(samples).target == door.target,
        door.run(samples).drive_ticks == door.drive_ticks + samples.len(),
        door.run(samples).obstacle_stall_count == door.obstacle_stall_count,
        door.run(samples).opening_counts == door.opening_counts,
        door.run(samples).tuning == door.tuning,
    decreases samples.len(),
{
    door.lemma_run(samples);
    if samples.len() > 0 {
        lemma_blocked_prefix(door, samples);
        law_grace_suppresses_stalls(door, samples.drop_last());
    }
}

/// The ticks for which a stuck door is still driven once the grace period is over.
pub open spec fn stalls_left(door: DoorView) -> int {
    if door.tuning.stall_ticks > door.obstacle_stall_count {
        door.tuning.stall_ticks - door.obstacle_stall_count
    } else {
        1
    }
}

proof fn lemma_stalls_add_up(door: DoorView, samples: Seq<Sample>)
    requires
        door.wf(),
        is_free(door),
        door.opening_counts != 0,
        door.target is Some,
        door.drive_ticks >= door.tuning.stall_grace_ticks,
        door.drive_ticks + samples.len() <= u32::MAX,
        samples.len() < stalls_left(door),
        blocked(door, samples),
    ensures
        is_free(door.run(samples)),
        door.run(samples).target == door.target,
        door.run(samples).drive_ticks == door.drive_ticks + samples.len(),
        door.run(samples).obstacle_stall_count == door.obstacle_stall_count + samples.len(),
        door.run(samples).opening_counts == door.opening_counts,
        door.run(samples).tuning == door.tuning,
    decreases samples.len(),
{
    door.lemma_run(samples);
    if samples.len() > 0 {
        lemma_blocked_prefix(door, samples);
        lemma_stalls_add_up(door, samples.drop_last());
    }
}

/// A driven door that stands still is stopped as soon as the stall is long
/// enough: the target is dropped, the power is off and assist is locked out.
pub proof fn law_obstacle_stops_door(door: DoorView, samples: Seq<Sample>)
    requires
        door.wf(),
        is_free(door),
        door.opening_counts != 0,
        door.target is Some,
        door.drive_ticks >= door.tuning.stall_grace_ticks,
        door.drive_ticks + samples.len() <= u32::MAX,
        samples.len() == stalls_left(door),
        blocked(door, samples),
    ensures
        door.run(samples).state is Stopping,
        door.run(samples).target is None,
        !door.run(samples).motor.awake,
        door.run(samples).motor.power() == 0,
        door.run(samples).assist_lockout == door.tuning.assist_lockout_ticks,
{
    door.lemma_run(samples);
    lemma_blocked_prefix(door, samples);
    lemma_stalls_add_up(door, samples.drop_last());
}

pub open spec fn is_travelling(door: DoorView) -> bool {
    door.state is Opening || door.state is Closing
}

/// Nothing but a command gives a target to a door whose assist is locked out, or
/// sets it opening or closing, so a recoil off an obstacle does not drive it.
pub proof fn law_lockout_disarms_assist(door: DoorView, samples: Seq<Sample>)
    requires
        door.target is None,
        door.calibration is None,
        !(door.state is Homing),
        samples.len() < door.assist_lockout,
    ensures
        door.run(samples).target is None,
        door.run(samples).calibration is None,
        !(door.run(samples).state is Homing),
        !is_travelling(door) ==> !is_travelling(door.run(samples)),
        door.run(samples).assist_lockout == door.assist_lockout - samples.len(),
    decreases samples.len(),
{
    door.lemma_run(samples);
    if samples.len() > 0 {
        law_lockout_disarms_assist(door, samples.drop_last());
    }
}

} // verus!
