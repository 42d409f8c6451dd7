//! Coming to a stop.

use vstd::prelude::*;

use crate::door_model::{DoorView, Sample};

verus! {

/// The quiet ticks after which a stopping door counts as stopped.
pub open spec fn quiet_ticks_left(door: DoorView) -> int {
    if door.tuning.settle_ticks > door.settle_count {
        door.tuning.settle_ticks - door.settle_count
    } else {
        1
    }
}

proof fn lemma_settling(door: DoorView, samples: Seq<Sample>)
    requires
        door.wf(),
        door.state is Stopping,
        samples.len() < quiet_ticks_left(door),
        forall|i: int| 0 <= i < samples.len() ==> !door.moving(#[trigger] samples[i]),
    ensures
        door.run(samples).state is Stopping,
        door.run(samples).calibration is None,
        door.run(samples).settle_count == door.settle_count + samples.len(),
        door.run(samples).tuning == door.tuning,
        door.run(samples).opening_counts == door.opening_counts,
        door.run(samples).motor == door.motor,
        door.run(samples).target == door.target,
    decreases samples.len(),
{
    door.lemma_run(samples);
    if samples.len() > 0 {
        assert forall|i: int| 0 <= i < samples.drop_last().len() implies !door.moving(
            #[trigger] samples.drop_last()[i],
        ) by {
            assert(samples.drop_last()[i] == samples[i]);
        }
        assert(!door.moving(samples[samples.len() - 1]));
        lemma_settling(door, samples.drop_last());
    }
}

/// A stopping door is stopped after enough quiet ticks in a row, and not before:
/// it is then open, closed or idle, by where it stands, and the motor sleeps.
pub proof fn law_stopping_door_settles(door: DoorView, samples: Seq<Sample>)
    requires
        door.wf(),
        door.state is Stopping,
        0 < samples.len() <= quiet_ticks_left(door),
        forall|i: int| 0 <= i < samples.len() ==> !door.moving(#[trigger] samples[i]),
    ensures
        samples.len() < quiet_ticks_left(door) ==> door.run(samples).state is Stopping,
        samples.len() == quiet_ticks_left(door) ==> {
            &&& door.run(samples).state == door.resting(samples.last().pos as int)
            &&& door.run(samples).settle_count == 0
            &&& !door.run(samples).motor.awake
            &&& door.run(samples).motor.power() == 0
        },
{
    door.lemma_run(samples);
    if samples.len() < quiet_ticks_left(door) {
        lemma_settling(door, samples);
    } else {
        assert forall|i: int| 0 <= i < samples.drop_last().len() implies !door.moving(
            #[trigger] samples.drop_last()[i],
        ) by {
            assert(samples.drop_last()[i] == samples[i]);
        }
        assert(!door.moving(samples[samples.len() - 1]));
        lemma_settling(door, samples.drop_last());
    }
}

/// Motion starts the wait anew, and the door coasts meanwhile.
pub proof fn law_motion_restarts_settling(door: DoorView, s: Sample)
    requires
        door.wf(),
        door.state is Stopping,
        door.moving(s),
    ensures
        door.tick(s).door.state is Stopping,
        door.tick(s).door.settle_count == 0,
        !door.tick(s).door.motor.awake,
        door.tick(s).door.motor.power() == 0,
{
}

/// Stopping a door takes the power off, whatever it did before: it has no target
/// left, and neither calibrates nor homes.
pub proof fn law_stop_takes_power_off(door: DoorView)
    ensures
        door.stop().door.state is Stopping,
        door.stop().door.target is None,
        door.stop().door.calibration is None,
        !door.stop().door.motor.awake,
        door.stop().door.motor.power() == 0,
{
}

/// A stop is a stop: the next tick finds the door still stopping, or at rest, with
/// the power off, even if it was calibrating or homing before.
pub proof fn law_stop_is_not_undone(door: DoorView, s: Sample)
    requires
        door.wf(),
    ensures
        ({
            let after = door.stop().door.tick(s).door;
            &&& after.state is Stopping || after.state is Open || after.state is Closed
                || after.state is Idle
            &&& after.target is None
            &&& after.calibration is None
            &&& !after.motor.awake
            &&& after.motor.power() == 0
        }),
{
}

/// A stop is not declared early: for fewer ticks than it takes to settle, the door
/// is stopping, without a target and asleep, whatever is measured.
pub proof fn law_stop_is_not_declared_early(door: DoorView, samples: Seq<Sample>)
    requires
        door.wf(),
        samples.len() < door.tuning.settle_ticks,
    ensures
        ({
            let after = door.stop().door.run(samples);
            &&& after.state is Stopping
            &&& after.settle_count <= samples.len()
            &&& after.target is None
            &&& after.calibration is None
            &&& !after.motor.awake
            &&& after.motor.power() == 0
            &&& after.tuning == door.tuning
        }),
    decreases samples.len(),
{
    door.stop().door.lemma_run(samples);
    if samples.len() > 0 {
        law_stop_is_not_declared_early(door, samples.drop_last());
    }
}

} // verus!
