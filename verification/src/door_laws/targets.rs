//! Targets, endstops and assist.

use vstd::prelude::*;

use crate::door_laws::geometry::law_target_between_endstops;
use crate::door_model::{percent, CalibrationStep, DoorState, DoorView, Sample};

verus! {

/// Neither calibrating nor homing nor coming to a stop.
pub open spec fn is_free(door: DoorView) -> bool {
    door.calibration is None && !(door.state is Stopping) && !(door.state is Homing)
}

/// Setting a position that is set already changes nothing; setting another one
/// makes it the target and starts stall detection anew. Percentages beyond 0 and
/// 100 are the endstops.
pub proof fn law_set_position(door: DoorView, pct: int)
    ensures
        door.set_position(pct).target == Some(percent(pct) as i32),
        door.set_position(pct).set_position(pct) == door.set_position(pct),
        door.target == Some(percent(pct) as i32) ==> door.set_position(pct) == door,
        door.target != Some(percent(pct) as i32) ==> door.set_position(pct).drive_ticks == 0
            && door.set_position(pct).obstacle_stall_count == 0,
        door.set_position(pct) == door.set_position(percent(pct)),
        door.wf() ==> door.set_position(pct).wf(),
{
}

/// An endstop that the door was driven to clears the target and takes the power
/// off, unless the door then homes into it.
pub proof fn law_endstop_clears_target(door: DoorView, s: Sample)
    requires
        door.wf(),
        is_free(door),
        door.opening_counts != 0,
        door.arrived(s.pos as int),
    ensures
        door.tick(s).door.target is None,
        door.target == Some(100i32) || !door.tuning.close_homing ==> {
            &&& !door.tick(s).door.motor.awake
            &&& door.tick(s).door.motor.power() == 0
            &&& door.tick(s).door.state == (if door.target == Some(100i32) {
                DoorState::Open
            } else {
                DoorState::Closed
            })
        },
        door.target == Some(0i32) && door.tuning.close_homing ==> door.tick(s).door.state
            == (DoorState::Homing { stall_count: 0, timeout_ticks: 0 }),
{
}

/// A door is never driven out past an endstop: at or beyond the open endstop it
/// is not driven open, and beyond the closed one it is not driven closed.
pub proof fn law_never_driven_past_endstop(door: DoorView, s: Sample)
    requires
        door.wf(),
        door.drives(s.pos as int),
        door.tuning.outward(door.opening_counts as int) > 0,
    ensures
        door.at_open(s.pos as int) ==> !(door.tick(s).door.state is Opening),
        door.tuning.outward(s.pos as int) < 0 ==> !(door.tick(s).door.state is Closing),
{
    law_target_between_endstops(door, door.target->0 as int);
    assert(door.tick(s).door.state is Opening ==> door.tuning.outward(s.pos as int)
        < door.tuning.outward(door.pct_to_counts(door.target->0 as int)));
    assert(door.tick(s).door.state is Closing ==> door.tuning.outward(s.pos as int)
        >= door.tuning.outward(door.pct_to_counts(door.target->0 as int)));
}

/// A driven door moves toward its target, with the motor awake and an output of
/// the right direction; or it stops at an obstacle.
pub proof fn law_drive_heads_for_target(door: DoorView, s: Sample)
    requires
        door.wf(),
        door.drives(s.pos as int),
    ensures
        ({
            let after = door.tick(s).door;
            let output = if s.drive_power > 1 {
                s.drive_power as int
            } else {
                1
            };
            let short = door.tuning.outward(s.pos as int) < door.tuning.outward(
                door.pct_to_counts(door.target->0 as int),
            );
            ||| {
                &&& after.state is Stopping
                &&& after.target is None
                &&& !after.motor.awake
                &&& after.motor.power() == 0
            }
            ||| {
                &&& after.state == (if short {
                    DoorState::Opening
                } else {
                    DoorState::Closing
                })
                &&& after.target == door.target
                &&& after.motor == door.motor.woken().powered(
                    door.tuning.outward(
                        if short {
                            output
                        } else {
                            -output
                        },
                    ),
                )
            }
        }),
{
}

/// Equal but for what was seen of pushes.
pub open spec fn same_but_pushes(s: Sample, t: Sample) -> bool {
    t == (Sample { fast_open: t.fast_open, fast_close: t.fast_close, ..s })
}

proof fn lemma_pushes_do_not_matter(d: DoorView, s: Sample, t: Sample)
    requires
        same_but_pushes(s, t),
    ensures
        d.settle(s) == d.settle(t),
        forall|stall_count: int, timeout_ticks: int|
            d.home(s, stall_count, timeout_ticks) == #[trigger] d.home(
                t,
                stall_count,
                timeout_ticks,
            ),
        forall|pct: int| d.drive(s, pct) == #[trigger] d.drive(t, pct),
{
    assert(d.stuck(s) == d.stuck(t));
    assert(d.moving(s) == d.moving(t));
    assert(d.obstructed(s) == d.obstructed(t));
}

proof fn lemma_pushes_do_not_matter_to_calibration(
    d: DoorView,
    s: Sample,
    t: Sample,
    step: CalibrationStep,
)
    requires
        same_but_pushes(s, t),
    ensures
        d.calibrate(s, step) == d.calibrate(t, step),
{
    assert(d.stuck(s) == d.stuck(t));
}

/// A target overrides assist: pushes make no difference to a door that has one.
pub proof fn law_target_overrides_assist(door: DoorView, s: Sample, t: Sample)
    requires
        door.target is Some,
        same_but_pushes(s, t),
    ensures
        door.tick(s) == door.tick(t),
{
    let d = DoorView {
        assist_lockout: if door.assist_lockout > 0 {
            (door.assist_lockout - 1) as u32
        } else {
            0
        },
        ..door
    };
    lemma_pushes_do_not_matter(d, s, t);
    if let Some(step) = door.calibration {
        lemma_pushes_do_not_matter_to_calibration(d, s, t, step);
    }
}

/// Without a known opening there is no motion: the target is dropped and the
/// motor sleeps.
pub proof fn law_no_opening_no_motion(door: DoorView, s: Sample)
    requires
        is_free(door),
        door.opening_counts == 0,
    ensures
        door.tick(s).door.target is None,
        door.tick(s).door.state is Idle,
        !door.tick(s).door.motor.awake,
        door.tick(s).door.motor.power() == 0,
{
}

/// A push at an idle door that is armed and not yet at the endstop it is pushed
/// toward becomes a drive to that endstop.
pub proof fn law_push_is_followed(door: DoorView, s: Sample)
    requires
        is_free(door),
        door.opening_counts != 0,
        door.target is None,
        door.assist_lockout <= 1,
        door.moving(s),
    ensures
        s.fast_open && !door.at_open(s.pos as int) ==> door.tick(s).door.target == Some(100i32)
            && door.tick(s).door.state is Opening,
        s.fast_close && !door.at_closed(s.pos as int) && (!s.fast_open || door.at_open(
            s.pos as int,
        )) ==> door.tick(s).door.target == Some(0i32) && door.tick(s).door.state is Closing,
        !s.fast_open && !s.fast_close ==> door.tick(s).door.target is None && door.tick(
            s,
        ).door.state is Idle,
{
}

} // verus!
