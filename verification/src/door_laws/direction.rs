//! Doors that are mounted the other way round.

use vstd::prelude::*;

use crate::config::Tuning;
use crate::door_laws::geometry::lemma_quotient_bounds;
use crate::door_model::{abs, percent, CalibrationStep, DoorState, DoorView, Sample};

verus! {

/// The same door, mounted the other way round.
pub open spec fn mirrored(door: DoorView) -> DoorView {
    DoorView {
        tuning: Tuning { invert_direction: !door.tuning.invert_direction, ..door.tuning },
        last_pos: (-door.last_pos) as i32,
        opening_counts: (-door.opening_counts) as i32,
        ..door
    }
}

/// The same measurement at a door mounted the other way round.
pub open spec fn mirrored_sample(s: Sample) -> Sample {
    Sample { pos: (-s.pos) as i32, recheck: (-s.recheck) as i32, ..s }
}

/// Equal but for the motor.
pub open spec fn same_but_motor(a: DoorView, b: DoorView) -> bool {
    a == (DoorView { motor: a.motor, ..b })
}

/// Positions that can be negated.
pub open spec fn can_be_mirrored(door: DoorView, s: Sample) -> bool {
    &&& door.last_pos > i32::MIN
    &&& door.opening_counts > i32::MIN
    &&& s.pos > i32::MIN
    &&& s.recheck > i32::MIN
}

proof fn lemma_mirrored_geometry(d: DoorView, s: Sample, pct: int)
    requires
        can_be_mirrored(d, s),
    ensures
        mirrored(d).pct_to_counts(pct) == -d.pct_to_counts(pct),
        mirrored(d).stuck(mirrored_sample(s)) == d.stuck(s),
        mirrored(d).at_open(mirrored_sample(s).pos as int) == d.at_open(s.pos as int),
        mirrored(d).at_closed(mirrored_sample(s).pos as int) == d.at_closed(s.pos as int),
{
    let m = mirrored(d);
    let p = percent(pct);
    let a = p * d.opening_counts;
    let b = p * m.opening_counts;
    assert(b == -a) by (nonlinear_arith)
        requires
            a == p * d.opening_counts,
            b == p * m.opening_counts,
            m.opening_counts == -d.opening_counts,
    ;
    assert(abs(a) == abs(b));
    if a == 0 {
        lemma_quotient_bounds(a, 100, 0);
    }
}

proof fn lemma_mirrored_settle(d: DoorView, s: Sample)
    requires
        can_be_mirrored(d, s),
    ensures
        same_but_motor(mirrored(d).settle(mirrored_sample(s)).door, mirrored(d.settle(s).door)),
{
    lemma_mirrored_geometry(d, s, 0);
}

proof fn lemma_mirrored_home(d: DoorView, s: Sample, stall_count: int, timeout_ticks: int)
    requires
        can_be_mirrored(d, s),
    ensures
        same_but_motor(
            mirrored(d).home(mirrored_sample(s), stall_count, timeout_ticks).door,
            mirrored(d.home(s, stall_count, timeout_ticks).door),
        ),
{
    lemma_mirrored_geometry(d, s, 0);
}

proof fn lemma_mirrored_drive(d: DoorView, s: Sample, pct: int)
    requires
        can_be_mirrored(d, s),
    ensures
        same_but_motor(
            mirrored(d).drive(mirrored_sample(s), pct).door,
            mirrored(d.drive(s, pct).door),
        ),
{
    lemma_mirrored_geometry(d, s, pct);
    let m = mirrored(d);
    let t = mirrored_sample(s);
    assert(m.tuning.outward(t.pos as int) == d.tuning.outward(s.pos as int));
    assert(m.tuning.outward(m.pct_to_counts(pct)) == d.tuning.outward(d.pct_to_counts(pct)));
    assert(m.obstructed(t) == d.obstructed(s));
    assert(m.moving(t) == d.moving(s));
}

proof fn lemma_mirrored_assist(d: DoorView, s: Sample)
    requires
        can_be_mirrored(d, s),
    ensures
        same_but_motor(mirrored(d).assist(mirrored_sample(s)).door, mirrored(d.assist(s).door)),
{
    lemma_mirrored_geometry(d, s, 0);
    assert(mirrored(d).idle_for_long(mirrored_sample(s)) == d.idle_for_long(s));
}

proof fn lemma_mirrored_calibrate(d: DoorView, s: Sample, step: CalibrationStep)
    requires
        can_be_mirrored(d, s),
    ensures
        same_but_motor(
            mirrored(d).calibrate(mirrored_sample(s), step).door,
            mirrored(d.calibrate(s, step).door),
        ),
{
    lemma_mirrored_geometry(d, s, 0);
}

/// The direction in which positions count makes no difference to what the door
/// decides: a mirrored door goes through the same states, with mirrored positions.
pub proof fn law_direction_is_symmetric(door: DoorView, s: Sample)
    requires
        can_be_mirrored(door, s),
    ensures
        same_but_motor(mirrored(door).tick(mirrored_sample(s)).door, mirrored(door.tick(s).door)),
{
    let d = DoorView {
        assist_lockout: if door.assist_lockout > 0 {
            (door.assist_lockout - 1) as u32
        } else {
            0
        },
        ..door
    };
    match door.calibration {
        Some(step) => {
            lemma_mirrored_calibrate(d, s, step);
        },
        None => match door.state {
            DoorState::Stopping => {
                lemma_mirrored_settle(d, s);
            },
            DoorState::Homing { stall_count, timeout_ticks } => {
                lemma_mirrored_home(d, s, stall_count as int, timeout_ticks as int);
            },
            _ => {
                lemma_mirrored_geometry(d, s, 0);
                if let Some(pct) = door.target {
                    lemma_mirrored_drive(d, s, pct as int);
                } else {
                    lemma_mirrored_assist(d, s);
                }
            },
        },
    }
}

} // verus!
