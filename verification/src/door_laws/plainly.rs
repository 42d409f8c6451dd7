//! Words in which the other laws speak of positions, levels and writes: each is
//! stated on numbers and pins alone, apart from how the door computes them.

use vstd::prelude::*;

use crate::action::Action;
use crate::door_model::{DoorState, DoorView, Sample};
use crate::motor::{MotorMode, MotorView};

verus! {

/// A count or an output seen so that more is further open.
pub open spec fn toward_open(door: DoorView, n: int) -> int {
    if door.tuning.invert_direction {
        0 - n
    } else {
        n
    }
}

/// The door is where it opens to, or further.
pub open spec fn fully_open(door: DoorView, pos: int) -> bool {
    toward_open(door, pos) >= toward_open(door, door.opening_counts as int)
}

/// The door is where it closes to, or further.
pub open spec fn fully_closed(door: DoorView, pos: int) -> bool {
    toward_open(door, pos) <= door.tuning.closed_threshold
}

/// What a door that stands at `pos` is called.
pub open spec fn whereabouts(door: DoorView, pos: int) -> DoorState {
    if fully_open(door, pos) {
        DoorState::Open
    } else if fully_closed(door, pos) {
        DoorState::Closed
    } else {
        DoorState::Idle
    }
}

/// The position at `pct` percent of the way from closed to open, in whole counts,
/// of which it is short by less than one.
pub open spec fn target_position(door: DoorView, pct: int) -> int {
    let opening = door.opening_counts as int;
    if opening >= 0 {
        (pct * opening) / 100
    } else {
        0 - (pct * (0 - opening)) / 100
    }
}

/// The position moved by no more than the dead zone since the last tick.
pub open spec fn stayed_put(door: DoorView, s: Sample) -> bool {
    0 - door.tuning.dead_zone <= s.pos - door.last_pos <= door.tuning.dead_zone
}

/// The filtered velocity is no more than the dead zone.
pub open spec fn at_rest(door: DoorView, s: Sample) -> bool {
    s.speed <= door.tuning.dead_zone
}

/// The lockout that is left once a tick is counted.
pub open spec fn lockout_left(door: DoorView) -> u32 {
    if door.assist_lockout == 0 {
        0
    } else {
        (door.assist_lockout - 1) as u32
    }
}

/// The door after a tick that changed nothing but what every tick changes.
pub open spec fn ticked(door: DoorView, s: Sample) -> DoorView {
    DoorView { last_pos: s.pos, assist_lockout: lockout_left(door), ..door }
}

// ── The motor ────────────────────────────────────────────────────────────────

/// The duty cycle for an output of `power` in either direction: at least the
/// smallest one, and no more than 8 bits hold.
pub open spec fn strength(motor: MotorView, power: int) -> int {
    let size = if power < 0 {
        0 - power
    } else {
        power
    };
    if size == 0 {
        0
    } else if size >= 255 {
        255
    } else if size < motor.min_duty {
        motor.min_duty as int
    } else {
        size
    }
}

/// The duty cycle on IN1 or EN for an output of `power`.
pub open spec fn duty_for(motor: MotorView, power: int) -> u32 {
    match motor.mode {
        MotorMode::PhEn => strength(motor, power) as u32,
        MotorMode::InIn => if power > 0 {
            strength(motor, power) as u32
        } else if power < 0 {
            0
        } else {
            255
        },
    }
}

/// The level of IN2 or PH for an output of `power`.
pub open spec fn in2_for(motor: MotorView, power: int) -> bool {
    match motor.mode {
        MotorMode::PhEn => power > 0,
        MotorMode::InIn => !(power > 0),
    }
}

/// The motor with the levels for an output of `power`, and the bridge as it was.
pub open spec fn set_to(motor: MotorView, power: int) -> MotorView {
    MotorView { duty: duty_for(motor, power), in2_high: in2_for(motor, power), ..motor }
}

/// The motor awake, with the levels for an output of `power`.
pub open spec fn running(motor: MotorView, power: int) -> MotorView {
    MotorView { awake: true, ..set_to(motor, power) }
}

/// The motor coasting: bridge off, and no output.
pub open spec fn coasting(motor: MotorView) -> MotorView {
    MotorView { awake: false, duty: 0, in2_high: false, ..motor }
}

/// The writes that let the motor coast.
pub open spec fn coast_writes() -> Seq<Action> {
    seq![Action::SetDuty(0), Action::SetIn2(false), Action::SetNslp(false)]
}

/// The writes that brake, and then let the motor coast.
pub open spec fn halt_writes(mode: MotorMode) -> Seq<Action> {
    match mode {
        MotorMode::InIn => seq![
            Action::SetDuty(255),
            Action::SetIn2(true),
            Action::SetDuty(0),
            Action::SetIn2(false),
            Action::SetNslp(false),
        ],
        MotorMode::PhEn => seq![
            Action::SetIn2(false),
            Action::SetDuty(0),
            Action::SetDuty(0),
            Action::SetIn2(false),
            Action::SetNslp(false),
        ],
    }
}

/// The writes that wake the bridge, if it sleeps: it takes a millisecond.
pub open spec fn wake_writes(motor: MotorView) -> Seq<Action> {
    if motor.awake {
        seq![]
    } else {
        seq![Action::SetNslp(true), Action::WaitMs(1)]
    }
}

/// The writes that set the levels for an output of `power`.
pub open spec fn level_writes(motor: MotorView, power: int) -> Seq<Action> {
    let duty = Action::SetDuty(duty_for(motor, power));
    let in2 = Action::SetIn2(in2_for(motor, power));
    match motor.mode {
        MotorMode::PhEn => seq![in2, duty],
        MotorMode::InIn => if power > 0 {
            seq![in2, duty]
        } else {
            seq![duty, in2]
        },
    }
}

/// The writes that have the motor run.
pub open spec fn run_writes(motor: MotorView, power: int) -> Seq<Action> {
    wake_writes(motor) + level_writes(motor, power)
}

/// What a motor is told is what its pins are set to: an output of `power` comes to
/// a duty cycle and a direction, waking and sleeping to the bridge's enable pin,
/// and the writes say so in an order that never drives the wrong way.
pub proof fn law_motor_operations(motor: MotorView, power: int)
    requires
        motor.wf(),
    ensures
        motor.powered(power) == set_to(motor, power),
        motor.power_actions(power) == level_writes(motor, power),
        motor.woken() == (MotorView { awake: true, ..motor }),
        motor.wake_actions() == wake_writes(motor),
        motor.asleep() == coasting(motor),
        motor.sleep_actions() == coast_writes(),
{
}

/// The output that is read back is the duty cycle, with the sign of IN2 or PH.
pub proof fn law_output_reading(motor: MotorView)
    ensures
        motor.in2_high ==> motor.power() == motor.duty,
        !motor.in2_high ==> motor.power() == 0 - motor.duty,
{
}

} // verus!
