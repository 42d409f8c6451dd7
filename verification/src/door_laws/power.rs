//! The motor and the pins.

use vstd::prelude::*;

use crate::action::Action;
use crate::door_model::{CalibrationStep, DoorState, DoorView, Outcome, Sample};
use crate::motor::{law_actions_reach_pins, MotorView};

verus! {

/// Performing the actions takes the bridge from `motor` to the outcome's motor.
pub open spec fn reaches_pins(motor: MotorView, o: Outcome) -> bool {
    motor.pins().after_all(o.actions) == o.door.motor.pins()
}

/// A motor in PH/EN mode gets no power while it sleeps.
pub open spec fn unpowered_asleep(motor: MotorView) -> bool {
    motor.mode is PhEn && !motor.awake ==> motor.duty == 0
}

proof fn lemma_steps(motor: MotorView, o: Outcome, power: int)
    requires
        o.door.motor.wf(),
        reaches_pins(motor, o),
    ensures
        reaches_pins(motor, o.wake()),
        reaches_pins(motor, o.sleep()),
        reaches_pins(motor, o.power(power)),
        reaches_pins(motor, o.reset_encoder()),
        o.wake().door.motor.wf(),
        o.sleep().door.motor.wf(),
        o.power(power).door.motor.wf(),
        o.reset_encoder().door.motor.wf(),
{
    let m = o.door.motor;
    law_actions_reach_pins(m, power);
    motor.pins().lemma_after_concat(o.actions, m.wake_actions());
    motor.pins().lemma_after_concat(o.actions, m.sleep_actions());
    motor.pins().lemma_after_concat(o.actions, m.power_actions(power));
    assert(o.actions.push(Action::ResetEncoder).drop_last() =~= o.actions);
}

proof fn lemma_halt(motor: MotorView, o: Outcome)
    requires
        o.door.motor.wf(),
        reaches_pins(motor, o),
    ensures
        reaches_pins(motor, o.halt()),
        o.halt().door.motor.wf(),
{
    lemma_steps(motor, o, 0);
    lemma_steps(motor, o.power(0), 0);
}

proof fn lemma_wake_power(motor: MotorView, o: Outcome, power: int)
    requires
        o.door.motor.wf(),
        reaches_pins(motor, o),
    ensures
        reaches_pins(motor, o.wake().power(power)),
        o.wake().power(power).door.motor.wf(),
{
    lemma_steps(motor, o, power);
    lemma_steps(motor, o.wake(), power);
}

/// The commands' actions take the bridge to where the door believes it is.
pub proof fn law_commands_reach_pins(door: DoorView)
    requires
        door.wf(),
    ensures
        reaches_pins(door.motor, door.stop()),
        reaches_pins(door.motor, door.start_homing()),
        reaches_pins(door.motor, door.start_calibrate()),
{
    let m = door.motor;
    let power = -door.tuning.outward(door.tuning.calibrate_power as int);
    let stopped = Outcome::quiet(
        DoorView {
            target: None,
            settle_count: 0,
            calibration: None,
            state: DoorState::Stopping,
            ..door
        },
    );
    lemma_halt(m, stopped);
    let homing = Outcome::quiet(
        DoorView {
            target: None,
            calibration: None,
            state: DoorState::Homing { stall_count: 0, timeout_ticks: 0 },
            ..door
        },
    );
    lemma_wake_power(m, homing, power);
    let calibrating = Outcome::quiet(
        DoorView {
            target: None,
            state: DoorState::Calibrating,
            calibration: Some(CalibrationStep::DrivingClosed { stall_count: 0, timeout_ticks: 0 }),
            ..door
        },
    );
    lemma_wake_power(m, calibrating, power);
}

proof fn lemma_settle_pins(d: DoorView, s: Sample)
    requires
        d.motor.wf(),
    ensures
        reaches_pins(d.motor, d.settle(s)),
{
    lemma_halt(d.motor, Outcome::quiet(DoorView { settle_count: 0, ..d }));
    lemma_steps(
        d.motor,
        Outcome::quiet(DoorView { settle_count: 0, state: d.resting(s.pos as int), ..d }),
        0,
    );
}

proof fn lemma_home_pins(d: DoorView, s: Sample, stall_count: int, timeout_ticks: int)
    requires
        d.motor.wf(),
    ensures
        reaches_pins(d.motor, d.home(s, stall_count, timeout_ticks)),
{
    let m = d.motor;
    let lost = Outcome::quiet(DoorView { state: DoorState::Idle, last_pos: 0, ..d });
    lemma_halt(m, lost);
    lemma_steps(m, lost.halt(), 0);
    let found = Outcome::quiet(DoorView { last_pos: 0, ..d });
    lemma_halt(m, found);
    lemma_steps(m, found.halt(), 0);
    let zeroed = found.halt().reset_encoder();
    let stopping = Outcome {
        door: DoorView {
            target: None,
            settle_count: 0,
            calibration: None,
            state: DoorState::Stopping,
            ..zeroed.door
        },
        ..zeroed
    };
    lemma_halt(m, stopping);
    assert(stopping.halt().actions =~= zeroed.actions + zeroed.door.stop().actions);
}

proof fn lemma_drive_pins(d: DoorView, s: Sample, pct: int)
    requires
        d.motor.wf(),
    ensures
        reaches_pins(d.motor, d.drive(s, pct)),
{
    let m = d.motor;
    let counted = DoorView { drive_ticks: (d.drive_ticks + 1) as u32, ..d };
    let power = if s.drive_power > 1 {
        s.drive_power as int
    } else {
        1
    };
    let blocked = Outcome::quiet(
        DoorView {
            target: None,
            obstacle_stall_count: 0,
            assist_lockout: d.tuning.assist_lockout_ticks,
            settle_count: 0,
            state: DoorState::Stopping,
            ..counted
        },
    );
    lemma_halt(m, blocked);
    let ready = Outcome::quiet(
        DoorView {
            obstacle_stall_count: (if d.moving(s) {
                0
            } else if d.obstructed(s) {
                d.obstacle_stall_count + 1
            } else {
                d.obstacle_stall_count as int
            }) as u32,
            ..counted
        },
    );
    lemma_wake_power(m, ready, d.tuning.outward(power));
    lemma_wake_power(m, ready, -d.tuning.outward(power));
}

proof fn lemma_assist_pins(d: DoorView, s: Sample)
    requires
        d.motor.wf(),
    ensures
        reaches_pins(d.motor, d.assist(s)),
{
    let seen = if d.moving(s) {
        DoorView { last_move_time: s.now, ..d }
    } else {
        d
    };
    lemma_steps(d.motor, Outcome::quiet(seen).state(d.resting(s.pos as int)), 0);
}

proof fn lemma_calibrate_pins(d: DoorView, s: Sample, step: CalibrationStep)
    requires
        d.motor.wf(),
    ensures
        reaches_pins(d.motor, d.calibrate(s, step)),
{
    let m = d.motor;
    let busy = Outcome::quiet(DoorView { state: DoorState::Calibrating, ..d });
    lemma_halt(m, busy);
    lemma_wake_power(m, busy, d.tuning.outward(d.tuning.calibrate_power as int));
    let closed = Outcome::quiet(DoorView { last_pos: 0, ..busy.door });
    lemma_steps(m, closed, 0);
    lemma_steps(m, closed.power(0), 0);
    let opened = Outcome::quiet(DoorView { opening_counts: s.recheck, ..busy.door });
    lemma_halt(m, opened);
}

/// A tick's actions take the bridge to where the door believes it is, so its
/// memory of the commanded output is what a reading of the pins would give.
pub proof fn law_tick_reaches_pins(door: DoorView, s: Sample)
    requires
        door.wf(),
    ensures
        reaches_pins(door.motor, door.tick(s)),
{
    let m = door.motor;
    let d = DoorView {
        assist_lockout: if door.assist_lockout > 0 {
            (door.assist_lockout - 1) as u32
        } else {
            0
        },
        ..door
    };
    match door.calibration {
        Some(step) => {
            lemma_calibrate_pins(d, s, step);
        },
        None => match door.state {
            DoorState::Stopping => {
                lemma_settle_pins(d, s);
            },
            DoorState::Homing { stall_count, timeout_ticks } => {
                lemma_home_pins(d, s, stall_count as int, timeout_ticks as int);
            },
            _ => {
                let cleared = DoorView { target: None, ..d };
                lemma_halt(m, Outcome::quiet(cleared));
                lemma_steps(m, Outcome::quiet(cleared), 0);
                law_commands_reach_pins(DoorView { state: DoorState::Idle, ..cleared });
                if let Some(pct) = door.target {
                    lemma_drive_pins(d, s, pct as int);
                }
                lemma_assist_pins(d, s);
            },
        },
    }
}

/// In PH/EN mode no operation of the door powers a motor that sleeps.
pub proof fn law_sleeping_motor_is_unpowered(door: DoorView, s: Sample)
    requires
        door.wf(),
        unpowered_asleep(door.motor),
    ensures
        unpowered_asleep(door.tick(s).door.motor),
        unpowered_asleep(door.stop().door.motor),
        unpowered_asleep(door.start_homing().door.motor),
        unpowered_asleep(door.start_calibrate().door.motor),
{
}

} // verus!
