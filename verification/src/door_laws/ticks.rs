//! What one tick does, situation by situation, stated on what was measured and on
//! the door's counters.

use vstd::prelude::*;

use crate::action::Action;
use crate::door_laws::geometry::law_target_position;
use crate::door_laws::plainly::{
    at_rest, coast_writes, coasting, fully_closed, fully_open, halt_writes, law_motor_operations,
    level_writes, run_writes, running, set_to, stayed_put, target_position, ticked, toward_open,
    whereabouts,
};
use crate::door_model::{CalibrationStep, DoorState, DoorView, Outcome, Sample};
use crate::motor::MotorView;

verus! {

/// The writes of a halt, a wake and a start, as the motor makes them.
proof fn lemma_writes(motor: MotorView, power: int)
    requires
        motor.wf(),
    ensures
        motor.powered(0).asleep() == coasting(motor),
        motor.power_actions(0) + motor.powered(0).sleep_actions() == halt_writes(motor.mode),
        motor.woken().powered(power) == running(motor, power),
        motor.wake_actions() + motor.woken().power_actions(power) == run_writes(motor, power),
        motor.powered(0) == set_to(motor, 0),
        motor.power_actions(0) == level_writes(motor, 0),
        motor.asleep() == coasting(motor),
        motor.sleep_actions() == coast_writes(),
{
    law_motor_operations(motor, 0);
    law_motor_operations(motor, power);
    law_motor_operations(motor.woken(), power);
    assert(motor.power_actions(0) + motor.powered(0).sleep_actions() =~= halt_writes(motor.mode));
    assert(level_writes(motor.woken(), power) == level_writes(motor, power));
}

proof fn lemma_outcomes(o: Outcome, power: int)
    requires
        o.door.motor.wf(),
    ensures
        o.halt().door == (DoorView { motor: coasting(o.door.motor), ..o.door }),
        o.halt().actions == o.actions + halt_writes(o.door.motor.mode),
        o.sleep().door == (DoorView { motor: coasting(o.door.motor), ..o.door }),
        o.sleep().actions == o.actions + coast_writes(),
        o.power(0).door == (DoorView { motor: set_to(o.door.motor, 0), ..o.door }),
        o.power(0).actions == o.actions + level_writes(o.door.motor, 0),
        o.wake().power(power).door == (DoorView { motor: running(o.door.motor, power), ..o.door }),
        o.wake().power(power).actions == o.actions + run_writes(o.door.motor, power),
{
    let m = o.door.motor;
    lemma_writes(m, power);
    assert(o.halt().actions =~= o.actions + (m.power_actions(0) + m.powered(0).sleep_actions()));
    assert(o.wake().power(power).actions =~= o.actions + (m.wake_actions()
        + m.woken().power_actions(power)));
}

// ── Commands ─────────────────────────────────────────────────────────────────

/// A new target, limited to 0..=100, starts the drive anew; the target that is set
/// already changes nothing.
pub proof fn law_position_becomes_target(door: DoorView, pct: int)
    ensures
        ({
            let limited = if pct < 0 {
                0
            } else if pct > 100 {
                100
            } else {
                pct
            };
            door.set_position(pct) == (if door.target == Some(limited as i32) {
                door
            } else {
                DoorView {
                    target: Some(limited as i32),
                    obstacle_stall_count: 0,
                    drive_ticks: 0,
                    ..door
                }
            })
        }),
{
}

/// Stopping brakes and lets the door coast, without target, calibration or homing;
/// homing and calibration both set out for the closed endstop at the output for
/// it. Nothing else about the door changes.
pub proof fn law_commands(door: DoorView)
    requires
        door.wf(),
    ensures
        door.stop().door == (DoorView {
            target: None,
            calibration: None,
            settle_count: 0,
            state: DoorState::Stopping,
            motor: coasting(door.motor),
            ..door
        }),
        door.stop().actions == halt_writes(door.motor.mode),
        ({
            let closing = 0 - toward_open(door, door.tuning.calibrate_power as int);
            &&& door.start_homing().door == (DoorView {
                target: None,
                calibration: None,
                state: DoorState::Homing { stall_count: 0, timeout_ticks: 0 },
                motor: running(door.motor, closing),
                ..door
            })
            &&& door.start_homing().actions == run_writes(door.motor, closing)
            &&& door.start_calibrate().door == (DoorView {
                target: None,
                calibration: Some(
                    CalibrationStep::DrivingClosed { stall_count: 0, timeout_ticks: 0 },
                ),
                state: DoorState::Calibrating,
                motor: running(door.motor, closing),
                ..door
            })
            &&& door.start_calibrate().actions == run_writes(door.motor, closing)
        }),
{
    let closing = 0 - toward_open(door, door.tuning.calibrate_power as int);
    lemma_outcomes(
        Outcome::quiet(
            DoorView {
                target: None,
                settle_count: 0,
                calibration: None,
                state: DoorState::Stopping,
                ..door
            },
        ),
        0,
    );
    lemma_outcomes(
        Outcome::quiet(
            DoorView {
                target: None,
                calibration: None,
                state: DoorState::Homing { stall_count: 0, timeout_ticks: 0 },
                ..door
            },
        ),
        closing,
    );
    lemma_outcomes(
        Outcome::quiet(
            DoorView {
                target: None,
                calibration: Some(
                    CalibrationStep::DrivingClosed { stall_count: 0, timeout_ticks: 0 },
                ),
                state: DoorState::Calibrating,
                ..door
            },
        ),
        closing,
    );
}

// ── Coming to a stop ─────────────────────────────────────────────────────────

/// A stopping door that moves is made to coast and waited for anew; one that is at
/// rest is counted, and after enough such ticks is declared to be where it is.
pub proof fn law_stopping_tick(door: DoorView, s: Sample)
    requires
        door.wf(),
        door.state is Stopping,
    ensures
        ({
            let after = door.tick(s);
            &&& !at_rest(door, s) ==> {
                &&& after.door == (DoorView {
                    settle_count: 0,
                    motor: coasting(door.motor),
                    ..ticked(door, s)
                })
                &&& after.actions == halt_writes(door.motor.mode)
            }
            &&& at_rest(door, s) && door.settle_count + 1 < door.tuning.settle_ticks ==> {
                &&& after.door == (DoorView {
                    settle_count: (door.settle_count + 1) as u32,
                    ..ticked(door, s)
                })
                &&& after.actions.len() == 0
            }
            &&& at_rest(door, s) && door.settle_count + 1 >= door.tuning.settle_ticks ==> {
                &&& after.door == (DoorView {
                    settle_count: 0,
                    state: whereabouts(door, s.pos as int),
                    motor: coasting(door.motor),
                    ..ticked(door, s)
                })
                &&& after.actions == coast_writes()
            }
        }),
{
    let d = DoorView { last_pos: door.last_pos, ..ticked(door, s) };
    lemma_outcomes(Outcome::quiet(DoorView { settle_count: 0, ..d }), 0);
    lemma_outcomes(
        Outcome::quiet(DoorView { settle_count: 0, state: d.resting(s.pos as int), ..d }),
        0,
    );
}

// ── Homing ───────────────────────────────────────────────────────────────────

/// Homing counts as stalled only ticks in which the position stayed put. One that
/// did not starts the count anew, with the motor left alone; enough of them in a
/// row zero the encoder and stop the door; and when time is up the encoder is
/// zeroed where the door is, which is then idle.
pub proof fn law_homing_tick(door: DoorView, s: Sample)
    requires
        door.wf(),
        door.state is Homing,
    ensures
        ({
            let after = door.tick(s);
            let stall_count = door.state->stall_count;
            let timeout_ticks = door.state->timeout_ticks;
            let in_time = timeout_ticks + 1 < door.tuning.calibration_timeout_ticks;
            let last = stall_count + 1 >= door.tuning.stall_ticks;
            &&& in_time && !stayed_put(door, s) ==> {
                &&& after.door == (DoorView {
                    state: DoorState::Homing {
                        stall_count: 0,
                        timeout_ticks: (timeout_ticks + 1) as u32,
                    },
                    ..ticked(door, s)
                })
                &&& after.actions.len() == 0
            }
            &&& in_time && stayed_put(door, s) && !last ==> {
                &&& after.door == (DoorView {
                    state: DoorState::Homing {
                        stall_count: (stall_count + 1) as u32,
                        timeout_ticks: (timeout_ticks + 1) as u32,
                    },
                    ..ticked(door, s)
                })
                &&& after.actions.len() == 0
            }
            &&& in_time && stayed_put(door, s) && last ==> {
                &&& after.door == (DoorView {
                    state: DoorState::Stopping,
                    target: None,
                    settle_count: 0,
                    motor: coasting(door.motor),
                    ..ticked(door, s)
                })
                &&& after.actions == halt_writes(door.motor.mode) + seq![Action::ResetEncoder]
                    + halt_writes(door.motor.mode)
            }
            &&& !in_time ==> {
                &&& after.door == (DoorView {
                    state: DoorState::Idle,
                    motor: coasting(door.motor),
                    ..ticked(door, s)
                })
                &&& after.actions == halt_writes(door.motor.mode) + seq![Action::ResetEncoder]
            }
        }),
{
    let d = DoorView { last_pos: door.last_pos, ..ticked(door, s) };
    let lost = Outcome::quiet(DoorView { state: DoorState::Idle, last_pos: 0, ..d });
    let found = Outcome::quiet(DoorView { last_pos: 0, ..d });
    lemma_outcomes(lost, 0);
    lemma_outcomes(found, 0);
    law_commands(found.halt().reset_encoder().door);
    assert(coasting(coasting(door.motor)) == coasting(door.motor));
    let halted = halt_writes(door.motor.mode);
    assert(Seq::<Action>::empty() + halted =~= halted);
    assert(halted.push(Action::ResetEncoder) =~= halted + seq![Action::ResetEncoder]);
}

// ── Calibration ──────────────────────────────────────────────────────────────

/// On the way to the closed endstop only ticks in which the position stayed put
/// count as stalled; one that did not starts the count anew, with the motor left
/// alone. Enough of them in a row brake the motor, zero the encoder and begin the
/// pause; when time is up calibration is given up. The opening stays as it was.
pub proof fn law_drive_to_closed_endstop(door: DoorView, s: Sample)
    requires
        door.wf(),
        door.calibration matches Some(CalibrationStep::DrivingClosed { .. }),
    ensures
        ({
            let after = door.tick(s);
            let stall_count = door.calibration->0->DrivingClosed_stall_count;
            let timeout_ticks = door.calibration->0->DrivingClosed_timeout_ticks;
            let in_time = timeout_ticks + 1 < door.tuning.calibration_timeout_ticks;
            let last = stall_count + 1 >= door.tuning.calibration_stall_ticks;
            &&& in_time && !stayed_put(door, s) ==> {
                &&& after.door == (DoorView {
                    calibration: Some(
                        CalibrationStep::DrivingClosed {
                            stall_count: 0,
                            timeout_ticks: (timeout_ticks + 1) as u32,
                        },
                    ),
                    ..ticked(door, s)
                })
                &&& after.actions.len() == 0
            }
            &&& in_time && stayed_put(door, s) && !last ==> {
                &&& after.door == (DoorView {
                    calibration: Some(
                        CalibrationStep::DrivingClosed {
                            stall_count: (stall_count + 1) as u32,
                            timeout_ticks: (timeout_ticks + 1) as u32,
                        },
                    ),
                    ..ticked(door, s)
                })
                &&& after.actions.len() == 0
            }
            &&& in_time && stayed_put(door, s) && last ==> {
                &&& after.door == (DoorView {
                    calibration: Some(
                        CalibrationStep::Pause { remaining: door.tuning.calibration_pause_ticks },
                    ),
                    motor: set_to(door.motor, 0),
                    ..ticked(door, s)
                })
                &&& after.actions == level_writes(door.motor, 0) + seq![Action::ResetEncoder]
            }
            &&& !in_time ==> {
                &&& after.door == (DoorView {
                    calibration: None,
                    state: DoorState::Idle,
                    motor: coasting(door.motor),
                    ..ticked(door, s)
                })
                &&& after.actions == halt_writes(door.motor.mode)
            }
        }),
{
    let d = DoorView { last_pos: door.last_pos, ..ticked(door, s) };
    let busy = Outcome::quiet(DoorView { state: DoorState::Calibrating, ..d });
    lemma_outcomes(busy, 0);
    lemma_outcomes(Outcome::quiet(DoorView { last_pos: 0, ..busy.door }), 0);
    let braked = level_writes(door.motor, 0);
    assert(Seq::<Action>::empty() + braked =~= braked);
    assert(braked.push(Action::ResetEncoder) =~= braked + seq![Action::ResetEncoder]);
}

/// The pause is counted down with the motor left alone; then the motor is woken and
/// set to the output for calibration, toward open.
pub proof fn law_pause_tick(door: DoorView, s: Sample)
    requires
        door.wf(),
        door.calibration matches Some(CalibrationStep::Pause { .. }),
    ensures
        ({
            let after = door.tick(s);
            let remaining = door.calibration->0->remaining;
            let opening = toward_open(door, door.tuning.calibrate_power as int);
            &&& remaining > 0 ==> {
                &&& after.door == (DoorView {
                    calibration: Some(
                        CalibrationStep::Pause { remaining: (remaining - 1) as u32 },
                    ),
                    ..ticked(door, s)
                })
                &&& after.actions.len() == 0
            }
            &&& remaining == 0 ==> {
                &&& after.door == (DoorView {
                    calibration: Some(
                        CalibrationStep::DrivingOpen { stall_count: 0, timeout_ticks: 0 },
                    ),
                    motor: running(door.motor, opening),
                    ..ticked(door, s)
                })
                &&& after.actions == run_writes(door.motor, opening)
            }
        }),
{
    let d = DoorView { last_pos: door.last_pos, ..ticked(door, s) };
    let busy = Outcome::quiet(DoorView { state: DoorState::Calibrating, ..d });
    lemma_outcomes(busy, toward_open(door, door.tuning.calibrate_power as int));
}

/// On the way to the open endstop only ticks in which the position stayed put count
/// as stalled; one that did not starts the count anew, with the motor and the
/// opening left alone. Enough of them in a row make the position that was read
/// last the opening, and the door is open with the motor off; when time is up
/// calibration is given up, with the opening that was known before.
pub proof fn law_drive_to_open_endstop(door: DoorView, s: Sample)
    requires
        door.wf(),
        door.calibration matches Some(CalibrationStep::DrivingOpen { .. }),
    ensures
        ({
            let after = door.tick(s);
            let stall_count = door.calibration->0->DrivingOpen_stall_count;
            let timeout_ticks = door.calibration->0->DrivingOpen_timeout_ticks;
            let in_time = timeout_ticks + 1 < door.tuning.calibration_timeout_ticks;
            let last = stall_count + 1 >= door.tuning.calibration_stall_ticks;
            &&& in_time && !stayed_put(door, s) ==> {
                &&& after.door == (DoorView {
                    calibration: Some(
                        CalibrationStep::DrivingOpen {
                            stall_count: 0,
                            timeout_ticks: (timeout_ticks + 1) as u32,
                        },
                    ),
                    ..ticked(door, s)
                })
                &&& after.actions.len() == 0
            }
            &&& in_time && stayed_put(door, s) && !last ==> {
                &&& after.door == (DoorView {
                    calibration: Some(
                        CalibrationStep::DrivingOpen {
                            stall_count: (stall_count + 1) as u32,
                            timeout_ticks: (timeout_ticks + 1) as u32,
                        },
                    ),
                    ..ticked(door, s)
                })
                &&& after.actions.len() == 0
            }
            &&& in_time && stayed_put(door, s) && last ==> {
                &&& after.door == (DoorView {
                    calibration: None,
                    opening_counts: s.recheck,
                    state: DoorState::Open,
                    motor: coasting(door.motor),
                    ..ticked(door, s)
                })
                &&& after.actions == halt_writes(door.motor.mode)
            }
            &&& !in_time ==> {
                &&& after.door == (DoorView {
                    calibration: None,
                    state: DoorState::Idle,
                    motor: coasting(door.motor),
                    ..ticked(door, s)
                })
                &&& after.actions == halt_writes(door.motor.mode)
            }
        }),
{
    let d = DoorView { last_pos: door.last_pos, ..ticked(door, s) };
    let busy = Outcome::quiet(DoorView { state: DoorState::Calibrating, ..d });
    lemma_outcomes(busy, 0);
    lemma_outcomes(Outcome::quiet(DoorView { opening_counts: s.recheck, ..busy.door }), 0);
}

// ── Driving ──────────────────────────────────────────────────────────────────

/// Up to here nothing is in the way of targets and assist.
pub open spec fn listens(door: DoorView) -> bool {
    &&& door.wf()
    &&& !(door.state is Stopping)
    &&& !(door.state is Homing)
    &&& !(door.state is Calibrating)
}

/// Without a known opening the door does nothing: idle, no target, and coasting.
pub proof fn law_tick_without_opening(door: DoorView, s: Sample)
    requires
        listens(door),
        door.opening_counts == 0,
    ensures
        door.tick(s).door == (DoorView {
            target: None,
            state: DoorState::Idle,
            motor: coasting(door.motor),
            ..ticked(door, s)
        }),
        door.tick(s).actions == coast_writes(),
{
    let d = DoorView { last_pos: door.last_pos, ..ticked(door, s) };
    lemma_outcomes(Outcome::quiet(DoorView { target: None, ..d }), 0);
}

/// A door that was to open and is fully open is halted there.
pub proof fn law_arrival_open(door: DoorView, s: Sample)
    requires
        listens(door),
        door.opening_counts != 0,
        door.target == Some(100i32),
        fully_open(door, s.pos as int),
    ensures
        door.tick(s).door == (DoorView {
            target: None,
            state: DoorState::Open,
            motor: coasting(door.motor),
            ..ticked(door, s)
        }),
        door.tick(s).actions == halt_writes(door.motor.mode),
{
    let d = DoorView { last_pos: door.last_pos, ..ticked(door, s) };
    lemma_outcomes(Outcome::quiet(DoorView { target: None, ..d }), 0);
}

/// A door that was to close and is fully closed is halted there; or, if it is tuned
/// to, homes into the stop.
pub proof fn law_arrival_closed(door: DoorView, s: Sample)
    requires
        listens(door),
        door.opening_counts != 0,
        door.target == Some(0i32),
        fully_closed(door, s.pos as int),
    ensures
        !door.tuning.close_homing ==> {
            &&& door.tick(s).door == (DoorView {
                target: None,
                state: DoorState::Closed,
                motor: coasting(door.motor),
                ..ticked(door, s)
            })
            &&& door.tick(s).actions == halt_writes(door.motor.mode)
        },
        door.tuning.close_homing ==> {
            let closing = 0 - toward_open(door, door.tuning.calibrate_power as int);
            &&& door.tick(s).door == (DoorView {
                target: None,
                state: DoorState::Homing { stall_count: 0, timeout_ticks: 0 },
                motor: running(door.motor, closing),
                ..ticked(door, s)
            })
            &&& door.tick(s).actions == run_writes(door.motor, closing)
        },
{
    let d = DoorView { last_pos: door.last_pos, ..ticked(door, s) };
    let cleared = DoorView { target: None, ..d };
    lemma_outcomes(Outcome::quiet(cleared), 0);
    law_commands(DoorView { state: DoorState::Idle, ..cleared });
    assert(cleared.start_homing() == (DoorView {
        state: DoorState::Idle,
        ..cleared
    }).start_homing());
}

/// Is the door on its way to `pct` percent?
pub open spec fn under_way(door: DoorView, s: Sample, pct: i32) -> bool {
    &&& listens(door)
    &&& door.opening_counts != 0
    &&& door.drive_ticks < u32::MAX
    &&& door.target == Some(pct)
    &&& !(pct == 100 && fully_open(door, s.pos as int))
    &&& !(pct == 0 && fully_closed(door, s.pos as int))
}

/// The stalled ticks in a row, this one included: the grace period does not count,
/// and motion starts anew.
pub open spec fn stalls_so_far(door: DoorView, s: Sample) -> int {
    if !at_rest(door, s) {
        0
    } else if door.drive_ticks < door.tuning.stall_grace_ticks {
        door.obstacle_stall_count as int
    } else {
        door.obstacle_stall_count + 1
    }
}

/// The door is at an obstacle: at rest past the grace period, for long enough.
pub open spec fn at_obstacle(door: DoorView, s: Sample) -> bool {
    &&& at_rest(door, s)
    &&& door.drive_ticks >= door.tuning.stall_grace_ticks
    &&& door.obstacle_stall_count + 1 >= door.tuning.stall_ticks
}

/// A door on its way is stopped if it is at an obstacle, and only then: halted,
/// without a target, and with assist locked out. Otherwise the motor is awake and
/// drives it toward its target, with the output that was asked for, and the target
/// stays.
pub proof fn law_drive_tick(door: DoorView, s: Sample, pct: i32)
    requires
        under_way(door, s, pct),
    ensures
        ({
            let after = door.tick(s);
            let counted = DoorView {
                drive_ticks: (door.drive_ticks + 1) as u32,
                ..ticked(door, s)
            };
            let asked = if s.drive_power < 1 {
                1
            } else {
                s.drive_power as int
            };
            let short = toward_open(door, s.pos as int) < toward_open(
                door,
                target_position(door, pct as int),
            );
            let power = toward_open(
                door,
                if short {
                    asked
                } else {
                    0 - asked
                },
            );
            &&& at_obstacle(door, s) ==> {
                &&& after.door == (DoorView {
                    target: None,
                    obstacle_stall_count: 0,
                    assist_lockout: door.tuning.assist_lockout_ticks,
                    settle_count: 0,
                    state: DoorState::Stopping,
                    motor: coasting(door.motor),
                    ..counted
                })
                &&& after.actions == halt_writes(door.motor.mode)
            }
            &&& !at_obstacle(door, s) ==> {
                &&& after.door == (DoorView {
                    obstacle_stall_count: stalls_so_far(door, s) as u32,
                    state: if short {
                        DoorState::Opening
                    } else {
                        DoorState::Closing
                    },
                    motor: running(door.motor, power),
                    ..counted
                })
                &&& after.actions == run_writes(door.motor, power)
            }
        }),
{
    let d = DoorView { last_pos: door.last_pos, ..ticked(door, s) };
    let counted = DoorView { drive_ticks: (d.drive_ticks + 1) as u32, ..d };
    let asked = if s.drive_power < 1 {
        1
    } else {
        s.drive_power as int
    };
    law_target_position(door, pct as int);
    lemma_outcomes(
        Outcome::quiet(
            DoorView {
                target: None,
                obstacle_stall_count: 0,
                assist_lockout: d.tuning.assist_lockout_ticks,
                settle_count: 0,
                state: DoorState::Stopping,
                ..counted
            },
        ),
        0,
    );
    let ready = Outcome::quiet(
        DoorView { obstacle_stall_count: stalls_so_far(door, s) as u32, ..counted },
    );
    lemma_outcomes(ready, toward_open(door, asked));
    lemma_outcomes(ready, toward_open(door, 0 - asked));
}

/// A door that moves is not stopped: it keeps its target, nothing is counted
/// against it, and the motor drives it on.
pub proof fn law_moving_door_is_driven_on(door: DoorView, s: Sample, pct: i32)
    requires
        under_way(door, s, pct),
        s.speed > door.tuning.dead_zone,
    ensures
        door.tick(s).door.target == door.target,
        door.tick(s).door.obstacle_stall_count == 0,
        door.tick(s).door.state is Opening || door.tick(s).door.state is Closing,
        door.tick(s).door.motor.awake,
{
    law_drive_tick(door, s, pct);
}

/// A door on its way comes to be stopping if and only if it is at rest, the grace
/// period is over, and it was at rest often enough before.
pub proof fn law_stopped_only_at_obstacle(door: DoorView, s: Sample, pct: i32)
    requires
        under_way(door, s, pct),
    ensures
        door.tick(s).door.state is Stopping <==> s.speed <= door.tuning.dead_zone
            && door.drive_ticks + 1 > door.tuning.stall_grace_ticks && door.obstacle_stall_count + 1
            >= door.tuning.stall_ticks,
        door.tick(s).door.target is None <==> door.tick(s).door.state is Stopping,
{
    law_drive_tick(door, s, pct);
}

/// A tick can always be counted, except where a drive has gone on for as many ticks
/// as the counter holds.
pub proof fn law_ticks_can_be_counted(door: DoorView, pos: int)
    ensures
        door.drive_ticks < u32::MAX ==> door.can_tick(pos),
        door.target is None || door.opening_counts == 0 || door.state is Stopping || door.state is Homing
            ==> door.can_tick(pos),
        !door.can_tick(pos) ==> door.target is Some && door.drive_ticks == u32::MAX,
{
}

// ── Assist ───────────────────────────────────────────────────────────────────

/// A door that may be pushed: it has an opening and no target.
pub open spec fn can_be_pushed(door: DoorView) -> bool {
    listens(door) && door.opening_counts != 0 && door.target is None
}

/// The time of the last motion, once this sample is seen.
pub open spec fn last_seen_moving(door: DoorView, s: Sample) -> u64 {
    if at_rest(door, s) {
        door.last_move_time
    } else {
        s.now
    }
}

/// While assist is locked out a door without a target stays as it is: motion is
/// noted, and that is all.
pub proof fn law_locked_out_tick(door: DoorView, s: Sample)
    requires
        can_be_pushed(door),
        door.assist_lockout > 1,
    ensures
        door.tick(s).door == (DoorView {
            last_move_time: last_seen_moving(door, s),
            ..ticked(door, s)
        }),
        door.tick(s).actions.len() == 0,
{
}

/// A fast motion toward open, unless the door is fully open, becomes a drive open;
/// else one toward closed, unless it is fully closed, becomes a drive closed; any
/// other motion leaves the door idle. The motor is left for the next tick.
pub proof fn law_push_tick(door: DoorView, s: Sample)
    requires
        can_be_pushed(door),
        door.assist_lockout <= 1,
        s.speed > door.tuning.dead_zone,
    ensures
        ({
            let after = door.tick(s).door;
            let seen = DoorView { last_move_time: s.now, ..ticked(door, s) };
            let opened = s.fast_open && !fully_open(door, s.pos as int);
            let closed = !opened && s.fast_close && !fully_closed(door, s.pos as int);
            &&& opened ==> after == (DoorView {
                target: Some(100i32),
                drive_ticks: 0,
                obstacle_stall_count: 0,
                state: DoorState::Opening,
                ..seen
            })
            &&& closed ==> after == (DoorView {
                target: Some(0i32),
                drive_ticks: 0,
                obstacle_stall_count: 0,
                state: DoorState::Closing,
                ..seen
            })
            &&& !opened && !closed ==> after == (DoorView { state: DoorState::Idle, ..seen })
        }),
        door.tick(s).actions.len() == 0,
{
}

/// A door that is left standing is, once it was last seen moving longer ago than
/// the timeout, open, closed or idle by where it stands, with the motor asleep;
/// before that nothing changes.
pub proof fn law_standing_tick(door: DoorView, s: Sample)
    requires
        can_be_pushed(door),
        door.assist_lockout <= 1,
        s.speed <= door.tuning.dead_zone,
    ensures
        ({
            let after = door.tick(s);
            let long = s.now - door.last_move_time > door.tuning.idle_timeout_ms * 1_000_000;
            &&& !long ==> after.door == ticked(door, s) && after.actions.len() == 0
            &&& long ==> {
                &&& after.door == (DoorView {
                    state: whereabouts(door, s.pos as int),
                    motor: if door.motor.awake {
                        coasting(door.motor)
                    } else {
                        door.motor
                    },
                    ..ticked(door, s)
                })
                &&& after.actions == (if door.motor.awake {
                    coast_writes()
                } else {
                    seq![]
                })
                &&& !after.door.motor.awake
            }
        }),
{
    let d = DoorView { last_pos: door.last_pos, ..ticked(door, s) };
    lemma_outcomes(Outcome::quiet(d).state(d.resting(s.pos as int)), 0);
}

} // verus!
