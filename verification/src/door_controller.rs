//! Core assistive control loop for the sliding door.
//!
//! Call [`DoorController::tick`] every [`DoorController::loop_period`]
//! milliseconds with fresh measurements, and perform the actions it asks for.

use vstd::prelude::*;

use crate::action::Action;
use crate::config::Tuning;
use crate::door_laws::calibration::is_calibration_tick;
use crate::door_laws::geometry::law_target_between_endstops;
use crate::door_model::{below, percent, quotient, DoorView, Outcome};
use crate::motor::MotorDriver;

pub use crate::door_model::{CalibrationStep, DoorState, Sample};

verus! {

/// Why a command was refused.
#[derive(Clone, Copy, Debug, PartialEq, Eq, Structural)]
pub enum DoorError {
    AlreadyCalibrating,
}

impl DoorError {
    pub fn message(&self) -> (s: &'static str)
        ensures
            s@ == "Door is already calibrating"@,
    {
        match self {
            DoorError::AlreadyCalibrating => "Door is already calibrating",
        }
    }
}

pub struct DoorController {
    tuning: Tuning,
    motor: MotorDriver,
    state: DoorState,
    last_pos: i32,
    last_move_time: u64,
    target: Option<i32>,
    opening_counts: i32,
    calibration: Option<CalibrationStep>,
    obstacle_stall_count: u32,
    drive_ticks: u32,
    assist_lockout: u32,
    settle_count: u32,
}

impl View for DoorController {
    type V = DoorView;

    closed spec fn view(&self) -> DoorView {
        DoorView {
            tuning: self.tuning,
            motor: self.motor@,
            state: self.state,
            last_pos: self.last_pos,
            last_move_time: self.last_move_time,
            target: self.target,
            opening_counts: self.opening_counts,
            calibration: self.calibration,
            obstacle_stall_count: self.obstacle_stall_count,
            drive_ticks: self.drive_ticks,
            assist_lockout: self.assist_lockout,
            settle_count: self.settle_count,
        }
    }
}

/// Division rounding toward zero.
fn divide(a: i64, b: i64) -> (q: i64)
    requires
        a > i64::MIN,
        b > i64::MIN,
        b != 0,
    ensures
        q == quotient(a as int, b as int),
{
    let m: i64 = if a < 0 {
        -a
    } else {
        a
    };
    let n: i64 = if b < 0 {
        -b
    } else {
        b
    };
    let magnitude: i64 = m / n;
    assert(0 <= magnitude <= m) by (nonlinear_arith)
        requires
            magnitude == m / n,
            m >= 0,
            n >= 1,
    ;
    if (a < 0) == (b < 0) {
        magnitude
    } else {
        -magnitude
    }
}

impl DoorController {
    /// An idle door with an unknown opening and a motor that sleeps or not.
    pub fn new(motor: MotorDriver, tuning: Tuning, now: u64) -> (door: Self)
        requires
            motor@.wf(),
            tuning.wf(),
        ensures
            door@ == (DoorView {
                tuning,
                motor: motor@,
                state: DoorState::Idle,
                last_pos: 0,
                last_move_time: now,
                target: None,
                opening_counts: 0,
                calibration: None,
                obstacle_stall_count: 0,
                drive_ticks: 0,
                assist_lockout: 0,
                settle_count: 0,
            }),
            door@.wf(),
    {
        DoorController {
            tuning,
            motor,
            state: DoorState::Idle,
            last_pos: 0,
            last_move_time: now,
            target: None,
            opening_counts: 0,
            calibration: None,
            obstacle_stall_count: 0,
            drive_ticks: 0,
            assist_lockout: 0,
            settle_count: 0,
        }
    }

    // ── Geometry ─────────────────────────────────────────────────────────────

    fn at_open(&self, pos: i32) -> (b: bool)
        ensures
            b == self@.at_open(pos as int),
    {
        if self.tuning.invert_direction {
            pos <= self.opening_counts
        } else {
            pos >= self.opening_counts
        }
    }

    fn at_closed(&self, pos: i32) -> (b: bool)
        requires
            self@.wf(),
        ensures
            b == self@.at_closed(pos as int),
    {
        if self.tuning.invert_direction {
            pos >= -self.tuning.closed_threshold
        } else {
            pos <= self.tuning.closed_threshold
        }
    }

    fn resting(&self, pos: i32) -> (state: DoorState)
        requires
            self@.wf(),
        ensures
            state == self@.resting(pos as int),
    {
        if self.at_open(pos) {
            DoorState::Open
        } else if self.at_closed(pos) {
            DoorState::Closed
        } else {
            DoorState::Idle
        }
    }

    fn pct_to_counts(&self, target: i32) -> (counts: i32)
        ensures
            counts == self@.pct_to_counts(target as int),
    {
        let pct: i32 = if target < 0 {
            0
        } else if target > 100 {
            100
        } else {
            target
        };
        let opening: i64 = self.opening_counts as i64;
        assert(-0x8000_0000 * 100 <= pct * opening <= 0x8000_0000 * 100) by (nonlinear_arith)
            requires
                0 <= pct <= 100,
                -0x8000_0000 <= opening < 0x8000_0000,
        ;
        let scaled: i64 = pct as i64 * opening;
        let counts: i64 = divide(scaled, 100);
        proof {
            law_target_between_endstops(self@, pct as int);
        }
        counts as i32
    }

    /// The factor by which the drive is slowed down at `pos`, as a numerator and
    /// a denominator.
    fn ramp_factor(&self, pos: i32, target: i32) -> (factor: (i32, i32))
        ensures
            (factor.0 as int, factor.1 as int) == self@.ramp(pos as int, target as int),
    {
        let diff: i64 = pos as i64 - target as i64;
        let dist: i64 = if diff < 0 {
            -diff
        } else {
            diff
        };
        if dist < self.tuning.ramp_down_counts as i64 {
            (dist as i32, self.tuning.ramp_down_counts)
        } else {
            (1, 1)
        }
    }

    /// The ramp factor on the way to the current target, if there is one.
    pub fn ramp(&self, pos: i32) -> (factor: Option<(i32, i32)>)
        ensures
            factor is Some <==> self@.target is Some,
            factor matches Some(f) ==> (f.0 as int, f.1 as int) == self@.ramp(
                pos as int,
                self@.pct_to_counts(self@.target->0 as int),
            ),
    {
        match self.target {
            Some(pct) => Some(self.ramp_factor(pos, self.pct_to_counts(pct))),
            None => None,
        }
    }

    /// How far the door came since the last tick.
    pub fn travel(&self, pos: i32) -> (counts: i64)
        ensures
            counts == pos - self@.last_pos,
    {
        pos as i64 - self.last_pos as i64
    }

    fn stuck(&self, sample: &Sample) -> (b: bool)
        ensures
            b == self@.stuck(*sample),
    {
        let travel: i64 = self.travel(sample.pos);
        let delta: i64 = if travel < 0 {
            -travel
        } else {
            travel
        };
        delta <= self.tuning.dead_zone as i64
    }

    // ── Commands ─────────────────────────────────────────────────────────────

    /// Set the door to a certain position between its endstops (0 = closed,
    /// 100 = open).
    pub fn set_position(&mut self, pos: i32)
        requires
            old(self)@.wf(),
        ensures
            final(self)@ == old(self)@.set_position(pos as int),
            final(self)@.wf(),
    {
        let pct: i32 = if pos < 0 {
            0
        } else if pos > 100 {
            100
        } else {
            pos
        };
        // Setting the same target again would reset stall detection.
        if let Some(target) = self.target {
            if target == pct {
                return ;
            }
        }
        self.target = Some(pct);
        self.obstacle_stall_count = 0;
        self.drive_ticks = 0;
    }

    /// Start driving the door toward the open endstop.
    pub fn drive_open(&mut self)
        requires
            old(self)@.wf(),
        ensures
            final(self)@ == old(self)@.set_position(100),
            final(self)@.wf(),
    {
        self.set_position(100);
    }

    /// Start driving the door toward the closed endstop.
    pub fn drive_close(&mut self)
        requires
            old(self)@.wf(),
        ensures
            final(self)@ == old(self)@.set_position(0),
            final(self)@.wf(),
    {
        self.set_position(0);
    }

    /// Brake, then coast.
    fn halt(&mut self, out: &mut Vec<Action>)
        requires
            old(self)@.wf(),
        ensures
            final(self)@ == Outcome::quiet(old(self)@).halt().door,
            final(self)@.wf(),
            final(out)@ == old(out)@ + Outcome::quiet(old(self)@).halt().actions,
    {
        self.motor.brake(out);
        self.motor.sleep(out);
    }

    /// Stop, clear any door target and abandon calibration. The motor coasts; the
    /// Stopping state waits for motion to settle before declaring the door stopped.
    pub fn stop(&mut self, out: &mut Vec<Action>)
        requires
            old(self)@.wf(),
        ensures
            final(self)@ == old(self)@.stop().door,
            final(self)@.wf(),
            final(out)@ == old(out)@ + old(self)@.stop().actions,
    {
        self.target = None;
        self.settle_count = 0;
        self.calibration = None;
        self.state = DoorState::Stopping;
        self.halt(out);
    }

    /// Drive toward the closed endstop until stall, then reset the encoder to
    /// zero. Call on boot to establish a known position after a power loss. A
    /// calibration that is under way is abandoned.
    pub fn start_homing(&mut self, out: &mut Vec<Action>)
        requires
            old(self)@.wf(),
        ensures
            final(self)@ == old(self)@.start_homing().door,
            final(self)@.wf(),
            final(out)@ == old(out)@ + old(self)@.start_homing().actions,
    {
        self.target = None;
        self.motor.wake(out);
        let power: i32 = -self.tuning.turned(self.tuning.calibrate_power);
        self.motor.set_power(power, out);
        self.calibration = None;
        self.state = DoorState::Homing { stall_count: 0, timeout_ticks: 0 };
    }

    /// Begin auto-calibration. The sequence runs through [`Self::tick`]:
    ///   1. Drive toward closed until stall, and reset the encoder to zero.
    ///   2. Pause, then drive toward open until stall, and record the position.
    ///
    /// Refused while the door is calibrating.
    pub fn start_calibrate(&mut self, out: &mut Vec<Action>) -> (result: Result<(), DoorError>)
        requires
            old(self)@.wf(),
        ensures
            old(self)@.state is Calibrating <==> result == Err::<(), DoorError>(
                DoorError::AlreadyCalibrating,
            ),
            result is Err ==> final(self)@ == old(self)@ && final(out)@ == old(out)@,
            result is Ok ==> {
                &&& final(self)@ == old(self)@.start_calibrate().door
                &&& final(out)@ == old(out)@ + old(self)@.start_calibrate().actions
            },
            final(self)@.wf(),
    {
        if self.state == DoorState::Calibrating {
            return Err(DoorError::AlreadyCalibrating);
        }
        self.target = None;
        self.state = DoorState::Calibrating;
        self.motor.wake(out);
        let power: i32 = -self.tuning.turned(self.tuning.calibrate_power);
        self.motor.set_power(power, out);
        self.calibration = Some(
            CalibrationStep::DrivingClosed { stall_count: 0, timeout_ticks: 0 },
        );
        Ok(())
    }

    // ── One tick ─────────────────────────────────────────────────────────────

    /// Can the tick counter count a tick at `pos`?
    pub fn can_tick(&self, pos: i32) -> (b: bool)
        requires
            self@.wf(),
        ensures
            b == self@.can_tick(pos as int),
    {
        if self.drive_ticks < u32::MAX || self.calibration.is_some() || self.opening_counts == 0 {
            return true;
        }
        match self.state {
            DoorState::Stopping => true,
            DoorState::Homing { .. } => true,
            _ => match self.target {
                Some(pct) => pct == 100 && self.at_open(pos) || pct == 0 && self.at_closed(pos),
                None => true,
            },
        }
    }

    /// Run one tick of the control loop.
    pub fn tick(&mut self, sample: &Sample, out: &mut Vec<Action>)
        requires
            old(self)@.wf(),
            old(self)@.can_tick(sample.pos as int),
        ensures
            final(self)@ == old(self)@.tick(*sample).door,
            final(self)@.wf(),
            final(out)@ == old(out)@ + old(self)@.tick(*sample).actions,
    {
        self.assist_lockout = self.assist_lockout.saturating_sub(1);
        match self.calibration {
            Some(step) => self.tick_calibration(sample, step, out),
            None => self.next_state(sample, out),
        }
        self.last_pos = sample.pos;
    }

    fn next_state(&mut self, sample: &Sample, out: &mut Vec<Action>)
        requires
            old(self)@.wf(),
            old(self)@.calibration is None,
            old(self)@.can_tick(sample.pos as int),
        ensures
            final(self)@ == old(self)@.advance(*sample).door,
            final(self)@.wf(),
            final(out)@ == old(out)@ + old(self)@.advance(*sample).actions,
    {
        let pos: i32 = sample.pos;
        match self.state {
            DoorState::Stopping => {
                self.tick_settle(sample, out);
                return ;
            },
            DoorState::Homing { stall_count, timeout_ticks } => {
                self.tick_homing(sample, stall_count, timeout_ticks, out);
                return ;
            },
            _ => {},
        }

        // Without endstops there is no motion.
        if self.opening_counts == 0 {
            self.target = None;
            self.motor.sleep(out);
            self.state = DoorState::Idle;
            return ;
        }
        match self.target {
            Some(pct) => {
                // Movement away from an endstop is allowed.
                if pct == 100 && self.at_open(pos) {
                    self.target = None;
                    self.halt(out);
                    self.state = DoorState::Open;
                } else if pct == 0 && self.at_closed(pos) {
                    self.target = None;
                    if self.tuning.close_homing {
                        // The encoder says closed: stall into the physical stop
                        // to correct its drift.
                        self.start_homing(out);
                    } else {
                        self.halt(out);
                        self.state = DoorState::Closed;
                    }
                } else {
                    self.tick_drive(sample, pct, out);
                }
            },
            None => self.tick_assist(sample, out),
        }
    }

    /// Coast until the motion has settled.
    fn tick_settle(&mut self, sample: &Sample, out: &mut Vec<Action>)
        requires
            old(self)@.wf(),
            old(self)@.state is Stopping,
        ensures
            final(self)@ == old(self)@.settle(*sample).door,
            final(self)@.wf(),
            final(out)@ == old(out)@ + old(self)@.settle(*sample).actions,
    {
        if sample.speed > self.tuning.dead_zone {
            self.settle_count = 0;
            self.halt(out);
            return ;
        }
        self.settle_count = self.settle_count + 1;
        if self.settle_count < self.tuning.settle_ticks {
            return ;
        }
        self.settle_count = 0;
        self.motor.sleep(out);
        self.state = self.resting(sample.pos);
    }

    /// Drive toward the target, watching for obstacles.
    fn tick_drive(&mut self, sample: &Sample, pct: i32, out: &mut Vec<Action>)
        requires
            old(self)@.wf(),
            old(self)@.calibration is None,
            old(self)@.drive_ticks < u32::MAX,
        ensures
            final(self)@ == old(self)@.drive(*sample, pct as int).door,
            final(self)@.wf(),
            final(out)@ == old(out)@ + old(self)@.drive(*sample, pct as int).actions,
    {
        self.drive_ticks = self.drive_ticks + 1;
        if sample.speed > self.tuning.dead_zone {
            self.obstacle_stall_count = 0;
        } else if self.drive_ticks > self.tuning.stall_grace_ticks {
            self.obstacle_stall_count = self.obstacle_stall_count + 1;
            if self.obstacle_stall_count >= self.tuning.stall_ticks {
                self.target = None;
                self.obstacle_stall_count = 0;
                self.assist_lockout = self.tuning.assist_lockout_ticks;
                self.settle_count = 0;
                self.halt(out);
                self.state = DoorState::Stopping;
                return ;
            }
        }
        let target_counts: i32 = self.pct_to_counts(pct);
        let power: i32 = if sample.drive_power > 1 {
            sample.drive_power
        } else {
            1
        };
        let short_of_target: bool = if self.tuning.invert_direction {
            sample.pos > target_counts
        } else {
            sample.pos < target_counts
        };
        self.motor.wake(out);
        let outward: i32 = self.tuning.turned(power);
        if short_of_target {
            self.motor.set_power(outward, out);
            self.state = DoorState::Opening;
        } else {
            self.motor.set_power(-outward, out);
            self.state = DoorState::Closing;
        }
    }

    /// Turn a manual push or pull into a target.
    fn tick_assist(&mut self, sample: &Sample, out: &mut Vec<Action>)
        requires
            old(self)@.wf(),
            old(self)@.calibration is None,
            old(self)@.target is None,
        ensures
            final(self)@ == old(self)@.assist(*sample).door,
            final(self)@.wf(),
            final(out)@ == old(out)@ + old(self)@.assist(*sample).actions,
    {
        let pos: i32 = sample.pos;
        let moving: bool = sample.speed > self.tuning.dead_zone;
        if moving {
            self.last_move_time = sample.now;
        }
        if self.assist_lockout > 0 {
            return ;
        }
        if moving {
            if sample.fast_open && !self.at_open(pos) {
                self.set_position(100);
                self.state = DoorState::Opening;
            } else if sample.fast_close && !self.at_closed(pos) {
                self.set_position(0);
                self.state = DoorState::Closing;
            } else {
                self.target = None;
                self.state = DoorState::Idle;
            }
        } else if self.idle_for_long(sample) {
            if self.motor.is_awake() {
                self.motor.sleep(out);
            }
            self.state = self.resting(pos);
        }
    }

    fn idle_for_long(&self, sample: &Sample) -> (b: bool)
        ensures
            b == self@.idle_for_long(*sample),
    {
        sample.now > self.last_move_time && (sample.now - self.last_move_time) as u128
            > self.tuning.idle_timeout_ms as u128 * 1_000_000
    }

    /// Drive toward the closed endstop until stall or timeout.
    fn tick_homing(
        &mut self,
        sample: &Sample,
        stall_count: u32,
        timeout_ticks: u32,
        out: &mut Vec<Action>,
    )
        requires
            old(self)@.wf(),
            old(self)@.calibration is None,
            below(stall_count, old(self)@.tuning.stall_ticks),
            below(timeout_ticks, old(self)@.tuning.calibration_timeout_ticks),
        ensures
            final(self)@ == old(self)@.home(
                *sample,
                stall_count as int,
                timeout_ticks as int,
            ).door,
            final(self)@.wf(),
            final(out)@ == old(out)@ + old(self)@.home(
                *sample,
                stall_count as int,
                timeout_ticks as int,
            ).actions,
    {
        let timeout_ticks: u32 = timeout_ticks + 1;
        if timeout_ticks >= self.tuning.calibration_timeout_ticks {
            // The position is zeroed anyway: the door should have moved.
            self.halt(out);
            out.push(Action::ResetEncoder);
            self.last_pos = 0;
            self.state = DoorState::Idle;
        } else if self.stuck(sample) {
            let stall_count: u32 = stall_count + 1;
            if stall_count >= self.tuning.stall_ticks {
                self.halt(out);
                out.push(Action::ResetEncoder);
                self.last_pos = 0;
                self.stop(out);
            } else {
                self.state = DoorState::Homing { stall_count, timeout_ticks };
            }
        } else {
            self.state = DoorState::Homing { stall_count: 0, timeout_ticks };
        }
    }

    /// Advance the calibration sequence by one tick.
    fn tick_calibration(&mut self, sample: &Sample, step: CalibrationStep, out: &mut Vec<Action>)
        requires
            old(self)@.wf(),
            old(self)@.calibration is Some,
            step.wf(old(self)@.tuning),
        ensures
            final(self)@ == old(self)@.calibrate(*sample, step).door,
            final(self)@.wf(),
            final(out)@ == old(out)@ + old(self)@.calibrate(*sample, step).actions,
            is_calibration_tick(old(self)@, final(self)@),
    {
        self.state = DoorState::Calibrating;
        let stuck: bool = self.stuck(sample);
        self.calibration = match step {
            CalibrationStep::DrivingClosed { stall_count, timeout_ticks } => {
                let timeout_ticks: u32 = timeout_ticks + 1;
                if timeout_ticks >= self.tuning.calibration_timeout_ticks {
                    self.halt(out);
                    self.state = DoorState::Idle;
                    None
                } else if stuck {
                    let stall_count: u32 = stall_count + 1;
                    if stall_count >= self.tuning.calibration_stall_ticks {
                        self.motor.brake(out);
                        out.push(Action::ResetEncoder);
                        self.last_pos = 0;
                        Some(
                            CalibrationStep::Pause {
                                remaining: self.tuning.calibration_pause_ticks,
                            },
                        )
                    } else {
                        Some(CalibrationStep::DrivingClosed { stall_count, timeout_ticks })
                    }
                } else {
                    Some(CalibrationStep::DrivingClosed { stall_count: 0, timeout_ticks })
                }
            },
            CalibrationStep::Pause { remaining } => {
                if remaining == 0 {
                    self.motor.wake(out);
                    let power: i32 = self.tuning.turned(self.tuning.calibrate_power);
                    self.motor.set_power(power, out);
                    Some(CalibrationStep::DrivingOpen { stall_count: 0, timeout_ticks: 0 })
                } else {
                    Some(CalibrationStep::Pause { remaining: remaining - 1 })
                }
            },
            CalibrationStep::DrivingOpen { stall_count, timeout_ticks } => {
                let timeout_ticks: u32 = timeout_ticks + 1;
                if timeout_ticks >= self.tuning.calibration_timeout_ticks {
                    self.halt(out);
                    self.state = DoorState::Idle;
                    None
                } else if stuck {
                    let stall_count: u32 = stall_count + 1;
                    if stall_count >= self.tuning.calibration_stall_ticks {
                        self.halt(out);
                        self.set_opening(sample.recheck);
                        self.state = DoorState::Open;
                        None
                    } else {
                        Some(CalibrationStep::DrivingOpen { stall_count, timeout_ticks })
                    }
                } else {
                    Some(CalibrationStep::DrivingOpen { stall_count: 0, timeout_ticks })
                }
            },
        };
    }

    // ── Accessors ────────────────────────────────────────────────────────────

    /// `position` in percent of the opening; 0 while the opening is not known.
    pub fn position_pct(&self, position: i32) -> (pct: i32)
        ensures
            pct == self@.counts_to_pct(position as int),
    {
        if self.opening_counts == 0 {
            return 0;
        }
        let pct: i64 = divide(position as i64 * 100, self.opening_counts as i64);
        if pct < 0 {
            0
        } else if pct > 100 {
            100
        } else {
            pct as i32
        }
    }

    pub fn state(&self) -> (state: &DoorState)
        ensures
            *state == self@.state,
    {
        &self.state
    }

    /// The motor output as it is published; see [`MotorDriver::get_power`].
    pub fn power(&self) -> (power: i32)
        requires
            self@.wf(),
        ensures
            power == self@.motor.power(),
    {
        self.motor.get_power()
    }

    pub fn set_opening(&mut self, opening: i32)
        ensures
            final(self)@ == (DoorView { opening_counts: opening, ..old(self)@ }),
    {
        self.opening_counts = opening;
    }

    pub fn opening(&self) -> (opening: i32)
        ensures
            opening == self@.opening_counts,
    {
        self.opening_counts
    }

    /// Time between two ticks in milliseconds.
    pub fn loop_period(&self) -> (ms: u64)
        ensures
            ms == self@.tuning.loop_period_ms,
    {
        self.tuning.loop_period_ms
    }
}

} // verus!
