//! The door as a state machine: its state, and what one tick makes of it.
//!
//! ```text
//!   ┌─────────┐  pushed faster than threshold  ┌───────────────┐
//!   │  Idle   │ ─────────────────────────────► │ Opening /     │
//!   │ (sleep) │ ◄─ settled ── Stopping ◄─────── │ Closing       │
//!   └─────────┘               obstacle, stop   └──────┬────────┘
//!                                                     │ endstop
//!                                                     ▼
//!                                              ┌───────────────┐
//!                                              │ Open / Closed │
//!                                              └───────────────┘
//! ```
//!
//! A target overrides assist. An endstop that was driven to clears the target.

use vstd::prelude::*;

use crate::action::Action;
use crate::config::Tuning;
use crate::motor::MotorView;

verus! {

#[derive(Clone, Copy, Debug, PartialEq, Eq, Structural)]
pub enum DoorState {
    Idle,
    Stopping,
    Opening,
    Closing,
    Open,
    Closed,
    /// Boot-up homing: drive toward closed endstop, reset encoder, done.
    Homing { stall_count: u32, timeout_ticks: u32 },
    Calibrating,
}

impl DoorState {
    /// The name under which the state is published.
    pub open spec fn name(self) -> Seq<char> {
        match self {
            DoorState::Idle => "idle"@,
            DoorState::Stopping => "stopping"@,
            DoorState::Opening => "opening"@,
            DoorState::Closing => "closing"@,
            DoorState::Open => "open"@,
            DoorState::Closed => "closed"@,
            DoorState::Homing { .. } => "homing"@,
            DoorState::Calibrating => "calibrating"@,
        }
    }

    pub fn as_str(&self) -> (s: &'static str)
        ensures
            s@ == self.name(),
    {
        match self {
            DoorState::Idle => "idle",
            DoorState::Stopping => "stopping",
            DoorState::Opening => "opening",
            DoorState::Closing => "closing",
            DoorState::Open => "open",
            DoorState::Closed => "closed",
            DoorState::Homing { stall_count: _, timeout_ticks: _ } => "homing",
            DoorState::Calibrating => "calibrating",
        }
    }
}

/// Progress through the non-blocking calibration sequence.
#[derive(Clone, Copy, Debug, PartialEq, Eq, Structural)]
pub enum CalibrationStep {
    /// Driving toward the closed endstop; counting consecutive no-motion ticks.
    DrivingClosed { stall_count: u32, timeout_ticks: u32 },
    /// Brief pause between directions (ticks remaining).
    Pause { remaining: u32 },
    /// Driving toward the open endstop; counting consecutive no-motion ticks.
    DrivingOpen { stall_count: u32, timeout_ticks: u32 },
}

/// What was measured for one tick.
#[derive(Clone, Copy, Debug)]
pub struct Sample {
    /// Encoder position.
    pub pos: i32,
    /// Encoder position read once more, right after `pos`.
    pub recheck: i32,
    /// Magnitude of the filtered velocity in counts per tick, rounded down.
    pub speed: i32,
    /// The door moves toward open faster than the assist threshold.
    pub fast_open: bool,
    /// The door moves toward closed faster than the assist threshold.
    pub fast_close: bool,
    /// Operating power times the ramp factor, rounded toward zero.
    pub drive_power: i32,
    /// Monotonic time in nanoseconds.
    pub now: u64,
}

/// State of a [`DoorController`].
pub struct DoorView {
    pub tuning: Tuning,
    pub motor: MotorView,
    pub state: DoorState,
    pub last_pos: i32,
    /// When the door was last seen moving by hand, in nanoseconds.
    pub last_move_time: u64,
    /// Position to drive to, in percent of the opening.
    pub target: Option<i32>,
    /// Encoder position of the open endstop, or 0 if it is not known.
    pub opening_counts: i32,
    /// Active calibration step, or None when not calibrating.
    pub calibration: Option<CalibrationStep>,
    /// Consecutive no-motion ticks while the motor is powered.
    pub obstacle_stall_count: u32,
    /// Ticks since the current target was set.
    pub drive_ticks: u32,
    /// Ticks remaining before assist re-arms.
    pub assist_lockout: u32,
    /// Consecutive stationary ticks accumulated in the Stopping state.
    pub settle_count: u32,
}

/// A door, and what was asked of the hardware on the way to it.
pub struct Outcome {
    pub door: DoorView,
    pub actions: Seq<Action>,
}

impl Outcome {
    /// Nothing asked of the hardware.
    pub open spec fn quiet(door: DoorView) -> Outcome {
        Outcome { door, actions: seq![] }
    }

    pub open spec fn wake(self) -> Outcome {
        Outcome {
            door: DoorView { motor: self.door.motor.woken(), ..self.door },
            actions: self.actions + self.door.motor.wake_actions(),
        }
    }

    pub open spec fn sleep(self) -> Outcome {
        Outcome {
            door: DoorView { motor: self.door.motor.asleep(), ..self.door },
            actions: self.actions + self.door.motor.sleep_actions(),
        }
    }

    pub open spec fn power(self, power: int) -> Outcome {
        Outcome {
            door: DoorView { motor: self.door.motor.powered(power), ..self.door },
            actions: self.actions + self.door.motor.power_actions(power),
        }
    }

    /// Brake, then coast.
    pub open spec fn halt(self) -> Outcome {
        self.power(0).sleep()
    }

    pub open spec fn reset_encoder(self) -> Outcome {
        Outcome { actions: self.actions.push(Action::ResetEncoder), ..self }
    }

    pub open spec fn state(self, state: DoorState) -> Outcome {
        Outcome { door: DoorView { state, ..self.door }, ..self }
    }

    pub open spec fn calibration(self, calibration: Option<CalibrationStep>) -> Outcome {
        Outcome { door: DoorView { calibration, ..self.door }, ..self }
    }
}

/// Division rounding toward zero.
pub open spec fn quotient(a: int, b: int) -> int
    recommends
        b != 0,
{
    let magnitude = abs(a) / abs(b);
    if (a < 0) == (b < 0) {
        magnitude
    } else {
        -magnitude
    }
}

pub open spec fn abs(a: int) -> int {
    if a < 0 {
        -a
    } else {
        a
    }
}

/// `pct` limited to 0..=100.
pub open spec fn percent(pct: int) -> int {
    if pct < 0 {
        0
    } else if pct > 100 {
        100
    } else {
        pct
    }
}

/// A count of consecutive ticks is cleared when it reaches its limit.
pub open spec fn below(count: u32, limit: u32) -> bool {
    count == 0 || count < limit
}

impl CalibrationStep {
    pub open spec fn wf(self, tuning: Tuning) -> bool {
        match self {
            CalibrationStep::DrivingClosed { stall_count, timeout_ticks } => {
                &&& below(stall_count, tuning.calibration_stall_ticks)
                &&& below(timeout_ticks, tuning.calibration_timeout_ticks)
            },
            CalibrationStep::Pause { .. } => true,
            CalibrationStep::DrivingOpen { stall_count, timeout_ticks } => {
                &&& below(stall_count, tuning.calibration_stall_ticks)
                &&& below(timeout_ticks, tuning.calibration_timeout_ticks)
            },
        }
    }
}

impl DoorState {
    pub open spec fn wf(self, tuning: Tuning) -> bool {
        match self {
            DoorState::Homing { stall_count, timeout_ticks } => {
                &&& below(stall_count, tuning.stall_ticks)
                &&& below(timeout_ticks, tuning.calibration_timeout_ticks)
            },
            _ => true,
        }
    }
}

// ── Geometry ─────────────────────────────────────────────────────────────────
impl DoorView {
    pub open spec fn wf(self) -> bool {
        &&& self.tuning.wf()
        &&& self.motor.wf()
        &&& self.state.wf(self.tuning)
        &&& self.calibration matches Some(step) ==> step.wf(self.tuning)
        &&& self.calibration is Some <==> self.state is Calibrating
        &&& self.target matches Some(pct) ==> 0 <= pct <= 100
        &&& below(self.obstacle_stall_count, self.tuning.stall_ticks)
        &&& below(self.settle_count, self.tuning.settle_ticks)
    }

    /// At or beyond the open endstop.
    pub open spec fn at_open(self, pos: int) -> bool {
        self.tuning.outward(pos) >= self.tuning.outward(self.opening_counts as int)
    }

    /// At or beyond the closed endstop, give or take the threshold.
    pub open spec fn at_closed(self, pos: int) -> bool {
        self.tuning.outward(pos) <= self.tuning.closed_threshold
    }

    /// The position at `pct` percent of the opening, rounded toward closed.
    pub open spec fn pct_to_counts(self, pct: int) -> int {
        quotient(percent(pct) * self.opening_counts, 100)
    }

    /// `pos` in percent of the opening, rounded toward zero.
    pub open spec fn counts_to_pct(self, pos: int) -> int {
        if self.opening_counts == 0 {
            0
        } else {
            percent(quotient(pos * 100, self.opening_counts as int))
        }
    }

    /// The factor by which the drive is slowed down at `pos` on its way to
    /// `target`, as a numerator and a denominator: the share of the ramp that is
    /// left, or one before the ramp.
    pub open spec fn ramp(self, pos: int, target: int) -> (int, int) {
        let dist = abs(pos - target);
        if dist < self.tuning.ramp_down_counts {
            (dist, self.tuning.ramp_down_counts as int)
        } else {
            (1, 1)
        }
    }

    /// Where a door that stands still at `pos` is.
    pub open spec fn resting(self, pos: int) -> DoorState {
        if self.at_open(pos) {
            DoorState::Open
        } else if self.at_closed(pos) {
            DoorState::Closed
        } else {
            DoorState::Idle
        }
    }

    pub open spec fn moving(self, s: Sample) -> bool {
        s.speed > self.tuning.dead_zone
    }

    /// Did the position change by no more than the dead zone since the last tick?
    pub open spec fn stuck(self, s: Sample) -> bool {
        abs(s.pos - self.last_pos) <= self.tuning.dead_zone
    }

    pub open spec fn idle_for_long(self, s: Sample) -> bool {
        s.now - self.last_move_time > self.tuning.idle_timeout_ms * 1_000_000
    }
}

// ── Commands ─────────────────────────────────────────────────────────────────
impl DoorView {
    /// Setting the target that is set already changes nothing, so that stall
    /// detection goes on.
    pub open spec fn set_position(self, pct: int) -> DoorView {
        if self.target == Some(percent(pct) as i32) {
            self
        } else {
            DoorView {
                target: Some(percent(pct) as i32),
                obstacle_stall_count: 0,
                drive_ticks: 0,
                ..self
            }
        }
    }

    /// Whatever the door was doing, calibration and homing included, is over.
    pub open spec fn stop(self) -> Outcome {
        Outcome::quiet(
            DoorView {
                target: None,
                settle_count: 0,
                calibration: None,
                state: DoorState::Stopping,
                ..self
            },
        ).halt()
    }

    /// Homing takes the place of a calibration.
    pub open spec fn start_homing(self) -> Outcome {
        Outcome::quiet(
            DoorView {
                target: None,
                calibration: None,
                state: DoorState::Homing { stall_count: 0, timeout_ticks: 0 },
                ..self
            },
        ).wake().power(-self.tuning.outward(self.tuning.calibrate_power as int))
    }

    pub open spec fn start_calibrate(self) -> Outcome {
        Outcome::quiet(
            DoorView {
                target: None,
                state: DoorState::Calibrating,
                calibration: Some(
                    CalibrationStep::DrivingClosed { stall_count: 0, timeout_ticks: 0 },
                ),
                ..self
            },
        ).wake().power(-self.tuning.outward(self.tuning.calibrate_power as int))
    }
}

// ── One tick ─────────────────────────────────────────────────────────────────
impl DoorView {
    /// A tick of a door that is coming to a stop.
    pub open spec fn settle(self, s: Sample) -> Outcome {
        if self.moving(s) {
            // Coasts rather than holding the brake against a moving door.
            Outcome::quiet(DoorView { settle_count: 0, ..self }).halt()
        } else if self.settle_count + 1 < self.tuning.settle_ticks {
            // One quiet tick means nothing: the door may yet recoil.
            Outcome::quiet(DoorView { settle_count: (self.settle_count + 1) as u32, ..self })
        } else {
            Outcome::quiet(
                DoorView { settle_count: 0, state: self.resting(s.pos as int), ..self },
            ).sleep()
        }
    }

    /// A tick of homing, before which the door was found stuck `stall_count`
    /// times in a row and `timeout_ticks` ticks went by.
    pub open spec fn home(self, s: Sample, stall_count: int, timeout_ticks: int) -> Outcome {
        let stalled = self.stuck(s) && stall_count + 1 >= self.tuning.stall_ticks;
        if timeout_ticks + 1 >= self.tuning.calibration_timeout_ticks {
            // The position is zeroed anyway: the door should have moved.
            Outcome::quiet(
                DoorView { state: DoorState::Idle, last_pos: 0, ..self },
            ).halt().reset_encoder()
        } else if stalled {
            let found = Outcome::quiet(DoorView { last_pos: 0, ..self }).halt().reset_encoder();
            Outcome { actions: found.actions + found.door.stop().actions, ..found.door.stop() }
        } else {
            Outcome::quiet(
                DoorView {
                    state: DoorState::Homing {
                        stall_count: if self.stuck(s) {
                            (stall_count + 1) as u32
                        } else {
                            0
                        },
                        timeout_ticks: (timeout_ticks + 1) as u32,
                    },
                    ..self
                },
            )
        }
    }

    /// Does a tick at `pos` drive toward a target?
    pub open spec fn drives(self, pos: int) -> bool {
        &&& self.calibration is None
        &&& !(self.state is Stopping)
        &&& !(self.state is Homing)
        &&& self.opening_counts != 0
        &&& self.target is Some
        &&& !self.arrived(pos)
    }

    /// The target is an endstop, and the door is there.
    pub open spec fn arrived(self, pos: int) -> bool {
        ||| self.target == Some(100i32) && self.at_open(pos)
        ||| self.target == Some(0i32) && self.at_closed(pos)
    }

    /// Does a tick count toward an obstacle?
    pub open spec fn obstructed(self, s: Sample) -> bool {
        !self.moving(s) && self.drive_ticks + 1 > self.tuning.stall_grace_ticks
    }

    /// A tick of a door that is driven to `pct` percent.
    pub open spec fn drive(self, s: Sample, pct: int) -> Outcome {
        let obstacle_stall_count = if self.moving(s) {
            0
        } else if self.obstructed(s) {
            self.obstacle_stall_count + 1
        } else {
            self.obstacle_stall_count as int
        };
        let counted = DoorView { drive_ticks: (self.drive_ticks + 1) as u32, ..self };
        if self.obstructed(s) && obstacle_stall_count >= self.tuning.stall_ticks {
            Outcome::quiet(
                DoorView {
                    target: None,
                    obstacle_stall_count: 0,
                    assist_lockout: self.tuning.assist_lockout_ticks,
                    settle_count: 0,
                    state: DoorState::Stopping,
                    ..counted
                },
            ).halt()
        } else {
            let ready = Outcome::quiet(
                DoorView { obstacle_stall_count: obstacle_stall_count as u32, ..counted },
            ).wake();
            let power = if s.drive_power > 1 {
                s.drive_power as int
            } else {
                1
            };
            if self.tuning.outward(s.pos as int) < self.tuning.outward(self.pct_to_counts(pct)) {
                ready.power(self.tuning.outward(power)).state(DoorState::Opening)
            } else {
                ready.power(-self.tuning.outward(power)).state(DoorState::Closing)
            }
        }
    }

    /// A tick of a door without a target: manual push and pull detection.
    pub open spec fn assist(self, s: Sample) -> Outcome {
        let seen = if self.moving(s) {
            DoorView { last_move_time: s.now, ..self }
        } else {
            self
        };
        if self.assist_lockout > 0 {
            // A recoil off an obstacle looks like a push.
            Outcome::quiet(seen)
        } else if self.moving(s) {
            if s.fast_open && !self.at_open(s.pos as int) {
                Outcome::quiet(seen.set_position(100)).state(DoorState::Opening)
            } else if s.fast_close && !self.at_closed(s.pos as int) {
                Outcome::quiet(seen.set_position(0)).state(DoorState::Closing)
            } else {
                Outcome::quiet(seen).state(DoorState::Idle)
            }
        } else if self.idle_for_long(s) {
            let rested = Outcome::quiet(seen).state(self.resting(s.pos as int));
            if self.motor.awake {
                rested.sleep()
            } else {
                rested
            }
        } else {
            Outcome::quiet(seen)
        }
    }

    /// A tick of a door that is not calibrating.
    pub open spec fn advance(self, s: Sample) -> Outcome {
        let cleared = DoorView { target: None, ..self };
        match self.state {
            DoorState::Stopping => self.settle(s),
            DoorState::Homing { stall_count, timeout_ticks } => self.home(
                s,
                stall_count as int,
                timeout_ticks as int,
            ),
            _ => if self.opening_counts == 0 {
                // Without endstops there is no motion.
                Outcome::quiet(cleared).sleep().state(DoorState::Idle)
            } else if self.target == Some(100i32) && self.at_open(s.pos as int) {
                Outcome::quiet(cleared).halt().state(DoorState::Open)
            } else if self.target == Some(0i32) && self.at_closed(s.pos as int) {
                if self.tuning.close_homing {
                    cleared.start_homing()
                } else {
                    Outcome::quiet(cleared).halt().state(DoorState::Closed)
                }
            } else {
                match self.target {
                    Some(pct) => self.drive(s, pct as int),
                    None => self.assist(s),
                }
            },
        }
    }

    /// A tick of calibration.
    pub open spec fn calibrate(self, s: Sample, step: CalibrationStep) -> Outcome {
        let busy = Outcome::quiet(DoorView { state: DoorState::Calibrating, ..self });
        match step {
            CalibrationStep::DrivingClosed { stall_count, timeout_ticks } => {
                let stalled = self.stuck(s) && stall_count + 1
                    >= self.tuning.calibration_stall_ticks;
                if timeout_ticks + 1 >= self.tuning.calibration_timeout_ticks {
                    busy.halt().state(DoorState::Idle).calibration(None)
                } else if stalled {
                    Outcome::quiet(
                        DoorView { last_pos: 0, ..busy.door },
                    ).power(0).reset_encoder().calibration(
                        Some(
                            CalibrationStep::Pause {
                                remaining: self.tuning.calibration_pause_ticks,
                            },
                        ),
                    )
                } else {
                    busy.calibration(
                        Some(
                            CalibrationStep::DrivingClosed {
                                stall_count: if self.stuck(s) {
                                    (stall_count + 1) as u32
                                } else {
                                    0
                                },
                                timeout_ticks: (timeout_ticks + 1) as u32,
                            },
                        ),
                    )
                }
            },
            CalibrationStep::Pause { remaining } => if remaining == 0 {
                busy.wake().power(self.tuning.outward(self.tuning.calibrate_power as int)).calibration(
                    Some(CalibrationStep::DrivingOpen { stall_count: 0, timeout_ticks: 0 }),
                )
            } else {
                busy.calibration(
                    Some(CalibrationStep::Pause { remaining: (remaining - 1) as u32 }),
                )
            },
            CalibrationStep::DrivingOpen { stall_count, timeout_ticks } => {
                let stalled = self.stuck(s) && stall_count + 1
                    >= self.tuning.calibration_stall_ticks;
                if timeout_ticks + 1 >= self.tuning.calibration_timeout_ticks {
                    busy.halt().state(DoorState::Idle).calibration(None)
                } else if stalled {
                    Outcome::quiet(
                        DoorView { opening_counts: s.recheck, ..busy.door },
                    ).halt().state(DoorState::Open).calibration(None)
                } else {
                    busy.calibration(
                        Some(
                            CalibrationStep::DrivingOpen {
                                stall_count: if self.stuck(s) {
                                    (stall_count + 1) as u32
                                } else {
                                    0
                                },
                                timeout_ticks: (timeout_ticks + 1) as u32,
                            },
                        ),
                    )
                }
            },
        }
    }

    /// One tick of the control loop.
    pub open spec fn tick(self, s: Sample) -> Outcome {
        let rearming = DoorView {
            assist_lockout: if self.assist_lockout > 0 {
                (self.assist_lockout - 1) as u32
            } else {
                0
            },
            ..self
        };
        let next = match self.calibration {
            Some(step) => rearming.calibrate(s, step),
            None => rearming.advance(s),
        };
        Outcome { door: DoorView { last_pos: s.pos, ..next.door }, ..next }
    }

    /// The door after a row of ticks.
    #[verifier::opaque]
    pub open spec fn run(self, samples: Seq<Sample>) -> DoorView
        decreases samples.len(),
    {
        if samples.len() == 0 {
            self
        } else {
            self.run(samples.drop_last()).tick(samples.last()).door
        }
    }

    /// A row of ticks is a row that is one shorter, and a tick.
    pub proof fn lemma_run(self, samples: Seq<Sample>)
        ensures
            samples.len() == 0 ==> self.run(samples) == self,
            samples.len() > 0 ==> self.run(samples) == self.run(samples.drop_last()).tick(
                samples.last(),
            ).door,
    {
        reveal(DoorView::run);
    }

    /// The tick counter can count a tick at `pos`.
    pub open spec fn can_tick(self, pos: int) -> bool {
        self.drives(pos) ==> self.drive_ticks < u32::MAX
    }
}

} // verus!
