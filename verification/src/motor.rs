//! DRV8874 H-bridge motor driver.
//!
//! The bridge supports two control modes selected by its MODE pin:
//!
//! * IN/IN (MODE low): forward is IN1 = PWM, IN2 = low; reverse is IN1 = low,
//!   IN2 = high, at full power only, since there is a single PWM channel;
//!   brake is IN1 = IN2 = high.
//! * PH/EN (MODE high): forward is PH = high, EN = PWM; reverse is PH = low,
//!   EN = PWM; brake is EN = low.
//!
//! In both modes the motor coasts while nSLP is low.

use vstd::prelude::*;

use crate::action::{Action, Pins};

verus! {

/// Maximum duty cycle for 8-bit resolution.
pub const MAX_DUTY: u32 = 255;

/// Time the bridge needs after nSLP goes high before it accepts commands.
pub const WAKE_DELAY_MS: u64 = 1;

/// Selects which control mode the hardware MODE pin is wired for.
#[derive(Clone, Copy, Debug, PartialEq, Eq, Structural)]
pub enum MotorMode {
    /// MODE pin low. Variable-speed forward only; reverse is full power.
    InIn,
    /// MODE pin high. Variable speed in both directions.
    PhEn,
}

/// What a [`MotorDriver`] knows: its wiring and the levels it last commanded.
pub struct MotorView {
    pub mode: MotorMode,
    /// Smallest duty cycle that moves the motor.
    pub min_duty: i32,
    pub awake: bool,
    pub duty: u32,
    pub in2_high: bool,
}

impl MotorView {
    pub open spec fn wf(self) -> bool {
        &&& valid_min_duty(self.min_duty)
        &&& self.duty <= MAX_DUTY
    }

    /// The output that a request for `power` comes to: limited to the 8-bit
    /// range, and lifted to the smallest duty cycle unless it is zero.
    pub open spec fn effective(self, power: int) -> int {
        let p = if power > 255 {
            255
        } else if power < -255 {
            -255
        } else {
            power
        };
        if p > 0 && p < self.min_duty {
            self.min_duty as int
        } else if p < 0 && -p < self.min_duty {
            -self.min_duty
        } else {
            p
        }
    }

    /// The driver once its levels are those for an output of `p` as it is.
    pub open spec fn driven(self, p: int) -> MotorView {
        match self.mode {
            MotorMode::InIn => MotorView {
                duty: if p == 0 {
                    MAX_DUTY
                } else if p > 0 {
                    p as u32
                } else {
                    0
                },
                in2_high: p <= 0,
                ..self
            },
            MotorMode::PhEn => MotorView {
                duty: if p < 0 {
                    (-p) as u32
                } else {
                    p as u32
                },
                in2_high: p > 0,
                ..self
            },
        }
    }

    /// The pin writes that set the levels for an output of `p`, in order: IN2/PH
    /// goes first, except where IN/IN brakes or reverses.
    pub open spec fn drive_actions(self, p: int) -> Seq<Action> {
        let duty = Action::SetDuty(self.driven(p).duty);
        let in2 = Action::SetIn2(self.driven(p).in2_high);
        if self.mode is InIn && p <= 0 {
            seq![duty, in2]
        } else {
            seq![in2, duty]
        }
    }

    /// The driver once an output of `power` is set.
    pub open spec fn powered(self, power: int) -> MotorView {
        self.driven(self.effective(power))
    }

    /// The pin writes that set an output of `power`.
    pub open spec fn power_actions(self, power: int) -> Seq<Action> {
        self.drive_actions(self.effective(power))
    }

    /// The driver once it is awake.
    pub open spec fn woken(self) -> MotorView {
        MotorView { awake: true, ..self }
    }

    /// A driver that is awake already is left alone.
    pub open spec fn wake_actions(self) -> Seq<Action> {
        if self.awake {
            seq![]
        } else {
            seq![Action::SetNslp(true), Action::WaitMs(WAKE_DELAY_MS)]
        }
    }

    /// The driver once it coasts.
    pub open spec fn asleep(self) -> MotorView {
        MotorView { awake: false, duty: 0, in2_high: false, ..self }
    }

    pub open spec fn sleep_actions(self) -> Seq<Action> {
        seq![Action::SetDuty(0), Action::SetIn2(false), Action::SetNslp(false)]
    }

    /// The signed output that the commanded levels are read back as.
    pub open spec fn power(self) -> int {
        if self.in2_high {
            self.duty as int
        } else {
            -(self.duty as int)
        }
    }

    /// The levels at the bridge.
    pub open spec fn pins(self) -> Pins {
        Pins { duty: self.duty, in2_high: self.in2_high, nslp_high: self.awake }
    }
}

/// In PH/EN mode the commanded output is read back as it was set.
pub proof fn law_phen_power_reads_back(motor: MotorView, power: int)
    requires
        motor.wf(),
        motor.mode is PhEn,
    ensures
        motor.powered(power).power() == motor.effective(power),
{
}

/// The levels for each output. In IN/IN mode the brake is both inputs high, forward
/// is PWM against a low IN2, and reverse is full power whatever was asked for. In
/// PH/EN mode PH is the direction, and the brake is a duty cycle of zero.
pub proof fn law_levels(motor: MotorView, p: int)
    requires
        -255 <= p <= 255,
    ensures
        motor.mode is InIn ==> {
            &&& p == 0 ==> motor.driven(p).duty == MAX_DUTY && motor.driven(p).in2_high
            &&& p > 0 ==> motor.driven(p).duty == p && !motor.driven(p).in2_high
            &&& p < 0 ==> motor.driven(p).duty == 0 && motor.driven(p).in2_high
        },
        motor.mode is PhEn ==> {
            &&& p >= 0 ==> motor.driven(p).duty == p
            &&& p < 0 ==> motor.driven(p).duty == -p
            &&& motor.driven(p).in2_high <==> p > 0
        },
{
}

/// An output stays within the 8-bit range, keeps its direction, and is never
/// below the smallest duty cycle unless it is the brake.
pub proof fn law_effective_output(motor: MotorView, power: int)
    requires
        motor.wf(),
    ensures
        -255 <= motor.effective(power) <= 255,
        power == 0 <==> motor.effective(power) == 0,
        power > 0 ==> motor.effective(power) >= 1 && motor.effective(power) >= motor.min_duty,
        power < 0 ==> motor.effective(power) <= -1 && motor.effective(power) <= -motor.min_duty,
        -255 <= power <= 255 && (power >= motor.min_duty || -power >= motor.min_duty)
            ==> motor.effective(power) == power,
{
}

/// Setting an output twice is setting it once: the output that a request comes
/// to is a request for itself.
pub proof fn law_effective_output_is_stable(motor: MotorView, power: int)
    requires
        motor.wf(),
    ensures
        motor.effective(motor.effective(power)) == motor.effective(power),
        motor.powered(power).powered(power) == motor.powered(power),
{
}

/// A driver put to sleep reads back no output, whatever it did before.
pub proof fn law_asleep_has_no_output(motor: MotorView)
    ensures
        motor.asleep().power() == 0,
        !motor.asleep().pins().nslp_high,
{
}

/// The driver's memory is the truth at the bridge: performing the actions of an
/// operation takes the pins from the levels remembered before it to those
/// remembered after it.
pub proof fn law_actions_reach_pins(motor: MotorView, power: int)
    requires
        motor.wf(),
    ensures
        motor.pins().after_all(motor.power_actions(power)) == motor.powered(power).pins(),
        motor.pins().after_all(motor.wake_actions()) == motor.woken().pins(),
        motor.pins().after_all(motor.sleep_actions()) == motor.asleep().pins(),
{
    reveal_with_fuel(Pins::after_all, 4);
}

/// A smallest duty cycle fits the 8-bit range and can be negated.
pub open spec fn valid_min_duty(min_duty: i32) -> bool {
    i32::MIN < min_duty <= MAX_DUTY
}

/// Motor driver: remembers the levels it commanded, and says which pins to write.
pub struct MotorDriver {
    mode: MotorMode,
    min_duty: i32,
    awake: bool,
    duty: u32,
    in2_high: bool,
}

impl View for MotorDriver {
    type V = MotorView;

    closed spec fn view(&self) -> MotorView {
        MotorView {
            mode: self.mode,
            min_duty: self.min_duty,
            awake: self.awake,
            duty: self.duty,
            in2_high: self.in2_high,
        }
    }
}

impl MotorDriver {
    /// A driver that has just been put to sleep.
    pub fn new(mode: MotorMode, min_duty: i32, out: &mut Vec<Action>) -> (motor: Self)
        requires
            valid_min_duty(min_duty),
        ensures
            motor@ == (MotorView { mode, min_duty, awake: false, duty: 0, in2_high: false }),
            motor@.wf(),
            final(out)@ == old(out)@ + motor@.sleep_actions(),
    {
        let mut motor = MotorDriver { mode, min_duty, awake: false, duty: 0, in2_high: false };
        motor.sleep(out);
        motor
    }

    /// Wake the driver (nSLP high). Must be called before setting speed.
    pub fn wake(&mut self, out: &mut Vec<Action>)
        ensures
            final(self)@ == old(self)@.woken(),
            final(out)@ == old(out)@ + old(self)@.wake_actions(),
    {
        if !self.awake {
            out.push(Action::SetNslp(true));
            out.push(Action::WaitMs(WAKE_DELAY_MS));
            self.awake = true;
        }
    }

    /// Put the driver into coast/sleep mode (nSLP low).
    pub fn sleep(&mut self, out: &mut Vec<Action>)
        ensures
            final(self)@ == old(self)@.asleep(),
            final(out)@ == old(out)@ + old(self)@.sleep_actions(),
    {
        out.push(Action::SetDuty(0));
        out.push(Action::SetIn2(false));
        out.push(Action::SetNslp(false));
        self.duty = 0;
        self.in2_high = false;
        self.awake = false;
    }

    /// Set motor output. Positive is forward, negative is reverse, zero is
    /// active brake. `power` is limited to [-255, 255]; a non-zero output below
    /// the smallest duty cycle is lifted to it.
    pub fn set_power(&mut self, power: i32, out: &mut Vec<Action>)
        requires
            old(self)@.wf(),
        ensures
            final(self)@ == old(self)@.powered(power as int),
            final(self)@.wf(),
            final(out)@ == old(out)@ + old(self)@.power_actions(power as int),
    {
        let limited: i32 = if power > 255 {
            255
        } else if power < -255 {
            -255
        } else {
            power
        };
        let effective: i32 = if limited > 0 && limited < self.min_duty {
            self.min_duty
        } else if limited < 0 && -limited < self.min_duty {
            -self.min_duty
        } else {
            limited
        };
        match self.mode {
            MotorMode::InIn => self.set_power_inin(effective, out),
            MotorMode::PhEn => self.set_power_phen(effective, out),
        }
    }

    /// The duty cycle, positive while IN2/PH is high and negative while it is low.
    /// In PH/EN mode this is the output that was set. In IN/IN mode it is not:
    /// forward reads back negative, reverse as 0, and the brake as 255.
    pub fn get_power(&self) -> (power: i32)
        requires
            self@.wf(),
        ensures
            power == self@.power(),
    {
        if self.in2_high {
            self.duty as i32
        } else {
            -(self.duty as i32)
        }
    }

    /// Convenience: active brake.
    pub fn brake(&mut self, out: &mut Vec<Action>)
        requires
            old(self)@.wf(),
        ensures
            final(self)@ == old(self)@.powered(0),
            final(self)@.wf(),
            final(out)@ == old(out)@ + old(self)@.power_actions(0),
    {
        self.set_power(0, out);
    }

    pub fn is_awake(&self) -> (awake: bool)
        ensures
            awake == self@.awake,
    {
        self.awake
    }

    fn set_duty(&mut self, duty: u32, out: &mut Vec<Action>)
        ensures
            final(self)@ == (MotorView { duty, ..old(self)@ }),
            final(out)@ == old(out)@.push(Action::SetDuty(duty)),
    {
        self.duty = duty;
        out.push(Action::SetDuty(duty));
    }

    fn set_in2(&mut self, high: bool, out: &mut Vec<Action>)
        ensures
            final(self)@ == (MotorView { in2_high: high, ..old(self)@ }),
            final(out)@ == old(out)@.push(Action::SetIn2(high)),
    {
        self.in2_high = high;
        out.push(Action::SetIn2(high));
    }

    fn set_power_inin(&mut self, power: i32, out: &mut Vec<Action>)
        requires
            old(self)@.mode is InIn,
            -255 <= power <= 255,
        ensures
            final(self)@ == old(self)@.driven(power as int),
            final(out)@ == old(out)@ + old(self)@.drive_actions(power as int),
            power == 0 ==> final(self)@ == (MotorView {
                duty: MAX_DUTY,
                in2_high: true,
                ..old(self)@
            }),
            power > 0 ==> final(self)@ == (MotorView {
                duty: power as u32,
                in2_high: false,
                ..old(self)@
            }),
            power < 0 ==> final(self)@ == (MotorView { duty: 0, in2_high: true, ..old(self)@ }),
    {
        if power == 0 {
            // Brake: IN1 = high, IN2 = high
            self.set_duty(MAX_DUTY, out);
            self.set_in2(true, out);
        } else if power > 0 {
            // Forward: IN1 = PWM, IN2 = low
            self.set_in2(false, out);
            self.set_duty(power as u32, out);
        } else {
            // Reverse: IN1 = low, IN2 = high
            self.set_duty(0, out);
            self.set_in2(true, out);
        }
    }

    fn set_power_phen(&mut self, power: i32, out: &mut Vec<Action>)
        requires
            old(self)@.mode is PhEn,
            -255 <= power <= 255,
        ensures
            final(self)@ == old(self)@.driven(power as int),
            final(out)@ == old(out)@ + old(self)@.drive_actions(power as int),
            final(self)@ == (MotorView {
                duty: (if power < 0 {
                    -power
                } else {
                    power as int
                }) as u32,
                in2_high: power > 0,
                ..old(self)@
            }),
    {
        if power == 0 {
            // Brake: EN = low; nSLP stays high
            self.set_in2(false, out);
            self.set_duty(0, out);
        } else if power > 0 {
            // Forward: PH = high, EN = PWM
            self.set_in2(true, out);
            self.set_duty(power as u32, out);
        } else {
            // Reverse: PH = low, EN = PWM
            self.set_in2(false, out);
            self.set_duty((-power) as u32, out);
        }
    }
}

} // verus!
