use open_sesame::action::Action;
use open_sesame::motor::{MotorDriver, MotorMode};

fn awake(mode: MotorMode) -> MotorDriver {
    let mut out = Vec::new();
    let mut motor = MotorDriver::new(mode, 40, &mut out);
    motor.wake(&mut out);
    motor
}

fn set(motor: &mut MotorDriver, power: i32) -> Vec<Action> {
    let mut out = Vec::new();
    motor.set_power(power, &mut out);
    out
}

#[test]
fn new_motor_is_put_to_sleep() {
    let mut out = Vec::new();
    let motor = MotorDriver::new(MotorMode::PhEn, 40, &mut out);
    assert_eq!(
        out,
        vec![Action::SetDuty(0), Action::SetIn2(false), Action::SetNslp(false)]
    );
    assert!(!motor.is_awake());
    assert_eq!(motor.get_power(), 0);
}

#[test]
fn wake_waits_once() {
    let mut out = Vec::new();
    let mut motor = MotorDriver::new(MotorMode::PhEn, 40, &mut out);
    out.clear();
    motor.wake(&mut out);
    assert_eq!(out, vec![Action::SetNslp(true), Action::WaitMs(1)]);
    assert!(motor.is_awake());
    out.clear();
    motor.wake(&mut out);
    assert!(out.is_empty());
}

#[test]
fn phen_drives_both_ways_at_variable_speed() {
    let mut motor = awake(MotorMode::PhEn);
    assert_eq!(set(&mut motor, 120), vec![Action::SetIn2(true), Action::SetDuty(120)]);
    assert_eq!(motor.get_power(), 120);
    assert_eq!(set(&mut motor, -120), vec![Action::SetIn2(false), Action::SetDuty(120)]);
    assert_eq!(motor.get_power(), -120);
    assert_eq!(set(&mut motor, 0), vec![Action::SetIn2(false), Action::SetDuty(0)]);
    assert_eq!(motor.get_power(), 0);
}

#[test]
fn inin_reverses_at_full_power() {
    let mut motor = awake(MotorMode::InIn);
    assert_eq!(set(&mut motor, 120), vec![Action::SetIn2(false), Action::SetDuty(120)]);
    assert_eq!(motor.get_power(), -120);
    assert_eq!(set(&mut motor, -120), vec![Action::SetDuty(0), Action::SetIn2(true)]);
    assert_eq!(motor.get_power(), 0);
    assert_eq!(set(&mut motor, 0), vec![Action::SetDuty(255), Action::SetIn2(true)]);
    assert_eq!(motor.get_power(), 255);
}

#[test]
fn power_is_limited_and_lifted() {
    let mut motor = awake(MotorMode::PhEn);
    set(&mut motor, 1000);
    assert_eq!(motor.get_power(), 255);
    set(&mut motor, -1000);
    assert_eq!(motor.get_power(), -255);
    set(&mut motor, 1);
    assert_eq!(motor.get_power(), 40);
    set(&mut motor, -39);
    assert_eq!(motor.get_power(), -40);
    set(&mut motor, 40);
    assert_eq!(motor.get_power(), 40);
    set(&mut motor, i32::MIN);
    assert_eq!(motor.get_power(), -255);
}

#[test]
fn negative_smallest_duty_lifts_nothing() {
    let mut out = Vec::new();
    let mut motor = MotorDriver::new(MotorMode::PhEn, -5, &mut out);
    set(&mut motor, 1);
    assert_eq!(motor.get_power(), 1);
    set(&mut motor, -1);
    assert_eq!(motor.get_power(), -1);
}

#[test]
fn brake_then_sleep_has_no_output() {
    let mut motor = awake(MotorMode::InIn);
    let mut out = Vec::new();
    motor.brake(&mut out);
    motor.sleep(&mut out);
    assert_eq!(
        out,
        vec![
            Action::SetDuty(255),
            Action::SetIn2(true),
            Action::SetDuty(0),
            Action::SetIn2(false),
            Action::SetNslp(false),
        ]
    );
    assert_eq!(motor.get_power(), 0);
}
