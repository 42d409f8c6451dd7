use open_sesame::config::{Config, NvsValue, Secrets, Tuning};
use open_sesame::control::{
    dispatch, factory_reset, note_opening, toggle, wifi_step, FollowUp, ResetStep, Telemetry,
    ToggleButton, WifiStep, WIFI_FIRST_ATTEMPT,
};
use open_sesame::door_controller::{DoorController, DoorError, DoorState, Sample};
use open_sesame::motor::{MotorDriver, MotorMode};
use open_sesame::mqtt_client::MqttCommand;

fn door() -> DoorController {
    let mut out = Vec::new();
    let motor = MotorDriver::new(MotorMode::PhEn, 40, &mut out);
    let tuning = Tuning {
        invert_direction: false,
        close_homing: false,
        dead_zone: 1,
        closed_threshold: 10,
        ramp_down_counts: 100,
        calibrate_power: 80,
        stall_ticks: 5,
        stall_grace_ticks: 3,
        settle_ticks: 4,
        assist_lockout_ticks: 50,
        calibration_stall_ticks: 5,
        calibration_pause_ticks: 2,
        calibration_timeout_ticks: 1000,
        idle_timeout_ms: 1000,
        loop_period_ms: 10,
    };
    let mut door = DoorController::new(motor, tuning, 0);
    door.set_opening(1000);
    door
}

fn tick(door: &mut DoorController, pos: i32) {
    let sample = Sample {
        pos,
        recheck: pos,
        speed: 5,
        fast_open: false,
        fast_close: false,
        drive_power: 100,
        now: 0,
    };
    door.tick(&sample, &mut Vec::new());
}

#[test]
fn reset_button_has_to_be_held() {
    assert_eq!(factory_reset(false, None), ResetStep::Skip);
    assert_eq!(factory_reset(true, None), ResetStep::Confirm { after_s: 5 });
    assert_eq!(factory_reset(true, Some(true)), ResetStep::Erase);
    assert_eq!(factory_reset(true, Some(false)), ResetStep::Skip);
    assert_eq!(factory_reset(false, Some(true)), ResetStep::Skip);
}

#[test]
fn network_is_tried_three_times() {
    assert_eq!(wifi_step(1, true), WifiStep::Joined);
    assert_eq!(wifi_step(1, false), WifiStep::Retry { after_ms: 2000, attempt: 2 });
    assert_eq!(wifi_step(2, false), WifiStep::Retry { after_ms: 2000, attempt: 3 });
    assert_eq!(wifi_step(3, false), WifiStep::GiveUp);
    assert_eq!(wifi_step(3, true), WifiStep::Joined);
}

#[test]
fn attempts_are_counted() {
    let mut attempt = WIFI_FIRST_ATTEMPT;
    let mut made = 1;
    while let WifiStep::Retry { attempt: next, .. } = wifi_step(attempt, false) {
        attempt = next;
        made += 1;
    }
    assert_eq!(made, 3);
    assert_eq!(wifi_step(u32::MAX, false), WifiStep::GiveUp);
}

#[test]
fn button_fires_once_per_press() {
    let mut button = ToggleButton::new(true);
    let mut fired = Vec::new();
    for raw in [true, false, false, false, false, false, true, true, false, false, false, false] {
        fired.push(button.sample(raw, 3));
    }
    let at: Vec<usize> = (0..fired.len()).filter(|&i| fired[i]).collect();
    assert_eq!(at, [4, 11]);
}

#[test]
fn bouncing_contacts_do_not_fire() {
    let mut button = ToggleButton::new(true);
    for i in 0..100 {
        assert!(!button.sample(i % 3 != 0, 3));
    }
}

#[test]
fn button_held_at_boot_fires_after_debounce() {
    let mut button = ToggleButton::new(false);
    assert!(!button.sample(false, 2));
    assert!(button.sample(false, 2));
    assert!(!button.sample(false, 2));
}

#[test]
fn button_without_debounce_fires_at_once() {
    let mut button = ToggleButton::new(true);
    assert!(button.sample(false, 0));
    assert!(!button.sample(false, 0));
}

#[test]
fn toggle_opens_then_closes() {
    let mut door = door();
    toggle(&mut door);
    tick(&mut door, 500);
    assert_eq!(*door.state(), DoorState::Opening);
    toggle(&mut door);
    tick(&mut door, 500);
    assert_eq!(*door.state(), DoorState::Closing);
    toggle(&mut door);
    tick(&mut door, 500);
    assert_eq!(*door.state(), DoorState::Opening);
}

#[test]
fn state_is_published_every_period() {
    let mut telemetry = Telemetry::new();
    let due: Vec<u32> = (1..=12).filter(|_| telemetry.due(4)).collect();
    assert_eq!(due, [4, 8, 12]);
}

#[test]
fn new_opening_is_noted_once() {
    let mut config = Config::with_secrets(&Secrets {
        wifi_ssid: Some("n"),
        wifi_password: None,
        mqtt_broker: None,
        mqtt_client_id: None,
        mqtt_username: None,
        mqtt_password: None,
    });
    let door = door();
    let writes = note_opening(&mut config, &door).unwrap();
    assert_eq!(config.opening_counts, 1000);
    assert_eq!(config.wifi_ssid, "n");
    let keys: Vec<&str> = writes.iter().map(|e| e.key).collect();
    assert_eq!(keys, Config::erase());
    assert!(matches!(writes[6].value, NvsValue::Int(1000)));
    assert!(note_opening(&mut config, &door).is_none());
}

#[test]
fn commands_reach_the_door() {
    let mut out = Vec::new();
    let mut d = door();
    assert!(matches!(dispatch(MqttCommand::Open, &mut d, &mut out), Ok(FollowUp::Nothing)));
    tick(&mut d, 500);
    assert_eq!(*d.state(), DoorState::Opening);
    assert!(matches!(dispatch(MqttCommand::Close, &mut d, &mut out), Ok(FollowUp::Nothing)));
    tick(&mut d, 500);
    assert_eq!(*d.state(), DoorState::Closing);
    assert!(matches!(dispatch(MqttCommand::Position(80), &mut d, &mut out), Ok(FollowUp::Nothing)));
    tick(&mut d, 500);
    assert_eq!(*d.state(), DoorState::Opening);
    assert!(out.is_empty());
    assert!(matches!(dispatch(MqttCommand::Stop, &mut d, &mut out), Ok(FollowUp::Nothing)));
    assert_eq!(*d.state(), DoorState::Stopping);
    assert!(!out.is_empty());
    assert!(matches!(dispatch(MqttCommand::Home, &mut d, &mut out), Ok(FollowUp::Nothing)));
    assert_eq!(*d.state(), DoorState::Homing { stall_count: 0, timeout_ticks: 0 });
}

#[test]
fn second_calibration_is_refused() {
    let mut out = Vec::new();
    let mut d = door();
    assert!(dispatch(MqttCommand::Calibrate, &mut d, &mut out).is_ok());
    assert_eq!(*d.state(), DoorState::Calibrating);
    let before = out.clone();
    let refused = dispatch(MqttCommand::Calibrate, &mut d, &mut out);
    assert!(matches!(refused, Err(DoorError::AlreadyCalibrating)));
    assert_eq!(out, before);
    assert_eq!(DoorError::AlreadyCalibrating.message(), "Door is already calibrating");
}

#[test]
fn follow_ups_are_handed_back() {
    let mut out = Vec::new();
    let mut d = door();
    assert!(matches!(dispatch(MqttCommand::Connected, &mut d, &mut out), Ok(FollowUp::Announce)));
    match dispatch(MqttCommand::ConfigUpdate("{}".into()), &mut d, &mut out) {
        Ok(FollowUp::Reconfigure(json)) => assert_eq!(json, "{}"),
        other => panic!("{other:?}"),
    }
    assert!(out.is_empty());
    assert_eq!(*d.state(), DoorState::Idle);
}
