use open_sesame::action::Action;
use open_sesame::config::Tuning;
use open_sesame::door_controller::{DoorController, DoorState, Sample};
use open_sesame::motor::{MotorDriver, MotorMode};

const MS: u64 = 1_000_000;

fn tuning() -> Tuning {
    Tuning {
        invert_direction: false,
        close_homing: false,
        dead_zone: 1,
        closed_threshold: 10,
        ramp_down_counts: 100,
        calibrate_power: 80,
        stall_ticks: 5,
        stall_grace_ticks: 3,
        settle_ticks: 4,
        assist_lockout_ticks: 6,
        calibration_stall_ticks: 3,
        calibration_pause_ticks: 2,
        calibration_timeout_ticks: 20,
        idle_timeout_ms: 1000,
        loop_period_ms: 10,
    }
}

fn door_with(tuning: Tuning, opening: i32) -> DoorController {
    let mut out = Vec::new();
    let motor = MotorDriver::new(MotorMode::PhEn, 40, &mut out);
    let mut door = DoorController::new(motor, tuning, 0);
    door.set_opening(opening);
    door
}

fn door() -> DoorController {
    door_with(tuning(), 1000)
}

fn still(pos: i32) -> Sample {
    Sample {
        pos,
        recheck: pos,
        speed: 0,
        fast_open: false,
        fast_close: false,
        drive_power: 120,
        now: 0,
    }
}

fn moving(pos: i32) -> Sample {
    Sample { speed: 5, ..still(pos) }
}

fn tick(door: &mut DoorController, sample: Sample) -> Vec<Action> {
    let mut out = Vec::new();
    assert!(door.can_tick(sample.pos));
    door.tick(&sample, &mut out);
    out
}

fn halted() -> Vec<Action> {
    vec![
        Action::SetIn2(false),
        Action::SetDuty(0),
        Action::SetDuty(0),
        Action::SetIn2(false),
        Action::SetNslp(false),
    ]
}

#[test]
fn states_have_names() {
    let states = [
        (DoorState::Idle, "idle"),
        (DoorState::Stopping, "stopping"),
        (DoorState::Opening, "opening"),
        (DoorState::Closing, "closing"),
        (DoorState::Open, "open"),
        (DoorState::Closed, "closed"),
        (DoorState::Homing { stall_count: 1, timeout_ticks: 2 }, "homing"),
        (DoorState::Calibrating, "calibrating"),
    ];
    for (state, name) in states {
        assert_eq!(state.as_str(), name);
    }
}

#[test]
fn new_door_is_idle() {
    let door = door_with(tuning(), 0);
    assert_eq!(*door.state(), DoorState::Idle);
    assert_eq!(door.opening(), 0);
    assert_eq!(door.power(), 0);
    assert_eq!(door.loop_period(), 10);
    assert_eq!(door.travel(17), 17);
    assert_eq!(door.ramp(0), None);
}

#[test]
fn door_without_opening_does_not_move() {
    let mut door = door_with(tuning(), 0);
    door.drive_open();
    let actions = tick(&mut door, moving(0));
    assert_eq!(*door.state(), DoorState::Idle);
    assert_eq!(
        actions,
        vec![Action::SetDuty(0), Action::SetIn2(false), Action::SetNslp(false)]
    );
    assert_eq!(door.ramp(0), None);
}

#[test]
fn open_command_drives_to_the_endstop() {
    let mut door = door();
    door.drive_open();
    let actions = tick(&mut door, still(500));
    assert_eq!(*door.state(), DoorState::Opening);
    assert_eq!(
        actions,
        vec![
            Action::SetNslp(true),
            Action::WaitMs(1),
            Action::SetIn2(true),
            Action::SetDuty(120),
        ]
    );
    assert_eq!(door.power(), 120);
    let actions = tick(&mut door, moving(1000));
    assert_eq!(actions, halted());
    assert_eq!(*door.state(), DoorState::Open);
    assert_eq!(door.power(), 0);
    assert_eq!(door.ramp(1000), None);
}

#[test]
fn close_command_drives_to_the_endstop() {
    let mut door = door();
    door.drive_close();
    tick(&mut door, moving(500));
    assert_eq!(*door.state(), DoorState::Closing);
    assert_eq!(door.power(), -120);
    tick(&mut door, moving(11));
    assert_eq!(*door.state(), DoorState::Closing);
    let actions = tick(&mut door, moving(10));
    assert_eq!(actions, halted());
    assert_eq!(*door.state(), DoorState::Closed);
}

#[test]
fn closing_may_end_in_homing() {
    let mut door = door_with(Tuning { close_homing: true, ..tuning() }, 1000);
    door.drive_close();
    tick(&mut door, moving(500));
    tick(&mut door, moving(5));
    assert_eq!(*door.state(), DoorState::Homing { stall_count: 0, timeout_ticks: 0 });
    assert_eq!(door.power(), -80);
    assert_eq!(door.ramp(5), None);
}

#[test]
fn door_may_leave_an_endstop() {
    let mut door = door();
    door.drive_close();
    tick(&mut door, moving(1005));
    assert_eq!(*door.state(), DoorState::Closing);
    door.drive_open();
    tick(&mut door, moving(-3));
    assert_eq!(*door.state(), DoorState::Opening);
}

#[test]
fn positions_are_clamped() {
    let mut door = door();
    door.set_position(250);
    tick(&mut door, moving(1000));
    assert_eq!(*door.state(), DoorState::Open);
    door.set_position(-3);
    tick(&mut door, moving(0));
    assert_eq!(*door.state(), DoorState::Closed);
}

#[test]
fn partial_positions_are_approached_from_both_sides() {
    let mut door = door();
    door.set_position(50);
    tick(&mut door, moving(499));
    assert_eq!(*door.state(), DoorState::Opening);
    tick(&mut door, moving(500));
    assert_eq!(*door.state(), DoorState::Closing);
    tick(&mut door, moving(501));
    assert_eq!(*door.state(), DoorState::Closing);
}

#[test]
fn inverted_door_is_a_mirror_image() {
    let mut door = door_with(Tuning { invert_direction: true, ..tuning() }, -1000);
    door.drive_open();
    tick(&mut door, moving(-500));
    assert_eq!(*door.state(), DoorState::Opening);
    assert_eq!(door.power(), -120);
    door.drive_close();
    tick(&mut door, moving(-500));
    assert_eq!(*door.state(), DoorState::Closing);
    assert_eq!(door.power(), 120);
    tick(&mut door, moving(-10));
    assert_eq!(*door.state(), DoorState::Closed);
    door.drive_open();
    tick(&mut door, moving(-1000));
    assert_eq!(*door.state(), DoorState::Open);
}

#[test]
fn drive_power_is_at_least_one() {
    let mut door = door();
    door.drive_open();
    tick(&mut door, Sample { drive_power: 0, ..moving(500) });
    assert_eq!(door.power(), 40);
    tick(&mut door, Sample { drive_power: -50, ..moving(500) });
    assert_eq!(door.power(), 40);
}

#[test]
fn ramp_is_the_share_of_the_distance() {
    let mut door = door();
    door.drive_open();
    assert_eq!(door.ramp(0), Some((1, 1)));
    assert_eq!(door.ramp(900), Some((1, 1)));
    assert_eq!(door.ramp(901), Some((99, 100)));
    assert_eq!(door.ramp(1000), Some((0, 100)));
    assert_eq!(door.ramp(1030), Some((30, 100)));
    assert_eq!(door.ramp(i32::MIN), Some((1, 1)));
}

#[test]
fn obstacle_stops_the_door() {
    let mut door = door();
    door.drive_open();
    for n in 1..=7 {
        tick(&mut door, still(500));
        assert_eq!(*door.state(), DoorState::Opening, "{n}");
    }
    let actions = tick(&mut door, still(500));
    assert_eq!(*door.state(), DoorState::Stopping);
    assert_eq!(actions, halted());
    assert_eq!(door.ramp(500), None);
}

#[test]
fn motion_clears_the_stall_count() {
    let mut door = door();
    door.drive_open();
    for _ in 0..7 {
        tick(&mut door, still(500));
    }
    tick(&mut door, moving(500));
    for _ in 0..4 {
        tick(&mut door, still(500));
        assert_eq!(*door.state(), DoorState::Opening);
    }
    tick(&mut door, still(500));
    assert_eq!(*door.state(), DoorState::Stopping);
}

#[test]
fn repeating_a_target_keeps_the_stall_count() {
    let mut door = door();
    door.drive_open();
    for _ in 0..7 {
        tick(&mut door, still(500));
        door.set_position(100);
        door.set_position(170);
    }
    tick(&mut door, still(500));
    assert_eq!(*door.state(), DoorState::Stopping);
}

#[test]
fn new_target_restarts_the_grace_period() {
    let mut door = door();
    door.drive_open();
    for _ in 0..7 {
        tick(&mut door, still(500));
    }
    door.drive_close();
    for _ in 0..7 {
        tick(&mut door, still(500));
        assert_eq!(*door.state(), DoorState::Closing);
    }
    tick(&mut door, still(500));
    assert_eq!(*door.state(), DoorState::Stopping);
}

#[test]
fn recoil_does_not_drive_the_door() {
    let mut door = door_with(Tuning { settle_ticks: 1, ..tuning() }, 1000);
    door.drive_open();
    for _ in 0..8 {
        tick(&mut door, still(500));
    }
    assert_eq!(*door.state(), DoorState::Stopping);
    tick(&mut door, still(500));
    assert_eq!(*door.state(), DoorState::Idle);
    for _ in 0..4 {
        tick(&mut door, Sample { fast_close: true, ..moving(490) });
        assert_eq!(*door.state(), DoorState::Idle);
        assert_eq!(door.ramp(490), None);
    }
    tick(&mut door, Sample { fast_close: true, ..moving(490) });
    assert_eq!(*door.state(), DoorState::Closing);
}

#[test]
fn stop_waits_for_the_door_to_settle() {
    let mut door = door();
    door.drive_open();
    tick(&mut door, moving(500));
    let mut out = Vec::new();
    door.stop(&mut out);
    assert_eq!(out, halted());
    assert_eq!(*door.state(), DoorState::Stopping);
    assert_eq!(tick(&mut door, moving(510)), halted());
    for _ in 0..3 {
        assert!(tick(&mut door, still(510)).is_empty());
        assert_eq!(*door.state(), DoorState::Stopping);
    }
    tick(&mut door, moving(510));
    for _ in 0..3 {
        tick(&mut door, still(510));
        assert_eq!(*door.state(), DoorState::Stopping);
    }
    let actions = tick(&mut door, still(510));
    assert_eq!(*door.state(), DoorState::Idle);
    assert_eq!(
        actions,
        vec![Action::SetDuty(0), Action::SetIn2(false), Action::SetNslp(false)]
    );
}

#[test]
fn settled_door_knows_where_it_is() {
    for (pos, state) in [
        (1000, DoorState::Open),
        (1200, DoorState::Open),
        (999, DoorState::Idle),
        (11, DoorState::Idle),
        (10, DoorState::Closed),
        (-40, DoorState::Closed),
    ] {
        let mut door = door();
        door.stop(&mut Vec::new());
        for _ in 0..4 {
            tick(&mut door, still(pos));
        }
        assert_eq!(*door.state(), state, "{pos}");
    }
}

#[test]
fn push_is_assisted() {
    let mut door = door();
    let actions = tick(&mut door, Sample { fast_open: true, ..moving(300) });
    assert!(actions.is_empty());
    assert_eq!(*door.state(), DoorState::Opening);
    assert_eq!(door.ramp(300), Some((1, 1)));
    tick(&mut door, moving(310));
    assert_eq!(door.power(), 120);
}

#[test]
fn pull_is_assisted() {
    let mut door = door();
    tick(&mut door, Sample { fast_close: true, ..moving(300) });
    assert_eq!(*door.state(), DoorState::Closing);
    tick(&mut door, moving(290));
    assert_eq!(door.power(), -120);
}

#[test]
fn pushes_against_an_endstop_are_ignored() {
    let mut door = door();
    tick(&mut door, Sample { fast_open: true, ..moving(1000) });
    assert_eq!(*door.state(), DoorState::Idle);
    tick(&mut door, Sample { fast_close: true, ..moving(5) });
    assert_eq!(*door.state(), DoorState::Idle);
    assert_eq!(door.ramp(5), None);
}

#[test]
fn slow_motion_is_not_a_push() {
    let mut door = door();
    tick(&mut door, moving(300));
    assert_eq!(*door.state(), DoorState::Idle);
    assert_eq!(door.ramp(300), None);
}

#[test]
fn target_overrides_pushes() {
    let mut door = door();
    door.drive_open();
    tick(&mut door, Sample { fast_close: true, ..moving(300) });
    assert_eq!(*door.state(), DoorState::Opening);
    assert_eq!(door.power(), 120);
}

#[test]
fn idle_door_reports_where_it_stands() {
    let mut door = door();
    tick(&mut door, Sample { now: 5 * MS, ..moving(1000) });
    assert_eq!(*door.state(), DoorState::Idle);
    tick(&mut door, Sample { now: 1005 * MS, ..still(1000) });
    assert_eq!(*door.state(), DoorState::Idle);
    let actions = tick(&mut door, Sample { now: 1005 * MS + 1, ..still(1000) });
    assert_eq!(*door.state(), DoorState::Open);
    assert!(actions.is_empty());
}

#[test]
fn time_that_goes_back_is_no_time() {
    let mut door = door();
    tick(&mut door, Sample { now: 9000 * MS, ..moving(1000) });
    tick(&mut door, Sample { now: 10 * MS, ..still(1000) });
    assert_eq!(*door.state(), DoorState::Idle);
}

#[test]
fn homing_finds_the_stop() {
    let mut door = door();
    let mut out = Vec::new();
    door.start_homing(&mut out);
    assert_eq!(
        out,
        vec![Action::SetNslp(true), Action::WaitMs(1), Action::SetIn2(false), Action::SetDuty(80)]
    );
    tick(&mut door, moving(-50));
    assert_eq!(*door.state(), DoorState::Homing { stall_count: 0, timeout_ticks: 1 });
    tick(&mut door, still(-51));
    assert_eq!(*door.state(), DoorState::Homing { stall_count: 1, timeout_ticks: 2 });
    tick(&mut door, still(-60));
    assert_eq!(*door.state(), DoorState::Homing { stall_count: 0, timeout_ticks: 3 });
    for _ in 0..4 {
        assert!(tick(&mut door, still(-60)).is_empty());
    }
    let actions = tick(&mut door, still(-60));
    assert_eq!(*door.state(), DoorState::Stopping);
    let mut expected = halted();
    expected.push(Action::ResetEncoder);
    expected.extend(halted());
    assert_eq!(actions, expected);
    assert_eq!(door.travel(0), 60);
}

#[test]
fn homing_gives_up() {
    let mut door = door();
    door.start_homing(&mut Vec::new());
    let mut last = Vec::new();
    for n in 1..=20 {
        assert!(matches!(door.state(), DoorState::Homing { .. }));
        last = tick(&mut door, moving(-10 * n));
    }
    assert_eq!(*door.state(), DoorState::Idle);
    let mut expected = halted();
    expected.push(Action::ResetEncoder);
    assert_eq!(last, expected);
}

#[test]
fn calibration_measures_the_opening() {
    let mut door = door_with(tuning(), 0);
    let mut out = Vec::new();
    door.start_calibrate(&mut out).unwrap();
    assert_eq!(*door.state(), DoorState::Calibrating);
    assert_eq!(door.power(), -80);
    tick(&mut door, moving(-50));
    tick(&mut door, still(-50));
    tick(&mut door, still(-50));
    let actions = tick(&mut door, still(-50));
    assert_eq!(
        actions,
        vec![Action::SetIn2(false), Action::SetDuty(0), Action::ResetEncoder]
    );
    for _ in 0..2 {
        assert!(tick(&mut door, still(0)).is_empty());
    }
    let actions = tick(&mut door, still(0));
    assert_eq!(actions, vec![Action::SetIn2(true), Action::SetDuty(80)]);
    tick(&mut door, moving(700));
    tick(&mut door, moving(1400));
    tick(&mut door, still(1400));
    tick(&mut door, still(1400));
    assert_eq!(*door.state(), DoorState::Calibrating);
    let actions = tick(&mut door, Sample { recheck: 1401, ..still(1400) });
    assert_eq!(actions, halted());
    assert_eq!(*door.state(), DoorState::Open);
    assert_eq!(door.opening(), 1401);
}

#[test]
fn calibration_gives_up_on_either_leg() {
    let mut door = door();
    door.start_calibrate(&mut Vec::new()).unwrap();
    for n in 1..=20 {
        assert_eq!(*door.state(), DoorState::Calibrating);
        tick(&mut door, moving(-10 * n));
    }
    assert_eq!(*door.state(), DoorState::Idle);
    assert_eq!(door.power(), 0);

    door.start_calibrate(&mut Vec::new()).unwrap();
    for _ in 0..3 {
        tick(&mut door, still(-200));
    }
    for _ in 0..3 {
        tick(&mut door, still(0));
    }
    for n in 1..=20 {
        assert_eq!(*door.state(), DoorState::Calibrating);
        tick(&mut door, moving(10 * n));
    }
    assert_eq!(*door.state(), DoorState::Idle);
    assert_eq!(door.opening(), 1000);
}

#[test]
fn stop_ends_a_calibration() {
    let tuning = Tuning { calibration_stall_ticks: 1, calibration_pause_ticks: 0, ..tuning() };
    let mut door = door_with(tuning, 1000);
    door.start_calibrate(&mut Vec::new()).unwrap();
    door.stop(&mut Vec::new());
    assert_eq!(*door.state(), DoorState::Stopping);
    assert_eq!(tick(&mut door, moving(500)), halted());
    assert_eq!(*door.state(), DoorState::Stopping);
    for _ in 0..3 {
        assert!(tick(&mut door, still(500)).is_empty());
        assert_eq!(*door.state(), DoorState::Stopping);
    }
    let actions = tick(&mut door, still(500));
    assert_eq!(*door.state(), DoorState::Idle);
    assert!(!actions.contains(&Action::ResetEncoder));
    assert_eq!(door.power(), 0);
    assert_eq!(door.opening(), 1000);
    assert!(door.start_calibrate(&mut Vec::new()).is_ok());
}

#[test]
fn homing_takes_the_place_of_a_calibration() {
    let mut door = door();
    door.start_calibrate(&mut Vec::new()).unwrap();
    door.start_homing(&mut Vec::new());
    tick(&mut door, moving(500));
    assert_eq!(*door.state(), DoorState::Homing { stall_count: 0, timeout_ticks: 1 });
    for _ in 0..5 {
        tick(&mut door, still(500));
    }
    assert_eq!(*door.state(), DoorState::Stopping);
    assert_eq!(door.opening(), 1000);
}

#[test]
fn positions_are_reported_in_percent() {
    let mut door = door();
    for (pos, pct) in [(0, 0), (-5, 0), (9, 0), (10, 1), (555, 55), (1000, 100), (1400, 100)] {
        assert_eq!(door.position_pct(pos), pct, "{pos}");
    }
    assert_eq!(door.position_pct(i32::MAX), 100);
    assert_eq!(door.position_pct(i32::MIN), 0);
    door.set_opening(-1000);
    assert_eq!(door.position_pct(-555), 55);
    assert_eq!(door.position_pct(555), 0);
    door.set_opening(0);
    assert_eq!(door.position_pct(555), 0);
}

#[test]
fn reached_target_is_reported() {
    for opening in [100, 137, 1000, -733] {
        let mut door = door_with(tuning(), opening);
        for pct in 0..=100 {
            door.set_position(pct);
            let counts = pct * opening / 100;
            let reported = door.position_pct(counts);
            assert!(reported == pct || reported == pct - 1, "{opening} {pct} {reported}");
        }
    }
}

#[test]
fn travel_spans_the_whole_range() {
    let mut door = door();
    tick(&mut door, moving(i32::MIN));
    assert_eq!(door.travel(i32::MAX), u32::MAX as i64);
}
