//! Decisions of the boot sequence and of the main loop.

use vstd::prelude::*;

use crate::action::Action;
use crate::config::{contents, in_key_order, readable, written, Config, ConfigView, NvsEntry, NvsStore};
use crate::door_controller::{DoorController, DoorError};
use crate::door_laws::plainly::{coasting, halt_writes, run_writes, running, toward_open};
use crate::door_laws::ticks::law_commands;
use crate::door_model::{CalibrationStep, DoorState, DoorView};
use crate::mqtt_client::{json_str_field, str_field, MqttCommand, MqttCommandView};

verus! {

// ── Boot ─────────────────────────────────────────────────────────────────────

/// How long the factory-reset button has to be held.
pub const RESET_HOLD_S: u64 = 5;

/// What to do about the factory-reset button.
#[derive(Clone, Copy, Debug, PartialEq, Eq, Structural)]
pub enum ResetStep {
    /// Boot on.
    Skip,
    /// Look again after this many seconds.
    Confirm { after_s: u64 },
    /// Erase the configuration and restart.
    Erase,
}

/// Factory reset takes a button that is held at boot and still held at the
/// second look; `second_look` is None before there was one.
pub fn factory_reset(held: bool, second_look: Option<bool>) -> (step: ResetStep)
    ensures
        step == (if !held {
            ResetStep::Skip
        } else {
            match second_look {
                None => ResetStep::Confirm { after_s: RESET_HOLD_S },
                Some(true) => ResetStep::Erase,
                Some(false) => ResetStep::Skip,
            }
        }),
{
    if !held {
        return ResetStep::Skip;
    }
    match second_look {
        None => ResetStep::Confirm { after_s: RESET_HOLD_S },
        Some(true) => ResetStep::Erase,
        Some(false) => ResetStep::Skip,
    }
}

/// How often joining the network is tried.
pub const WIFI_ATTEMPTS: u32 = 3;

/// The number of the first attempt.
pub const WIFI_FIRST_ATTEMPT: u32 = 1;

pub const WIFI_RETRY_MS: u64 = 2000;

/// What to do after trying to join the network.
#[derive(Clone, Copy, Debug, PartialEq, Eq, Structural)]
pub enum WifiStep {
    Joined,
    /// Wait, then make attempt number `attempt`.
    Retry { after_ms: u64, attempt: u32 },
    GiveUp,
}

/// The step after attempt number `attempt`.
pub open spec fn after_attempt(attempt: u32, connected: bool) -> WifiStep {
    if connected {
        WifiStep::Joined
    } else if attempt >= WIFI_ATTEMPTS {
        WifiStep::GiveUp
    } else {
        WifiStep::Retry { after_ms: WIFI_RETRY_MS, attempt: (attempt + 1) as u32 }
    }
}

/// The step after attempt number `attempt`, counted from [`WIFI_FIRST_ATTEMPT`].
pub fn wifi_step(attempt: u32, connected: bool) -> (step: WifiStep)
    ensures
        step == after_attempt(attempt, connected),
{
    if connected {
        WifiStep::Joined
    } else if attempt >= WIFI_ATTEMPTS {
        WifiStep::GiveUp
    } else {
        WifiStep::Retry { after_ms: WIFI_RETRY_MS, attempt: attempt + 1 }
    }
}

// ── Toggle button ────────────────────────────────────────────────────────────

/// State of a [`ToggleButton`].
pub struct ButtonView {
    /// Level at the last sample; high is released.
    pub last_raw: bool,
    /// Samples for which the level stayed the same, up to the debounce limit.
    pub debounce: u32,
    pub pressed: bool,
}

impl ButtonView {
    pub open spec fn after(self, raw: bool, debounce_ticks: u32) -> ButtonView {
        let debounce = if raw != self.last_raw {
            0
        } else if self.debounce < debounce_ticks {
            (self.debounce + 1) as u32
        } else {
            self.debounce
        };
        ButtonView { last_raw: raw, debounce, pressed: !raw && debounce >= debounce_ticks }
    }

    /// Does this sample begin a press?
    pub open spec fn fires(self, raw: bool, debounce_ticks: u32) -> bool {
        self.after(raw, debounce_ticks).pressed && !self.pressed
    }

    /// A row of samples.
    pub open spec fn after_all(self, raws: Seq<bool>, debounce_ticks: u32) -> ButtonView
        decreases raws.len(),
    {
        if raws.len() == 0 {
            self
        } else {
            self.after_all(raws.drop_last(), debounce_ticks).after(raws.last(), debounce_ticks)
        }
    }
}

/// Debounced active-low push button.
pub struct ToggleButton {
    last_raw: bool,
    debounce: u32,
    pressed: bool,
}

impl View for ToggleButton {
    type V = ButtonView;

    closed spec fn view(&self) -> ButtonView {
        ButtonView { last_raw: self.last_raw, debounce: self.debounce, pressed: self.pressed }
    }
}

impl ToggleButton {
    /// A button that is at the level `raw`, and not pressed yet.
    pub fn new(raw: bool) -> (button: Self)
        ensures
            button@ == (ButtonView { last_raw: raw, debounce: 0, pressed: false }),
    {
        ToggleButton { last_raw: raw, debounce: 0, pressed: false }
    }

    /// Take a sample; returns true when it begins a press.
    pub fn sample(&mut self, raw: bool, debounce_ticks: u32) -> (fired: bool)
        ensures
            final(self)@ == old(self)@.after(raw, debounce_ticks),
            fired == old(self)@.fires(raw, debounce_ticks),
    {
        if raw == self.last_raw {
            if self.debounce < debounce_ticks {
                self.debounce = self.debounce + 1;
            }
        } else {
            self.last_raw = raw;
            self.debounce = 0;
        }
        // Stable low is pressed; only the falling edge counts.
        let pressed: bool = self.debounce >= debounce_ticks && !raw;
        let fired: bool = pressed && !self.pressed;
        self.pressed = pressed;
        fired
    }
}

/// The door once the toggle button is pressed: close if open or opening, else open.
pub open spec fn toggled(door: DoorView) -> DoorView {
    if door.state is Open || door.state is Opening {
        door.set_position(0)
    } else {
        door.set_position(100)
    }
}

pub fn toggle(door: &mut DoorController)
    requires
        old(door)@.wf(),
    ensures
        final(door)@ == toggled(old(door)@),
        final(door)@.wf(),
{
    let open: bool = match door.state() {
        DoorState::Open => true,
        DoorState::Opening => true,
        _ => false,
    };
    if open {
        door.drive_close();
    } else {
        door.drive_open();
    }
}

// ── Telemetry ────────────────────────────────────────────────────────────────

/// Counts ticks, wrapping around, to publish the state every so often.
pub struct Telemetry {
    tick_count: u32,
}

impl View for Telemetry {
    type V = u32;

    closed spec fn view(&self) -> u32 {
        self.tick_count
    }
}

/// The tick count after `count`.
pub open spec fn next_count(count: u32) -> u32 {
    if count == u32::MAX {
        0
    } else {
        (count + 1) as u32
    }
}

impl Telemetry {
    pub fn new() -> (telemetry: Self)
        ensures
            telemetry@ == 0,
    {
        Telemetry { tick_count: 0 }
    }

    /// Count a tick; returns true on every `telemetry_ticks`th one.
    pub fn due(&mut self, telemetry_ticks: u32) -> (due: bool)
        requires
            telemetry_ticks != 0,
        ensures
            final(self)@ == next_count(old(self)@),
            due == (final(self)@ % telemetry_ticks == 0),
    {
        self.tick_count = self.tick_count.wrapping_add(1);
        self.tick_count % telemetry_ticks == 0
    }
}

// ── Configuration ────────────────────────────────────────────────────────────

/// Take over a newly measured opening; returns the writes that persist it, or
/// None if it did not change.
pub fn note_opening(config: &mut Config, door: &DoorController) -> (writes: Option<Vec<NvsEntry>>)
    ensures
        final(config)@ == (ConfigView { opening_counts: door@.opening_counts, ..old(config)@ }),
        writes is Some <==> door@.opening_counts != old(config)@.opening_counts,
        writes matches Some(w) ==> forall|store: NvsStore| #[trigger]
            written(store, w@) == final(config)@.saved(store),
        writes matches Some(w) ==> in_key_order(w@),
{
    if door.opening() != config.opening_counts {
        config.opening_counts = door.opening();
        Some(config.save())
    } else {
        None
    }
}

/// `current`, unless the payload holds a string under `key`.
pub open spec fn updated(json: Seq<char>, key: Seq<char>, current: Seq<char>) -> Seq<char> {
    match str_field(json, key) {
        Some(value) => value,
        None => current,
    }
}

/// `config` with the fields that the payload supplies.
pub open spec fn updated_config(json: Seq<char>, config: ConfigView) -> ConfigView {
    ConfigView {
        wifi_ssid: updated(json, "ssid"@, config.wifi_ssid),
        wifi_password: updated(json, "wifi_pass"@, config.wifi_password),
        mqtt_broker: updated(json, "mqtt_broker"@, config.mqtt_broker),
        mqtt_client_id: updated(json, "mqtt_id"@, config.mqtt_client_id),
        mqtt_username: updated(json, "mqtt_user"@, config.mqtt_username),
        mqtt_password: updated(json, "mqtt_pass"@, config.mqtt_password),
        opening_counts: config.opening_counts,
    }
}

fn update(json: &str, key: &str, current: String) -> (value: String)
    ensures
        value@ == updated(json@, key@, current@),
{
    match json_str_field(json, key) {
        Some(value) => value.to_owned(),
        None => current,
    }
}

/// Parse a partial JSON config payload and update only the supplied keys;
/// returns the writes that persist the result.
///
/// Example payload:
/// ```json
/// {"mqtt_broker":"mqtt://192.168.1.200:1883","mqtt_id":"door-v2"}
/// ```
pub fn apply_remote_config(json: &str, entries: &Vec<NvsEntry>, defaults: &Config) -> (writes: Vec<
    NvsEntry,
>)
    ensures
        forall|store: NvsStore| #[trigger]
            written(store, writes@) == updated_config(
                json@,
                ConfigView::load(contents(entries@), defaults@),
            ).saved(store),
        in_key_order(writes@),
{
    let cfg: Config = Config::load(entries, defaults);
    let cfg: Config = Config {
        wifi_ssid: update(json, "ssid", cfg.wifi_ssid),
        wifi_password: update(json, "wifi_pass", cfg.wifi_password),
        mqtt_broker: update(json, "mqtt_broker", cfg.mqtt_broker),
        mqtt_client_id: update(json, "mqtt_id", cfg.mqtt_client_id),
        mqtt_username: update(json, "mqtt_user", cfg.mqtt_username),
        mqtt_password: update(json, "mqtt_pass", cfg.mqtt_password),
        opening_counts: cfg.opening_counts,
    };
    cfg.save()
}

// ── Commands ─────────────────────────────────────────────────────────────────

/// What is left to do after the door has followed a command.
#[derive(Debug)]
pub enum FollowUp {
    Nothing,
    /// Subscribe to the command topics and publish discovery.
    Announce,
    /// Apply this payload to the stored configuration, and restart.
    Reconfigure(String),
}

/// [`FollowUp`], with text as characters.
pub enum FollowUpView {
    Nothing,
    Announce,
    Reconfigure(Seq<char>),
}

impl View for FollowUp {
    type V = FollowUpView;

    open spec fn view(&self) -> FollowUpView {
        match self {
            FollowUp::Nothing => FollowUpView::Nothing,
            FollowUp::Announce => FollowUpView::Announce,
            FollowUp::Reconfigure(json) => FollowUpView::Reconfigure(json@),
        }
    }
}

/// The door once it has followed `cmd`.
pub open spec fn commanded(door: DoorView, cmd: MqttCommandView) -> DoorView {
    match cmd {
        MqttCommandView::Connected => door,
        MqttCommandView::ConfigUpdate(_) => door,
        MqttCommandView::Open => door.set_position(100),
        MqttCommandView::Close => door.set_position(0),
        MqttCommandView::Position(pos) => door.set_position(pos as int),
        MqttCommandView::Stop => door.stop().door,
        MqttCommandView::Calibrate => if door.state is Calibrating {
            door
        } else {
            door.start_calibrate().door
        },
        MqttCommandView::Home => door.start_homing().door,
    }
}

/// What `cmd` asks of the hardware.
pub open spec fn command_actions(door: DoorView, cmd: MqttCommandView) -> Seq<Action> {
    match cmd {
        MqttCommandView::Stop => door.stop().actions,
        MqttCommandView::Calibrate => if door.state is Calibrating {
            seq![]
        } else {
            door.start_calibrate().actions
        },
        MqttCommandView::Home => door.start_homing().actions,
        _ => seq![],
    }
}

/// What is left to do after `cmd`.
pub open spec fn follow_up(cmd: MqttCommandView) -> FollowUpView {
    match cmd {
        MqttCommandView::Connected => FollowUpView::Announce,
        MqttCommandView::ConfigUpdate(json) => FollowUpView::Reconfigure(json),
        _ => FollowUpView::Nothing,
    }
}

/// Have the door follow a command. Only calibrating a door that is calibrating
/// already is refused.
pub fn dispatch(cmd: MqttCommand, door: &mut DoorController, out: &mut Vec<Action>) -> (result:
    Result<FollowUp, DoorError>)
    requires
        old(door)@.wf(),
    ensures
        final(door)@ == commanded(old(door)@, cmd@),
        final(door)@.wf(),
        final(out)@ == old(out)@ + command_actions(old(door)@, cmd@),
        result is Err <==> cmd@ is Calibrate && old(door)@.state is Calibrating,
        result matches Err(e) ==> e == DoorError::AlreadyCalibrating,
        result matches Ok(f) ==> f@ == follow_up(cmd@),
        cmd matches MqttCommand::Position(pos) ==> final(door)@.target == Some(
            if pos < 0 {
                0i32
            } else if pos > 100 {
                100i32
            } else {
                pos
            },
        ),
        cmd is Open ==> final(door)@.target == Some(100i32),
        cmd is Close ==> final(door)@.target == Some(0i32),
{
    match cmd {
        MqttCommand::Connected => {
            return Ok(FollowUp::Announce);
        },
        MqttCommand::ConfigUpdate(json) => {
            return Ok(FollowUp::Reconfigure(json));
        },
        MqttCommand::Position(pos) => door.set_position(pos),
        MqttCommand::Open => door.drive_open(),
        MqttCommand::Close => door.drive_close(),
        MqttCommand::Stop => door.stop(out),
        MqttCommand::Calibrate => match door.start_calibrate(out) {
            Ok(()) => {},
            Err(e) => {
                return Err(e);
            },
        },
        MqttCommand::Home => door.start_homing(out),
    }
    Ok(FollowUp::Nothing)
}

// ── Laws ─────────────────────────────────────────────────────────────────────

/// The attempts that are made from number `attempt` on, if attempt `i` succeeds
/// where `outcomes(i)`.
pub open spec fn attempts_made(attempt: u32, outcomes: spec_fn(u32) -> bool) -> nat
    decreases WIFI_ATTEMPTS - attempt,
{
    match after_attempt(attempt, outcomes(attempt)) {
        WifiStep::Retry { attempt: next, .. } => 1 + attempts_made(next, outcomes),
        _ => 1,
    }
}

/// Joining the network is tried at most three times, and less often only if it
/// succeeds.
pub proof fn law_wifi_attempts_are_limited(outcomes: spec_fn(u32) -> bool)
    ensures
        1 <= attempts_made(WIFI_FIRST_ATTEMPT, outcomes) <= WIFI_ATTEMPTS,
        attempts_made(WIFI_FIRST_ATTEMPT, outcomes) < WIFI_ATTEMPTS ==> outcomes(
            attempts_made(WIFI_FIRST_ATTEMPT, outcomes) as u32,
        ),
{
    reveal_with_fuel(attempts_made, 3);
}

/// The last samples were all alike, as many as were counted.
pub open spec fn stable(raws: Seq<bool>, n: int, level: bool) -> bool {
    &&& 0 <= n <= raws.len()
    &&& forall|i: int| raws.len() - n <= i < raws.len() ==> raws[i] == level
}

/// A press is believed only after enough samples in a row that say so: bouncing
/// contacts do not toggle the door.
pub proof fn law_press_is_stable(button: ButtonView, raws: Seq<bool>, debounce_ticks: u32)
    requires
        button.debounce == 0,
        !button.pressed,
    ensures
        stable(
            raws,
            button.after_all(raws, debounce_ticks).debounce as int,
            button.after_all(raws, debounce_ticks).last_raw,
        ),
        button.after_all(raws, debounce_ticks).pressed ==> stable(
            raws,
            debounce_ticks as int,
            false,
        ),
    decreases raws.len(),
{
    if raws.len() > 0 {
        let front = raws.drop_last();
        let n = button.after_all(front, debounce_ticks).debounce as int;
        law_press_is_stable(button, front, debounce_ticks);
        assert forall|i: int| front.len() - n <= i < front.len() implies raws[i] == front[i] by {}
    }
}

/// A button that is held toggles the door once.
pub proof fn law_held_button_fires_once(
    button: ButtonView,
    raws: Seq<bool>,
    debounce_ticks: u32,
    raw: bool,
)
    requires
        button.pressed,
        !button.last_raw,
        button.debounce >= debounce_ticks,
        forall|i: int| 0 <= i < raws.len() ==> !raws[i],
    ensures
        button.after_all(raws, debounce_ticks).pressed,
        !button.after_all(raws, debounce_ticks).last_raw,
        button.after_all(raws, debounce_ticks).debounce >= debounce_ticks,
        !button.after_all(raws, debounce_ticks).fires(raw, debounce_ticks),
    decreases raws.len(),
{
    if raws.len() > 0 {
        let front = raws.drop_last();
        assert forall|i: int| 0 <= i < front.len() implies !front[i] by {
            assert(front[i] == raws[i]);
        }
        law_held_button_fires_once(button, front, debounce_ticks, raw);
    }
}

/// Pressing the toggle button never leaves the door without a target, and sends
/// it away from the endstop it is at or opening to.
pub proof fn law_toggle_sets_target(door: DoorView)
    ensures
        toggled(door).target == Some(0i32) || toggled(door).target == Some(100i32),
        toggled(door).target == Some(0i32) <==> door.state is Open || door.state is Opening,
{
}

/// The tick count `n` ticks after `count`.
pub open spec fn count_after(count: u32, n: int) -> u32
    decreases n,
{
    if n <= 0 {
        count
    } else {
        next_count(count_after(count, n - 1))
    }
}

proof fn lemma_count_after(count: u32, n: int)
    requires
        0 <= n,
        count + n <= u32::MAX,
    ensures
        count_after(count, n) == count + n,
    decreases n,
{
    if n > 0 {
        lemma_count_after(count, n - 1);
    }
}

/// The state is published once in every period, at its end, as long as the count
/// does not wrap around within it.
pub proof fn law_telemetry_period(count: u32, n: int, telemetry_ticks: u32)
    requires
        telemetry_ticks != 0,
        count % telemetry_ticks == 0,
        0 < n <= telemetry_ticks,
        count + telemetry_ticks <= u32::MAX,
    ensures
        count_after(count, n) % telemetry_ticks == 0 <==> n == telemetry_ticks,
{
    lemma_count_after(count, n);
    let k = telemetry_ticks as int;
    let c = count as int;
    assert((c + n) % k == 0 <==> n == k) by (nonlinear_arith)
        requires
            k > 0,
            c % k == 0,
            0 < n <= k,
    ;
}

/// A remote update keeps what it does not name, and what it names is in force
/// after the restart, unless it is empty or too long to read back; the measured
/// opening is kept in any case.
pub proof fn law_remote_update_survives_restart(
    json: Seq<char>,
    store: NvsStore,
    defaults: ConfigView,
)
    ensures
        ({
            let before = ConfigView::load(store, defaults);
            let after = ConfigView::load(updated_config(json, before).saved(store), defaults);
            let holds = |key: Seq<char>, old_value: Seq<char>, new_value: Seq<char>|
                match str_field(json, key) {
                    Some(value) => readable(value) ==> new_value == value,
                    None => new_value == old_value,
                };
            &&& holds("ssid"@, before.wifi_ssid, after.wifi_ssid)
            &&& holds("wifi_pass"@, before.wifi_password, after.wifi_password)
            &&& holds("mqtt_broker"@, before.mqtt_broker, after.mqtt_broker)
            &&& holds("mqtt_id"@, before.mqtt_client_id, after.mqtt_client_id)
            &&& holds("mqtt_user"@, before.mqtt_username, after.mqtt_username)
            &&& holds("mqtt_pass"@, before.mqtt_password, after.mqtt_password)
            &&& after.opening_counts == before.opening_counts
        }),
{
    let before = ConfigView::load(store, defaults);
    crate::config::law_load_after_save(updated_config(json, before), store, defaults);
}

// ── Boot, button and telemetry, one step at a time ───────────────────────────

/// A failed attempt to join is followed by the next one after two seconds, and the
/// third by none.
pub proof fn law_wifi_retry(attempt: u32)
    ensures
        after_attempt(attempt, true) == WifiStep::Joined,
        attempt < 3 ==> after_attempt(attempt, false) == (WifiStep::Retry {
            after_ms: 2000,
            attempt: (attempt + 1) as u32,
        }),
        attempt >= 3 ==> after_attempt(attempt, false) == WifiStep::GiveUp,
{
}

/// A sample at another level than the last one starts the debounce count anew; one
/// at the same level adds to it, up to the limit. The button is pressed while the
/// level is low and the count is at the limit, and fires when it comes to be.
pub proof fn law_button_sample(button: ButtonView, raw: bool, debounce_ticks: u32)
    ensures
        ({
            let after = button.after(raw, debounce_ticks);
            &&& after.last_raw == raw
            &&& raw != button.last_raw ==> after.debounce == 0
            &&& raw == button.last_raw && button.debounce < debounce_ticks ==> after.debounce
                == button.debounce + 1
            &&& raw == button.last_raw && button.debounce >= debounce_ticks ==> after.debounce
                == button.debounce
            &&& after.pressed <==> !raw && after.debounce >= debounce_ticks
            &&& button.fires(raw, debounce_ticks) <==> after.pressed && !button.pressed
        }),
{
}

/// A button that was released and is then held down fires at the sample that
/// completes the debounce count, and at no other.
pub proof fn law_held_button_fires(button: ButtonView, raws: Seq<bool>, debounce_ticks: u32)
    requires
        button.last_raw,
        !button.pressed,
        raws.len() > 0,
        forall|i: int| 0 <= i < raws.len() ==> !raws[i],
    ensures
        button.after_all(raws.drop_last(), debounce_ticks).fires(raws.last(), debounce_ticks)
            <==> raws.len() == debounce_ticks + 1,
        button.after_all(raws, debounce_ticks).pressed <==> raws.len() > debounce_ticks,
        !button.after_all(raws, debounce_ticks).last_raw,
        button.after_all(raws, debounce_ticks).debounce == (if raws.len() - 1 < debounce_ticks {
            raws.len() - 1
        } else {
            debounce_ticks as int
        }),
    decreases raws.len(),
{
    let front = raws.drop_last();
    assert(!raws[raws.len() - 1]);
    if front.len() > 0 {
        assert forall|i: int| 0 <= i < front.len() implies !front[i] by {
            assert(front[i] == raws[i]);
        }
        law_held_button_fires(button, front, debounce_ticks);
    } else {
        assert(front =~= seq![]);
        assert(button.after_all(front, debounce_ticks) == button);
    }
}

/// The toggle button sends a door that is open or opening to 0 percent, and any
/// other to 100; the rest of the door is as after any other command to go there.
pub proof fn law_toggle(door: DoorView)
    ensures
        ({
            let goal = if door.state is Open || door.state is Opening {
                0i32
            } else {
                100i32
            };
            toggled(door) == (if door.target == Some(goal) {
                door
            } else {
                DoorView {
                    target: Some(goal),
                    obstacle_stall_count: 0,
                    drive_ticks: 0,
                    ..door
                }
            })
        }),
{
}

/// Ticks are counted one by one, and from 0 again when the counter is full.
pub proof fn law_tick_count(count: u32)
    ensures
        count < u32::MAX ==> next_count(count) == count + 1,
        count == u32::MAX ==> next_count(count) == 0,
{
}

// ── Commands ─────────────────────────────────────────────────────────────────

/// Where a command sends the door: the target is the position that was asked for,
/// limited to 0..=100, for every position; 100 for open and 0 for close. A new
/// target starts stall detection anew, and nothing else changes.
pub proof fn law_commands_set_targets(door: DoorView, pos: i32)
    ensures
        ({
            let sent = |to: i32|
                if door.target == Some(to) {
                    door
                } else {
                    DoorView {
                        target: Some(to),
                        obstacle_stall_count: 0,
                        drive_ticks: 0,
                        ..door
                    }
                };
            &&& 0 <= pos <= 100 ==> commanded(door, MqttCommandView::Position(pos)) == sent(pos)
            &&& pos < 0 ==> commanded(door, MqttCommandView::Position(pos)) == sent(0)
            &&& pos > 100 ==> commanded(door, MqttCommandView::Position(pos)) == sent(100)
            &&& commanded(door, MqttCommandView::Open) == sent(100)
            &&& commanded(door, MqttCommandView::Close) == sent(0)
            &&& command_actions(door, MqttCommandView::Position(pos)) == Seq::<Action>::empty()
            &&& command_actions(door, MqttCommandView::Open) == Seq::<Action>::empty()
            &&& command_actions(door, MqttCommandView::Close) == Seq::<Action>::empty()
        }),
{
}

/// Stop, home and calibrate put the door into the state they are named after, with
/// the motor coasting or driving it closed, and with the writes for that; a door
/// that calibrates is not made to begin anew.
pub proof fn law_commands_change_state(door: DoorView)
    requires
        door.wf(),
    ensures
        ({
            let stopped = commanded(door, MqttCommandView::Stop);
            let homing = commanded(door, MqttCommandView::Home);
            let calibrating = commanded(door, MqttCommandView::Calibrate);
            let closing = 0 - toward_open(door, door.tuning.calibrate_power as int);
            &&& stopped == (DoorView {
                target: None,
                calibration: None,
                settle_count: 0,
                state: DoorState::Stopping,
                motor: coasting(door.motor),
                ..door
            })
            &&& command_actions(door, MqttCommandView::Stop) == halt_writes(door.motor.mode)
            &&& homing == (DoorView {
                target: None,
                calibration: None,
                state: DoorState::Homing { stall_count: 0, timeout_ticks: 0 },
                motor: running(door.motor, closing),
                ..door
            })
            &&& command_actions(door, MqttCommandView::Home) == run_writes(door.motor, closing)
            &&& !(door.state is Calibrating) ==> {
                &&& calibrating == (DoorView {
                    target: None,
                    calibration: Some(
                        CalibrationStep::DrivingClosed { stall_count: 0, timeout_ticks: 0 },
                    ),
                    state: DoorState::Calibrating,
                    motor: running(door.motor, closing),
                    ..door
                })
                &&& command_actions(door, MqttCommandView::Calibrate) == run_writes(
                    door.motor,
                    closing,
                )
            }
            &&& door.state is Calibrating ==> calibrating == door && command_actions(
                door,
                MqttCommandView::Calibrate,
            ) == Seq::<Action>::empty()
        }),
{
    law_commands(door);
}

/// A new connection and a new configuration leave the door alone and are handed
/// on; of the other commands nothing is left to do.
pub proof fn law_follow_ups(door: DoorView, json: Seq<char>, pos: i32)
    ensures
        commanded(door, MqttCommandView::Connected) == door,
        commanded(door, MqttCommandView::ConfigUpdate(json)) == door,
        command_actions(door, MqttCommandView::Connected) == Seq::<Action>::empty(),
        command_actions(door, MqttCommandView::ConfigUpdate(json)) == Seq::<Action>::empty(),
        follow_up(MqttCommandView::Connected) == FollowUpView::Announce,
        follow_up(MqttCommandView::ConfigUpdate(json)) == FollowUpView::Reconfigure(json),
        follow_up(MqttCommandView::Open) == FollowUpView::Nothing,
        follow_up(MqttCommandView::Close) == FollowUpView::Nothing,
        follow_up(MqttCommandView::Position(pos)) == FollowUpView::Nothing,
        follow_up(MqttCommandView::Stop) == FollowUpView::Nothing,
        follow_up(MqttCommandView::Calibrate) == FollowUpView::Nothing,
        follow_up(MqttCommandView::Home) == FollowUpView::Nothing,
{
}

/// A remote update replaces each field that the payload names by the string it
/// gives, and keeps the others; the opening is not in its reach.
pub proof fn law_remote_update(json: Seq<char>, config: ConfigView)
    ensures
        ({
            let after = updated_config(json, config);
            let replaced = |key: Seq<char>, old_text: Seq<char>, new_text: Seq<char>|
                {
                    &&& str_field(json, key) is Some ==> new_text == str_field(json, key)->0
                    &&& str_field(json, key) is None ==> new_text == old_text
                };
            &&& replaced("ssid"@, config.wifi_ssid, after.wifi_ssid)
            &&& replaced("wifi_pass"@, config.wifi_password, after.wifi_password)
            &&& replaced("mqtt_broker"@, config.mqtt_broker, after.mqtt_broker)
            &&& replaced("mqtt_id"@, config.mqtt_client_id, after.mqtt_client_id)
            &&& replaced("mqtt_user"@, config.mqtt_username, after.mqtt_username)
            &&& replaced("mqtt_pass"@, config.mqtt_password, after.mqtt_password)
            &&& after.opening_counts == config.opening_counts
        }),
{
}

} // verus!
