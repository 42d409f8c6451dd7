use open_sesame::config::{Config, NvsEntry, NvsValue, Secrets, Tuning};
use open_sesame::control::apply_remote_config;

fn text(key: &'static str, value: &str) -> NvsEntry {
    NvsEntry { key, value: NvsValue::Text(value.to_string()) }
}

fn fields(c: &Config) -> [&str; 6] {
    [
        &c.wifi_ssid,
        &c.wifi_password,
        &c.mqtt_broker,
        &c.mqtt_client_id,
        &c.mqtt_username,
        &c.mqtt_password,
    ]
}

fn defaults() -> Config {
    Config::with_secrets(&Secrets {
        wifi_ssid: Some("def-ssid"),
        wifi_password: Some("def-pass"),
        mqtt_broker: Some("def-broker"),
        mqtt_client_id: Some("def-id"),
        mqtt_username: Some("def-user"),
        mqtt_password: None,
    })
}

fn sample() -> Config {
    Config {
        wifi_ssid: "net".into(),
        wifi_password: "secret".into(),
        mqtt_broker: "mqtt://x:1883".into(),
        mqtt_client_id: "door".into(),
        mqtt_username: "".into(),
        mqtt_password: "".into(),
        opening_counts: -4321,
    }
}

#[test]
fn secrets_become_defaults() {
    let d = defaults();
    assert_eq!(
        fields(&d),
        ["def-ssid", "def-pass", "def-broker", "def-id", "def-user", ""]
    );
    assert_eq!(d.opening_counts, 0);
}

#[test]
fn empty_store_loads_defaults() {
    let c = Config::load(&Vec::new(), &defaults());
    assert_eq!(fields(&c), fields(&defaults()));
    assert_eq!(c.opening_counts, 0);
}

#[test]
fn saved_config_is_loaded_back() {
    let c = Config::load(&sample().save(), &defaults());
    assert_eq!(fields(&c), ["net", "secret", "mqtt://x:1883", "door", "def-user", ""]);
    assert_eq!(c.opening_counts, -4321);
}

#[test]
fn save_writes_all_keys_in_order() {
    let entries = sample().save();
    let keys: Vec<&str> = entries.iter().map(|e| e.key).collect();
    assert_eq!(
        keys,
        [
            "wifi_ssid",
            "wifi_pass",
            "mqtt_broker",
            "mqtt_id",
            "mqtt_user",
            "mqtt_pass",
            "opening_counts",
        ]
    );
    assert_eq!(keys, Config::erase());
    assert!(matches!(&entries[1].value, NvsValue::Text(s) if s == "secret"));
    assert!(matches!(entries[6].value, NvsValue::Int(-4321)));
}

#[test]
fn erased_store_loads_defaults() {
    let mut entries = sample().save();
    for key in Config::erase() {
        entries.retain(|e| e.key != key);
    }
    assert!(entries.is_empty());
    assert_eq!(fields(&Config::load(&entries, &defaults())), fields(&defaults()));
}

#[test]
fn values_of_the_wrong_kind_are_ignored() {
    let entries = vec![
        NvsEntry { key: "wifi_ssid", value: NvsValue::Int(5) },
        text("opening_counts", "77"),
    ];
    let c = Config::load(&entries, &defaults());
    assert_eq!(c.wifi_ssid, "def-ssid");
    assert_eq!(c.opening_counts, 0);
}

#[test]
fn text_has_to_fit_in_the_buffer() {
    let longest = "x".repeat(127);
    let entries = vec![text("mqtt_id", &longest), text("mqtt_user", &"x".repeat(128))];
    let c = Config::load(&entries, &defaults());
    assert_eq!(c.mqtt_client_id, longest);
    assert_eq!(c.mqtt_username, "def-user");
    let wide = vec![text("mqtt_id", &"\u{e9}".repeat(64)), text("mqtt_user", &"\u{e9}".repeat(63))];
    let c = Config::load(&wide, &defaults());
    assert_eq!(c.mqtt_client_id, "def-id");
    assert_eq!(c.mqtt_username, "\u{e9}".repeat(63));
}

#[test]
fn last_write_counts() {
    let entries = vec![text("mqtt_id", "a"), text("mqtt_id", "b"), text("mqtt_user", "c")];
    assert_eq!(Config::load(&entries, &defaults()).mqtt_client_id, "b");
}

#[test]
fn clone_keeps_all_fields() {
    let c = sample();
    assert_eq!(fields(&c.clone()), fields(&c));
    assert_eq!(c.clone().opening_counts, -4321);
}

#[test]
fn remote_update_changes_only_supplied_keys() {
    let stored = sample().save();
    let json = r#"{"mqtt_broker":"mqtt://192.168.1.200:1883","mqtt_id":"door-v2"}"#;
    let c = Config::load(&apply_remote_config(json, &stored, &defaults()), &defaults());
    assert_eq!(
        fields(&c),
        ["net", "secret", "mqtt://192.168.1.200:1883", "door-v2", "def-user", ""]
    );
    assert_eq!(c.opening_counts, -4321);
}

#[test]
fn remote_update_can_set_everything() {
    let json = r#"{"ssid": "s", "wifi_pass": "w", "mqtt_broker": "b", "mqtt_id": "i", "mqtt_user": "u", "mqtt_pass": "p"}"#;
    let c = Config::load(&apply_remote_config(json, &Vec::new(), &defaults()), &defaults());
    assert_eq!(fields(&c), ["s", "w", "b", "i", "u", "p"]);
}

#[test]
fn remote_values_are_not_taken_for_keys() {
    let stored = sample().save();
    let json = r#"{"mqtt_user":"ssid","mqtt_pass":"x"}"#;
    let c = Config::load(&apply_remote_config(json, &stored, &defaults()), &defaults());
    assert_eq!(fields(&c), ["net", "secret", "mqtt://x:1883", "door", "ssid", "x"]);
}

#[test]
fn remote_update_with_nothing_keeps_everything() {
    let stored = sample().save();
    let writes = apply_remote_config("not json", &stored, &defaults());
    let keys: Vec<&str> = writes.iter().map(|e| e.key).collect();
    assert_eq!(keys, Config::erase());
    let c = Config::load(&writes, &defaults());
    assert_eq!(fields(&c), fields(&Config::load(&stored, &defaults())));
}

#[test]
fn direction_turns_counts() {
    let mut tuning = Tuning {
        invert_direction: false,
        close_homing: false,
        dead_zone: 1,
        closed_threshold: 10,
        ramp_down_counts: 100,
        calibrate_power: 80,
        stall_ticks: 5,
        stall_grace_ticks: 3,
        settle_ticks: 4,
        assist_lockout_ticks: 50,
        calibration_stall_ticks: 5,
        calibration_pause_ticks: 2,
        calibration_timeout_ticks: 1000,
        idle_timeout_ms: 1000,
        loop_period_ms: 10,
    };
    assert_eq!((tuning.dir(), tuning.turned(7)), (1, 7));
    tuning.invert_direction = true;
    assert_eq!((tuning.dir(), tuning.turned(7)), (-1, -7));
}
