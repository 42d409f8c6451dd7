use open_sesame::config::{Config, Secrets, Tuning};
use open_sesame::door_controller::DoorController;
use open_sesame::motor::{MotorDriver, MotorMode};
use open_sesame::mqtt_client::{json_str_field, receive, MqttCommand, MqttEvent, MqttHandle};

fn config() -> Config {
    Config {
        mqtt_broker: "mqtt://x:1883".into(),
        mqtt_client_id: "door".into(),
        ..Config::with_secrets(&Secrets {
            wifi_ssid: None,
            wifi_password: None,
            mqtt_broker: None,
            mqtt_client_id: None,
            mqtt_username: None,
            mqtt_password: None,
        })
    }
}

fn message(topic: &str, data: &[u8]) -> Option<MqttCommand> {
    receive("door", MqttEvent::Received { topic: Some(topic), data })
}

#[test]
fn words_are_commands() {
    assert!(matches!(message("door/command", b"open"), Some(MqttCommand::Open)));
    assert!(matches!(message("door/command", b"close"), Some(MqttCommand::Close)));
    assert!(matches!(message("door/command", b"stop"), Some(MqttCommand::Stop)));
    assert!(matches!(message("door/command", b"calibrate"), Some(MqttCommand::Calibrate)));
    assert!(matches!(message("door/command", b"home"), Some(MqttCommand::Home)));
    assert!(message("door/command", b"Open").is_none());
    assert!(message("door/command", b"open ").is_none());
    assert!(message("door/command", b"").is_none());
}

#[test]
fn numbers_are_positions() {
    assert!(matches!(message("door/position/set", b"42"), Some(MqttCommand::Position(42))));
    assert!(matches!(message("door/position/set", b"-5"), Some(MqttCommand::Position(-5))));
    assert!(matches!(message("door/position/set", b"+250"), Some(MqttCommand::Position(250))));
    assert!(message("door/position/set", b"42.0").is_none());
    assert!(message("door/position/set", b" 42").is_none());
    assert!(message("door/position/set", b"").is_none());
    assert!(message("door/position/set", b"99999999999").is_none());
}

#[test]
fn config_payloads_are_passed_on() {
    match message("door/config/set", b"{\"ssid\":\"x\"}") {
        Some(MqttCommand::ConfigUpdate(json)) => assert_eq!(json, "{\"ssid\":\"x\"}"),
        other => panic!("{other:?}"),
    }
    assert!(matches!(message("door/config/set", b""), Some(MqttCommand::ConfigUpdate(_))));
}

#[test]
fn other_topics_are_ignored() {
    for topic in [
        "door", "door/", "doorcommand", "command", "/command", "doors/command", "x/door/command",
        "door/command/", "door//command", "door/state", "DOOR/command", "",
    ] {
        assert!(message(topic, b"open").is_none(), "{topic}");
    }
    assert!(receive("door", MqttEvent::Received { topic: None, data: b"open" }).is_none());
}

#[test]
fn empty_prefix_still_takes_a_slash() {
    let event = |topic| MqttEvent::Received { topic: Some(topic), data: b"open" };
    assert!(matches!(receive("", event("/command")), Some(MqttCommand::Open)));
    assert!(receive("", event("command")).is_none());
}

#[test]
fn payloads_that_are_not_text_are_ignored() {
    assert!(message("door/command", b"\xff").is_none());
    assert!(message("door/config/set", b"{\xff}").is_none());
    assert!(message("door/position/set", b"\xff").is_none());
}

#[test]
fn connection_is_announced() {
    assert!(matches!(receive("door", MqttEvent::Connected), Some(MqttCommand::Connected)));
    assert!(receive("door", MqttEvent::Other).is_none());
}

#[test]
fn connects_without_credentials() {
    let cfg = config();
    let (handle, options) = MqttHandle::connect(&cfg);
    assert_eq!(handle.topic_prefix(), "door");
    assert_eq!(options.broker, "mqtt://x:1883");
    assert_eq!(options.client_id, "door");
    assert_eq!(options.username, None);
    assert_eq!(options.password, None);
    assert_eq!(options.keep_alive_s, 15);
}

#[test]
fn connects_with_credentials() {
    let cfg = Config { mqtt_username: "u".into(), mqtt_password: "p".into(), ..config() };
    let (_, options) = MqttHandle::connect(&cfg);
    assert_eq!((options.username, options.password), (Some("u"), Some("p")));
}

#[test]
fn subscribes_to_what_it_understands() {
    let (handle, _) = MqttHandle::connect(&config());
    let topics = handle.subscribe_commands();
    assert_eq!(topics, ["door/config/set", "door/command", "door/position/set"]);
    assert!(message(&topics[0], b"{}").is_some());
    assert!(message(&topics[1], b"open").is_some());
    assert!(message(&topics[2], b"1").is_some());
}

#[test]
fn state_is_published_as_json() {
    let mut out = Vec::new();
    let motor = MotorDriver::new(MotorMode::PhEn, 40, &mut out);
    let tuning = Tuning {
        invert_direction: false,
        close_homing: false,
        dead_zone: 1,
        closed_threshold: 10,
        ramp_down_counts: 100,
        calibrate_power: 80,
        stall_ticks: 5,
        stall_grace_ticks: 3,
        settle_ticks: 4,
        assist_lockout_ticks: 50,
        calibration_stall_ticks: 5,
        calibration_pause_ticks: 2,
        calibration_timeout_ticks: 1000,
        idle_timeout_ms: 1000,
        loop_period_ms: 10,
    };
    let mut door = DoorController::new(motor, tuning, 0);
    door.set_opening(1000);
    door.start_homing(&mut out);
    let (handle, _) = MqttHandle::connect(&config());
    let velocity = format!("{:.2}", -3.14159f32);
    let message = handle.publish_state(&door, -250, 420, &velocity);
    assert_eq!(message.topic, "door/state");
    assert_eq!(
        message.payload,
        r#"{"state":"homing","position":-250,"pos_pct":42,"velocity":-3.14,"power":-80}"#
    );
}

#[test]
fn discovery_describes_the_device() {
    let (handle, _) = MqttHandle::connect(&config());
    let client_id = "id7";
    let state_topic = "door/state";
    let command_topic = "door/command";
    let set_position_topic = "door/position/set";
    let device = format!(
        r#"{{
                "identifiers":["{id}"],
                "name":"Open Sesame",
                "model":"Open Sesame v0.1",
                "manufacturer":"croggero"
            }}"#,
        id = client_id
    );
    let cover = format!(
        r#"{{
                "name":"Sliding Door",
                "unique_id":"{id}_cover",
                "device_class":"door",
                "state_topic":"{state}",
                "value_template":"{{{{value_json.state}}}}",
                "position_topic":"{state}",
                "position_template":"{{{{value_json.pos_pct}}}}",
                "set_position_topic":"{set_pos}",
                "command_topic":"{cmd}",
                "payload_open":"open",
                "payload_close":"close",
                "payload_stop":"stop",
                "state_open":"open",
                "state_closed":"closed",
                "state_opening":"opening",
                "state_closing":"closing",
                "device":{device}
            }}"#,
        id = client_id,
        state = state_topic,
        cmd = command_topic,
        set_pos = set_position_topic,
        device = device,
    );
    let calibrate = format!(
        r#"{{
                "name":"Calibrate Door",
                "unique_id":"{id}_calibrate",
                "command_topic":"{cmd}",
                "payload_press":"calibrate",
                "entity_category":"config",
                "device":{device}
            }}"#,
        id = client_id,
        cmd = command_topic,
        device = device,
    );
    let home = format!(
        r#"{{
                "name":"Home Door",
                "unique_id":"{id}_home",
                "command_topic":"{cmd}",
                "payload_press":"home",
                "entity_category":"config",
                "device":{device}
            }}"#,
        id = client_id,
        cmd = command_topic,
        device = device,
    );
    let messages = handle.publish_ha_discovery(client_id);
    assert_eq!(messages[0].topic, "homeassistant/cover/id7/config");
    assert_eq!(messages[0].payload, cover);
    assert_eq!(messages[1].topic, "homeassistant/button/id7_calibrate/config");
    assert_eq!(messages[1].payload, calibrate);
    assert_eq!(messages[2].topic, "homeassistant/button/id7_home/config");
    assert_eq!(messages[2].payload, home);
}

#[test]
fn string_fields_are_extracted() {
    let json = r#"{"mqtt_broker":"mqtt://x:1883"}"#;
    assert_eq!(json_str_field(json, "mqtt_broker"), Some("mqtt://x:1883"));
    let json = "{\"a\" :\t \"1\", \"b\":\"\"}";
    assert_eq!(json_str_field(json, "a"), Some("1"));
    assert_eq!(json_str_field(json, "b"), Some(""));
    assert_eq!(json_str_field("{\"\u{fc}\":\"\u{df}\"}", "\u{fc}"), Some("\u{df}"));
}

#[test]
fn missing_fields_are_none() {
    assert_eq!(json_str_field("", "a"), None);
    assert_eq!(json_str_field("{}", "a"), None);
    assert_eq!(json_str_field(r#"{"a":5}"#, "a"), None);
    assert_eq!(json_str_field(r#"{"a"}"#, "a"), None);
    assert_eq!(json_str_field(r#"{"a":"#, "a"), None);
    assert_eq!(json_str_field(r#"{"a":"unterminated"#, "a"), None);
    assert_eq!(json_str_field(r#"{"aa":"x"}"#, "a"), None);
}

#[test]
fn escapes_are_left_alone() {
    assert_eq!(json_str_field(r#"{"a":"x\"y"}"#, "a"), Some("x\\"));
    assert_eq!(json_str_field(r#"{"a\"k":"v","b":"w"}"#, "k"), None);
    assert_eq!(json_str_field(r#"{"b":"\u00e9\n","a":"v"}"#, "a"), Some("v"));
}

#[test]
fn values_are_not_keys() {
    assert_eq!(json_str_field(r#"{"a":"ssid","b":"x"}"#, "ssid"), None);
    assert_eq!(json_str_field(r#"{"a":"ssid" , "ssid" : "net"}"#, "ssid"), Some("net"));
    assert_eq!(json_str_field(r#"{"x":"a","a":"v"}"#, "a"), Some("v"));
    assert_eq!(json_str_field(r#"{"a":"b"}"#, "b"), None);
    assert_eq!(json_str_field(r#"{"a":5,"b":"x"}"#, "a"), None);
    assert_eq!(json_str_field(r#"{"a":"x","b":"y"}"#, ":"), None);
    assert_eq!(json_str_field(r#"{"a":"1","a":"2"}"#, "a"), Some("1"));
    assert_eq!(json_str_field(" { } ", "a"), None);
}

#[test]
fn flat_objects_hold_words_and_numbers() {
    for value in ["true", "false", "null", "0", "-0", "-12", "3.25", "1e9", "10E-2", "0.5e+1"] {
        let json = format!("{{\"n\":{value},\n\"x\":\"k\" , \"y\":\"v\"}}\r\n");
        assert_eq!(json_str_field(&json, "k"), None, "{json}");
        assert_eq!(json_str_field(&json, "n"), None, "{json}");
        assert_eq!(json_str_field(&json, "y"), Some("v"), "{json}");
    }
}

#[test]
fn other_text_is_scanned() {
    assert_eq!(json_str_field(r#""k"x:"v""#, "k"), Some("v"));
    assert_eq!(json_str_field(r#"{"k":["a","b"],"c":"d"}"#, "a"), Some("d"));
    assert_eq!(json_str_field(r#"{"c":{"ssid":"net"}}"#, "ssid"), Some("net"));
    assert_eq!(json_str_field(r#""a""#, "a"), None);
    assert_eq!(json_str_field("\"a\":\u{a0}\"v\"", "a"), Some("v"));
    for broken in ["01", "1.", "-", "+1", ".5", "1e", "tru", "nulls", "'q'", "\"\\x\"", "\"\t\""] {
        let json = format!("{{\"n\":{broken},\"x\":\"k\",\"y\":\"v\"}}");
        assert_eq!(json_str_field(&json, "k"), Some("v"), "{json}");
    }
    assert_eq!(json_str_field(r#"{"x":"k","y":"v",}"#, "k"), Some("v"));
    assert_eq!(json_str_field(r#"{"x":"k","y":"v"}."#, "k"), Some("v"));
}
