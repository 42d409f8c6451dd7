//! MQTT topics, messages and commands.

use vstd::prelude::*;
use vstd::utf8::{decode_utf8, valid_utf8};

use crate::config::Config;
use crate::door_controller::DoorController;
use crate::door_model::DoorState;
use crate::json::{
    flat_object, holds, is_plain, law_object_is_flat, look_up, object_text, quoted, value_of, Lookup,
    Member,
};
use crate::number::{decimal, parse_decimal, parsed, push_decimal};
use crate::text::{
    chars_of, find_char, find_char_in, find_text, find_text_in, is_blank, lemma_find_char,
    lemma_trim_start_of, occurs_at, occurs_in_at, same, skip_blanks, string_of, text, text_of, trim_start,
};

verus! {

// Subscribed topics
pub const TOPIC_CONFIG: &'static str = "config/set";

/// Payload: "open" | "close" | "stop" | "calibrate" | "home"
pub const TOPIC_COMMAND: &'static str = "command";

pub const TOPIC_SET_POSITION: &'static str = "position/set";

// Published topics
pub const TOPIC_STATE: &'static str = "state";

pub const KEEP_ALIVE_S: u64 = 15;

// ── Commands ─────────────────────────────────────────────────────────────────

/// Commands routed from MQTT to the main loop.
#[derive(Debug)]
pub enum MqttCommand {
    /// Broker connection established: subscribe and publish discovery.
    Connected,
    /// JSON payload with partial device config: apply and reboot.
    ConfigUpdate(String),
    /// Drive door to the open endstop.
    Open,
    /// Drive door to the closed endstop.
    Close,
    /// Set door to position from 0-100.
    Position(i32),
    /// Stop motor and clear any remote target.
    Stop,
    /// Auto-detect endstops by driving to each end and watching for stall.
    Calibrate,
    /// Perform home on door requested.
    Home,
}

/// [`MqttCommand`], with text as characters.
pub enum MqttCommandView {
    Connected,
    ConfigUpdate(Seq<char>),
    Open,
    Close,
    Position(i32),
    Stop,
    Calibrate,
    Home,
}

impl View for MqttCommand {
    type V = MqttCommandView;

    open spec fn view(&self) -> MqttCommandView {
        match self {
            MqttCommand::Connected => MqttCommandView::Connected,
            MqttCommand::ConfigUpdate(json) => MqttCommandView::ConfigUpdate(json@),
            MqttCommand::Open => MqttCommandView::Open,
            MqttCommand::Close => MqttCommandView::Close,
            MqttCommand::Position(pos) => MqttCommandView::Position(*pos),
            MqttCommand::Stop => MqttCommandView::Stop,
            MqttCommand::Calibrate => MqttCommandView::Calibrate,
            MqttCommand::Home => MqttCommandView::Home,
        }
    }
}

/// What the MQTT connection reports.
pub enum MqttEvent<'a> {
    Connected,
    /// A message, or a part of one; its topic may be missing.
    Received { topic: Option<&'a str>, data: &'a [u8] },
    /// Anything else.
    Other,
}

/// `topic` below `prefix`.
pub open spec fn topic_under(prefix: Seq<char>, topic: Seq<char>) -> Seq<char> {
    prefix + "/"@ + topic
}

/// What follows the prefix and a slash in `topic`.
pub open spec fn suffix(prefix: Seq<char>, topic: Seq<char>) -> Option<Seq<char>> {
    let head = prefix + "/"@;
    if head.is_prefix_of(topic) {
        Some(topic.skip(head.len() as int))
    } else {
        None
    }
}

/// The command that a word stands for.
pub open spec fn command_word(word: Seq<char>) -> Option<MqttCommandView> {
    if word == "open"@ {
        Some(MqttCommandView::Open)
    } else if word == "close"@ {
        Some(MqttCommandView::Close)
    } else if word == "stop"@ {
        Some(MqttCommandView::Stop)
    } else if word == "calibrate"@ {
        Some(MqttCommandView::Calibrate)
    } else if word == "home"@ {
        Some(MqttCommandView::Home)
    } else {
        None
    }
}

/// The command in a message of `payload` on the topic `suffix`.
pub open spec fn command_in(suffix: Seq<char>, payload: Seq<char>) -> Option<MqttCommandView> {
    if suffix == TOPIC_CONFIG@ {
        Some(MqttCommandView::ConfigUpdate(payload))
    } else if suffix == TOPIC_SET_POSITION@ {
        match parsed(payload) {
            Some(pos) => Some(MqttCommandView::Position(pos)),
            None => None,
        }
    } else if suffix == TOPIC_COMMAND@ {
        command_word(payload)
    } else {
        None
    }
}

/// The command in a message, if it is one. A payload that is not text is none.
pub open spec fn routed(prefix: Seq<char>, topic: Seq<char>, data: Seq<u8>) -> Option<
    MqttCommandView,
> {
    match (suffix(prefix, topic), text(data)) {
        (Some(suffix), Some(payload)) => command_in(suffix, payload),
        _ => None,
    }
}

/// `cmd` with text as characters.
pub open spec fn command_view(cmd: Option<MqttCommand>) -> Option<MqttCommandView> {
    match cmd {
        Some(cmd) => Some(cmd@),
        None => None,
    }
}

/// The part of `topic` after the prefix and a slash.
fn strip_topic(prefix: &str, topic: &str) -> (rest: Option<String>)
    ensures
        rest is Some <==> suffix(prefix@, topic@) is Some,
        rest matches Some(r) ==> suffix(prefix@, topic@) == Some(r@),
{
    let mut head: String = prefix.to_owned();
    head.append("/");
    let head: Vec<char> = chars_of(head.as_str());
    let topic: Vec<char> = chars_of(topic);
    if occurs_in_at(&topic, &head, 0) {
        assert(topic@.subrange(head@.len() as int, topic@.len() as int) =~= topic@.skip(
            head@.len() as int,
        ));
        Some(string_of(&topic, head.len(), topic.len()))
    } else {
        proof {
            if head@.is_prefix_of(topic@) {
                assert(topic@.subrange(0, head@.len() as int) =~= head@);
            }
        }
        None
    }
}

fn parse_command_word(word: &str) -> (cmd: Option<MqttCommand>)
    ensures
        command_view(cmd) == command_word(word@),
{
    if same(word, "open") {
        Some(MqttCommand::Open)
    } else if same(word, "close") {
        Some(MqttCommand::Close)
    } else if same(word, "stop") {
        Some(MqttCommand::Stop)
    } else if same(word, "calibrate") {
        Some(MqttCommand::Calibrate)
    } else if same(word, "home") {
        Some(MqttCommand::Home)
    } else {
        None
    }
}

fn parse_command(suffix: &str, payload: &str) -> (cmd: Option<MqttCommand>)
    ensures
        command_view(cmd) == command_in(suffix@, payload@),
{
    if same(suffix, TOPIC_CONFIG) {
        Some(MqttCommand::ConfigUpdate(payload.to_owned()))
    } else if same(suffix, TOPIC_SET_POSITION) {
        match parse_decimal(payload) {
            Some(pos) => Some(MqttCommand::Position(pos)),
            None => None,
        }
    } else if same(suffix, TOPIC_COMMAND) {
        parse_command_word(payload)
    } else {
        None
    }
}

/// Turn what the connection reports into a command for the main loop.
pub fn receive(prefix: &str, event: MqttEvent<'_>) -> (cmd: Option<MqttCommand>)
    ensures
        command_view(cmd) == (match event {
            MqttEvent::Connected => Some(MqttCommandView::Connected),
            MqttEvent::Received { topic, data } => match topic {
                Some(topic) => routed(prefix@, topic@, data@),
                None => None,
            },
            MqttEvent::Other => None,
        }),
{
    match event {
        MqttEvent::Connected => Some(MqttCommand::Connected),
        MqttEvent::Received { topic, data } => {
            let topic: &str = match topic {
                Some(topic) => topic,
                None => {
                    return None;
                },
            };
            match (strip_topic(prefix, topic), text_of(data)) {
                (Some(suffix), Some(payload)) => parse_command(suffix.as_str(), payload),
                _ => None,
            }
        },
        MqttEvent::Other => None,
    }
}

// ── Messages ─────────────────────────────────────────────────────────────────

/// A message to publish, with at-least-once delivery and retained.
#[derive(Debug)]
pub struct Message {
    pub topic: String,
    pub payload: String,
}

/// [`Message`], with text as characters.
#[verifier::ext_equal]
pub struct MessageView {
    pub topic: Seq<char>,
    pub payload: Seq<char>,
}

impl View for Message {
    type V = MessageView;

    open spec fn view(&self) -> MessageView {
        MessageView { topic: self.topic@, payload: self.payload@ }
    }
}

/// How to connect to the broker.
#[derive(Clone, Copy, Debug)]
pub struct ConnectOptions<'a> {
    pub broker: &'a str,
    pub client_id: &'a str,
    /// None for no authentication.
    pub username: Option<&'a str>,
    pub password: Option<&'a str>,
    pub keep_alive_s: u64,
}

/// Text that counts as missing when it is empty.
pub open spec fn is_optional(s: Seq<char>, opt: Option<&str>) -> bool {
    match opt {
        Some(t) => t@ == s && s.len() > 0,
        None => s.len() == 0,
    }
}

fn nonempty(s: &String) -> (opt: Option<&str>)
    ensures
        is_optional(s@, opt),
{
    if s.as_str().is_empty() {
        None
    } else {
        Some(s.as_str())
    }
}

// The parts of the discovery payloads, each named after what follows it.
pub const DEVICE_ID: &'static str = r#"{
                "identifiers":[""#;

pub const DEVICE_END: &'static str = r#""],
                "name":"Open Sesame",
                "model":"Open Sesame v0.1",
                "manufacturer":"croggero"
            }"#;

pub const COVER_ID: &'static str = r#"{
                "name":"Sliding Door",
                "unique_id":""#;

pub const COVER_STATE: &'static str = r#"_cover",
                "device_class":"door",
                "state_topic":""#;

pub const COVER_POSITION: &'static str = r#"",
                "value_template":"{{value_json.state}}",
                "position_topic":""#;

pub const COVER_SET_POSITION: &'static str = r#"",
                "position_template":"{{value_json.pos_pct}}",
                "set_position_topic":""#;

pub const COVER_COMMAND: &'static str = r#"",
                "command_topic":""#;

pub const COVER_DEVICE: &'static str = r#"",
                "payload_open":"open",
                "payload_close":"close",
                "payload_stop":"stop",
                "state_open":"open",
                "state_closed":"closed",
                "state_opening":"opening",
                "state_closing":"closing",
                "device":"#;

pub const CALIBRATE_ID: &'static str = r#"{
                "name":"Calibrate Door",
                "unique_id":""#;

pub const CALIBRATE_COMMAND: &'static str = r#"_calibrate",
                "command_topic":""#;

pub const CALIBRATE_DEVICE: &'static str = r#"",
                "payload_press":"calibrate",
                "entity_category":"config",
                "device":"#;

pub const HOME_ID: &'static str = r#"{
                "name":"Home Door",
                "unique_id":""#;

pub const HOME_COMMAND: &'static str = r#"_home",
                "command_topic":""#;

pub const HOME_DEVICE: &'static str = r#"",
                "payload_press":"home",
                "entity_category":"config",
                "device":"#;

pub const OBJECT_END: &'static str = r#"
            }"#;

/// The description of the device that all discovery payloads hold.
pub open spec fn device_json(id: Seq<char>) -> Seq<char> {
    DEVICE_ID@ + id + DEVICE_END@
}

/// Discovery of the cover: open, close, stop and set a position.
pub open spec fn cover_discovery(prefix: Seq<char>, id: Seq<char>) -> MessageView {
    MessageView {
        topic: "homeassistant/cover/"@ + id + "/config"@,
        payload: COVER_ID@ + id + COVER_STATE@ + topic_under(prefix, TOPIC_STATE@)
            + COVER_POSITION@ + topic_under(prefix, TOPIC_STATE@) + COVER_SET_POSITION@
            + topic_under(prefix, TOPIC_SET_POSITION@) + COVER_COMMAND@ + topic_under(
            prefix,
            TOPIC_COMMAND@,
        ) + COVER_DEVICE@ + device_json(id) + OBJECT_END@,
    }
}

/// Discovery of the button that calibrates the door.
pub open spec fn calibrate_discovery(prefix: Seq<char>, id: Seq<char>) -> MessageView {
    MessageView {
        topic: "homeassistant/button/"@ + id + "_calibrate/config"@,
        payload: CALIBRATE_ID@ + id + CALIBRATE_COMMAND@ + topic_under(prefix, TOPIC_COMMAND@)
            + CALIBRATE_DEVICE@ + device_json(id) + OBJECT_END@,
    }
}

/// Discovery of the button that homes the door.
pub open spec fn home_discovery(prefix: Seq<char>, id: Seq<char>) -> MessageView {
    MessageView {
        topic: "homeassistant/button/"@ + id + "_home/config"@,
        payload: HOME_ID@ + id + HOME_COMMAND@ + topic_under(prefix, TOPIC_COMMAND@)
            + HOME_DEVICE@ + device_json(id) + OBJECT_END@,
    }
}

/// The published state of the door.
pub open spec fn state_json(
    state: DoorState,
    position: int,
    pos_pct: int,
    velocity: Seq<char>,
    power: int,
) -> Seq<char> {
    "{\"state\":\""@ + state.name() + "\",\"position\":"@ + decimal(position) + ",\"pos_pct\":"@
        + decimal(pos_pct) + ",\"velocity\":"@ + velocity + ",\"power\":"@ + decimal(power) + "}"@
}

fn full_topic(prefix: &str, topic: &str) -> (full: String)
    ensures
        full@ == topic_under(prefix@, topic@),
{
    let mut full: String = prefix.to_owned();
    full.append("/");
    full.append(topic);
    full
}

fn device(client_id: &str) -> (json: String)
    ensures
        json@ == device_json(client_id@),
{
    let mut json: String = DEVICE_ID.to_owned();
    json.append(client_id);
    json.append(DEVICE_END);
    json
}

/// What the device publishes and subscribes to under its topic prefix.
pub struct MqttHandle {
    topic_prefix: String,
}

impl View for MqttHandle {
    type V = Seq<char>;

    closed spec fn view(&self) -> Seq<char> {
        self.topic_prefix@
    }
}

impl MqttHandle {
    /// A handle whose topics are below the client ID, and how to connect it.
    pub fn connect<'a>(cfg: &'a Config) -> (result: (Self, ConnectOptions<'a>))
        ensures
            result.0@ == cfg@.mqtt_client_id,
            result.1.broker@ == cfg@.mqtt_broker,
            result.1.client_id@ == cfg@.mqtt_client_id,
            is_optional(cfg@.mqtt_username, result.1.username),
            is_optional(cfg@.mqtt_password, result.1.password),
            result.1.keep_alive_s == KEEP_ALIVE_S,
            result.1.username is Some <==> cfg@.mqtt_username.len() > 0,
            result.1.username matches Some(name) ==> name@ == cfg@.mqtt_username,
            result.1.password is Some <==> cfg@.mqtt_password.len() > 0,
            result.1.password matches Some(password) ==> password@ == cfg@.mqtt_password,
    {
        let options = ConnectOptions {
            broker: cfg.mqtt_broker.as_str(),
            client_id: cfg.mqtt_client_id.as_str(),
            username: nonempty(&cfg.mqtt_username),
            password: nonempty(&cfg.mqtt_password),
            keep_alive_s: KEEP_ALIVE_S,
        };
        (MqttHandle { topic_prefix: cfg.mqtt_client_id.clone() }, options)
    }

    pub fn topic_prefix(&self) -> (prefix: &str)
        ensures
            prefix@ == self@,
    {
        self.topic_prefix.as_str()
    }

    /// Door state, position, and velocity as a single JSON payload. The position in
    /// percent is that of `later`, a second reading; `velocity` is a number already
    /// in decimal.
    pub fn publish_state(
        &self,
        door: &DoorController,
        position: i32,
        later: i32,
        velocity: &str,
    ) -> (message: Message)
        requires
            door@.wf(),
        ensures
            message@ == (MessageView {
                topic: topic_under(self@, TOPIC_STATE@),
                payload: state_json(
                    door@.state,
                    position as int,
                    door@.counts_to_pct(later as int),
                    velocity@,
                    door@.motor.power(),
                ),
            }),
    {
        let mut payload: String = "{\"state\":\"".to_owned();
        payload.append(door.state().as_str());
        payload.append("\",\"position\":");
        push_decimal(&mut payload, position);
        payload.append(",\"pos_pct\":");
        push_decimal(&mut payload, door.position_pct(later));
        payload.append(",\"velocity\":");
        payload.append(velocity);
        payload.append(",\"power\":");
        push_decimal(&mut payload, door.power());
        payload.append("}");
        Message { topic: full_topic(self.topic_prefix.as_str(), TOPIC_STATE), payload }
    }

    fn cover(&self, client_id: &str) -> (message: Message)
        ensures
            message@ == cover_discovery(self@, client_id@),
    {
        let prefix: &str = self.topic_prefix.as_str();
        let state: String = full_topic(prefix, TOPIC_STATE);
        let mut topic: String = "homeassistant/cover/".to_owned();
        topic.append(client_id);
        topic.append("/config");
        let mut payload: String = COVER_ID.to_owned();
        payload.append(client_id);
        payload.append(COVER_STATE);
        payload.append(state.as_str());
        payload.append(COVER_POSITION);
        payload.append(state.as_str());
        payload.append(COVER_SET_POSITION);
        payload.append(full_topic(prefix, TOPIC_SET_POSITION).as_str());
        payload.append(COVER_COMMAND);
        payload.append(full_topic(prefix, TOPIC_COMMAND).as_str());
        payload.append(COVER_DEVICE);
        payload.append(device(client_id).as_str());
        payload.append(OBJECT_END);
        Message { topic, payload }
    }

    fn calibrate_button(&self, client_id: &str) -> (message: Message)
        ensures
            message@ == calibrate_discovery(self@, client_id@),
    {
        let mut topic: String = "homeassistant/button/".to_owned();
        topic.append(client_id);
        topic.append("_calibrate/config");
        let mut payload: String = CALIBRATE_ID.to_owned();
        payload.append(client_id);
        payload.append(CALIBRATE_COMMAND);
        payload.append(full_topic(self.topic_prefix.as_str(), TOPIC_COMMAND).as_str());
        payload.append(CALIBRATE_DEVICE);
        payload.append(device(client_id).as_str());
        payload.append(OBJECT_END);
        Message { topic, payload }
    }

    fn home_button(&self, client_id: &str) -> (message: Message)
        ensures
            message@ == home_discovery(self@, client_id@),
    {
        let mut topic: String = "homeassistant/button/".to_owned();
        topic.append(client_id);
        topic.append("_home/config");
        let mut payload: String = HOME_ID.to_owned();
        payload.append(client_id);
        payload.append(HOME_COMMAND);
        payload.append(full_topic(self.topic_prefix.as_str(), TOPIC_COMMAND).as_str());
        payload.append(HOME_DEVICE);
        payload.append(device(client_id).as_str());
        payload.append(OBJECT_END);
        Message { topic, payload }
    }

    /// The Home Assistant MQTT Discovery messages (publish once after connecting).
    pub fn publish_ha_discovery(&self, client_id: &str) -> (messages: [Message; 3])
        ensures
            messages@[0]@ == cover_discovery(self@, client_id@),
            messages@[1]@ == calibrate_discovery(self@, client_id@),
            messages@[2]@ == home_discovery(self@, client_id@),
    {
        [self.cover(client_id), self.calibrate_button(client_id), self.home_button(client_id)]
    }

    /// The topics to subscribe to (config updates, commands, positions).
    pub fn subscribe_commands(&self) -> (topics: [String; 3])
        ensures
            topics@[0]@ == topic_under(self@, TOPIC_CONFIG@),
            topics@[1]@ == topic_under(self@, TOPIC_COMMAND@),
            topics@[2]@ == topic_under(self@, TOPIC_SET_POSITION@),
    {
        let prefix: &str = self.topic_prefix.as_str();
        [
            full_topic(prefix, TOPIC_CONFIG),
            full_topic(prefix, TOPIC_COMMAND),
            full_topic(prefix, TOPIC_SET_POSITION),
        ]
    }
}

// ── Flat JSON ────────────────────────────────────────────────────────────────

/// The string at the start of `s`: what stands between a quote and the next one.
pub open spec fn leading_string(s: Seq<char>) -> Option<Seq<char>> {
    let end = find_char(s, '"', 1);
    if s.len() > 0 && s[0] == '"' && end < s.len() {
        Some(s.subrange(1, end))
    } else {
        None
    }
}

/// Index behind the first colon behind the first occurrence of the quoted key.
pub open spec fn scanned(text: Seq<char>, key: Seq<char>) -> Option<int> {
    match find_text(text, quoted(key), 0) {
        Some(at) => {
            let colon = find_char(text, ':', at + quoted(key).len());
            if colon < text.len() {
                Some(colon + 1)
            } else {
                None
            }
        },
        None => None,
    }
}

/// Where the value of `key` is: behind the colon of the first member of that name
/// in a flat JSON object, or behind the next colon in any other text.
pub open spec fn value_index(json: Seq<char>, key: Seq<char>) -> Option<int> {
    match flat_object(json) {
        Some(members) => value_of(members, key),
        None => scanned(json, key),
    }
}

/// The string value of `key`: the string that comes first where its value is.
pub open spec fn str_field(json: Seq<char>, key: Seq<char>) -> Option<Seq<char>> {
    match value_index(json, key) {
        Some(at) => leading_string(trim_start(json.skip(at))),
        None => None,
    }
}

fn scan(chars: &Vec<char>, key: &str) -> (from: Option<usize>)
    ensures
        from is Some <==> scanned(chars@, key@) is Some,
        from matches Some(i) ==> scanned(chars@, key@) == Some(i as int) && i <= chars@.len(),
{
    let n: usize = chars.len();
    let mut needle: Vec<char> = Vec::new();
    needle.push('"');
    let mut key_chars: Vec<char> = chars_of(key);
    needle.append(&mut key_chars);
    needle.push('"');
    assert(needle@ =~= quoted(key@));
    match find_text_in(chars, &needle) {
        Some(at) => {
            let colon: usize = find_char_in(chars, ':', at + needle.len());
            if colon < n {
                Some(colon + 1)
            } else {
                None
            }
        },
        None => None,
    }
}

fn find_value(chars: &Vec<char>, key: &str) -> (from: Option<usize>)
    ensures
        from is Some <==> value_index(chars@, key@) is Some,
        from matches Some(i) ==> value_index(chars@, key@) == Some(i as int) && i <= chars@.len(),
{
    match look_up(chars, &chars_of(key)) {
        Lookup::NotFlat => scan(chars, key),
        Lookup::Missing => None,
        Lookup::Found(i) => Some(i),
    }
}

/// Extract the string value of `key` from a flat JSON object. Text that is not a
/// flat JSON object is not refused: there the value is looked for behind the colon
/// that follows the first occurrence of the quoted key.
pub fn json_str_field<'a>(json: &'a str, key: &str) -> (value: Option<&'a str>)
    ensures
        value is Some <==> str_field(json@, key@) is Some,
        value matches Some(v) ==> str_field(json@, key@) == Some(v@),
{
    let chars: Vec<char> = chars_of(json);
    let n: usize = chars.len();
    let start: usize = match find_value(&chars, key) {
        Some(i) => i,
        None => {
            return None;
        },
    };
    let from: usize = skip_blanks(&chars, start);
    let ghost rest = chars@.skip(from as int);
    if from == n || chars[from] != '"' {
        return None;
    }
    let end: usize = find_char_in(&chars, '"', from + 1);
    proof {
        lemma_find_char(rest, '"', 1, end - from);
    }
    if end == n {
        return None;
    }
    assert(rest.subrange(1, end - from) =~= chars@.subrange(from + 1, end as int));
    Some(json.substring_char(from + 1, end))
}

// ── Laws ─────────────────────────────────────────────────────────────────────

/// What was put below the prefix is found there again.
proof fn lemma_suffix(prefix: Seq<char>, topic: Seq<char>)
    ensures
        suffix(prefix, topic_under(prefix, topic)) == Some(topic),
{
    let head = prefix + "/"@;
    let full = topic_under(prefix, topic);
    assert(full.skip(head.len() as int) =~= topic);
    assert(head.is_prefix_of(full)) by {
        assert(full.subrange(0, head.len() as int) =~= head);
    }
}

proof fn lemma_topics_differ()
    ensures
        TOPIC_COMMAND@ != TOPIC_CONFIG@,
        TOPIC_COMMAND@ != TOPIC_SET_POSITION@,
        TOPIC_CONFIG@ != TOPIC_SET_POSITION@,
{
    reveal_strlit("command");
    reveal_strlit("config/set");
    reveal_strlit("position/set");
    assert("command"@.len() == 7 && "config/set"@.len() == 10 && "position/set"@.len() == 12);
}

/// What discovery announces is understood: the payloads of its buttons and of the
/// cover, on the command topic, are the commands they are named after; a number on
/// the position topic is a position; and any text on the config topic is a payload.
pub proof fn law_announced_commands_are_understood(prefix: Seq<char>, data: Seq<u8>)
    ensures
        ({
            let command = routed(prefix, topic_under(prefix, TOPIC_COMMAND@), data);
            &&& text(data) == Some("open"@) ==> command == Some(MqttCommandView::Open)
            &&& text(data) == Some("close"@) ==> command == Some(MqttCommandView::Close)
            &&& text(data) == Some("stop"@) ==> command == Some(MqttCommandView::Stop)
            &&& text(data) == Some("calibrate"@) ==> command == Some(MqttCommandView::Calibrate)
            &&& text(data) == Some("home"@) ==> command == Some(MqttCommandView::Home)
        }),
        forall|n: i32| #[trigger]
            text(data) == Some(decimal(n as int)) ==> routed(
                prefix,
                topic_under(prefix, TOPIC_SET_POSITION@),
                data,
            ) == Some(MqttCommandView::Position(n)),
        text(data) matches Some(json) ==> routed(prefix, topic_under(prefix, TOPIC_CONFIG@), data)
            == Some(MqttCommandView::ConfigUpdate(json)),
{
    lemma_topics_differ();
    lemma_suffix(prefix, TOPIC_COMMAND@);
    lemma_suffix(prefix, TOPIC_SET_POSITION@);
    lemma_suffix(prefix, TOPIC_CONFIG@);
    reveal_strlit("open");
    reveal_strlit("close");
    reveal_strlit("stop");
    reveal_strlit("calibrate");
    reveal_strlit("home");
    assert("open"@.len() == 4 && "close"@.len() == 5 && "stop"@.len() == 4 && "calibrate"@.len()
        == 9 && "home"@.len() == 4);
    assert("open"@[0] == 'o' && "stop"@[0] == 's' && "home"@[0] == 'h');
    assert forall|n: i32| #[trigger] text(data) == Some(decimal(n as int)) implies routed(
        prefix,
        topic_under(prefix, TOPIC_SET_POSITION@),
        data,
    ) == Some(MqttCommandView::Position(n)) by {
        crate::number::law_decimal_reads_back(n);
    }
}

/// Nothing but a message on a topic that was subscribed to is a command.
pub proof fn law_only_subscribed_topics_command(
    prefix: Seq<char>,
    topic: Seq<char>,
    data: Seq<u8>,
)
    requires
        routed(prefix, topic, data) is Some,
    ensures
        topic == topic_under(prefix, TOPIC_CONFIG@) || topic == topic_under(prefix, TOPIC_COMMAND@)
            || topic == topic_under(prefix, TOPIC_SET_POSITION@),
{
    let head = prefix + "/"@;
    assert(topic =~= head + topic.skip(head.len() as int));
}

/// The first occurrence of a pattern is where it is found.
proof fn lemma_find_text(s: Seq<char>, pattern: Seq<char>, from: int, at: int)
    requires
        0 <= from <= at,
        occurs_at(s, pattern, at),
        forall|i: int| from <= i < at ==> !occurs_at(s, pattern, i),
    ensures
        find_text(s, pattern, from) == Some(at),
    decreases at - from,
{
    if from < at {
        lemma_find_text(s, pattern, from + 1, at);
    }
}

/// A string that is not a key of a flat JSON object has no value in it, even if it
/// occurs there as a value.
pub proof fn law_values_are_not_keys(json: Seq<char>, key: Seq<char>)
    requires
        flat_object(json) is Some,
        forall|i: int|
            0 <= i < flat_object(json)->0.len() ==> (#[trigger] flat_object(json)->0[i]).key != key,
    ensures
        str_field(json, key) is None,
{
    lemma_no_member(flat_object(json)->0, key);
}

proof fn lemma_no_member(members: Seq<Member>, key: Seq<char>)
    requires
        forall|i: int| 0 <= i < members.len() ==> (#[trigger] members[i]).key != key,
    ensures
        value_of(members, key) is None,
    decreases members.len(),
{
    if members.len() > 0 {
        let rest = members.drop_first();
        assert(members[0].key != key);
        assert forall|i: int| 0 <= i < rest.len() implies (#[trigger] rest[i]).key != key by {
            assert(rest[i] == members[i + 1]);
        }
        lemma_no_member(rest, key);
    }
}

/// The value of the first field with this key.
pub open spec fn first_value(fields: Seq<(Seq<char>, Seq<char>)>, key: Seq<char>) -> Option<
    Seq<char>,
>
    decreases fields.len(),
{
    if fields.len() == 0 {
        None
    } else if fields[0].0 == key {
        Some(fields[0].1)
    } else {
        first_value(fields.drop_first(), key)
    }
}

proof fn lemma_quoted_is_read(json: Seq<char>, at: int, text: Seq<char>)
    requires
        occurs_at(json, quoted(text), at),
        forall|i: int| 0 <= i < text.len() ==> text[i] != '"',
    ensures
        leading_string(trim_start(json.skip(at))) == Some(text),
{
    let rest = json.skip(at);
    let q = quoted(text);
    assert forall|k: int| 0 <= k < q.len() implies rest[k] == #[trigger] q[k] by {
        assert(json.subrange(at, at + q.len())[k] == q[k]);
    }
    assert(rest[0] == q[0]);
    assert(!is_blank('"'));
    assert(rest[text.len() as int + 1] == q[text.len() as int + 1]);
    assert forall|k: int| 1 <= k < text.len() + 1 implies rest[k] != '"' by {
        assert(rest[k] == q[k]);
        assert(q[k] == text[k - 1]);
    }
    lemma_find_char(rest, '"', 1, text.len() as int + 1);
    assert(rest.subrange(1, text.len() as int + 1) =~= text) by {
        assert forall|k: int| 0 <= k < text.len() implies rest[k + 1] == text[k] by {
            assert(rest[k + 1] == q[k + 1]);
        }
    }
}

proof fn lemma_fields_are_read(
    json: Seq<char>,
    members: Seq<Member>,
    fields: Seq<(Seq<char>, Seq<char>)>,
    key: Seq<char>,
)
    requires
        holds(json, members, fields),
        forall|i: int| 0 <= i < fields.len() ==> is_plain((#[trigger] fields[i]).1),
    ensures
        match value_of(members, key) {
            Some(at) => first_value(fields, key) == leading_string(trim_start(json.skip(at))),
            None => first_value(fields, key) is None,
        },
    decreases members.len(),
{
    if members.len() > 0 {
        assert(members[0].key == fields[0].0);
        if fields[0].0 == key {
            let value = fields[0].1;
            assert(is_plain(value));
            assert forall|i: int| 0 <= i < value.len() implies value[i] != '"' by {
                assert(value[i] != '\\');
            }
            lemma_quoted_is_read(json, members[0].value_at, value);
        } else {
            let ms = members.drop_first();
            let fs = fields.drop_first();
            assert forall|i: int| 0 <= i < ms.len() implies {
                &&& (#[trigger] ms[i]).key == fs[i].0
                &&& occurs_at(json, quoted(fs[i].1), ms[i].value_at)
            } by {
                assert(ms[i] == members[i + 1]);
                assert(fs[i] == fields[i + 1]);
            }
            assert forall|i: int| 0 <= i < fs.len() implies is_plain((#[trigger] fs[i]).1) by {
                assert(fs[i] == fields[i + 1]);
            }
            lemma_fields_are_read(json, ms, fs, key);
        }
    }
}

/// An object that is written from plain keys and values gives back the value of
/// each key, and nothing for a text that is no key of it.
pub proof fn law_object_reads_back(fields: Seq<(Seq<char>, Seq<char>)>, key: Seq<char>)
    requires
        forall|i: int| 0 <= i < fields.len() ==> is_plain((#[trigger] fields[i]).0),
        forall|i: int| 0 <= i < fields.len() ==> is_plain((#[trigger] fields[i]).1),
    ensures
        str_field(object_text(fields), key) == first_value(fields, key),
{
    law_object_is_flat(fields);
    lemma_fields_are_read(
        object_text(fields),
        flat_object(object_text(fields))->0,
        fields,
        key,
    );
}

/// In text that is not a flat object, the string behind the next colon is read,
/// whatever stands between that and the first occurrence of the quoted key.
pub proof fn law_other_text_is_scanned(
    before: Seq<char>,
    key: Seq<char>,
    gap: Seq<char>,
    blanks: Seq<char>,
    value: Seq<char>,
    after: Seq<char>,
)
    requires
        ({
            let text = before + quoted(key) + gap + seq![':'] + blanks + quoted(value) + after;
            &&& flat_object(text) is None
            &&& forall|i: int| 0 <= i < before.len() ==> !occurs_at(text, quoted(key), i)
        }),
        forall|i: int| 0 <= i < gap.len() ==> gap[i] != ':',
        forall|i: int| 0 <= i < blanks.len() ==> is_blank(#[trigger] blanks[i]),
        forall|i: int| 0 <= i < value.len() ==> value[i] != '"',
    ensures
        str_field(
            before + quoted(key) + gap + seq![':'] + blanks + quoted(value) + after,
            key,
        ) == Some(value),
{
    let text = before + quoted(key) + gap + seq![':'] + blanks + quoted(value) + after;
    let at = before.len() as int;
    let n = quoted(key).len() as int;
    let colon = at + n + gap.len();
    assert(text.subrange(at, at + n) =~= quoted(key));
    lemma_find_text(text, quoted(key), 0, at);
    assert forall|k: int| at + n <= k < colon implies text[k] != ':' by {
        assert(text[k] == gap[k - at - n]);
    }
    lemma_find_char(text, ':', at + n, colon);
    let rest = quoted(value) + after;
    assert(text.skip(colon + 1) =~= blanks + rest);
    lemma_trim_start_of(blanks, rest);
    assert(rest.subrange(0, quoted(value).len() as int) =~= quoted(value));
    assert(rest.skip(0) =~= rest);
    assert(trim_start(rest) == rest);
    lemma_quoted_is_read(rest, 0, value);
}

/// What a message means. A payload that is not text means nothing, nor does a
/// message on another topic than the three below the prefix. On config/set the
/// payload is handed on as it is; on position/set it is a position if it is a
/// number; on command it is one of five words.
pub proof fn law_what_messages_mean(prefix: Seq<char>, topic: Seq<char>, data: Seq<u8>)
    ensures
        ({
            let meant = routed(prefix, topic, data);
            let payload = decode_utf8(data);
            let base = prefix.push('/');
            let words = payload == "open"@ || payload == "close"@ || payload == "stop"@ || payload
                == "calibrate"@ || payload == "home"@;
            &&& !valid_utf8(data) ==> meant is None
            &&& topic != base + "config/set"@ && topic != base + "position/set"@ && topic != base
                + "command"@ ==> meant is None
            &&& valid_utf8(data) && topic == base + "config/set"@ ==> meant == Some(
                MqttCommandView::ConfigUpdate(payload),
            )
            &&& valid_utf8(data) && topic == base + "position/set"@ ==> {
                &&& parsed(payload) is Some ==> meant == Some(
                    MqttCommandView::Position(parsed(payload)->0),
                )
                &&& parsed(payload) is None ==> meant is None
            }
            &&& valid_utf8(data) && topic == base + "command"@ ==> {
                &&& payload == "open"@ ==> meant == Some(MqttCommandView::Open)
                &&& payload == "close"@ ==> meant == Some(MqttCommandView::Close)
                &&& payload == "stop"@ ==> meant == Some(MqttCommandView::Stop)
                &&& payload == "calibrate"@ ==> meant == Some(MqttCommandView::Calibrate)
                &&& payload == "home"@ ==> meant == Some(MqttCommandView::Home)
                &&& !words ==> meant is None
            }
        }),
{
    law_topics_are_below_the_prefix(prefix, "config/set"@);
    law_topics_are_below_the_prefix(prefix, "position/set"@);
    law_topics_are_below_the_prefix(prefix, "command"@);
    if routed(prefix, topic, data) is Some {
        law_only_subscribed_topics_command(prefix, topic, data);
    }
    law_announced_commands_are_understood(prefix, data);
    lemma_topics_differ();
    lemma_suffix(prefix, "position/set"@);
    lemma_suffix(prefix, "command"@);
}

/// A topic is the prefix, a slash and its name.
pub proof fn law_topics_are_below_the_prefix(prefix: Seq<char>, topic: Seq<char>)
    ensures
        topic_under(prefix, topic) == prefix.push('/') + topic,
{
    reveal_strlit("/");
    assert("/"@ =~= seq!['/']);
    assert(prefix + "/"@ =~= prefix.push('/'));
}

/// Keys and values, each value as it stands, as the text of an object.
pub open spec fn report(fields: Seq<(Seq<char>, Seq<char>)>) -> Seq<char> {
    seq!['{'] + report_members(fields) + seq!['}']
}

pub open spec fn report_members(fields: Seq<(Seq<char>, Seq<char>)>) -> Seq<char>
    decreases fields.len(),
{
    if fields.len() == 0 {
        seq![]
    } else {
        let member = quoted(fields.last().0) + seq![':'] + fields.last().1;
        if fields.len() == 1 {
            member
        } else {
            report_members(fields.drop_last()) + seq![','] + member
        }
    }
}

/// The published state is an object of five members: the state by its name, in
/// quotes, and the position, its percentage, the velocity and the power as numbers.
pub proof fn law_state_report(
    state: DoorState,
    position: int,
    pos_pct: int,
    velocity: Seq<char>,
    power: int,
)
    ensures
        state_json(state, position, pos_pct, velocity, power) == report(
            seq![
                ("state"@, quoted(state.name())),
                ("position"@, decimal(position)),
                ("pos_pct"@, decimal(pos_pct)),
                ("velocity"@, velocity),
                ("power"@, decimal(power)),
            ],
        ),
{
    let f1 = seq![("state"@, quoted(state.name()))];
    let f2 = f1.push(("position"@, decimal(position)));
    let f3 = f2.push(("pos_pct"@, decimal(pos_pct)));
    let f4 = f3.push(("velocity"@, velocity));
    let f5 = f4.push(("power"@, decimal(power)));
    assert(f5.drop_last() =~= f4 && f4.drop_last() =~= f3 && f3.drop_last() =~= f2
        && f2.drop_last() =~= f1);
    assert(f5 =~= seq![
        ("state"@, quoted(state.name())),
        ("position"@, decimal(position)),
        ("pos_pct"@, decimal(pos_pct)),
        ("velocity"@, velocity),
        ("power"@, decimal(power)),
    ]);
    reveal_strlit("state");
    reveal_strlit("position");
    reveal_strlit("pos_pct");
    reveal_strlit("velocity");
    reveal_strlit("power");
    reveal_strlit("{\"state\":\"");
    reveal_strlit("\",\"position\":");
    reveal_strlit(",\"pos_pct\":");
    reveal_strlit(",\"velocity\":");
    reveal_strlit(",\"power\":");
    reveal_strlit("}");
    assert("{\"state\":\""@ =~= seq!['{'] + quoted("state"@) + seq![':', '"']);
    assert("\",\"position\":"@ =~= seq!['"', ','] + quoted("position"@) + seq![':']);
    assert(",\"pos_pct\":"@ =~= seq![','] + quoted("pos_pct"@) + seq![':']);
    assert(",\"velocity\":"@ =~= seq![','] + quoted("velocity"@) + seq![':']);
    assert(",\"power\":"@ =~= seq![','] + quoted("power"@) + seq![':']);
    assert("}"@ =~= seq!['}']);
    let r1 = report_members(f1);
    let r2 = report_members(f2);
    let r3 = report_members(f3);
    let r4 = report_members(f4);
    let r5 = report_members(f5);
    assert(r1 == quoted("state"@) + seq![':'] + quoted(state.name()));
    assert(r2 == r1 + seq![','] + (quoted("position"@) + seq![':'] + decimal(position)));
    assert(r3 == r2 + seq![','] + (quoted("pos_pct"@) + seq![':'] + decimal(pos_pct)));
    assert(r4 == r3 + seq![','] + (quoted("velocity"@) + seq![':'] + velocity));
    assert(r5 == r4 + seq![','] + (quoted("power"@) + seq![':'] + decimal(power)));
    assert(state_json(state, position, pos_pct, velocity, power) =~= seq!['{'] + r5 + seq!['}']);
}

/// Each state is published under its own name, which is what the cover is told to
/// expect for the states that it knows.
pub proof fn law_state_names(state: DoorState)
    ensures
        state is Open <==> state.name() == "open"@,
        state is Closed <==> state.name() == "closed"@,
        state is Opening <==> state.name() == "opening"@,
        state is Closing <==> state.name() == "closing"@,
        state is Idle <==> state.name() == "idle"@,
        state is Stopping <==> state.name() == "stopping"@,
        state is Homing <==> state.name() == "homing"@,
        state is Calibrating <==> state.name() == "calibrating"@,
{
    reveal_strlit("open");
    reveal_strlit("closed");
    reveal_strlit("opening");
    reveal_strlit("closing");
    reveal_strlit("idle");
    reveal_strlit("stopping");
    reveal_strlit("homing");
    reveal_strlit("calibrating");
    assert("open"@.len() == 4 && "idle"@.len() == 4 && "closed"@.len() == 6 && "homing"@.len() == 6
        && "opening"@.len() == 7 && "closing"@.len() == 7 && "stopping"@.len() == 8
        && "calibrating"@.len() == 11);
    assert("open"@[0] == 'o' && "idle"@[0] == 'i' && "closed"@[0] == 'c' && "homing"@[0] == 'h'
        && "opening"@[0] == 'o' && "closing"@[0] == 'c');
}

// ── What is read of payloads ─────────────────────────────────────────────────

/// A string is what stands between the quote that text begins with and the next
/// one; text that does not begin with a quote, or has no other, is no string.
pub proof fn law_leading_string(s: Seq<char>, inner: Seq<char>, after: Seq<char>)
    requires
        forall|i: int| 0 <= i < inner.len() ==> inner[i] != '"',
    ensures
        leading_string(seq!['"'] + inner + seq!['"'] + after) == Some(inner),
        leading_string(seq!['"'] + inner) is None,
        s.len() == 0 || s[0] != '"' ==> leading_string(s) is None,
{
    let whole = seq!['"'] + inner + seq!['"'] + after;
    let n = inner.len() as int;
    assert forall|k: int| 1 <= k < n + 1 implies whole[k] != '"' by {
        assert(whole[k] == inner[k - 1]);
    }
    assert(whole[n + 1] == '"');
    lemma_find_char(whole, '"', 1, n + 1);
    assert(whole.subrange(1, n + 1) =~= inner);
    let open = seq!['"'] + inner;
    assert forall|k: int| 1 <= k < n + 1 implies open[k] != '"' by {
        assert(open[k] == inner[k - 1]);
    }
    lemma_find_char(open, '"', 1, n + 1);
}

proof fn lemma_find_no_text(s: Seq<char>, pattern: Seq<char>, from: int)
    requires
        forall|i: int| from <= i ==> !occurs_at(s, pattern, i),
    ensures
        find_text(s, pattern, from) is None,
    decreases s.len() + 1 - from,
{
    if from <= s.len() - pattern.len() {
        lemma_find_no_text(s, pattern, from + 1);
    }
}

/// In text that is not a flat object there is no value for a key that does not occur
/// in quotes, or behind whose first occurrence there is no colon.
pub proof fn law_other_text_without_value(text: Seq<char>, key: Seq<char>, at: int)
    requires
        flat_object(text) is None,
    ensures
        (forall|i: int| 0 <= i ==> !occurs_at(text, quoted(key), i)) ==> str_field(text, key) is None,
        occurs_at(text, quoted(key), at) && (forall|i: int|
            0 <= i < at ==> !occurs_at(text, quoted(key), i)) && (forall|k: int|
            at + key.len() + 2 <= k < text.len() ==> text[k] != ':') ==> str_field(
            text,
            key,
        ) is None,
{
    if forall|i: int| 0 <= i ==> !occurs_at(text, quoted(key), i) {
        lemma_find_no_text(text, quoted(key), 0);
    } else if occurs_at(text, quoted(key), at) && (forall|i: int|
        0 <= i < at ==> !occurs_at(text, quoted(key), i)) && (forall|k: int|
        at + key.len() + 2 <= k < text.len() ==> text[k] != ':') {
        lemma_find_text(text, quoted(key), 0, at);
        lemma_find_char(text, ':', at + quoted(key).len(), text.len() as int);
    }
}

// ── Discovery ────────────────────────────────────────────────────────────────

/// A key and a string for its value, as they stand in a payload.
pub open spec fn pair(key: Seq<char>, value: Seq<char>) -> Seq<char> {
    quoted(key) + seq![':'] + quoted(value)
}

/// Does the payload give this value for this key?
pub open spec fn announces(payload: Seq<char>, key: Seq<char>, value: Seq<char>) -> bool {
    exists|at: int| #[trigger] occurs_at(payload, pair(key, value), at)
}

/// A payload in which a value stands between a part that ends with its key and one
/// that begins with the quote behind it.
proof fn lemma_announces(
    payload: Seq<char>,
    head: Seq<char>,
    left: Seq<char>,
    key: Seq<char>,
    value: Seq<char>,
    right: Seq<char>,
)
    requires
        payload == head + left + value + right,
        left.len() >= key.len() + 4,
        left.skip(left.len() - key.len() - 4) == quoted(key) + seq![':', '"'],
        right.len() > 0,
        right[0] == '"',
    ensures
        announces(payload, key, value),
{
    let a = head + left.take(left.len() - key.len() - 4);
    let p = pair(key, value);
    let at = a.len() as int;
    assert(left =~= left.take(left.len() - key.len() - 4) + (quoted(key) + seq![':', '"']));
    assert(payload =~= a + p + right.skip(1));
    assert(payload.subrange(at, at + p.len()) =~= p);
    assert(occurs_at(payload, p, at));
}

/// The cover is announced with an identity of its own, and with the topics that the
/// state is published on and that commands and positions are taken from.
pub proof fn law_cover_is_announced(prefix: Seq<char>, id: Seq<char>)
    ensures
        ({
            let message = cover_discovery(prefix, id);
            let base = prefix.push('/');
            &&& message.topic == "homeassistant/cover/"@ + id + "/config"@
            &&& announces(message.payload, "unique_id"@, id + "_cover"@)
            &&& announces(message.payload, "state_topic"@, base + "state"@)
            &&& announces(message.payload, "position_topic"@, base + "state"@)
            &&& announces(message.payload, "set_position_topic"@, base + "position/set"@)
            &&& announces(message.payload, "command_topic"@, base + "command"@)
        }),
{
    let payload = cover_discovery(prefix, id).payload;
    let state = topic_under(prefix, TOPIC_STATE@);
    let position = topic_under(prefix, TOPIC_SET_POSITION@);
    let command = topic_under(prefix, TOPIC_COMMAND@);
    law_topics_are_below_the_prefix(prefix, "state"@);
    law_topics_are_below_the_prefix(prefix, "position/set"@);
    law_topics_are_below_the_prefix(prefix, "command"@);
    reveal_strlit("unique_id");
    reveal_strlit("_cover");
    reveal_strlit("state_topic");
    reveal_strlit("position_topic");
    reveal_strlit("set_position_topic");
    reveal_strlit("command_topic");
    reveal_strlit("{\n                \"name\":\"Sliding Door\",\n                \"unique_id\":\"");
    assert(COVER_ID@.skip(COVER_ID@.len() - "unique_id"@.len() - 4) =~= quoted("unique_id"@) + seq![':', '"']);
    reveal_strlit("_cover\",\n                \"device_class\":\"door\",\n                \"state_topic\":\"");
    assert(COVER_STATE@.skip(COVER_STATE@.len() - "state_topic"@.len() - 4) =~= quoted("state_topic"@) + seq![':', '"']);
    reveal_strlit("\",\n                \"value_template\":\"{{value_json.state}}\",\n                \"position_topic\":\"");
    assert(COVER_POSITION@.skip(COVER_POSITION@.len() - "position_topic"@.len() - 4) =~= quoted("position_topic"@) + seq![':', '"']);
    reveal_strlit("\",\n                \"position_template\":\"{{value_json.pos_pct}}\",\n                \"set_position_topic\":\"");
    assert(COVER_SET_POSITION@.skip(COVER_SET_POSITION@.len() - "set_position_topic"@.len() - 4) =~= quoted("set_position_topic"@) + seq![':', '"']);
    reveal_strlit("\",\n                \"command_topic\":\"");
    assert(COVER_COMMAND@.skip(COVER_COMMAND@.len() - "command_topic"@.len() - 4) =~= quoted("command_topic"@) + seq![':', '"']);
    reveal_strlit("\",\n                \"payload_open\":\"open\",\n                \"payload_close\":\"close\",\n                \"payload_stop\":\"stop\",\n                \"state_open\":\"open\",\n                \"state_closed\":\"closed\",\n                \"state_opening\":\"opening\",\n                \"state_closing\":\"closing\",\n                \"device\":");
    let tail6 = COVER_DEVICE@ + device_json(id) + OBJECT_END@;
    let tail5 = COVER_COMMAND@ + command + tail6;
    let tail4 = COVER_SET_POSITION@ + position + tail5;
    let tail3 = COVER_POSITION@ + state + tail4;
    let cut = COVER_STATE@.skip(6);
    assert(COVER_STATE@ =~= "_cover"@ + cut);
    assert(payload =~= seq![] + COVER_ID@ + (id + "_cover"@) + (cut + state + tail3));
    lemma_announces(
        payload,
        seq![],
        COVER_ID@,
        "unique_id"@,
        id + "_cover"@,
        cut + state + tail3,
    );
    let h2 = COVER_ID@ + id;
    assert(payload =~= h2 + COVER_STATE@ + state + tail3);
    lemma_announces(payload, h2, COVER_STATE@, "state_topic"@, state, tail3);
    let h3 = h2 + COVER_STATE@ + state;
    assert(payload =~= h3 + COVER_POSITION@ + state + tail4);
    lemma_announces(payload, h3, COVER_POSITION@, "position_topic"@, state, tail4);
    let h4 = h3 + COVER_POSITION@ + state;
    assert(payload =~= h4 + COVER_SET_POSITION@ + position + tail5);
    lemma_announces(payload, h4, COVER_SET_POSITION@, "set_position_topic"@, position, tail5);
    let h5 = h4 + COVER_SET_POSITION@ + position;
    assert(payload =~= h5 + COVER_COMMAND@ + command + tail6);
    lemma_announces(payload, h5, COVER_COMMAND@, "command_topic"@, command, tail6);
}

/// The buttons are announced, each with an identity of its own and with the topic
/// that commands are taken from.
pub proof fn law_buttons_are_announced(prefix: Seq<char>, id: Seq<char>)
    ensures
        ({
            let calibrate = calibrate_discovery(prefix, id);
            let home = home_discovery(prefix, id);
            let command = prefix.push('/') + "command"@;
            &&& calibrate.topic == "homeassistant/button/"@ + id + "_calibrate/config"@
            &&& announces(calibrate.payload, "unique_id"@, id + "_calibrate"@)
            &&& announces(calibrate.payload, "command_topic"@, command)
            &&& home.topic == "homeassistant/button/"@ + id + "_home/config"@
            &&& announces(home.payload, "unique_id"@, id + "_home"@)
            &&& announces(home.payload, "command_topic"@, command)
        }),
{
    let command = topic_under(prefix, TOPIC_COMMAND@);
    law_topics_are_below_the_prefix(prefix, "command"@);
    reveal_strlit("unique_id");
    reveal_strlit("command_topic");
    reveal_strlit("_calibrate");
    reveal_strlit("_home");
    reveal_strlit("{\n                \"name\":\"Calibrate Door\",\n                \"unique_id\":\"");
    assert(CALIBRATE_ID@.skip(CALIBRATE_ID@.len() - "unique_id"@.len() - 4) =~= quoted("unique_id"@) + seq![':', '"']);
    reveal_strlit("_calibrate\",\n                \"command_topic\":\"");
    assert(CALIBRATE_COMMAND@.skip(CALIBRATE_COMMAND@.len() - "command_topic"@.len() - 4) =~= quoted("command_topic"@) + seq![':', '"']);
    reveal_strlit("\",\n                \"payload_press\":\"calibrate\",\n                \"entity_category\":\"config\",\n                \"device\":");
    reveal_strlit("{\n                \"name\":\"Home Door\",\n                \"unique_id\":\"");
    assert(HOME_ID@.skip(HOME_ID@.len() - "unique_id"@.len() - 4) =~= quoted("unique_id"@) + seq![':', '"']);
    reveal_strlit("_home\",\n                \"command_topic\":\"");
    assert(HOME_COMMAND@.skip(HOME_COMMAND@.len() - "command_topic"@.len() - 4) =~= quoted("command_topic"@) + seq![':', '"']);
    reveal_strlit("\",\n                \"payload_press\":\"home\",\n                \"entity_category\":\"config\",\n                \"device\":");
    let c = calibrate_discovery(prefix, id).payload;
    let c_tail = CALIBRATE_DEVICE@ + device_json(id) + OBJECT_END@;
    let c_cut = CALIBRATE_COMMAND@.skip(10);
    assert(CALIBRATE_COMMAND@ =~= "_calibrate"@ + c_cut);
    assert(c =~= seq![] + CALIBRATE_ID@ + (id + "_calibrate"@) + (c_cut + command + c_tail));
    lemma_announces(
        c,
        seq![],
        CALIBRATE_ID@,
        "unique_id"@,
        id + "_calibrate"@,
        c_cut + command + c_tail,
    );
    assert(c =~= (CALIBRATE_ID@ + id) + CALIBRATE_COMMAND@ + command + c_tail);
    lemma_announces(
        c,
        CALIBRATE_ID@ + id,
        CALIBRATE_COMMAND@,
        "command_topic"@,
        command,
        c_tail,
    );
    let h = home_discovery(prefix, id).payload;
    let h_tail = HOME_DEVICE@ + device_json(id) + OBJECT_END@;
    let h_cut = HOME_COMMAND@.skip(5);
    assert(HOME_COMMAND@ =~= "_home"@ + h_cut);
    assert(h =~= seq![] + HOME_ID@ + (id + "_home"@) + (h_cut + command + h_tail));
    lemma_announces(
        h,
        seq![],
        HOME_ID@,
        "unique_id"@,
        id + "_home"@,
        h_cut + command + h_tail,
    );
    assert(h =~= (HOME_ID@ + id) + HOME_COMMAND@ + command + h_tail);
    lemma_announces(h, HOME_ID@ + id, HOME_COMMAND@, "command_topic"@, command, h_tail);
}

} // verus!
