//! Tuning constants and device configuration.

use vstd::prelude::*;
use vstd::utf8::encode_utf8;

use crate::text::same;

verus! {

/// Build-time tuning of the door's control loop.
#[derive(Clone, Copy, Debug)]
pub struct Tuning {
    /// Positions count down toward open, and the motor runs the other way round.
    pub invert_direction: bool,
    /// Stall into the physical stop after closing, to correct encoder drift.
    pub close_homing: bool,
    /// Motion of at most this many counts per tick is standing still.
    pub dead_zone: i32,
    /// Positions within this many counts of zero are closed.
    pub closed_threshold: i32,
    /// Distance to the target below which the drive slows down.
    pub ramp_down_counts: i32,
    /// Motor output while homing and calibrating.
    pub calibrate_power: i32,
    /// No-motion ticks that make a stall while driving or homing.
    pub stall_ticks: u32,
    /// Ticks after a target is set during which stalls are not counted.
    pub stall_grace_ticks: u32,
    /// Quiet ticks after which a stopping door counts as stopped.
    pub settle_ticks: u32,
    /// Ticks for which assist stays disarmed after an obstacle.
    pub assist_lockout_ticks: u32,
    /// No-motion ticks that make a stall while calibrating.
    pub calibration_stall_ticks: u32,
    /// Ticks to wait at the closed endstop before driving open.
    pub calibration_pause_ticks: u32,
    /// Ticks after which homing, or one leg of calibration, gives up.
    pub calibration_timeout_ticks: u32,
    /// Time without motion after which the motor is put to sleep.
    pub idle_timeout_ms: u64,
    /// Time between two ticks.
    pub loop_period_ms: u64,
}

impl Tuning {
    /// The counts and outputs that get negated can be.
    pub open spec fn wf(self) -> bool {
        &&& self.closed_threshold > i32::MIN
        &&& self.calibrate_power > i32::MIN
    }

    /// A count or an output, turned so that positive is toward open.
    pub open spec fn outward(self, n: int) -> int {
        if self.invert_direction {
            -n
        } else {
            n
        }
    }

    /// 1 where positions count up toward open, -1 where they count down.
    pub fn dir(&self) -> (dir: i32)
        ensures
            dir == self.outward(1),
    {
        if self.invert_direction {
            -1
        } else {
            1
        }
    }

    /// `n` times the direction.
    pub fn turned(&self, n: i32) -> (turned: i32)
        requires
            n > i32::MIN,
        ensures
            turned == self.outward(n as int),
    {
        if self.invert_direction {
            -n
        } else {
            n
        }
    }
}

// ── Device configuration ─────────────────────────────────────────────────────

/// Keys under which the configuration is kept in non-volatile storage.
pub const KEY_WIFI_SSID: &'static str = "wifi_ssid";

pub const KEY_WIFI_PASSWORD: &'static str = "wifi_pass";

pub const KEY_MQTT_BROKER: &'static str = "mqtt_broker";

pub const KEY_MQTT_CLIENT_ID: &'static str = "mqtt_id";

pub const KEY_MQTT_USERNAME: &'static str = "mqtt_user";

pub const KEY_MQTT_PASSWORD: &'static str = "mqtt_pass";

pub const KEY_OPENING_COUNTS: &'static str = "opening_counts";

/// A value in non-volatile storage.
#[derive(Debug)]
pub enum NvsValue {
    Text(String),
    Int(i32),
}

/// [`NvsValue`], with text as characters.
pub enum NvsValueView {
    Text(Seq<char>),
    Int(i32),
}

impl View for NvsValue {
    type V = NvsValueView;

    open spec fn view(&self) -> NvsValueView {
        match self {
            NvsValue::Text(s) => NvsValueView::Text(s@),
            NvsValue::Int(n) => NvsValueView::Int(*n),
        }
    }
}

/// A key of non-volatile storage with a value that was read or is to be written.
#[derive(Debug)]
pub struct NvsEntry {
    pub key: &'static str,
    pub value: NvsValue,
}

/// What non-volatile storage holds.
pub type NvsStore = Map<Seq<char>, NvsValueView>;

/// The store once all of `entries` are written to it, front to back.
pub open spec fn written(store: NvsStore, entries: Seq<NvsEntry>) -> NvsStore
    decreases entries.len(),
{
    if entries.len() == 0 {
        store
    } else {
        written(store, entries.drop_last()).insert(entries.last().key@, entries.last().value@)
    }
}

/// The store that consists of `entries`.
pub open spec fn contents(entries: Seq<NvsEntry>) -> NvsStore {
    written(Map::empty(), entries)
}

/// Entries under other keys do not matter.
proof fn lemma_other_keys(store: NvsStore, entries: Seq<NvsEntry>, n: int, key: Seq<char>)
    requires
        0 <= n <= entries.len(),
        forall|i: int| n <= i < entries.len() ==> (#[trigger] entries[i]).key@ != key,
    ensures
        written(store, entries).contains_key(key) == written(store, entries.take(n)).contains_key(
            key,
        ),
        written(store, entries)[key] == written(store, entries.take(n))[key],
    decreases entries.len(),
{
    if n == entries.len() {
        assert(entries.take(n) =~= entries);
    } else {
        assert(entries.drop_last().take(n) =~= entries.take(n));
        assert(entries[entries.len() - 1].key@ != key);
        lemma_other_keys(store, entries.drop_last(), n, key);
    }
}

/// Size of the buffer that text is read into, with a byte for its terminator.
pub const TEXT_BUFFER_BYTES: usize = 128;

/// Does `s` fit in the buffer?
pub open spec fn fits(s: Seq<char>) -> bool {
    encode_utf8(s).len() < TEXT_BUFFER_BYTES
}

/// Text that is empty, or does not fit in the buffer, counts as missing.
pub open spec fn readable(s: Seq<char>) -> bool {
    s.len() > 0 && fits(s)
}

/// The text under `key` in `store`, unless it is missing or not readable.
pub open spec fn stored_text(store: NvsStore, key: Seq<char>) -> Option<Seq<char>> {
    if store.contains_key(key) {
        match store[key] {
            NvsValueView::Text(s) => if readable(s) {
                Some(s)
            } else {
                None
            },
            NvsValueView::Int(_) => None,
        }
    } else {
        None
    }
}

pub open spec fn text_or(store: NvsStore, key: Seq<char>, fallback: Seq<char>) -> Seq<char> {
    match stored_text(store, key) {
        Some(s) => s,
        None => fallback,
    }
}

pub open spec fn int_or(store: NvsStore, key: Seq<char>, fallback: i32) -> i32 {
    if store.contains_key(key) {
        match store[key] {
            NvsValueView::Int(n) => n,
            NvsValueView::Text(_) => fallback,
        }
    } else {
        fallback
    }
}

/// The value last written under `key`.
fn latest<'a>(entries: &'a Vec<NvsEntry>, key: &str) -> (value: Option<&'a NvsValue>)
    ensures
        value is Some <==> contents(entries@).contains_key(key@),
        value matches Some(v) ==> contents(entries@)[key@] == v@,
{
    let mut i: usize = entries.len();
    while i > 0
        invariant
            i <= entries@.len(),
            forall|k: int| i <= k < entries@.len() ==> (#[trigger] entries@[k]).key@ != key@,
        decreases i,
    {
        if same(entries[i - 1].key, key) {
            proof {
                lemma_other_keys(Map::empty(), entries@, i as int, key@);
                assert(entries@.take(i as int).last() == entries@[i - 1]);
            }
            return Some(&entries[i - 1].value);
        }
        i = i - 1;
    }
    proof {
        lemma_other_keys(Map::empty(), entries@, 0, key@);
        assert(entries@.take(0) =~= seq![]);
    }
    None
}

fn read_string(entries: &Vec<NvsEntry>, key: &str, fallback: &String) -> (s: String)
    ensures
        s@ == text_or(contents(entries@), key@, fallback@),
{
    match latest(entries, key) {
        Some(NvsValue::Text(s)) => if s.as_str().is_empty() || s.as_str().as_bytes().len()
            >= TEXT_BUFFER_BYTES {
            fallback.clone()
        } else {
            s.clone()
        },
        _ => fallback.clone(),
    }
}

fn read_i32(entries: &Vec<NvsEntry>, key: &str, fallback: i32) -> (n: i32)
    ensures
        n == int_or(contents(entries@), key@, fallback),
{
    match latest(entries, key) {
        Some(NvsValue::Int(n)) => *n,
        _ => fallback,
    }
}

/// Defaults compiled into the firmware, where there are any.
#[derive(Clone, Copy, Debug)]
pub struct Secrets {
    pub wifi_ssid: Option<&'static str>,
    pub wifi_password: Option<&'static str>,
    pub mqtt_broker: Option<&'static str>,
    pub mqtt_client_id: Option<&'static str>,
    pub mqtt_username: Option<&'static str>,
    pub mqtt_password: Option<&'static str>,
}

/// Device configuration.
#[derive(Debug)]
pub struct Config {
    pub wifi_ssid: String,
    pub wifi_password: String,
    /// For example "mqtt://192.168.1.100:1883".
    pub mqtt_broker: String,
    pub mqtt_client_id: String,
    /// Empty for no authentication.
    pub mqtt_username: String,
    pub mqtt_password: String,
    pub opening_counts: i32,
}

/// [`Config`], with text as characters.
#[verifier::ext_equal]
pub struct ConfigView {
    pub wifi_ssid: Seq<char>,
    pub wifi_password: Seq<char>,
    pub mqtt_broker: Seq<char>,
    pub mqtt_client_id: Seq<char>,
    pub mqtt_username: Seq<char>,
    pub mqtt_password: Seq<char>,
    pub opening_counts: i32,
}

impl View for Config {
    type V = ConfigView;

    open spec fn view(&self) -> ConfigView {
        ConfigView {
            wifi_ssid: self.wifi_ssid@,
            wifi_password: self.wifi_password@,
            mqtt_broker: self.mqtt_broker@,
            mqtt_client_id: self.mqtt_client_id@,
            mqtt_username: self.mqtt_username@,
            mqtt_password: self.mqtt_password@,
            opening_counts: self.opening_counts,
        }
    }
}

impl Clone for Config {
    fn clone(&self) -> (config: Self)
        ensures
            config@ == self@,
    {
        Config {
            wifi_ssid: self.wifi_ssid.clone(),
            wifi_password: self.wifi_password.clone(),
            mqtt_broker: self.mqtt_broker.clone(),
            mqtt_client_id: self.mqtt_client_id.clone(),
            mqtt_username: self.mqtt_username.clone(),
            mqtt_password: self.mqtt_password.clone(),
            opening_counts: self.opening_counts,
        }
    }
}

/// The text of a compiled-in default, empty if there is none.
pub open spec fn secret(s: Option<&'static str>) -> Seq<char> {
    match s {
        Some(s) => s@,
        None => seq![],
    }
}

fn secret_or_empty(s: Option<&'static str>) -> (text: String)
    ensures
        text@ == secret(s),
{
    match s {
        Some(s) => s.to_owned(),
        None => String::new(),
    }
}

impl ConfigView {
    /// What `store` holds, with `defaults` for whatever it lacks.
    pub open spec fn load(store: NvsStore, defaults: ConfigView) -> ConfigView {
        ConfigView {
            wifi_ssid: text_or(store, KEY_WIFI_SSID@, defaults.wifi_ssid),
            wifi_password: text_or(store, KEY_WIFI_PASSWORD@, defaults.wifi_password),
            mqtt_broker: text_or(store, KEY_MQTT_BROKER@, defaults.mqtt_broker),
            mqtt_client_id: text_or(store, KEY_MQTT_CLIENT_ID@, defaults.mqtt_client_id),
            mqtt_username: text_or(store, KEY_MQTT_USERNAME@, defaults.mqtt_username),
            mqtt_password: text_or(store, KEY_MQTT_PASSWORD@, defaults.mqtt_password),
            opening_counts: int_or(store, KEY_OPENING_COUNTS@, defaults.opening_counts),
        }
    }

    /// `store` once the configuration is saved in it.
    pub open spec fn saved(self, store: NvsStore) -> NvsStore {
        store.insert(KEY_WIFI_SSID@, NvsValueView::Text(self.wifi_ssid)).insert(
            KEY_WIFI_PASSWORD@,
            NvsValueView::Text(self.wifi_password),
        ).insert(KEY_MQTT_BROKER@, NvsValueView::Text(self.mqtt_broker)).insert(
            KEY_MQTT_CLIENT_ID@,
            NvsValueView::Text(self.mqtt_client_id),
        ).insert(KEY_MQTT_USERNAME@, NvsValueView::Text(self.mqtt_username)).insert(
            KEY_MQTT_PASSWORD@,
            NvsValueView::Text(self.mqtt_password),
        ).insert(KEY_OPENING_COUNTS@, NvsValueView::Int(self.opening_counts))
    }

    /// The configuration with `defaults` in place of text that is not readable.
    pub open spec fn filled(self, defaults: ConfigView) -> ConfigView {
        let or = |s: Seq<char>, fallback: Seq<char>|
            if readable(s) {
                s
            } else {
                fallback
            };
        ConfigView {
            wifi_ssid: or(self.wifi_ssid, defaults.wifi_ssid),
            wifi_password: or(self.wifi_password, defaults.wifi_password),
            mqtt_broker: or(self.mqtt_broker, defaults.mqtt_broker),
            mqtt_client_id: or(self.mqtt_client_id, defaults.mqtt_client_id),
            mqtt_username: or(self.mqtt_username, defaults.mqtt_username),
            mqtt_password: or(self.mqtt_password, defaults.mqtt_password),
            opening_counts: self.opening_counts,
        }
    }
}

impl Config {
    /// The configuration of a device in which nothing is stored.
    pub fn with_secrets(secrets: &Secrets) -> (config: Self)
        ensures
            config@ == (ConfigView {
                wifi_ssid: secret(secrets.wifi_ssid),
                wifi_password: secret(secrets.wifi_password),
                mqtt_broker: secret(secrets.mqtt_broker),
                mqtt_client_id: secret(secrets.mqtt_client_id),
                mqtt_username: secret(secrets.mqtt_username),
                mqtt_password: secret(secrets.mqtt_password),
                opening_counts: 0,
            }),
    {
        Config {
            wifi_ssid: secret_or_empty(secrets.wifi_ssid),
            wifi_password: secret_or_empty(secrets.wifi_password),
            mqtt_broker: secret_or_empty(secrets.mqtt_broker),
            mqtt_client_id: secret_or_empty(secrets.mqtt_client_id),
            mqtt_username: secret_or_empty(secrets.mqtt_username),
            mqtt_password: secret_or_empty(secrets.mqtt_password),
            opening_counts: 0,
        }
    }

    /// Take all fields from what was read of non-volatile storage, falling back
    /// to `defaults` for keys that are missing, and for text that is empty or too
    /// long for the buffer.
    pub fn load(entries: &Vec<NvsEntry>, defaults: &Config) -> (config: Self)
        ensures
            config@ == ConfigView::load(contents(entries@), defaults@),
    {
        Config {
            wifi_ssid: read_string(entries, KEY_WIFI_SSID, &defaults.wifi_ssid),
            wifi_password: read_string(entries, KEY_WIFI_PASSWORD, &defaults.wifi_password),
            mqtt_broker: read_string(entries, KEY_MQTT_BROKER, &defaults.mqtt_broker),
            mqtt_client_id: read_string(entries, KEY_MQTT_CLIENT_ID, &defaults.mqtt_client_id),
            mqtt_username: read_string(entries, KEY_MQTT_USERNAME, &defaults.mqtt_username),
            mqtt_password: read_string(entries, KEY_MQTT_PASSWORD, &defaults.mqtt_password),
            opening_counts: read_i32(entries, KEY_OPENING_COUNTS, defaults.opening_counts),
        }
    }

    /// The writes that persist all fields, in the order in which they are made.
    pub fn save(&self) -> (entries: Vec<NvsEntry>)
        ensures
            forall|store: NvsStore| #[trigger] written(store, entries@) == self@.saved(store),
            in_key_order(entries@),
    {
        let mut entries: Vec<NvsEntry> = Vec::new();
        entries.push(text_entry(KEY_WIFI_SSID, &self.wifi_ssid));
        let ghost e1 = entries@;
        entries.push(text_entry(KEY_WIFI_PASSWORD, &self.wifi_password));
        let ghost e2 = entries@;
        entries.push(text_entry(KEY_MQTT_BROKER, &self.mqtt_broker));
        let ghost e3 = entries@;
        entries.push(text_entry(KEY_MQTT_CLIENT_ID, &self.mqtt_client_id));
        let ghost e4 = entries@;
        entries.push(text_entry(KEY_MQTT_USERNAME, &self.mqtt_username));
        let ghost e5 = entries@;
        entries.push(text_entry(KEY_MQTT_PASSWORD, &self.mqtt_password));
        let ghost e6 = entries@;
        entries.push(
            NvsEntry { key: KEY_OPENING_COUNTS, value: NvsValue::Int(self.opening_counts) },
        );
        proof {
            reveal_with_fuel(written, 2);
            assert(entries@.drop_last() =~= e6);
            assert(e6.drop_last() =~= e5);
            assert(e5.drop_last() =~= e4);
            assert(e4.drop_last() =~= e3);
            assert(e3.drop_last() =~= e2);
            assert(e2.drop_last() =~= e1);
            assert(e1.drop_last() =~= seq![]);
            assert forall|store: NvsStore| #[trigger]
                written(store, entries@) == self@.saved(store) by {
                assert(written(store, e1) =~= store.insert(e1[0].key@, e1[0].value@));
                assert(written(store, e2) == written(store, e1).insert(e2[1].key@, e2[1].value@));
                assert(written(store, e3) == written(store, e2).insert(e3[2].key@, e3[2].value@));
                assert(written(store, e4) == written(store, e3).insert(e4[3].key@, e4[3].value@));
                assert(written(store, e5) == written(store, e4).insert(e5[4].key@, e5[4].value@));
                assert(written(store, e6) == written(store, e5).insert(e6[5].key@, e6[5].value@));
            }
        }
        entries
    }

    /// The keys to remove for a factory reset: all that are ever written.
    pub fn erase() -> (keys: [&'static str; 7])
        ensures
            keys@ == config_keys(),
    {
        [
            KEY_WIFI_SSID,
            KEY_WIFI_PASSWORD,
            KEY_MQTT_BROKER,
            KEY_MQTT_CLIENT_ID,
            KEY_MQTT_USERNAME,
            KEY_MQTT_PASSWORD,
            KEY_OPENING_COUNTS,
        ]
    }
}

/// All keys of the configuration.
pub open spec fn config_keys() -> Seq<&'static str> {
    seq![
        KEY_WIFI_SSID,
        KEY_WIFI_PASSWORD,
        KEY_MQTT_BROKER,
        KEY_MQTT_CLIENT_ID,
        KEY_MQTT_USERNAME,
        KEY_MQTT_PASSWORD,
        KEY_OPENING_COUNTS,
    ]
}

/// One entry for each key of the configuration, in their order.
pub open spec fn in_key_order(entries: Seq<NvsEntry>) -> bool {
    &&& entries.len() == config_keys().len()
    &&& forall|i: int| 0 <= i < entries.len() ==> (#[trigger] entries[i]).key == config_keys()[i]
}

fn text_entry(key: &'static str, text: &String) -> (entry: NvsEntry)
    ensures
        entry.key == key,
        entry.value@ == NvsValueView::Text(text@),
{
    NvsEntry { key, value: NvsValue::Text(text.clone()) }
}

/// The store once all of `keys` are removed from it.
pub open spec fn removed(store: NvsStore, keys: Seq<&'static str>) -> NvsStore
    decreases keys.len(),
{
    if keys.len() == 0 {
        store
    } else {
        removed(store, keys.drop_last()).remove(keys.last()@)
    }
}

// ── Laws ─────────────────────────────────────────────────────────────────────

/// No two keys of the configuration are the same.
proof fn lemma_keys_differ()
    ensures
        KEY_WIFI_SSID@ != KEY_WIFI_PASSWORD@,
        KEY_WIFI_SSID@ != KEY_MQTT_BROKER@,
        KEY_WIFI_SSID@ != KEY_MQTT_CLIENT_ID@,
        KEY_WIFI_SSID@ != KEY_MQTT_USERNAME@,
        KEY_WIFI_SSID@ != KEY_MQTT_PASSWORD@,
        KEY_WIFI_SSID@ != KEY_OPENING_COUNTS@,
        KEY_WIFI_PASSWORD@ != KEY_MQTT_BROKER@,
        KEY_WIFI_PASSWORD@ != KEY_MQTT_CLIENT_ID@,
        KEY_WIFI_PASSWORD@ != KEY_MQTT_USERNAME@,
        KEY_WIFI_PASSWORD@ != KEY_MQTT_PASSWORD@,
        KEY_WIFI_PASSWORD@ != KEY_OPENING_COUNTS@,
        KEY_MQTT_BROKER@ != KEY_MQTT_CLIENT_ID@,
        KEY_MQTT_BROKER@ != KEY_MQTT_USERNAME@,
        KEY_MQTT_BROKER@ != KEY_MQTT_PASSWORD@,
        KEY_MQTT_BROKER@ != KEY_OPENING_COUNTS@,
        KEY_MQTT_CLIENT_ID@ != KEY_MQTT_USERNAME@,
        KEY_MQTT_CLIENT_ID@ != KEY_MQTT_PASSWORD@,
        KEY_MQTT_CLIENT_ID@ != KEY_OPENING_COUNTS@,
        KEY_MQTT_USERNAME@ != KEY_MQTT_PASSWORD@,
        KEY_MQTT_USERNAME@ != KEY_OPENING_COUNTS@,
        KEY_MQTT_PASSWORD@ != KEY_OPENING_COUNTS@,
{
    reveal_strlit("wifi_ssid");
    reveal_strlit("wifi_pass");
    reveal_strlit("mqtt_broker");
    reveal_strlit("mqtt_id");
    reveal_strlit("mqtt_user");
    reveal_strlit("mqtt_pass");
    reveal_strlit("opening_counts");
    assert("mqtt_broker"@.len() == 11 && "mqtt_id"@.len() == 7 && "opening_counts"@.len() == 14);
    assert("wifi_ssid"@.len() == 9 && "wifi_pass"@.len() == 9 && "mqtt_user"@.len() == 9
        && "mqtt_pass"@.len() == 9);
    assert("wifi_ssid"@[5] == 's' && "wifi_pass"@[5] == 'p' && "mqtt_pass"@[5] == 'p'
        && "mqtt_user"@[5] == 'u');
    assert("wifi_ssid"@[0] == 'w' && "wifi_pass"@[0] == 'w' && "mqtt_pass"@[0] == 'm'
        && "mqtt_user"@[0] == 'm');
}

/// Removing keys keeps exactly what is stored under other keys.
proof fn lemma_removed(store: NvsStore, keys: Seq<&'static str>, key: Seq<char>)
    ensures
        removed(store, keys).contains_key(key) <==> store.contains_key(key) && forall|i: int|
            0 <= i < keys.len() ==> (#[trigger] keys[i])@ != key,
        removed(store, keys).contains_key(key) ==> removed(store, keys)[key] == store[key],
    decreases keys.len(),
{
    if keys.len() > 0 {
        lemma_removed(store, keys.drop_last(), key);
        assert(forall|i: int|
            0 <= i < keys.len() - 1 ==> keys.drop_last()[i] == #[trigger] keys[i]);
        assert(keys[keys.len() - 1] == keys.last());
    }
}

/// A configuration that was saved is loaded back, with the defaults in place of
/// text that is empty or too long, whatever the store held before.
pub proof fn law_load_after_save(config: ConfigView, store: NvsStore, defaults: ConfigView)
    ensures
        ConfigView::load(config.saved(store), defaults) == config.filled(defaults),
{
    lemma_keys_differ();
}

/// Saving leaves everything else in the store alone.
pub proof fn law_save_keeps_other_keys(config: ConfigView, store: NvsStore, key: Seq<char>)
    requires
        forall|i: int| 0 <= i < 7 ==> (#[trigger] config_keys()[i])@ != key,
    ensures
        config.saved(store).contains_key(key) == store.contains_key(key),
        config.saved(store)[key] == store[key],
{
    let k = config_keys();
    assert(k[0]@ != key && k[1]@ != key && k[2]@ != key && k[3]@ != key && k[4]@ != key && k[5]@
        != key && k[6]@ != key);
}

/// After a factory reset only the defaults are left, and nothing of what was
/// saved before can be found.
pub proof fn law_erase_restores_defaults(
    config: ConfigView,
    store: NvsStore,
    defaults: ConfigView,
)
    ensures
        ConfigView::load(removed(store, config_keys()), defaults) == defaults,
        removed(config.saved(store), config_keys()) == removed(store, config_keys()),
{
    let k = config_keys();
    assert forall|i: int| 0 <= i < 7 implies !removed(store, k).contains_key(
        (#[trigger] k[i])@,
    ) by {
        lemma_removed(store, k, k[i]@);
    }
    assert(!removed(store, k).contains_key(k[0]@) && !removed(store, k).contains_key(k[1]@)
        && !removed(store, k).contains_key(k[2]@) && !removed(store, k).contains_key(k[3]@)
        && !removed(store, k).contains_key(k[4]@) && !removed(store, k).contains_key(k[5]@)
        && !removed(store, k).contains_key(k[6]@));
    let a = removed(config.saved(store), k);
    let b = removed(store, k);
    assert forall|key: Seq<char>|
        a.dom().contains(key) == #[trigger] b.dom().contains(key) && (a.dom().contains(key)
            ==> a[key] == b[key]) by {
        lemma_removed(store, k, key);
        lemma_removed(config.saved(store), k, key);
        if forall|i: int| 0 <= i < k.len() ==> (#[trigger] k[i])@ != key {
            law_save_keeps_other_keys(config, store, key);
        }
    }
    assert(a =~= b);
}

/// The text that is read under `key`: what is stored there, if it is text that is
/// neither empty nor longer than the 127 bytes that fit beside a terminator.
pub open spec fn read_back(store: NvsStore, key: Seq<char>, otherwise: Seq<char>) -> Seq<char> {
    if store.dom().contains(key) && store[key] is Text && store[key]->Text_0.len() != 0
        && encode_utf8(store[key]->Text_0).len() <= 127 {
        store[key]->Text_0
    } else {
        otherwise
    }
}

/// Each field is loaded from the key it is stored under, and falls back on the
/// default for the same field.
pub proof fn law_fields_are_loaded(store: NvsStore, defaults: ConfigView)
    ensures
        ({
            let config = ConfigView::load(store, defaults);
            &&& config.wifi_ssid == read_back(store, "wifi_ssid"@, defaults.wifi_ssid)
            &&& config.wifi_password == read_back(store, "wifi_pass"@, defaults.wifi_password)
            &&& config.mqtt_broker == read_back(store, "mqtt_broker"@, defaults.mqtt_broker)
            &&& config.mqtt_client_id == read_back(store, "mqtt_id"@, defaults.mqtt_client_id)
            &&& config.mqtt_username == read_back(store, "mqtt_user"@, defaults.mqtt_username)
            &&& config.mqtt_password == read_back(store, "mqtt_pass"@, defaults.mqtt_password)
            &&& store.dom().contains("opening_counts"@) && store["opening_counts"@] is Int
                ==> config.opening_counts == store["opening_counts"@]->Int_0
            &&& !(store.dom().contains("opening_counts"@) && store["opening_counts"@] is Int)
                ==> config.opening_counts == defaults.opening_counts
        }),
{
}

/// Each field is stored under its key, whatever was there before.
pub proof fn law_fields_are_saved(config: ConfigView, store: NvsStore)
    ensures
        ({
            let after = config.saved(store);
            &&& after.dom() == store.dom().insert("wifi_ssid"@).insert("wifi_pass"@).insert(
                "mqtt_broker"@,
            ).insert("mqtt_id"@).insert("mqtt_user"@).insert("mqtt_pass"@).insert(
                "opening_counts"@,
            )
            &&& after["wifi_ssid"@] == NvsValueView::Text(config.wifi_ssid)
            &&& after["wifi_pass"@] == NvsValueView::Text(config.wifi_password)
            &&& after["mqtt_broker"@] == NvsValueView::Text(config.mqtt_broker)
            &&& after["mqtt_id"@] == NvsValueView::Text(config.mqtt_client_id)
            &&& after["mqtt_user"@] == NvsValueView::Text(config.mqtt_username)
            &&& after["mqtt_pass"@] == NvsValueView::Text(config.mqtt_password)
            &&& after["opening_counts"@] == NvsValueView::Int(config.opening_counts)
        }),
{
    lemma_keys_differ();
}

/// What a device saves it comes up with again: every text of up to 127 bytes that
/// is not empty, and the opening, whatever was stored before and whatever the
/// defaults are.
pub proof fn law_restart_keeps_config(config: ConfigView, store: NvsStore, defaults: ConfigView)
    ensures
        ({
            let after = ConfigView::load(config.saved(store), defaults);
            let kept = |old_text: Seq<char>, new_text: Seq<char>, fallback: Seq<char>|
                {
                    &&& 0 < old_text.len() && encode_utf8(old_text).len() <= 127 ==> new_text
                        == old_text
                    &&& old_text.len() == 0 || encode_utf8(old_text).len() > 127 ==> new_text
                        == fallback
                };
            &&& kept(config.wifi_ssid, after.wifi_ssid, defaults.wifi_ssid)
            &&& kept(config.wifi_password, after.wifi_password, defaults.wifi_password)
            &&& kept(config.mqtt_broker, after.mqtt_broker, defaults.mqtt_broker)
            &&& kept(config.mqtt_client_id, after.mqtt_client_id, defaults.mqtt_client_id)
            &&& kept(config.mqtt_username, after.mqtt_username, defaults.mqtt_username)
            &&& kept(config.mqtt_password, after.mqtt_password, defaults.mqtt_password)
            &&& after.opening_counts == config.opening_counts
        }),
{
    lemma_keys_differ();
}

/// Writes are made front to back: each one replaces what is under its key and
/// leaves the rest.
pub proof fn law_writes_are_made_in_order(store: NvsStore, entries: Seq<NvsEntry>, entry: NvsEntry)
    ensures
        written(store, seq![]) == store,
        written(store, entries.push(entry)) == written(store, entries).insert(
            entry.key@,
            entry.value@,
        ),
        contents(entries.push(entry))[entry.key@] == entry.value@,
        contents(seq![]) == Map::<Seq<char>, NvsValueView>::empty(),
{
    assert(entries.push(entry).drop_last() =~= entries);
}

/// A factory reset removes all that a device ever saves, and nothing else.
pub proof fn law_reset_removes_config(store: NvsStore, key: Seq<char>)
    ensures
        ({
            let ours = key == "wifi_ssid"@ || key == "wifi_pass"@ || key == "mqtt_broker"@ || key
                == "mqtt_id"@ || key == "mqtt_user"@ || key == "mqtt_pass"@ || key
                == "opening_counts"@;
            let after = removed(store, config_keys());
            &&& ours ==> !after.dom().contains(key)
            &&& !ours ==> after.dom().contains(key) == store.dom().contains(key)
            &&& !ours && store.dom().contains(key) ==> after[key] == store[key]
        }),
{
    lemma_removed(store, config_keys(), key);
    let k = config_keys();
    assert(k[0]@ == "wifi_ssid"@ && k[1]@ == "wifi_pass"@ && k[2]@ == "mqtt_broker"@ && k[3]@
        == "mqtt_id"@ && k[4]@ == "mqtt_user"@ && k[5]@ == "mqtt_pass"@ && k[6]@
        == "opening_counts"@);
}

/// Writes in key order are seven: the texts, and then the opening.
pub proof fn law_key_order(entries: Seq<NvsEntry>)
    requires
        in_key_order(entries),
    ensures
        entries.len() == 7,
        entries[0].key@ == "wifi_ssid"@,
        entries[1].key@ == "wifi_pass"@,
        entries[2].key@ == "mqtt_broker"@,
        entries[3].key@ == "mqtt_id"@,
        entries[4].key@ == "mqtt_user"@,
        entries[5].key@ == "mqtt_pass"@,
        entries[6].key@ == "opening_counts"@,
{
    assert(entries[0].key == config_keys()[0]);
    assert(entries[1].key == config_keys()[1]);
    assert(entries[2].key == config_keys()[2]);
    assert(entries[3].key == config_keys()[3]);
    assert(entries[4].key == config_keys()[4]);
    assert(entries[5].key == config_keys()[5]);
    assert(entries[6].key == config_keys()[6]);
}

/// A compiled-in default is its text, and a missing one is empty.
pub proof fn law_compiled_in_text(s: &'static str)
    ensures
        secret(Some(s)) == s@,
        secret(None) == Seq::<char>::empty(),
{
}

} // verus!
