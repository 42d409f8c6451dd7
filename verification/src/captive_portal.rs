//! WiFi provisioning via a SoftAP captive portal.
//!
//! Flow:
//!   1. The device boots as an open WiFi AP ([`AP_SSID`]).
//!   2. The user's phone connects and is redirected to [`PORTAL_URL`].
//!   3. The user fills in WiFi and MQTT credentials and submits.
//!   4. The credentials are saved, and the device restarts.

use vstd::prelude::*;
use vstd::utf8::{decode_utf8, valid_utf8};

use crate::config::{
    config_keys, contents, fits, law_erase_restores_defaults, law_load_after_save, removed, Config,
    ConfigView, NvsEntry, NvsStore,
};
use crate::form::{field, field_value, form, parse_form};
use crate::pages::{HTML_ERROR, HTML_FORM, HTML_SUCCESS};
use crate::text::{is_blank, law_trimmed_text, text, text_of, trim, trimmed};

verus! {

pub const AP_SSID: &'static str = "OpenSesame-Setup";

pub const AP_CHANNEL: u8 = 6;

pub const AP_MAX_CONNECTIONS: u16 = 4;

pub const PORTAL_URL: &'static str = "http://192.168.4.1/";

/// Client ID of a device that was not given one.
pub const DEFAULT_CLIENT_ID: &'static str = "sliding-door";

/// Longest form that is read.
pub const MAX_FORM_BYTES: usize = 1024;

/// Time between two looks for a submission.
pub const POLL_MS: u64 = 200;

/// Time for the success page to render before the portal goes away.
pub const LINGER_MS: u64 = 1500;

/// Paths that phones and computers ask for to detect a captive portal.
pub fn probe_paths() -> (paths: [&'static str; 4])
    ensures
        paths@ == seq![
            "/generate_204",
            "/hotspot-detect.html",
            "/ncsi.txt",
            "/connecttest.txt",
        ],
{
    ["/generate_204", "/hotspot-detect.html", "/ncsi.txt", "/connecttest.txt"]
}

/// An HTTP response with a single header.
#[derive(Clone, Copy, Debug)]
pub struct Response {
    pub status: u16,
    pub reason: &'static str,
    pub header: (&'static str, &'static str),
    pub body: &'static str,
}

/// An HTML page.
pub open spec fn is_page(r: Response, status: u16, reason: Seq<char>, body: Seq<char>) -> bool {
    &&& r.status == status
    &&& r.reason@ == reason
    &&& r.header.0@ == "Content-Type"@
    &&& r.header.1@ == "text/html; charset=utf-8"@
    &&& r.body@ == body
}

fn page(status: u16, reason: &'static str, body: &'static str) -> (r: Response)
    ensures
        is_page(r, status, reason@, body@),
{
    Response { status, reason, header: ("Content-Type", "text/html; charset=utf-8"), body }
}

/// The response to a captive-portal probe: a redirect to the portal.
pub fn probe_response() -> (r: Response)
    ensures
        r.status == 302,
        r.reason@ == "Found"@,
        r.header.0@ == "Location"@,
        r.header.1@ == PORTAL_URL@,
        r.body@ == ""@,
{
    Response { status: 302, reason: "Found", header: ("Location", PORTAL_URL), body: "" }
}

/// The text of a form; a body that is not text is an empty form.
pub open spec fn form_text(body: Seq<u8>) -> Seq<char> {
    match text(body) {
        Some(s) => s,
        None => seq![],
    }
}

/// The configuration that a form with these fields asks for. A network name and
/// a broker are required.
pub open spec fn submission(fields: Seq<(Seq<char>, Seq<char>)>) -> Option<ConfigView> {
    let ssid = trim(field_value(fields, "ssid"@));
    let broker = trim(field_value(fields, "broker"@));
    let client_id = trim(field_value(fields, "client_id"@));
    if ssid.len() == 0 || broker.len() == 0 {
        None
    } else {
        Some(
            ConfigView {
                wifi_ssid: ssid,
                wifi_password: field_value(fields, "wpass"@),
                mqtt_broker: broker,
                mqtt_client_id: if client_id.len() == 0 {
                    DEFAULT_CLIENT_ID@
                } else {
                    client_id
                },
                mqtt_username: field_value(fields, "muser"@),
                mqtt_password: field_value(fields, "mpass"@),
                opening_counts: 0,
            },
        )
    }
}

fn submitted_config(fields: &Vec<(String, String)>) -> (config: Option<Config>)
    ensures
        config is Some <==> submission(crate::form::field_views(fields@)) is Some,
        config matches Some(c) ==> submission(crate::form::field_views(fields@)) == Some(c@),
{
    let ssid: String = trimmed(field(fields, "ssid"));
    let broker: String = trimmed(field(fields, "broker"));
    if ssid.as_str().is_empty() || broker.as_str().is_empty() {
        return None;
    }
    let id: String = trimmed(field(fields, "client_id"));
    Some(
        Config {
            wifi_ssid: ssid,
            wifi_password: field(fields, "wpass").to_owned(),
            mqtt_broker: broker,
            mqtt_client_id: if id.as_str().is_empty() {
                DEFAULT_CLIENT_ID.to_owned()
            } else {
                id
            },
            mqtt_username: field(fields, "muser").to_owned(),
            mqtt_password: field(fields, "mpass").to_owned(),
            opening_counts: 0,
        },
    )
}

/// Returns true when no WiFi SSID is available, neither stored nor by default.
pub fn needs_provisioning(entries: &Vec<NvsEntry>, defaults: &Config) -> (b: bool)
    ensures
        b == (ConfigView::load(contents(entries@), defaults@).wifi_ssid.len() == 0),
{
    Config::load(entries, defaults).wifi_ssid.as_str().is_empty()
}

/// The portal: holds the configuration that was submitted last until it is taken.
pub struct Portal {
    submitted: Option<Config>,
}

impl View for Portal {
    type V = Option<ConfigView>;

    closed spec fn view(&self) -> Option<ConfigView> {
        match self.submitted {
            Some(config) => Some(config@),
            None => None,
        }
    }
}

impl Portal {
    pub fn new() -> (portal: Self)
        ensures
            portal@ is None,
    {
        Portal { submitted: None }
    }

    /// The response to `GET /`.
    pub fn root(&self) -> (r: Response)
        ensures
            is_page(
                r,
                200,
                "OK"@,
                if self@ is Some {
                    HTML_SUCCESS@
                } else {
                    HTML_FORM@
                },
            ),
    {
        if self.submitted.is_some() {
            page(200, "OK", HTML_SUCCESS)
        } else {
            page(200, "OK", HTML_FORM)
        }
    }

    /// The response to `POST /save`: takes the configuration, or refuses a form
    /// that lacks a required field and keeps what was submitted before.
    pub fn save(&mut self, body: &[u8]) -> (r: Response)
        ensures
            match submission(form(form_text(body@))) {
                Some(config) => {
                    &&& final(self)@ == Some(config)
                    &&& is_page(r, 200, "OK"@, HTML_SUCCESS@)
                },
                None => {
                    &&& final(self)@ == old(self)@
                    &&& is_page(r, 400, "Bad Request"@, HTML_ERROR@)
                },
            },
    {
        let fields: Vec<(String, String)> = match text_of(body) {
            Some(s) => parse_form(s),
            None => {
                proof {
                    reveal_strlit("");
                    assert(""@ =~= seq![]);
                }
                parse_form("")
            },
        };
        match submitted_config(&fields) {
            Some(config) => {
                self.submitted = Some(config);
                page(200, "OK", HTML_SUCCESS)
            },
            None => page(400, "Bad Request", HTML_ERROR),
        }
    }

    /// Take the submitted configuration, if there is one.
    pub fn take(&mut self) -> (config: Option<Config>)
        ensures
            config is Some <==> old(self)@ is Some,
            config matches Some(c) ==> old(self)@ == Some(c@),
            final(self)@ is None,
    {
        self.submitted.take()
    }
}

// ── Laws ─────────────────────────────────────────────────────────────────────

/// A configuration that the portal accepted names a network, a broker and a
/// client, and a device that saved it comes up with them, as long as they fit in
/// the buffer that they are read back into; so it does not need provisioning
/// again.
pub proof fn law_accepted_config_is_enough(
    fields: Seq<(Seq<char>, Seq<char>)>,
    store: NvsStore,
    defaults: ConfigView,
)
    requires
        submission(fields) is Some,
    ensures
        ({
            let config = submission(fields)->0;
            let loaded = ConfigView::load(config.saved(store), defaults);
            &&& config.wifi_ssid.len() > 0
            &&& config.mqtt_broker.len() > 0
            &&& config.mqtt_client_id.len() > 0
            &&& fits(config.wifi_ssid) ==> loaded.wifi_ssid == config.wifi_ssid
            &&& fits(config.mqtt_broker) ==> loaded.mqtt_broker == config.mqtt_broker
            &&& fits(config.mqtt_client_id) ==> loaded.mqtt_client_id == config.mqtt_client_id
        }),
{
    reveal_strlit("sliding-door");
    law_load_after_save(submission(fields)->0, store, defaults);
}

/// After a factory reset a device without a compiled-in network needs
/// provisioning.
pub proof fn law_reset_needs_provisioning(store: NvsStore, defaults: ConfigView)
    requires
        defaults.wifi_ssid.len() == 0,
    ensures
        ConfigView::load(removed(store, config_keys()), defaults).wifi_ssid.len() == 0,
{
    law_erase_restores_defaults(defaults, store, defaults);
}

/// A form is accepted if and only if it names a network and a broker in more than
/// white space.
pub proof fn law_which_forms_are_accepted(fields: Seq<(Seq<char>, Seq<char>)>)
    ensures
        ({
            let ssid = field_value(fields, "ssid"@);
            let broker = field_value(fields, "broker"@);
            submission(fields) is Some <==> (exists|i: int|
                0 <= i < ssid.len() && !is_blank(#[trigger] ssid[i])) && (exists|i: int|
                0 <= i < broker.len() && !is_blank(#[trigger] broker[i]))
        }),
{
    law_trimmed_text(field_value(fields, "ssid"@));
    law_trimmed_text(field_value(fields, "broker"@));
}

/// An accepted form is taken as it was filled in. The passwords and the user name
/// are what was typed, to the letter, whatever else was filled in; the network, the
/// broker and the client are without the white space around them; a client that
/// was left blank is called sliding-door; and the opening is yet to be measured.
pub proof fn law_form_is_taken_as_filled_in(fields: Seq<(Seq<char>, Seq<char>)>)
    requires
        submission(fields) is Some,
    ensures
        ({
            let config = submission(fields)->0;
            let client_id = field_value(fields, "client_id"@);
            let blank = forall|i: int|
                0 <= i < client_id.len() ==> is_blank(#[trigger] client_id[i]);
            &&& config.wifi_password == field_value(fields, "wpass"@)
            &&& config.mqtt_username == field_value(fields, "muser"@)
            &&& config.mqtt_password == field_value(fields, "mpass"@)
            &&& config.wifi_ssid == trim(field_value(fields, "ssid"@))
            &&& config.mqtt_broker == trim(field_value(fields, "broker"@))
            &&& !blank ==> config.mqtt_client_id == trim(client_id)
            &&& blank ==> config.mqtt_client_id == "sliding-door"@
            &&& config.opening_counts == 0
        }),
{
    law_trimmed_text(field_value(fields, "client_id"@));
}

/// A body that is valid UTF-8 is the form that it encodes, and any other body is an
/// empty one.
pub proof fn law_body_as_form(body: Seq<u8>)
    ensures
        valid_utf8(body) ==> form_text(body) == decode_utf8(body),
        !valid_utf8(body) ==> form_text(body) == Seq::<char>::empty(),
{
}

/// The access point that phones look for, and how the portal waits: it takes forms of
/// up to a kilobyte, looks for one five times a second, and shows the success page
/// for a second and a half.
pub proof fn law_portal_set_up()
    ensures
        AP_SSID@ == "OpenSesame-Setup"@,
        PORTAL_URL@ == "http://192.168.4.1/"@,
        AP_CHANNEL == 6,
        AP_MAX_CONNECTIONS == 4,
        MAX_FORM_BYTES == 1024,
        POLL_MS * 5 == 1000,
        LINGER_MS == 1500,
{
}

} // verus!
