use open_sesame::captive_portal::{
    needs_provisioning, probe_paths, probe_response, Portal, DEFAULT_CLIENT_ID,
};
use open_sesame::config::{Config, NvsEntry, NvsValue, Secrets, KEY_WIFI_SSID};
use open_sesame::form::{field, parse_form, url_decode};
use open_sesame::pages::{HTML_ERROR, HTML_FORM, HTML_SUCCESS};

fn no_secrets() -> Config {
    Config::with_secrets(&Secrets {
        wifi_ssid: None,
        wifi_password: None,
        mqtt_broker: None,
        mqtt_client_id: None,
        mqtt_username: None,
        mqtt_password: None,
    })
}

#[test]
fn escapes_are_resolved() {
    assert_eq!(url_decode("a+b%20c"), "a b c");
    assert_eq!(url_decode("%41%6a%4A"), "AjJ");
    assert_eq!(url_decode("mqtt%3A%2F%2Fx%3a1883"), "mqtt://x:1883");
    assert_eq!(url_decode(""), "");
    assert_eq!(url_decode("plain"), "plain");
}

#[test]
fn escapes_above_ascii_are_single_characters() {
    assert_eq!(url_decode("%e9%C3%A9"), "\u{e9}\u{c3}\u{a9}");
    assert_eq!(url_decode("\u{fc}%ff"), "\u{fc}\u{ff}");
}

#[test]
fn short_escapes_are_padded() {
    assert_eq!(url_decode("a%"), "a\0");
    assert_eq!(url_decode("a%4"), "a@");
}

#[test]
fn bad_escapes_vanish() {
    assert_eq!(url_decode("a%zzb"), "ab");
    assert_eq!(url_decode("a%4gb"), "ab");
    assert_eq!(url_decode("a%-1b"), "ab");
    assert_eq!(url_decode("a%%41b"), "a1b");
    assert_eq!(url_decode("%\u{e9}1x"), "x");
}

#[test]
fn plus_may_start_an_escape() {
    assert_eq!(url_decode("%+1x"), "\u{1}x");
    assert_eq!(url_decode("%+Fx"), "\u{f}x");
    assert_eq!(url_decode("%1+x"), "x");
    assert_eq!(url_decode("%++x"), "x");
}

#[test]
fn escaping_everything_is_undone() {
    let text: String = (0u8..=255).map(|b| b as char).collect();
    let escaped: String = (0u8..=255).map(|b| format!("%{b:02X}")).collect();
    assert_eq!(url_decode(&escaped), text);
    let body = format!("{escaped}={escaped}&b={escaped}");
    let fields = parse_form(&body);
    assert_eq!(fields, vec![(text.clone(), text.clone()), ("b".to_string(), text)]);
}

#[test]
fn forms_are_split() {
    let pair = |k: &str, v: &str| (k.to_string(), v.to_string());
    assert_eq!(parse_form("a=1&b=2"), vec![pair("a", "1"), pair("b", "2")]);
    assert_eq!(parse_form(""), vec![pair("", "")]);
    assert_eq!(parse_form("a"), vec![pair("a", "")]);
    assert_eq!(parse_form("a=b=c"), vec![pair("a", "b=c")]);
    assert_eq!(parse_form("&x=+&"), vec![pair("", ""), pair("x", " "), pair("", "")]);
    assert_eq!(parse_form("=v&k="), vec![pair("", "v"), pair("k", "")]);
    assert_eq!(parse_form("a%26b=c%3Dd"), vec![pair("a&b", "c=d")]);
}

#[test]
fn first_field_of_a_name_counts() {
    let fields = parse_form("a=1&b=2&a=3");
    assert_eq!(field(&fields, "a"), "1");
    assert_eq!(field(&fields, "b"), "2");
    assert_eq!(field(&fields, "c"), "");
    assert_eq!(field(&[], "a"), "");
}

#[test]
fn form_is_shown_until_submission() {
    let mut portal = Portal::new();
    let r = portal.root();
    assert_eq!((r.status, r.reason, r.body), (200, "OK", HTML_FORM));
    assert_eq!(r.header, ("Content-Type", "text/html; charset=utf-8"));
    portal.save(b"ssid=n&broker=b");
    assert_eq!(portal.root().body, HTML_SUCCESS);
    assert!(portal.take().is_some());
    assert_eq!(portal.root().body, HTML_FORM);
    assert!(portal.take().is_none());
}

#[test]
fn complete_form_is_taken() {
    let mut portal = Portal::new();
    let r = portal.save(
        b"ssid=+My%20Net+&wpass=+p%26w+&broker=mqtt%3A%2F%2F10.0.0.2%3A1883&client_id=door-7&muser=u&mpass=s",
    );
    assert_eq!((r.status, r.reason, r.body), (200, "OK", HTML_SUCCESS));
    assert_eq!(r.header, ("Content-Type", "text/html; charset=utf-8"));
    let cfg = portal.take().unwrap();
    assert_eq!(cfg.wifi_ssid, "My Net");
    assert_eq!(cfg.wifi_password, " p&w ");
    assert_eq!(cfg.mqtt_broker, "mqtt://10.0.0.2:1883");
    assert_eq!(cfg.mqtt_client_id, "door-7");
    assert_eq!(cfg.mqtt_username, "u");
    assert_eq!(cfg.mqtt_password, "s");
    assert_eq!(cfg.opening_counts, 0);
}

#[test]
fn client_id_has_a_default() {
    let mut portal = Portal::new();
    portal.save(b"ssid=n&broker=b&client_id=+");
    assert_eq!(portal.take().unwrap().mqtt_client_id, "sliding-door");
    assert_eq!(DEFAULT_CLIENT_ID, "sliding-door");
}

#[test]
fn incomplete_form_is_refused() {
    for body in [
        &b"ssid=n"[..],
        b"broker=b",
        b"ssid=++&broker=b",
        b"ssid=n&broker=%09",
        b"",
        b"ssid=n&broker=b\xff",
    ] {
        let mut portal = Portal::new();
        let r = portal.save(body);
        assert_eq!((r.status, r.reason, r.body), (400, "Bad Request", HTML_ERROR));
        assert!(portal.take().is_none());
    }
}

#[test]
fn refused_form_keeps_the_last_submission() {
    let mut portal = Portal::new();
    portal.save(b"ssid=first&broker=b");
    portal.save(b"ssid=&broker=b");
    assert_eq!(portal.take().unwrap().wifi_ssid, "first");
}

#[test]
fn probes_are_redirected() {
    assert_eq!(
        probe_paths(),
        ["/generate_204", "/hotspot-detect.html", "/ncsi.txt", "/connecttest.txt"]
    );
    let r = probe_response();
    assert_eq!((r.status, r.reason, r.body), (302, "Found", ""));
    assert_eq!(r.header, ("Location", "http://192.168.4.1/"));
}

#[test]
fn device_without_network_needs_provisioning() {
    let defaults = no_secrets();
    assert!(needs_provisioning(&Vec::new(), &defaults));
    let stored = vec![NvsEntry { key: KEY_WIFI_SSID, value: NvsValue::Text("n".into()) }];
    assert!(!needs_provisioning(&stored, &defaults));
    let empty = vec![NvsEntry { key: KEY_WIFI_SSID, value: NvsValue::Text("".into()) }];
    assert!(needs_provisioning(&empty, &defaults));
    let compiled_in = Config { wifi_ssid: "home".into(), ..no_secrets() };
    assert!(!needs_provisioning(&empty, &compiled_in));
}

#[test]
fn submitted_config_is_enough() {
    let mut portal = Portal::new();
    portal.save(b"ssid=n&broker=b");
    let saved = portal.take().unwrap().save();
    assert!(!needs_provisioning(&saved, &no_secrets()));
}
