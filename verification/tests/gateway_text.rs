//! The verification gateway's request building, the settings patch
//! semantics, and the text utilities underneath them.

use pricecrowd::gateway::{build_check_form, CheckError, CheckParams, ParamMap};
use pricecrowd::settings::{apply_settings_update, default_settings, TelegramSettingsUpdate};
use pricecrowd::text::{contains_str, i64_to_string, lower_string, trim_str, upper_string};

fn params(
    qr: Option<&str>,
    t: Option<&str>,
    s: Option<&str>,
    fnc: Option<&str>,
    i: Option<&str>,
    fp: Option<&str>,
    n: Option<&str>,
) -> CheckParams {
    CheckParams {
        qr: qr.map(|x| x.to_string()),
        t: t.map(|x| x.to_string()),
        s: s.map(|x| x.to_string()),
        fnc: fnc.map(|x| x.to_string()),
        i: i.map(|x| x.to_string()),
        fp: fp.map(|x| x.to_string()),
        n: n.map(|x| x.to_string()),
    }
}

fn pairs(form: &[(String, String)]) -> Vec<(&str, &str)> {
    form.iter().map(|kv| (kv.0.as_str(), kv.1.as_str())).collect()
}

#[test]
fn form_prefers_raw_payload() {
    let qr = "t=20240101T1200&fn=123&i=456&fp=789";
    let form = build_check_form(&params(Some(qr), None, None, None, None, None, None)).unwrap();
    assert_eq!(pairs(&form), vec![("qrraw", qr)]);
}

#[test]
fn form_maps_fields_into_upstream_names() {
    let form = build_check_form(
        &params(None, Some("20240101T1200"), Some("89.90"), Some("123"), Some("456"), Some("789"), Some("1")),
    )
    .unwrap();
    assert_eq!(
        pairs(&form),
        vec![
            ("fn", "123"),
            ("fd", "456"),
            ("fp", "789"),
            ("t", "20240101T1200"),
            ("n", "1"),
            ("s", "89.90"),
            ("qr", "1"),
        ]
    );
}

#[test]
fn form_omits_absent_optional_fields() {
    let form =
        build_check_form(&params(None, Some("T"), None, Some("F"), Some("I"), Some("P"), None))
            .unwrap();
    assert_eq!(pairs(&form), vec![("fn", "F"), ("fd", "I"), ("fp", "P"), ("t", "T"), ("qr", "1")]);
}

#[test]
fn missing_required_fields_refused() {
    assert_eq!(
        build_check_form(&params(None, Some("T"), None, Some("F"), None, Some("P"), None)),
        Err(CheckError::MissingFields)
    );
    // A payload that lacks the fiscal number is refused even though it would
    // have been sent raw.
    assert_eq!(
        build_check_form(&params(Some("t=1&i=2&fp=3"), None, None, None, None, None, None)),
        Err(CheckError::MissingFields)
    );
    // ... unless an individual field fills the gap.
    let form = build_check_form(&params(Some("t=1&i=2&fp=3"), None, None, Some("9"), None, None, None))
        .unwrap();
    assert_eq!(pairs(&form), vec![("qrraw", "t=1&i=2&fp=3")]);
}

#[test]
fn payload_segments_without_key_or_value_are_skipped() {
    // "t=" carries no value, so the timestamp is considered missing ...
    assert_eq!(
        build_check_form(&params(Some("t=&fn=2&i=3&fp=4"), None, None, None, None, None, None)),
        Err(CheckError::MissingFields)
    );
    // ... until the individual field supplies it.
    let form =
        build_check_form(&params(Some("?t=&fn=2&i=3&fp=4"), Some("7"), None, None, None, None, None))
            .unwrap();
    assert_eq!(pairs(&form), vec![("qrraw", "?t=&fn=2&i=3&fp=4")]);
}

#[test]
fn param_map_last_write_wins() {
    let mut m = ParamMap::new();
    m.insert("t".to_string(), "1".to_string());
    m.insert("t".to_string(), "2".to_string());
    assert_eq!(m.get("t").as_deref(), Some("2"));
    m.insert_if_absent("t".to_string(), "3".to_string());
    assert_eq!(m.get("t").as_deref(), Some("2"));
    m.insert_if_absent("s".to_string(), "4".to_string());
    assert_eq!(m.get("s").as_deref(), Some("4"));
    assert!(m.contains("t"));
    assert!(!m.contains("fp"));
    assert_eq!(m.get("fp"), None);
}

#[test]
fn settings_patch_semantics() {
    let mut doc = default_settings();
    assert_eq!(doc.key, "telegram");
    assert!(!doc.enabled && !doc.webhook_enabled);
    assert_eq!(doc.token, None);
    apply_settings_update(
        &mut doc,
        TelegramSettingsUpdate {
            token: Some("secret-token".to_string()),
            webhook_url: None,
            enabled: Some(true),
            webhook_enabled: None,
        },
    );
    assert_eq!(doc.token.as_deref(), Some("secret-token"));
    assert!(doc.enabled);
    assert!(!doc.webhook_enabled);
    // Absent fields stay as they are.
    apply_settings_update(
        &mut doc,
        TelegramSettingsUpdate { token: None, webhook_url: None, enabled: None, webhook_enabled: Some(true) },
    );
    assert_eq!(doc.token.as_deref(), Some("secret-token"));
    assert!(doc.enabled && doc.webhook_enabled);
}

#[test]
fn trimming() {
    assert_eq!(trim_str("  hi \t\r\n"), "hi");
    assert_eq!(trim_str("hi"), "hi");
    assert_eq!(trim_str("   "), "");
    assert_eq!(trim_str(""), "");
}

#[test]
fn case_mapping() {
    assert_eq!(lower_string("AbC-12"), "abc-12");
    assert_eq!(upper_string("aB3k9Q"), "AB3K9Q");
    // The Cyrillic alphabet is mapped too.
    assert_eq!(lower_string("Политика"), "политика");
    assert_eq!(upper_string("ёлка"), "ЁЛКА");
}

#[test]
fn substring_search() {
    assert!(contains_str("t=20240101&fn=1", "fn="));
    assert!(contains_str("abc", ""));
    assert!(!contains_str("ab", "abc"));
    assert!(!contains_str("t=20240101", "fn="));
}

#[test]
fn decimal_rendering() {
    assert_eq!(i64_to_string(0), "0");
    assert_eq!(i64_to_string(42), "42");
    assert_eq!(i64_to_string(-120), "-120");
    assert_eq!(i64_to_string(i64::MAX), "9223372036854775807");
    assert_eq!(i64_to_string(i64::MIN), "-9223372036854775808");
}
