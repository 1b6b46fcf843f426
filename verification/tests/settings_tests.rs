use api_monitor::cli::{parse_args, CliCommand};
use api_monitor::method::Method;
use api_monitor::settings::{
    ConfigError, SettingRow, SetupPayload, UptimeSetting, DEFAULT_INTERVAL_SECS, MIN_PERIOD_SECS,
};
use api_monitor::text::{find_char, join_text, parse_u16, split_first, str_equal};
use std::str::FromStr;

fn setting(interval: Option<usize>, method: Option<Method>, enabled: Option<bool>) -> UptimeSetting {
    UptimeSetting {
        url: "http://x".to_string(),
        interval,
        method,
        enabled,
        name: "site".to_string(),
    }
}

fn payload() -> SetupPayload {
    SetupPayload {
        url: Some("http://x".to_string()),
        interval: Some(30),
        method: Some("post".to_string()),
        enabled: Some(true),
        name: Some("site".to_string()),
    }
}

#[test]
fn interval_defaults_to_sixty_seconds() {
    assert_eq!(DEFAULT_INTERVAL_SECS, 60);
    assert_eq!(setting(None, None, None).interval_secs(), 60);
    assert_eq!(setting(Some(5), None, None).interval_secs(), 5);
    assert_eq!(setting(Some(0), None, None).interval_secs(), 0);
}

#[test]
fn period_is_at_least_one_second() {
    assert_eq!(MIN_PERIOD_SECS, 1);
    assert_eq!(setting(Some(0), None, None).period_secs(), 1);
    assert_eq!(setting(Some(1), None, None).period_secs(), 1);
    assert_eq!(setting(Some(90), None, None).period_secs(), 90);
    assert_eq!(setting(None, None, None).period_secs(), 60);
}

#[test]
fn method_defaults_to_get() {
    assert_eq!(setting(None, None, None).method_or_default(), Method::GET);
    assert_eq!(setting(None, Some(Method::DELETE), None).method_or_default(), Method::DELETE);
}

#[test]
fn enabled_defaults() {
    assert!(setting(None, None, None).enabled_or_default());
    assert!(!setting(None, None, Some(false)).enabled_or_default());
    assert!(!setting(None, None, None).is_enabled());
    assert!(!setting(None, None, Some(false)).is_enabled());
    assert!(setting(None, None, Some(true)).is_enabled());
}

#[test]
fn setting_same_as_compares_every_field() {
    let a = setting(Some(1), Some(Method::GET), Some(true));
    assert!(a.same_as(&a.clone()));
    assert!(!a.same_as(&setting(Some(2), Some(Method::GET), Some(true))));
    assert!(!a.same_as(&setting(None, Some(Method::GET), Some(true))));
    assert!(!a.same_as(&setting(Some(1), Some(Method::PUT), Some(true))));
    assert!(!a.same_as(&setting(Some(1), None, Some(true))));
    assert!(!a.same_as(&setting(Some(1), Some(Method::GET), None)));
    let mut renamed = a.clone();
    renamed.name = "other".to_string();
    assert!(!a.same_as(&renamed));
    let mut moved = a.clone();
    moved.url = "http://y".to_string();
    assert!(!a.same_as(&moved));
}

#[test]
fn row_carries_every_default() {
    let row = setting(None, None, None).to_row();
    assert_eq!(row.url, "http://x");
    assert_eq!(row.interval, Some(60));
    assert_eq!(row.method, "GET");
    assert_eq!(row.enabled, Some(true));
    assert_eq!(row.name, "site");
    let row = setting(Some(5), Some(Method::PUT), Some(false)).to_row();
    assert_eq!(row.interval, Some(5));
    assert_eq!(row.method, "PUT");
    assert_eq!(row.enabled, Some(false));
}

#[test]
fn row_reads_back() {
    let read = UptimeSetting::from_row(SettingRow {
        url: "http://x".to_string(),
        interval: None,
        method: "delete".to_string(),
        enabled: Some(false),
        name: "site".to_string(),
    })
    .expect("readable");
    assert_eq!(read.url, "http://x");
    assert_eq!(read.interval, None);
    assert_eq!(read.method, Some(Method::DELETE));
    assert_eq!(read.enabled, Some(false));
    assert_eq!(read.name, "site");
}

#[test]
fn row_with_unknown_method_is_rejected() {
    let read = UptimeSetting::from_row(SettingRow {
        url: "http://x".to_string(),
        interval: None,
        method: "FETCH".to_string(),
        enabled: None,
        name: "site".to_string(),
    });
    match read {
        Err(ConfigError::InvalidMethod(message)) => {
            assert_eq!(message, "'FETCH' is not a valid HTTP method")
        }
        other => panic!("unexpected result {:?}", other),
    }
}

#[test]
fn payload_becomes_a_target() {
    let made = UptimeSetting::from_payload(payload()).expect("valid");
    assert_eq!(made.url, "http://x");
    assert_eq!(made.interval, Some(30));
    assert_eq!(made.method, Some(Method::POST));
    assert_eq!(made.enabled, Some(true));
    assert_eq!(made.name, "site");
    let bare = UptimeSetting::from_payload(SetupPayload {
        interval: None,
        method: None,
        enabled: None,
        ..payload()
    })
    .expect("valid");
    assert_eq!(bare.interval, None);
    assert_eq!(bare.method, None);
    assert_eq!(bare.enabled, None);
}

#[test]
fn payload_errors() {
    match UptimeSetting::from_payload(SetupPayload { url: None, name: None, ..payload() }) {
        Err(ConfigError::MissingUrl) => {}
        other => panic!("unexpected result {:?}", other),
    }
    match UptimeSetting::from_payload(SetupPayload { name: None, ..payload() }) {
        Err(ConfigError::MissingName) => {}
        other => panic!("unexpected result {:?}", other),
    }
    let bad = SetupPayload { method: Some("GETT".to_string()), ..payload() };
    match UptimeSetting::from_payload(bad) {
        Err(error @ ConfigError::InvalidMethod(_)) => {
            assert_eq!(error.message(), "'GETT' is not a valid HTTP method")
        }
        other => panic!("unexpected result {:?}", other),
    }
    assert_eq!(ConfigError::MissingUrl.message(), "missing field `url`");
    assert_eq!(ConfigError::MissingName.message(), "missing field `name`");
}

#[test]
fn method_names() {
    assert_eq!(Method::GET.as_str(), "GET");
    assert_eq!(Method::POST.to_string(), "POST");
    assert_eq!(Method::PUT.to_string(), "PUT");
    assert_eq!(Method::DELETE.as_str(), "DELETE");
    assert_eq!(Method::from_uppercase("PUT"), Some(Method::PUT));
    assert_eq!(Method::from_uppercase("put"), None);
    for method in [Method::GET, Method::POST, Method::PUT, Method::DELETE] {
        assert_eq!(Method::from_uppercase(method.as_str()), Some(method));
        assert_eq!(Method::from_str(&method.to_string().to_lowercase()), Ok(method));
    }
}

#[test]
fn method_parses_through_the_trait() {
    assert_eq!("get".parse::<Method>(), Ok(Method::GET));
    assert_eq!(<Method as FromStr>::from_str("Delete"), Ok(Method::DELETE));
    assert_eq!("".parse::<Method>(), Err("'' is not a valid HTTP method".to_string()));
}

#[test]
fn method_upper_case_goes_beyond_ascii() {
    // The long s is written S in upper case.
    assert_eq!(Method::from_str("po\u{17f}t"), Ok(Method::POST));
    assert_eq!(
        Method::from_str("g\u{e9}t"),
        Err("'g\u{e9}t' is not a valid HTTP method".to_string())
    );
}

#[test]
fn text_helpers() {
    assert!(str_equal("abc", "abc"));
    assert!(!str_equal("abc", "abd"));
    assert!(!str_equal("abc", "ab"));
    assert_eq!(find_char("a:b:c", ':'), Some(1));
    assert_eq!(find_char("abc", ':'), None);
    assert_eq!(find_char("\u{e9}\u{e9}:x", ':'), Some(2));
    assert_eq!(split_first("a:b:c", ':'), ("a".to_string(), Some("b:c".to_string())));
    assert_eq!(split_first("abc", ':'), ("abc".to_string(), None));
    assert_eq!(split_first("abc:", ':'), ("abc".to_string(), Some(String::new())));
    assert_eq!(split_first("\u{fc}:\u{e9}", ':'), ("\u{fc}".to_string(), Some("\u{e9}".to_string())));
    assert_eq!(join_text("ab", "cd"), "abcd");
}

#[test]
fn parse_u16_reads_decimal_digits() {
    assert_eq!(parse_u16("0"), Some(0));
    assert_eq!(parse_u16("200"), Some(200));
    assert_eq!(parse_u16("+404"), Some(404));
    assert_eq!(parse_u16("007"), Some(7));
    assert_eq!(parse_u16("65535"), Some(65535));
    assert_eq!(parse_u16("65536"), None);
    assert_eq!(parse_u16("99999999999999999999"), None);
    assert_eq!(parse_u16(""), None);
    assert_eq!(parse_u16("+"), None);
    assert_eq!(parse_u16("-1"), None);
    assert_eq!(parse_u16("++1"), None);
    assert_eq!(parse_u16("1+"), None);
    assert_eq!(parse_u16("12a"), None);
    assert_eq!(parse_u16(" 12"), None);
    assert_eq!(parse_u16("\u{663}"), None);
}

#[test]
fn parse_u16_agrees_with_the_standard_parser() {
    for text in ["0", "+0", "42", "0042", "65535", "65536", "", "+", "-", "-0", "1 ", "x", "+-1"] {
        assert_eq!(parse_u16(text), text.parse::<u16>().ok(), "for {:?}", text);
    }
}

fn args(words: &[&str]) -> Vec<String> {
    words.iter().map(|w| w.to_string()).collect()
}

#[test]
fn command_line_is_read() {
    match parse_args(&args(&["prog"])) {
        CliCommand::Serve { require_auth: true, notice: None } => {}
        other => panic!("unexpected command {:?}", other),
    }
    match parse_args(&args(&[])) {
        CliCommand::Serve { require_auth: true, notice: None } => {}
        other => panic!("unexpected command {:?}", other),
    }
    match parse_args(&args(&["prog", "--no-auth"])) {
        CliCommand::Serve { require_auth: false, notice: Some("Skipping authorization") } => {}
        other => panic!("unexpected command {:?}", other),
    }
    match parse_args(&args(&["prog", "--what"])) {
        CliCommand::Serve { require_auth: true, notice: Some("Invalid argument, ignoring") } => {}
        other => panic!("unexpected command {:?}", other),
    }
    match parse_args(&args(&["prog", "--keygen", "alice", "laptop", "more"])) {
        CliCommand::Keygen { client_id, description } => {
            assert_eq!(client_id, "alice");
            assert_eq!(description, "laptop");
        }
        other => panic!("unexpected command {:?}", other),
    }
    match parse_args(&args(&["prog", "--verify", "key", "hash"])) {
        CliCommand::Verify { api_key, hashed_key } => {
            assert_eq!(api_key, "key");
            assert_eq!(hashed_key, "hash");
        }
        other => panic!("unexpected command {:?}", other),
    }
    assert!(matches!(parse_args(&args(&["prog", "--keygen", "alice"])), CliCommand::Incomplete));
    assert!(matches!(parse_args(&args(&["prog", "--verify"])), CliCommand::Incomplete));
}
