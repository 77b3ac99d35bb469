//! Tests of the configuration model, the `set` command and the persistence
//! codec.

use relayx::codec::{decode_config, encode_config};
use relayx::config::{handle_set, Config, ConfigOption, SetOutcome};
use relayx::errors::CmdError;
use relayx::numbers::{parse_u64, to_dec};

fn set_args(args: &[&str]) -> Vec<String> {
    args.iter().map(|a| a.to_string()).collect()
}

#[test]
fn default_config_values() {
    let cfg = Config::default();
    assert!(cfg.wait_for_response);
    assert_eq!(cfg.read_timeout, 10000);
    assert_eq!(cfg.connection_timeout, 10000);
    assert_eq!(cfg.recent_connection, "");
}

#[test]
fn option_names_are_matched_exactly() {
    assert!(matches!(
        ConfigOption::parse("wait_for_response"),
        Some(ConfigOption::WaitForResponse)
    ));
    assert!(matches!(ConfigOption::parse("read_timeout"), Some(ConfigOption::ReadTimeout)));
    assert!(matches!(
        ConfigOption::parse("connection_timeout"),
        Some(ConfigOption::ConnectionTimeout)
    ));
    assert!(ConfigOption::parse("Read_Timeout").is_none());
    assert!(ConfigOption::parse("retries").is_none());
    assert!(ConfigOption::parse("").is_none());
}

#[test]
fn set_then_show_wait_for_response() {
    let mut cfg = Config::default();
    let r = handle_set(&set_args(&["wait_for_response", "true"]), &mut cfg);
    assert!(matches!(r, Ok(SetOutcome::Updated)));
    assert!(cfg.wait_for_response);
    match handle_set(&set_args(&["wait_for_response"]), &mut cfg) {
        Ok(SetOutcome::Shown(text)) => assert!(text.contains("Current: true")),
        other => panic!("expected the shown value, got {:?}", other),
    }
    let r = handle_set(&set_args(&["wait_for_response", "false"]), &mut cfg);
    assert!(matches!(r, Ok(SetOutcome::Updated)));
    assert!(!cfg.wait_for_response);
    match handle_set(&set_args(&["wait_for_response"]), &mut cfg) {
        Ok(SetOutcome::Shown(text)) => assert!(text.contains("Current: false")),
        other => panic!("expected the shown value, got {:?}", other),
    }
}

#[test]
fn invalid_boolean_value_changes_nothing() {
    let mut cfg = Config::default();
    assert!(cfg.wait_for_response);
    let r = handle_set(&set_args(&["wait_for_response", "maybe"]), &mut cfg);
    assert_eq!(r.unwrap_err(), CmdError::InvalidValue);
    assert!(cfg.wait_for_response);
}

#[test]
fn timeouts_accept_decimal_numerals() {
    let mut cfg = Config::default();
    let r = handle_set(&set_args(&["read_timeout", "500"]), &mut cfg);
    assert!(matches!(r, Ok(SetOutcome::Updated)));
    assert_eq!(cfg.read_timeout, 500);
    let r = handle_set(&set_args(&["connection_timeout", "0"]), &mut cfg);
    assert!(matches!(r, Ok(SetOutcome::Updated)));
    assert_eq!(cfg.connection_timeout, 0);
    // leading zeros denote the same value
    let r = handle_set(&set_args(&["read_timeout", "00042"]), &mut cfg);
    assert!(matches!(r, Ok(SetOutcome::Updated)));
    assert_eq!(cfg.read_timeout, 42);
    // the largest value fits, one more does not
    let r = handle_set(&set_args(&["read_timeout", "18446744073709551615"]), &mut cfg);
    assert!(matches!(r, Ok(SetOutcome::Updated)));
    assert_eq!(cfg.read_timeout, u64::MAX);
    let r = handle_set(&set_args(&["read_timeout", "18446744073709551616"]), &mut cfg);
    assert_eq!(r.unwrap_err(), CmdError::InvalidValue);
    assert_eq!(cfg.read_timeout, u64::MAX);
}

#[test]
fn timeouts_reject_non_numerals() {
    let mut cfg = Config::default();
    for bad in ["", "-1", "+1", "1.5", "fast", "1 0"] {
        let r = handle_set(&set_args(&["read_timeout", bad]), &mut cfg);
        assert_eq!(r.unwrap_err(), CmdError::InvalidValue, "value {:?}", bad);
        assert_eq!(cfg.read_timeout, 10000);
    }
}

#[test]
fn set_argument_count_handling() {
    let mut cfg = Config::default();
    match handle_set(&set_args(&[]), &mut cfg) {
        Ok(SetOutcome::NothingToSet(notice)) => assert_eq!(notice, "Nothing to set."),
        other => panic!("expected the nothing-to-set notice, got {:?}", other),
    }
    assert_eq!(
        handle_set(&set_args(&["nonsense"]), &mut cfg).unwrap_err(),
        CmdError::UnknownOption
    );
    assert_eq!(
        handle_set(&set_args(&["nonsense", "1"]), &mut cfg).unwrap_err(),
        CmdError::UnknownOption
    );
    assert_eq!(
        handle_set(&set_args(&["read_timeout", "1", "2"]), &mut cfg).unwrap_err(),
        CmdError::TooManyArguments
    );
    assert_eq!(cfg.read_timeout, 10000);
}

#[test]
fn show_renders_timeout_values() {
    let mut cfg = Config::default();
    cfg.read_timeout = 750;
    match handle_set(&set_args(&["read_timeout"]), &mut cfg) {
        Ok(SetOutcome::Shown(text)) => assert!(text.contains("Current: 750 milliseconds.")),
        other => panic!("expected the shown value, got {:?}", other),
    }
}

#[test]
fn decimal_rendering_and_parsing_are_exact() {
    assert_eq!(to_dec(0), "0");
    assert_eq!(to_dec(7), "7");
    assert_eq!(to_dec(10000), "10000");
    assert_eq!(to_dec(u64::MAX), "18446744073709551615");
    assert_eq!(parse_u64("0"), Some(0));
    assert_eq!(parse_u64("00042"), Some(42));
    assert_eq!(parse_u64("18446744073709551615"), Some(u64::MAX));
    assert_eq!(parse_u64("18446744073709551616"), None);
    assert_eq!(parse_u64(""), None);
    assert_eq!(parse_u64("+1"), None);
    assert_eq!(parse_u64("12a"), None);
}

#[test]
fn shown_option_text_is_exact() {
    let cfg = Config::default();
    assert_eq!(
        ConfigOption::WaitForResponse.print(&cfg),
        "\x1b[3m\x1b[1mwait_for_response\x1b[0m\nCurrent: true. Possible: true, false"
    );
    assert_eq!(
        ConfigOption::ReadTimeout.print(&cfg),
        "\x1b[3m\x1b[1mread_timeout\x1b[0m\nCurrent: 10000 milliseconds."
    );
    assert_eq!(
        ConfigOption::ConnectionTimeout.print(&cfg),
        "\x1b[3m\x1b[1mconnection_timeout\x1b[0m\nCurrent: 10000 milliseconds."
    );
}

#[test]
fn encode_produces_the_persisted_document() {
    let cfg = Config::default();
    assert_eq!(
        encode_config(&cfg),
        "wait_for_response = true\nread_timeout = 10000\nconnection_timeout = 10000\nrecent_connection = \"\"\n"
    );
}

#[test]
fn persisted_round_trip_keeps_read_timeout() {
    let mut cfg = Config::default();
    let r = handle_set(&set_args(&["read_timeout", "500"]), &mut cfg);
    assert!(matches!(r, Ok(SetOutcome::Updated)));
    let text = encode_config(&cfg);
    let back = decode_config(&text).expect("the encoded document decodes");
    assert_eq!(back.read_timeout, 500);
    assert_eq!(back.wait_for_response, cfg.wait_for_response);
    assert_eq!(back.connection_timeout, cfg.connection_timeout);
    assert_eq!(back.recent_connection, cfg.recent_connection);
}

#[test]
fn round_trip_keeps_every_field() {
    let cfg = Config {
        wait_for_response: false,
        read_timeout: 0,
        connection_timeout: u64::MAX,
        recent_connection: "203.0.113.7:65535".to_string(),
    };
    let back = decode_config(&encode_config(&cfg)).expect("the encoded document decodes");
    assert!(!back.wait_for_response);
    assert_eq!(back.read_timeout, 0);
    assert_eq!(back.connection_timeout, u64::MAX);
    assert_eq!(back.recent_connection, "203.0.113.7:65535");
}

#[test]
fn malformed_documents_are_rejected_whole() {
    assert!(decode_config("").is_none());
    assert!(decode_config("not a config").is_none());
    assert!(decode_config("wait_for_response = yes\nread_timeout = 1\nconnection_timeout = 1\nrecent_connection = \"\"\n").is_none());
    assert!(decode_config("wait_for_response = true\nread_timeout = soon\nconnection_timeout = 1\nrecent_connection = \"\"\n").is_none());
    assert!(decode_config("wait_for_response = true\nread_timeout = 1\nconnection_timeout = 1\nrecent_connection = unquoted\n").is_none());
    // a reordered document is not the persisted shape
    assert!(decode_config("read_timeout = 1\nwait_for_response = true\nconnection_timeout = 1\nrecent_connection = \"\"\n").is_none());
    // a missing final newline is not the persisted shape
    assert!(decode_config("wait_for_response = true\nread_timeout = 1\nconnection_timeout = 1\nrecent_connection = \"\"").is_none());
}

#[test]
fn decode_accepts_exactly_the_encoder_shape() {
    let text = "wait_for_response = false\nread_timeout = 250\nconnection_timeout = 1500\nrecent_connection = \"127.0.0.1:9000\"\n";
    let cfg = decode_config(text).expect("a well-shaped document decodes");
    assert!(!cfg.wait_for_response);
    assert_eq!(cfg.read_timeout, 250);
    assert_eq!(cfg.connection_timeout, 1500);
    assert_eq!(cfg.recent_connection, "127.0.0.1:9000");
    assert_eq!(encode_config(&cfg), text);
}
