//! Tests of the connection state machine, the address validator, the reply
//! decoder, the tables and the error messages.

use relayx::address::is_valid_address;
use relayx::config::Config;
use relayx::dispatch::{dispatch_line, Command, Dispatch};
use relayx::errors::CmdError;
use relayx::session::{decode_reply, Session};
use relayx::tables::{handle_help, handle_list, print_table, TableEntry};

fn connected_session(address: &str) -> Session {
    let mut s = Session::new(Config::default());
    let plan = s.plan_open(address).expect("the address is valid");
    assert_eq!(plan.address, address);
    s.open_established(plan.address);
    s
}

#[test]
fn valid_literal_addresses_are_accepted() {
    for good in [
        "127.0.0.1:9",
        "0.0.0.0:0",
        "255.255.255.255:65535",
        "192.168.1.10:8080",
        "10.0.0.1:1",
    ] {
        assert!(is_valid_address(good), "address {:?}", good);
    }
}

#[test]
fn invalid_addresses_are_rejected() {
    for bad in [
        "",
        "bad-address",
        "localhost:80",
        "127.0.0.1",
        "127.0.0.1:",
        ":80",
        "256.0.0.1:80",
        "1.2.3.4:65536",
        "1.2.3:80",
        "1.2.3.4.5:80",
        "01.2.3.4:80",
        "1.2.3.4:080",
        "1.2.3.4:80:90",
        "1.2.3.4: 80",
        "-1.2.3.4:80",
    ] {
        assert!(!is_valid_address(bad), "address {:?}", bad);
    }
}

#[test]
fn open_while_connected_is_refused_and_changes_nothing() {
    let s = connected_session("10.1.2.3:4000");
    assert_eq!(s.plan_open("127.0.0.1:9").unwrap_err(), CmdError::AlreadyConnected);
    assert!(s.is_connected());
    assert_eq!(s.label(), "10.1.2.3:4000");
}

#[test]
fn open_with_no_address_available_is_refused() {
    let s = Session::new(Config::default());
    assert_eq!(s.plan_open("").unwrap_err(), CmdError::EmptyAddress);
    assert!(!s.is_connected());
}

#[test]
fn open_with_empty_input_falls_back_to_the_recent_connection() {
    let mut cfg = Config::default();
    cfg.recent_connection = "9.9.9.9:9000".to_string();
    let s = Session::new(cfg);
    let plan = s.plan_open("").expect("the recent connection is substituted");
    assert_eq!(plan.address, "9.9.9.9:9000");
    assert_eq!(plan.connect_timeout_ms, 10000);
}

#[test]
fn open_with_a_malformed_address_is_refused() {
    let s = Session::new(Config::default());
    assert_eq!(s.plan_open("bad-address").unwrap_err(), CmdError::InvalidAddress);
    assert!(!s.is_connected());
}

#[test]
fn open_success_remembers_the_address() {
    let s = connected_session("172.16.0.9:7777");
    assert!(s.is_connected());
    assert_eq!(s.label(), "172.16.0.9:7777");
    assert_eq!(s.config.recent_connection, "172.16.0.9:7777");
}

#[test]
fn open_uses_the_configured_connect_timeout() {
    let mut cfg = Config::default();
    cfg.connection_timeout = 1234;
    let s = Session::new(cfg);
    let plan = s.plan_open("127.0.0.1:9").expect("the address is valid");
    assert_eq!(plan.connect_timeout_ms, 1234);
}

#[test]
fn send_before_open_is_refused() {
    let s = Session::new(Config::default());
    assert_eq!(s.plan_send("hello").unwrap_err(), CmdError::NotConnected);
}

#[test]
fn send_without_waiting_plans_no_read() {
    let mut s = connected_session("127.0.0.1:9000");
    s.config.wait_for_response = false;
    let plan = s.plan_send("hello").expect("connected, so the send is planned");
    assert!(!plan.wait_for_response);
    assert_eq!(plan.message, "hello");
}

#[test]
fn send_waiting_plans_one_read_with_the_configured_deadline() {
    let mut s = connected_session("127.0.0.1:9000");
    s.config.wait_for_response = true;
    s.config.read_timeout = 777;
    let plan = s.plan_send("ping").expect("connected, so the send is planned");
    assert!(plan.wait_for_response);
    assert_eq!(plan.read_timeout_ms, 777);
}

#[test]
fn echoed_reply_is_decoded_verbatim() {
    // an echo peer sends the same bytes back; the decoded reply is the
    // message itself
    let s = connected_session("127.0.0.1:9000");
    let plan = s.plan_send("hello").expect("connected, so the send is planned");
    assert!(plan.wait_for_response);
    let mut buf = plan.message.as_bytes().to_vec();
    buf.resize(1024, 0u8);
    assert_eq!(decode_reply(&buf, 5), "hello");
}

#[test]
fn reply_decoding_is_lossy_not_failing() {
    let buf = vec![0xffu8, b'o', b'k'];
    assert_eq!(decode_reply(&buf, 3), "\u{FFFD}ok");
    assert_eq!(decode_reply(&buf, 0), "");
}

#[test]
fn close_without_a_connection_is_refused_and_exit_is_immediate() {
    let mut s = Session::new(Config::default());
    assert_eq!(s.close().unwrap_err(), CmdError::NotConnected);
    // `exit` shuts a socket down only when one is held: nothing here
    assert!(!s.is_connected());
}

#[test]
fn close_forgets_the_connection_and_resets_the_label() {
    let mut s = connected_session("127.0.0.1:9000");
    assert!(s.close().is_ok());
    assert!(!s.is_connected());
    assert_eq!(s.label(), "relayx");
    assert_eq!(s.config.recent_connection, "127.0.0.1:9000");
    assert_eq!(s.close().unwrap_err(), CmdError::NotConnected);
}

#[test]
fn list_rows_render_the_configuration() {
    let mut cfg = Config::default();
    cfg.wait_for_response = false;
    cfg.read_timeout = 250;
    cfg.connection_timeout = 9000;
    let rows = handle_list(&cfg);
    assert_eq!(rows.len(), 3);
    assert_eq!(rows[0].name, "wait_for_response");
    assert_eq!(rows[0].description, "false");
    assert_eq!(rows[1].name, "read_timeout");
    assert_eq!(rows[1].description, "250 milliseconds");
    assert_eq!(rows[2].name, "connection_timeout");
    assert_eq!(rows[2].description, "9000 milliseconds");
}

#[test]
fn help_rows_list_every_command() {
    let rows = handle_help();
    assert_eq!(rows.len(), 7);
    assert_eq!(rows[0].name, "open, o");
    assert_eq!(rows[0].description, "Open a new TCP connection");
    assert_eq!(rows[6].name, "exit");
    assert_eq!(rows[6].description, "Exit Relayx");
}

#[test]
fn table_rendering_lays_the_cells_out() {
    let rows = vec![
        TableEntry { name: "alpha".to_string(), description: "first letter".to_string() },
        TableEntry { name: "beta".to_string(), description: "second letter".to_string() },
    ];
    let text = print_table(rows);
    assert!(text.contains("alpha"));
    assert!(text.contains("first letter"));
    assert!(text.contains("beta"));
    assert!(text.contains("second letter"));
}

#[test]
fn open_command_with_a_bad_address_leaves_the_session_disconnected() {
    let s = Session::new(Config::default());
    match dispatch_line("open bad-address") {
        Dispatch::Run(Command::Open, args) => {
            assert_eq!(args, vec!["bad-address"]);
            assert_eq!(s.plan_open(&args[0]).unwrap_err(), CmdError::InvalidAddress);
        }
        other => panic!("expected an open command, got {:?}", other),
    }
    assert!(!s.is_connected());
    assert_eq!(s.label(), "relayx");
}

#[test]
fn error_messages_are_the_reported_texts() {
    assert_eq!(
        CmdError::AlreadyConnected.message(),
        "You're already connected to another host."
    );
    assert_eq!(
        CmdError::NotConnected.message(),
        "Connection not established. Use 'open' command first."
    );
    assert_eq!(CmdError::EmptyAddress.message(), "Address is empty.");
    assert_eq!(CmdError::InvalidAddress.message(), "Invalid address format");
    assert_eq!(CmdError::ConnectFailed.message(), "Failed to connect to server");
    assert_eq!(CmdError::SendFailed.message(), "Failed to send message");
    assert_eq!(
        CmdError::SendSucceededReceiveFailed.message(),
        "failed to read the response, but message was sent."
    );
}
