//! Tests of the tokenizer and the command dispatcher.

use relayx::dispatch::{dispatch_line, lookup_command, parse_command, Command, Dispatch};
use relayx::text::{join_tokens, split_str, str_eq, tokenize};

#[test]
fn whitespace_only_lines_dispatch_nothing() {
    for line in ["", " ", "   ", "\t", " \t ", "\r\n", "  \t\r\n  "] {
        assert!(matches!(dispatch_line(line), Dispatch::Empty), "line {:?}", line);
    }
}

#[test]
fn tokenize_splits_on_runs_of_whitespace() {
    assert_eq!(tokenize("open 127.0.0.1:80"), vec!["open", "127.0.0.1:80"]);
    assert_eq!(tokenize("  send   hello   world  "), vec!["send", "hello", "world"]);
    assert_eq!(tokenize("a\tb\r\nc"), vec!["a", "b", "c"]);
    assert_eq!(tokenize(""), Vec::<String>::new());
}

#[test]
fn parse_command_separates_command_and_arguments() {
    let (cmd, args) = parse_command("open 127.0.0.1:80");
    assert_eq!(cmd, "open");
    assert_eq!(args, vec!["127.0.0.1:80"]);
    let (cmd, args) = parse_command("   ");
    assert_eq!(cmd, "");
    assert!(args.is_empty());
    let (cmd, args) = parse_command("set read_timeout 500");
    assert_eq!(cmd, "set");
    assert_eq!(args, vec!["read_timeout", "500"]);
}

#[test]
fn command_names_match_case_insensitively() {
    assert_eq!(lookup_command("open"), Some(Command::Open));
    assert_eq!(lookup_command("OPEN"), Some(Command::Open));
    assert_eq!(lookup_command("o"), Some(Command::Open));
    assert_eq!(lookup_command("send"), Some(Command::Send));
    assert_eq!(lookup_command("S"), Some(Command::Send));
    assert_eq!(lookup_command("close"), Some(Command::Close));
    assert_eq!(lookup_command("Set"), Some(Command::SetOption));
    assert_eq!(lookup_command("list"), Some(Command::List));
    assert_eq!(lookup_command("LS"), Some(Command::List));
    assert_eq!(lookup_command("clear"), Some(Command::Clear));
    assert_eq!(lookup_command("help"), Some(Command::Help));
    assert_eq!(lookup_command("?"), Some(Command::Help));
    assert_eq!(lookup_command("Exit"), Some(Command::Exit));
    assert_eq!(lookup_command("quit"), None);
    assert_eq!(lookup_command("opens"), None);
}

#[test]
fn unknown_commands_are_reported_with_their_token() {
    match dispatch_line("frobnicate now") {
        Dispatch::Unknown(token) => assert_eq!(token, "frobnicate"),
        other => panic!("expected an unknown command, got {:?}", other),
    }
}

#[test]
fn dispatch_carries_the_argument_tokens() {
    match dispatch_line("  SEND  hello   world ") {
        Dispatch::Run(Command::Send, args) => {
            assert_eq!(args, vec!["hello", "world"]);
        }
        other => panic!("expected a send command, got {:?}", other),
    }
}

#[test]
fn join_tokens_uses_single_spaces() {
    assert_eq!(join_tokens(&vec![]), "");
    assert_eq!(join_tokens(&vec!["hello".to_string()]), "hello");
    assert_eq!(join_tokens(&vec!["hello".to_string(), "world".to_string()]), "hello world");
}

#[test]
fn split_str_keeps_empty_parts() {
    assert_eq!(split_str("a:b", ':'), vec!["a", "b"]);
    assert_eq!(split_str(":", ':'), vec!["", ""]);
    assert_eq!(split_str("", ':'), vec![""]);
    assert_eq!(split_str("1.2..3", '.'), vec!["1", "2", "", "3"]);
}

#[test]
fn str_eq_is_exact() {
    assert!(str_eq("read_timeout", "read_timeout"));
    assert!(!str_eq("read_timeout", "Read_timeout"));
    assert!(!str_eq("read", "read_timeout"));
}
