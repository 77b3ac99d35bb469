//! The command dispatcher: one line of operator input becomes a command and
//! its arguments, or a no-op, or an unknown-command report.
//!
//! Matching of the command token is case-insensitive (ASCII case); the
//! recognized names and aliases are `open`/`o`, `send`/`s`, `close`, `set`,
//! `list`/`ls`, `clear`, `help`/`?` and `exit`. A line with no tokens is a
//! no-op, never an error.

use vstd::prelude::*;
use vstd::string::*;

use crate::text::{eq_ignore_ascii_case, lower_seq, tokenize, tokens_of};

verus! {

/// One of the recognized commands.
#[derive(Clone, Copy, Debug, PartialEq, Eq, Structural)]
pub enum Command {
    Open,
    Send,
    Close,
    SetOption,
    List,
    Clear,
    Help,
    Exit,
}

/// The command a name selects, matched case-insensitively over the command
/// table and its aliases; `None` for a name outside the table.
pub open spec fn spec_lookup(name: Seq<char>) -> Option<Command> {
    let l = lower_seq(name);
    if l == lower_seq("open"@) || l == lower_seq("o"@) {
        Some(Command::Open)
    } else if l == lower_seq("send"@) || l == lower_seq("s"@) {
        Some(Command::Send)
    } else if l == lower_seq("close"@) {
        Some(Command::Close)
    } else if l == lower_seq("set"@) {
        Some(Command::SetOption)
    } else if l == lower_seq("list"@) || l == lower_seq("ls"@) {
        Some(Command::List)
    } else if l == lower_seq("clear"@) {
        Some(Command::Clear)
    } else if l == lower_seq("help"@) || l == lower_seq("?"@) {
        Some(Command::Help)
    } else if l == lower_seq("exit"@) {
        Some(Command::Exit)
    } else {
        None
    }
}

/// Looks a command name up in the command table, case-insensitively.
pub fn lookup_command(name: &str) -> (r: Option<Command>)
    ensures
        r == spec_lookup(name@),
{
    if eq_ignore_ascii_case(name, "open") || eq_ignore_ascii_case(name, "o") {
        Some(Command::Open)
    } else if eq_ignore_ascii_case(name, "send") || eq_ignore_ascii_case(name, "s") {
        Some(Command::Send)
    } else if eq_ignore_ascii_case(name, "close") {
        Some(Command::Close)
    } else if eq_ignore_ascii_case(name, "set") {
        Some(Command::SetOption)
    } else if eq_ignore_ascii_case(name, "list") || eq_ignore_ascii_case(name, "ls") {
        Some(Command::List)
    } else if eq_ignore_ascii_case(name, "clear") {
        Some(Command::Clear)
    } else if eq_ignore_ascii_case(name, "help") || eq_ignore_ascii_case(name, "?") {
        Some(Command::Help)
    } else if eq_ignore_ascii_case(name, "exit") {
        Some(Command::Exit)
    } else {
        None
    }
}

/// Splits one line of input into its command token and argument tokens; a
/// line with no tokens gives an empty command and no arguments.
pub fn parse_command(input: &str) -> (r: (String, Vec<String>))
    ensures
        tokens_of(input@).len() == 0 ==> r.0@ == Seq::<char>::empty() && r.1@.len() == 0,
        tokens_of(input@).len() > 0 ==> r.0@ == tokens_of(input@)[0] && r.1.deep_view()
            == tokens_of(input@).drop_first(),
{
    let toks = tokenize(input);
    if toks.len() == 0 {
        (String::new(), Vec::new())
    } else {
        let cmd = toks[0].clone();
        let mut args: Vec<String> = Vec::new();
        let mut i: usize = 1;
        while i < toks.len()
            invariant
                1 <= i <= toks.len(),
                toks.deep_view() == tokens_of(input@),
                args.deep_view() =~= toks.deep_view().subrange(1, i as int),
            decreases toks.len() - i,
        {
            let ghost prev = args.deep_view();
            args.push(toks[i].clone());
            proof {
                assert(args.deep_view() =~~= prev.push(toks.deep_view()[i as int]));
                assert(args.deep_view() =~~= toks.deep_view().subrange(1, i + 1));
            }
            i = i + 1;
        }
        proof {
            assert(args.deep_view() =~~= tokens_of(input@).drop_first());
        }
        (cmd, args)
    }
}

/// What one line of input asks for.
#[derive(Debug)]
pub enum Dispatch {
    /// The line held no tokens: nothing to do.
    Empty,
    /// The command token (carried here) is outside the command table.
    Unknown(String),
    /// A recognized command, with the argument tokens in order.
    Run(Command, Vec<String>),
}

/// Routes one line of operator input: no tokens is a no-op, a recognized
/// first token selects its command with the remaining tokens as arguments,
/// and any other first token is reported back as unknown.
pub fn dispatch_line(input: &str) -> (d: Dispatch)
    ensures
        d is Empty <==> tokens_of(input@).len() == 0,
        d matches Dispatch::Run(c, args) ==> tokens_of(input@).len() > 0 && spec_lookup(
            tokens_of(input@)[0],
        ) == Some(c) && args.deep_view() == tokens_of(input@).drop_first(),
        d matches Dispatch::Unknown(t) ==> tokens_of(input@).len() > 0 && spec_lookup(
            tokens_of(input@)[0],
        ) is None && t@ == tokens_of(input@)[0],
{
    let (cmd, args) = parse_command(input);
    if cmd.as_str().is_empty() {
        proof {
            crate::text::lemma_tokens_nonempty(input@);
        }
        return Dispatch::Empty;
    }
    match lookup_command(cmd.as_str()) {
        Some(c) => Dispatch::Run(c, args),
        None => Dispatch::Unknown(cmd),
    }
}

} // verus!
