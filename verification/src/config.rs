//! The configuration of the client and the `set` command over it.
//!
//! Four fields: whether `send` waits for a reply, the reply read deadline,
//! the connect deadline (both in milliseconds), and the address of the most
//! recent successful connection. The settable options form a closed set of
//! three names; values are validated before anything is mutated, so a failed
//! `set` never leaves the configuration partially changed.

use vstd::prelude::*;
use vstd::string::*;

use crate::errors::CmdError;
use crate::numbers::{all_digits, digits_val, parse_u64, to_dec};
use crate::text::str_eq;

verus! {

/// A character that may stand inside the persisted form of a string field:
/// anything but the quote, the backslash and the line breaks the codec uses
/// as structure.
pub open spec fn plain_char(c: char) -> bool {
    c != '"' && c != '\\' && c != '\n' && c != '\r'
}

/// Whether every character of `s` is plain.
pub open spec fn plain_seq(s: Seq<char>) -> bool {
    forall|i: int| 0 <= i < s.len() ==> plain_char(s[i])
}

/// The text `true` or `false`.
pub open spec fn bool_str(b: bool) -> Seq<char> {
    if b {
        "true"@
    } else {
        "false"@
    }
}

/// The mathematical value of a configuration.
pub ghost struct ConfigV {
    pub wait_for_response: bool,
    pub read_timeout: u64,
    pub connection_timeout: u64,
    pub recent_connection: Seq<char>,
}

impl ConfigV {
    /// A configuration is well formed when its stored address can be
    /// persisted verbatim between quotes.
    pub open spec fn wf(&self) -> bool {
        plain_seq(self.recent_connection)
    }
}

/// The configuration of the client.
#[derive(Clone, Debug)]
pub struct Config {
    /// Whether `send` waits for one reply after writing.
    pub wait_for_response: bool,
    /// Deadline for that reply read, in milliseconds.
    pub read_timeout: u64,
    /// Deadline for a connection attempt, in milliseconds.
    pub connection_timeout: u64,
    /// Address of the most recent successful connection; empty when none.
    pub recent_connection: String,
}

impl View for Config {
    type V = ConfigV;

    open spec fn view(&self) -> ConfigV {
        ConfigV {
            wait_for_response: self.wait_for_response,
            read_timeout: self.read_timeout,
            connection_timeout: self.connection_timeout,
            recent_connection: self.recent_connection@,
        }
    }
}

/// The default configuration: wait for a reply, ten-second deadlines, no
/// recent connection.
pub open spec fn default_config() -> ConfigV {
    ConfigV {
        wait_for_response: true,
        read_timeout: 10000,
        connection_timeout: 10000,
        recent_connection: Seq::empty(),
    }
}

impl Default for Config {
    /// Builds the default configuration.
    fn default() -> (r: Config)
        ensures
            r@ == default_config(),
    {
        Config {
            wait_for_response: true,
            read_timeout: 10000,
            connection_timeout: 10000,
            recent_connection: String::new(),
        }
    }
}

/// One settable configuration option.
#[derive(Clone, Copy, Debug, PartialEq, Eq, Structural)]
pub enum ConfigOption {
    WaitForResponse,
    ReadTimeout,
    ConnectionTimeout,
}

/// The option a name selects; names are matched exactly.
pub open spec fn spec_parse_option(name: Seq<char>) -> Option<ConfigOption> {
    if name == "wait_for_response"@ {
        Some(ConfigOption::WaitForResponse)
    } else if name == "read_timeout"@ {
        Some(ConfigOption::ReadTimeout)
    } else if name == "connection_timeout"@ {
        Some(ConfigOption::ConnectionTimeout)
    } else {
        None
    }
}

impl ConfigOption {
    /// Looks an option name up; names are matched exactly.
    pub fn parse(name: &str) -> (r: Option<ConfigOption>)
        ensures
            r == spec_parse_option(name@),
    {
        if str_eq(name, "wait_for_response") {
            Some(ConfigOption::WaitForResponse)
        } else if str_eq(name, "read_timeout") {
            Some(ConfigOption::ReadTimeout)
        } else if str_eq(name, "connection_timeout") {
            Some(ConfigOption::ConnectionTimeout)
        } else {
            None
        }
    }

    /// The text shown for this option's current value.
    pub open spec fn spec_print(&self, c: ConfigV) -> Seq<char> {
        match self {
            ConfigOption::WaitForResponse => "\x1b[3m\x1b[1mwait_for_response\x1b[0m\nCurrent: "@
                + bool_str(c.wait_for_response) + ". Possible: true, false"@,
            ConfigOption::ReadTimeout => "\x1b[3m\x1b[1mread_timeout\x1b[0m\nCurrent: "@
                + crate::numbers::dec_str(c.read_timeout as nat) + " milliseconds."@,
            ConfigOption::ConnectionTimeout => "\x1b[3m\x1b[1mconnection_timeout\x1b[0m\nCurrent: "@
                + crate::numbers::dec_str(c.connection_timeout as nat) + " milliseconds."@,
        }
    }

    /// Renders this option's current value for display.
    pub fn print(&self, cfg: &Config) -> (r: String)
        ensures
            r@ == self.spec_print(cfg@),
    {
        match self {
            ConfigOption::WaitForResponse => {
                let mut r = String::from_str("\x1b[3m\x1b[1mwait_for_response\x1b[0m\nCurrent: ");
                r.append(if cfg.wait_for_response { "true" } else { "false" });
                r.append(". Possible: true, false");
                proof {
                    assert(r@ =~= self.spec_print(cfg@));
                }
                r
            }
            ConfigOption::ReadTimeout => {
                let mut r = String::from_str("\x1b[3m\x1b[1mread_timeout\x1b[0m\nCurrent: ");
                let num = to_dec(cfg.read_timeout);
                r.append(num.as_str());
                r.append(" milliseconds.");
                proof {
                    assert(r@ =~= self.spec_print(cfg@));
                }
                r
            }
            ConfigOption::ConnectionTimeout => {
                let mut r = String::from_str("\x1b[3m\x1b[1mconnection_timeout\x1b[0m\nCurrent: ");
                let num = to_dec(cfg.connection_timeout);
                r.append(num.as_str());
                r.append(" milliseconds.");
                proof {
                    assert(r@ =~= self.spec_print(cfg@));
                }
                r
            }
        }
    }

    /// The configuration that assigning the text `v` to this option yields,
    /// or `None` when `v` does not parse for the option's type.
    pub open spec fn spec_set(&self, c: ConfigV, v: Seq<char>) -> Option<ConfigV> {
        match self {
            ConfigOption::WaitForResponse => {
                if v == "true"@ {
                    Some(ConfigV { wait_for_response: true, ..c })
                } else if v == "false"@ {
                    Some(ConfigV { wait_for_response: false, ..c })
                } else {
                    None
                }
            }
            ConfigOption::ReadTimeout => {
                if all_digits(v) && digits_val(v) <= u64::MAX {
                    Some(ConfigV { read_timeout: digits_val(v) as u64, ..c })
                } else {
                    None
                }
            }
            ConfigOption::ConnectionTimeout => {
                if all_digits(v) && digits_val(v) <= u64::MAX {
                    Some(ConfigV { connection_timeout: digits_val(v) as u64, ..c })
                } else {
                    None
                }
            }
        }
    }

    /// Assigns the text `val` to this option of `cfg`: booleans accept
    /// exactly `true` and `false`, timeouts accept a decimal numeral; a value
    /// that does not parse leaves the configuration unchanged.
    pub fn set(&self, cfg: &mut Config, val: &str) -> (r: Result<(), CmdError>)
        ensures
            (match self.spec_set(old(cfg)@, val@) {
                Some(c2) => r == Ok::<(), CmdError>(()) && final(cfg)@ == c2,
                None => r == Err::<(), CmdError>(CmdError::InvalidValue) && *final(cfg) == *old(
                    cfg,
                ),
            }),
    {
        match self {
            ConfigOption::WaitForResponse => {
                if str_eq(val, "true") {
                    cfg.wait_for_response = true;
                    Ok(())
                } else if str_eq(val, "false") {
                    cfg.wait_for_response = false;
                    Ok(())
                } else {
                    Err(CmdError::InvalidValue)
                }
            }
            ConfigOption::ReadTimeout => {
                match parse_u64(val) {
                    Some(v) => {
                        cfg.read_timeout = v;
                        Ok(())
                    }
                    None => Err(CmdError::InvalidValue),
                }
            }
            ConfigOption::ConnectionTimeout => {
                match parse_u64(val) {
                    Some(v) => {
                        cfg.connection_timeout = v;
                        Ok(())
                    }
                    None => Err(CmdError::InvalidValue),
                }
            }
        }
    }
}

/// The outcome of a successful `set` command.
#[derive(Debug)]
pub enum SetOutcome {
    /// No arguments: there was nothing to set; the carried notice is shown
    /// to the operator, and nothing failed.
    NothingToSet(String),
    /// One argument: the option's current value, rendered for display.
    Shown(String),
    /// Two arguments: the option was assigned and should now be persisted.
    Updated,
}

/// The `set` command: no arguments is a non-fatal notice, not an error; one
/// argument shows the named option's value; two arguments assign a value to
/// the named option; more arguments are refused. A failed lookup or parse
/// leaves the configuration exactly as it was.
pub fn handle_set(args: &Vec<String>, config: &mut Config) -> (r: Result<SetOutcome, CmdError>)
    ensures
        args@.len() == 0 ==> (r matches Ok(SetOutcome::NothingToSet(t)) && t@
            == "Nothing to set."@) && *final(config) == *old(config),
        args@.len() == 1 ==> *final(config) == *old(config) && (match spec_parse_option(
            args@[0]@,
        ) {
            Some(o) => r matches Ok(SetOutcome::Shown(t)) && t@ == o.spec_print(old(config)@),
            None => r == Err::<SetOutcome, CmdError>(CmdError::UnknownOption),
        }),
        args@.len() == 2 ==> (match spec_parse_option(args@[0]@) {
            Some(o) => (match o.spec_set(old(config)@, args@[1]@) {
                Some(c2) => r == Ok::<SetOutcome, CmdError>(SetOutcome::Updated) && final(config)@
                    == c2,
                None => r == Err::<SetOutcome, CmdError>(CmdError::InvalidValue) && *final(config)
                    == *old(config),
            }),
            None => r == Err::<SetOutcome, CmdError>(CmdError::UnknownOption) && *final(config)
                == *old(config),
        }),
        args@.len() >= 3 ==> r == Err::<SetOutcome, CmdError>(CmdError::TooManyArguments) && *final(config) == *old(config),
{
    if args.len() == 0 {
        return Ok(SetOutcome::NothingToSet(String::from_str("Nothing to set.")));
    }
    if args.len() == 1 {
        return match ConfigOption::parse(args[0].as_str()) {
            Some(option) => Ok(SetOutcome::Shown(option.print(config))),
            None => Err(CmdError::UnknownOption),
        };
    }
    if args.len() == 2 {
        return match ConfigOption::parse(args[0].as_str()) {
            Some(option) => {
                match option.set(config, args[1].as_str()) {
                    Ok(()) => Ok(SetOutcome::Updated),
                    Err(e) => Err(e),
                }
            }
            None => Err(CmdError::UnknownOption),
        };
    }
    Err(CmdError::TooManyArguments)
}

} // verus!
