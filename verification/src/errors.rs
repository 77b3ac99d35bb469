//! The error vocabulary of the client.
//!
//! Every failure a command can report is one of these variants; each carries
//! the exact message text shown to the operator. All of them are non-fatal:
//! the read-eval-print loop reports the message and continues.

use vstd::prelude::*;

verus! {

/// One failure kind of a command.
#[derive(Clone, Copy, Debug, PartialEq, Eq, Structural)]
pub enum CmdError {
    /// `open` while a connection is already held.
    AlreadyConnected,
    /// `send` or `close` with no connection held.
    NotConnected,
    /// `open` with an empty address and no recent connection to fall back to.
    EmptyAddress,
    /// `open` with an address that is not a literal `IPv4:port`.
    InvalidAddress,
    /// The network refused or timed out the connection attempt.
    ConnectFailed,
    /// The socket write failed; nothing was delivered.
    SendFailed,
    /// The message was written, but no reply arrived before the read deadline.
    SendSucceededReceiveFailed,
    /// `set` with an option name outside the closed option set.
    UnknownOption,
    /// `set` with a value the named option cannot parse.
    InvalidValue,
    /// `set` with three or more arguments.
    TooManyArguments,
    /// A command token outside the command table.
    UnknownCommand,
}

impl CmdError {
    /// The message text reported to the operator for this failure.
    pub fn message(&self) -> (r: String)
        ensures
            r@ == self.spec_message(),
    {
        match self {
            CmdError::AlreadyConnected => String::from_str("You're already connected to another host."),
            CmdError::NotConnected => String::from_str("Connection not established. Use 'open' command first."),
            CmdError::EmptyAddress => String::from_str("Address is empty."),
            CmdError::InvalidAddress => String::from_str("Invalid address format"),
            CmdError::ConnectFailed => String::from_str("Failed to connect to server"),
            CmdError::SendFailed => String::from_str("Failed to send message"),
            CmdError::SendSucceededReceiveFailed => String::from_str("failed to read the response, but message was sent."),
            CmdError::UnknownOption => String::from_str("Unknown option."),
            CmdError::InvalidValue => String::from_str("Invalid value."),
            CmdError::TooManyArguments => String::from_str("Too many arguments"),
            CmdError::UnknownCommand => String::from_str("Unknown command"),
        }
    }

    /// The message text, as a sequence of characters.
    pub open spec fn spec_message(&self) -> Seq<char> {
        match self {
            CmdError::AlreadyConnected => "You're already connected to another host."@,
            CmdError::NotConnected => "Connection not established. Use 'open' command first."@,
            CmdError::EmptyAddress => "Address is empty."@,
            CmdError::InvalidAddress => "Invalid address format"@,
            CmdError::ConnectFailed => "Failed to connect to server"@,
            CmdError::SendFailed => "Failed to send message"@,
            CmdError::SendSucceededReceiveFailed => "failed to read the response, but message was sent."@,
            CmdError::UnknownOption => "Unknown option."@,
            CmdError::InvalidValue => "Invalid value."@,
            CmdError::TooManyArguments => "Too many arguments"@,
            CmdError::UnknownCommand => "Unknown command"@,
        }
    }
}

} // verus!
