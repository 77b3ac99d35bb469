//! The connection-lifecycle state machine.
//!
//! A session is the pair of the connection state — disconnected, or
//! connected to one address — and the configuration. The functions here
//! decide everything about `open`, `send`, `close` and `exit`: which
//! precondition fails, which address or message is used, which deadlines
//! apply, and how the state changes. The outer loop owns the socket handle
//! and performs the connect, write, read and shutdown this module plans;
//! its failures are reported with the errors fixed here and never change
//! the session state.

use vstd::prelude::*;
use vstd::string::*;

use crate::address::valid_addr;
use crate::config::Config;
use crate::errors::CmdError;

verus! {

/// The connection state: no socket, or one socket dialed to `address`.
pub enum ConnState {
    Disconnected,
    Connected { address: String },
}

/// The label shown in the prompt while disconnected.
pub open spec fn idle_label() -> Seq<char> {
    "relayx"@
}

/// The whole state the command handlers work on.
pub struct Session {
    pub conn: ConnState,
    pub config: Config,
}

/// What a planned `open` asks the outer loop to do: dial `address` with the
/// configured connect deadline.
#[derive(Debug)]
pub struct OpenPlan {
    pub address: String,
    pub connect_timeout_ms: u64,
}

/// What a planned `send` asks the outer loop to do: write the message bytes
/// verbatim, and, exactly when `wait_for_response` is set, perform one read
/// with the configured deadline.
#[derive(Debug)]
pub struct SendPlan {
    pub message: String,
    pub wait_for_response: bool,
    pub read_timeout_ms: u64,
}

/// The address `open` resolves from the operator's input: the input itself
/// when nonempty, else the recent connection.
pub open spec fn resolved_address(input: Seq<char>, recent: Seq<char>) -> Seq<char> {
    if input.len() > 0 {
        input
    } else {
        recent
    }
}

/// The characters that lossy UTF-8 decoding yields for `bytes`: a function
/// of the bytes alone.
pub uninterp spec fn lossy_decode(bytes: Seq<u8>) -> Seq<char>;

/// Relies on `String::from_utf8_lossy`: the result depends on the bytes
/// alone, and ASCII bytes (valid UTF-8, one character per byte) are passed
/// through unchanged.
#[verifier::external_body]
fn lossy_string(bytes: &[u8]) -> (r: String)
    ensures
        r@ == lossy_decode(bytes@),
        (forall|i: int| 0 <= i < bytes@.len() ==> bytes@[i] < 0x80) ==> r@.len() == bytes@.len()
            && (forall|i: int| 0 <= i < bytes@.len() ==> r@[i] == bytes@[i] as char),
{
    String::from_utf8_lossy(bytes).into_owned()
}

/// Decodes the first `n` bytes of a reply buffer for display: lossy UTF-8,
/// never failing on invalid sequences. An all-ASCII reply is shown byte for
/// byte.
pub fn decode_reply(buf: &Vec<u8>, n: usize) -> (r: String)
    requires
        n <= buf.len(),
    ensures
        r@ == lossy_decode(buf@.take(n as int)),
        (forall|i: int| 0 <= i < n ==> buf@[i] < 0x80) ==> r@.len() == n && (forall|i: int|
            0 <= i < n ==> r@[i] == buf@[i] as char),
{
    let sl = vstd::slice::slice_subrange(buf.as_slice(), 0, n);
    proof {
        assert(sl@ =~= buf@.take(n as int));
    }
    lossy_string(sl)
}

impl Session {
    /// A fresh session: disconnected, with the given configuration.
    pub fn new(config: Config) -> (s: Session)
        ensures
            s.conn is Disconnected,
            s.config == config,
    {
        Session { conn: ConnState::Disconnected, config }
    }

    /// Whether a connection is currently held. `exit` shuts the socket down
    /// first exactly when this holds.
    pub fn is_connected(&self) -> (r: bool)
        ensures
            r == (self.conn is Connected),
    {
        match &self.conn {
            ConnState::Connected { .. } => true,
            ConnState::Disconnected => false,
        }
    }

    /// The label shown in the prompt: the dialed address while connected,
    /// the idle marker otherwise.
    pub fn label(&self) -> (r: String)
        ensures
            self.conn is Disconnected ==> r@ == idle_label(),
            self.conn matches ConnState::Connected { address } ==> r@ == address@,
    {
        match &self.conn {
            ConnState::Disconnected => String::from_str("relayx"),
            ConnState::Connected { address } => address.clone(),
        }
    }

    /// Plans an `open`: refused while connected; the input (or, when the
    /// input is empty, the recent connection) must be a nonempty literal
    /// `IPv4:port`; on success the returned plan carries the resolved
    /// address and the configured connect deadline. The session itself is
    /// not changed by planning.
    pub fn plan_open(&self, address_input: &str) -> (r: Result<OpenPlan, CmdError>)
        ensures
            self.conn is Connected ==> r == Err::<OpenPlan, CmdError>(CmdError::AlreadyConnected),
            self.conn is Disconnected && address_input@.len() == 0
                && self.config.recent_connection@.len() == 0 ==> r == Err::<OpenPlan, CmdError>(
                CmdError::EmptyAddress,
            ),
            self.conn is Disconnected && resolved_address(
                address_input@,
                self.config.recent_connection@,
            ).len() > 0 && !valid_addr(
                resolved_address(address_input@, self.config.recent_connection@),
            ) ==> r == Err::<OpenPlan, CmdError>(CmdError::InvalidAddress),
            self.conn is Disconnected && valid_addr(
                resolved_address(address_input@, self.config.recent_connection@),
            ) ==> (r matches Ok(p) && p.address@ == resolved_address(
                address_input@,
                self.config.recent_connection@,
            ) && p.connect_timeout_ms == self.config.connection_timeout),
    {
        if self.is_connected() {
            return Err(CmdError::AlreadyConnected);
        }
        let resolved: &str = if !address_input.is_empty() {
            address_input
        } else {
            self.config.recent_connection.as_str()
        };
        if resolved.is_empty() {
            proof {
                crate::address::lemma_empty_not_valid_addr();
            }
            return Err(CmdError::EmptyAddress);
        }
        if !crate::address::is_valid_address(resolved) {
            return Err(CmdError::InvalidAddress);
        }
        Ok(
            OpenPlan {
                address: String::from_str(resolved),
                connect_timeout_ms: self.config.connection_timeout,
            },
        )
    }

    /// Records that the outer loop dialed `address` successfully: the
    /// session becomes connected to it and the address is remembered as the
    /// recent connection, ready to be persisted. Nothing else of the
    /// configuration changes.
    pub fn open_established(&mut self, address: String)
        requires
            old(self).conn is Disconnected,
            valid_addr(address@),
        ensures
            final(self).conn matches ConnState::Connected { address: a } && a@ == address@,
            final(self).config.recent_connection@ == address@,
            final(self).config.wait_for_response == old(self).config.wait_for_response,
            final(self).config.read_timeout == old(self).config.read_timeout,
            final(self).config.connection_timeout == old(self).config.connection_timeout,
            final(self).config@.wf(),
    {
        proof {
            crate::address::lemma_valid_addr_plain(address@);
        }
        self.config.recent_connection = address.clone();
        self.conn = ConnState::Connected { address };
    }

    /// Plans a `send`: refused while disconnected — no socket is touched —
    /// and otherwise the returned plan carries the message verbatim and
    /// repeats the configuration's reply policy: whether to wait for one
    /// reply, and for how long.
    pub fn plan_send(&self, message: &str) -> (r: Result<SendPlan, CmdError>)
        ensures
            self.conn is Disconnected ==> r == Err::<SendPlan, CmdError>(CmdError::NotConnected),
            self.conn is Connected ==> (r matches Ok(p) && p.message@ == message@
                && p.wait_for_response == self.config.wait_for_response && p.read_timeout_ms
                == self.config.read_timeout),
    {
        if !self.is_connected() {
            return Err(CmdError::NotConnected);
        }
        Ok(
            SendPlan {
                message: String::from_str(message),
                wait_for_response: self.config.wait_for_response,
                read_timeout_ms: self.config.read_timeout,
            },
        )
    }

    /// The `close` command: refused while disconnected; otherwise the
    /// session forgets the connection (the outer loop shuts the socket down
    /// on a best-effort basis) and the configuration is untouched.
    pub fn close(&mut self) -> (r: Result<(), CmdError>)
        ensures
            old(self).conn is Disconnected ==> r == Err::<(), CmdError>(CmdError::NotConnected)
                && *final(self) == *old(self),
            old(self).conn is Connected ==> r == Ok::<(), CmdError>(())
                && final(self).conn is Disconnected && final(self).config == old(self).config,
    {
        if !self.is_connected() {
            return Err(CmdError::NotConnected);
        }
        self.conn = ConnState::Disconnected;
        Ok(())
    }
}

} // verus!
