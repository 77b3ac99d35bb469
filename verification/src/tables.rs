//! The two-column tables shown by `list` and `help`.
//!
//! The rows are built here, with their exact contents stated; laying them
//! out as a grid of aligned cells is left to the table renderer.

use vstd::prelude::*;
use vstd::string::*;

use crate::config::{bool_str, Config};
use crate::numbers::{dec_str, to_dec};

verus! {

/// One row of a table: a name and a description.
pub struct TableEntry {
    pub name: String,
    pub description: String,
}

/// The text that laying `names` and `descriptions` out as a two-column grid
/// yields: a function of the cell contents alone.
pub uninterp spec fn table_text(names: Seq<Seq<char>>, descriptions: Seq<Seq<char>>) -> Seq<char>;

/// Relies on `tabled`'s builder: each entry becomes one record of a
/// blank-styled table, whose rendering depends on the cell contents alone.
#[verifier::external_body]
pub fn print_table(entries: Vec<TableEntry>) -> (r: String)
    ensures
        r@ == table_text(
            entries@.map_values(|e: TableEntry| e.name@),
            entries@.map_values(|e: TableEntry| e.description@),
        ),
{
    let mut builder = tabled::builder::Builder::default();
    for e in entries.iter() {
        builder.push_record([e.name.as_str(), e.description.as_str()]);
    }
    let mut table = builder.build();
    table.with(tabled::settings::Style::blank());
    table.to_string()
}

/// A row whose cells are exactly `name` and `description`.
fn entry(name: &str, description: String) -> (r: TableEntry)
    ensures
        r.name@ == name@,
        r.description@ == description@,
{
    TableEntry { name: String::from_str(name), description }
}

/// The `list` command: one row per configuration field, the booleans as
/// `true`/`false` and the timeouts with a `milliseconds` unit.
pub fn handle_list(config: &Config) -> (r: Vec<TableEntry>)
    ensures
        r@.len() == 3,
        r@[0].name@ == "wait_for_response"@ && r@[0].description@ == bool_str(
            config.wait_for_response,
        ),
        r@[1].name@ == "read_timeout"@ && r@[1].description@ == dec_str(config.read_timeout as nat)
            + " milliseconds"@,
        r@[2].name@ == "connection_timeout"@ && r@[2].description@ == dec_str(
            config.connection_timeout as nat,
        ) + " milliseconds"@,
{
    let wait = String::from_str(if config.wait_for_response { "true" } else { "false" });
    let mut read = to_dec(config.read_timeout);
    read.append(" milliseconds");
    let mut connect = to_dec(config.connection_timeout);
    connect.append(" milliseconds");
    let mut r: Vec<TableEntry> = Vec::new();
    r.push(entry("wait_for_response", wait));
    r.push(entry("read_timeout", read));
    r.push(entry("connection_timeout", connect));
    r
}

/// The `help` command: the static command table, one row per command with
/// its aliases and a one-line description.
pub fn handle_help() -> (r: Vec<TableEntry>)
    ensures
        r@.len() == 7,
        r@[0].name@ == "open, o"@ && r@[0].description@ == "Open a new TCP connection"@,
        r@[1].name@ == "send, s"@ && r@[1].description@ == "Send a message"@,
        r@[2].name@ == "close"@ && r@[2].description@ == "Close current connection"@,
        r@[3].name@ == "set"@ && r@[3].description@ == "Set configuration options"@,
        r@[4].name@ == "list, ls"@ && r@[4].description@ == "List current configuration."@,
        r@[5].name@ == "clear"@ && r@[5].description@ == "Clear the console screen"@,
        r@[6].name@ == "exit"@ && r@[6].description@ == "Exit Relayx"@,
{
    let mut r: Vec<TableEntry> = Vec::new();
    r.push(entry("open, o", String::from_str("Open a new TCP connection")));
    r.push(entry("send, s", String::from_str("Send a message")));
    r.push(entry("close", String::from_str("Close current connection")));
    r.push(entry("set", String::from_str("Set configuration options")));
    r.push(entry("list, ls", String::from_str("List current configuration.")));
    r.push(entry("clear", String::from_str("Clear the console screen")));
    r.push(entry("exit", String::from_str("Exit Relayx")));
    r
}

} // verus!
