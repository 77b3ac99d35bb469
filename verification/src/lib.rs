//! Interactive TCP relay client, verified core.
//!
//! The library holds the logic of a small read-eval-print TCP client: the
//! command dispatcher, the connection-lifecycle state machine, the
//! configuration option model with its on-disk text codec, and the address
//! validator. Socket, file and terminal I/O live outside the library; the
//! functions here decide what that outer loop should do and are verified.

pub mod address;
pub mod codec;
pub mod config;
pub mod dispatch;
pub mod errors;
pub mod numbers;
pub mod session;
pub mod tables;
pub mod text;
