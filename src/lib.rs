//! The logic of a multi-user FTP server: the request grammar, the reply
//! codes, the per-user path sandbox, the account store, and the connection
//! table with the state machine of each session and its data connection.
//! Sockets, files and the event loop stay outside; they hand this library
//! plain values and carry out what it decides.
use vstd::prelude::*;

pub mod buffer;
pub mod command;
pub mod path;
pub mod port;
pub mod response;
pub mod server;
pub mod store;
pub mod user;

verus! {

} // verus!
