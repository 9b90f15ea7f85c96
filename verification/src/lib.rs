//! Keys that mute and unmute audio endpoints.
//!
//! A key is bound to the endpoints of a given name, in one of two modes. A hold
//! key unmutes its endpoints while it is down. A toggle key flips their mute
//! state with every press. Endpoints come and go while the program runs, so
//! the bindings meet the live endpoints in a table that two kinds of workers
//! share: a watcher, which follows the server's directory, and one dispatcher
//! for each keyboard.
//!
//! This library holds the decisions and leaves the talking to its caller. A
//! worker hands each notification or key event to the library together with
//! the table, and gets back a plan: the [`binding::Action`]s to perform, in
//! order, on its own connection to the server.
//!
//! - [`binding`]: the shared vocabulary.
//! - [`config`]: from names on the command line to bindings.
//! - [`table`]: the binding table.
//! - [`watcher`]: from announcements to rows of the table.
//! - [`dispatch`]: from key events to mute requests.
//! - [`device`]: what is read of an input device and its events.
//! - [`barrier`]: the round trip that closes a batch of requests.
//! - [`payload`]: the two cached request payloads.
//! - [`laws`]: what holds of all this taken together.

pub mod barrier;
pub mod binding;
pub mod config;
pub mod device;
pub mod dispatch;
pub mod laws;
pub mod payload;
pub mod table;
pub mod watcher;
