//! Client-side runtime for a remote automation driver.
//!
//! The driver is another process; it owns the browsers. The client keeps
//! a picture of the driver's objects and talks to it in frames of JSON
//! over a pipe. This crate is the part of the client that decides:
//!
//! - [`transport`] cuts the stream into frames and frames what is sent;
//! - [`wire`] reads the JSON of a message and writes that of a request;
//! - [`registry`] holds the tree of remote objects and disposes subtrees;
//! - [`pending`] gives out request ids and settles each call once;
//! - [`connection`] puts the two together and dispatches messages;
//! - [`channel`], [`channel_owner`] and [`protocol`] are the objects as
//!   callers see them;
//! - [`assertions`] judges observations of an element until an
//!   expectation holds or its time is up.
//!
//! Nothing here reads, writes, waits or sleeps: every function takes what
//! was observed and answers with what is to be done. [`lifecycle`] states
//! what holds of every run of creations and disposals.
//!
//! [`json`], [`pattern`], [`time`] and [`text`] hold what is taken on
//! trust from `serde_json`, `regex` and the standard library.

pub mod assertions;
pub mod channel;
pub mod channel_owner;
pub mod connection;
pub mod error;
pub mod json;
pub mod lifecycle;
pub mod pattern;
pub mod pending;
pub mod protocol;
pub mod registry;
pub mod text;
pub mod time;
pub mod transport;
pub mod wire;

pub use assertions::{expect, Expectation};
pub use error::Error;
