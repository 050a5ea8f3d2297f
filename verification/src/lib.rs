//! A relay that answers a fixed-width account identifier with a compact
//! projection of the account's owned games.
//!
//! A client sends eight bytes that name an account. The relay asks the
//! upstream service which games the account owns, keeps of every game the
//! application and the total playtime, and sends these back as one JSON
//! document. This crate holds what the relay decides; reading from and
//! writing to sockets is left to the program around it.
//!
//! - [`credential`] takes the upstream key out of the credential file.
//! - [`wire`] reads the identifier and writes the answer.
//! - [`upstream`] builds the upstream request and reads the upstream answer.
//! - [`model`] holds the records and the projection between them.
//! - [`handler`] leads one connection from its first byte to its close.
//! - [`json`] is the ground on which `upstream` stands: `serde_json`.
//! - [`decimal`] writes numbers.
//! - [`error`] names what can go wrong.

pub mod credential;
pub mod decimal;
pub mod error;
pub mod handler;
pub mod json;
pub mod model;
pub mod upstream;
pub mod wire;
