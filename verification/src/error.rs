//! The ways in which starting up, or serving one connection, can fail.

use vstd::prelude::*;

verus! {

/// Why no usable upstream key could be taken from the credential file.
#[derive(Clone, Copy, Debug, PartialEq, Eq, Structural)]
pub enum StartupError {
    /// The file does not begin with the name of the key.
    InvalidFile,
    /// The file names the key but gives it no value.
    MissingKey,
}

/// The client closed its side before a whole identifier had arrived.
#[derive(Clone, Copy, Debug, PartialEq, Eq, Structural)]
pub struct FramingError {
    /// How many bytes did arrive.
    pub received: usize,
}

/// Why upstream gave nothing that can be passed on.
#[derive(Clone, Copy, Debug, PartialEq, Eq, Structural)]
pub enum UpstreamError {
    /// The HTTP call itself failed.
    Transport,
    /// Upstream answered with this status, which is not a success.
    Status(u16),
    /// The body is not a JSON document.
    Syntax,
    /// The body is JSON, but not of the expected shape.
    Schema,
}

/// Why a connection was dropped without an answer, or with an answer that
/// may not have arrived.
#[derive(Clone, Copy, Debug, PartialEq, Eq, Structural)]
pub enum ConnectionError {
    Framing(FramingError),
    Upstream(UpstreamError),
    /// Sending the answer, or closing the sending side after it, failed.
    Write,
}

} // verus!
