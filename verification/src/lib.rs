//! Client-side implementation of the Minecraft Server List Ping protocol.
//!
//! The crate speaks both wire protocols a server may answer with: the modern
//! JSON status exchange framed in varint-length packets, and the legacy
//! UTF-16BE plaintext reply.  Both are normalized into one [`Response`] value.
//! All protocol decisions live here as verified code; the caller performs the
//! actual socket reads and writes by driving a [`session::Session`].

use vstd::prelude::*;

pub mod entity;
pub mod legacy;
pub mod packet;
pub mod session;
pub mod text;
pub mod varint;

pub use entity::{Chat, ForgeChannel, ForgeData, ForgeMod, ModInfo, ModInfoItem, Player, Players, RawDescription, RawLatest, Response, Version};
pub use varint::VarintStatus;

verus! {

/// The ways a ping attempt can fail.
#[derive(Debug, Clone, Copy, PartialEq, Eq, Structural)]
pub enum Error {
    /// The underlying byte stream failed; never masked by protocol fallback.
    Transport,
    /// A variable-length integer ran past its five-byte limit.
    MalformedVarint,
    /// The framing was structurally invalid: wrong packet id, an
    /// underflowing declared length, or a truncated legacy reply.
    ProtocolError,
    /// The framing was sound but the payload could not be decoded: bad
    /// status schema, bad UTF-16, bad favicon, or unparsable legacy fields.
    InvalidResponse,
}

impl Error {
    /// A short human-readable description of the error.
    pub fn message(&self) -> (r: &'static str)
        ensures
            self is Transport ==> r@ == "transport failure"@,
            self is MalformedVarint ==> r@ == "malformed varint"@,
            self is ProtocolError ==> r@ == "protocol error"@,
            self is InvalidResponse ==> r@ == "invalid response"@,
    {
        match self {
            Error::Transport => "transport failure",
            Error::MalformedVarint => "malformed varint",
            Error::ProtocolError => "protocol error",
            Error::InvalidResponse => "invalid response",
        }
    }
}

} // verus!
