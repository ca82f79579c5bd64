//! The negotiation policy as an explicit state machine.
//!
//! One ping is a strictly sequential exchange, so every protocol decision
//! can be made here, in verified code, while the caller performs the
//! outside work: it carries out each [`Action`] against its byte stream (or
//! its JSON decoder) and hands the result back as an [`Event`].  The modern
//! protocol is tried first; any protocol-level failure in it falls back to
//! exactly one legacy attempt.  A transport failure ends the session at
//! once, under either protocol: a dead connection would fail the same way
//! again, so no fallback is attempted for it.

use vstd::prelude::*;
use vstd::slice::slice_to_vec;
use vstd::string::StringSliceAdditionalSpecFns;

use crate::entity::{
    spec_raw_favicon_ok, spec_response_matches_raw, RawLatest, Response,
};
use crate::legacy::{
    decode_legacy, legacy_request, parse_legacy, spec_legacy_fields_ok,
    spec_legacy_framing_ok, spec_legacy_request, spec_legacy_response_matches, spec_utf16_units,
    utf16_decoding,
};
use crate::packet::{
    build_latest_request, parse_status_body, spec_modern_request, spec_parse_status_body,
};
use crate::text::spec_split;
use crate::varint::{read_varint, spec_read_varint, VarintStatus};
use crate::Error;

verus! {

/// What the driver must do next on the session's behalf.
#[derive(Debug)]
pub enum Action {
    /// Write these bytes to the stream and flush, then report `WriteDone`.
    Write(Vec<u8>),
    /// Read exactly this many bytes, then report them as `Bytes`.
    ReadExact(usize),
    /// Read until the stream closes, then report the bytes as `Bytes`.
    ReadToClose,
    /// Decode these bytes as the loosely-typed status payload, then report
    /// the outcome as `Decoded`.
    DecodeStatus(Vec<u8>),
    /// The exchange succeeded; nothing more to do.
    Done(Response),
    /// The exchange failed; nothing more to do.
    Fail(Error),
}

/// What the driver reports back after carrying out an action.
#[derive(Debug)]
pub enum Event {
    /// The requested bytes were written and flushed.
    WriteDone,
    /// The bytes a read produced.
    Bytes(Vec<u8>),
    /// The outcome of decoding a status payload; `None` when the bytes were
    /// not a well-formed payload.
    Decoded(Option<RawLatest>),
    /// The stream failed.  Always ends the session with `Transport`.
    TransportFailed,
}

/// One in-flight ping exchange.
#[derive(Debug)]
pub enum Session {
    /// The modern request is being written.
    ModernWrite,
    /// The reply packet's length varint is being read, byte by byte.
    ModernLen { buf: Vec<u8> },
    /// The reply packet's body is being read.
    ModernBody,
    /// The raw JSON span awaits decoding; `raw` keeps its exact bytes.
    ModernStatus { raw: Vec<u8> },
    /// The legacy request is being written.
    LegacyWrite,
    /// The legacy reply is being read until the stream closes.
    LegacyRead,
    /// The session has ended in `Done` or `Fail`.
    Finished,
}

/// The step fell back to the legacy protocol: the next action writes the
/// fixed legacy ping.
pub open spec fn spec_fallback(r: (Session, Action)) -> bool {
    &&& r.0 is LegacyWrite
    &&& r.1 matches Action::Write(b) && b@ == spec_legacy_request()
}

/// The event kinds a state can accept (besides a transport failure).
pub open spec fn spec_expects(s: Session, e: Event) -> bool {
    match s {
        Session::ModernWrite => e is WriteDone,
        Session::ModernLen { .. } => e is Bytes,
        Session::ModernBody => e is Bytes,
        Session::ModernStatus { .. } => e is Decoded,
        Session::LegacyWrite => e is WriteDone,
        Session::LegacyRead => e is Bytes,
        Session::Finished => false,
    }
}

/// What ends a legacy attempt: the reply is unframed, decoded from
/// UTF-16BE and parsed; its failure is final, never retried.
pub open spec fn spec_legacy_outcome(bytes: Seq<u8>, a: Action) -> bool {
    if !spec_legacy_framing_ok(bytes) {
        a matches Action::Fail(e) && e == Error::ProtocolError
    } else {
        match utf16_decoding(spec_utf16_units(bytes.skip(3))) {
            None => a matches Action::Fail(e) && e == Error::InvalidResponse,
            Some(chars) => {
                if spec_legacy_fields_ok(spec_split(chars, '\0')) {
                    a matches Action::Done(resp) && spec_legacy_response_matches(
                        resp,
                        chars,
                        bytes,
                    )
                } else {
                    a matches Action::Fail(e) && e == Error::InvalidResponse
                }
            },
        }
    }
}

fn fallback() -> (r: (Session, Action))
    ensures
        spec_fallback(r),
{
    (Session::LegacyWrite, Action::Write(legacy_request()))
}

impl Session {
    /// Open a session: the first action writes the modern request built
    /// from this hostname and port.
    pub fn start(hostname: &str, port: u16) -> (r: (Session, Action))
        requires
            hostname.spec_bytes().len() + 16 <= i32::MAX,
        ensures
            r.0 is ModernWrite,
            r.1 matches Action::Write(b) && b@ == spec_modern_request(
                hostname.spec_bytes(),
                port,
            ),
    {
        match build_latest_request(hostname, port) {
            Ok(request) => (Session::ModernWrite, Action::Write(request)),
            Err(_) => {
                proof {
                    assert(false);
                }
                (Session::ModernWrite, Action::Write(Vec::new()))
            },
        }
    }

    /// Advance the session by one event.
    ///
    /// A transport failure ends the session with `Transport`, never with a
    /// fallback.  Any modern-side protocol failure (a malformed varint, a
    /// negative length, a bad packet id, an undecodable payload) falls back
    /// to the legacy protocol; a legacy-side failure is final.  An event of
    /// the wrong kind for the state ends the session with `ProtocolError`.
    pub fn step(self, event: Event) -> (r: (Session, Action))
        ensures
            event is TransportFailed ==> r.0 is Finished && (r.1 matches Action::Fail(e) && e
                == Error::Transport),
            !(event is TransportFailed) && !spec_expects(self, event) ==> r.0 is Finished && (
            r.1 matches Action::Fail(e) && e == Error::ProtocolError),
            self is ModernWrite && event is WriteDone ==> (r.0 matches Session::ModernLen {
                buf,
            } && buf@ == Seq::<u8>::empty()) && (r.1 matches Action::ReadExact(n) && n == 1),
            self matches Session::ModernLen { buf } ==> event matches Event::Bytes(b)
                ==> match spec_read_varint(buf@ + b@) {
                VarintStatus::NeedMore => (r.0 matches Session::ModernLen { buf: b2 } && b2@
                    == buf@ + b@) && (r.1 matches Action::ReadExact(n) && n == 1),
                VarintStatus::Malformed => spec_fallback(r),
                VarintStatus::Done { value, .. } => {
                    if value < 0 {
                        spec_fallback(r)
                    } else {
                        r.0 is ModernBody && (r.1 matches Action::ReadExact(n) && n == value)
                    }
                },
            },
            self matches Session::ModernBody ==> event matches Event::Bytes(body) ==> match
                spec_parse_status_body(body@) {
                Ok(json) => (r.0 matches Session::ModernStatus { raw } && raw@ == json) && (
                r.1 matches Action::DecodeStatus(j) && j@ == json),
                Err(_) => spec_fallback(r),
            },
            self matches Session::ModernStatus { raw } ==> event matches Event::Decoded(opt)
                ==> match opt {
                None => spec_fallback(r),
                Some(rl) => {
                    let filled = RawLatest { raw_json: raw, ..rl };
                    if spec_raw_favicon_ok(filled) {
                        r.0 is Finished && (r.1 matches Action::Done(resp)
                            && spec_response_matches_raw(resp, filled))
                    } else {
                        spec_fallback(r)
                    }
                },
            },
            self is LegacyWrite && event is WriteDone ==> r.0 is LegacyRead
                && r.1 is ReadToClose,
            self matches Session::LegacyRead ==> event matches Event::Bytes(buf) ==> r.0 is Finished
                && spec_legacy_outcome(buf@, r.1),
    {
        match (self, event) {
            (_, Event::TransportFailed) => (Session::Finished, Action::Fail(Error::Transport)),
            (Session::ModernWrite, Event::WriteDone) => (
                Session::ModernLen { buf: Vec::new() },
                Action::ReadExact(1),
            ),
            (Session::ModernLen { mut buf }, Event::Bytes(mut b)) => {
                buf.append(&mut b);
                proof {
                    assert(buf@.skip(0) =~= buf@);
                }
                match read_varint(buf.as_slice(), 0) {
                    VarintStatus::NeedMore => (
                        Session::ModernLen { buf },
                        Action::ReadExact(1),
                    ),
                    VarintStatus::Malformed => fallback(),
                    VarintStatus::Done { value, length: _ } => {
                        if value < 0 {
                            fallback()
                        } else {
                            (Session::ModernBody, Action::ReadExact(value as usize))
                        }
                    },
                }
            },
            (Session::ModernBody, Event::Bytes(body)) => {
                match parse_status_body(body.as_slice()) {
                    Ok(json) => {
                        let handed = slice_to_vec(json.as_slice());
                        (Session::ModernStatus { raw: json }, Action::DecodeStatus(handed))
                    },
                    Err(_) => fallback(),
                }
            },
            (Session::ModernStatus { raw }, Event::Decoded(opt)) => match opt {
                Some(rl) => {
                    let filled = RawLatest { raw_json: raw, ..rl };
                    match Response::from_raw(filled) {
                        Ok(resp) => (Session::Finished, Action::Done(resp)),
                        Err(_) => fallback(),
                    }
                },
                None => fallback(),
            },
            (Session::LegacyWrite, Event::WriteDone) => (
                Session::LegacyRead,
                Action::ReadToClose,
            ),
            (Session::LegacyRead, Event::Bytes(buf)) => {
                let outcome = match decode_legacy(buf.as_slice()) {
                    Ok(text) => match parse_legacy(text.as_str(), buf) {
                        Ok(resp) => Action::Done(resp),
                        Err(e) => Action::Fail(e),
                    },
                    Err(e) => Action::Fail(e),
                };
                (Session::Finished, outcome)
            },
            _ => (Session::Finished, Action::Fail(Error::ProtocolError)),
        }
    }
}

} // verus!
