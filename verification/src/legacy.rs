//! The pre-1.7 status protocol: a fixed 35-byte ping and a NUL-delimited
//! UTF-16BE reply of exactly six fields.

use vstd::prelude::*;
use vstd::slice::slice_subrange;
use vstd::string::StrSliceExecFns;

use crate::entity::{Chat, Response};
use crate::text::{
    parse_i32_str, parse_usize_str, spec_parse_i32, spec_parse_usize, spec_split, split_nul,
};
use crate::Error;

verus! {

/// The fixed legacy ping packet: a server-list-ping id, a plugin-message id,
/// the UTF-16BE string `MC|PingHost`, and a minimal host section with an
/// empty hostname and a zero port.
pub open spec fn spec_legacy_request() -> Seq<u8> {
    seq![
        0xfeu8, 0x01u8, 0xfau8, 0x00u8, 0x0bu8, 0x00u8, 0x4du8, 0x00u8, 0x43u8, 0x00u8, 0x7cu8,
        0x00u8, 0x50u8, 0x00u8, 0x69u8, 0x00u8, 0x6eu8, 0x00u8, 0x67u8, 0x00u8, 0x48u8, 0x00u8,
        0x6fu8, 0x00u8, 0x73u8, 0x00u8, 0x74u8, 0x07u8, 0x4au8, 0x00u8, 0x00u8, 0x00u8, 0x00u8,
        0x00u8, 0x00u8,
    ]
}

/// Build the legacy ping packet.
pub fn legacy_request() -> (r: Vec<u8>)
    ensures
        r@ == spec_legacy_request(),
{
    let r: Vec<u8> = vec![
        0xfe, 0x01, 0xfa, 0x00, 0x0b, 0x00, 0x4d, 0x00, 0x43, 0x00, 0x7c, 0x00, 0x50, 0x00, 0x69,
        0x00, 0x6e, 0x00, 0x67, 0x00, 0x48, 0x00, 0x6f, 0x00, 0x73, 0x00, 0x74, 0x07, 0x4a, 0x00,
        0x00, 0x00, 0x00, 0x00, 0x00,
    ];
    proof {
        assert(r@ =~= spec_legacy_request());
    }
    r
}

/// The big-endian 16-bit code units held in `b`, a trailing odd byte
/// discarded.
pub open spec fn spec_utf16_units(b: Seq<u8>) -> Seq<u16> {
    Seq::new((b.len() / 2) as nat, |i: int| (b[2 * i] * 256 + b[2 * i + 1]) as u16)
}

/// What decoding a sequence of UTF-16 code units yields: the characters, or
/// nothing when the units are not well-formed UTF-16.
pub uninterp spec fn utf16_decoding(units: Seq<u16>) -> Option<Seq<char>>;

/// Relies on std's `String::from_utf16`: the result is a deterministic
/// function of the code units alone, `Ok` exactly on well-formed UTF-16.
#[verifier::external_body]
fn utf16_to_string(units: &[u16]) -> (r: Option<String>)
    ensures
        r matches Some(s) ==> utf16_decoding(units@) == Some(s@),
        r is None ==> utf16_decoding(units@) is None,
{
    String::from_utf16(units).ok()
}

/// Combine the bytes after the three-byte reply header into code units.
fn utf16_units(b: &[u8]) -> (r: Vec<u16>)
    ensures
        r@ == spec_utf16_units(b@),
{
    let mut r: Vec<u16> = Vec::new();
    let mut i: usize = 0;
    while i + 1 < b.len()
        invariant
            i % 2 == 0,
            i <= b@.len(),
            r@.len() == i / 2,
            forall|j: int| 0 <= j < r@.len() ==> r@[j] == spec_utf16_units(b@)[j],
        decreases b@.len() - i,
    {
        let unit: u16 = (b[i] as u16) * 256 + (b[i + 1] as u16);
        r.push(unit);
        i += 2;
    }
    proof {
        assert(r@ =~= spec_utf16_units(b@));
    }
    r
}

/// A legacy reply is framed acceptably: more than three bytes, opening with
/// the `0xff` kick-packet marker.
pub open spec fn spec_legacy_framing_ok(b: Seq<u8>) -> bool {
    b.len() > 3 && b[0] == 0xff
}

/// Decode a raw legacy reply into its UTF-16BE text.
///
/// The reply must be longer than the three-byte header and open with the
/// `0xff` marker; bytes three onward are big-endian UTF-16 code units.
pub fn decode_legacy(buffer: &[u8]) -> (r: Result<String, Error>)
    ensures
        !spec_legacy_framing_ok(buffer@) ==> (r matches Err(e) && e == Error::ProtocolError),
        spec_legacy_framing_ok(buffer@) ==> match utf16_decoding(
            spec_utf16_units(buffer@.skip(3)),
        ) {
            Some(chars) => (r matches Ok(s) && s@ == chars),
            None => (r matches Err(e) && e == Error::InvalidResponse),
        },
{
    if buffer.len() <= 3 || buffer[0] != 0xff {
        return Err(Error::ProtocolError);
    }
    let tail = slice_subrange(buffer, 3, buffer.len());
    let units = utf16_units(tail);
    match utf16_to_string(units.as_slice()) {
        Some(s) => Ok(s),
        None => Err(Error::InvalidResponse),
    }
}

/// The magic first field of a legacy reply.
pub open spec fn spec_legacy_magic() -> Seq<char> {
    seq!['\u{a7}', '1']
}

/// The six NUL-separated fields of a legacy reply are present and sound:
/// the magic marker first, then a numeric protocol version, a version name,
/// the message of the day, and two numeric player counts.
pub open spec fn spec_legacy_fields_ok(fields: Seq<Seq<char>>) -> bool {
    &&& fields.len() >= 6
    &&& fields[0] == spec_legacy_magic()
    &&& spec_parse_i32(fields[1]) is Some
    &&& spec_parse_usize(fields[4]) is Some
    &&& spec_parse_usize(fields[5]) is Some
}

/// `resp` is the response a legacy reply text `s` (with raw bytes `raw`)
/// parses to: the four typed fields carried over, the message of the day
/// wrapped in a plain chat node, and every modern-only field absent.
pub open spec fn spec_legacy_response_matches(resp: Response, s: Seq<char>, raw: Seq<u8>) -> bool {
    let fields = spec_split(s, '\0');
    &&& resp.protocol == spec_parse_i32(fields[1]).unwrap()
    &&& resp.version@ == fields[2]
    &&& resp.description.text@ == fields[3]
    &&& !resp.description.bold && !resp.description.italic && !resp.description.underlined
        && !resp.description.strikethrough && !resp.description.obfuscated
    &&& resp.description.color is None
    &&& resp.description.extra@.len() == 0
    &&& resp.online_players == spec_parse_usize(fields[4]).unwrap()
    &&& resp.max_players == spec_parse_usize(fields[5]).unwrap()
    &&& resp.favicon is None
    &&& resp.sample is None
    &&& resp.mod_info is None
    &&& resp.forge_data is None
    &&& resp.enforces_secure_chat is None
    &&& resp.previews_chat is None
    &&& resp.raw@ == raw
}

/// Parse the decoded legacy text into a response, keeping `raw` as the
/// reply's exact bytes.
///
/// The text must split on NUL into at least six fields, open with the magic
/// marker, and carry numeric protocol and player-count fields; anything
/// short of that is rejected whole.  Fields past the sixth are ignored.
pub fn parse_legacy(s: &str, raw: Vec<u8>) -> (r: Result<Response, Error>)
    ensures
        r is Ok <==> spec_legacy_fields_ok(spec_split(s@, '\0')),
        r matches Ok(resp) ==> spec_legacy_response_matches(resp, s@, raw@),
        r matches Err(e) ==> e == Error::InvalidResponse,
{
    let fields = split_nul(s);
    if fields.len() < 6 {
        return Err(Error::InvalidResponse);
    }
    let magic = &fields[0];
    let magic_ok = magic.as_str().unicode_len() == 2 && magic.as_str().get_char(0) == '\u{a7}'
        && magic.as_str().get_char(1) == '1';
    if !magic_ok {
        proof {
            assert(fields@[0]@ != spec_legacy_magic());
        }
        return Err(Error::InvalidResponse);
    }
    proof {
        assert(fields@[0]@ =~= spec_legacy_magic());
    }
    let protocol: i32 = match parse_i32_str(fields[1].as_str()) {
        Some(v) => v,
        None => {
            return Err(Error::InvalidResponse);
        },
    };
    let online: usize = match parse_usize_str(fields[4].as_str()) {
        Some(v) => v,
        None => {
            return Err(Error::InvalidResponse);
        },
    };
    let max: usize = match parse_usize_str(fields[5].as_str()) {
        Some(v) => v,
        None => {
            return Err(Error::InvalidResponse);
        },
    };
    let version: String = fields[2].clone();
    let motd: String = fields[3].clone();
    Ok(
        Response {
            version,
            protocol,
            enforces_secure_chat: None,
            previews_chat: None,
            max_players: max,
            online_players: online,
            sample: None,
            description: Chat {
                text: motd,
                bold: false,
                italic: false,
                underlined: false,
                strikethrough: false,
                obfuscated: false,
                color: None,
                extra: Vec::new(),
            },
            favicon: None,
            mod_info: None,
            forge_data: None,
            raw,
        },
    )
}

} // verus!
