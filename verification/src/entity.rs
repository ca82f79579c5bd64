//! The caller-facing response model, the loosely-typed wire shape it is
//! built from, and the normalization between the two.

use vstd::prelude::*;
use vstd::string::StrSliceExecFns;
use vstd::string::StringSliceAdditionalSpecFns;
use vstd::utf8::encode_utf8;

use crate::text::{clean_text, spec_clean_text};
use crate::Error;

verus! {

/// One entry of the connected-player sample.
#[derive(Debug, Clone)]
pub struct Player {
    /// The name of the player.
    pub name: String,
    /// The uuid of the player, kept opaque at this layer.
    pub id: String,
}

/// The mod information object used by the FML protocol.
#[derive(Debug, Clone)]
pub struct ModInfo {
    /// The mod loader type; `FML` when forge is installed.
    pub mod_type: String,
    /// The mods installed on the server.
    pub mod_list: Vec<ModInfoItem>,
}

/// One installed mod, as the FML protocol reports it.
#[derive(Debug, Clone)]
pub struct ModInfoItem {
    /// The id of the mod.
    pub mod_id: String,
    /// The version of the mod.
    pub version: String,
}

/// The forge information object used by the FML2 protocol.
#[derive(Debug, Clone)]
pub struct ForgeData {
    /// The plugin channels used by the mods.
    pub channels: Vec<ForgeChannel>,
    /// The mods installed on the server.
    pub mods: Vec<ForgeMod>,
    /// The FML network version.
    pub fml_network_version: i32,
}

/// One plugin channel used by a mod.  The exact semantics of these fields
/// are undocumented upstream; they are preserved verbatim.
#[derive(Debug, Clone)]
pub struct ForgeChannel {
    /// The namespaced key of the channel.
    pub res: String,
    /// The version of the channel.
    pub version: String,
    /// `true` if the channel is required.
    pub required: bool,
}

/// One installed mod, as the FML2 protocol reports it.
#[derive(Debug, Clone)]
pub struct ForgeMod {
    /// The id of the mod.
    pub mod_id: String,
    /// The version marker of the mod.
    pub mod_marker: String,
}

/// A node of the chat-component tree used in server descriptions.
///
/// Children inherit the parent's style unless they override it; that
/// inheritance is a rendering concern left to the caller, and this crate
/// only preserves the tree.
#[derive(Debug)]
pub struct Chat {
    /// The text this node holds.
    pub text: String,
    /// Bold style flag for the text and the extras.
    pub bold: bool,
    /// Italic style flag for the text and the extras.
    pub italic: bool,
    /// Underline style flag for the text and the extras.
    pub underlined: bool,
    /// Strikethrough style flag for the text and the extras.
    pub strikethrough: bool,
    /// Obfuscation style flag for the text and the extras.
    pub obfuscated: bool,
    /// The color of the text and the extras; `None` for the default color.
    pub color: Option<String>,
    /// The child components following this text.
    pub extra: Vec<Chat>,
}

impl Default for Chat {
    /// An empty chat node: no text, no styling, no children.
    fn default() -> (r: Chat)
        ensures
            r.text@ == Seq::<char>::empty(),
            !r.bold && !r.italic && !r.underlined && !r.strikethrough && !r.obfuscated,
            r.color is None,
            r.extra@.len() == 0,
    {
        Chat {
            text: String::new(),
            bold: false,
            italic: false,
            underlined: false,
            strikethrough: false,
            obfuscated: false,
            color: None,
            extra: Vec::new(),
        }
    }
}

/// The flattened text of a chat tree: this node's text cleaned up for
/// display, then each child's flattened text, in order.
pub open spec fn spec_plain_text(c: Chat) -> Seq<char>
    decreases c,
{
    spec_clean_text(c.text@) + spec_plain_children(c.extra@)
}

/// The concatenated flattened texts of a sequence of chat nodes.
pub open spec fn spec_plain_children(cs: Seq<Chat>) -> Seq<char>
    decreases cs,
{
    if cs.len() == 0 {
        Seq::empty()
    } else {
        spec_plain_text(cs[0]) + spec_plain_children(cs.drop_first())
    }
}

impl Chat {
    /// Render the tree as one line of plain text: each node's text with
    /// newlines removed and whitespace runs collapsed to single spaces,
    /// children appended in order.  Style flags and colors do not appear.
    pub fn plain_text(&self) -> (r: String)
        ensures
            r@ == spec_plain_text(*self),
        decreases *self,
    {
        let mut out = clean_text(self.text.as_str());
        let mut i: usize = 0;
        proof {
            assert(self.extra@.skip(0) =~= self.extra@);
        }
        while i < self.extra.len()
            invariant
                i <= self.extra@.len(),
                out@ + spec_plain_children(self.extra@.skip(i as int)) == spec_plain_text(*self),
            decreases self.extra@.len() - i,
        {
            let child = &self.extra[i];
            let piece = child.plain_text();
            out.append(piece.as_str());
            proof {
                assert(self.extra@.skip(i as int)[0] == self.extra@[i as int]);
                assert(self.extra@.skip(i as int).drop_first() =~= self.extra@.skip(i + 1));
            }
            i += 1;
        }
        proof {
            assert(self.extra@.skip(self.extra@.len() as int) =~= Seq::<Chat>::empty());
        }
        out
    }
}

/// The `version` object of the wire shape.
#[derive(Debug, Clone)]
pub struct Version {
    /// The version name of the server.
    pub name: String,
    /// The protocol number of the server.
    pub protocol: i32,
}

/// The `players` object of the wire shape.
#[derive(Debug, Clone)]
pub struct Players {
    /// The maximum number of connected players.
    pub max: usize,
    /// The number of players currently connected.
    pub online: usize,
    /// A sample of the connected players, if the server offers one.
    pub sample: Option<Vec<Player>>,
}

/// A description as it stands on the wire: either a bare string or a full
/// chat-component tree.  Resolved into a single [`Chat`] at normalization.
#[derive(Debug)]
pub enum RawDescription {
    /// A bare string.
    Raw(String),
    /// A structured chat component.
    Chat(Chat),
}

/// The loosely-typed status payload as the server sends it, before
/// normalization.  Optional fields absent on the wire are `None` here;
/// only `version` and `players` are structurally required.
#[derive(Debug)]
pub struct RawLatest {
    /// The required `version` object.
    pub version: Version,
    /// The required `players` object.
    pub players: Players,
    /// The description, bare or structured.
    pub description: RawDescription,
    /// The favicon as a data-URI string, if present.
    pub favicon: Option<String>,
    /// Whether the server enforces signed chat, if reported.
    pub enforces_secure_chat: Option<bool>,
    /// Whether the server previews chat, if reported.
    pub previews_chat: Option<bool>,
    /// The FML mod information, if present.
    pub mod_info: Option<ModInfo>,
    /// The FML2 forge information, if present.
    pub forge_data: Option<ForgeData>,
    /// The exact bytes the payload was decoded from.
    pub raw_json: Vec<u8>,
}

/// A normalized ping response.
#[derive(Debug)]
#[non_exhaustive]
pub struct Response {
    /// The version name of the server.
    pub version: String,
    /// The protocol number of the server.
    pub protocol: i32,
    /// Whether the server requires users to sign chat messages.
    pub enforces_secure_chat: Option<bool>,
    /// Whether the server previews chat.
    pub previews_chat: Option<bool>,
    /// The maximum number of connected players.
    pub max_players: usize,
    /// The number of players currently connected.
    pub online_players: usize,
    /// A sample of the connected players.  May be `None` even when players
    /// are connected.
    pub sample: Option<Vec<Player>>,
    /// The description (message of the day) of the server.
    pub description: Chat,
    /// The favicon in PNG format.  A present-but-empty favicon is kept as
    /// `Some` of an empty byte vector, distinct from `None`.
    pub favicon: Option<Vec<u8>>,
    /// The FML mod information, if present.
    pub mod_info: Option<ModInfo>,
    /// The FML2 forge information, if present.
    pub forge_data: Option<ForgeData>,
    /// The raw payload bytes the response was decoded from.  Kept because a
    /// server may send fields this crate does not model.
    pub raw: Vec<u8>,
}

impl Response {
    /// The raw payload bytes the response was decoded from.
    pub fn raw(&self) -> (r: &[u8])
        ensures
            r@ == self.raw@,
    {
        self.raw.as_slice()
    }
}

/// What base64 decoding (standard alphabet, padded) yields on the given
/// bytes: the decoded bytes, or nothing when the input is not valid base64.
pub uninterp spec fn base64_decoding(s: Seq<u8>) -> Option<Seq<u8>>;

/// Relies on base64's `Engine::decode` with the `STANDARD` engine: the
/// result is a deterministic function of the input bytes alone, `Ok` exactly
/// on well-formed padded standard-alphabet input.
#[verifier::external_body]
fn b64_decode(input: &str) -> (r: Option<Vec<u8>>)
    ensures
        r matches Some(v) ==> base64_decoding(input.spec_bytes()) == Some(v@),
        r is None ==> base64_decoding(input.spec_bytes()) is None,
{
    base64::Engine::decode(&base64::engine::general_purpose::STANDARD, input).ok()
}

/// The 22-character prefix every favicon data URI must carry.
pub open spec fn spec_favicon_prefix() -> Seq<char> {
    "data:image/png;base64,"@
}

/// What decoding a favicon data URI yields: the PNG bytes, or nothing when
/// the prefix is absent or the remainder is not valid base64.
pub open spec fn spec_decode_favicon(s: Seq<char>) -> Option<Seq<u8>> {
    if s.len() < 22 || s.subrange(0, 22) != spec_favicon_prefix() {
        None
    } else {
        base64_decoding(encode_utf8(s.skip(22)))
    }
}

/// Decode a favicon data URI into PNG bytes.
pub fn decode_favicon(favicon: &str) -> (r: Option<Vec<u8>>)
    ensures
        r matches Some(v) ==> spec_decode_favicon(favicon@) == Some(v@),
        r is None ==> spec_decode_favicon(favicon@) is None,
{
    let n = favicon.unicode_len();
    if n < 22 {
        return None;
    }
    let prefix: String = favicon.substring_char(0, 22).to_owned();
    let expected: String = "data:image/png;base64,".to_owned();
    if !(prefix == expected) {
        return None;
    }
    let rest = favicon.substring_char(22, n);
    proof {
        assert(rest@ =~= favicon@.skip(22));
        assert(favicon@.subrange(0, 22) == spec_favicon_prefix());
    }
    b64_decode(rest)
}

/// The favicon field of a wire shape decodes (or is absent).
pub open spec fn spec_raw_favicon_ok(raw: RawLatest) -> bool {
    match raw.favicon {
        None => true,
        Some(f) => spec_decode_favicon(f@) is Some,
    }
}

/// `c` is the single chat node the description `d` normalizes to: a
/// structured description is kept as it is, and a bare string becomes a
/// node with that text, no styling and no children.
pub open spec fn spec_description_chat(c: Chat, d: RawDescription) -> bool {
    match d {
        RawDescription::Chat(chat) => c == chat,
        RawDescription::Raw(text) => {
            &&& c.text == text
            &&& !c.bold && !c.italic && !c.underlined && !c.strikethrough && !c.obfuscated
            &&& c.color is None
            &&& c.extra@.len() == 0
        },
    }
}

impl Chat {
    /// Resolve a wire description into a single chat node.
    pub fn from_description(d: RawDescription) -> (r: Chat)
        ensures
            spec_description_chat(r, d),
    {
        match d {
            RawDescription::Chat(chat) => chat,
            RawDescription::Raw(text) => Chat {
                text,
                bold: false,
                italic: false,
                underlined: false,
                strikethrough: false,
                obfuscated: false,
                color: None,
                extra: Vec::new(),
            },
        }
    }
}

/// `resp` is the normalization of the wire shape `raw`: every modeled field
/// carried over by name, the description resolved to one chat node, the
/// favicon decoded, and the exact payload bytes preserved.
pub open spec fn spec_response_matches_raw(resp: Response, raw: RawLatest) -> bool {
    &&& resp.version == raw.version.name
    &&& resp.protocol == raw.version.protocol
    &&& resp.enforces_secure_chat == raw.enforces_secure_chat
    &&& resp.previews_chat == raw.previews_chat
    &&& resp.max_players == raw.players.max
    &&& resp.online_players == raw.players.online
    &&& resp.sample == raw.players.sample
    &&& spec_description_chat(resp.description, raw.description)
    &&& match raw.favicon {
        None => resp.favicon is None,
        Some(f) => resp.favicon matches Some(v) && Some(v@) == spec_decode_favicon(f@),
    }
    &&& resp.mod_info == raw.mod_info
    &&& resp.forge_data == raw.forge_data
    &&& resp.raw == raw.raw_json
}

impl Response {
    /// Normalize a decoded wire shape into a `Response`.
    ///
    /// Construction is all-or-nothing: a favicon that fails to decode
    /// rejects the whole payload, and nothing else can fail.
    pub fn from_raw(raw: RawLatest) -> (r: Result<Response, Error>)
        ensures
            r is Ok <==> spec_raw_favicon_ok(raw),
            r matches Ok(resp) ==> spec_response_matches_raw(resp, raw),
            r matches Err(e) ==> e == Error::InvalidResponse,
    {
        let RawLatest {
            version,
            players,
            description,
            favicon,
            enforces_secure_chat,
            previews_chat,
            mod_info,
            forge_data,
            raw_json,
        } = raw;
        let favicon_bytes: Option<Vec<u8>> = match favicon {
            Some(f) => match decode_favicon(f.as_str()) {
                Some(v) => Some(v),
                None => {
                    return Err(Error::InvalidResponse);
                },
            },
            None => None,
        };
        Ok(
            Response {
                version: version.name,
                protocol: version.protocol,
                enforces_secure_chat,
                previews_chat,
                max_players: players.max,
                online_players: players.online,
                sample: players.sample,
                description: Chat::from_description(description),
                favicon: favicon_bytes,
                mod_info,
                forge_data,
                raw: raw_json,
            },
        )
    }
}

} // verus!
