//! The status exchange: the empty status-request packet and the typed model
//! of the status-response document a server answers with.

use crate::errors::{CodecError, DecodeError};
use crate::json::{
    doc_of, json_as_array, json_as_bool, json_as_i64, json_as_str, json_get, json_is_null,
    json_is_object, json_parse, json_wf, value_model, JsonDoc,
};
use crate::packet::{frame_bytes, spec_frame_bytes, Packet, PacketDecode, PacketEncode};
use crate::text_component::{TextComponent, TextComponentType};
use crate::varint::{spec_varint_decode, spec_varint_encode, spec_varint_error, VarInt};
use crate::varstring::{spec_varstring_decode, spec_varstring_encode, VarString};
use vstd::prelude::*;
use vstd::string::StringExecFns;

verus! {

/// How deep a rich-text description tree may nest before the decoder gives
/// up on it; mirrors the nesting depth the JSON parser itself accepts.
pub const MAX_TEXT_DEPTH: u32 = 128;

/// The status-request packet. Its payload is empty: the frame carries only
/// the packet id.
pub struct SlpRequest;

impl Packet for SlpRequest {
    open spec fn spec_packet_id() -> i32 {
        0x00
    }

    fn packet_id() -> (r: VarInt) {
        VarInt(0x00)
    }
}

impl PacketEncode for SlpRequest {
    open spec fn spec_frame(&self) -> Seq<u8> {
        spec_frame_bytes(spec_varint_encode(0x00))
    }

    /// Encodes the complete frame: a length prefix over the lone id byte.
    fn encode(&self) -> (r: Vec<u8>) {
        let body = Self::packet_id().to_bytes();
        frame_bytes(body)
    }
}

/// The server software's version block.
#[derive(Debug)]
pub struct SlpServerVersion {
    pub name: String,
    pub protocol: i32,
}

/// One entry of the optional player sample list.
#[derive(Debug)]
pub struct SlpServerPlayerSample {
    pub name: String,
    pub id: String,
}

/// The player counts, with an optional (possibly truncated) sample of who
/// is online.
#[derive(Debug)]
pub struct SlpServerPlayers {
    pub max: i32,
    pub online: i32,
    pub sample: Option<Vec<SlpServerPlayerSample>>,
}

/// The server description: either a bare string or a rich-text tree. The
/// wire form carries no tag; the decoder tells the two apart by the shape
/// of the JSON value.
#[derive(Debug)]
pub enum SlpServerDescription {
    Simple(String),
    Complex(TextComponent),
}

/// One entry of a Forge server's mod list.
#[derive(Debug)]
pub struct SlpForgeModEntry {
    pub modid: String,
    pub version: String,
}

/// The optional Forge extension block.
#[derive(Debug)]
pub struct SlpForgeModInfo {
    pub type_: String,
    pub mod_list: Vec<SlpForgeModEntry>,
}

/// The decoded status response: freshly allocated per query and immutable
/// once built.
#[derive(Debug)]
pub struct SlpResponse {
    pub version: SlpServerVersion,
    pub players: SlpServerPlayers,
    pub description: SlpServerDescription,
    pub favicon: Option<String>,
    pub enforces_secure_chat: Option<bool>,
    pub previews_chat: Option<bool>,
    pub prevents_chat_reports: Option<bool>,
    pub modinfo: Option<SlpForgeModInfo>,
}

/// The JSON text carried by a status-response frame: strip the length
/// prefix, strip the packet id, and read the length-prefixed string that
/// fills the payload. Neither prefix's value is checked at this layer.
pub open spec fn spec_frame_json_text(b: Seq<u8>) -> Result<Seq<char>, CodecError> {
    match spec_varint_decode(b) {
        Some((_, k1)) => {
            let b1 = b.skip(k1);
            match spec_varint_decode(b1) {
                Some((_, k2)) => spec_varstring_decode(b1.skip(k2)),
                None => Err(spec_varint_error(b1)),
            }
        },
        None => Err(spec_varint_error(b)),
    }
}

/// A frame built around a JSON text yields back exactly that text: wrap
/// VarInt(id) + VarString(text) in a length prefix, and the frame decoder
/// finds the text again. The bound keeps the body's length, prefix included,
/// within the positive range of the outer 32-bit prefix.
pub proof fn lemma_status_frame_round_trip(id: i32, s: Seq<char>)
    requires
        vstd::utf8::encode_utf8(s).len() + 10 <= 0x7fff_ffff,
    ensures
        spec_frame_json_text(
            crate::packet::spec_frame_bytes(spec_varint_encode(id) + spec_varstring_encode(s)),
        ) == Ok::<Seq<char>, CodecError>(s),
{
    let id_bytes = spec_varint_encode(id);
    let vs = spec_varstring_encode(s);
    let body = id_bytes + vs;
    crate::varstring::lemma_varstring_round_trip(s);
    crate::varint::lemma_varint_decode_prefix(crate::varstring::varstring_len_prefix(s), Seq::empty());
    crate::varint::lemma_varint_decode_prefix(id, vs);
    assert(vs.len() <= 5 + vstd::utf8::encode_utf8(s).len());
    assert(body.len() <= 0x7fff_ffff);
    let prefix = crate::packet::frame_len_prefix(body.len() as int);
    assert(prefix as int == body.len() as int);
    crate::varint::lemma_varint_decode_prefix(prefix, body);
    let frame = crate::packet::spec_frame_bytes(body);
    let k1 = spec_varint_encode(prefix).len() as int;
    assert(frame.skip(k1) =~= body);
    let k2 = id_bytes.len() as int;
    assert(body.skip(k2) =~= vs);
}

/// The member of a JSON document under a key, when the document is an
/// object that carries the key.
pub open spec fn doc_member(d: JsonDoc, key: Seq<char>) -> Option<JsonDoc> {
    if d is Object && d->Object_0.contains_key(key) {
        Some(d->Object_0[key])
    } else {
        None
    }
}

/// Whether the document carries a string member under the key.
pub open spec fn req_string_ok(d: JsonDoc, key: Seq<char>) -> bool {
    match doc_member(d, key) {
        Some(m) => m is Text,
        None => false,
    }
}

/// That string member's content.
pub open spec fn req_string_val(d: JsonDoc, key: Seq<char>) -> Seq<char> {
    doc_member(d, key)->Some_0->Text_0
}

/// Whether the document carries, under the key, an integer that fits 32
/// signed bits.
pub open spec fn req_i32_ok(d: JsonDoc, key: Seq<char>) -> bool {
    match doc_member(d, key) {
        Some(m) => m is Int && -0x8000_0000 <= m->Int_0 <= 0x7fff_ffff,
        None => false,
    }
}

/// That integer member's value.
pub open spec fn req_i32_val(d: JsonDoc, key: Seq<char>) -> int {
    doc_member(d, key)->Some_0->Int_0
}

/// Whether the member under the key, if any, can read as an optional
/// boolean: absent, null, or a boolean.
pub open spec fn opt_flag_ok(d: JsonDoc, key: Seq<char>) -> bool {
    match doc_member(d, key) {
        Some(m) => m is Null || m is Bool,
        None => true,
    }
}

/// The optional boolean's reading: absent and null read as nothing.
pub open spec fn opt_flag_val(d: JsonDoc, key: Seq<char>) -> Option<bool> {
    match doc_member(d, key) {
        Some(m) => if m is Bool {
            Some(m->Bool_0)
        } else {
            None
        },
        None => None,
    }
}

/// Whether the member under the key, if any, can read as an optional
/// string: absent, null, or a string.
pub open spec fn opt_string_ok(d: JsonDoc, key: Seq<char>) -> bool {
    match doc_member(d, key) {
        Some(m) => m is Null || m is Text,
        None => true,
    }
}

/// The optional string's reading: absent and null read as nothing.
pub open spec fn opt_string_val(d: JsonDoc, key: Seq<char>) -> Option<Seq<char>> {
    match doc_member(d, key) {
        Some(m) => if m is Text {
            Some(m->Text_0)
        } else {
            None
        },
        None => None,
    }
}

/// The view of an optional owned string.
pub open spec fn opt_text_view(x: Option<String>) -> Option<Seq<char>> {
    match x {
        Some(s) => Some(s@),
        None => None,
    }
}

/// The tag a rich-text node's `type` member spells, if it is a known one.
pub open spec fn spec_tag_of(s: Seq<char>) -> Option<TextComponentType> {
    if s == "text"@ {
        Some(TextComponentType::Text)
    } else if s == "translatable"@ {
        Some(TextComponentType::Translatable)
    } else if s == "keybind"@ {
        Some(TextComponentType::Keybind)
    } else if s == "score"@ {
        Some(TextComponentType::Score)
    } else if s == "selector"@ {
        Some(TextComponentType::Selector)
    } else if s == "nbt"@ {
        Some(TextComponentType::Nbt)
    } else {
        None
    }
}

/// Whether the document is one rich-text node within the depth budget: the
/// literal text present, the tag (if any) known, each style member of its
/// type, and the children (if any) an array of description values one level
/// deeper.
pub open spec fn component_ok(d: JsonDoc, depth: nat) -> bool
    decreases depth, 0nat,
{
    &&& req_string_ok(d, "text"@)
    &&& (match doc_member(d, "type"@) {
        Some(m) => m is Null || (m is Text && spec_tag_of(m->Text_0) is Some),
        None => true,
    })
    &&& (match doc_member(d, "extra"@) {
        Some(m) => m is Null || (m is Array && (if depth > 0 {
            forall|i: int|
                0 <= i < m->Array_0.len() ==> desc_ok(#[trigger] m->Array_0[i], (depth - 1) as nat)
        } else {
            false
        })),
        None => true,
    })
    &&& opt_string_ok(d, "color"@)
    &&& opt_flag_ok(d, "bold"@)
    &&& opt_flag_ok(d, "italic"@)
    &&& opt_flag_ok(d, "underlined"@)
    &&& opt_flag_ok(d, "strikethrough"@)
    &&& opt_flag_ok(d, "obfuscated"@)
    &&& opt_string_ok(d, "font"@)
    &&& opt_string_ok(d, "insertion"@)
}

/// Whether the document is one description value within the depth budget:
/// a bare string, or an object that is a rich-text node. Nothing else fits
/// the untagged union.
pub open spec fn desc_ok(d: JsonDoc, depth: nat) -> bool
    decreases depth, 1nat,
{
    ||| d is Text
    ||| (d is Object && component_ok(d, depth))
}

/// How a decoded rich-text node corresponds to its document, member by
/// member.
pub open spec fn component_matches(d: JsonDoc, c: TextComponent, depth: nat) -> bool
    decreases depth, 0nat,
{
    &&& c.text@ == req_string_val(d, "text"@)
    &&& c.type_ == (match doc_member(d, "type"@) {
        Some(m) => if m is Text {
            spec_tag_of(m->Text_0)
        } else {
            None::<TextComponentType>
        },
        None => None::<TextComponentType>,
    })
    &&& (match doc_member(d, "extra"@) {
        Some(m) => if m is Array && depth > 0 {
            &&& c.extra is Some
            &&& c.extra->Some_0@.len() == m->Array_0.len()
            &&& (forall|i: int|
                0 <= i < m->Array_0.len() ==> desc_matches(
                    #[trigger] m->Array_0[i],
                    c.extra->Some_0@[i],
                    (depth - 1) as nat,
                ))
        } else {
            c.extra is None
        },
        None => c.extra is None,
    })
    &&& opt_text_view(c.color) == opt_string_val(d, "color"@)
    &&& c.bold == opt_flag_val(d, "bold"@)
    &&& c.italic == opt_flag_val(d, "italic"@)
    &&& c.underlined == opt_flag_val(d, "underlined"@)
    &&& c.strikethrough == opt_flag_val(d, "strikethrough"@)
    &&& c.obfuscated == opt_flag_val(d, "obfuscated"@)
    &&& opt_text_view(c.font) == opt_string_val(d, "font"@)
    &&& opt_text_view(c.insertion) == opt_string_val(d, "insertion"@)
}

/// How a decoded description corresponds to its document: the simple form
/// exactly when the document is a bare string, the rich-text form exactly
/// when it is an object.
pub open spec fn desc_matches(d: JsonDoc, out: SlpServerDescription, depth: nat) -> bool
    decreases depth, 1nat,
{
    match out {
        SlpServerDescription::Simple(s) => d == JsonDoc::Text(s@),
        SlpServerDescription::Complex(c) => d is Object && component_matches(d, c, depth),
    }
}

/// Whether the document is a version block.
pub open spec fn version_ok(d: JsonDoc) -> bool {
    req_string_ok(d, "name"@) && req_i32_ok(d, "protocol"@)
}

/// How a decoded version block corresponds to its document.
pub open spec fn version_matches(d: JsonDoc, v: SlpServerVersion) -> bool {
    v.name@ == req_string_val(d, "name"@) && v.protocol as int == req_i32_val(d, "protocol"@)
}

/// Whether the document is one sample-list entry.
pub open spec fn sample_entry_ok(d: JsonDoc) -> bool {
    req_string_ok(d, "name"@) && req_string_ok(d, "id"@)
}

/// How a decoded sample-list entry corresponds to its document.
pub open spec fn sample_entry_matches(d: JsonDoc, e: SlpServerPlayerSample) -> bool {
    e.name@ == req_string_val(d, "name"@) && e.id@ == req_string_val(d, "id"@)
}

/// Whether the document is a players block.
pub open spec fn players_ok(d: JsonDoc) -> bool {
    &&& req_i32_ok(d, "max"@)
    &&& req_i32_ok(d, "online"@)
    &&& (match doc_member(d, "sample"@) {
        Some(m) => m is Null || (m is Array && (forall|i: int|
            0 <= i < m->Array_0.len() ==> sample_entry_ok(#[trigger] m->Array_0[i]))),
        None => true,
    })
}

/// How a decoded players block corresponds to its document.
pub open spec fn players_matches(d: JsonDoc, p: SlpServerPlayers) -> bool {
    &&& p.max as int == req_i32_val(d, "max"@)
    &&& p.online as int == req_i32_val(d, "online"@)
    &&& (match doc_member(d, "sample"@) {
        Some(m) => if m is Array {
            &&& p.sample is Some
            &&& p.sample->Some_0@.len() == m->Array_0.len()
            &&& (forall|i: int|
                0 <= i < m->Array_0.len() ==> sample_entry_matches(
                    #[trigger] m->Array_0[i],
                    p.sample->Some_0@[i],
                ))
        } else {
            p.sample is None
        },
        None => p.sample is None,
    })
}

/// Whether the document is one mod-list entry.
pub open spec fn mod_entry_ok(d: JsonDoc) -> bool {
    req_string_ok(d, "modid"@) && req_string_ok(d, "version"@)
}

/// How a decoded mod-list entry corresponds to its document.
pub open spec fn mod_entry_matches(d: JsonDoc, e: SlpForgeModEntry) -> bool {
    e.modid@ == req_string_val(d, "modid"@) && e.version@ == req_string_val(d, "version"@)
}

/// Whether the document is a Forge extension block.
pub open spec fn modinfo_ok(d: JsonDoc) -> bool {
    &&& req_string_ok(d, "type"@)
    &&& (match doc_member(d, "mod_list"@) {
        Some(m) => m is Array && (forall|i: int|
            0 <= i < m->Array_0.len() ==> mod_entry_ok(#[trigger] m->Array_0[i])),
        None => false,
    })
}

/// How a decoded Forge block corresponds to its document.
pub open spec fn modinfo_matches(d: JsonDoc, info: SlpForgeModInfo) -> bool {
    &&& info.type_@ == req_string_val(d, "type"@)
    &&& (match doc_member(d, "mod_list"@) {
        Some(m) => m is Array && info.mod_list@.len() == m->Array_0.len() && (forall|i: int|
            0 <= i < m->Array_0.len() ==> mod_entry_matches(
                #[trigger] m->Array_0[i],
                info.mod_list@[i],
            )),
        None => false,
    })
}

/// Whether the document has the shape of a status response: the version,
/// players and description members present and of the right shapes, the
/// optional members absent, null, or of theirs.
pub open spec fn status_doc_ok(d: JsonDoc) -> bool {
    &&& (match doc_member(d, "version"@) {
        Some(m) => version_ok(m),
        None => false,
    })
    &&& (match doc_member(d, "players"@) {
        Some(m) => players_ok(m),
        None => false,
    })
    &&& (match doc_member(d, "description"@) {
        Some(m) => desc_ok(m, MAX_TEXT_DEPTH as nat),
        None => false,
    })
    &&& opt_string_ok(d, "favicon"@)
    &&& opt_flag_ok(d, "enforcesSecureChat"@)
    &&& opt_flag_ok(d, "previewsChat"@)
    &&& opt_flag_ok(d, "preventsChatReports"@)
    &&& (match doc_member(d, "modinfo"@) {
        Some(m) => m is Null || modinfo_ok(m),
        None => true,
    })
}

/// How a decoded status response corresponds to its document, field by
/// field.
pub open spec fn status_doc_matches(d: JsonDoc, r: SlpResponse) -> bool {
    &&& version_matches(doc_member(d, "version"@)->Some_0, r.version)
    &&& players_matches(doc_member(d, "players"@)->Some_0, r.players)
    &&& desc_matches(doc_member(d, "description"@)->Some_0, r.description, MAX_TEXT_DEPTH as nat)
    &&& opt_text_view(r.favicon) == opt_string_val(d, "favicon"@)
    &&& r.enforces_secure_chat == opt_flag_val(d, "enforcesSecureChat"@)
    &&& r.previews_chat == opt_flag_val(d, "previewsChat"@)
    &&& r.prevents_chat_reports == opt_flag_val(d, "preventsChatReports"@)
    &&& (match doc_member(d, "modinfo"@) {
        Some(m) => if m is Null {
            r.modinfo is None
        } else {
            r.modinfo is Some && modinfo_matches(m, r.modinfo->Some_0)
        },
        None => r.modinfo is None,
    })
}

/// A required string member of a JSON object.
fn req_string(v: &serde_json::Value, key: &str) -> (r: Result<String, DecodeError>)
    ensures
        match r {
            Ok(s) => req_string_ok(value_model(*v), key@) && s@ == req_string_val(
                value_model(*v),
                key@,
            ),
            Err(e) => !req_string_ok(value_model(*v), key@) && e == DecodeError::Schema,
        },
{
    match json_get(v, key) {
        Some(x) => match json_as_str(x) {
            Some(s) => Ok(s.to_owned()),
            None => Err(DecodeError::Schema),
        },
        None => Err(DecodeError::Schema),
    }
}

/// A required 32-bit integer member of a JSON object.
fn req_i32(v: &serde_json::Value, key: &str) -> (r: Result<i32, DecodeError>)
    ensures
        match r {
            Ok(n) => req_i32_ok(value_model(*v), key@) && n as int == req_i32_val(
                value_model(*v),
                key@,
            ),
            Err(e) => !req_i32_ok(value_model(*v), key@) && e == DecodeError::Schema,
        },
{
    match json_get(v, key) {
        Some(x) => match json_as_i64(x) {
            Some(n) => if -0x8000_0000i64 <= n && n <= 0x7fff_ffffi64 {
                Ok(n as i32)
            } else {
                Err(DecodeError::Schema)
            },
            None => Err(DecodeError::Schema),
        },
        None => Err(DecodeError::Schema),
    }
}

/// An optional boolean member: absent or null reads as `None`.
fn opt_flag(v: &serde_json::Value, key: &str) -> (r: Result<Option<bool>, DecodeError>)
    ensures
        match r {
            Ok(x) => opt_flag_ok(value_model(*v), key@) && x == opt_flag_val(
                value_model(*v),
                key@,
            ),
            Err(e) => !opt_flag_ok(value_model(*v), key@) && e == DecodeError::Schema,
        },
{
    match json_get(v, key) {
        None => Ok(None),
        Some(x) => if json_is_null(x) {
            Ok(None)
        } else {
            match json_as_bool(x) {
                Some(b) => Ok(Some(b)),
                None => Err(DecodeError::Schema),
            }
        },
    }
}

/// An optional string member: absent or null reads as `None`.
fn opt_string(v: &serde_json::Value, key: &str) -> (r: Result<Option<String>, DecodeError>)
    ensures
        match r {
            Ok(x) => opt_string_ok(value_model(*v), key@) && opt_text_view(x) == opt_string_val(
                value_model(*v),
                key@,
            ),
            Err(e) => !opt_string_ok(value_model(*v), key@) && e == DecodeError::Schema,
        },
{
    match json_get(v, key) {
        None => Ok(None),
        Some(x) => if json_is_null(x) {
            Ok(None)
        } else {
            match json_as_str(x) {
                Some(s) => Ok(Some(s.to_owned())),
                None => Err(DecodeError::Schema),
            }
        },
    }
}

/// The tag of a rich-text node, by its wire spelling.
fn tag_from_str(s: &str) -> (r: Option<TextComponentType>)
    ensures
        r == spec_tag_of(s@),
{
    let owned = s.to_owned();
    if owned == String::from_str("text") {
        Some(TextComponentType::Text)
    } else if owned == String::from_str("translatable") {
        Some(TextComponentType::Translatable)
    } else if owned == String::from_str("keybind") {
        Some(TextComponentType::Keybind)
    } else if owned == String::from_str("score") {
        Some(TextComponentType::Score)
    } else if owned == String::from_str("selector") {
        Some(TextComponentType::Selector)
    } else if owned == String::from_str("nbt") {
        Some(TextComponentType::Nbt)
    } else {
        None
    }
}

/// One description value: a JSON string is the simple form, a JSON object a
/// rich-text node; anything else does not fit the union.
fn description_from_value(v: &serde_json::Value, depth: u32) -> (r: Result<
    SlpServerDescription,
    DecodeError,
>)
    ensures
        match r {
            Ok(out) => desc_ok(value_model(*v), depth as nat) && desc_matches(
                value_model(*v),
                out,
                depth as nat,
            ),
            Err(e) => !desc_ok(value_model(*v), depth as nat) && e == DecodeError::Schema,
        },
    decreases depth, 1int,
{
    match json_as_str(v) {
        Some(s) => Ok(SlpServerDescription::Simple(s.to_owned())),
        None => if json_is_object(v) {
            match component_from_value(v, depth) {
                Ok(c) => Ok(SlpServerDescription::Complex(c)),
                Err(e) => Err(e),
            }
        } else {
            Err(DecodeError::Schema)
        },
    }
}

/// One rich-text node out of a JSON object: the literal text is required,
/// the tag, style fields and children are optional; children recurse with a
/// bounded depth.
#[verifier::rlimit(100)]
fn component_from_value(v: &serde_json::Value, depth: u32) -> (r: Result<
    TextComponent,
    DecodeError,
>)
    ensures
        match r {
            Ok(c) => component_ok(value_model(*v), depth as nat) && component_matches(
                value_model(*v),
                c,
                depth as nat,
            ),
            Err(e) => !component_ok(value_model(*v), depth as nat) && e == DecodeError::Schema,
        },
    decreases depth, 0int,
{
    let text = match req_string(v, "text") {
        Ok(s) => s,
        Err(e) => {
            return Err(e);
        },
    };
    let type_ = match json_get(v, "type") {
        None => None,
        Some(tv) => if json_is_null(tv) {
            None
        } else {
            match json_as_str(tv) {
                Some(s) => match tag_from_str(s) {
                    Some(t) => Some(t),
                    None => {
                        return Err(DecodeError::Schema);
                    },
                },
                None => {
                    return Err(DecodeError::Schema);
                },
            }
        },
    };
    let extra = match json_get(v, "extra") {
        None => None,
        Some(ev) => if json_is_null(ev) {
            None
        } else {
            match json_as_array(ev) {
                Some(arr) => {
                    if depth == 0 {
                        return Err(DecodeError::Schema);
                    }
                    let ghost models = arr@.map_values(
                        |x: serde_json::Value| value_model(x),
                    );
                    let mut children: Vec<SlpServerDescription> = Vec::new();
                    let mut i: usize = 0;
                    while i < arr.len()
                        invariant
                            i <= arr@.len(),
                            depth >= 1,
                            children@.len() == i,
                            models == arr@.map_values(|x: serde_json::Value| value_model(x)),
                            doc_member(value_model(*v), "extra"@) == Some(JsonDoc::Array(models)),
                            forall|j: int|
                                0 <= j < i ==> desc_ok(
                                    value_model(#[trigger] arr@[j]),
                                    (depth - 1) as nat,
                                ),
                            forall|j: int|
                                0 <= j < i ==> desc_matches(
                                    value_model(arr@[j]),
                                    #[trigger] children@[j],
                                    (depth - 1) as nat,
                                ),
                        decreases arr@.len() - i,
                    {
                        let element = vstd::std_specs::vec::vec_index(arr, i);
                        proof {
                            assert(value_model(*element) == value_model(arr@[i as int]));
                            assert(models[i as int] == value_model(arr@[i as int]));
                            assert(doc_member(value_model(*v), "extra"@)->Some_0->Array_0[i as int]
                                == value_model(*element));
                        }
                        let child = match description_from_value(element, depth - 1) {
                            Ok(d) => d,
                            Err(e) => {
                                proof {
                                    assert(!component_ok(value_model(*v), depth as nat));
                                }
                                return Err(e);
                            },
                        };
                        let ghost prev = children@;
                        let ghost this_child = child;
                        children.push(child);
                        proof {
                            assert(children@ == prev.push(this_child));
                            assert forall|j: int|
                                0 <= j < i + 1 implies desc_ok(
                                value_model(arr@[j]),
                                (depth - 1) as nat,
                            ) && desc_matches(
                                value_model(arr@[j]),
                                #[trigger] children@[j],
                                (depth - 1) as nat,
                            ) by {
                                if j < i {
                                    assert(children@[j] == prev[j]);
                                    assert(desc_matches(
                                        value_model(arr@[j]),
                                        prev[j],
                                        (depth - 1) as nat,
                                    ));
                                } else {
                                    assert(children@[j] == this_child);
                                }
                            }
                        }
                        i = i + 1;
                    }
                    proof {
                        assert forall|j: int|
                            0 <= j < models.len() implies desc_ok(
                            #[trigger] models[j],
                            (depth - 1) as nat,
                        ) && desc_matches(models[j], children@[j], (depth - 1) as nat) by {
                            assert(models[j] == value_model(arr@[j]));
                            assert(desc_matches(
                                value_model(arr@[j]),
                                children@[j],
                                (depth - 1) as nat,
                            ));
                        }
                    }
                    Some(children)
                },
                None => {
                    return Err(DecodeError::Schema);
                },
            }
        },
    };
    let color = match opt_string(v, "color") {
        Ok(x) => x,
        Err(e) => {
            return Err(e);
        },
    };
    let bold = match opt_flag(v, "bold") {
        Ok(x) => x,
        Err(e) => {
            return Err(e);
        },
    };
    let italic = match opt_flag(v, "italic") {
        Ok(x) => x,
        Err(e) => {
            return Err(e);
        },
    };
    let underlined = match opt_flag(v, "underlined") {
        Ok(x) => x,
        Err(e) => {
            return Err(e);
        },
    };
    let strikethrough = match opt_flag(v, "strikethrough") {
        Ok(x) => x,
        Err(e) => {
            return Err(e);
        },
    };
    let obfuscated = match opt_flag(v, "obfuscated") {
        Ok(x) => x,
        Err(e) => {
            return Err(e);
        },
    };
    let font = match opt_string(v, "font") {
        Ok(x) => x,
        Err(e) => {
            return Err(e);
        },
    };
    let insertion = match opt_string(v, "insertion") {
        Ok(x) => x,
        Err(e) => {
            return Err(e);
        },
    };
    Ok(
        TextComponent {
            type_,
            extra,
            text,
            color,
            bold,
            italic,
            underlined,
            strikethrough,
            obfuscated,
            font,
            insertion,
        },
    )
}

/// The version block of a status document.
fn version_from_value(v: &serde_json::Value) -> (r: Result<SlpServerVersion, DecodeError>)
    ensures
        match r {
            Ok(ver) => version_ok(value_model(*v)) && version_matches(value_model(*v), ver),
            Err(e) => !version_ok(value_model(*v)) && e == DecodeError::Schema,
        },
{
    let name = match req_string(v, "name") {
        Ok(s) => s,
        Err(e) => {
            return Err(e);
        },
    };
    let protocol = match req_i32(v, "protocol") {
        Ok(n) => n,
        Err(e) => {
            return Err(e);
        },
    };
    Ok(SlpServerVersion { name, protocol })
}

/// The players block, with its optional sample list.
fn players_from_value(v: &serde_json::Value) -> (r: Result<SlpServerPlayers, DecodeError>)
    ensures
        match r {
            Ok(p) => players_ok(value_model(*v)) && players_matches(value_model(*v), p),
            Err(e) => !players_ok(value_model(*v)) && e == DecodeError::Schema,
        },
{
    let max = match req_i32(v, "max") {
        Ok(n) => n,
        Err(e) => {
            return Err(e);
        },
    };
    let online = match req_i32(v, "online") {
        Ok(n) => n,
        Err(e) => {
            return Err(e);
        },
    };
    let sample = match json_get(v, "sample") {
        None => None,
        Some(sv) => if json_is_null(sv) {
            None
        } else {
            match json_as_array(sv) {
                Some(arr) => {
                    let ghost models = arr@.map_values(
                        |x: serde_json::Value| value_model(x),
                    );
                    let mut entries: Vec<SlpServerPlayerSample> = Vec::new();
                    let mut i: usize = 0;
                    while i < arr.len()
                        invariant
                            i <= arr@.len(),
                            entries@.len() == i,
                            models == arr@.map_values(|x: serde_json::Value| value_model(x)),
                            doc_member(value_model(*v), "sample"@) == Some(JsonDoc::Array(models)),
                            forall|j: int|
                                0 <= j < i ==> sample_entry_ok(value_model(#[trigger] arr@[j])),
                            forall|j: int|
                                0 <= j < i ==> sample_entry_matches(
                                    value_model(arr@[j]),
                                    #[trigger] entries@[j],
                                ),
                        decreases arr@.len() - i,
                    {
                        let element = vstd::std_specs::vec::vec_index(arr, i);
                        proof {
                            assert(value_model(*element) == value_model(arr@[i as int]));
                            assert(models[i as int] == value_model(arr@[i as int]));
                            assert(doc_member(value_model(*v), "sample"@)->Some_0->Array_0[i as int]
                                == value_model(*element));
                        }
                        let name = match req_string(element, "name") {
                            Ok(s) => s,
                            Err(e) => {
                                proof {
                                    assert(!players_ok(value_model(*v)));
                                }
                                return Err(e);
                            },
                        };
                        let id = match req_string(element, "id") {
                            Ok(s) => s,
                            Err(e) => {
                                proof {
                                    assert(!players_ok(value_model(*v)));
                                }
                                return Err(e);
                            },
                        };
                        let ghost prev = entries@;
                        entries.push(SlpServerPlayerSample { name, id });
                        proof {
                            assert(entries@ == prev.push(entries@.last()));
                            assert(forall|j: int|
                                0 <= j < prev.len() ==> #[trigger] entries@[j] == prev[j]);
                        }
                        i = i + 1;
                    }
                    proof {
                        assert forall|j: int|
                            0 <= j < models.len() implies sample_entry_ok(#[trigger] models[j])
                            && sample_entry_matches(models[j], entries@[j]) by {
                            assert(models[j] == value_model(arr@[j]));
                            assert(sample_entry_matches(value_model(arr@[j]), entries@[j]));
                        }
                    }
                    Some(entries)
                },
                None => {
                    return Err(DecodeError::Schema);
                },
            }
        },
    };
    Ok(SlpServerPlayers { max, online, sample })
}

/// The optional Forge extension block.
fn modinfo_from_value(v: &serde_json::Value) -> (r: Result<SlpForgeModInfo, DecodeError>)
    ensures
        match r {
            Ok(info) => modinfo_ok(value_model(*v)) && modinfo_matches(value_model(*v), info),
            Err(e) => !modinfo_ok(value_model(*v)) && e == DecodeError::Schema,
        },
{
    let type_ = match req_string(v, "type") {
        Ok(s) => s,
        Err(e) => {
            return Err(e);
        },
    };
    let list_value = match json_get(v, "mod_list") {
        Some(x) => x,
        None => {
            return Err(DecodeError::Schema);
        },
    };
    let arr = match json_as_array(list_value) {
        Some(a) => a,
        None => {
            return Err(DecodeError::Schema);
        },
    };
    let ghost models = arr@.map_values(|x: serde_json::Value| value_model(x));
    let mut mod_list: Vec<SlpForgeModEntry> = Vec::new();
    let mut i: usize = 0;
    while i < arr.len()
        invariant
            i <= arr@.len(),
            mod_list@.len() == i,
            models == arr@.map_values(|x: serde_json::Value| value_model(x)),
            doc_member(value_model(*v), "mod_list"@) == Some(JsonDoc::Array(models)),
            forall|j: int| 0 <= j < i ==> mod_entry_ok(value_model(#[trigger] arr@[j])),
            forall|j: int|
                0 <= j < i ==> mod_entry_matches(value_model(arr@[j]), #[trigger] mod_list@[j]),
        decreases arr@.len() - i,
    {
        let element = vstd::std_specs::vec::vec_index(arr, i);
        proof {
            assert(value_model(*element) == value_model(arr@[i as int]));
            assert(models[i as int] == value_model(arr@[i as int]));
            assert(doc_member(value_model(*v), "mod_list"@)->Some_0->Array_0[i as int]
                == value_model(*element));
        }
        let modid = match req_string(element, "modid") {
            Ok(s) => s,
            Err(e) => {
                proof {
                    assert(!modinfo_ok(value_model(*v)));
                }
                return Err(e);
            },
        };
        let version = match req_string(element, "version") {
            Ok(s) => s,
            Err(e) => {
                proof {
                    assert(!modinfo_ok(value_model(*v)));
                }
                return Err(e);
            },
        };
        let ghost prev = mod_list@;
        mod_list.push(SlpForgeModEntry { modid, version });
        proof {
            assert(mod_list@ == prev.push(mod_list@.last()));
            assert(forall|j: int| 0 <= j < prev.len() ==> #[trigger] mod_list@[j] == prev[j]);
        }
        i = i + 1;
    }
    proof {
        assert forall|j: int|
            0 <= j < models.len() implies mod_entry_ok(#[trigger] models[j]) && mod_entry_matches(
            models[j],
            mod_list@[j],
        ) by {
            assert(models[j] == value_model(arr@[j]));
            assert(mod_entry_matches(value_model(arr@[j]), mod_list@[j]));
        }
    }
    Ok(SlpForgeModInfo { type_, mod_list })
}

impl SlpResponse {
    /// Builds the model out of one parsed status document: it succeeds
    /// exactly when the document has the shape of a status response, and
    /// then every field of the model is the corresponding member's content.
    pub fn from_document(v: &serde_json::Value) -> (r: Result<SlpResponse, DecodeError>)
        ensures
            match r {
                Ok(resp) => status_doc_ok(value_model(*v)) && status_doc_matches(
                    value_model(*v),
                    resp,
                ),
                Err(e) => !status_doc_ok(value_model(*v)) && e == DecodeError::Schema,
            },
    {
        let version_value = match json_get(v, "version") {
            Some(x) => x,
            None => {
                return Err(DecodeError::Schema);
            },
        };
        let version = match version_from_value(version_value) {
            Ok(x) => x,
            Err(e) => {
                return Err(e);
            },
        };
        let players_value = match json_get(v, "players") {
            Some(x) => x,
            None => {
                return Err(DecodeError::Schema);
            },
        };
        let players = match players_from_value(players_value) {
            Ok(x) => x,
            Err(e) => {
                return Err(e);
            },
        };
        let description_value = match json_get(v, "description") {
            Some(x) => x,
            None => {
                return Err(DecodeError::Schema);
            },
        };
        let description = match description_from_value(description_value, MAX_TEXT_DEPTH) {
            Ok(x) => x,
            Err(e) => {
                return Err(e);
            },
        };
        let favicon = match opt_string(v, "favicon") {
            Ok(x) => x,
            Err(e) => {
                return Err(e);
            },
        };
        let enforces_secure_chat = match opt_flag(v, "enforcesSecureChat") {
            Ok(x) => x,
            Err(e) => {
                return Err(e);
            },
        };
        let previews_chat = match opt_flag(v, "previewsChat") {
            Ok(x) => x,
            Err(e) => {
                return Err(e);
            },
        };
        let prevents_chat_reports = match opt_flag(v, "preventsChatReports") {
            Ok(x) => x,
            Err(e) => {
                return Err(e);
            },
        };
        let modinfo = match json_get(v, "modinfo") {
            None => None,
            Some(mv) => if json_is_null(mv) {
                None
            } else {
                match modinfo_from_value(mv) {
                    Ok(x) => Some(x),
                    Err(e) => {
                        return Err(e);
                    },
                }
            },
        };
        Ok(
            SlpResponse {
                version,
                players,
                description,
                favicon,
                enforces_secure_chat,
                previews_chat,
                prevents_chat_reports,
                modinfo,
            },
        )
    }

    /// Decodes a complete status-response frame: strips the length prefix
    /// and the packet id, reads the JSON text, parses it, and builds the
    /// model. It succeeds exactly when the frame is well formed, its text is
    /// a JSON document, and that document has the shape of a status
    /// response; the model's fields are then the document's members, and
    /// each error class names exactly which stage refused.
    pub fn from_frame(data: &[u8]) -> (r: Result<SlpResponse, DecodeError>)
        ensures
            match r {
                Ok(resp) => spec_frame_json_text(data@) is Ok && json_wf(
                    spec_frame_json_text(data@)->Ok_0,
                ) && status_doc_ok(doc_of(spec_frame_json_text(data@)->Ok_0))
                    && status_doc_matches(doc_of(spec_frame_json_text(data@)->Ok_0), resp),
                Err(e) => match e {
                    DecodeError::Codec(c) => spec_frame_json_text(data@) == Err::<
                        Seq<char>,
                        CodecError,
                    >(c),
                    DecodeError::Json => spec_frame_json_text(data@) is Ok && !json_wf(
                        spec_frame_json_text(data@)->Ok_0,
                    ),
                    DecodeError::Schema => spec_frame_json_text(data@) is Ok && json_wf(
                        spec_frame_json_text(data@)->Ok_0,
                    ) && !status_doc_ok(doc_of(spec_frame_json_text(data@)->Ok_0)),
                },
            },
    {
        let (_, k1) = match VarInt::from_bytes(data) {
            Ok(x) => x,
            Err(e) => {
                proof {
                    crate::varint::lemma_varint_decode_malformed(data@);
                }
                return Err(DecodeError::Codec(e));
            },
        };
        let rest1 = data.split_at(k1).1;
        assert(rest1@ =~= data@.skip(k1 as int));
        let (_, k2) = match VarInt::from_bytes(rest1) {
            Ok(x) => x,
            Err(e) => {
                proof {
                    crate::varint::lemma_varint_decode_malformed(rest1@);
                }
                return Err(DecodeError::Codec(e));
            },
        };
        let rest2 = rest1.split_at(k2).1;
        assert(rest2@ =~= rest1@.skip(k2 as int));
        let json_text = match VarString::from_bytes(rest2) {
            Ok(s) => s,
            Err(e) => {
                return Err(DecodeError::Codec(e));
            },
        };
        let root = match json_parse(json_text.0.as_str()) {
            Ok(v) => v,
            Err(_) => {
                return Err(DecodeError::Json);
            },
        };
        Self::from_document(&root)
    }
}

impl Packet for SlpResponse {
    open spec fn spec_packet_id() -> i32 {
        0x00
    }

    fn packet_id() -> (r: VarInt) {
        VarInt(0x00)
    }
}

impl PacketDecode for SlpResponse {
    /// Decodes a status response from the accumulated bytes of one frame,
    /// exactly as [`SlpResponse::from_frame`] does.
    fn decode(data: &[u8]) -> (r: Result<Self, DecodeError>)
        ensures
            match r {
                Ok(resp) => spec_frame_json_text(data@) is Ok && json_wf(
                    spec_frame_json_text(data@)->Ok_0,
                ) && status_doc_ok(doc_of(spec_frame_json_text(data@)->Ok_0))
                    && status_doc_matches(doc_of(spec_frame_json_text(data@)->Ok_0), resp),
                Err(e) => match e {
                    DecodeError::Codec(c) => spec_frame_json_text(data@) == Err::<
                        Seq<char>,
                        CodecError,
                    >(c),
                    DecodeError::Json => spec_frame_json_text(data@) is Ok && !json_wf(
                        spec_frame_json_text(data@)->Ok_0,
                    ),
                    DecodeError::Schema => spec_frame_json_text(data@) is Ok && json_wf(
                        spec_frame_json_text(data@)->Ok_0,
                    ) && !status_doc_ok(doc_of(spec_frame_json_text(data@)->Ok_0)),
                },
            },
    {
        Self::from_frame(data)
    }
}

} // verus!
