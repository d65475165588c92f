//! Reading JSON documents.
//!
//! The gateway never walks a document. It asks what stands at a handful of
//! places, each named by a JSON Pointer such as `/message/content`, and
//! decides from the answers. Parsing is `serde_json`'s work; what the parser
//! finds is not proved here but named: see [`json_member`].

use vstd::prelude::*;

verus! {

/// A JSON number as it is carried through: its text in the notation that
/// `serde_json` writes numbers in.
#[derive(Clone, Debug, PartialEq, Eq)]
pub struct JsonNumber {
    pub text: String,
}

/// What stands at one place of a JSON document.
#[derive(Clone, Debug, PartialEq, Eq)]
pub enum JsonMember {
    /// Nothing: the place does not exist.
    Absent,
    /// `null`.
    Null,
    /// `true` or `false`.
    Flag(bool),
    /// A number, and its value where it is an integer from 0 to 2^64 - 1.
    Number(JsonNumber, Option<u64>),
    /// A string.
    Text(String),
    /// An array, by its length.
    Array(usize),
    /// An object.
    Object,
}

/// What `serde_json` finds at the place `pointer` of the document that the
/// bytes `document` hold. The result is `None` where the bytes are no JSON
/// document; whether they are does not depend on the pointer.
pub uninterp spec fn json_member(document: Seq<u8>, pointer: Seq<char>) -> Option<JsonMember>;

/// What the lossy reading of bytes as UTF-8 gives: the text that the bytes
/// encode, with what is no valid encoding replaced.
pub uninterp spec fn lossy_text(bytes: Seq<u8>) -> String;

/// The bytes of a text: its UTF-8 encoding.
pub open spec fn bytes_of(text: Seq<char>) -> Seq<u8> {
    vstd::utf8::encode_utf8(text)
}

/// Whether the bytes hold a JSON document: whether anything at all stands at
/// its root, which the empty pointer names.
pub open spec fn is_json(document: Seq<u8>) -> bool {
    json_member(document, ""@) is Some
}

/// Whether the bytes hold a JSON document that is an object.
pub open spec fn is_object(document: Seq<u8>) -> bool {
    json_member(document, ""@) == Some(JsonMember::Object)
}

/// The string that is set at a place of a document, if one may be set: see
/// [`JsonMember::spec_text`]. It is `None` too where the bytes hold no
/// document.
pub open spec fn text_at(document: Seq<u8>, pointer: Seq<char>) -> Option<Option<String>> {
    match json_member(document, pointer) {
        Some(member) => member.spec_text(),
        None => None,
    }
}

/// The boolean that is set at a place of a document, if one may be set: see
/// [`JsonMember::spec_flag`].
pub open spec fn flag_at(document: Seq<u8>, pointer: Seq<char>) -> Option<Option<bool>> {
    match json_member(document, pointer) {
        Some(member) => member.spec_flag(),
        None => None,
    }
}

/// The number that is set at a place of a document, if one may be set: see
/// [`JsonMember::spec_number`].
pub open spec fn number_at(document: Seq<u8>, pointer: Seq<char>) -> Option<Option<JsonNumber>> {
    match json_member(document, pointer) {
        Some(member) => member.spec_number(),
        None => None,
    }
}

/// The count that is set at a place of a document, if one may be set: see
/// [`JsonMember::spec_count`].
pub open spec fn count_at(document: Seq<u8>, pointer: Seq<char>) -> Option<Option<u32>> {
    match json_member(document, pointer) {
        Some(member) => member.spec_count(),
        None => None,
    }
}

/// Parses the bytes with `serde_json::from_slice` into a
/// `serde_json::Value`, looks the place up with `Value::pointer`, and says
/// which variant of `Value` stands there. A number is given by its text as
/// `Number`'s `Display` writes it, and by `Number::as_u64`. The contract
/// names the result, and states that the bytes alone decide whether there is
/// one.
#[verifier::external_body]
pub(crate) fn member(document: &[u8], pointer: &str) -> (member: Option<JsonMember>)
    ensures
        member == json_member(document@, pointer@),
        member is Some <==> is_json(document@),
{
    let value = serde_json::from_slice::<serde_json::Value>(document).ok()?;
    Some(match value.pointer(pointer) {
        None => JsonMember::Absent,
        Some(serde_json::Value::Null) => JsonMember::Null,
        Some(serde_json::Value::Bool(flag)) => JsonMember::Flag(*flag),
        Some(serde_json::Value::Number(n)) => JsonMember::Number(
            JsonNumber { text: n.to_string() },
            n.as_u64(),
        ),
        Some(serde_json::Value::String(text)) => JsonMember::Text(text.clone()),
        Some(serde_json::Value::Array(items)) => JsonMember::Array(items.len()),
        Some(serde_json::Value::Object(_)) => JsonMember::Object,
    })
}

/// Reads bytes as text with `String::from_utf8_lossy`, which never fails.
/// The contract only names the result.
#[verifier::external_body]
pub(crate) fn shown(bytes: &[u8]) -> (text: String)
    ensures
        text == lossy_text(bytes@),
{
    String::from_utf8_lossy(bytes).into_owned()
}

/// The bytes of a text.
pub fn document_of(text: &str) -> (bytes: &[u8])
    ensures
        bytes@ == bytes_of(text@),
{
    text.as_bytes()
}

/// Whether the bytes hold a JSON document that is an object.
pub fn holds_object(document: &[u8]) -> (yes: bool)
    ensures
        yes == is_object(document@),
{
    match member(document, "") {
        Some(JsonMember::Object) => true,
        _ => false,
    }
}

/// See [`text_at`].
pub fn read_text(document: &[u8], pointer: &str) -> (read: Option<Option<String>>)
    ensures
        read == text_at(document@, pointer@),
{
    match member(document, pointer) {
        Some(member) => member.text(),
        None => None,
    }
}

/// See [`flag_at`].
pub fn read_flag(document: &[u8], pointer: &str) -> (read: Option<Option<bool>>)
    ensures
        read == flag_at(document@, pointer@),
{
    match member(document, pointer) {
        Some(member) => member.flag(),
        None => None,
    }
}

/// See [`number_at`].
pub fn read_number(document: &[u8], pointer: &str) -> (read: Option<Option<JsonNumber>>)
    ensures
        read == number_at(document@, pointer@),
{
    match member(document, pointer) {
        Some(member) => member.number(),
        None => None,
    }
}

/// See [`count_at`].
pub fn read_count(document: &[u8], pointer: &str) -> (read: Option<Option<u32>>)
    ensures
        read == count_at(document@, pointer@),
{
    match member(document, pointer) {
        Some(member) => member.count(),
        None => None,
    }
}

impl JsonMember {
    /// Whether nothing is set here: the place is absent or holds `null`.
    pub open spec fn is_unset(self) -> bool {
        self is Absent || self is Null
    }

    /// The string that is set here, if one may be set. The outer `None`
    /// says that something else than a string stands here.
    pub open spec fn spec_text(self) -> Option<Option<String>> {
        match self {
            JsonMember::Absent => Some(None),
            JsonMember::Null => Some(None),
            JsonMember::Text(text) => Some(Some(text)),
            _ => None,
        }
    }

    /// The boolean that is set here, if one may be set. The outer `None`
    /// says that something else than a boolean stands here.
    pub open spec fn spec_flag(self) -> Option<Option<bool>> {
        match self {
            JsonMember::Absent => Some(None),
            JsonMember::Null => Some(None),
            JsonMember::Flag(flag) => Some(Some(flag)),
            _ => None,
        }
    }

    /// The number that is set here, if one may be set. The outer `None`
    /// says that something else than a number stands here.
    pub open spec fn spec_number(self) -> Option<Option<JsonNumber>> {
        match self {
            JsonMember::Absent => Some(None),
            JsonMember::Null => Some(None),
            JsonMember::Number(number, _) => Some(Some(number)),
            _ => None,
        }
    }

    /// The count that is set here, if one may be set. The outer `None` says
    /// that something else than an integer from 0 to 2^32 - 1 stands here.
    pub open spec fn spec_count(self) -> Option<Option<u32>> {
        match self {
            JsonMember::Absent => Some(None),
            JsonMember::Null => Some(None),
            JsonMember::Number(_, Some(n)) => if n <= u32::MAX {
                Some(Some(n as u32))
            } else {
                None
            },
            _ => None,
        }
    }

    /// See [`JsonMember::spec_text`].
    pub fn text(self) -> (read: Option<Option<String>>)
        ensures
            read == self.spec_text(),
    {
        match self {
            JsonMember::Absent => Some(None),
            JsonMember::Null => Some(None),
            JsonMember::Text(text) => Some(Some(text)),
            _ => None,
        }
    }

    /// See [`JsonMember::spec_flag`].
    pub fn flag(self) -> (read: Option<Option<bool>>)
        ensures
            read == self.spec_flag(),
    {
        match self {
            JsonMember::Absent => Some(None),
            JsonMember::Null => Some(None),
            JsonMember::Flag(flag) => Some(Some(flag)),
            _ => None,
        }
    }

    /// See [`JsonMember::spec_number`].
    pub fn number(self) -> (read: Option<Option<JsonNumber>>)
        ensures
            read == self.spec_number(),
    {
        match self {
            JsonMember::Absent => Some(None),
            JsonMember::Null => Some(None),
            JsonMember::Number(number, _) => Some(Some(number)),
            _ => None,
        }
    }

    /// See [`JsonMember::spec_count`].
    pub fn count(self) -> (read: Option<Option<u32>>)
        ensures
            read == self.spec_count(),
    {
        match self {
            JsonMember::Absent => Some(None),
            JsonMember::Null => Some(None),
            JsonMember::Number(_, Some(n)) => if n <= 0xffff_ffff {
                Some(Some(n as u32))
            } else {
                None
            },
            _ => None,
        }
    }
}

} // verus!
