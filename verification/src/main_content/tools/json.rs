//! The parts of a tool's JSON arguments and results that the tool cards read.
//!
//! Parsing and pretty-printing are serde_json's work; the trusted items
//! below name what they yield for a given text, and the tool-card logic is
//! written against those names.

use crate::text::{
    chars_of, find_chars, lemma_find_some, occurs_at, slice_chars, string_of, trim_chars, find,
    trim,
};
use vstd::prelude::*;

verus! {

/// What a text is as a JSON document.
#[derive(Debug, Clone, Copy, PartialEq, Eq, Structural)]
pub enum JsonShape {
    /// Not a JSON document.
    Invalid,
    /// A JSON object.
    Object,
    /// Any other JSON value.
    Other,
}

/// A member of a JSON object, as the tool cards read it.
#[derive(Debug, Clone, PartialEq, Eq)]
pub enum JsonMember {
    /// No such member (or the document is not an object).
    Missing,
    /// A string member.
    Text(String),
    /// A member holding something else than a string.
    NotText,
}

/// The value of a [`JsonMember`].
pub enum MemberView {
    Missing,
    Text(Seq<char>),
    NotText,
}

impl View for JsonMember {
    type V = MemberView;

    open spec fn view(&self) -> MemberView {
        match self {
            JsonMember::Missing => MemberView::Missing,
            JsonMember::Text(s) => MemberView::Text(s@),
            JsonMember::NotText => MemberView::NotText,
        }
    }
}

/// The shape serde_json parses `text` into.
pub uninterp spec fn json_shape(text: Seq<char>) -> JsonShape;

/// The member `key` of the document serde_json parses `text` into.
pub uninterp spec fn json_member(text: Seq<char>, key: Seq<char>) -> MemberView;

/// The pretty-printed form of the document `text`, when it parses.
pub uninterp spec fn json_pretty(text: Seq<char>) -> Option<Seq<char>>;

/// Parses `text` with `serde_json::from_str::<serde_json::Value>` and tells
/// an object from any other value and from a parse error.
/// Claimed: the result is `json_shape(text)`.
#[verifier::external_body]
pub(crate) fn json_shape_of(text: &str) -> (r: JsonShape)
    ensures
        r == json_shape(text@),
{
    match serde_json::from_str::<serde_json::Value>(text) {
        Ok(serde_json::Value::Object(_)) => JsonShape::Object,
        Ok(_) => JsonShape::Other,
        Err(_) => JsonShape::Invalid,
    }
}

/// Parses `text` with `serde_json::from_str::<serde_json::Value>` and reads
/// its member `key` with `Value::get` and `Value::as_str`. Claimed: the
/// result is `json_member(text, key)`, and a text that does not parse into an
/// object (as `json_shape_of` tells) has no members, since `Value::get` with a
/// string key looks only into objects.
#[verifier::external_body]
pub(crate) fn json_member_of(text: &str, key: &str) -> (r: JsonMember)
    ensures
        r@ == json_member(text@, key@),
        !(json_shape(text@) is Object) ==> r is Missing,
{
    match serde_json::from_str::<serde_json::Value>(text).ok().as_ref().and_then(|v| v.get(key)) {
        None => JsonMember::Missing,
        Some(m) => match m.as_str() {
            Some(s) => JsonMember::Text(s.to_string()),
            None => JsonMember::NotText,
        },
    }
}

/// Parses `text` with `serde_json::from_str::<serde_json::Value>` and prints
/// it back with `serde_json::to_string_pretty`; `None` when either fails.
/// Claimed: the result is `json_pretty(text)`.
#[verifier::external_body]
pub(crate) fn json_pretty_of(text: &str) -> (r: Option<String>)
    ensures
        match r {
            Some(p) => json_pretty(text@) == Some(p@),
            None => json_pretty(text@) is None,
        },
{
    serde_json::from_str::<serde_json::Value>(text).ok().and_then(|v| serde_json::to_string_pretty(&v).ok())
}

/// Tool arguments as the cards read them: nothing, a JSON document, or a
/// JSON object whose `__body__` and `content` members are replaced by a body
/// that followed it.
#[derive(Debug, Clone, PartialEq, Eq)]
pub enum ToolArgs {
    Null,
    Document(String),
    WithBody(String, String),
}

pub enum ArgsView {
    Null,
    Document(Seq<char>),
    WithBody(Seq<char>, Seq<char>),
}

impl View for ToolArgs {
    type V = ArgsView;

    open spec fn view(&self) -> ArgsView {
        match self {
            ToolArgs::Null => ArgsView::Null,
            ToolArgs::Document(t) => ArgsView::Document(t@),
            ToolArgs::WithBody(t, b) => ArgsView::WithBody(t@, b@),
        }
    }
}

/// The separator between a runner's JSON header and the body it streams after it.
pub open spec fn body_marker() -> Seq<char> {
    "__body__:\n"@
}

/// The arguments a tool call carries: the whole text when it is JSON;
/// otherwise, when it is a JSON header, the marker `__body__:` and a line
/// break, then a body, the header with the body as its `__body__` and
/// `content` (objects only); nothing else.
pub open spec fn tool_args(text: Seq<char>) -> ArgsView {
    if json_shape(text) != JsonShape::Invalid {
        ArgsView::Document(text)
    } else {
        match find(text, body_marker()) {
            Some(idx) => {
                let header = trim(text.take(idx));
                let body = text.skip(idx + body_marker().len());
                match json_shape(header) {
                    JsonShape::Invalid => ArgsView::Null,
                    JsonShape::Object => ArgsView::WithBody(header, body),
                    JsonShape::Other => ArgsView::Document(header),
                }
            },
            None => ArgsView::Null,
        }
    }
}

/// The member `key` of the arguments.
pub open spec fn args_member(a: ArgsView, key: Seq<char>) -> MemberView {
    match a {
        ArgsView::Null => MemberView::Missing,
        ArgsView::Document(t) => json_member(t, key),
        ArgsView::WithBody(t, b) => if key == "__body__"@ || key == "content"@ {
            MemberView::Text(b)
        } else {
            json_member(t, key)
        },
    }
}

/// Reads tool arguments from either raw JSON or a runner-formatted stream
/// (a JSON header, `__body__:` and a line break, then the body).
pub fn parse_tool_args_to_value(args_json: &str) -> (r: ToolArgs)
    ensures
        r@ == tool_args(args_json@),
{
    if json_shape_of(args_json) != JsonShape::Invalid {
        return ToolArgs::Document(crate::text::owned(args_json));
    }
    let v = chars_of(args_json);
    let marker = chars_of("__body__:\n");
    match find_chars(&v, &marker) {
        Some(idx) => {
            proof {
                lemma_find_some(v@, marker@, idx as int);
                assert(occurs_at(v@, marker@, idx as int));
            }
            let head = slice_chars(&v, 0, idx);
            let header = trim_chars(&head);
            let ml = marker.len();
            let vl = v.len();
            assert(idx + ml <= vl);
            let body = slice_chars(&v, idx + ml, v.len());
            assert(body@ =~= v@.skip(idx + body_marker().len()));
            assert(head@ =~= v@.take(idx as int));
            let hs = string_of(header.as_slice());
            match json_shape_of(hs.as_str()) {
                JsonShape::Invalid => ToolArgs::Null,
                JsonShape::Object => ToolArgs::WithBody(hs, string_of(body.as_slice())),
                JsonShape::Other => ToolArgs::Document(hs),
            }
        },
        None => ToolArgs::Null,
    }
}

/// Reads the member `key` of tool arguments.
pub fn args_member_of(a: &ToolArgs, key: &str) -> (r: JsonMember)
    ensures
        r@ == args_member(a@, key@),
{
    match a {
        ToolArgs::Null => JsonMember::Missing,
        ToolArgs::Document(t) => json_member_of(t.as_str(), key),
        ToolArgs::WithBody(t, b) => {
            if crate::text::str_eq(key, "__body__") || crate::text::str_eq(key, "content") {
                JsonMember::Text(b.clone())
            } else {
                json_member_of(t.as_str(), key)
            }
        },
    }
}

} // verus!
