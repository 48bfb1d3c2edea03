//! Decoding a sign message: the bytes received are read as UTF-8 (invalid
//! sequences replaced), parsed as JSON, and the members `state` and `str` are
//! taken in their JSON rendering (a string member keeps its quotes; a missing
//! member renders as `null`).

use vstd::prelude::*;
use vstd::utf8::{valid_utf8, decode_utf8};
use crate::animation::{MatrixAnimationData, MatrixAnimationTypes, parse_matrix_states, state_named};

verus! {

/// The text that `String::from_utf8_lossy` makes of `bytes`.
pub uninterp spec fn lossy_text(bytes: Seq<u8>) -> Seq<char>;

/// What serde_json makes of member `key` of the JSON document `text`: `None`
/// when `text` does not parse as JSON, else the member rendered as JSON text.
pub uninterp spec fn json_member(text: Seq<char>, key: Seq<char>) -> Option<Seq<char>>;

/// Calls `String::from_utf8_lossy`. Trusted to return `lossy_text(bytes)`,
/// which for valid UTF-8 is the decoded text; how invalid sequences are
/// replaced is left to the name.
#[verifier::external_body]
fn utf8_lossy(bytes: &[u8]) -> (text: String)
    ensures
        text@ == lossy_text(bytes@),
        valid_utf8(bytes@) ==> text@ == decode_utf8(bytes@),
{
    String::from_utf8_lossy(bytes).into_owned()
}

/// Calls `serde_json::from_str::<serde_json::Value>` on `text`, indexes the
/// value by `key` (`Index<&str>`, which gives `Null` for a missing member or a
/// non-object) and renders the member with its `Display` (`to_string`).
/// Trusted to return `json_member(text, key)`: `None` exactly when parsing
/// fails. What the rendering is, is left to the name.
#[verifier::external_body]
fn json_member_text(text: &str, key: &str) -> (member: Option<String>)
    ensures
        match member {
            Some(m) => json_member(text@, key@) == Some(m@),
            None => json_member(text@, key@) is None,
        },
{
    match serde_json::from_str::<serde_json::Value>(text) {
        Ok(value) => Some(value[key].to_string()),
        Err(_) => None,
    }
}

/// The view of an optional string.
pub open spec fn text_view(s: Option<String>) -> Option<Seq<char>> {
    match s {
        Some(t) => Some(t@),
        None => None,
    }
}

/// The view of an optional selection: the animation and the text.
pub open spec fn data_view(d: Option<MatrixAnimationData>) -> Option<(MatrixAnimationTypes, Seq<char>)> {
    match d {
        Some(x) => Some((x.matrix_animation_state, x.string_text@)),
        None => None,
    }
}

/// The selection made by the rendered `state` and `str` members, when both are present.
pub open spec fn selection(state_json: Option<Seq<char>>, text_json: Option<Seq<char>>) -> Option<
    (MatrixAnimationTypes, Seq<char>),
> {
    match (state_json, text_json) {
        (Some(s), Some(t)) => Some((state_named(s), t)),
        _ => None,
    }
}

/// The selection a sign message `bytes` makes.
pub open spec fn message_selection(bytes: Seq<u8>) -> Option<(MatrixAnimationTypes, Seq<char>)> {
    let text = lossy_text(bytes);
    selection(json_member(text, "state"@), json_member(text, "str"@))
}

/// Builds the selection from the rendered `state` and `str` members of a
/// message: the animation named by `state`, scrolling the text `str`.
pub fn message_from_members(state_json: Option<String>, text_json: Option<String>) -> (data: Option<
    MatrixAnimationData,
>)
    ensures
        data_view(data) == selection(text_view(state_json), text_view(text_json)),
        data is Some <==> state_json is Some && text_json is Some,
        data matches Some(d) ==> d.matrix_animation_state == state_named(state_json->0@)
            && d.string_text@ == text_json->0@,
{
    match (state_json, text_json) {
        (Some(s), Some(t)) => Some(
            MatrixAnimationData { matrix_animation_state: parse_matrix_states(s), string_text: t },
        ),
        _ => None,
    }
}

/// Decodes one sign message. `None` when the bytes are not a JSON document.
pub fn decode_message(bytes: &[u8]) -> (data: Option<MatrixAnimationData>)
    ensures
        data_view(data) == message_selection(bytes@),
        data_view(data) == selection(
            json_member(lossy_text(bytes@), "state"@),
            json_member(lossy_text(bytes@), "str"@),
        ),
        data is Some <==> json_member(lossy_text(bytes@), "state"@) is Some && json_member(
            lossy_text(bytes@),
            "str"@,
        ) is Some,
        data matches Some(d) ==> d.matrix_animation_state == state_named(
            json_member(lossy_text(bytes@), "state"@)->0,
        ) && d.string_text@ == json_member(lossy_text(bytes@), "str"@)->0,
{
    let text = utf8_lossy(bytes);
    let state_json = json_member_text(text.as_str(), "state");
    let text_json = json_member_text(text.as_str(), "str");
    message_from_members(state_json, text_json)
}

/// Law: a sign message is read whole: its selection is taken from the `state`
/// and `str` members of the JSON document that all of its bytes make, read as
/// UTF-8; it is present exactly when both members are.
pub proof fn law_message_read_whole(bytes: Seq<u8>)
    ensures
        message_selection(bytes) == selection(
            json_member(lossy_text(bytes), "state"@),
            json_member(lossy_text(bytes), "str"@),
        ),
        message_selection(bytes) is Some <==> json_member(lossy_text(bytes), "state"@) is Some
            && json_member(lossy_text(bytes), "str"@) is Some,
{
}

} // verus!
