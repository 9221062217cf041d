//! JSON text: how values are read and written.
//!
//! The work is done by `serde_json`, and for error objects by `jsonrpsee`. What their functions
//! return has a name here where it takes a grammar to say it: [`json_scan`], [`json_parse`],
//! [`json_text`], [`json_text_pretty`].
use vstd::prelude::*;
use vstd::utf8::encode_utf8;

use crate::error::{is_json_error, Error, OrText, Result};
use crate::json::{lemma_items, Json, JsonNumber, JsonView};
use crate::value::{export, import, value_model};

verus! {

/// The key under which `serde_json` hides a piece of raw text among the members of an object.
pub open spec fn raw_text_key() -> Seq<char> {
    "$serde_json::private::RawValue"@
}

/// The order of keys: by their first difference, a key before all that it begins.
pub open spec fn key_before(a: Seq<char>, b: Seq<char>) -> bool {
    exists|i: int|
        0 <= i <= a.len() && i <= b.len() && #[trigger] a.take(i) == b.take(i) && (if i < a.len() {
            i < b.len() && (a[i] as u32) < (b[i] as u32)
        } else {
            i < b.len()
        })
}

/// Whether the first of the members, in the order of their keys, is a piece of raw text.
pub open spec fn opens_with_raw_text(members: Map<Seq<char>, JsonView>) -> bool {
    &&& members.contains_key(raw_text_key())
    &&& forall|key: Seq<char>| #[trigger]
        members.contains_key(key) ==> key == raw_text_key() || key_before(raw_text_key(), key)
}

/// Whether no object in the value opens with a piece of raw text.
pub open spec fn plain(v: JsonView) -> bool
    decreases v,
{
    match v {
        JsonView::Array(items) => forall|i: int| 0 <= i < items.len() ==> plain(#[trigger] items[i]),
        JsonView::Object(members) => {
            &&& !opens_with_raw_text(members)
            &&& forall|key: Seq<char>| #[trigger]
                members.contains_key(key) ==> plain(members[key])
        },
        _ => true,
    }
}

/// Whether the value survives being written as text and read again: arrays and objects are
/// nested at most `depth` deep, no object opens with a piece of raw text, and every number
/// that is no integer survives by itself.
pub open spec fn readable_within(v: JsonView, depth: nat) -> bool
    decreases depth,
{
    match v {
        JsonView::Number(JsonNumber::Float(_)) => json_parse(json_text(v)) == Ok::<JsonView, Seq<char>>(v),
        JsonView::Array(items) => depth > 0 && forall|i: int|
            0 <= i < items.len() ==> readable_within(#[trigger] items[i], (depth - 1) as nat),
        JsonView::Object(members) => {
            &&& depth > 0
            &&& !opens_with_raw_text(members)
            &&& forall|key: Seq<char>| #[trigger]
                members.contains_key(key) ==> readable_within(members[key], (depth - 1) as nat)
        },
        _ => true,
    }
}

/// Whether the value survives being written as text and read again.
pub open spec fn readable(v: JsonView) -> bool {
    readable_within(v, 127)
}

/// Whether the value is an object that is not empty.
pub open spec fn has_members(v: JsonView) -> bool {
    v matches JsonView::Object(members) && exists|key: Seq<char>| members.contains_key(key)
}

/// Whether a byte is JSON whitespace.
pub open spec fn is_space(b: u8) -> bool {
    b == 0x20 || b == 0x0a || b == 0x0d || b == 0x09
}

/// Whether there is nothing but whitespace.
pub open spec fn blank(bytes: Seq<u8>) -> bool {
    forall|i: int| 0 <= i < bytes.len() ==> is_space(#[trigger] bytes[i])
}

/// What stands at the front of a stream of JSON texts.
pub enum ScannedView {
    /// Nothing but whitespace.
    Blank,
    /// A value that goes on beyond the end.
    Incomplete,
    /// Something that begins no JSON text.
    Invalid,
    /// A value, and the number of bytes up to its end.
    Complete(JsonView, nat),
}

/// The result of reading the first value of a stream with `serde_json`.
pub uninterp spec fn json_scan(bytes: Seq<u8>) -> ScannedView;

/// The result of `serde_json::from_str` on a text: the value, or the text of the error.
pub uninterp spec fn json_parse(text: Seq<char>) -> OrText<JsonView>;

/// The text that `serde_json::to_string` writes for a value.
pub uninterp spec fn json_text(v: JsonView) -> Seq<char>;

/// The text that `serde_json::to_string_pretty` writes for a value.
pub uninterp spec fn json_text_pretty(v: JsonView) -> Seq<char>;

/// The result of `serde_json::from_value::<serde_json::Value>` on a value that is not
/// [`plain`]: the value that comes out, or the text of the error.
pub uninterp spec fn unwrapped_raw_text(v: JsonView) -> OrText<JsonView>;

/// The text of the error of `serde_json::from_value::<String>` on a value that is no string.
pub uninterp spec fn string_fault(v: JsonView) -> Seq<char>;

/// The text of the error of `serde_json::from_value::<Option<usize>>` on a value that is no
/// count.
pub uninterp spec fn count_fault(v: JsonView) -> Seq<char>;

/// The text of the error of `serde_json::from_value` for a `jsonrpsee::types::ErrorObject` on a
/// value that is no error object.
pub uninterp spec fn error_fault(v: JsonView) -> Seq<char>;

/// Whether the bytes delimit themselves and hold the value: behind any whitespace and before
/// anything else they are read as the value, and no part of them is taken for a whole.
pub open spec fn framed(bytes: Seq<u8>, v: JsonView) -> bool {
    &&& bytes.len() > 0
    &&& forall|space: Seq<u8>, rest: Seq<u8>|
        blank(space) ==> #[trigger] json_scan(space + bytes + rest) == ScannedView::Complete(
            v,
            space.len() + bytes.len(),
        )
    &&& forall|space: Seq<u8>, k: int|
        blank(space) && 0 <= k < bytes.len() ==> #[trigger] json_scan(space + bytes.take(k)) == (
        if k == 0 {
            ScannedView::Blank
        } else {
            ScannedView::Incomplete
        })
}

/// Whether the text holds the value: reading the text gives the value back and, where the
/// value is an object, the bytes of the text delimit themselves.
pub open spec fn holds(text: Seq<char>, v: JsonView) -> bool {
    &&& json_parse(text) == Ok::<JsonView, Seq<char>>(v)
    &&& v is Object ==> framed(encode_utf8(text), v)
}

/// A value as it comes out of a conversion from a value: the same, unless an object in it
/// opens with a piece of raw text.
pub open spec fn carried(v: JsonView) -> OrText<JsonView> {
    if plain(v) {
        Ok(v)
    } else {
        unwrapped_raw_text(v)
    }
}

/// What stands at the front of a stream, with the value as `serde_json` has it.
enum RawScan {
    Blank,
    Incomplete,
    Invalid,
    Complete(serde_json::Value, usize),
}

/// What the result of a scan says.
spec fn raw_scan_model(scan: RawScan) -> ScannedView {
    match scan {
        RawScan::Blank => ScannedView::Blank,
        RawScan::Incomplete => ScannedView::Incomplete,
        RawScan::Invalid => ScannedView::Invalid,
        RawScan::Complete(value, n) => ScannedView::Complete(value_model(value), n as nat),
    }
}

/// Reads the first value of a stream: `serde_json::Deserializer::from_slice`, `into_iter`, one
/// `next`, and `byte_offset` for the end of the value. What comes out is named by
/// [`json_scan`]. A value takes at least a byte and ends within the stream; an error is told
/// apart by `serde_json::Error::is_eof`.
#[verifier::external_body]
fn scan_value(bytes: &[u8]) -> (r: RawScan)
    ensures
        raw_scan_model(r) == json_scan(bytes@),
        r matches RawScan::Complete(_, n) ==> 0 < n <= bytes@.len(),
{
    let mut stream = serde_json::Deserializer::from_slice(bytes).into_iter::<serde_json::Value>();
    match stream.next() {
        None => RawScan::Blank,
        Some(Ok(value)) => RawScan::Complete(value, stream.byte_offset()),
        Some(Err(e)) if e.is_eof() => RawScan::Incomplete,
        Some(Err(_)) => RawScan::Invalid,
    }
}

/// `serde_json::from_str`, named by [`json_parse`].
#[verifier::external_body]
fn parse_value(text: &str) -> (r: std::result::Result<serde_json::Value, String>)
    ensures
        match json_parse(text@) {
            Ok(v) => r is Ok && value_model(r->Ok_0) == v,
            Err(e) => r is Err && r->Err_0@ == e,
        },
{
    serde_json::from_str(text).map_err(|e| e.to_string())
}

/// `serde_json::to_string`, named by [`json_text`]. A `serde_json::Value` can always be written,
/// never as an empty text, and always on one line. What is written for a [`readable`] value can
/// be read again.
#[verifier::external_body]
fn print_value(value: &serde_json::Value) -> (r: std::result::Result<String, String>)
    ensures
        r is Ok,
        r->Ok_0@ == json_text(value_model(*value)),
        r->Ok_0@.len() > 0,
        !r->Ok_0@.contains('\n'),
        readable(value_model(*value)) ==> holds(r->Ok_0@, value_model(*value)),
{
    serde_json::to_string(value).map_err(|e| e.to_string())
}

/// `serde_json::to_string_pretty`, named by [`json_text_pretty`]. A `serde_json::Value` can
/// always be written, and never as an empty text. Each member of an object stands on a line of
/// its own. What is written for a [`readable`] value can be read again.
#[verifier::external_body]
fn print_value_pretty(value: &serde_json::Value) -> (r: std::result::Result<String, String>)
    ensures
        r is Ok,
        r->Ok_0@ == json_text_pretty(value_model(*value)),
        r->Ok_0@.len() > 0,
        has_members(value_model(*value)) ==> r->Ok_0@.contains('\n'),
        readable(value_model(*value)) ==> holds(r->Ok_0@, value_model(*value)),
{
    serde_json::to_string_pretty(value).map_err(|e| e.to_string())
}

/// `serde_json::from_value` for a field of type `serde_json::Value`. A [`plain`] value stays as
/// it is; what comes out of any other is named by [`unwrapped_raw_text`].
#[verifier::external_body]
fn carry_value(value: serde_json::Value) -> (r: std::result::Result<serde_json::Value, String>)
    ensures
        plain(value_model(value)) ==> r is Ok && value_model(r->Ok_0) == value_model(value),
        !plain(value_model(value)) ==> match unwrapped_raw_text(value_model(value)) {
            Ok(v) => r is Ok && value_model(r->Ok_0) == v,
            Err(e) => r is Err && r->Err_0@ == e,
        },
{
    serde_json::from_value(value).map_err(|e| e.to_string())
}

/// The parts of an error object, as JSON-RPC defines it.
#[verifier::ext_equal]
pub struct ErrorView {
    pub code: i32,
    pub message: Seq<char>,
    /// The text of the additional data.
    pub data: Option<Seq<char>>,
}

/// The `i32` that a value holds, where it holds one.
pub open spec fn code_of(v: JsonView) -> Option<i32> {
    match v {
        JsonView::Number(JsonNumber::PosInt(n)) if n <= i32::MAX => Some(n as i32),
        JsonView::Number(JsonNumber::NegInt(n)) if i32::MIN <= n <= i32::MAX => Some(n as i32),
        _ => None,
    }
}

/// The code and the message of an error object, and the value that stands for its data, if the
/// value holds an error object: an object with a code and a message, with or without data and
/// with nothing else, or an array of the three.
pub open spec fn error_parts(v: JsonView) -> Option<(i32, Seq<char>, Option<JsonView>)> {
    let (code, message, data) = match v {
        JsonView::Object(members) => {
            let known = forall|key: Seq<char>| #[trigger]
                members.contains_key(key) ==> key == "code"@ || key == "message"@ || key == "data"@;
            if known {
                (members.get("code"@), members.get("message"@), members.get("data"@))
            } else {
                (None, None, None)
            }
        },
        JsonView::Array(items) => if items.len() == 3 {
            (Some(items[0]), Some(items[1]), Some(items[2]))
        } else {
            (None, None, None)
        },
        _ => (None, None, None),
    };
    match (code, message) {
        (Some(code), Some(JsonView::String(message))) => match code_of(code) {
            Some(code) => Some((code, message, data)),
            None => None,
        },
        _ => None,
    }
}

/// The error object that a value holds. Its data is kept as text, and data that is null is no
/// data.
pub open spec fn error_of(v: JsonView) -> OrText<ErrorView> {
    match error_parts(v) {
        Some((code, message, data)) => Ok(
            ErrorView {
                code,
                message,
                data: match data {
                    None | Some(JsonView::Null) => None,
                    Some(v) => Some(json_text(v)),
                },
            },
        ),
        None => Err(error_fault(v)),
    }
}

/// The string that a value holds.
pub open spec fn string_of(v: JsonView) -> OrText<Seq<char>> {
    match v {
        JsonView::String(s) => Ok(s),
        _ => Err(string_fault(v)),
    }
}

/// `serde_json::from_value` for a field of type `String`: it takes a string and nothing else.
/// The text of the error is named by [`string_fault`].
#[verifier::external_body]
fn string_of_value(value: serde_json::Value) -> (r: std::result::Result<String, String>)
    ensures
        match value_model(value) {
            JsonView::String(s) => r is Ok && r->Ok_0@ == s,
            _ => r is Err && r->Err_0@ == string_fault(value_model(value)),
        },
{
    serde_json::from_value(value).map_err(|e| e.to_string())
}

/// `serde_json::from_value` for a field of type `Option<usize>`: it takes null for none, and an
/// integer that a `usize` can hold. The text of the error is named by [`count_fault`].
#[verifier::external_body]
fn count_of_value(value: serde_json::Value) -> (r: std::result::Result<Option<usize>, String>)
    ensures
        match value_model(value) {
            JsonView::Null => r is Ok && r->Ok_0 is None,
            JsonView::Number(JsonNumber::PosInt(n)) if n <= usize::MAX => r is Ok && r->Ok_0 == Some(n as usize),
            _ => r is Err && r->Err_0@ == count_fault(value_model(value)),
        },
{
    serde_json::from_value(value).map_err(|e| e.to_string())
}

/// `serde_json::from_value` for a `jsonrpsee::types::ErrorObject`, with `code` and `message` to
/// look into it: it takes what [`error_parts`] says. The text of the error is named by
/// [`error_fault`].
#[verifier::external_body]
fn error_of_value(value: serde_json::Value) -> (r: std::result::Result<(i32, String), String>)
    ensures
        match error_parts(value_model(value)) {
            Some((code, message, _)) => r is Ok && r->Ok_0.0 == code && r->Ok_0.1@ == message,
            None => r is Err && r->Err_0@ == error_fault(value_model(value)),
        },
{
    let error: jsonrpsee::types::ErrorObjectOwned = serde_json::from_value(value).map_err(|e| e.to_string())?;
    Ok((error.code(), error.message().to_owned()))
}

/// What stands at the front of a stream of JSON texts.
#[derive(Debug, PartialEq)]
pub enum Scanned {
    /// Nothing but whitespace.
    Blank,
    /// A value that goes on beyond the end.
    Incomplete,
    /// Something that begins no JSON text.
    Invalid,
    /// A value, and the number of bytes up to its end.
    Complete(Json, usize),
}

impl View for Scanned {
    type V = ScannedView;

    open spec fn view(&self) -> ScannedView {
        match *self {
            Scanned::Blank => ScannedView::Blank,
            Scanned::Incomplete => ScannedView::Incomplete,
            Scanned::Invalid => ScannedView::Invalid,
            Scanned::Complete(json, n) => ScannedView::Complete(json@, n as nat),
        }
    }
}

/// Reads the first value of a stream of JSON texts.
pub fn scan(bytes: &[u8]) -> (r: Scanned)
    ensures
        r@ == json_scan(bytes@),
        r matches Scanned::Complete(_, n) ==> 0 < n <= bytes@.len(),
{
    match scan_value(bytes) {
        RawScan::Blank => Scanned::Blank,
        RawScan::Incomplete => Scanned::Incomplete,
        RawScan::Invalid => Scanned::Invalid,
        RawScan::Complete(value, n) => Scanned::Complete(import(value), n),
    }
}

/// Reads a text that holds one JSON value and nothing else.
pub fn parse(text: &str) -> (r: Result<Json>)
    ensures
        match json_parse(text@) {
            Ok(v) => r is Ok && r->Ok_0@ == v,
            Err(e) => r is Err && is_json_error(r->Err_0, e),
        },
{
    match parse_value(text) {
        Ok(value) => Ok(import(value)),
        Err(e) => Err(Error::Json(e)),
    }
}

/// Writes a value as text, either with all on one line or with a line for each member.
pub fn print(json: &Json, pretty: bool) -> (r: Result<String>)
    ensures
        r is Ok,
        r->Ok_0@ == written(json@, pretty),
        r->Ok_0@.len() > 0,
        !pretty ==> !r->Ok_0@.contains('\n'),
        pretty && has_members(json@) ==> r->Ok_0@.contains('\n'),
        readable(json@) ==> holds(r->Ok_0@, json@),
{
    let value = export(json);
    let printed = if pretty {
        print_value_pretty(&value)
    } else {
        print_value(&value)
    };
    match printed {
        Ok(text) => Ok(text),
        Err(e) => Err(Error::Json(e)),
    }
}

/// The text of a value in one of the two styles.
pub open spec fn written(v: JsonView, pretty: bool) -> Seq<char> {
    if pretty {
        json_text_pretty(v)
    } else {
        json_text(v)
    }
}

/// Takes a value over into a field that holds any value.
pub(crate) fn carry(json: &Json) -> (r: Result<Json>)
    ensures
        match carried(json@) {
            Ok(v) => r is Ok && r->Ok_0@ == v,
            Err(e) => r is Err && is_json_error(r->Err_0, e),
        },
{
    match carry_value(export(json)) {
        Ok(value) => Ok(import(value)),
        Err(e) => Err(Error::Json(e)),
    }
}

/// Takes a value over into a field that holds a string.
pub(crate) fn read_string(json: &Json) -> (r: Result<String>)
    ensures
        match string_of(json@) {
            Ok(s) => r is Ok && r->Ok_0@ == s,
            Err(e) => r is Err && is_json_error(r->Err_0, e),
        },
{
    match string_of_value(export(json)) {
        Ok(s) => Ok(s),
        Err(e) => Err(Error::Json(e)),
    }
}

/// The count that a value holds; null stands for none.
pub open spec fn count_of(v: JsonView) -> OrText<Option<usize>> {
    match v {
        JsonView::Null => Ok(None),
        JsonView::Number(JsonNumber::PosInt(n)) if n <= usize::MAX => Ok(Some(n as usize)),
        _ => Err(count_fault(v)),
    }
}

/// Takes a value over into a field that may hold a count.
pub(crate) fn read_count(json: &Json) -> (r: Result<Option<usize>>)
    ensures
        match count_of(json@) {
            Ok(count) => r == Ok::<Option<usize>, Error>(count),
            Err(e) => r is Err && is_json_error(r->Err_0, e),
        },
{
    match count_of_value(export(json)) {
        Ok(count) => Ok(count),
        Err(e) => Err(Error::Json(e)),
    }
}

/// Takes a value over into the code, the message and the data of an error object.
pub(crate) fn read_error(json: &Json) -> (r: Result<(i32, String, Option<String>)>)
    ensures
        match error_of(json@) {
            Ok(error) => {
                &&& r is Ok
                &&& r->Ok_0.0 == error.code
                &&& r->Ok_0.1@ == error.message
                &&& r->Ok_0.2 is Some == error.data is Some
                &&& r->Ok_0.2 is Some ==> r->Ok_0.2->0@ == error.data->0
            },
            Err(e) => r is Err && is_json_error(r->Err_0, e),
        },
{
    let (code, message) = match error_of_value(export(json)) {
        Ok(parts) => parts,
        Err(e) => return Err(Error::Json(e)),
    };
    let data = match json {
        Json::Array(items) => {
            proof {
                lemma_items(items@);
            }
            Some(&items[2])
        },
        _ => json.get("data"),
    };
    match data {
        None => Ok((code, message, None)),
        Some(Json::Null) => Ok((code, message, None)),
        Some(data) => Ok((code, message, Some(print(data, false)?))),
    }
}

} // verus!
