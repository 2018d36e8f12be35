//! Decoding JSON text into runtime values.

use crate::bridge::{
    bridged, json_value_to_dynamic, law_keys_stay_unique, too_deep, MAX_DEPTH,
};
use crate::dynamic::{DynTree, DynValue};
use crate::error::{stated, ErrorKind, Failure, FailureModel};
use crate::fraction::{
    find_overflow, first_overflow, first_overflow_at, fraction_overflows, head, lemma_head_fits,
    overflows_at,
};
use crate::json_value::{Json, JsonTree};
use crate::number::JsonNumber;
use crate::text::same_text;
use vstd::prelude::*;
use vstd::string::*;
use vstd::utf8::*;

verus! {

/// A value of the `json` crate. Nothing inside it is visible here: its
/// content is spoken of through [`json_content`].
#[verifier::external_type_specification]
#[verifier::external_body]
pub struct ExJsonValue(json::JsonValue);

/// The value tree that a value of the `json` crate holds.
pub uninterp spec fn json_content(value: json::JsonValue) -> JsonTree;

/// What `json::parse` makes of a text: the value tree that it reads, or,
/// where it rejects the text, the diagnostic that its error displays.
pub uninterp spec fn json_parse(text: Seq<char>) -> Result<JsonTree, Seq<char>>;

/// The top level of a value of the `json` crate: a scalar as plain data, a
/// container with its members still in the crate's form.
enum JsonLayer<'a> {
    Null,
    Bool(bool),
    Number(JsonNumber),
    String(String),
    Array(Vec<&'a json::JsonValue>),
    Object(Vec<(String, &'a json::JsonValue)>),
}

impl<'a> JsonLayer<'a> {
    /// Whether no key stands twice among the entries of an object.
    spec fn keys_unique(self) -> bool {
        self matches JsonLayer::Object(entries) ==> forall|i: int, j: int|
            0 <= i < j < entries@.len() ==> (#[trigger] entries@[i]).0@ != (
            #[trigger] entries@[j]).0@
    }

    /// The value tree of which this is the top level.
    spec fn tree(self) -> JsonTree {
        match self {
            JsonLayer::Null => JsonTree::Null,
            JsonLayer::Bool(b) => JsonTree::Bool(b),
            JsonLayer::Number(n) => JsonTree::Number(n),
            JsonLayer::String(s) => JsonTree::String(s@),
            JsonLayer::Array(items) => JsonTree::Array(
                Seq::new(items@.len(), |i: int| json_content(*items@[i])),
            ),
            JsonLayer::Object(entries) => JsonTree::Object(
                Seq::new(entries@.len(), |i: int| (entries@[i].0@, json_content(*entries@[i].1))),
            ),
        }
    }
}

/// Calls `json::parse`, and renders the error of a rejected text through
/// its `Display` impl. The contract names what the call returns: on success
/// the content of the value is the tree that the text parses to, on failure
/// the text of the error is the diagnostic for the text. A text with a
/// fraction too long for the parser's exponent is kept from the call: the
/// parser's arithmetic overflows on it.
#[verifier::external_body]
fn parse_text(text: &str) -> (result: Result<json::JsonValue, String>)
    requires
        !fraction_overflows(text.spec_bytes()),
    ensures
        result matches Ok(value) ==> json_parse(text@) is Ok && json_parse(text@)->Ok_0
            == json_content(value),
        result matches Err(message) ==> json_parse(text@) is Err && json_parse(text@)->Err_0
            == message@,
{
    json::parse(text).map_err(|error| error.to_string())
}

/// Takes the top level off a `json::JsonValue`, one arm for each of its
/// variants: `Short` and `String` both hold a string, a `Number` gives its
/// parts as `Number::as_parts` and `Number::is_nan` report them, an `Array`
/// its members in order, an `Object` its entries in the order of
/// `Object::iter`. The contract claims that the content of the value is made
/// of exactly these, and that an `Object` holds no key twice, which is what
/// `Object::insert` sees to.
#[verifier::external_body]
fn peel<'a>(value: &'a json::JsonValue) -> (layer: JsonLayer<'a>)
    ensures
        layer.tree() == json_content(*value),
        layer.keys_unique(),
{
    match value {
        json::JsonValue::Null => JsonLayer::Null,
        json::JsonValue::Boolean(b) => JsonLayer::Bool(*b),
        json::JsonValue::Number(n) => {
            let (positive, mantissa, exponent) = n.as_parts();
            JsonLayer::Number(JsonNumber { nan: n.is_nan(), positive, mantissa, exponent })
        },
        json::JsonValue::Short(s) => JsonLayer::String(s.as_str().to_string()),
        json::JsonValue::String(s) => JsonLayer::String(s.clone()),
        json::JsonValue::Array(items) => JsonLayer::Array(items.iter().collect()),
        json::JsonValue::Object(o) => JsonLayer::Object(
            o.iter().map(|(k, v)| (k.to_string(), v)).collect(),
        ),
    }
}

/// Brings a value of the `json` crate into the library's own form, as long as
/// it nests no deeper than `levels`.
fn lift(value: &json::JsonValue, levels: usize) -> (result: Option<Json>)
    ensures
        json_content(*value).nests_within(levels as nat) ==> (result matches Some(v) && v@
            == json_content(*value)),
        !json_content(*value).nests_within(levels as nat) ==> result is None,
        result matches Some(v) ==> v@.well_formed(),
    decreases json_content(*value),
{
    if levels == 0 {
        return None;
    }
    match peel(value) {
        JsonLayer::Null => Some(Json::Null),
        JsonLayer::Bool(b) => Some(Json::Bool(b)),
        JsonLayer::Number(n) => Some(Json::Number(n)),
        JsonLayer::String(s) => Some(Json::String(s)),
        JsonLayer::Array(items) => {
            let ghost members = json_content(*value)->Array_0;
            let mut out: Vec<Json> = Vec::new();
            let mut i: usize = 0;
            while i < items.len()
                invariant
                    0 <= i <= items.len(),
                    levels > 0,
                    json_content(*value) == JsonTree::Array(members),
                    members.len() == items@.len(),
                    forall|j: int|
                        0 <= j < members.len() ==> #[trigger] members[j] == json_content(
                            *items@[j],
                        ),
                    out@.len() == i,
                    forall|j: int| 0 <= j < i ==> (#[trigger] out@[j])@ == members[j],
                    forall|j: int| 0 <= j < i ==> (#[trigger] members[j]).well_formed(),
                    forall|j: int|
                        0 <= j < i ==> (#[trigger] members[j]).nests_within((levels - 1) as nat),
                decreases items.len() - i,
            {
                proof {
                    vstd::seq::axiom_seq_index_decreases(members, i as int);
                    assert(json_content(*value)->Array_0 == members);
                }
                match lift(items[i], levels - 1) {
                    Some(v) => out.push(v),
                    None => {
                        return None;
                    },
                }
                i += 1;
            }
            let result = Json::Array(out);
            assert(result@->Array_0 =~= members);
            Some(result)
        },
        JsonLayer::Object(entries) => {
            let ghost members = json_content(*value)->Object_0;
            let mut out: Vec<(String, Json)> = Vec::new();
            let mut i: usize = 0;
            while i < entries.len()
                invariant
                    0 <= i <= entries.len(),
                    levels > 0,
                    json_content(*value) == JsonTree::Object(members),
                    members.len() == entries@.len(),
                    forall|j: int|
                        0 <= j < members.len() ==> #[trigger] members[j] == (
                            entries@[j].0@,
                            json_content(*entries@[j].1),
                        ),
                    out@.len() == i,
                    forall|j: int|
                        0 <= j < i ==> ((#[trigger] out@[j]).0@, out@[j].1@) == members[j],
                    forall|j: int| 0 <= j < i ==> (#[trigger] members[j]).1.well_formed(),
                    forall|j: int|
                        0 <= j < i ==> (#[trigger] members[j]).1.nests_within(
                            (levels - 1) as nat,
                        ),
                decreases entries.len() - i,
            {
                proof {
                    vstd::seq::axiom_seq_index_decreases(members, i as int);
                    assert(json_content(*value)->Object_0 == members);
                    assert(members[i as int].1 == json_content(*entries@[i as int].1));
                }
                match lift(entries[i].1, levels - 1) {
                    Some(v) => out.push((entries[i].0.clone(), v)),
                    None => {
                        return None;
                    },
                }
                i += 1;
            }
            let result = Json::Object(out);
            assert(result@->Object_0 =~= members);
            Some(result)
        },
    }
}

/// The message of a decode failure on a text with a fraction that is too
/// long for the parser.
pub open spec fn fraction_message() -> Seq<char> {
    "fraction of more than 32768 digits"@
}

/// What decoding answers, given what the parser made of the text: for a
/// rejected text a decode failure that carries the parser's diagnostic, for
/// a parsed value what the bridge answers for it.
pub open spec fn decoded(parsed: Result<JsonTree, Seq<char>>) -> Result<DynTree, FailureModel> {
    match parsed {
        Ok(tree) => bridged(tree),
        Err(message) => Err(FailureModel { kind: ErrorKind::Decode, message }),
    }
}

/// The diagnostic of the parser for a text that ends too early.
pub open spec fn end_message() -> Seq<char> {
    "Unexpected end of JSON"@
}

/// What decoding answers for a text in which the zero of the first fraction
/// that is too long stands at `at`, given what the parser makes of the text
/// up to and with that zero. Where the parser rejects that start for
/// another reason than its end, it rejects the text before the fraction is
/// read, and its diagnostic is the answer. Else the parser would go on into
/// the fraction, and the answer is the failure of a fraction that is too
/// long.
pub open spec fn refused(parsed: Result<JsonTree, Seq<char>>) -> FailureModel {
    match parsed {
        Err(message) if message != end_message() => FailureModel {
            kind: ErrorKind::Decode,
            message,
        },
        _ => FailureModel { kind: ErrorKind::Decode, message: fraction_message() },
    }
}

/// What decoding answers for a text: what it answers for what the parser
/// makes of the text. The one text that the parser is not handed, as its
/// arithmetic overflows on it, is a text in which a zero has a fraction too
/// long for the parser's exponent. It is a decode failure, see [`refused`].
pub open spec fn decoding(text: Seq<char>) -> Result<DynTree, FailureModel> {
    match first_overflow(encode_utf8(text)) {
        Some(at) => Err(refused(json_parse(decode_utf8(head(encode_utf8(text), at))))),
        None => decoded(json_parse(text)),
    }
}

/// Ends a decode, given what the parser made of the text.
pub fn finish_decode(parsed: Result<Json, String>) -> (result: Result<DynValue, Failure>)
    ensures
        stated(result) == decoded(
            match parsed {
                Ok(value) => Ok(value@),
                Err(message) => Err(message@),
            },
        ),
{
    match parsed {
        Ok(value) => json_value_to_dynamic(&value),
        Err(message) => Err(Failure { kind: ErrorKind::Decode, message }),
    }
}

/// Answers for a text in which the zero of the first fraction that is too
/// long stands at `at`.
fn refuse(text: &str, at: usize) -> (failure: Failure)
    requires
        first_overflow_at(text.spec_bytes(), at as int),
    ensures
        failure@ == refused(json_parse(decode_utf8(head(text.spec_bytes(), at as int)))),
{
    let bytes = text.as_bytes();
    // The length of a text fits the machine, and so does the place behind the zero.
    let _ = bytes.len();
    proof {
        encode_utf8_valid_utf8(text@);
        is_char_boundary_iff_not_is_continuation_byte(bytes@, at + 1);
        lemma_head_fits(bytes@, at as int);
    }
    let (start, _) = text.split_at(at + 1);
    proof {
        encode_utf8_decode_utf8(start@);
    }
    match parse_text(start) {
        Err(message) => if same_text(message.as_str(), "Unexpected end of JSON") {
            Failure::new(ErrorKind::Decode, "fraction of more than 32768 digits")
        } else {
            Failure { kind: ErrorKind::Decode, message }
        },
        Ok(_) => Failure::new(ErrorKind::Decode, "fraction of more than 32768 digits"),
    }
}

/// Decodes JSON text into a runtime value. Text that the parser rejects is a
/// decode failure with the parser's diagnostic, and a value that nests
/// deeper than [`MAX_DEPTH`] levels is refused as too deep. Text on which
/// the parser's arithmetic would overflow, which is a zero with a fraction
/// of more than 32768 digits, is not handed to the parser: it is a decode
/// failure with the parser's diagnostic where the parser rejects the text
/// before that fraction, and the failure of a fraction that is too long
/// otherwise. No table of the value holds a key twice.
pub fn decode_json_text(text: &str) -> (result: Result<DynValue, Failure>)
    ensures
        stated(result) == decoding(text@),
        result matches Ok(value) ==> value@.well_formed(),
{
    if let Some(at) = find_overflow(text.as_bytes()) {
        return Err(refuse(text, at));
    }
    match parse_text(text) {
        Ok(value) => match lift(&value, MAX_DEPTH) {
            Some(own) => {
                proof {
                    law_keys_stay_unique(own);
                }
                finish_decode(Ok(own))
            },
            None => Err(too_deep()),
        },
        Err(message) => finish_decode(Err(message)),
    }
}

/// For every text without a fraction that is too long for the parser,
/// decoding answers what the parser makes of the text and the bridge of
/// that: a failure only where the parser fails or the value is too deep.
pub proof fn law_decoding_follows_the_parser(text: Seq<char>)
    requires
        !fraction_overflows(encode_utf8(text)),
    ensures
        decoding(text) == decoded(json_parse(text)),
        decoding(text) is Err <==> (json_parse(text) is Err || !json_parse(text)->Ok_0.nests_within(
            MAX_DEPTH as nat,
        )),
{
    let bytes = encode_utf8(text);
    assert forall|at: int| !first_overflow_at(bytes, at) by {
        assert(!overflows_at(bytes, at));
    }
}

} // verus!
