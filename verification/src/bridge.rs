//! The mapping from JSON values to runtime values.

use crate::dynamic::{
    last_under, lemma_unique_keys_find, DynKey, DynKeyModel, DynTree, DynValue,
};
use crate::error::{stated, ErrorKind, Failure, FailureModel};
use crate::json_value::{Json, JsonTree};
use vstd::prelude::*;

verus! {

/// The number of nested levels up to which a JSON value is converted.
pub const MAX_DEPTH: usize = 1000;

/// The runtime value that a JSON value maps to: `null` to nil, a boolean, a
/// number and a string to themselves, an array to a table that holds the
/// mapped items under their positions, counted from 1 and in the same
/// order, an object to a table that holds the mapped values under their
/// keys, in the order of the entries.
pub open spec fn dynamic_of(tree: JsonTree) -> DynTree
    decreases tree,
{
    match tree {
        JsonTree::Null => DynTree::Nil,
        JsonTree::Bool(b) => DynTree::Boolean(b),
        JsonTree::Number(n) => DynTree::Number(n),
        JsonTree::String(s) => DynTree::String(s),
        JsonTree::Array(items) => DynTree::Table(
            Seq::new(
                items.len(),
                |i: int|
                    if 0 <= i < items.len() {
                        (DynKeyModel::Index((i + 1) as u64), dynamic_of(items[i]))
                    } else {
                        (DynKeyModel::Index(0), DynTree::Nil)
                    },
            ),
        ),
        JsonTree::Object(entries) => DynTree::Table(
            Seq::new(
                entries.len(),
                |i: int|
                    if 0 <= i < entries.len() {
                        (DynKeyModel::Name(entries[i].0), dynamic_of(entries[i].1))
                    } else {
                        (DynKeyModel::Index(0), DynTree::Nil)
                    },
            ),
        ),
    }
}

/// Converts `value` with `levels` levels left.
fn convert(value: &Json, levels: usize) -> (result: Option<DynValue>)
    ensures
        value@.nests_within(levels as nat) ==> (result matches Some(d) && d@ == dynamic_of(
            value@,
        )),
        !value@.nests_within(levels as nat) ==> result is None,
    decreases value,
{
    if levels == 0 {
        return None;
    }
    match value {
        Json::Null => Some(DynValue::Nil),
        Json::Bool(b) => Some(DynValue::Boolean(*b)),
        Json::Number(n) => Some(DynValue::Number(*n)),
        Json::String(s) => Some(DynValue::String(s.clone())),
        Json::Array(items) => {
            let ghost members = value@->Array_0;
            let mut out: Vec<(DynKey, DynValue)> = Vec::new();
            let mut i: usize = 0;
            while i < items.len()
                invariant
                    0 <= i <= items.len(),
                    levels > 0,
                    *value == Json::Array(*items),
                    value@ == JsonTree::Array(members),
                    members.len() == items@.len(),
                    forall|j: int| 0 <= j < members.len() ==> #[trigger] members[j] == items@[j]@,
                    out@.len() == i,
                    forall|j: int|
                        0 <= j < i ==> (#[trigger] out@[j]).0@ == DynKeyModel::Index((j + 1) as u64)
                            && out@[j].1@ == dynamic_of(items@[j]@),
                    forall|j: int|
                        0 <= j < i ==> (#[trigger] items@[j])@.nests_within((levels - 1) as nat),
                decreases items.len() - i,
            {
                match convert(&items[i], levels - 1) {
                    Some(d) => out.push((DynKey::Index(i as u64 + 1), d)),
                    None => {
                        assert(members[i as int] == items@[i as int]@);
                        return None;
                    },
                }
                i += 1;
            }
            let result = DynValue::Table(out);
            assert(result@->Table_0 =~= dynamic_of(value@)->Table_0);
            Some(result)
        },
        Json::Object(entries) => {
            let ghost members = value@->Object_0;
            let mut out: Vec<(DynKey, DynValue)> = Vec::new();
            let mut i: usize = 0;
            while i < entries.len()
                invariant
                    0 <= i <= entries.len(),
                    levels > 0,
                    *value == Json::Object(*entries),
                    value@ == JsonTree::Object(members),
                    members.len() == entries@.len(),
                    forall|j: int|
                        0 <= j < members.len() ==> #[trigger] members[j] == (
                            entries@[j].0@,
                            entries@[j].1@,
                        ),
                    out@.len() == i,
                    forall|j: int|
                        0 <= j < i ==> (#[trigger] out@[j]).0@ == DynKeyModel::Name(entries@[j].0@)
                            && out@[j].1@ == dynamic_of(entries@[j].1@),
                    forall|j: int|
                        0 <= j < i ==> (#[trigger] entries@[j]).1@.nests_within(
                            (levels - 1) as nat,
                        ),
                decreases entries.len() - i,
            {
                match convert(&entries[i].1, levels - 1) {
                    Some(d) => out.push((DynKey::Name(entries[i].0.clone()), d)),
                    None => {
                        assert(members[i as int].1 == entries@[i as int].1@);
                        return None;
                    },
                }
                i += 1;
            }
            let result = DynValue::Table(out);
            assert(result@->Table_0 =~= dynamic_of(value@)->Table_0);
            Some(result)
        },
    }
}

/// The message of a failure on a value that nests too deep.
pub open spec fn depth_message() -> Seq<char> {
    "value nests deeper than 1000 levels"@
}

/// What the bridge answers for a JSON value: what it maps to, or, where it
/// nests deeper than [`MAX_DEPTH`] levels, the failure of a value that is
/// too deep.
pub open spec fn bridged(tree: JsonTree) -> Result<DynTree, FailureModel> {
    if tree.nests_within(MAX_DEPTH as nat) {
        Ok(dynamic_of(tree))
    } else {
        Err(FailureModel { kind: ErrorKind::TooDeep, message: depth_message() })
    }
}

/// The failure of a value that nests too deep.
pub fn too_deep() -> (failure: Failure)
    ensures
        failure@ == (FailureModel { kind: ErrorKind::TooDeep, message: depth_message() }),
{
    Failure::new(ErrorKind::TooDeep, "value nests deeper than 1000 levels")
}

/// Maps a JSON value to the runtime value that stands for it. A value that
/// nests deeper than [`MAX_DEPTH`] levels is refused.
pub fn json_value_to_dynamic(value: &Json) -> (result: Result<DynValue, Failure>)
    ensures
        stated(result) == bridged(value@),
{
    match convert(value, MAX_DEPTH) {
        Some(d) => Ok(d),
        None => Err(too_deep()),
    }
}

/// The bridge keeps keys unique: of a JSON value in which no object holds a
/// key twice, every table that it maps to holds each key once.
pub proof fn law_keys_stay_unique(value: Json)
    requires
        value@.well_formed(),
    ensures
        dynamic_of(value@).well_formed(),
    decreases value,
{
    match value {
        Json::Array(items) => {
            let table = dynamic_of(value@)->Table_0;
            let members = value@->Array_0;
            assert forall|i: int| 0 <= i < table.len() implies (
            #[trigger] table[i]).1.well_formed() by {
                assert(members[i].well_formed());
                law_keys_stay_unique(items@[i]);
            }
            assert forall|i: int, j: int| 0 <= i < j < table.len() implies (#[trigger] table[i]).0
                != (#[trigger] table[j]).0 by {
                assert(items.len() <= usize::MAX);
            }
        },
        Json::Object(entries) => {
            let table = dynamic_of(value@)->Table_0;
            let members = value@->Object_0;
            assert forall|i: int| 0 <= i < table.len() implies (
            #[trigger] table[i]).1.well_formed() by {
                assert(members[i].1.well_formed());
                law_keys_stay_unique(entries@[i].1);
            }
        },
        _ => {},
    }
}

/// What the bridge makes of an array holds each item under its position,
/// counted from 1: the table is a sequence in the order of the array.
pub proof fn law_items_keep_their_order(value: Json, at: int)
    requires
        value@ matches JsonTree::Array(items) && 0 <= at < items.len(),
    ensures
        dynamic_of(value@) matches DynTree::Table(entries) && last_under(
            entries,
            DynKeyModel::Index((at + 1) as u64),
        ) == Some(dynamic_of(value@->Array_0[at])),
{
    let entries = dynamic_of(value@)->Table_0;
    assert(value->Array_0.len() <= usize::MAX);
    lemma_unique_keys_find(entries, at);
}

/// What the bridge makes of an object in which no key stands twice holds
/// the image of each value under its key.
pub proof fn law_values_stay_under_their_keys(value: Json, at: int)
    requires
        value@.well_formed(),
        value@ matches JsonTree::Object(members) && 0 <= at < members.len(),
    ensures
        dynamic_of(value@) matches DynTree::Table(entries) && last_under(
            entries,
            DynKeyModel::Name(value@->Object_0[at].0),
        ) == Some(dynamic_of(value@->Object_0[at].1)),
{
    law_keys_stay_unique(value);
    let entries = dynamic_of(value@)->Table_0;
    lemma_unique_keys_find(entries, at);
}

} // verus!
