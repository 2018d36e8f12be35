//! The JSON value tree.

use crate::number::JsonNumber;
use vstd::prelude::*;

verus! {

/// The mathematical value tree that a [`Json`] stands for.
pub ghost enum JsonTree {
    Null,
    Bool(bool),
    Number(JsonNumber),
    String(Seq<char>),
    Array(Seq<JsonTree>),
    Object(Seq<(Seq<char>, JsonTree)>),
}

impl JsonTree {
    /// Whether the value nests no deeper than `levels`: a scalar takes one
    /// level, a container one more than the deepest of its members.
    pub open spec fn nests_within(self, levels: nat) -> bool
        decreases self,
    {
        &&& levels > 0
        &&& match self {
            JsonTree::Array(items) => forall|i: int|
                0 <= i < items.len() ==> (#[trigger] items[i]).nests_within((levels - 1) as nat),
            JsonTree::Object(entries) => forall|i: int|
                0 <= i < entries.len() ==> (#[trigger] entries[i]).1.nests_within(
                    (levels - 1) as nat,
                ),
            _ => true,
        }
    }

    /// Whether the keys of every object in the tree are unique.
    pub open spec fn well_formed(self) -> bool
        decreases self,
    {
        match self {
            JsonTree::Array(items) => forall|i: int|
                0 <= i < items.len() ==> (#[trigger] items[i]).well_formed(),
            JsonTree::Object(entries) => {
                &&& forall|i: int, j: int|
                    0 <= i < j < entries.len() ==> (#[trigger] entries[i]).0 != (
                    #[trigger] entries[j]).0
                &&& forall|i: int|
                    0 <= i < entries.len() ==> (#[trigger] entries[i]).1.well_formed()
            },
            _ => true,
        }
    }
}

/// A JSON value: one of the six kinds of the grammar. An object keeps its
/// entries in insertion order.
#[derive(Debug, PartialEq)]
pub enum Json {
    Null,
    Bool(bool),
    Number(JsonNumber),
    String(String),
    Array(Vec<Json>),
    Object(Vec<(String, Json)>),
}

impl Json {
    /// The value tree that this value stands for.
    pub open spec fn tree(&self) -> JsonTree
        decreases self,
    {
        match self {
            Json::Null => JsonTree::Null,
            Json::Bool(b) => JsonTree::Bool(*b),
            Json::Number(n) => JsonTree::Number(*n),
            Json::String(s) => JsonTree::String(s@),
            Json::Array(items) => JsonTree::Array(
                Seq::new(
                    items@.len(),
                    |i: int|
                        if 0 <= i < items@.len() {
                            items@[i].tree()
                        } else {
                            JsonTree::Null
                        },
                ),
            ),
            Json::Object(entries) => JsonTree::Object(
                Seq::new(
                    entries@.len(),
                    |i: int|
                        if 0 <= i < entries@.len() {
                            (entries@[i].0@, entries@[i].1.tree())
                        } else {
                            (Seq::empty(), JsonTree::Null)
                        },
                ),
            ),
        }
    }
}

impl View for Json {
    type V = JsonTree;

    open spec fn view(&self) -> JsonTree {
        self.tree()
    }
}

} // verus!
