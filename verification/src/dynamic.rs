//! The scripting runtime's values, as plain data.

use crate::number::JsonNumber;
use vstd::prelude::*;

verus! {

/// The key of a table entry.
#[derive(Clone, Debug, PartialEq, Eq)]
pub enum DynKey {
    /// A position in a sequence. The first position is 1.
    Index(u64),
    /// A text key.
    Name(String),
}

/// What a [`DynKey`] stands for.
pub ghost enum DynKeyModel {
    Index(u64),
    Name(Seq<char>),
}

impl View for DynKey {
    type V = DynKeyModel;

    open spec fn view(&self) -> DynKeyModel {
        match self {
            DynKey::Index(position) => DynKeyModel::Index(*position),
            DynKey::Name(name) => DynKeyModel::Name(name@),
        }
    }
}

impl DynKey {
    /// Whether two keys are the same.
    pub fn same(&self, other: &DynKey) -> (same: bool)
        ensures
            same == (self@ == other@),
    {
        match (self, other) {
            (DynKey::Index(left), DynKey::Index(right)) => *left == *right,
            (DynKey::Name(left), DynKey::Name(right)) => *left == *right,
            _ => false,
        }
    }

    /// A copy of the key.
    pub fn duplicate(&self) -> (copy: DynKey)
        ensures
            copy@ == self@,
    {
        match self {
            DynKey::Index(position) => DynKey::Index(*position),
            DynKey::Name(name) => DynKey::Name(name.clone()),
        }
    }
}

/// The mathematical value that a [`DynValue`] stands for.
pub ghost enum DynTree {
    Nil,
    Boolean(bool),
    Integer(i64),
    Number(JsonNumber),
    String(Seq<char>),
    Table(Seq<(DynKeyModel, DynTree)>),
    Foreign,
}

impl DynTree {
    /// Whether the value is plain data throughout: nothing in it is foreign.
    pub open spec fn plain(self) -> bool
        decreases self,
    {
        match self {
            DynTree::Foreign => false,
            DynTree::Table(entries) => forall|i: int|
                0 <= i < entries.len() ==> (#[trigger] entries[i]).1.plain(),
            _ => true,
        }
    }

    /// Whether the value nests no deeper than `levels`: a scalar takes one
    /// level, a table one more than the deepest of its values.
    pub open spec fn nests_within(self, levels: nat) -> bool
        decreases self,
    {
        &&& levels > 0
        &&& match self {
            DynTree::Table(entries) => forall|i: int|
                0 <= i < entries.len() ==> (#[trigger] entries[i]).1.nests_within(
                    (levels - 1) as nat,
                ),
            _ => true,
        }
    }

    /// Whether the keys of every table in the value are unique, so that the
    /// order in which its entries are set does not matter.
    pub open spec fn well_formed(self) -> bool
        decreases self,
    {
        match self {
            DynTree::Table(entries) => {
                &&& forall|i: int, j: int|
                    0 <= i < j < entries.len() ==> (#[trigger] entries[i]).0 != (
                    #[trigger] entries[j]).0
                &&& forall|i: int|
                    0 <= i < entries.len() ==> (#[trigger] entries[i]).1.well_formed()
            },
            _ => true,
        }
    }
}

/// A value of the scripting runtime. An integer and a number are two kinds,
/// as they are in the runtime: a number is a float there. A table holds its
/// entries in the order in which they are to be set. `Foreign` stands for
/// every runtime object that has no plain form (a function, a handle).
#[derive(Debug, PartialEq)]
pub enum DynValue {
    Nil,
    Boolean(bool),
    Integer(i64),
    Number(JsonNumber),
    String(String),
    Table(Vec<(DynKey, DynValue)>),
    Foreign,
}

/// The value that the last of `entries` under `key` holds, which is the
/// value that a table has under the key once its entries are set in order.
pub open spec fn last_under(entries: Seq<(DynKeyModel, DynTree)>, key: DynKeyModel) -> Option<
    DynTree,
>
    decreases entries.len(),
{
    if entries.len() == 0 {
        None
    } else if entries.last().0 == key {
        Some(entries.last().1)
    } else {
        last_under(entries.drop_last(), key)
    }
}

/// Where no key stands twice in a table, every entry is the one found under
/// its key.
pub proof fn lemma_unique_keys_find(entries: Seq<(DynKeyModel, DynTree)>, at: int)
    requires
        0 <= at < entries.len(),
        forall|i: int, j: int|
            0 <= i < j < entries.len() ==> (#[trigger] entries[i]).0 != (#[trigger] entries[j]).0,
    ensures
        last_under(entries, entries[at].0) == Some(entries[at].1),
    decreases entries.len(),
{
    if at < entries.len() - 1 {
        let earlier = entries.drop_last();
        lemma_unique_keys_find(earlier, at);
    }
}

impl DynValue {
    /// Looks up what a table holds under `key`: the value of the last entry
    /// with that key. Anything but a table holds nothing.
    pub fn get(&self, key: &DynKey) -> (found: Option<&DynValue>)
        ensures
            match self@ {
                DynTree::Table(entries) => match last_under(entries, key@) {
                    Some(tree) => found matches Some(value) && value@ == tree,
                    None => found is None,
                },
                _ => found is None,
            },
    {
        match self {
            DynValue::Table(entries) => {
                let ghost members = self@->Table_0;
                let mut i: usize = entries.len();
                assert(members.take(i as int) =~= members);
                while i > 0
                    invariant
                        0 <= i <= entries.len(),
                        self@ == DynTree::Table(members),
                        members.len() == entries@.len(),
                        forall|j: int|
                            0 <= j < members.len() ==> #[trigger] members[j] == (
                                entries@[j].0@,
                                entries@[j].1@,
                            ),
                        last_under(members, key@) == last_under(members.take(i as int), key@),
                    decreases i,
                {
                    i -= 1;
                    let ghost prefix = members.take(i + 1);
                    assert(prefix.drop_last() =~= members.take(i as int));
                    if entries[i].0.same(key) {
                        return Some(&entries[i].1);
                    }
                }
                None
            },
            _ => None,
        }
    }

    /// The mathematical value that this value stands for.
    pub open spec fn tree(&self) -> DynTree
        decreases self,
    {
        match self {
            DynValue::Nil => DynTree::Nil,
            DynValue::Boolean(b) => DynTree::Boolean(*b),
            DynValue::Integer(i) => DynTree::Integer(*i),
            DynValue::Number(n) => DynTree::Number(*n),
            DynValue::String(s) => DynTree::String(s@),
            DynValue::Table(entries) => DynTree::Table(
                Seq::new(
                    entries@.len(),
                    |i: int|
                        if 0 <= i < entries@.len() {
                            (entries@[i].0@, entries@[i].1.tree())
                        } else {
                            (DynKeyModel::Index(0), DynTree::Nil)
                        },
                ),
            ),
            DynValue::Foreign => DynTree::Foreign,
        }
    }
}

impl View for DynValue {
    type V = DynTree;

    open spec fn view(&self) -> DynTree {
        self.tree()
    }
}

} // verus!
