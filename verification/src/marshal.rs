//! Building a runtime value step by step.
//!
//! The runtime's values are made inside the runtime, by its own calls. What
//! to call, in which order and with which arguments is decided here: a plain
//! value is turned into a list of [`Step`]s for a stack of values, and the
//! caller performs each step on the runtime.

use crate::bridge::{depth_message, dynamic_of, too_deep, MAX_DEPTH};
use crate::dynamic::{DynKey, DynKeyModel, DynTree, DynValue};
use crate::error::{ErrorKind, Failure, FailureModel};
use crate::json_value::JsonTree;
use crate::number::JsonNumber;
use vstd::prelude::*;

verus! {

/// One step in building a value on a stack of values.
#[derive(Clone, Debug, PartialEq)]
pub enum Step {
    /// Push nil.
    Nil,
    /// Push a boolean.
    Boolean(bool),
    /// Push an integer.
    Integer(i64),
    /// Push a number.
    Number(JsonNumber),
    /// Push a new string of this text.
    String(String),
    /// Push a new, empty table.
    Table,
    /// Pop the value on top, and set it under this key in the table that is
    /// then on top.
    Store(DynKey),
}

/// What a [`Step`] stands for.
pub ghost enum StepModel {
    Nil,
    Boolean(bool),
    Integer(i64),
    Number(JsonNumber),
    String(Seq<char>),
    Table,
    Store(DynKeyModel),
}

impl View for Step {
    type V = StepModel;

    open spec fn view(&self) -> StepModel {
        match self {
            Step::Nil => StepModel::Nil,
            Step::Boolean(b) => StepModel::Boolean(*b),
            Step::Integer(i) => StepModel::Integer(*i),
            Step::Number(n) => StepModel::Number(*n),
            Step::String(s) => StepModel::String(s@),
            Step::Table => StepModel::Table,
            Step::Store(key) => StepModel::Store(key@),
        }
    }
}

/// What a list of steps stands for.
pub open spec fn models(steps: Seq<Step>) -> Seq<StepModel> {
    Seq::new(steps.len(), |i: int| steps[i]@)
}

/// The steps that build `tree` on top of a stack: one push for a scalar; for
/// a table the push of an empty table and then, for each entry in order, the
/// steps that build its value and the step that sets it under its key.
pub open spec fn steps_of(tree: DynTree) -> Seq<StepModel>
    recommends
        tree.plain(),
    decreases tree, 0nat,
{
    match tree {
        DynTree::Nil => seq![StepModel::Nil],
        DynTree::Boolean(b) => seq![StepModel::Boolean(b)],
        DynTree::Integer(i) => seq![StepModel::Integer(i)],
        DynTree::Number(n) => seq![StepModel::Number(n)],
        DynTree::String(s) => seq![StepModel::String(s)],
        DynTree::Table(entries) => seq![StepModel::Table] + entry_steps(entries, entries.len()),
        DynTree::Foreign => seq![],
    }
}

/// The steps that build and set the first `count` of `entries`.
pub open spec fn entry_steps(entries: Seq<(DynKeyModel, DynTree)>, count: nat) -> Seq<StepModel>
    recommends
        count <= entries.len(),
    decreases entries, count,
{
    if count == 0 || count > entries.len() {
        seq![]
    } else {
        entry_steps(entries, (count - 1) as nat) + steps_of(entries[count - 1].1)
            + seq![StepModel::Store(entries[count - 1].0)]
    }
}

/// What one step makes of a stack, or `None` where the step cannot be
/// performed on it.
pub open spec fn perform(stack: Seq<DynTree>, step: StepModel) -> Option<Seq<DynTree>> {
    match step {
        StepModel::Nil => Some(stack.push(DynTree::Nil)),
        StepModel::Boolean(b) => Some(stack.push(DynTree::Boolean(b))),
        StepModel::Integer(i) => Some(stack.push(DynTree::Integer(i))),
        StepModel::Number(n) => Some(stack.push(DynTree::Number(n))),
        StepModel::String(s) => Some(stack.push(DynTree::String(s))),
        StepModel::Table => Some(stack.push(DynTree::Table(seq![]))),
        StepModel::Store(key) => if stack.len() >= 2 && stack[stack.len() - 2] is Table {
            let entries = stack[stack.len() - 2]->Table_0;
            Some(
                stack.subrange(0, stack.len() - 2).push(
                    DynTree::Table(entries.push((key, stack.last()))),
                ),
            )
        } else {
            None
        },
    }
}

/// What a list of steps makes of a stack, or `None` where one of them
/// cannot be performed.
pub open spec fn run(stack: Seq<DynTree>, steps: Seq<StepModel>) -> Option<Seq<DynTree>>
    decreases steps.len(),
{
    if steps.len() == 0 {
        Some(stack)
    } else {
        match perform(stack, steps[0]) {
            Some(next) => run(next, steps.drop_first()),
            None => None,
        }
    }
}

/// Running two lists of steps one after the other is running the first and
/// then, on the stack it leaves, the second.
pub proof fn lemma_run_in_turn(stack: Seq<DynTree>, first: Seq<StepModel>, second: Seq<StepModel>)
    ensures
        run(stack, first + second) == match run(stack, first) {
            Some(between) => run(between, second),
            None => None,
        },
    decreases first.len(),
{
    if first.len() > 0 {
        assert((first + second).drop_first() =~= first.drop_first() + second);
        match perform(stack, first[0]) {
            Some(next) => lemma_run_in_turn(next, first.drop_first(), second),
            None => {},
        }
    }
}

/// Running one step is performing it.
proof fn lemma_run_one(stack: Seq<DynTree>, step: StepModel)
    ensures
        run(stack, seq![step]) == perform(stack, step),
{
    reveal_with_fuel(run, 2);
}

/// The steps of the first `count` entries, run on a stack with an empty
/// table on top, leave a table of just these entries there.
proof fn lemma_entries_build(
    stack: Seq<DynTree>,
    entries: Seq<(DynKeyModel, DynTree)>,
    count: nat,
)
    requires
        count <= entries.len(),
        forall|i: int| 0 <= i < entries.len() ==> (#[trigger] entries[i]).1.plain(),
    ensures
        run(stack.push(DynTree::Table(seq![])), entry_steps(entries, count)) == Some(
            stack.push(DynTree::Table(entries.take(count as int))),
        ),
    decreases entries, count,
{
    let start = stack.push(DynTree::Table(seq![]));
    if count == 0 {
        assert(entries.take(0) =~= seq![]);
    } else {
        let before = (count - 1) as nat;
        let (key, value) = entries[count - 1];
        let earlier = entry_steps(entries, before);
        let table = stack.push(DynTree::Table(entries.take(before as int)));
        let store = seq![StepModel::Store(key)];
        lemma_entries_build(stack, entries, before);
        law_steps_build(value, table);
        lemma_run_in_turn(start, earlier + steps_of(value), store);
        lemma_run_in_turn(start, earlier, steps_of(value));
        let full = table.push(value);
        lemma_run_one(full, StepModel::Store(key));
        assert(entries.take(before as int).push((key, value)) =~= entries.take(count as int));
    }
}

/// The steps of a plain value build that value: run on any stack, they
/// leave the stack as it was with the value on top.
pub proof fn law_steps_build(tree: DynTree, stack: Seq<DynTree>)
    requires
        tree.plain(),
    ensures
        run(stack, steps_of(tree)) == Some(stack.push(tree)),
    decreases tree, 0nat,
{
    match tree {
        DynTree::Table(entries) => {
            let rest = entry_steps(entries, entries.len());
            lemma_run_in_turn(stack, seq![StepModel::Table], rest);
            lemma_run_one(stack, StepModel::Table);
            lemma_entries_build(stack, entries, entries.len());
            assert(entries.take(entries.len() as int) =~= entries);
        },
        DynTree::Nil => lemma_run_one(stack, StepModel::Nil),
        DynTree::Boolean(b) => lemma_run_one(stack, StepModel::Boolean(b)),
        DynTree::Integer(i) => lemma_run_one(stack, StepModel::Integer(i)),
        DynTree::Number(n) => lemma_run_one(stack, StepModel::Number(n)),
        DynTree::String(s) => lemma_run_one(stack, StepModel::String(s)),
        DynTree::Foreign => {},
    }
}

/// The message of a failure on a value that is not plain.
pub open spec fn foreign_message() -> Seq<char> {
    "value holds what has no plain form"@
}

/// What planning answers for a value: its steps, where it nests no deeper
/// than [`MAX_DEPTH`] levels and is plain; else the failure of a value that
/// is too deep or, for one that is not, the type failure of a value that is
/// not plain.
pub open spec fn plan_of(tree: DynTree) -> Result<Seq<StepModel>, FailureModel> {
    if !tree.nests_within(MAX_DEPTH as nat) {
        Err(FailureModel { kind: ErrorKind::TooDeep, message: depth_message() })
    } else if !tree.plain() {
        Err(FailureModel { kind: ErrorKind::Type, message: foreign_message() })
    } else {
        Ok(steps_of(tree))
    }
}

/// Whether `value` nests no deeper than `levels`.
fn fits(value: &DynValue, levels: usize) -> (within: bool)
    ensures
        within == value@.nests_within(levels as nat),
    decreases value,
{
    if levels == 0 {
        return false;
    }
    match value {
        DynValue::Table(entries) => {
            let ghost members = value@->Table_0;
            let mut i: usize = 0;
            while i < entries.len()
                invariant
                    0 <= i <= entries.len(),
                    levels > 0,
                    *value == DynValue::Table(*entries),
                    value@ == DynTree::Table(members),
                    members.len() == entries@.len(),
                    forall|j: int|
                        0 <= j < members.len() ==> (#[trigger] members[j]).1 == entries@[j].1@,
                    forall|j: int|
                        0 <= j < i ==> (#[trigger] members[j]).1.nests_within((levels - 1) as nat),
                decreases entries.len() - i,
            {
                if !fits(&entries[i].1, levels - 1) {
                    assert(value@->Table_0[i as int].1 == entries@[i as int].1@);
                    return false;
                }
                i += 1;
            }
            true
        },
        _ => true,
    }
}

/// Adds the steps of `value` to `out`, as long as the value is plain.
fn emit(value: &DynValue, levels: usize, out: &mut Vec<Step>) -> (plain: bool)
    requires
        value@.nests_within(levels as nat),
    ensures
        plain == value@.plain(),
        plain ==> models(final(out)@) == models(old(out)@) + steps_of(value@),
    decreases value,
{
    let ghost before = models(out@);
    match value {
        DynValue::Nil => {
            out.push(Step::Nil);
            true
        },
        DynValue::Boolean(b) => {
            out.push(Step::Boolean(*b));
            true
        },
        DynValue::Integer(i) => {
            out.push(Step::Integer(*i));
            true
        },
        DynValue::Number(n) => {
            out.push(Step::Number(*n));
            true
        },
        DynValue::String(s) => {
            out.push(Step::String(s.clone()));
            true
        },
        DynValue::Foreign => false,
        DynValue::Table(entries) => {
            let ghost members = value@->Table_0;
            out.push(Step::Table);
            let mut i: usize = 0;
            while i < entries.len()
                invariant
                    0 <= i <= entries.len(),
                    levels > 0,
                    *value == DynValue::Table(*entries),
                    value@ == DynTree::Table(members),
                    members.len() == entries@.len(),
                    forall|j: int|
                        0 <= j < members.len() ==> #[trigger] members[j] == (
                            entries@[j].0@,
                            entries@[j].1@,
                        ),
                    forall|j: int|
                        0 <= j < members.len() ==> (#[trigger] members[j]).1.nests_within(
                            (levels - 1) as nat,
                        ),
                    forall|j: int| 0 <= j < i ==> (#[trigger] members[j]).1.plain(),
                    models(out@) == before + seq![StepModel::Table] + entry_steps(
                        members,
                        i as nat,
                    ),
                decreases entries.len() - i,
            {
                let ghost earlier = models(out@);
                assert(value@->Table_0[i as int] == (entries@[i as int].0@, entries@[i as int].1@));
                if !emit(&entries[i].1, levels - 1, out) {
                    return false;
                }
                out.push(Step::Store(entries[i].0.duplicate()));
                assert(models(out@) =~= earlier + steps_of(members[i as int].1)
                    + seq![StepModel::Store(members[i as int].0)]);
                i += 1;
            }
            true
        },
    }
}

/// Plans the steps that build `value` in the runtime. A value that nests
/// deeper than [`MAX_DEPTH`] levels is refused as too deep, and one that
/// holds what has no plain form is a type failure.
pub fn plan(value: &DynValue) -> (result: Result<Vec<Step>, Failure>)
    ensures
        match plan_of(value@) {
            Ok(steps) => result matches Ok(planned) && models(planned@) == steps,
            Err(failure) => result matches Err(refused) && refused@ == failure,
        },
{
    if !fits(value, MAX_DEPTH) {
        return Err(too_deep());
    }
    let mut steps: Vec<Step> = Vec::new();
    if emit(value, MAX_DEPTH, &mut steps) {
        Ok(steps)
    } else {
        Err(Failure::new(ErrorKind::Type, "value holds what has no plain form"))
    }
}

/// What the bridge makes of a JSON value is plain, and nests exactly as
/// deep as the JSON value does.
pub proof fn lemma_bridged_value_is_plain(tree: JsonTree, levels: nat)
    ensures
        dynamic_of(tree).plain(),
        tree.nests_within(levels) <==> dynamic_of(tree).nests_within(levels),
    decreases tree,
{
    let image = dynamic_of(tree);
    match tree {
        JsonTree::Array(items) => {
            let entries = image->Table_0;
            assert forall|i: int| 0 <= i < entries.len() implies (#[trigger] entries[i]).1.plain()
                && (levels > 0 ==> (items[i].nests_within((levels - 1) as nat)
                <==> entries[i].1.nests_within((levels - 1) as nat))) by {
                lemma_bridged_value_is_plain(items[i], (levels - 1) as nat);
            }
            if levels > 0 && image.nests_within(levels) {
                assert forall|i: int| 0 <= i < items.len() implies (
                #[trigger] items[i]).nests_within((levels - 1) as nat) by {
                    assert(entries[i].1.nests_within((levels - 1) as nat));
                }
            }
        },
        JsonTree::Object(members) => {
            let entries = image->Table_0;
            assert forall|i: int| 0 <= i < entries.len() implies (#[trigger] entries[i]).1.plain()
                && (levels > 0 ==> (members[i].1.nests_within((levels - 1) as nat)
                <==> entries[i].1.nests_within((levels - 1) as nat))) by {
                lemma_bridged_value_is_plain(members[i].1, (levels - 1) as nat);
            }
            if levels > 0 && image.nests_within(levels) {
                assert forall|i: int| 0 <= i < members.len() implies (
                #[trigger] members[i]).1.nests_within((levels - 1) as nat) by {
                    assert(entries[i].1.nests_within((levels - 1) as nat));
                }
            }
        },
        _ => {},
    }
}

/// Every value that the bridge gives can be built: for a JSON value that
/// nests no deeper than [`MAX_DEPTH`] levels, planning answers with the
/// steps of what the bridge makes of it, and these steps build it.
pub proof fn law_bridged_values_build(tree: JsonTree, stack: Seq<DynTree>)
    requires
        tree.nests_within(MAX_DEPTH as nat),
    ensures
        plan_of(dynamic_of(tree)) == Ok::<Seq<StepModel>, FailureModel>(steps_of(dynamic_of(tree))),
        run(stack, steps_of(dynamic_of(tree))) == Some(stack.push(dynamic_of(tree))),
{
    lemma_bridged_value_is_plain(tree, MAX_DEPTH as nat);
    law_steps_build(dynamic_of(tree), stack);
}

} // verus!
