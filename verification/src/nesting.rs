use vstd::prelude::*;
use crate::crossreference::{crossreference, mark, sweep, whole_pass, Pass};
use crate::error::ErrorView;
use crate::object::ObjectView;
use crate::operation::{OperationType, OperationView};

verus! {

/// The kinds of the operations of a program, in order.
pub open spec fn kinds_of(operations: Seq<OperationView>) -> Seq<OperationType> {
    operations.map_values(|operation: OperationView| operation.op_type)
}

/// Whether the operations from `from` up to, not including, `to` are a
/// sequence of whole blocks and of operations that are no block markers.
///
/// A block is `if` .. `then` .. `end`, `if` .. `then` .. `else` .. `end` or
/// `while` .. `do` .. `end`, with well-nested operations between its
/// markers. `closer` says where the markers of each block are: for every
/// marker but an `end` it gives the index of the next marker of the same
/// block.
pub open spec fn well_nested(kinds: Seq<OperationType>, closer: Seq<int>, from: int, to: int) -> bool
    decreases to - from,
{
    if from >= to {
        from == to
    } else if !kinds[from].is_marker() {
        well_nested(kinds, closer, from + 1, to)
    } else if kinds[from] is If {
        let branch = closer[from];
        let next = closer[branch];
        let close = closer[next];
        &&& from < branch < next < to
        &&& kinds[branch] is Then
        &&& well_nested(kinds, closer, from + 1, branch)
        &&& well_nested(kinds, closer, branch + 1, next)
        &&& if kinds[next] is Else {
            &&& next < close < to
            &&& kinds[close] is End
            &&& well_nested(kinds, closer, next + 1, close)
            &&& well_nested(kinds, closer, close + 1, to)
        } else {
            &&& kinds[next] is End
            &&& well_nested(kinds, closer, next + 1, to)
        }
    } else if kinds[from] is While {
        let body = closer[from];
        let close = closer[body];
        &&& from < body < close < to
        &&& kinds[body] is Do
        &&& kinds[close] is End
        &&& well_nested(kinds, closer, from + 1, body)
        &&& well_nested(kinds, closer, body + 1, close)
        &&& well_nested(kinds, closer, close + 1, to)
    } else {
        false
    }
}

/// Whether the operation `index` has the jump target that its block gives
/// it: a `then`, an `else` and a `do` jump behind the marker that closes
/// them, and the `end` of a `while` jumps back to the `while`.
pub open spec fn has_target(
    kinds: Seq<OperationType>,
    closer: Seq<int>,
    operations: Seq<OperationView>,
    index: int,
) -> bool {
    match kinds[index] {
        OperationType::Then | OperationType::Else | OperationType::Do => operations[index].operand
            == Some(ObjectView::Reference((closer[index] + 1) as usize)),
        OperationType::While => operations[closer[closer[index]]].operand == Some(
            ObjectView::Reference(index as usize),
        ),
        _ => true,
    }
}

/// Whether every marker from `from` up to `to` has its target, and every
/// loop that begins there ends there.
pub open spec fn resolved(
    kinds: Seq<OperationType>,
    closer: Seq<int>,
    operations: Seq<OperationView>,
    from: int,
    to: int,
) -> bool {
    forall|index: int|
        from <= index < to ==> #[trigger] has_target(kinds, closer, operations, index) && (
        kinds[index] is While ==> index < closer[closer[index]] < to)
}

/// Whether every pending index lies under `limit`.
pub open spec fn below(pending: Seq<usize>, limit: int) -> bool {
    forall|k: int| 0 <= k < pending.len() ==> (#[trigger] pending[k]) < limit
}

/// Whether a stretch of the pass from `from` to `to` has left the pending
/// indices, the kinds of the operations and every operation outside the
/// stretch as they were.
pub open spec fn keeps(before: Pass, after: Pass, from: int, to: int) -> bool {
    &&& after.pending == before.pending
    &&& after.operations.len() == before.operations.len()
    &&& kinds_of(after.operations) == kinds_of(before.operations)
    &&& forall|k: int|
        0 <= k < before.operations.len() && !(from <= k < to) ==> after.operations[k]
            == before.operations[k]
}

/// A pass over two adjoining stretches is the pass over the first and then
/// over the second.
proof fn lemma_sweep_split(pass: Pass, from: int, middle: int, to: int)
    requires
        from <= middle <= to,
    ensures
        sweep(pass, from, to) == match sweep(pass, from, middle) {
            Ok(next) => sweep(next, middle, to),
            Err(error) => Err(error),
        },
    decreases middle - from,
{
    if from < middle {
        match mark(pass, from) {
            Ok(next) => lemma_sweep_split(next, from + 1, middle, to),
            Err(_) => {},
        }
    }
}

/// A pass over one operation is that operation's turn.
proof fn lemma_sweep_one(pass: Pass, index: int)
    ensures
        sweep(pass, index, index + 1) == mark(pass, index),
{
    match mark(pass, index) {
        Ok(next) => {
            assert(sweep(next, index + 1, index + 1) == Ok::<Pass, ErrorView>(next));
        },
        Err(_) => {},
    }
}

/// Targets that stand in one program stand in every program that agrees
/// with it on the stretch.
proof fn lemma_resolved_kept(
    kinds: Seq<OperationType>,
    closer: Seq<int>,
    before: Seq<OperationView>,
    after: Seq<OperationView>,
    from: int,
    to: int,
)
    requires
        resolved(kinds, closer, before, from, to),
        forall|k: int| from <= k < to ==> after[k] == before[k],
    ensures
        resolved(kinds, closer, after, from, to),
{
    assert forall|index: int| from <= index < to implies #[trigger] has_target(
        kinds,
        closer,
        after,
        index,
    ) && (kinds[index] is While ==> index < closer[closer[index]] < to) by {
        assert(has_target(kinds, closer, before, index));
    }
}

/// Two adjoining stretches whose markers have their targets make one.
proof fn lemma_resolved_joined(
    kinds: Seq<OperationType>,
    closer: Seq<int>,
    operations: Seq<OperationView>,
    from: int,
    middle: int,
    to: int,
)
    requires
        from <= middle <= to,
        resolved(kinds, closer, operations, from, middle),
        resolved(kinds, closer, operations, middle, to),
    ensures
        resolved(kinds, closer, operations, from, to),
{
    assert forall|index: int| from <= index < to implies #[trigger] has_target(
        kinds,
        closer,
        operations,
        index,
    ) && (kinds[index] is While ==> index < closer[closer[index]] < to) by {
        if index < middle {
            assert(has_target(kinds, closer, operations, index));
        } else {
            assert(has_target(kinds, closer, operations, index));
        }
    }
}

/// A stretch whose markers have their targets, with one operation before it
/// that has its own, makes a longer stretch.
proof fn lemma_resolved_extended(
    kinds: Seq<OperationType>,
    closer: Seq<int>,
    operations: Seq<OperationView>,
    from: int,
    middle: int,
    to: int,
)
    requires
        from <= middle < to,
        resolved(kinds, closer, operations, from, middle),
        resolved(kinds, closer, operations, middle + 1, to),
        has_target(kinds, closer, operations, middle),
        kinds[middle] is While ==> middle < closer[closer[middle]] < to,
    ensures
        resolved(kinds, closer, operations, from, to),
{
    assert forall|index: int| from <= index < to implies #[trigger] has_target(
        kinds,
        closer,
        operations,
        index,
    ) && (kinds[index] is While ==> index < closer[closer[index]] < to) by {
        if index < middle {
            assert(has_target(kinds, closer, operations, index));
        } else if index > middle {
            assert(has_target(kinds, closer, operations, index));
        }
    }
}

/// A stretch without operations has nothing to resolve.
proof fn lemma_resolved_empty(
    kinds: Seq<OperationType>,
    closer: Seq<int>,
    operations: Seq<OperationView>,
    at: int,
)
    ensures
        resolved(kinds, closer, operations, at, at),
{
}

/// Whether the pass over the stretch from `from` to `to` succeeds, leaves
/// what lies outside the stretch alone, and gives every marker in it its
/// target.
pub open spec fn settles(pass: Pass, closer: Seq<int>, from: int, to: int) -> bool {
    sweep(pass, from, to) matches Ok(after) && keeps(pass, after, from, to) && resolved(
        kinds_of(pass.operations),
        closer,
        after.operations,
        from,
        to,
    )
}

/// The pass with one more index pending.
pub open spec fn opened(pass: Pass, index: int) -> Pass {
    Pass { operations: pass.operations, pending: pass.pending.push(index as usize) }
}

/// Over a well-nested stretch the pass succeeds, ends with the pending
/// indices with which it began, and gives every marker its target.
proof fn lemma_segment(pass: Pass, closer: Seq<int>, from: int, to: int)
    requires
        0 <= from <= to <= pass.operations.len() <= usize::MAX,
        below(pass.pending, from),
        well_nested(kinds_of(pass.operations), closer, from, to),
    ensures
        settles(pass, closer, from, to),
    decreases to - from, 1int,
{
    let kinds = kinds_of(pass.operations);
    if from < to {
        assert(kinds[from] == pass.operations[from].op_type);
        if !kinds[from].is_marker() {
            lemma_segment(pass, closer, from + 1, to);
            let after = sweep(pass, from, to)->Ok_0;
            lemma_resolved_empty(kinds, closer, after.operations, from);
            lemma_resolved_extended(kinds, closer, after.operations, from, from, to);
        } else {
            let close = if kinds[from] is While || kinds[closer[closer[from]]] is End {
                closer[closer[from]]
            } else {
                closer[closer[closer[from]]]
            };
            if kinds[from] is While {
                lemma_repetition(pass, closer, from);
            } else if kinds[closer[closer[from]]] is End {
                lemma_conditional(pass, closer, from);
            } else {
                lemma_alternative(pass, closer, from);
            }
            let closed = sweep(pass, from, close + 1)->Ok_0;
            lemma_segment(closed, closer, close + 1, to);
            let after = sweep(closed, close + 1, to)->Ok_0;
            lemma_sweep_split(pass, from, close + 1, to);
            lemma_resolved_kept(kinds, closer, closed.operations, after.operations, from, close + 1);
            lemma_resolved_joined(kinds, closer, after.operations, from, close + 1, to);
        }
    }
}

/// The pass over an opening marker and the well-nested stretch behind it:
/// the marker is pending on top of what was pending before.
proof fn lemma_opened(pass: Pass, closer: Seq<int>, from: int, to: int)
    requires
        0 <= from < to <= pass.operations.len() <= usize::MAX,
        below(pass.pending, from),
        ({
            let kind = pass.operations[from].op_type;
            kind is If || kind is Then || kind is While || kind is Do
        }),
        well_nested(kinds_of(pass.operations), closer, from + 1, to),
    ensures
        sweep(pass, from, to) == sweep(opened(pass, from), from + 1, to),
        settles(opened(pass, from), closer, from + 1, to),
    decreases to - from, 0int,
{
    assert(mark(pass, from) == Ok::<Pass, ErrorView>(opened(pass, from)));
    lemma_segment(opened(pass, from), closer, from + 1, to);
}

/// The pass over `if` .. `then` .. `end`.
proof fn lemma_conditional(pass: Pass, closer: Seq<int>, from: int)
    requires
        0 <= from,
        pass.operations.len() <= usize::MAX,
        below(pass.pending, from),
        ({
            let kinds = kinds_of(pass.operations);
            let branch = closer[from];
            let close = closer[branch];
            &&& from < branch < close < pass.operations.len()
            &&& kinds[from] is If
            &&& kinds[branch] is Then
            &&& kinds[close] is End
            &&& well_nested(kinds, closer, from + 1, branch)
            &&& well_nested(kinds, closer, branch + 1, close)
        }),
    ensures
        settles(pass, closer, from, closer[closer[from]] + 1),
    decreases closer[closer[from]] + 1 - from, 0int,
{
    let kinds = kinds_of(pass.operations);
    let branch = closer[from];
    let close = closer[branch];
    assert(kinds[from] == pass.operations[from].op_type);
    lemma_opened(pass, closer, from, branch);
    let first = sweep(pass, from, branch)->Ok_0;
    assert(kinds_of(first.operations)[branch] == first.operations[branch].op_type);
    lemma_opened(first, closer, branch, close);
    let second = sweep(first, branch, close)->Ok_0;
    assert(kinds_of(second.operations)[close] == second.operations[close].op_type);
    assert(kinds_of(second.operations)[branch] == second.operations[branch].op_type);
    assert(kinds_of(second.operations)[from] == second.operations[from].op_type);
    let rest = second.pending.drop_last();
    assert(rest =~= pass.pending.push(from as usize));
    assert(rest.drop_last() =~= pass.pending);
    lemma_sweep_one(second, close);
    let last = mark(second, close)->Ok_0;
    assert(kinds_of(last.operations) =~= kinds);
    lemma_sweep_split(pass, from, branch, close + 1);
    lemma_sweep_split(first, branch, close, close + 1);
    lemma_resolved_kept(kinds, closer, first.operations, last.operations, from + 1, branch);
    lemma_resolved_kept(kinds, closer, second.operations, last.operations, branch + 1, close);
    lemma_resolved_empty(kinds, closer, last.operations, from);
    lemma_resolved_empty(kinds, closer, last.operations, close + 1);
    lemma_resolved_extended(kinds, closer, last.operations, branch + 1, close, close + 1);
    lemma_resolved_extended(kinds, closer, last.operations, from + 1, branch, close + 1);
    lemma_resolved_extended(kinds, closer, last.operations, from, from, close + 1);
}

/// The pass over `if` .. `then` .. `else` .. `end`.
proof fn lemma_alternative(pass: Pass, closer: Seq<int>, from: int)
    requires
        0 <= from,
        pass.operations.len() <= usize::MAX,
        below(pass.pending, from),
        ({
            let kinds = kinds_of(pass.operations);
            let branch = closer[from];
            let other = closer[branch];
            let close = closer[other];
            &&& from < branch < other < close < pass.operations.len()
            &&& kinds[from] is If
            &&& kinds[branch] is Then
            &&& kinds[other] is Else
            &&& kinds[close] is End
            &&& well_nested(kinds, closer, from + 1, branch)
            &&& well_nested(kinds, closer, branch + 1, other)
            &&& well_nested(kinds, closer, other + 1, close)
        }),
    ensures
        settles(pass, closer, from, closer[closer[closer[from]]] + 1),
    decreases closer[closer[closer[from]]] + 1 - from, 0int,
{
    let kinds = kinds_of(pass.operations);
    let branch = closer[from];
    let other = closer[branch];
    let close = closer[other];
    assert(kinds[from] == pass.operations[from].op_type);
    lemma_opened(pass, closer, from, branch);
    let first = sweep(pass, from, branch)->Ok_0;
    assert(kinds_of(first.operations)[branch] == first.operations[branch].op_type);
    lemma_opened(first, closer, branch, other);
    let second = sweep(first, branch, other)->Ok_0;
    assert(kinds_of(second.operations)[other] == second.operations[other].op_type);
    assert(kinds_of(second.operations)[branch] == second.operations[branch].op_type);
    assert(kinds_of(second.operations)[from] == second.operations[from].op_type);
    let rest = second.pending.drop_last();
    assert(rest =~= pass.pending.push(from as usize));
    assert(rest.drop_last() =~= pass.pending);
    lemma_sweep_one(second, other);
    let third = mark(second, other)->Ok_0;
    assert(third.pending =~= pass.pending.push(other as usize));
    assert(kinds_of(third.operations) =~= kinds);
    lemma_segment(third, closer, other + 1, close);
    let fourth = sweep(third, other + 1, close)->Ok_0;
    assert(kinds_of(fourth.operations)[close] == fourth.operations[close].op_type);
    assert(kinds_of(fourth.operations)[other] == fourth.operations[other].op_type);
    assert(fourth.pending.drop_last() =~= pass.pending);
    lemma_sweep_one(fourth, close);
    let last = mark(fourth, close)->Ok_0;
    assert(kinds_of(last.operations) =~= kinds);
    lemma_sweep_split(pass, from, branch, close + 1);
    lemma_sweep_split(first, branch, other, close + 1);
    lemma_sweep_split(second, other, other + 1, close + 1);
    lemma_sweep_split(third, other + 1, close, close + 1);
    lemma_resolved_kept(kinds, closer, first.operations, last.operations, from + 1, branch);
    lemma_resolved_kept(kinds, closer, second.operations, last.operations, branch + 1, other);
    lemma_resolved_kept(kinds, closer, fourth.operations, last.operations, other + 1, close);
    lemma_resolved_empty(kinds, closer, last.operations, from);
    lemma_resolved_empty(kinds, closer, last.operations, close + 1);
    lemma_resolved_extended(kinds, closer, last.operations, other + 1, close, close + 1);
    lemma_resolved_extended(kinds, closer, last.operations, branch + 1, other, close + 1);
    lemma_resolved_extended(kinds, closer, last.operations, from + 1, branch, close + 1);
    lemma_resolved_extended(kinds, closer, last.operations, from, from, close + 1);
}

/// The pass over `while` .. `do` .. `end`.
proof fn lemma_repetition(pass: Pass, closer: Seq<int>, from: int)
    requires
        0 <= from,
        pass.operations.len() <= usize::MAX,
        below(pass.pending, from),
        ({
            let kinds = kinds_of(pass.operations);
            let body = closer[from];
            let close = closer[body];
            &&& from < body < close < pass.operations.len()
            &&& kinds[from] is While
            &&& kinds[body] is Do
            &&& kinds[close] is End
            &&& well_nested(kinds, closer, from + 1, body)
            &&& well_nested(kinds, closer, body + 1, close)
        }),
    ensures
        settles(pass, closer, from, closer[closer[from]] + 1),
    decreases closer[closer[from]] + 1 - from, 0int,
{
    let kinds = kinds_of(pass.operations);
    let body = closer[from];
    let close = closer[body];
    assert(kinds[from] == pass.operations[from].op_type);
    lemma_opened(pass, closer, from, body);
    let first = sweep(pass, from, body)->Ok_0;
    assert(kinds_of(first.operations)[body] == first.operations[body].op_type);
    lemma_opened(first, closer, body, close);
    let second = sweep(first, body, close)->Ok_0;
    assert(kinds_of(second.operations)[close] == second.operations[close].op_type);
    assert(kinds_of(second.operations)[body] == second.operations[body].op_type);
    assert(kinds_of(second.operations)[from] == second.operations[from].op_type);
    let rest = second.pending.drop_last();
    assert(rest =~= pass.pending.push(from as usize));
    assert(rest.drop_last() =~= pass.pending);
    lemma_sweep_one(second, close);
    let last = mark(second, close)->Ok_0;
    assert(kinds_of(last.operations) =~= kinds);
    lemma_sweep_split(pass, from, body, close + 1);
    lemma_sweep_split(first, body, close, close + 1);
    lemma_resolved_kept(kinds, closer, first.operations, last.operations, from + 1, body);
    lemma_resolved_kept(kinds, closer, second.operations, last.operations, body + 1, close);
    lemma_resolved_empty(kinds, closer, last.operations, from);
    lemma_resolved_empty(kinds, closer, last.operations, close + 1);
    lemma_resolved_extended(kinds, closer, last.operations, body + 1, close, close + 1);
    lemma_resolved_extended(kinds, closer, last.operations, from + 1, body, close + 1);
    lemma_resolved_extended(kinds, closer, last.operations, from, from, close + 1);
}

/// In a program whose blocks are well nested the pass succeeds, nothing is
/// left pending, and every opening marker gets the jump target that its
/// block gives it: each `then`, `else` and `do` jumps to the index behind
/// the marker that closes it, and the `end` of each loop jumps back to the
/// loop's `while`.
pub proof fn lemma_well_nested_resolved(operations: Seq<OperationView>, closer: Seq<int>)
    requires
        operations.len() <= usize::MAX,
        well_nested(kinds_of(operations), closer, 0, operations.len() as int),
    ensures
        whole_pass(operations) matches Ok(pass) && pass.pending.len() == 0,
        crossreference(operations) matches Ok(program) && program.len() == operations.len()
            && kinds_of(program) == kinds_of(operations) && resolved(
            kinds_of(operations),
            closer,
            program,
            0,
            operations.len() as int,
        ),
{
    let pass = Pass { operations, pending: Seq::empty() };
    lemma_segment(pass, closer, 0, operations.len() as int);
}

/// A program without block markers comes out of the pass as it went in.
pub proof fn lemma_without_markers_unchanged(operations: Seq<OperationView>)
    requires
        forall|index: int|
            0 <= index < operations.len() ==> !(#[trigger] operations[index]).op_type.is_marker(),
    ensures
        crossreference(operations) == Ok::<Seq<OperationView>, ErrorView>(operations),
{
    let pass = Pass { operations, pending: Seq::empty() };
    lemma_plain_stretch(pass, 0, operations.len() as int);
}

/// The pass changes nothing over a stretch without block markers.
proof fn lemma_plain_stretch(pass: Pass, from: int, to: int)
    requires
        0 <= from <= to <= pass.operations.len(),
        forall|index: int|
            from <= index < to ==> !(#[trigger] pass.operations[index]).op_type.is_marker(),
    ensures
        sweep(pass, from, to) == Ok::<Pass, ErrorView>(pass),
    decreases to - from,
{
    if from < to {
        assert(!pass.operations[from].op_type.is_marker());
        lemma_plain_stretch(pass, from + 1, to);
    }
}

/// Whether `operand` is a jump target of a program of `length` operations:
/// the index of an operation, or the index behind the last.
pub open spec fn is_target(operand: Option<ObjectView>, length: int) -> bool {
    operand matches Some(ObjectView::Reference(target)) && target <= length
}

/// Whether `current` is `given` but for jump targets that block markers
/// have got.
pub open spec fn fills_targets(given: Seq<OperationView>, current: Seq<OperationView>) -> bool {
    &&& current.len() == given.len()
    &&& forall|index: int|
        0 <= index < given.len() ==> {
            let before = given[index];
            let after = #[trigger] current[index];
            &&& after.op_type == before.op_type
            &&& after.line == before.line
            &&& after.operand == before.operand || (before.op_type.is_marker() && is_target(
                after.operand,
                given.len() as int,
            ))
        }
}

/// Whether every pending index is that of a block marker before `limit`.
pub open spec fn pending_markers(pass: Pass, limit: int) -> bool {
    forall|k: int|
        0 <= k < pass.pending.len() ==> (#[trigger] pass.pending[k]) < limit
            && pass.operations[pass.pending[k] as int].op_type.is_marker()
}

/// The pass changes nothing but the jump targets of block markers.
proof fn lemma_sweep_fills(given: Seq<OperationView>, pass: Pass, from: int, to: int)
    requires
        0 <= from <= to <= given.len() <= usize::MAX,
        fills_targets(given, pass.operations),
        pending_markers(pass, from),
    ensures
        sweep(pass, from, to) matches Ok(after) ==> fills_targets(given, after.operations),
    decreases to - from,
{
    if from < to {
        match mark(pass, from) {
            Ok(next) => {
                assert(pass.operations[from].op_type == given[from].op_type);
                if pass.pending.len() > 0 {
                    let opener = pass.pending.last() as int;
                    assert(pass.pending[pass.pending.len() - 1] == opener);
                    assert(pass.operations[opener].op_type == given[opener].op_type);
                }
                assert(fills_targets(given, next.operations));
                assert(pending_markers(next, from + 1));
                lemma_sweep_fills(given, next, from + 1, to);
            },
            Err(_) => {},
        }
    }
}

/// What the pass leaves as it is: the result has the length of the program,
/// and each of its operations has the kind and the line that it had. An
/// operation that is no block marker has its operand as before; a block
/// marker has its operand as before or a jump target, which is at most the
/// length of the program.
pub proof fn lemma_fills_targets_only(operations: Seq<OperationView>)
    requires
        operations.len() <= usize::MAX,
    ensures
        crossreference(operations) matches Ok(program) ==> fills_targets(operations, program),
{
    let pass = Pass { operations, pending: Seq::empty() };
    lemma_sweep_fills(operations, pass, 0, operations.len() as int);
}

} // verus!
