use vstd::prelude::*;
use crate::error::{Error, ErrorKind, ErrorView};
use crate::object::{Object, ObjectView};
use crate::operation::{program_view, Operation, OperationType, OperationView};

verus! {

/// The state of the pass that gives the block markers of a program their
/// jump targets: the operations as far as they are resolved, and the indices
/// of the markers that still wait for what closes them, innermost last.
pub ghost struct Pass {
    pub operations: Seq<OperationView>,
    pub pending: Seq<usize>,
}

/// The pending indices once a `then` has been taken from them: the `if`
/// that it belongs to, where it lies directly beneath, leaves with it.
pub open spec fn without_if(operations: Seq<OperationView>, pending: Seq<usize>) -> Seq<usize> {
    if pending.len() > 0 && operations[pending.last() as int].op_type is If {
        pending.drop_last()
    } else {
        pending
    }
}

/// The operations with the jump target `target` at `index`.
pub open spec fn with_target(operations: Seq<OperationView>, index: int, target: int) -> Seq<
    OperationView,
> {
    operations.update(index, operations[index].with_operand(ObjectView::Reference(target as usize)))
}

/// What is said when `closer` meets an open marker of a kind that it does
/// not close.
pub open spec fn mismatch_message(closer: OperationType, open: OperationType) -> Seq<char> {
    if closer is Else {
        "can't end `else` with `"@ + open.name() + "`"@
    } else {
        "can't end `end` with `"@ + open.name() + "`"@
    }
}

/// What is said when `closer` (or, at an `end`, the `do` that it closes)
/// finds no open marker.
pub open spec fn unexpected_message(closer: OperationType) -> Seq<char> {
    match closer {
        OperationType::Else => "invalid `else`"@,
        OperationType::Do => "unexpected `do`"@,
        _ => "unexpexted `end`"@,
    }
}

/// The failure of the pass at the operation `index`.
pub open spec fn refuse(pass: Pass, index: int, kind: ErrorKind, message: Seq<char>) -> Result<
    Pass,
    ErrorView,
> {
    Err(ErrorView { kind, message, line: pass.operations[index].line })
}

/// The pass at the operation `index`.
///
/// `if`, `then`, `while` and `do` wait for what closes them. An `else`
/// closes the innermost open marker, which must be a `then`: the `then`
/// jumps behind the `else`, and the `else` waits in its place. An `end`
/// closes the innermost open marker: a `then` or an `else` jumps behind the
/// `end`; a `do` jumps behind the `end`, and the `end` jumps back to the
/// `while` that waits beneath the `do`. When a `then` is closed, the `if`
/// that waits directly beneath it is done with too. Every other operation
/// is passed over.
///
/// The pass fails with `UnexpectedBlockClose` where an `else`, an `end` or
/// the `do` under an `end` finds nothing waiting, and with `PendingBlock`
/// where what waits is of a kind that the marker does not close. The
/// failure is charged to the line of the `else` or `end`.
pub open spec fn mark(pass: Pass, index: int) -> Result<Pass, ErrorView> {
    let operations = pass.operations;
    let kind = operations[index].op_type;
    match kind {
        OperationType::If | OperationType::Then | OperationType::While | OperationType::Do => Ok(
            Pass { operations, pending: pass.pending.push(index as usize) },
        ),
        OperationType::Else => {
            if pass.pending.len() == 0 {
                refuse(pass, index, ErrorKind::UnexpectedBlockClose, unexpected_message(kind))
            } else {
                let opener = pass.pending.last() as int;
                let open = operations[opener].op_type;
                if open is Then {
                    Ok(
                        Pass {
                            operations: with_target(operations, opener, index + 1),
                            pending: without_if(operations, pass.pending.drop_last()).push(
                                index as usize,
                            ),
                        },
                    )
                } else {
                    refuse(pass, index, ErrorKind::PendingBlock, mismatch_message(kind, open))
                }
            }
        },
        OperationType::End => {
            if pass.pending.len() == 0 {
                refuse(pass, index, ErrorKind::UnexpectedBlockClose, unexpected_message(kind))
            } else {
                let opener = pass.pending.last() as int;
                let open = operations[opener].op_type;
                let rest = pass.pending.drop_last();
                match open {
                    OperationType::Then => Ok(
                        Pass {
                            operations: with_target(operations, opener, index + 1),
                            pending: without_if(operations, rest),
                        },
                    ),
                    OperationType::Else => Ok(
                        Pass {
                            operations: with_target(operations, opener, index + 1),
                            pending: rest,
                        },
                    ),
                    OperationType::Do => {
                        if rest.len() == 0 {
                            refuse(
                                pass,
                                index,
                                ErrorKind::UnexpectedBlockClose,
                                unexpected_message(open),
                            )
                        } else {
                            let start = rest.last() as int;
                            if operations[start].op_type is While {
                                Ok(
                                    Pass {
                                        operations: with_target(
                                            with_target(operations, opener, index + 1),
                                            index,
                                            start,
                                        ),
                                        pending: rest.drop_last(),
                                    },
                                )
                            } else {
                                refuse(
                                    pass,
                                    index,
                                    ErrorKind::PendingBlock,
                                    mismatch_message(kind, operations[start].op_type),
                                )
                            }
                        }
                    },
                    _ => refuse(pass, index, ErrorKind::PendingBlock, mismatch_message(kind, open)),
                }
            }
        },
        _ => Ok(pass),
    }
}

/// The pass over the operations from `from` up to, not including, `to`.
pub open spec fn sweep(pass: Pass, from: int, to: int) -> Result<Pass, ErrorView>
    decreases to - from,
{
    if from >= to {
        Ok(pass)
    } else {
        match mark(pass, from) {
            Ok(next) => sweep(next, from + 1, to),
            Err(error) => Err(error),
        }
    }
}

/// The whole pass, from the first operation to the last with nothing
/// pending at the start.
pub open spec fn whole_pass(operations: Seq<OperationView>) -> Result<Pass, ErrorView> {
    sweep(Pass { operations, pending: Seq::empty() }, 0, operations.len() as int)
}

/// The program with the jump targets of its block markers filled in, or the
/// first failure of the pass.
pub open spec fn crossreference(operations: Seq<OperationView>) -> Result<
    Seq<OperationView>,
    ErrorView,
> {
    match whole_pass(operations) {
        Ok(pass) => Ok(pass.operations),
        Err(error) => Err(error),
    }
}

/// The model of what the pass returns.
pub open spec fn program_result_view(result: Result<Vec<Operation>, Error>) -> Result<
    Seq<OperationView>,
    ErrorView,
> {
    match result {
        Ok(program) => Ok(program_view(program@)),
        Err(error) => Err(error@),
    }
}

/// A copy of the operations.
fn copy_operations(operations: &Vec<Operation>) -> (copy: Vec<Operation>)
    ensures
        program_view(copy@) == program_view(operations@),
        copy.len() == operations.len(),
{
    let mut copy: Vec<Operation> = Vec::new();
    let mut index: usize = 0;
    while index < operations.len()
        invariant
            index <= operations.len(),
            copy.len() == index,
            program_view(copy@) == program_view(operations@).take(index as int),
        decreases operations.len() - index,
    {
        copy.push(operations[index].clone());
        index += 1;
        assert(program_view(copy@) =~= program_view(operations@).take(index as int));
    }
    assert(program_view(copy@) =~= program_view(operations@));
    copy
}

/// Gives the operation at `index` the jump target `target`.
fn set_target(operations: &mut Vec<Operation>, index: usize, target: usize)
    requires
        index < old(operations).len(),
    ensures
        final(operations).len() == old(operations).len(),
        program_view(final(operations)@) == with_target(
            program_view(old(operations)@),
            index as int,
            target as int,
        ),
{
    let operation = Operation::new(
        operations[index].op_type,
        Some(Object::Reference(target)),
        operations[index].line,
    );
    operations.set(index, operation);
    assert(program_view(operations@) =~= with_target(
        program_view(old(operations)@),
        index as int,
        target as int,
    ));
}

/// The failure of a marker that meets an open marker of the wrong kind.
fn mismatch(closer: OperationType, open: OperationType, line: usize) -> (error: Error)
    requires
        closer is Else || closer is End,
    ensures
        error@ == (ErrorView {
            kind: ErrorKind::PendingBlock,
            message: mismatch_message(closer, open),
            line,
        }),
{
    let mut message = match closer {
        OperationType::Else => String::from_str("can't end `else` with `"),
        _ => String::from_str("can't end `end` with `"),
    };
    let name = open.to_name();
    message.append(name.as_str());
    message.append("`");
    Error { kind: ErrorKind::PendingBlock, message, line }
}

/// The failure of a marker that finds no open marker.
fn unexpected(closer: OperationType, line: usize) -> (error: Error)
    ensures
        error@ == (ErrorView {
            kind: ErrorKind::UnexpectedBlockClose,
            message: unexpected_message(closer),
            line,
        }),
{
    let message = match closer {
        OperationType::Else => "invalid `else`",
        OperationType::Do => "unexpected `do`",
        _ => "unexpexted `end`",
    };
    Error::new(ErrorKind::UnexpectedBlockClose, message, line)
}

/// Takes the `if` from the pending indices, if one is on top.
fn drop_if(operations: &Vec<Operation>, pending: &mut Vec<usize>)
    requires
        forall|k: int| 0 <= k < old(pending).len() ==> old(pending)[k] < operations.len(),
    ensures
        final(pending)@ == without_if(program_view(operations@), old(pending)@),
{
    let count = pending.len();
    if count > 0 {
        match operations[pending[count - 1]].op_type {
            OperationType::If => {
                let _ = pending.pop();
            },
            _ => {},
        }
    }
}

/// Gives the block markers of a program their jump targets.
///
/// The result is a program of the same length: `then`, `else` and `do` jump
/// behind what closes them, and the `end` of a loop jumps back to its
/// `while`. The pass fails at the first `else` or `end` that closes nothing
/// (`UnexpectedBlockClose`) or closes a marker of the wrong kind
/// (`PendingBlock`), with the line of that operation. Markers that are
/// still open at the end of the program are left without a target.
pub fn crossreference_operations(operations: &Vec<Operation>) -> (result: Result<
    Vec<Operation>,
    Error,
>)
    ensures
        program_result_view(result) == crossreference(program_view(operations@)),
        result matches Ok(program) ==> program.len() == operations.len(),
{
    let mut resolved = copy_operations(operations);
    let mut pending: Vec<usize> = Vec::new();
    let count = resolved.len();
    let mut index: usize = 0;
    while index < count
        invariant
            index <= count,
            count == resolved.len(),
            count == operations.len(),
            forall|k: int| 0 <= k < pending.len() ==> pending[k] < index,
            whole_pass(program_view(operations@)) == sweep(
                Pass { operations: program_view(resolved@), pending: pending@ },
                index as int,
                count as int,
            ),
        decreases count - index,
    {
        let ghost pass = Pass { operations: program_view(resolved@), pending: pending@ };
        assert(pass.operations[index as int] == resolved[index as int]@);
        let kind = resolved[index].op_type;
        let line = resolved[index].line;
        let open_count = pending.len();
        match kind {
            OperationType::If | OperationType::Then | OperationType::While | OperationType::Do => {
                pending.push(index);
            },
            OperationType::Else => {
                if open_count == 0 {
                    return Err(unexpected(kind, line));
                }
                let opener = pending[open_count - 1];
                assert(pass.operations[opener as int] == resolved[opener as int]@);
                let open = resolved[opener].op_type;
                match open {
                    OperationType::Then => {
                        let _ = pending.pop();
                        drop_if(&resolved, &mut pending);
                        pending.push(index);
                        set_target(&mut resolved, opener, index + 1);
                    },
                    _ => {
                        return Err(mismatch(kind, open, line));
                    },
                }
            },
            OperationType::End => {
                if open_count == 0 {
                    return Err(unexpected(kind, line));
                }
                let opener = pending[open_count - 1];
                assert(pass.operations[opener as int] == resolved[opener as int]@);
                let open = resolved[opener].op_type;
                match open {
                    OperationType::Then => {
                        let _ = pending.pop();
                        drop_if(&resolved, &mut pending);
                        set_target(&mut resolved, opener, index + 1);
                    },
                    OperationType::Else => {
                        let _ = pending.pop();
                        set_target(&mut resolved, opener, index + 1);
                    },
                    OperationType::Do => {
                        if open_count == 1 {
                            return Err(unexpected(open, line));
                        }
                        let start = pending[open_count - 2];
                        assert(pass.operations[start as int] == resolved[start as int]@);
                        let beneath = resolved[start].op_type;
                        match beneath {
                            OperationType::While => {
                                let _ = pending.pop();
                                let _ = pending.pop();
                                set_target(&mut resolved, opener, index + 1);
                                set_target(&mut resolved, index, start);
                            },
                            _ => {
                                return Err(mismatch(kind, beneath, line));
                            },
                        }
                    },
                    _ => {
                        return Err(mismatch(kind, open, line));
                    },
                }
            },
            _ => {},
        }
        index += 1;
    }
    Ok(resolved)
}

} // verus!
