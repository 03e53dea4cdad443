use vstd::prelude::*;
use crate::error::{ErrorKind, ErrorView};
use crate::object::{Boolean, Function, NumberView, ObjectView};
use crate::operation::{OperationType, OperationView};
use crate::text::{reads_as_number, trimmed};

verus! {

/// What the host hands to the interpreter with a step.
pub ghost enum EventView {
    Nothing,
    Number(NumberView),
    Truth(bool),
    Line { text: Seq<char> },
}

/// What the interpreter asks of the host.
pub ghost enum RequestView {
    Compute { op: OperationType, left: NumberView, right: NumberView },
    Line,
}

/// What a step leaves for the host to do.
pub ghost enum ActionView {
    Continue,
    Halt,
    Print { text: Seq<char>, newline: bool },
    PrintNumber { number: NumberView, newline: bool },
    Ask(RequestView),
}

/// The state of the interpreter as mathematics: the program, the index of
/// the next operation, the value stack, the variable table, the values that
/// wait for a name, and the indices of the function markers whose bodies are
/// being skipped.
pub ghost struct MachineView {
    pub program: Seq<OperationView>,
    pub pointer: usize,
    pub stack: Seq<ObjectView>,
    pub variables: Map<Seq<char>, ObjectView>,
    pub pending: Seq<ObjectView>,
    pub returns: Seq<usize>,
}

/// The state after a step, and what the step answers.
pub ghost struct Outcome {
    pub state: MachineView,
    pub result: Result<ActionView, ErrorView>,
}

/// The index after `index`; the largest index is its own successor.
pub open spec fn successor(index: usize) -> usize {
    if index < usize::MAX {
        (index + 1) as usize
    } else {
        usize::MAX
    }
}

impl MachineView {
    /// The state of an interpreter that has not run anything.
    pub open spec fn initial() -> MachineView {
        MachineView {
            program: Seq::empty(),
            pointer: 0,
            stack: Seq::empty(),
            variables: Map::empty(),
            pending: Seq::empty(),
            returns: Seq::empty(),
        }
    }

    /// The same state at the start of another program.
    pub open spec fn load(self, program: Seq<OperationView>) -> MachineView {
        MachineView { program, pointer: 0, ..self }
    }

    /// The same state with the pointer at `pointer`.
    pub open spec fn jump(self, pointer: usize) -> MachineView {
        MachineView { pointer, ..self }
    }

    /// The same state with the pointer at the next operation.
    pub open spec fn advance(self) -> MachineView {
        self.jump(successor(self.pointer))
    }

    /// The same state with `value` on top of the stack.
    pub open spec fn push(self, value: ObjectView) -> MachineView {
        MachineView { stack: self.stack.push(value), ..self }
    }

    /// The same state without the `count` topmost values of the stack.
    pub open spec fn discard(self, count: int) -> MachineView {
        MachineView { stack: self.stack.take(self.stack.len() - count), ..self }
    }

    /// The value that lies `depth` places under the top of the stack.
    pub open spec fn peek(self, depth: int) -> ObjectView {
        self.stack[self.stack.len() - 1 - depth]
    }

    /// The step that ends in this state and leaves nothing to the host.
    pub open spec fn proceed(self) -> Outcome {
        Outcome { state: self, result: Ok(ActionView::Continue) }
    }

    /// The step that ends in this state and answers with `action`.
    pub open spec fn answer(self, action: ActionView) -> Outcome {
        Outcome { state: self, result: Ok(action) }
    }

    /// The step that fails and leaves the state as it was.
    pub open spec fn fail(self, kind: ErrorKind, message: Seq<char>, line: usize) -> Outcome {
        Outcome { state: self, result: Err(ErrorView { kind, message, line }) }
    }
}

/// What is said when a name is read that nothing was bound to.
pub open spec fn undefined_message(name: Seq<char>) -> Seq<char> {
    "variable '"@ + name + "' does not exist"@
}

/// What is said when an operation finds too few values on the stack.
pub open spec fn underflow_message(kind: OperationType) -> Seq<char> {
    match kind {
        OperationType::Function => "'function' requires a function to return from"@,
        OperationType::Assignment => "can not declare variable without a value"@,
        OperationType::Plus => "'+' operation requires two operand"@,
        OperationType::Minus => "'-' operation requires two operand"@,
        OperationType::Multiplication => "'*' operation requires two operand"@,
        OperationType::Division => "'/' operation requires two operand"@,
        OperationType::Modulus => "'/' operation requires two operand"@,
        OperationType::Equal => "'=' operation requires two operand"@,
        OperationType::Greater => "'>' operation requires two operand"@,
        OperationType::Less => "'>' operation requires two operand"@,
        OperationType::Not => "'!' operator requires one operand"@,
        OperationType::And => "'&' operation requires two operand"@,
        OperationType::Or => "'|' operation requires two operand"@,
        OperationType::Then => "'then' operation requires one operand"@,
        OperationType::Do => "'do' operation requires one operand"@,
        OperationType::Write => "'write' operation requires one operand"@,
        OperationType::Writeln => "'writeln' operation requires one operand"@,
        _ => ""@,
    }
}

/// What is said when an operation finds a value of the wrong kind.
pub open spec fn type_message(kind: OperationType) -> Seq<char> {
    match kind {
        OperationType::Number => "expected number"@,
        OperationType::String => "expected string"@,
        OperationType::Plus => "'+' is only usable with number"@,
        OperationType::Minus => "'-' is only usable with number"@,
        OperationType::Multiplication => "'*' is only usable with number"@,
        OperationType::Division => "'/' is only usable with number"@,
        OperationType::Modulus => "'/' is only usable with number"@,
        OperationType::Greater => "'>' is only usable with number"@,
        OperationType::Less => "'<' is only usable with number"@,
        OperationType::Not => "'!' is only usable with boolean"@,
        OperationType::And => "'&' is only usable with boolean"@,
        OperationType::Or => "'|' is only usable with boolean"@,
        OperationType::Then => "'then' doesn't have a reference associated with it"@,
        OperationType::Do => "'then' doesn't have a reference associated with it"@,
        OperationType::End => "can not use the operand with 'end' (expected integer)"@,
        OperationType::Write => "'write' can use with only number, string and boolean"@,
        OperationType::Writeln => "'writeln' can use with only number, string and boolean"@,
        _ => ""@,
    }
}

/// What is said when a marker carries an operand that is no jump target.
pub open spec fn reference_message(kind: OperationType) -> Seq<char> {
    match kind {
        OperationType::Function => "invalid reference for 'function' (expected integer)"@,
        OperationType::Then => "invalid reference for 'then' (expected integer)"@,
        OperationType::Else => "invalid reference for 'else' (expected integer)"@,
        OperationType::Do => "invalid reference for 'do' (expected integer)"@,
        _ => ""@,
    }
}

/// What is said when a marker that needs a jump target carries no operand.
pub open spec fn missing_reference_message(kind: OperationType) -> Seq<char> {
    match kind {
        OperationType::Function => "could not figure out where the is being called from"@,
        OperationType::Then => "'then' does not have reference to it's 'end' or 'else' block"@,
        OperationType::Else => "'else' does not have reference to it's 'end' block"@,
        OperationType::Do => "'do' does not have reference to it's 'end' block"@,
        _ => ""@,
    }
}

/// What is said when a variable holds a value that cannot be read.
pub open spec fn variable_type_message() -> Seq<char> {
    "can use only number, string, boolean or function ('[]')"@
}

/// An identifier: binds the value that waits for a name, or else reads the
/// variable. Reading a number, a string or a boolean copies it to the stack.
/// Reading a function calls it: the function goes on the stack with the
/// index to return to, and execution goes on behind its opening marker.
pub open spec fn identifier_step(state: MachineView, operation: OperationView) -> Outcome {
    match operation.operand {
        Some(ObjectView::Identifier(name)) => {
            if state.pending.len() > 0 {
                MachineView {
                    variables: state.variables.insert(name, state.pending.last()),
                    pending: state.pending.drop_last(),
                    ..state
                }.advance().proceed()
            } else if !state.variables.contains_key(name) {
                state.fail(ErrorKind::UndefinedVariable, undefined_message(name), operation.line)
            } else {
                match state.variables[name] {
                    ObjectView::Number(number) => state.push(ObjectView::Number(number)).advance().proceed(),
                    ObjectView::String(text) => state.push(ObjectView::String(text)).advance().proceed(),
                    ObjectView::Boolean(boolean) => state.push(ObjectView::Boolean(boolean)).advance().proceed(),
                    ObjectView::Function(function) => state.push(
                        ObjectView::Function(
                            Function {
                                opening_block: function.opening_block,
                                called_from: successor(state.pointer),
                            },
                        ),
                    ).jump(successor(function.opening_block)).proceed(),
                    _ => state.fail(
                        ErrorKind::InvalidVariableType,
                        variable_type_message(),
                        operation.line,
                    ),
                }
            }
        },
        _ => state.advance().proceed(),
    }
}

/// A literal: puts its value on the stack. A number or string operation
/// without an operand puts nothing there.
pub open spec fn literal_step(state: MachineView, operation: OperationView) -> Outcome {
    match operation.op_type {
        OperationType::True => state.push(ObjectView::Boolean(Boolean::True)).advance().proceed(),
        OperationType::False => state.push(ObjectView::Boolean(Boolean::False)).advance().proceed(),
        OperationType::Number => match operation.operand {
            Some(ObjectView::Number(number)) => state.push(ObjectView::Number(number)).advance().proceed(),
            Some(_) => state.fail(
                ErrorKind::InvalidType,
                type_message(OperationType::Number),
                operation.line,
            ),
            None => state.advance().proceed(),
        },
        _ => match operation.operand {
            Some(ObjectView::String(text)) => state.push(ObjectView::String(text)).advance().proceed(),
            Some(_) => state.fail(
                ErrorKind::InvalidType,
                type_message(OperationType::String),
                operation.line,
            ),
            None => state.advance().proceed(),
        },
    }
}

/// A function marker. With a jump target it opens a definition: its own
/// index is remembered and the body is skipped. Without one it closes a
/// body: behind a definition it leaves the function on the stack as a value,
/// and at the end of a call it takes the function from the stack and returns
/// to where it was called from.
pub open spec fn function_step(state: MachineView, operation: OperationView) -> Outcome {
    match operation.operand {
        Some(ObjectView::Reference(target)) => MachineView {
            returns: state.returns.push(state.pointer),
            ..state
        }.jump(target).proceed(),
        Some(_) => state.fail(
            ErrorKind::InvalidReference,
            reference_message(OperationType::Function),
            operation.line,
        ),
        None => {
            if state.returns.len() > 0 {
                MachineView { returns: state.returns.drop_last(), ..state }.push(
                    ObjectView::Function(
                        Function { opening_block: state.returns.last(), called_from: 0 },
                    ),
                ).advance().proceed()
            } else if state.stack.len() < 1 {
                state.fail(
                    ErrorKind::StackUnderflow,
                    underflow_message(OperationType::Function),
                    operation.line,
                )
            } else {
                match state.peek(0) {
                    ObjectView::Function(function) => state.discard(1).jump(
                        function.called_from,
                    ).proceed(),
                    _ => state.fail(
                        ErrorKind::InvalidReference,
                        missing_reference_message(OperationType::Function),
                        operation.line,
                    ),
                }
            }
        },
    }
}

/// The assignment marker: moves the top of the stack to the values that wait
/// for a name.
pub open spec fn assignment_step(state: MachineView, operation: OperationView) -> Outcome {
    if state.stack.len() < 1 {
        state.fail(
            ErrorKind::StackUnderflow,
            underflow_message(OperationType::Assignment),
            operation.line,
        )
    } else {
        MachineView { pending: state.pending.push(state.peek(0)), ..state }.discard(1).advance().proceed()
    }
}

/// An operation on two numbers: `+ - * / %`, which give a number, and
/// `> <`, which give a truth value. The value pushed first is the left
/// operand. The host computes: until the event brings the result, the step
/// asks for it and changes nothing.
pub open spec fn numeric_step(state: MachineView, operation: OperationView, event: EventView) -> Outcome {
    let kind = operation.op_type;
    if state.stack.len() < 2 {
        state.fail(ErrorKind::StackUnderflow, underflow_message(kind), operation.line)
    } else {
        match (state.peek(1), state.peek(0)) {
            (ObjectView::Number(left), ObjectView::Number(right)) => {
                if kind is Greater || kind is Less {
                    match event {
                        EventView::Truth(truth) => state.discard(2).push(
                            ObjectView::Boolean(truth_value(truth)),
                        ).advance().proceed(),
                        _ => state.answer(
                            ActionView::Ask(RequestView::Compute { op: kind, left, right }),
                        ),
                    }
                } else {
                    match event {
                        EventView::Number(number) => state.discard(2).push(
                            ObjectView::Number(number),
                        ).advance().proceed(),
                        _ => state.answer(
                            ActionView::Ask(RequestView::Compute { op: kind, left, right }),
                        ),
                    }
                }
            },
            _ => state.fail(ErrorKind::InvalidType, type_message(kind), operation.line),
        }
    }
}

/// The truth value of the language for a `bool`.
pub open spec fn truth_value(truth: bool) -> Boolean {
    if truth {
        Boolean::True
    } else {
        Boolean::False
    }
}

/// `=`: whether the two topmost values are equal. Two numbers are compared
/// by the host. Any other two values are equal when they are the same
/// variant with the same content.
pub open spec fn equal_step(state: MachineView, operation: OperationView, event: EventView) -> Outcome {
    if state.stack.len() < 2 {
        state.fail(
            ErrorKind::StackUnderflow,
            underflow_message(OperationType::Equal),
            operation.line,
        )
    } else {
        match (state.peek(1), state.peek(0)) {
            (ObjectView::Number(left), ObjectView::Number(right)) => match event {
                EventView::Truth(truth) => state.discard(2).push(
                    ObjectView::Boolean(truth_value(truth)),
                ).advance().proceed(),
                _ => state.answer(
                    ActionView::Ask(
                        RequestView::Compute { op: OperationType::Equal, left, right },
                    ),
                ),
            },
            (first, second) => state.discard(2).push(
                ObjectView::Boolean(truth_value(first == second)),
            ).advance().proceed(),
        }
    }
}

/// `!`: the other truth value.
pub open spec fn not_step(state: MachineView, operation: OperationView) -> Outcome {
    if state.stack.len() < 1 {
        state.fail(
            ErrorKind::StackUnderflow,
            underflow_message(OperationType::Not),
            operation.line,
        )
    } else {
        match state.peek(0) {
            ObjectView::Boolean(boolean) => state.discard(1).push(
                ObjectView::Boolean(truth_value(boolean is False)),
            ).advance().proceed(),
            _ => state.fail(
                ErrorKind::InvalidType,
                type_message(OperationType::Not),
                operation.line,
            ),
        }
    }
}

/// `&` and `|`: true when both are true, and false when both are false.
pub open spec fn logic_step(state: MachineView, operation: OperationView) -> Outcome {
    let kind = operation.op_type;
    if state.stack.len() < 2 {
        state.fail(ErrorKind::StackUnderflow, underflow_message(kind), operation.line)
    } else {
        match (state.peek(1), state.peek(0)) {
            (ObjectView::Boolean(first), ObjectView::Boolean(second)) => state.discard(2).push(
                ObjectView::Boolean(
                    truth_value(
                        if kind is And {
                            first is True && second is True
                        } else {
                            first is True || second is True
                        },
                    ),
                ),
            ).advance().proceed(),
            _ => state.fail(ErrorKind::InvalidType, type_message(kind), operation.line),
        }
    }
}

/// `then` and `do`: take a truth value from the stack; on false jump to the
/// target, on true go on with the next operation.
pub open spec fn branch_step(state: MachineView, operation: OperationView) -> Outcome {
    let kind = operation.op_type;
    if state.stack.len() < 1 {
        state.fail(ErrorKind::StackUnderflow, underflow_message(kind), operation.line)
    } else {
        match state.peek(0) {
            ObjectView::Boolean(boolean) => match operation.operand {
                Some(ObjectView::Reference(target)) => {
                    if boolean is False {
                        state.discard(1).jump(target).proceed()
                    } else {
                        state.discard(1).advance().proceed()
                    }
                },
                Some(_) => state.fail(
                    ErrorKind::InvalidReference,
                    reference_message(kind),
                    operation.line,
                ),
                None => state.fail(
                    ErrorKind::InvalidReference,
                    missing_reference_message(kind),
                    operation.line,
                ),
            },
            _ => state.fail(ErrorKind::InvalidType, type_message(kind), operation.line),
        }
    }
}

/// `else`: jumps to its target.
pub open spec fn else_step(state: MachineView, operation: OperationView) -> Outcome {
    match operation.operand {
        Some(ObjectView::Reference(target)) => state.jump(target).proceed(),
        Some(_) => state.fail(
            ErrorKind::InvalidReference,
            reference_message(OperationType::Else),
            operation.line,
        ),
        None => state.fail(
            ErrorKind::InvalidReference,
            missing_reference_message(OperationType::Else),
            operation.line,
        ),
    }
}

/// `end`: jumps to its target where it has one, and else goes on with the
/// next operation.
pub open spec fn end_step(state: MachineView, operation: OperationView) -> Outcome {
    match operation.operand {
        Some(ObjectView::Reference(target)) => state.jump(target).proceed(),
        Some(_) => state.fail(
            ErrorKind::InvalidType,
            type_message(OperationType::End),
            operation.line,
        ),
        None => state.advance().proceed(),
    }
}

/// The value that a line of input is: without the white space around it,
/// a number if it reads as one, and a string if it does not.
pub open spec fn input_value(line: Seq<char>) -> ObjectView {
    let text = trimmed(line);
    if reads_as_number(text) {
        ObjectView::Number(NumberView::Numeral(text))
    } else {
        ObjectView::String(text)
    }
}

/// `read`: the host reads a line; until the event brings it, the step asks
/// for it and changes nothing. The value of the line goes on the stack.
pub open spec fn read_step(state: MachineView, event: EventView) -> Outcome {
    match event {
        EventView::Line { text } => state.push(input_value(text)).advance().proceed(),
        _ => state.answer(ActionView::Ask(RequestView::Line)),
    }
}

/// `write` and `writeln`: take a number, a string or a boolean from the
/// stack and hand its text to the host; `writeln` ends the line.
pub open spec fn write_step(state: MachineView, operation: OperationView) -> Outcome {
    let kind = operation.op_type;
    let newline = kind is Writeln;
    if state.stack.len() < 1 {
        state.fail(ErrorKind::StackUnderflow, underflow_message(kind), operation.line)
    } else {
        match state.peek(0) {
            ObjectView::String(text) => state.discard(1).advance().answer(
                ActionView::Print { text, newline },
            ),
            ObjectView::Boolean(boolean) => state.discard(1).advance().answer(
                ActionView::Print {
                    text: if boolean is True {
                        "true"@
                    } else {
                        "false"@
                    },
                    newline,
                },
            ),
            ObjectView::Number(number) => state.discard(1).advance().answer(
                ActionView::PrintNumber { number, newline },
            ),
            _ => state.fail(ErrorKind::InvalidType, type_message(kind), operation.line),
        }
    }
}

/// One step of the interpreter: the operation at the pointer is executed.
/// With the pointer behind the last operation the program has ended.
pub open spec fn step(state: MachineView, event: EventView) -> Outcome {
    if state.pointer >= state.program.len() {
        state.answer(ActionView::Halt)
    } else {
        let operation = state.program[state.pointer as int];
        match operation.op_type {
            OperationType::Identifier => identifier_step(state, operation),
            OperationType::Number
            | OperationType::String
            | OperationType::True
            | OperationType::False => literal_step(state, operation),
            OperationType::Function => function_step(state, operation),
            OperationType::Assignment => assignment_step(state, operation),
            OperationType::Plus
            | OperationType::Minus
            | OperationType::Multiplication
            | OperationType::Division
            | OperationType::Modulus
            | OperationType::Greater
            | OperationType::Less => numeric_step(state, operation, event),
            OperationType::Equal => equal_step(state, operation, event),
            OperationType::Not => not_step(state, operation),
            OperationType::And | OperationType::Or => logic_step(state, operation),
            OperationType::If | OperationType::While => state.advance().proceed(),
            OperationType::Then | OperationType::Do => branch_step(state, operation),
            OperationType::Else => else_step(state, operation),
            OperationType::End => end_step(state, operation),
            OperationType::Read => read_step(state, event),
            OperationType::Write | OperationType::Writeln => write_step(state, operation),
        }
    }
}

/// A program without operations ends at its first step: the step answers
/// `Halt`, asks the host to write nothing, and leaves the stack and the
/// rest of the state as they were.
pub proof fn lemma_empty_program_halts(state: MachineView, event: EventView)
    requires
        state.program.len() == 0,
    ensures
        step(state, event) == state.answer(ActionView::Halt),
        step(MachineView::initial().load(state.program), event).state.stack.len() == 0,
{
}

/// Whether the kind is one of `+ - * / %`.
pub open spec fn is_arithmetic(kind: OperationType) -> bool {
    kind is Plus || kind is Minus || kind is Multiplication || kind is Division || kind is Modulus
}

/// A number literal in a program.
pub open spec fn number_literal(operation: OperationView, number: NumberView) -> bool {
    operation.op_type is Number && operation.operand == Some(ObjectView::Number(number))
}

/// Two number literals and an arithmetic operator behind them: the two
/// numbers go on the stack, and the operator has the host compute with the
/// number pushed first as the left operand and the number pushed second as
/// the right one. With the host's result the two numbers leave the stack
/// and the result alone takes their place.
pub proof fn lemma_arithmetic_order(
    state: MachineView,
    first: NumberView,
    second: NumberView,
    first_event: EventView,
    second_event: EventView,
    third_event: EventView,
)
    requires
        state.pointer + 2 < state.program.len() <= usize::MAX,
        number_literal(state.program[state.pointer as int], first),
        number_literal(state.program[state.pointer + 1], second),
        is_arithmetic(state.program[state.pointer + 2].op_type),
    ensures
        ({
            let pushed = step(step(state, first_event).state, second_event).state;
            let kind = state.program[state.pointer + 2].op_type;
            &&& pushed == state.push(ObjectView::Number(first)).push(
                ObjectView::Number(second),
            ).jump((state.pointer + 2) as usize)
            &&& step(pushed, third_event) == match third_event {
                EventView::Number(result) => state.push(ObjectView::Number(result)).jump(
                    (state.pointer + 3) as usize,
                ).proceed(),
                _ => pushed.answer(
                    ActionView::Ask(RequestView::Compute { op: kind, left: first, right: second }),
                ),
            }
        }),
{
    let one = step(state, first_event).state;
    assert(one == state.push(ObjectView::Number(first)).advance());
    let pushed = step(one, second_event).state;
    assert(pushed == one.push(ObjectView::Number(second)).advance());
    let stack = state.stack.push(ObjectView::Number(first)).push(ObjectView::Number(second));
    assert(pushed.stack == stack);
    assert(stack.take(stack.len() - 2) =~= state.stack);
    assert(pushed.peek(1) == ObjectView::Number(first));
    assert(pushed.peek(0) == ObjectView::Number(second));
}

/// A step never changes the program. A step that fails, and a step that
/// asks the host for something, change nothing at all.
pub proof fn lemma_step_keeps(state: MachineView, event: EventView)
    ensures
        step(state, event).state.program == state.program,
        step(state, event).result is Err ==> step(state, event).state == state,
        step(state, event).result matches Ok(ActionView::Ask(_)) ==> step(state, event).state
            == state,
{
}

/// Whether a value is one that programs compute with: a number, a string, a
/// boolean or a function. Names and jump targets are not; they only stand
/// in programs, as operands.
pub open spec fn is_runtime_value(value: ObjectView) -> bool {
    value is Number || value is String || value is Boolean || value is Function
}

/// Whether the stack, the values that wait for a name and the variables
/// hold nothing but values that programs compute with.
pub open spec fn holds_runtime_values(state: MachineView) -> bool {
    &&& forall|i: int| 0 <= i < state.stack.len() ==> is_runtime_value(#[trigger] state.stack[i])
    &&& forall|i: int|
        0 <= i < state.pending.len() ==> is_runtime_value(#[trigger] state.pending[i])
    &&& forall|name: Seq<char>| #[trigger]
        state.variables.contains_key(name) ==> is_runtime_value(state.variables[name])
}

/// No step puts a name or a jump target on the stack, among the values that
/// wait for a name, or into a variable, whatever the program holds and
/// whatever the host hands in.
pub proof fn lemma_runtime_values_kept(state: MachineView, event: EventView)
    requires
        holds_runtime_values(state),
    ensures
        holds_runtime_values(step(state, event).state),
        !(step(state, event).result matches Err(error) && error.kind is InvalidVariableType),
{
    let after = step(state, event).state;
    if state.pointer < state.program.len() {
        let depth = state.stack.len() as int;
        if depth >= 1 {
            assert(is_runtime_value(state.stack[depth - 1]));
        }
        if depth >= 2 {
            assert(is_runtime_value(state.stack[depth - 2]));
        }
        if state.pending.len() > 0 {
            assert(is_runtime_value(state.pending[state.pending.len() - 1]));
        }
        assert forall|i: int| 0 <= i < after.stack.len() implies is_runtime_value(
            #[trigger] after.stack[i],
        ) by {
            if i < state.stack.len() {
                assert(is_runtime_value(state.stack[i]));
            }
        }
        assert forall|i: int| 0 <= i < after.pending.len() implies is_runtime_value(
            #[trigger] after.pending[i],
        ) by {
            if i < state.pending.len() {
                assert(is_runtime_value(state.pending[i]));
            }
        }
        assert forall|name: Seq<char>| #[trigger]
            after.variables.contains_key(name) implies is_runtime_value(after.variables[name]) by {
            if state.variables.contains_key(name) {
                assert(is_runtime_value(state.variables[name]));
            }
        }
    }
}

/// Whether the host can read the number: a numeral has to read as a
/// number, an encoded number always can be read.
pub open spec fn is_readable(number: NumberView) -> bool {
    number matches NumberView::Numeral(text) ==> reads_as_number(text)
}

/// Whether the value is no number or a number that the host can read.
pub open spec fn is_legible(value: ObjectView) -> bool {
    value matches ObjectView::Number(number) ==> is_readable(number)
}

/// Whether the host can read every number that the program, the stack, the
/// values that wait for a name and the variables hold.
pub open spec fn holds_readable_numbers(state: MachineView) -> bool {
    &&& forall|i: int|
        0 <= i < state.program.len() ==> ((#[trigger] state.program[i]).operand matches Some(
            value,
        ) ==> is_legible(value))
    &&& forall|i: int| 0 <= i < state.stack.len() ==> is_legible(#[trigger] state.stack[i])
    &&& forall|i: int| 0 <= i < state.pending.len() ==> is_legible(#[trigger] state.pending[i])
    &&& forall|name: Seq<char>| #[trigger]
        state.variables.contains_key(name) ==> is_legible(state.variables[name])
}

/// Whether the host can read every number that the answer hands to it.
pub open spec fn hands_readable_numbers(result: Result<ActionView, ErrorView>) -> bool {
    match result {
        Ok(ActionView::Ask(RequestView::Compute { left, right, .. })) => is_readable(left)
            && is_readable(right),
        Ok(ActionView::PrintNumber { number, .. }) => is_readable(number),
        _ => true,
    }
}

/// As long as the host hands in numbers that it can read, it can read
/// every number that a step hands to it, and every number that the
/// interpreter holds.
pub proof fn lemma_numbers_stay_readable(state: MachineView, event: EventView)
    requires
        holds_readable_numbers(state),
        event matches EventView::Number(number) ==> is_readable(number),
    ensures
        holds_readable_numbers(step(state, event).state),
        hands_readable_numbers(step(state, event).result),
{
    let after = step(state, event).state;
    if state.pointer < state.program.len() {
        let operation = state.program[state.pointer as int];
        assert(operation.operand matches Some(value) ==> is_legible(value));
        let depth = state.stack.len() as int;
        if depth >= 1 {
            assert(is_legible(state.stack[depth - 1]));
        }
        if depth >= 2 {
            assert(is_legible(state.stack[depth - 2]));
        }
        if state.pending.len() > 0 {
            assert(is_legible(state.pending[state.pending.len() - 1]));
        }
        assert forall|i: int| 0 <= i < after.stack.len() implies is_legible(
            #[trigger] after.stack[i],
        ) by {
            if i < state.stack.len() {
                assert(is_legible(state.stack[i]));
            }
        }
        assert forall|i: int| 0 <= i < after.pending.len() implies is_legible(
            #[trigger] after.pending[i],
        ) by {
            if i < state.pending.len() {
                assert(is_legible(state.pending[i]));
            }
        }
        assert forall|name: Seq<char>| #[trigger]
            after.variables.contains_key(name) implies is_legible(after.variables[name]) by {
            if state.variables.contains_key(name) {
                assert(is_legible(state.variables[name]));
            }
        }
    }
}

} // verus!
