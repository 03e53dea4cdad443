use vstd::prelude::*;
use vstd::hash_map::StringHashMap;
use crate::error::{Error, ErrorKind, ErrorView};
use crate::machine::{
    assignment_step, branch_step, else_step, end_step, equal_step, function_step,
    identifier_step, lemma_step_keeps, literal_step, logic_step, missing_reference_message,
    not_step,
    numeric_step, read_step, reference_message, step, truth_value, type_message,
    underflow_message, write_step, ActionView, EventView, MachineView, RequestView,
};
use crate::object::{Boolean, Function, Number, Object, ObjectView};
use crate::operation::{program_view, Operation, OperationType, OperationView};
use crate::text::{reads_number, trim};
use crate::tokenizer::{program_of, Tokenizer};

verus! {

/// What the host hands to the interpreter with a step: nothing, or the
/// result of what the step before asked for.
#[derive(Debug, PartialEq)]
pub enum Event {
    /// Nothing to report.
    Nothing,
    /// The number that a computation gave.
    Number(Number),
    /// The truth value that a comparison gave.
    Truth(bool),
    /// A line that was read from the input.
    Line { text: String },
}

impl View for Event {
    type V = EventView;

    open spec fn view(&self) -> EventView {
        match self {
            Event::Nothing => EventView::Nothing,
            Event::Number(number) => EventView::Number(number@),
            Event::Truth(truth) => EventView::Truth(*truth),
            Event::Line { text } => EventView::Line { text: text@ },
        }
    }
}

/// What the interpreter asks of the host.
#[derive(Debug, PartialEq)]
pub enum Request {
    /// Compute `left op right`: a number for `+ - * / %`, a truth value for
    /// `= > <`.
    Compute { op: OperationType, left: Number, right: Number },
    /// Read a line from the input.
    Line,
}

impl View for Request {
    type V = RequestView;

    open spec fn view(&self) -> RequestView {
        match self {
            Request::Compute { op, left, right } => RequestView::Compute {
                op: *op,
                left: left@,
                right: right@,
            },
            Request::Line => RequestView::Line,
        }
    }
}

/// What a step leaves for the host to do.
#[derive(Debug, PartialEq)]
pub enum Action {
    /// Nothing: take the next step.
    Continue,
    /// Nothing: the program has ended.
    Halt,
    /// Write the text to the output, and end the line if `newline` is set.
    Print { text: String, newline: bool },
    /// Write the number to the output, and end the line if `newline` is set.
    PrintNumber { number: Number, newline: bool },
    /// Do what is asked, and hand the result to the next step.
    Ask(Request),
}

impl View for Action {
    type V = ActionView;

    open spec fn view(&self) -> ActionView {
        match self {
            Action::Continue => ActionView::Continue,
            Action::Halt => ActionView::Halt,
            Action::Print { text, newline } => ActionView::Print { text: text@, newline: *newline },
            Action::PrintNumber { number, newline } => ActionView::PrintNumber {
                number: number@,
                newline: *newline,
            },
            Action::Ask(request) => ActionView::Ask(request@),
        }
    }
}

/// The model of what a step answers.
pub open spec fn answer_view(answer: Result<Action, Error>) -> Result<ActionView, ErrorView> {
    match answer {
        Ok(action) => Ok(action@),
        Err(error) => Err(error@),
    }
}

/// The models of the values of a stack, bottom first.
pub open spec fn objects_view(objects: Seq<Object>) -> Seq<ObjectView> {
    objects.map_values(|object: Object| object@)
}

/// The model of a variable table.
pub open spec fn variables_view(variables: Map<Seq<char>, Object>) -> Map<Seq<char>, ObjectView> {
    variables.map_values(|object: Object| object@)
}

/// Puts a value on top of a stack.
fn push_object(stack: &mut Vec<Object>, object: Object)
    ensures
        objects_view(final(stack)@) == objects_view(old(stack)@).push(object@),
{
    stack.push(object);
    assert(objects_view(stack@) =~= objects_view(old(stack)@).push(object@));
}

/// Takes the `count` topmost values from a stack.
fn pop_objects(stack: &mut Vec<Object>, count: usize)
    requires
        count <= old(stack).len(),
    ensures
        objects_view(final(stack)@) == objects_view(old(stack)@).take(old(stack).len() - count),
{
    let mut done: usize = 0;
    while done < count
        invariant
            done <= count <= old(stack).len(),
            stack@ == old(stack)@.take(old(stack).len() - done),
        decreases count - done,
    {
        let _ = stack.pop();
        done += 1;
        assert(stack@ =~= old(stack)@.take(old(stack).len() - done));
    }
    assert(objects_view(stack@) =~= objects_view(old(stack)@).take(old(stack).len() - count));
}

/// The text of [`underflow_message`].
fn underflow_text(kind: OperationType) -> (text: &'static str)
    ensures
        text@ == underflow_message(kind),
{
    match kind {
        OperationType::Function => "'function' requires a function to return from",
        OperationType::Assignment => "can not declare variable without a value",
        OperationType::Plus => "'+' operation requires two operand",
        OperationType::Minus => "'-' operation requires two operand",
        OperationType::Multiplication => "'*' operation requires two operand",
        OperationType::Division => "'/' operation requires two operand",
        OperationType::Modulus => "'/' operation requires two operand",
        OperationType::Equal => "'=' operation requires two operand",
        OperationType::Greater => "'>' operation requires two operand",
        OperationType::Less => "'>' operation requires two operand",
        OperationType::Not => "'!' operator requires one operand",
        OperationType::And => "'&' operation requires two operand",
        OperationType::Or => "'|' operation requires two operand",
        OperationType::Then => "'then' operation requires one operand",
        OperationType::Do => "'do' operation requires one operand",
        OperationType::Write => "'write' operation requires one operand",
        OperationType::Writeln => "'writeln' operation requires one operand",
        _ => "",
    }
}

/// The text of [`type_message`].
fn type_text(kind: OperationType) -> (text: &'static str)
    ensures
        text@ == type_message(kind),
{
    match kind {
        OperationType::Number => "expected number",
        OperationType::String => "expected string",
        OperationType::Plus => "'+' is only usable with number",
        OperationType::Minus => "'-' is only usable with number",
        OperationType::Multiplication => "'*' is only usable with number",
        OperationType::Division => "'/' is only usable with number",
        OperationType::Modulus => "'/' is only usable with number",
        OperationType::Greater => "'>' is only usable with number",
        OperationType::Less => "'<' is only usable with number",
        OperationType::Not => "'!' is only usable with boolean",
        OperationType::And => "'&' is only usable with boolean",
        OperationType::Or => "'|' is only usable with boolean",
        OperationType::Then => "'then' doesn't have a reference associated with it",
        OperationType::Do => "'then' doesn't have a reference associated with it",
        OperationType::End => "can not use the operand with 'end' (expected integer)",
        OperationType::Write => "'write' can use with only number, string and boolean",
        OperationType::Writeln => "'writeln' can use with only number, string and boolean",
        _ => "",
    }
}

/// The text of [`reference_message`].
fn reference_text(kind: OperationType) -> (text: &'static str)
    ensures
        text@ == reference_message(kind),
{
    match kind {
        OperationType::Function => "invalid reference for 'function' (expected integer)",
        OperationType::Then => "invalid reference for 'then' (expected integer)",
        OperationType::Else => "invalid reference for 'else' (expected integer)",
        OperationType::Do => "invalid reference for 'do' (expected integer)",
        _ => "",
    }
}

/// The text of [`missing_reference_message`].
fn missing_reference_text(kind: OperationType) -> (text: &'static str)
    ensures
        text@ == missing_reference_message(kind),
{
    match kind {
        OperationType::Function => "could not figure out where the is being called from",
        OperationType::Then => "'then' does not have reference to it's 'end' or 'else' block",
        OperationType::Else => "'else' does not have reference to it's 'end' block",
        OperationType::Do => "'do' does not have reference to it's 'end' block",
        _ => "",
    }
}

/// The boolean of the language for a `bool`.
fn truth_object(truth: bool) -> (object: Object)
    ensures
        object@ == ObjectView::Boolean(truth_value(truth)),
{
    if truth {
        Object::Boolean(Boolean::True)
    } else {
        Object::Boolean(Boolean::False)
    }
}

/// The interpreter: a program and the state in which it runs.
///
/// The interpreter decides; the host acts. Each call of [`Interpreter::step`]
/// executes the operation at the pointer and says what is left for the host
/// to do: nothing, to write something, or to compute or read something and
/// bring it along with the next step.
pub struct Interpreter {
    program: Vec<Operation>,
    pointer: usize,
    stack: Vec<Object>,
    variables: StringHashMap<Object>,
    pending: Vec<Object>,
    returns: Vec<usize>,
}

impl View for Interpreter {
    type V = MachineView;

    closed spec fn view(&self) -> MachineView {
        MachineView {
            program: program_view(self.program@),
            pointer: self.pointer,
            stack: objects_view(self.stack@),
            variables: variables_view(self.variables@),
            pending: objects_view(self.pending@),
            returns: self.returns@,
        }
    }
}

impl Interpreter {
    /// An interpreter with no program, an empty stack and no variables.
    pub fn new() -> (interpreter: Self)
        ensures
            interpreter@ == MachineView::initial(),
    {
        let interpreter = Self {
            program: Vec::new(),
            pointer: 0,
            stack: Vec::new(),
            variables: StringHashMap::new(),
            pending: Vec::new(),
            returns: Vec::new(),
        };
        assert(interpreter@.program =~= Seq::empty());
        assert(interpreter@.stack =~= Seq::empty());
        assert(interpreter@.pending =~= Seq::empty());
        assert(interpreter@.variables =~= Map::empty());
        interpreter
    }

    /// Takes up a program at its first operation. The stack, the variables
    /// and the rest of the state stay as they are.
    pub fn load(&mut self, program: Vec<Operation>)
        ensures
            final(self)@ == old(self)@.load(program_view(program@)),
    {
        self.program = program;
        self.pointer = 0;
    }

    /// The program that is being run.
    pub fn program(&self) -> (program: &Vec<Operation>)
        ensures
            program_view(program@) == self@.program,
    {
        &self.program
    }

    /// The index of the operation that the next step executes.
    pub fn pointer(&self) -> (pointer: usize)
        ensures
            pointer == self@.pointer,
    {
        self.pointer
    }

    /// The value stack, bottom first.
    pub fn stack(&self) -> (stack: &Vec<Object>)
        ensures
            objects_view(stack@) == self@.stack,
    {
        &self.stack
    }

    /// The value that is bound to `name`, if any is.
    pub fn variable(&self, name: &str) -> (value: Option<&Object>)
        ensures
            match value {
                Some(object) => self@.variables.contains_key(name@) && object@
                    == self@.variables[name@],
                None => !self@.variables.contains_key(name@),
            },
    {
        self.variables.get(name)
    }

    /// Takes up the program that a source text stands for, at its first
    /// operation. Where the text is no program the failure is returned and
    /// the interpreter stays as it is.
    pub fn run(&mut self, source: &str) -> (result: Result<(), Error>)
        ensures
            match program_of(source@) {
                Ok(program) => result is Ok && final(self)@ == old(self)@.load(program),
                Err(error) => result matches Err(found) && found@ == error && final(self)@ == old(
                    self,
                )@,
            },
    {
        let mut tokenizer = Tokenizer::new(source);
        match tokenizer.scan_tokens() {
            Ok(program) => {
                self.load(program);
                Ok(())
            },
            Err(error) => Err(error),
        }
    }

    /// The answer of a step that fails.
    fn fail(&self, kind: ErrorKind, message: &str, line: usize) -> (answer: Result<Action, Error>)
        ensures
            answer_view(answer) == self@.fail(kind, message@, line).result,
    {
        Err(Error::new(kind, message, line))
    }

    /// Whether the pointer stands at an operation of this kind and line.
    spec fn stands_at(&self, kind: OperationType, line: usize) -> bool {
        &&& self.pointer < self.program.len()
        &&& self.program[self.pointer as int].op_type == kind
        &&& self.program[self.pointer as int].line == line
    }

    /// The model of the operation at the pointer.
    spec fn current(&self) -> OperationView {
        self@.program[self.pointer as int]
    }

    /// What the model shows of the operation at the pointer and of the stack.
    proof fn lemma_current(&self)
        requires
            self.pointer < self.program.len(),
        ensures
            self.current() == self.program[self.pointer as int]@,
            self@.stack.len() == self.stack.len(),
            self@.pending.len() == self.pending.len(),
            forall|i: int| 0 <= i < self.stack.len() ==> self@.stack[i] == (#[trigger] self.stack[i])@,
    {
    }

    /// A number, a string, `true` or `false`.
    fn literal(&mut self, kind: OperationType, line: usize) -> (answer: Result<Action, Error>)
        requires
            old(self).stands_at(kind, line),
            kind is Number || kind is String || kind is True || kind is False,
        ensures
            final(self)@ == literal_step(old(self)@, old(self).current()).state,
            answer_view(answer) == literal_step(old(self)@, old(self).current()).result,
    {
        proof {
            self.lemma_current();
        }
        match kind {
            OperationType::True => {
                push_object(&mut self.stack, Object::Boolean(Boolean::True));
                self.pointer = self.pointer + 1;
                Ok(Action::Continue)
            },
            OperationType::False => {
                push_object(&mut self.stack, Object::Boolean(Boolean::False));
                self.pointer = self.pointer + 1;
                Ok(Action::Continue)
            },
            OperationType::Number => {
                match &self.program[self.pointer].operand {
                    Some(Object::Number(number)) => {
                        let value = Object::Number(number.clone());
                        push_object(&mut self.stack, value);
                        self.pointer = self.pointer + 1;
                        Ok(Action::Continue)
                    },
                    Some(_) => self.fail(ErrorKind::InvalidType, type_text(OperationType::Number), line),
                    None => {
                        self.pointer = self.pointer + 1;
                        Ok(Action::Continue)
                    },
                }
            },
            _ => {
                match &self.program[self.pointer].operand {
                    Some(Object::String(text)) => {
                        let value = Object::String(text.clone());
                        push_object(&mut self.stack, value);
                        self.pointer = self.pointer + 1;
                        Ok(Action::Continue)
                    },
                    Some(_) => self.fail(ErrorKind::InvalidType, type_text(OperationType::String), line),
                    None => {
                        self.pointer = self.pointer + 1;
                        Ok(Action::Continue)
                    },
                }
            },
        }
    }

    /// A name: bound, read or called.
    fn identifier(&mut self, line: usize) -> (answer: Result<Action, Error>)
        requires
            old(self).stands_at(OperationType::Identifier, line),
        ensures
            final(self)@ == identifier_step(old(self)@, old(self).current()).state,
            answer_view(answer) == identifier_step(old(self)@, old(self).current()).result,
    {
        proof {
            self.lemma_current();
        }
        let name = match &self.program[self.pointer].operand {
            Some(Object::Identifier(name)) => name.clone(),
            _ => {
                self.pointer = self.pointer + 1;
                return Ok(Action::Continue);
            },
        };
        if self.pending.len() > 0 {
            let ghost before = self.variables@;
            let count = self.pending.len();
            let value = self.pending[count - 1].clone();
            pop_objects(&mut self.pending, 1);
            self.variables.insert(name, value);
            self.pointer = self.pointer + 1;
            assert(variables_view(self.variables@) =~= variables_view(before).insert(
                name@,
                value@,
            ));
            return Ok(Action::Continue);
        }
        match self.variables.get(name.as_str()) {
            None => {
                let mut message = String::from_str("variable '");
                message.append(name.as_str());
                message.append("' does not exist");
                Err(Error { kind: ErrorKind::UndefinedVariable, message, line })
            },
            Some(object) => match object {
                Object::Number(number) => {
                    let value = Object::Number(number.clone());
                    push_object(&mut self.stack, value);
                    self.pointer = self.pointer + 1;
                    Ok(Action::Continue)
                },
                Object::String(text) => {
                    let value = Object::String(text.clone());
                    push_object(&mut self.stack, value);
                    self.pointer = self.pointer + 1;
                    Ok(Action::Continue)
                },
                Object::Boolean(boolean) => {
                    let value = Object::Boolean(*boolean);
                    push_object(&mut self.stack, value);
                    self.pointer = self.pointer + 1;
                    Ok(Action::Continue)
                },
                Object::Function(function) => {
                    let target = function.opening_block.saturating_add(1);
                    let value = Object::Function(
                        Function::assign_called_from(function.opening_block, self.pointer + 1),
                    );
                    push_object(&mut self.stack, value);
                    self.pointer = target;
                    Ok(Action::Continue)
                },
                _ => self.fail(
                    ErrorKind::InvalidVariableType,
                    "can use only number, string, boolean or function ('[]')",
                    line,
                ),
            },
        }
    }

    /// A function marker: a definition opened or closed, or a return.
    fn function(&mut self, line: usize) -> (answer: Result<Action, Error>)
        requires
            old(self).stands_at(OperationType::Function, line),
        ensures
            final(self)@ == function_step(old(self)@, old(self).current()).state,
            answer_view(answer) == function_step(old(self)@, old(self).current()).result,
    {
        proof {
            self.lemma_current();
        }
        match &self.program[self.pointer].operand {
            Some(Object::Reference(target)) => {
                let target = *target;
                self.returns.push(self.pointer);
                self.pointer = target;
                Ok(Action::Continue)
            },
            Some(_) => self.fail(
                ErrorKind::InvalidReference,
                reference_text(OperationType::Function),
                line,
            ),
            None => {
                let open = self.returns.len();
                let depth = self.stack.len();
                if open > 0 {
                    let opening_block = self.returns[open - 1];
                    let _ = self.returns.pop();
                    push_object(&mut self.stack, Object::Function(Function::new(opening_block)));
                    self.pointer = self.pointer + 1;
                    Ok(Action::Continue)
                } else if depth < 1 {
                    self.fail(
                        ErrorKind::StackUnderflow,
                        underflow_text(OperationType::Function),
                        line,
                    )
                } else {
                    match &self.stack[depth - 1] {
                        Object::Function(function) => {
                            let target = function.called_from;
                            pop_objects(&mut self.stack, 1);
                            self.pointer = target;
                            Ok(Action::Continue)
                        },
                        _ => self.fail(
                            ErrorKind::InvalidReference,
                            missing_reference_text(OperationType::Function),
                            line,
                        ),
                    }
                }
            },
        }
    }

    /// `@`: the top of the stack waits for a name.
    fn assignment(&mut self, line: usize) -> (answer: Result<Action, Error>)
        requires
            old(self).stands_at(OperationType::Assignment, line),
        ensures
            final(self)@ == assignment_step(old(self)@, old(self).current()).state,
            answer_view(answer) == assignment_step(old(self)@, old(self).current()).result,
    {
        proof {
            self.lemma_current();
        }
        let depth = self.stack.len();
        if depth < 1 {
            return self.fail(
                ErrorKind::StackUnderflow,
                underflow_text(OperationType::Assignment),
                line,
            );
        }
        let value = self.stack[depth - 1].clone();
        pop_objects(&mut self.stack, 1);
        push_object(&mut self.pending, value);
        self.pointer = self.pointer + 1;
        Ok(Action::Continue)
    }

    /// `+ - * / % > <`: the host computes.
    fn numeric(&mut self, kind: OperationType, line: usize, event: Event) -> (answer: Result<
        Action,
        Error,
    >)
        requires
            old(self).stands_at(kind, line),
            kind is Plus || kind is Minus || kind is Multiplication || kind is Division
                || kind is Modulus || kind is Greater || kind is Less,
        ensures
            final(self)@ == numeric_step(old(self)@, old(self).current(), event@).state,
            answer_view(answer) == numeric_step(old(self)@, old(self).current(), event@).result,
    {
        proof {
            self.lemma_current();
        }
        let depth = self.stack.len();
        if depth < 2 {
            return self.fail(ErrorKind::StackUnderflow, underflow_text(kind), line);
        }
        match (&self.stack[depth - 2], &self.stack[depth - 1]) {
            (Object::Number(left), Object::Number(right)) => {
                let comparison = match kind {
                    OperationType::Greater | OperationType::Less => true,
                    _ => false,
                };
                let result = match event {
                    Event::Truth(truth) => if comparison {
                        Some(truth_object(truth))
                    } else {
                        None
                    },
                    Event::Number(number) => if comparison {
                        None
                    } else {
                        Some(Object::Number(number))
                    },
                    _ => None,
                };
                match result {
                    Some(value) => {
                        pop_objects(&mut self.stack, 2);
                        push_object(&mut self.stack, value);
                        self.pointer = self.pointer + 1;
                        Ok(Action::Continue)
                    },
                    None => Ok(
                        Action::Ask(
                            Request::Compute { op: kind, left: left.clone(), right: right.clone() },
                        ),
                    ),
                }
            },
            _ => self.fail(ErrorKind::InvalidType, type_text(kind), line),
        }
    }

    /// `=`: the host compares two numbers; any other two values are compared
    /// here.
    fn equal(&mut self, line: usize, event: Event) -> (answer: Result<Action, Error>)
        requires
            old(self).stands_at(OperationType::Equal, line),
        ensures
            final(self)@ == equal_step(old(self)@, old(self).current(), event@).state,
            answer_view(answer) == equal_step(old(self)@, old(self).current(), event@).result,
    {
        proof {
            self.lemma_current();
        }
        let depth = self.stack.len();
        if depth < 2 {
            return self.fail(
                ErrorKind::StackUnderflow,
                underflow_text(OperationType::Equal),
                line,
            );
        }
        match (&self.stack[depth - 2], &self.stack[depth - 1]) {
            (Object::Number(left), Object::Number(right)) => match event {
                Event::Truth(truth) => {
                    pop_objects(&mut self.stack, 2);
                    push_object(&mut self.stack, truth_object(truth));
                    self.pointer = self.pointer + 1;
                    Ok(Action::Continue)
                },
                _ => Ok(
                    Action::Ask(
                        Request::Compute {
                            op: OperationType::Equal,
                            left: left.clone(),
                            right: right.clone(),
                        },
                    ),
                ),
            },
            (first, second) => {
                let value = truth_object(first.same(second));
                pop_objects(&mut self.stack, 2);
                push_object(&mut self.stack, value);
                self.pointer = self.pointer + 1;
                Ok(Action::Continue)
            },
        }
    }

    /// `!`.
    fn not(&mut self, line: usize) -> (answer: Result<Action, Error>)
        requires
            old(self).stands_at(OperationType::Not, line),
        ensures
            final(self)@ == not_step(old(self)@, old(self).current()).state,
            answer_view(answer) == not_step(old(self)@, old(self).current()).result,
    {
        proof {
            self.lemma_current();
        }
        let depth = self.stack.len();
        if depth < 1 {
            return self.fail(ErrorKind::StackUnderflow, underflow_text(OperationType::Not), line);
        }
        match &self.stack[depth - 1] {
            Object::Boolean(boolean) => {
                let value = truth_object(
                    match boolean {
                        Boolean::True => false,
                        Boolean::False => true,
                    },
                );
                pop_objects(&mut self.stack, 1);
                push_object(&mut self.stack, value);
                self.pointer = self.pointer + 1;
                Ok(Action::Continue)
            },
            _ => self.fail(ErrorKind::InvalidType, type_text(OperationType::Not), line),
        }
    }

    /// `&` and `|`.
    fn logic(&mut self, kind: OperationType, line: usize) -> (answer: Result<Action, Error>)
        requires
            old(self).stands_at(kind, line),
            kind is And || kind is Or,
        ensures
            final(self)@ == logic_step(old(self)@, old(self).current()).state,
            answer_view(answer) == logic_step(old(self)@, old(self).current()).result,
    {
        proof {
            self.lemma_current();
        }
        let depth = self.stack.len();
        if depth < 2 {
            return self.fail(ErrorKind::StackUnderflow, underflow_text(kind), line);
        }
        match (&self.stack[depth - 2], &self.stack[depth - 1]) {
            (Object::Boolean(first), Object::Boolean(second)) => {
                let first = match first {
                    Boolean::True => true,
                    Boolean::False => false,
                };
                let second = match second {
                    Boolean::True => true,
                    Boolean::False => false,
                };
                let value = truth_object(
                    match kind {
                        OperationType::And => first && second,
                        _ => first || second,
                    },
                );
                pop_objects(&mut self.stack, 2);
                push_object(&mut self.stack, value);
                self.pointer = self.pointer + 1;
                Ok(Action::Continue)
            },
            _ => self.fail(ErrorKind::InvalidType, type_text(kind), line),
        }
    }

    /// `then` and `do`.
    fn branch(&mut self, kind: OperationType, line: usize) -> (answer: Result<Action, Error>)
        requires
            old(self).stands_at(kind, line),
            kind is Then || kind is Do,
        ensures
            final(self)@ == branch_step(old(self)@, old(self).current()).state,
            answer_view(answer) == branch_step(old(self)@, old(self).current()).result,
    {
        proof {
            self.lemma_current();
        }
        let depth = self.stack.len();
        if depth < 1 {
            return self.fail(ErrorKind::StackUnderflow, underflow_text(kind), line);
        }
        match &self.stack[depth - 1] {
            Object::Boolean(boolean) => match &self.program[self.pointer].operand {
                Some(Object::Reference(target)) => {
                    let next = match boolean {
                        Boolean::False => *target,
                        Boolean::True => self.pointer + 1,
                    };
                    pop_objects(&mut self.stack, 1);
                    self.pointer = next;
                    Ok(Action::Continue)
                },
                Some(_) => self.fail(ErrorKind::InvalidReference, reference_text(kind), line),
                None => self.fail(
                    ErrorKind::InvalidReference,
                    missing_reference_text(kind),
                    line,
                ),
            },
            _ => self.fail(ErrorKind::InvalidType, type_text(kind), line),
        }
    }

    /// `else`.
    fn otherwise(&mut self, line: usize) -> (answer: Result<Action, Error>)
        requires
            old(self).stands_at(OperationType::Else, line),
        ensures
            final(self)@ == else_step(old(self)@, old(self).current()).state,
            answer_view(answer) == else_step(old(self)@, old(self).current()).result,
    {
        proof {
            self.lemma_current();
        }
        match &self.program[self.pointer].operand {
            Some(Object::Reference(target)) => {
                self.pointer = *target;
                Ok(Action::Continue)
            },
            Some(_) => self.fail(
                ErrorKind::InvalidReference,
                reference_text(OperationType::Else),
                line,
            ),
            None => self.fail(
                ErrorKind::InvalidReference,
                missing_reference_text(OperationType::Else),
                line,
            ),
        }
    }

    /// `end`.
    fn end(&mut self, line: usize) -> (answer: Result<Action, Error>)
        requires
            old(self).stands_at(OperationType::End, line),
        ensures
            final(self)@ == end_step(old(self)@, old(self).current()).state,
            answer_view(answer) == end_step(old(self)@, old(self).current()).result,
    {
        proof {
            self.lemma_current();
        }
        match &self.program[self.pointer].operand {
            Some(Object::Reference(target)) => {
                self.pointer = *target;
                Ok(Action::Continue)
            },
            Some(_) => self.fail(ErrorKind::InvalidType, type_text(OperationType::End), line),
            None => {
                self.pointer = self.pointer + 1;
                Ok(Action::Continue)
            },
        }
    }

    /// `read`: the host reads.
    fn read(&mut self, event: Event) -> (answer: Result<Action, Error>)
        requires
            old(self).pointer < old(self).program.len(),
        ensures
            final(self)@ == read_step(old(self)@, event@).state,
            answer_view(answer) == read_step(old(self)@, event@).result,
    {
        match event {
            Event::Line { text } => {
                let line = trim(text.as_str());
                let value = if reads_number(line.as_str()) {
                    Object::Number(Number::Numeral(line))
                } else {
                    Object::String(line)
                };
                push_object(&mut self.stack, value);
                self.pointer = self.pointer + 1;
                Ok(Action::Continue)
            },
            _ => Ok(Action::Ask(Request::Line)),
        }
    }

    /// `write` and `writeln`: the host writes.
    fn write(&mut self, kind: OperationType, line: usize) -> (answer: Result<Action, Error>)
        requires
            old(self).stands_at(kind, line),
            kind is Write || kind is Writeln,
        ensures
            final(self)@ == write_step(old(self)@, old(self).current()).state,
            answer_view(answer) == write_step(old(self)@, old(self).current()).result,
    {
        proof {
            self.lemma_current();
        }
        let newline = match kind {
            OperationType::Writeln => true,
            _ => false,
        };
        let depth = self.stack.len();
        if depth < 1 {
            return self.fail(ErrorKind::StackUnderflow, underflow_text(kind), line);
        }
        let action = match &self.stack[depth - 1] {
            Object::String(text) => Action::Print { text: text.clone(), newline },
            Object::Boolean(boolean) => Action::Print {
                text: match boolean {
                    Boolean::True => String::from_str("true"),
                    Boolean::False => String::from_str("false"),
                },
                newline,
            },
            Object::Number(number) => Action::PrintNumber { number: number.clone(), newline },
            _ => {
                return self.fail(ErrorKind::InvalidType, type_text(kind), line);
            },
        };
        pop_objects(&mut self.stack, 1);
        self.pointer = self.pointer + 1;
        Ok(action)
    }

    /// Executes the operation at the pointer.
    ///
    /// The answer says what the host is to do before the next step. Where
    /// the operation needs something that only the host can provide (the
    /// result of a computation on numbers, a line of input) and `event` does
    /// not bring it, the step changes nothing and asks for it; the host then
    /// repeats the step with the result as its event. A step that fails
    /// changes nothing.
    pub fn step(&mut self, event: Event) -> (answer: Result<Action, Error>)
        ensures
            final(self)@ == step(old(self)@, event@).state,
            answer_view(answer) == step(old(self)@, event@).result,
            final(self)@.program == old(self)@.program,
            answer is Err ==> final(self)@ == old(self)@,
            (answer matches Ok(Action::Ask(_))) ==> final(self)@ == old(self)@,
    {
        proof {
            lemma_step_keeps(self@, event@);
        }
        if self.pointer >= self.program.len() {
            return Ok(Action::Halt);
        }
        proof {
            self.lemma_current();
        }
        let kind = self.program[self.pointer].op_type;
        let line = self.program[self.pointer].line;
        match kind {
            OperationType::Identifier => self.identifier(line),
            OperationType::Number
            | OperationType::String
            | OperationType::True
            | OperationType::False => self.literal(kind, line),
            OperationType::Function => self.function(line),
            OperationType::Assignment => self.assignment(line),
            OperationType::Plus
            | OperationType::Minus
            | OperationType::Multiplication
            | OperationType::Division
            | OperationType::Modulus
            | OperationType::Greater
            | OperationType::Less => self.numeric(kind, line, event),
            OperationType::Equal => self.equal(line, event),
            OperationType::Not => self.not(line),
            OperationType::And | OperationType::Or => self.logic(kind, line),
            OperationType::If | OperationType::While => {
                self.pointer = self.pointer + 1;
                Ok(Action::Continue)
            },
            OperationType::Then | OperationType::Do => self.branch(kind, line),
            OperationType::Else => self.otherwise(line),
            OperationType::End => self.end(line),
            OperationType::Read => self.read(event),
            OperationType::Write | OperationType::Writeln => self.write(kind, line),
        }
    }
}

} // verus!
