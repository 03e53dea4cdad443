use vstd::prelude::*;
use crate::object::{Object, ObjectView};

verus! {

/// What an operation does.
#[derive(Debug, Clone, Copy, PartialEq, Eq, Structural)]
pub enum OperationType {
    Identifier,
    Number,
    String,
    True,
    False,
    Function,
    Assignment,
    Plus,
    Minus,
    Multiplication,
    Division,
    Modulus,
    Equal,
    Greater,
    Less,
    Not,
    And,
    Or,
    If,
    Then,
    Else,
    While,
    Do,
    End,
    Read,
    Write,
    Writeln,
}

impl OperationType {
    /// Whether the kind is one of the six markers that delimit blocks.
    pub open spec fn is_marker(self) -> bool {
        self is If || self is Then || self is Else || self is While || self is Do || self is End
    }

    /// The name of the kind, as it is written in messages.
    pub open spec fn name(self) -> Seq<char> {
        match self {
            OperationType::Identifier => "Identifier"@,
            OperationType::Number => "Number"@,
            OperationType::String => "String"@,
            OperationType::True => "True"@,
            OperationType::False => "False"@,
            OperationType::Function => "Function"@,
            OperationType::Assignment => "Assignment"@,
            OperationType::Plus => "Plus"@,
            OperationType::Minus => "Minus"@,
            OperationType::Multiplication => "Multiplication"@,
            OperationType::Division => "Division"@,
            OperationType::Modulus => "Modulus"@,
            OperationType::Equal => "Equal"@,
            OperationType::Greater => "Greater"@,
            OperationType::Less => "Less"@,
            OperationType::Not => "Not"@,
            OperationType::And => "And"@,
            OperationType::Or => "Or"@,
            OperationType::If => "If"@,
            OperationType::Then => "Then"@,
            OperationType::Else => "Else"@,
            OperationType::While => "While"@,
            OperationType::Do => "Do"@,
            OperationType::End => "End"@,
            OperationType::Read => "Read"@,
            OperationType::Write => "Write"@,
            OperationType::Writeln => "Writeln"@,
        }
    }

    /// The name of the kind as a string.
    pub fn to_name(&self) -> (name: String)
        ensures
            name@ == self.name(),
    {
        match self {
            OperationType::Identifier => String::from_str("Identifier"),
            OperationType::Number => String::from_str("Number"),
            OperationType::String => String::from_str("String"),
            OperationType::True => String::from_str("True"),
            OperationType::False => String::from_str("False"),
            OperationType::Function => String::from_str("Function"),
            OperationType::Assignment => String::from_str("Assignment"),
            OperationType::Plus => String::from_str("Plus"),
            OperationType::Minus => String::from_str("Minus"),
            OperationType::Multiplication => String::from_str("Multiplication"),
            OperationType::Division => String::from_str("Division"),
            OperationType::Modulus => String::from_str("Modulus"),
            OperationType::Equal => String::from_str("Equal"),
            OperationType::Greater => String::from_str("Greater"),
            OperationType::Less => String::from_str("Less"),
            OperationType::Not => String::from_str("Not"),
            OperationType::And => String::from_str("And"),
            OperationType::Or => String::from_str("Or"),
            OperationType::If => String::from_str("If"),
            OperationType::Then => String::from_str("Then"),
            OperationType::Else => String::from_str("Else"),
            OperationType::While => String::from_str("While"),
            OperationType::Do => String::from_str("Do"),
            OperationType::End => String::from_str("End"),
            OperationType::Read => String::from_str("Read"),
            OperationType::Write => String::from_str("Write"),
            OperationType::Writeln => String::from_str("Writeln"),
        }
    }
}

/// One instruction of a program: what it does, the value it carries, and the
/// line of the source text it came from.
#[derive(Debug, PartialEq)]
pub struct Operation {
    pub op_type: OperationType,
    pub operand: Option<Object>,
    pub line: usize,
}

/// The mathematical model of an [`Operation`].
pub ghost struct OperationView {
    pub op_type: OperationType,
    pub operand: Option<ObjectView>,
    pub line: usize,
}

impl OperationView {
    /// The same operation with another operand.
    pub open spec fn with_operand(self, operand: ObjectView) -> OperationView {
        OperationView { op_type: self.op_type, operand: Some(operand), line: self.line }
    }
}

impl View for Operation {
    type V = OperationView;

    open spec fn view(&self) -> OperationView {
        OperationView {
            op_type: self.op_type,
            operand: match self.operand {
                Some(object) => Some(object@),
                None => None,
            },
            line: self.line,
        }
    }
}

impl Clone for Operation {
    fn clone(&self) -> (copy: Self)
        ensures
            copy@ == self@,
    {
        let operand = match &self.operand {
            Some(object) => Some(object.clone()),
            None => None,
        };
        Operation { op_type: self.op_type, operand, line: self.line }
    }
}

impl Operation {
    /// An operation of the given kind, operand and line.
    pub fn new(op_type: OperationType, operand: Option<Object>, line: usize) -> (operation: Self)
        ensures
            operation == (Operation { op_type, operand, line }),
    {
        Self { op_type, operand, line }
    }
}

/// The models of the operations of a program, in order.
pub open spec fn program_view(program: Seq<Operation>) -> Seq<OperationView> {
    program.map_values(|operation: Operation| operation@)
}

} // verus!
