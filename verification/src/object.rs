use vstd::prelude::*;

verus! {

/// A truth value of the language.
#[derive(Debug, Clone, Copy, PartialEq, Eq, Structural)]
pub enum Boolean {
    True,
    False,
}

/// A first-class function: the index of the marker that opens its body and
/// the index at which execution resumes once the body has run.
#[derive(Debug, Clone, Copy, PartialEq, Eq, Structural)]
pub struct Function {
    pub opening_block: usize,
    pub called_from: usize,
}

impl Function {
    /// A function that has been defined but is not being called: its return
    /// index is zero.
    pub fn new(opening_block: usize) -> (function: Self)
        ensures
            function == (Function { opening_block, called_from: 0 }),
    {
        Self { opening_block, called_from: 0 }
    }

    /// A function in the course of a call, which returns to `called_from`.
    pub fn assign_called_from(opening_block: usize, called_from: usize) -> (function: Self)
        ensures
            function == (Function { opening_block, called_from }),
    {
        Self { opening_block, called_from }
    }
}

/// A number of the language.
///
/// Numbers are double-precision values, and every computation on them is
/// done by the host that drives the interpreter. The library only carries
/// them: either as the text that stood for the number in the source or in
/// the input, or as the 64-bit encoding of a value that the host has
/// computed.
#[derive(Debug, PartialEq)]
pub enum Number {
    Numeral(String),
    Bits(u64),
}

/// The mathematical model of a [`Number`].
pub ghost enum NumberView {
    Numeral(Seq<char>),
    Bits(u64),
}

impl View for Number {
    type V = NumberView;

    open spec fn view(&self) -> NumberView {
        match self {
            Number::Numeral(text) => NumberView::Numeral(text@),
            Number::Bits(bits) => NumberView::Bits(*bits),
        }
    }
}

impl Clone for Number {
    fn clone(&self) -> (copy: Self)
        ensures
            copy@ == self@,
    {
        match self {
            Number::Numeral(text) => Number::Numeral(text.clone()),
            Number::Bits(bits) => Number::Bits(*bits),
        }
    }
}

/// A value of the language: what an operation carries as its operand, what
/// the value stack holds and what a variable is bound to.
#[derive(Debug, PartialEq)]
pub enum Object {
    Identifier(String),
    Number(Number),
    String(String),
    Boolean(Boolean),
    Function(Function),
    Reference(usize),
}

/// The mathematical model of an [`Object`].
pub ghost enum ObjectView {
    Identifier(Seq<char>),
    Number(NumberView),
    String(Seq<char>),
    Boolean(Boolean),
    Function(Function),
    Reference(usize),
}

impl View for Object {
    type V = ObjectView;

    open spec fn view(&self) -> ObjectView {
        match self {
            Object::Identifier(name) => ObjectView::Identifier(name@),
            Object::Number(number) => ObjectView::Number(number@),
            Object::String(text) => ObjectView::String(text@),
            Object::Boolean(boolean) => ObjectView::Boolean(*boolean),
            Object::Function(function) => ObjectView::Function(*function),
            Object::Reference(index) => ObjectView::Reference(*index),
        }
    }
}

impl Clone for Object {
    fn clone(&self) -> (copy: Self)
        ensures
            copy@ == self@,
    {
        match self {
            Object::Identifier(name) => Object::Identifier(name.clone()),
            Object::Number(number) => Object::Number(number.clone()),
            Object::String(text) => Object::String(text.clone()),
            Object::Boolean(boolean) => Object::Boolean(*boolean),
            Object::Function(function) => Object::Function(*function),
            Object::Reference(index) => Object::Reference(*index),
        }
    }
}

impl Object {
    /// Whether two values are the same value: the same variant with the same
    /// content.
    pub fn same(&self, other: &Object) -> (equal: bool)
        ensures
            equal == (self@ == other@),
    {
        match (self, other) {
            (Object::Identifier(a), Object::Identifier(b)) => *a == *b,
            (Object::Number(Number::Numeral(a)), Object::Number(Number::Numeral(b))) => *a == *b,
            (Object::Number(Number::Bits(a)), Object::Number(Number::Bits(b))) => *a == *b,
            (Object::String(a), Object::String(b)) => *a == *b,
            (Object::Boolean(a), Object::Boolean(b)) => *a == *b,
            (Object::Function(a), Object::Function(b)) => *a == *b,
            (Object::Reference(a), Object::Reference(b)) => *a == *b,
            _ => false,
        }
    }
}

} // verus!
