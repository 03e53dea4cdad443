use stuck::object::{Boolean, Function, Number, Object};
use stuck::operation::{Operation, OperationType};

#[test]
fn a_new_function_returns_nowhere_yet() {
    let function = Function::new(12);
    assert_eq!(function.opening_block, 12);
    assert_eq!(function.called_from, 0);
}

#[test]
fn a_called_function_knows_where_to_return() {
    let function = Function::assign_called_from(12, 40);
    assert_eq!(function.opening_block, 12);
    assert_eq!(function.called_from, 40);
    assert_ne!(function, Function::new(12));
}

#[test]
fn an_operation_holds_what_it_was_made_with() {
    let operation = Operation::new(OperationType::String, Some(Object::String("s".to_string())), 3);
    assert_eq!(operation.op_type, OperationType::String);
    assert_eq!(operation.operand, Some(Object::String("s".to_string())));
    assert_eq!(operation.line, 3);
    assert_eq!(operation.clone(), operation);
}

#[test]
fn same_values_are_the_same() {
    let values = [
        Object::Identifier("a".to_string()),
        Object::String("a".to_string()),
        Object::String("b".to_string()),
        Object::Number(Number::Numeral("1".to_string())),
        Object::Number(Number::Bits(1)),
        Object::Number(Number::Bits(2)),
        Object::Boolean(Boolean::True),
        Object::Boolean(Boolean::False),
        Object::Function(Function::new(1)),
        Object::Function(Function::assign_called_from(1, 2)),
        Object::Reference(1),
        Object::Reference(2),
    ];
    for (i, left) in values.iter().enumerate() {
        for (j, right) in values.iter().enumerate() {
            assert_eq!(left.same(right), i == j);
        }
        assert!(left.same(&left.clone()));
    }
}

#[test]
fn kinds_have_names() {
    assert_eq!(OperationType::While.to_name(), "While");
    assert_eq!(OperationType::Multiplication.to_name(), "Multiplication");
    assert_eq!(OperationType::Writeln.to_name(), "Writeln");
}
