use text_wrench::operations::text_operations::{
    add_operation, find_operation, Operation, TextOperation, TextOperations,
};
use text_wrench::operations::hex::OperationToHex;
use text_wrench::operations::none::OperationNone;
use text_wrench::operations::text::OperationUpperCase;

#[test]
fn it_returns_registered_oprations() {
    let text_operations = TextOperations::get_instance();
    let operations = text_operations.get_operations();

    assert_eq!(operations.len(), 10);
}

#[test]
fn it_finds_requested_operation() {
    let text_operations = TextOperations::get_instance();
    let operations = text_operations.get_operations();
    let operation = text_operations.get_operation(operations[0]);
    assert_eq!(operation.is_some(), true);
}

#[test]
fn it_returns_none_for_unknown_operation() {
    let text_operations = TextOperations::get_instance();
    let operation = text_operations.get_operation("some unknown operation type");
    assert_eq!(operation.is_some(), false);
}

#[test]
fn it_provides_an_operation_with_no_transformation() {
    let text_operations = TextOperations::get_instance();
    let operation = text_operations.get_noop();
    let result = operation.convert("abc");
    assert_eq!(result.unwrap().text_value.unwrap(), "abc");
}

#[test]
fn listed_identifiers_are_distinct_and_resolve_to_themselves() {
    let text_operations = TextOperations::new();
    let ids = text_operations.get_operations();
    assert_eq!(
        ids,
        vec![
            "TO_BASE64",
            "TO_URL_BASE64",
            "FROM_BASE64",
            "URL_ENCODE",
            "URL_DECODE",
            "UPPER_CASE",
            "LOWER_CASE",
            "FROM_HEX",
            "TO_HEX",
            "TO_LONG_HEX"
        ]
    );
    for (i, id) in ids.iter().enumerate() {
        for other in &ids[i + 1..] {
            assert_ne!(id, other);
        }
        assert_ne!(*id, "NONE");
        assert_eq!(text_operations.get_operation(id).unwrap().get_id(), *id);
        assert_eq!(text_operations.get_operation_or_noop(id).get_id(), *id);
    }
}

#[test]
fn the_noop_is_registered_and_changes_nothing() {
    let text_operations = TextOperations::new();
    let noop = text_operations.get_noop();
    assert_eq!(noop.get_id(), "NONE");
    assert_eq!(noop.get_name(), "None");
    assert_eq!(text_operations.get_operation("NONE").unwrap().get_id(), "NONE");
    for text in ["", " ", "abc", "\u{1f47e}\n"] {
        assert_eq!(noop.convert(text).unwrap().text_value.unwrap(), text);
    }
    assert_eq!((OperationNone {}).convert("x y").unwrap().text_value.unwrap(), "x y");
}

#[test]
fn an_unknown_identifier_falls_back_to_the_noop() {
    let text_operations = TextOperations::new();
    for id in ["", "none", "TO_HEX ", "some unknown operation type"] {
        assert!(text_operations.get_operation(id).is_none());
        let operation = text_operations.get_operation_or_noop(id);
        assert_eq!(operation.get_id(), "NONE");
        assert_eq!(operation.convert("abc").unwrap().text_value.unwrap(), "abc");
    }
}

#[test]
fn a_registered_operation_converts_as_the_one_it_holds() {
    let text_operations = TextOperations::new();
    let operation = text_operations.get_operation("TO_LONG_HEX").unwrap();
    assert_eq!(operation.get_name(), "UTF-8 to Hexadecimal Long");
    assert_eq!(operation.convert("AB").unwrap().text_value.unwrap(), "0x41 0x42");
    let bytes = vec![0x61u8];
    let upper = text_operations.get_operation("UPPER_CASE").unwrap();
    assert_eq!(upper.convert_bytes(&bytes).unwrap().text_value.unwrap(), "A");
    assert_eq!(upper.get_inverse(), None);
}

#[test]
fn add_operation_replaces_an_operation_of_the_same_identifier() {
    let mut set: Vec<Operation> = Vec::new();
    add_operation(Operation::ToHex(OperationToHex {}), &mut set);
    add_operation(Operation::UpperCase(OperationUpperCase {}), &mut set);
    assert_eq!(set.len(), 2);
    add_operation(Operation::ToHex(OperationToHex {}), &mut set);
    assert_eq!(set.len(), 2);
    assert_eq!(set[0].get_id(), "TO_HEX");
    assert_eq!(set[1].get_id(), "UPPER_CASE");
    assert_eq!(find_operation(&set, "UPPER_CASE"), Some(1));
    assert_eq!(find_operation(&set, "LOWER_CASE"), None);
}
