use std::cell::RefCell;

use value_stack::indexing::{CollectionLength, Index};
use value_stack::stack::{describe_values, CloneMode, LogLevel, Stack, StackError};

#[derive(Debug, Clone)]
enum Op {
    Stack(Stack<Op>),
    MaxChars(usize),
}

#[derive(Debug, PartialEq)]
enum HostError {
    Stack(Box<StackError<HostError>>),
    TooLong,
}

/// The driver that nested operation lists re-enter.
fn host(ops: &Vec<Op>, input: Vec<String>) -> Result<Vec<String>, HostError> {
    let mut values = input;
    for op in ops {
        values = match op {
            Op::Stack(s) => s.process(values, &host, &quiet).map_err(|e| HostError::Stack(Box::new(e)))?,
            Op::MaxChars(n) => {
                if values.iter().all(|v| v.chars().count() <= *n) {
                    values
                } else {
                    return Err(HostError::TooLong);
                }
            }
        };
    }
    Ok(values)
}

fn quiet(_level: LogLevel, _message: String) {}

fn strs(v: &[&str]) -> Vec<String> {
    v.iter().map(|s| s.to_string()).collect()
}

fn run(op: Stack<Op>, input: &[&str]) -> Result<Vec<String>, StackError<HostError>> {
    op.process(strs(input), &host, &quiet)
}

#[test]
fn empty_input_fails_for_every_operation() {
    let ops: Vec<Stack<Op>> = vec![
        Stack::Length { min: 0, max: 10 },
        Stack::Join(",".to_string()),
        Stack::Reverse,
        Stack::Take { head: Some(1), tail: None },
        Stack::Drop { head: None, tail: None },
        Stack::Swap { from: 0, to: 0 },
        Stack::Indexes(vec![]),
        Stack::FlatMap(vec![]),
        Stack::Select(vec![]),
        Stack::Cloned { result: CloneMode::AppendResult, ops: vec![] },
        Stack::Values { level: LogLevel::Info, id: None },
    ];
    for op in ops {
        assert_eq!(run(op, &[]), Err(StackError::NoValuesError));
    }
}

#[test]
fn join_gives_one_value() {
    assert_eq!(run(Stack::Join("-".to_string()), &["a", "b", "c"]), Ok(strs(&["a-b-c"])));
    assert_eq!(run(Stack::Join(", ".to_string()), &["x"]), Ok(strs(&["x"])));
    assert_eq!(run(Stack::Join(String::new()), &["", ""]), Ok(strs(&[""])));
}

#[test]
fn empty_indexes_is_identity() {
    assert_eq!(run(Stack::Indexes(vec![]), &["a", "b", "c"]), Ok(strs(&["a", "b", "c"])));
}

#[test]
fn index_resolution_wraps_around() {
    let len = CollectionLength::new::<()>(5).unwrap();
    assert_eq!(len.index_into::<()>(Index::from(-1)), Ok(4));
    assert_eq!(len.index_into::<()>(Index::from(-5)), Ok(0));
    assert_eq!(len.index_into::<()>(Index::from(-6)), Ok(4));
    assert_eq!(len.index_into::<()>(Index::from(5)), Err(StackError::IndexOutOfBounds));
    assert_eq!(len.index_into::<()>(Index::from(0)), Ok(0));
    assert_eq!(len.index_into::<()>(Index::from(isize::MIN)), Ok(2));
}

#[test]
fn collection_length_rejects_negative() {
    assert_eq!(CollectionLength::new::<()>(-1), Err(StackError::IndexOutOfBounds));
    assert!(CollectionLength::new::<()>(0).is_ok());
    let empty = CollectionLength::from_len::<()>(0).unwrap();
    assert_eq!(empty.index_into::<()>(Index::from(0)), Err(StackError::IndexOutOfBounds));
    assert_eq!(empty.index_into::<()>(Index::from(-1)), Err(StackError::IndexOutOfBounds));
    assert_eq!(Index::from(-7).into_inner(), -7);
}

#[test]
fn indexes_select_in_order() {
    assert_eq!(
        run(Stack::Indexes(vec![-1, 0, -6, 0]), &["a", "b", "c", "d", "e"]),
        Ok(strs(&["e", "a", "e", "a"]))
    );
    assert_eq!(
        run(Stack::Indexes(vec![0, 5]), &["a", "b", "c", "d", "e"]),
        Err(StackError::IndexOutOfBounds)
    );
}

#[test]
fn swap_same_position_is_noop() {
    assert_eq!(run(Stack::Swap { from: 0, to: 0 }, &["a", "b", "c"]), Ok(strs(&["a", "b", "c"])));
    assert_eq!(run(Stack::Swap { from: 0, to: 0 }, &["only"]), Ok(strs(&["only"])));
}

#[test]
fn swap_exchanges_values() {
    assert_eq!(run(Stack::Swap { from: 0, to: -1 }, &["a", "b", "c"]), Ok(strs(&["c", "b", "a"])));
    assert_eq!(run(Stack::Swap { from: 1, to: -4 }, &["a", "b", "c"]), Ok(strs(&["a", "c", "b"])));
    assert_eq!(run(Stack::Swap { from: 0, to: 3 }, &["a", "b", "c"]), Err(StackError::IndexOutOfBounds));
    assert_eq!(run(Stack::Swap { from: 7, to: 7 }, &["a", "b", "c"]), Err(StackError::IndexOutOfBounds));
}

#[test]
fn take_head_and_tail() {
    let abcd = ["a", "b", "c", "d"];
    assert_eq!(run(Stack::Take { head: Some(2), tail: Some(1) }, &abcd), Ok(strs(&["a", "b", "d"])));
    assert_eq!(run(Stack::Take { head: Some(9), tail: None }, &abcd), Ok(strs(&["a", "b", "c", "d"])));
    assert_eq!(run(Stack::Take { head: None, tail: Some(2) }, &abcd), Ok(strs(&["c", "d"])));
    assert_eq!(
        run(Stack::Take { head: Some(3), tail: Some(3) }, &abcd),
        Ok(strs(&["a", "b", "c", "b", "c", "d"]))
    );
    assert_eq!(run(Stack::Take { head: None, tail: None }, &abcd), Err(StackError::OutputNoValuesError));
}

#[test]
fn drop_head_and_tail() {
    let abcd = ["a", "b", "c", "d"];
    assert_eq!(run(Stack::Drop { head: Some(1), tail: Some(1) }, &abcd), Ok(strs(&["b", "c"])));
    assert_eq!(run(Stack::Drop { head: None, tail: None }, &abcd), Ok(strs(&["a", "b", "c", "d"])));
    assert_eq!(run(Stack::Drop { head: Some(3), tail: None }, &abcd), Ok(strs(&["d"])));
    assert_eq!(run(Stack::Drop { head: Some(3), tail: Some(2) }, &abcd), Err(StackError::OutputNoValuesError));
    assert_eq!(run(Stack::Drop { head: Some(9), tail: None }, &abcd), Err(StackError::OutputNoValuesError));
}

#[test]
fn length_requirement() {
    assert_eq!(run(Stack::Length { min: 1, max: 2 }, &["a", "b"]), Ok(strs(&["a", "b"])));
    assert_eq!(run(Stack::Length { min: 3, max: 5 }, &["a", "b"]), Err(StackError::RequirementNotSatisfied));
    assert_eq!(run(Stack::Length { min: 0, max: 1 }, &["a", "b"]), Err(StackError::RequirementNotSatisfied));
}

#[test]
fn cloned_append_and_prepend() {
    let reverse = vec![Op::Stack(Stack::Reverse)];
    assert_eq!(
        run(Stack::Cloned { result: CloneMode::AppendResult, ops: reverse.clone() }, &["a", "b"]),
        Ok(strs(&["a", "b", "b", "a"]))
    );
    assert_eq!(
        run(Stack::Cloned { result: CloneMode::PrependResult, ops: reverse }, &["a", "b"]),
        Ok(strs(&["b", "a", "a", "b"]))
    );
    assert_eq!(CloneMode::default(), CloneMode::AppendResult);
}

#[test]
fn cloned_inner_failure_is_wrapped() {
    let ops = vec![Op::Stack(Stack::Length { min: 5, max: 5 })];
    assert_eq!(
        run(Stack::Cloned { result: CloneMode::AppendResult, ops }, &["a", "b"]),
        Err(StackError::InnerOperationError(Box::new(HostError::Stack(Box::new(
            StackError::RequirementNotSatisfied
        )))))
    );
}

#[test]
fn select_filters_without_aborting() {
    let single = vec![Op::Stack(Stack::Length { min: 1, max: 1 })];
    assert_eq!(run(Stack::Select(single), &["x", "yy"]), Ok(strs(&["x", "yy"])));
    let one_char = vec![Op::MaxChars(1)];
    assert_eq!(run(Stack::Select(one_char.clone()), &["x", "yy", "z"]), Ok(strs(&["x", "z"])));
    assert_eq!(run(Stack::Select(one_char), &["yy", "ww"]), Err(StackError::OutputNoValuesError));
}

#[test]
fn flat_map_concatenates_in_order() {
    let dup = vec![Op::Stack(Stack::Cloned { result: CloneMode::AppendResult, ops: vec![] })];
    assert_eq!(run(Stack::FlatMap(dup), &["a", "b"]), Ok(strs(&["a", "a", "b", "b"])));
    let one_char = vec![Op::MaxChars(1)];
    assert_eq!(
        run(Stack::FlatMap(one_char), &["x", "yy", "zzz"]),
        Err(StackError::InnerOperationError(Box::new(HostError::TooLong)))
    );
}

#[test]
fn reverse_twice_round_trips() {
    let once = run(Stack::Reverse, &["a", "b", "c"]).unwrap();
    assert_eq!(once, strs(&["c", "b", "a"]));
    let twice = Stack::<Op>::Reverse.process(once, &host, &quiet).unwrap();
    assert_eq!(twice, strs(&["a", "b", "c"]));
}

#[test]
fn values_logs_and_passes_through() {
    let logs: RefCell<Vec<(LogLevel, String)>> = RefCell::new(Vec::new());
    let sink = |level: LogLevel, message: String| logs.borrow_mut().push((level, message));
    let op: Stack<Op> = Stack::Values { level: LogLevel::Warn, id: Some("keys".to_string()) };
    assert_eq!(op.process(strs(&["a", "b"]), &host, &sink), Ok(strs(&["a", "b"])));
    let logs = logs.borrow();
    assert_eq!(logs.len(), 1);
    assert_eq!(logs[0], (LogLevel::Warn, "values at keys: \"a\", \"b\"".to_string()));
}

#[test]
fn describe_values_without_id() {
    assert_eq!(describe_values(&None, &strs(&["a"])), "values at (): \"a\"");
    assert_eq!(describe_values(&Some("t".to_string()), &strs(&["a", "b", "c"])), "values at t: \"a\", \"b\", \"c\"");
}
