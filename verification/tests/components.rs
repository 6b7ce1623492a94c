use std::collections::VecDeque;

use coro_vm::byte_code::{ByteCode, VmError};
use coro_vm::coroutine::Coroutine;
use coro_vm::store::Store;

#[test]
fn spawn_pops_two_addresses_and_appends_two_contexts() {
    let mut stack: VecDeque<i128> = VecDeque::new();
    stack.push_back(23);
    stack.push_back(27);
    let mut coroutines: Vec<Coroutine> = Vec::new();
    assert_eq!(ByteCode::spawn(&mut stack, &mut coroutines), Ok(()));
    assert_eq!(coroutines.len(), 2);
    assert_eq!(coroutines[0].address_current_instruction, 23);
    assert_eq!(coroutines[1].address_current_instruction, 27);
    assert!(coroutines[0].stack.is_empty());
    assert!(coroutines[1].stack.is_empty());
    assert!(stack.is_empty());
}

#[test]
fn spawn_underflows_on_a_single_operand() {
    let mut stack: VecDeque<i128> = VecDeque::new();
    stack.push_back(23);
    let mut coroutines: Vec<Coroutine> = Vec::new();
    assert_eq!(ByteCode::spawn(&mut stack, &mut coroutines), Err(VmError::StackUnderflow));
    assert_eq!(coroutines.len(), 0);
    assert_eq!(stack.len(), 1);
}

#[test]
fn load_val_pushes_on_top() {
    let mut stack: VecDeque<i128> = VecDeque::new();
    ByteCode::load_val(&mut stack, 3);
    ByteCode::load_val(&mut stack, 4);
    assert_eq!(stack, VecDeque::from(vec![3, 4]));
}

#[test]
fn minus_pops_the_subtrahend_last_pushed() {
    let mut stack: VecDeque<i128> = VecDeque::new();
    stack.push_back(10);
    stack.push_back(3);
    assert_eq!(ByteCode::minus(&mut stack), Ok(()));
    assert_eq!(stack, VecDeque::from(vec![7]));
}

#[test]
fn division_rejects_zero_and_leaves_the_stack_as_it_was() {
    let mut stack: VecDeque<i128> = VecDeque::new();
    stack.push_back(6);
    stack.push_back(0);
    assert_eq!(ByteCode::division(&mut stack), Err(VmError::DivisionByZero));
    assert_eq!(stack, VecDeque::from(vec![6, 0]));
}

#[test]
fn lift_binary_operation_applies_to_the_two_top_values() {
    let mut stack: VecDeque<i128> = VecDeque::new();
    stack.push_back(9);
    stack.push_back(5);
    stack.push_back(2);
    assert_eq!(ByteCode::lift_binary_operation(&mut stack, |a, b| a * 10 + b), Ok(()));
    assert_eq!(stack, VecDeque::from(vec![9, 52]));
}

#[test]
fn store_insert_get_and_overwrite() {
    let mut store = Store::new();
    assert_eq!(store.get(&"x".to_string()), None);
    assert!(!store.contains_key(&"x".to_string()));
    store.insert("x".to_string(), 5);
    assert_eq!(store.get(&"x".to_string()), Some(5));
    assert!(store.contains_key(&"x".to_string()));
    store.insert("x".to_string(), -9);
    assert_eq!(store.get(&"x".to_string()), Some(-9));
    store.insert("y".to_string(), 1);
    assert_eq!(store.get(&"x".to_string()), Some(-9));
    assert_eq!(store.get(&"y".to_string()), Some(1));
}

#[test]
fn store_remove_drops_only_the_named_binding() {
    let mut store = Store::new();
    store.insert("x".to_string(), 5);
    store.insert("y".to_string(), 6);
    store.remove(&"x".to_string());
    assert_eq!(store.get(&"x".to_string()), None);
    assert_eq!(store.get(&"y".to_string()), Some(6));
    store.remove(&"never".to_string());
    assert_eq!(store.get(&"y".to_string()), Some(6));
}

#[test]
fn coroutine_starts_at_the_given_address_with_an_empty_stack() {
    let coroutine = Coroutine::new(7);
    assert_eq!(coroutine.address_current_instruction, 7);
    assert!(coroutine.stack.is_empty());
}

#[test]
fn counter_advance_increments_jumps_and_holds_when_blocked() {
    let mut coroutine = Coroutine::new(3);
    coroutine.increment_address_current_instruction(&ByteCode::Add, false);
    assert_eq!(coroutine.address_current_instruction, 4);
    coroutine.increment_address_current_instruction(
        &ByteCode::Jump { address_instruction: 11 },
        false,
    );
    assert_eq!(coroutine.address_current_instruction, 11);
    coroutine.increment_address_current_instruction(&ByteCode::Add, true);
    assert_eq!(coroutine.address_current_instruction, 11);
}
