use coro_vm::byte_code::{ByteCode, VmError};
use coro_vm::virtual_machine::VirtualMachine;

fn load(value: i128) -> ByteCode {
    ByteCode::LoadVal { value }
}

fn read(name: &str) -> ByteCode {
    ByteCode::ReadVar { name: name.to_string() }
}

fn write(name: &str) -> ByteCode {
    ByteCode::WriteVar { name: name.to_string() }
}

fn send(name: &str, value: i128) -> ByteCode {
    ByteCode::SendChannel { name: name.to_string(), value }
}

fn recv(name: &str) -> ByteCode {
    ByteCode::RecvChannel { name: name.to_string() }
}

#[test]
fn add_emits_seven_and_empties_the_stack() {
    let mut vm = VirtualMachine::new(vec![load(3), load(4), ByteCode::Add, ByteCode::PopLog]);
    assert_eq!(vm.run(100), Ok(true));
    assert_eq!(*vm.output(), vec![7]);
    assert_eq!(vm.live_coroutines(), 0);
}

#[test]
fn subtract_takes_the_later_push_from_the_earlier() {
    let mut vm = VirtualMachine::new(vec![load(10), load(3), ByteCode::Minus, ByteCode::PopLog]);
    assert_eq!(vm.run(100), Ok(true));
    assert_eq!(*vm.output(), vec![7]);
}

#[test]
fn multiply_emits_product() {
    let mut vm = VirtualMachine::new(vec![load(6), load(7), ByteCode::Multiply, ByteCode::PopLog]);
    assert_eq!(vm.run(100), Ok(true));
    assert_eq!(*vm.output(), vec![42]);
}

#[test]
fn division_truncates_toward_zero() {
    let mut vm = VirtualMachine::new(vec![load(-7), load(2), ByteCode::Division, ByteCode::PopLog]);
    assert_eq!(vm.run(100), Ok(true));
    assert_eq!(*vm.output(), vec![-3]);
}

#[test]
fn division_by_zero_is_fatal_and_emits_nothing() {
    let mut vm =
        VirtualMachine::new(vec![load(6), load(0), ByteCode::Division, ByteCode::PopLog]);
    assert_eq!(vm.run(100), Err(VmError::DivisionByZero));
    assert!(vm.output().is_empty());
}

#[test]
fn division_of_minimum_by_minus_one_wraps() {
    let mut vm =
        VirtualMachine::new(vec![load(i128::MIN), load(-1), ByteCode::Division, ByteCode::PopLog]);
    assert_eq!(vm.run(100), Ok(true));
    assert_eq!(*vm.output(), vec![i128::MIN]);
}

#[test]
fn add_wraps_at_the_maximum() {
    let mut vm =
        VirtualMachine::new(vec![load(i128::MAX), load(1), ByteCode::Add, ByteCode::PopLog]);
    assert_eq!(vm.run(100), Ok(true));
    assert_eq!(*vm.output(), vec![i128::MIN]);
}

#[test]
fn variable_round_trip_emits_what_was_written() {
    let mut vm = VirtualMachine::new(vec![load(5), write("x"), read("x"), ByteCode::PopLog]);
    assert_eq!(vm.run(100), Ok(true));
    assert_eq!(*vm.output(), vec![5]);
}

#[test]
fn reading_a_never_written_variable_is_fatal() {
    let mut vm = VirtualMachine::new(vec![load(1), write("x"), read("y"), ByteCode::PopLog]);
    assert_eq!(vm.run(100), Err(VmError::UndefinedVariable));
    assert!(vm.output().is_empty());
}

#[test]
fn popping_an_empty_stack_is_fatal() {
    let mut vm = VirtualMachine::new(vec![ByteCode::PopLog]);
    assert_eq!(vm.run(100), Err(VmError::StackUnderflow));
    assert!(vm.output().is_empty());
}

#[test]
fn jump_if_positive_skips_the_negative_path() {
    let mut vm = VirtualMachine::new(vec![
        load(1),
        ByteCode::JumpIfHeadStackTrue { address_instruction: 4 },
        load(-1),
        ByteCode::PopLog,
        load(99),
        ByteCode::PopLog,
    ]);
    assert_eq!(vm.run(100), Ok(true));
    assert_eq!(*vm.output(), vec![99]);
}

#[test]
fn jump_if_not_positive_falls_through() {
    let mut vm = VirtualMachine::new(vec![
        load(0),
        ByteCode::JumpIfHeadStackTrue { address_instruction: 4 },
        load(-1),
        ByteCode::PopLog,
        load(99),
        ByteCode::PopLog,
    ]);
    assert_eq!(vm.run(100), Ok(true));
    assert_eq!(*vm.output(), vec![-1, 99]);
}

#[test]
fn unconditional_jump_sets_the_counter() {
    let mut vm = VirtualMachine::new(vec![
        ByteCode::Jump { address_instruction: 3 },
        load(-1),
        ByteCode::PopLog,
        load(8),
        ByteCode::PopLog,
    ]);
    assert_eq!(vm.run(100), Ok(true));
    assert_eq!(*vm.output(), vec![8]);
}

#[test]
fn log_emits_without_consuming() {
    let mut vm = VirtualMachine::new(vec![load(8), ByteCode::Log, ByteCode::PopLog]);
    assert_eq!(vm.run(100), Ok(true));
    assert_eq!(*vm.output(), vec![8, 8]);
}

#[test]
fn return_value_emits_the_top_and_retires() {
    let mut vm = VirtualMachine::new(vec![load(321), ByteCode::ReturnValue, load(-5)]);
    assert_eq!(vm.run(100), Ok(true));
    assert_eq!(*vm.output(), vec![321]);
}

#[test]
fn counter_past_the_end_is_silent_termination() {
    let mut vm = VirtualMachine::new(vec![ByteCode::Jump { address_instruction: 50 }]);
    assert_eq!(vm.run(100), Ok(true));
    assert!(vm.output().is_empty());
}

// The rendezvous: one coroutine sends 10 on channel "c" and returns, the
// other receives, emits what it got, and returns. Whichever of the two
// reaches its channel instruction first, the run finishes, the receiver
// emits 10 exactly once, and no value is duplicated or lost.
fn rendezvous_program(first: usize, second: usize) -> Vec<ByteCode> {
    vec![
        load(first as i128),
        load(second as i128),
        ByteCode::Spawn,
        ByteCode::Return,
        // 4: the sender
        send("c", 10),
        ByteCode::Return,
        ByteCode::Return,
        // 7: the receiver
        recv("c"),
        ByteCode::PopLog,
        ByteCode::Return,
    ]
}

#[test]
fn channel_rendezvous_sender_scheduled_first() {
    let mut vm = VirtualMachine::new(rendezvous_program(4, 7));
    assert_eq!(vm.run(100), Ok(true));
    assert_eq!(*vm.output(), vec![10]);
}

#[test]
fn channel_rendezvous_receiver_scheduled_first() {
    let mut vm = VirtualMachine::new(rendezvous_program(7, 4));
    assert_eq!(vm.run(100), Ok(true));
    assert_eq!(*vm.output(), vec![10]);
}

#[test]
fn send_blocks_while_the_slot_is_occupied() {
    // Two sends on one channel and a single receive: the second send must
    // wait until the receive frees the slot, so it is still live when the
    // rounds run out.
    let mut vm = VirtualMachine::new(vec![
        send("c", 1),
        send("c", 2),
        ByteCode::Return,
    ]);
    assert_eq!(vm.run(100), Ok(false));
    assert_eq!(vm.live_coroutines(), 1);
}

#[test]
fn lone_receiver_livelocks_forever() {
    let mut vm = VirtualMachine::new(vec![recv("c")]);
    assert_eq!(vm.run(500), Ok(false));
    assert_eq!(vm.live_coroutines(), 1);
    assert!(vm.output().is_empty());
}

#[test]
fn variables_and_channels_share_the_store_through_the_reserved_key() {
    // Writing the variable "__channel_c" fills the slot that the channel
    // "c" reads: the two live in one shared mapping.
    let mut vm = VirtualMachine::new(vec![
        load(42),
        write("__channel_c"),
        recv("c"),
        ByteCode::PopLog,
        ByteCode::Return,
    ]);
    assert_eq!(vm.run(100), Ok(true));
    assert_eq!(*vm.output(), vec![42]);
}

fn demo_program() -> Vec<ByteCode> {
    vec![
        load(1),
        write("x"),
        load(2),
        write("y"),
        read("x"),
        load(1),
        ByteCode::Add,
        read("y"),
        ByteCode::Multiply,
        ByteCode::PopLog,
        load(23),
        load(27),
        ByteCode::Spawn,
        load(10),
        write("i"),
        read("i"),
        load(-1),
        ByteCode::Add,
        ByteCode::Log,
        write("i"),
        read("i"),
        ByteCode::JumpIfHeadStackTrue { address_instruction: 15 },
        ByteCode::Return,
        send("chan", 10),
        load(123),
        ByteCode::PopLog,
        ByteCode::Return,
        recv("chan"),
        ByteCode::PopLog,
        load(321),
        ByteCode::ReturnValue,
    ]
}

#[test]
fn repeated_runs_emit_identical_output() {
    let mut first = VirtualMachine::new(demo_program());
    let mut second = VirtualMachine::new(demo_program());
    let r1 = first.run(1000);
    let r2 = second.run(1000);
    assert_eq!(r1, Ok(true));
    assert_eq!(r1, r2);
    assert_eq!(*first.output(), *second.output());
}

#[test]
fn demo_program_counts_down_and_exchanges_on_the_channel() {
    let mut vm = VirtualMachine::new(demo_program());
    assert_eq!(vm.run(1000), Ok(true));
    let output = vm.output();
    // (1 + 1) * 2 first, then the countdown 9..=0 among the rest.
    assert_eq!(output[0], 4);
    assert_eq!(output.iter().filter(|v| **v == 10).count(), 1);
    assert_eq!(output.iter().filter(|v| **v == 123).count(), 1);
    assert_eq!(output.iter().filter(|v| **v == 321).count(), 1);
    for i in 0..10 {
        // 4 appears once more: it is also the arithmetic result above.
        let expected = if i == 4 { 2 } else { 1 };
        assert_eq!(output.iter().filter(|v| **v == i).count(), expected);
    }
    assert_eq!(output.len(), 14);
}
