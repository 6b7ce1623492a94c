//! The instruction set: a closed sum type, one variant per opcode, each
//! carrying only the operands its case needs. Instructions are never
//! mutated; a program is a fixed ordered sequence addressed by index.

use vstd::prelude::*;
use vstd::string::StringExecFns;
use vstd::arithmetic::div_mod::{
    lemma_div_basics, lemma_div_is_ordered, lemma_div_is_ordered_by_denominator,
    lemma_div_nonincreasing, lemma_div_pos_is_pos,
};
use std::collections::VecDeque;
use crate::coroutine::{pool_view, Coroutine, CoroutineState};
use crate::semantics::{channel_key, div_wrap, spawn_pc, step, InstrModel};
use crate::store::Store;

verus! {

/// One instruction of the stack machine.
#[derive(Clone, Debug)]
pub enum ByteCode {
    /// Push the value onto the stack.
    LoadVal { value: i128 },
    /// Push the value of a variable from the shared store.
    ReadVar { name: String },
    /// Pop a value and write it to the shared store.
    WriteVar { name: String },
    /// Pop two values, push their sum.
    Add,
    /// Pop two values, push the earlier-pushed one minus the later-pushed one.
    Minus,
    /// Pop two values, push their product.
    Multiply,
    /// Pop two values, push their truncated quotient.
    Division,
    /// Retire the coroutine.
    Return,
    /// Pop a value, emit it, and retire the coroutine.
    ReturnValue,
    /// Set the program counter to the given address.
    Jump { address_instruction: usize },
    /// Pop a value; jump to the address if it is positive, else fall through.
    JumpIfHeadStackTrue { address_instruction: usize },
    /// Place a value in the named one-slot channel; block while it is full.
    SendChannel { name: String, value: i128 },
    /// Take the value out of the named channel; block while it is empty.
    RecvChannel { name: String },
    /// Pop two addresses and append two new coroutines starting there.
    Spawn,
    /// Emit the top of the stack, leaving the stack unchanged.
    Log,
    /// Pop the top of the stack and emit it.
    PopLog,
}

/// The unrecoverable faults of a run. An erroring instruction leaves the
/// coroutine, the store, and the output exactly as they were.
#[derive(Clone, Copy, Debug, PartialEq, Eq, Structural)]
pub enum VmError {
    /// A pop was attempted on an empty operand stack.
    StackUnderflow,
    /// A variable was read that was never written.
    UndefinedVariable,
    /// A division had divisor zero.
    DivisionByZero,
}

impl View for ByteCode {
    type V = InstrModel;

    open spec fn view(&self) -> InstrModel {
        match self {
            ByteCode::LoadVal { value } => InstrModel::LoadVal { value: *value },
            ByteCode::ReadVar { name } => InstrModel::ReadVar { name: name@ },
            ByteCode::WriteVar { name } => InstrModel::WriteVar { name: name@ },
            ByteCode::Add => InstrModel::Add,
            ByteCode::Minus => InstrModel::Minus,
            ByteCode::Multiply => InstrModel::Multiply,
            ByteCode::Division => InstrModel::Division,
            ByteCode::Return => InstrModel::Return,
            ByteCode::ReturnValue => InstrModel::ReturnValue,
            ByteCode::Jump { address_instruction } => InstrModel::Jump {
                address_instruction: *address_instruction as nat,
            },
            ByteCode::JumpIfHeadStackTrue { address_instruction } => InstrModel::JumpIfHeadStackTrue {
                address_instruction: *address_instruction as nat,
            },
            ByteCode::SendChannel { name, value } => InstrModel::SendChannel {
                name: name@,
                value: *value,
            },
            ByteCode::RecvChannel { name } => InstrModel::RecvChannel { name: name@ },
            ByteCode::Spawn => InstrModel::Spawn,
            ByteCode::Log => InstrModel::Log,
            ByteCode::PopLog => InstrModel::PopLog,
        }
    }
}

/// The store key reserved for the one-slot channel of `name`.
fn channel_key_string(name: &String) -> (r: String)
    ensures
        r@ == channel_key(name@),
{
    let mut key = String::from_str("__channel_");
    key.append(name.as_str());
    key
}

/// The truncated quotient of any two 128-bit values is representable,
/// except for the minimum divided by minus one.
proof fn lemma_trunc_div_in_range(a: i128, b: i128)
    requires
        b != 0,
        !(a == i128::MIN && b == -1),
    ensures
        i128::MIN <= crate::semantics::trunc_div_int(a as int, b as int) <= i128::MAX,
{
    let x = a as int;
    let d = b as int;
    if x == 0 {
    } else if x > 0 && d > 0 {
        lemma_div_pos_is_pos(x, d);
        lemma_div_nonincreasing(x, d);
    } else if x < 0 && d < 0 {
        lemma_div_pos_is_pos(x * -1, d * -1);
        if d == -1 {
            lemma_div_basics(x * -1);
        } else {
            lemma_div_is_ordered_by_denominator(x * -1, 2, d * -1);
            lemma_div_is_ordered(x * -1, i128::MAX as int + 1, 2);
        }
    } else if x < 0 {
        lemma_div_pos_is_pos(x * -1, d);
        lemma_div_nonincreasing(x * -1, d);
    } else {
        lemma_div_pos_is_pos(x, d * -1);
        lemma_div_nonincreasing(x, d * -1);
    }
}

/// The instruction address a spawned context starts at, from the popped
/// operand.
fn spawn_target(v: i128) -> (r: usize)
    ensures
        r as nat == spawn_pc(v),
{
    if 0 <= v && v <= usize::MAX as i128 {
        v as usize
    } else {
        usize::MAX
    }
}

impl ByteCode {
    /// Push `value` onto the operand stack.
    pub fn load_val(stack: &mut VecDeque<i128>, value: i128)
        ensures
            final(stack)@ == old(stack)@.push(value),
    {
        stack.push_back(value);
    }

    /// Push the value of the variable `name`; a name never written is the
    /// `UndefinedVariable` fault.
    pub fn read_var(store: &Store, stack: &mut VecDeque<i128>, name: &String) -> (r: Result<
        (),
        VmError,
    >)
        requires
            store.wf(),
        ensures
            match r {
                Ok(()) => store@.contains_key(name@) && final(stack)@ == old(stack)@.push(
                    store@[name@],
                ),
                Err(e) => {
                    &&& e == VmError::UndefinedVariable
                    &&& !store@.contains_key(name@)
                    &&& final(stack)@ == old(stack)@
                },
            },
    {
        match store.get(name) {
            Some(value) => {
                stack.push_back(value);
                Ok(())
            },
            None => Err(VmError::UndefinedVariable),
        }
    }

    /// Pop a value and bind the variable `name` to it.
    pub fn write_var(store: &mut Store, stack: &mut VecDeque<i128>, name: &String) -> (r: Result<
        (),
        VmError,
    >)
        requires
            old(store).wf(),
        ensures
            final(store).wf(),
            match r {
                Ok(()) => {
                    &&& old(stack)@.len() > 0
                    &&& final(stack)@ == old(stack)@.drop_last()
                    &&& final(store)@ == old(store)@.insert(name@, old(stack)@.last())
                },
                Err(e) => {
                    &&& e == VmError::StackUnderflow
                    &&& old(stack)@.len() == 0
                    &&& final(stack)@ == old(stack)@
                    &&& final(store)@ == old(store)@
                },
            },
    {
        match stack.pop_back() {
            Some(value) => {
                store.insert(name.clone(), value);
                Ok(())
            },
            None => Err(VmError::StackUnderflow),
        }
    }

    /// Pop b, pop a (b was pushed later), and push `func(a, b)`.
    pub fn lift_binary_operation<F: Fn(i128, i128) -> i128>(
        stack: &mut VecDeque<i128>,
        func: F,
    ) -> (r: Result<(), VmError>)
        requires
            forall|a: i128, b: i128| #[trigger] call_requires(func, (a, b)),
        ensures
            match r {
                Ok(()) => {
                    &&& old(stack)@.len() >= 2
                    &&& exists|v: i128|
                        {
                            &&& #[trigger] call_ensures(
                                func,
                                (
                                    old(stack)@[old(stack)@.len() - 2],
                                    old(stack)@[old(stack)@.len() - 1],
                                ),
                                v,
                            )
                            &&& final(stack)@ == old(stack)@.take(old(stack)@.len() - 2).push(v)
                        }
                },
                Err(e) => {
                    &&& e == VmError::StackUnderflow
                    &&& old(stack)@.len() < 2
                    &&& final(stack)@ == old(stack)@
                },
            },
    {
        if stack.len() < 2 {
            return Err(VmError::StackUnderflow);
        }
        let b = stack.pop_back().unwrap();
        let a = stack.pop_back().unwrap();
        let value = func(a, b);
        stack.push_back(value);
        proof {
            assert(stack@ =~= old(stack)@.take(old(stack)@.len() - 2).push(value));
        }
        Ok(())
    }

    /// Pop two values and push their wrapping sum.
    pub fn add(stack: &mut VecDeque<i128>) -> (r: Result<(), VmError>)
        ensures
            match r {
                Ok(()) => {
                    &&& old(stack)@.len() >= 2
                    &&& final(stack)@ == old(stack)@.take(old(stack)@.len() - 2).push(
                        old(stack)@[old(stack)@.len() - 2].wrapping_add(
                            old(stack)@[old(stack)@.len() - 1],
                        ),
                    )
                },
                Err(e) => {
                    &&& e == VmError::StackUnderflow
                    &&& old(stack)@.len() < 2
                    &&& final(stack)@ == old(stack)@
                },
            },
    {
        let op = |a: i128, b: i128| -> (res: i128)
            ensures
                res == a.wrapping_add(b),
            { a.wrapping_add(b) };
        Self::lift_binary_operation(stack, op)
    }

    /// Pop two values and push their wrapping difference: the
    /// earlier-pushed value minus the later-pushed one.
    pub fn minus(stack: &mut VecDeque<i128>) -> (r: Result<(), VmError>)
        ensures
            match r {
                Ok(()) => {
                    &&& old(stack)@.len() >= 2
                    &&& final(stack)@ == old(stack)@.take(old(stack)@.len() - 2).push(
                        old(stack)@[old(stack)@.len() - 2].wrapping_sub(
                            old(stack)@[old(stack)@.len() - 1],
                        ),
                    )
                },
                Err(e) => {
                    &&& e == VmError::StackUnderflow
                    &&& old(stack)@.len() < 2
                    &&& final(stack)@ == old(stack)@
                },
            },
    {
        let op = |a: i128, b: i128| -> (res: i128)
            ensures
                res == a.wrapping_sub(b),
            { a.wrapping_sub(b) };
        Self::lift_binary_operation(stack, op)
    }

    /// Pop two values and push their wrapping product.
    pub fn multiply(stack: &mut VecDeque<i128>) -> (r: Result<(), VmError>)
        ensures
            match r {
                Ok(()) => {
                    &&& old(stack)@.len() >= 2
                    &&& final(stack)@ == old(stack)@.take(old(stack)@.len() - 2).push(
                        old(stack)@[old(stack)@.len() - 2].wrapping_mul(
                            old(stack)@[old(stack)@.len() - 1],
                        ),
                    )
                },
                Err(e) => {
                    &&& e == VmError::StackUnderflow
                    &&& old(stack)@.len() < 2
                    &&& final(stack)@ == old(stack)@
                },
            },
    {
        let op = |a: i128, b: i128| -> (res: i128)
            ensures
                res == a.wrapping_mul(b),
            { a.wrapping_mul(b) };
        Self::lift_binary_operation(stack, op)
    }

    /// Pop two values and push their truncated quotient; divisor zero is
    /// the `DivisionByZero` fault.
    pub fn division(stack: &mut VecDeque<i128>) -> (r: Result<(), VmError>)
        ensures
            match r {
                Ok(()) => {
                    &&& old(stack)@.len() >= 2
                    &&& old(stack)@.last() != 0
                    &&& final(stack)@ == old(stack)@.take(old(stack)@.len() - 2).push(
                        div_wrap(old(stack)@[old(stack)@.len() - 2], old(stack)@.last()),
                    )
                },
                Err(e) => {
                    &&& final(stack)@ == old(stack)@
                    &&& if old(stack)@.len() < 2 {
                        e == VmError::StackUnderflow
                    } else {
                        e == VmError::DivisionByZero && old(stack)@.last() == 0
                    }
                },
            },
    {
        if stack.len() < 2 {
            return Err(VmError::StackUnderflow);
        }
        let b = stack.pop_back().unwrap();
        let a = stack.pop_back().unwrap();
        if b == 0 {
            stack.push_back(a);
            stack.push_back(b);
            proof {
                assert(stack@ =~= old(stack)@);
            }
            return Err(VmError::DivisionByZero);
        }
        let value = if a == i128::MIN && b == -1 {
            i128::MIN
        } else {
            proof {
                lemma_trunc_div_in_range(a, b);
            }
            a.checked_div(b).unwrap()
        };
        stack.push_back(value);
        proof {
            assert(stack@ =~= old(stack)@.take(old(stack)@.len() - 2).push(div_wrap(a, b)));
        }
        Ok(())
    }

    /// Pop a value and emit it as the coroutine's last output.
    pub fn return_value(stack: &mut VecDeque<i128>, output: &mut Vec<i128>) -> (r: Result<
        (),
        VmError,
    >)
        ensures
            match r {
                Ok(()) => {
                    &&& old(stack)@.len() > 0
                    &&& final(stack)@ == old(stack)@.drop_last()
                    &&& final(output)@ == old(output)@.push(old(stack)@.last())
                },
                Err(e) => {
                    &&& e == VmError::StackUnderflow
                    &&& old(stack)@.len() == 0
                    &&& final(stack)@ == old(stack)@
                    &&& final(output)@ == old(output)@
                },
            },
    {
        match stack.pop_back() {
            Some(value) => {
                output.push(value);
                Ok(())
            },
            None => Err(VmError::StackUnderflow),
        }
    }

    /// Pop two addresses b then a (a was pushed first) and append two new
    /// contexts starting at a and at b, in that order.
    pub fn spawn(stack: &mut VecDeque<i128>, coroutines: &mut Vec<Coroutine>) -> (r: Result<
        (),
        VmError,
    >)
        ensures
            match r {
                Ok(()) => {
                    &&& old(stack)@.len() >= 2
                    &&& final(stack)@ == old(stack)@.take(old(stack)@.len() - 2)
                    &&& pool_view(final(coroutines)@) == pool_view(old(coroutines)@) + seq![
                        (crate::semantics::CoroModel {
                            pc: spawn_pc(old(stack)@[old(stack)@.len() - 2]),
                            stack: Seq::empty(),
                        }),
                        (crate::semantics::CoroModel {
                            pc: spawn_pc(old(stack)@.last()),
                            stack: Seq::empty(),
                        }),
                    ]
                },
                Err(e) => {
                    &&& e == VmError::StackUnderflow
                    &&& old(stack)@.len() < 2
                    &&& final(stack)@ == old(stack)@
                    &&& final(coroutines)@ == old(coroutines)@
                },
            },
    {
        if stack.len() < 2 {
            return Err(VmError::StackUnderflow);
        }
        let address_instruction_b = stack.pop_back().unwrap();
        let address_instruction_a = stack.pop_back().unwrap();
        coroutines.push(Coroutine::new(spawn_target(address_instruction_a)));
        coroutines.push(Coroutine::new(spawn_target(address_instruction_b)));
        proof {
            assert(stack@ =~= old(stack)@.take(old(stack)@.len() - 2));
            assert(pool_view(coroutines@) =~= pool_view(old(coroutines)@) + seq![
                (crate::semantics::CoroModel {
                    pc: spawn_pc(old(stack)@[old(stack)@.len() - 2]),
                    stack: Seq::empty(),
                }),
                (crate::semantics::CoroModel {
                    pc: spawn_pc(old(stack)@.last()),
                    stack: Seq::empty(),
                }),
            ]);
        }
        Ok(())
    }

    /// Emit the top of the stack without consuming it.
    pub fn log(stack: &mut VecDeque<i128>, output: &mut Vec<i128>) -> (r: Result<(), VmError>)
        ensures
            match r {
                Ok(()) => {
                    &&& old(stack)@.len() > 0
                    &&& final(stack)@ == old(stack)@
                    &&& final(output)@ == old(output)@.push(old(stack)@.last())
                },
                Err(e) => {
                    &&& e == VmError::StackUnderflow
                    &&& old(stack)@.len() == 0
                    &&& final(stack)@ == old(stack)@
                    &&& final(output)@ == old(output)@
                },
            },
    {
        match stack.pop_back() {
            Some(value) => {
                output.push(value);
                stack.push_back(value);
                proof {
                    assert(stack@ =~= old(stack)@);
                }
                Ok(())
            },
            None => Err(VmError::StackUnderflow),
        }
    }

    /// One instruction step: the whole effect on the stepped context, the
    /// shared store, the pool of newly spawned contexts, and the output
    /// stream is exactly the semantic `step` of this instruction. A fault
    /// leaves every one of them unchanged.
    pub fn execute(
        &self,
        coroutines: &mut Vec<Coroutine>,
        coroutine: &mut Coroutine,
        store: &mut Store,
        output: &mut Vec<i128>,
    ) -> (r: Result<CoroutineState, VmError>)
        requires
            old(store).wf(),
            old(coroutine).address_current_instruction < usize::MAX,
        ensures
            final(store).wf(),
            ({
                let eff = step(self@, old(coroutine)@, old(store)@);
                &&& r == eff.result
                &&& final(coroutine)@ == eff.coro
                &&& final(store)@ == eff.store
                &&& pool_view(final(coroutines)@) == pool_view(old(coroutines)@) + eff.spawned
                &&& final(output)@ == old(output)@ + eff.output
            }),
    {
        let r: Result<CoroutineState, VmError> = match self {
            ByteCode::LoadVal { value } => {
                Self::load_val(&mut coroutine.stack, *value);
                coroutine.increment_address_current_instruction(self, false);
                Ok(CoroutineState::Pending)
            },
            ByteCode::ReadVar { name } => {
                match Self::read_var(store, &mut coroutine.stack, name) {
                    Ok(()) => {
                        coroutine.increment_address_current_instruction(self, false);
                        Ok(CoroutineState::Pending)
                    },
                    Err(e) => Err(e),
                }
            },
            ByteCode::WriteVar { name } => {
                match Self::write_var(store, &mut coroutine.stack, name) {
                    Ok(()) => {
                        coroutine.increment_address_current_instruction(self, false);
                        Ok(CoroutineState::Pending)
                    },
                    Err(e) => Err(e),
                }
            },
            ByteCode::Add => {
                match Self::add(&mut coroutine.stack) {
                    Ok(()) => {
                        coroutine.increment_address_current_instruction(self, false);
                        Ok(CoroutineState::Pending)
                    },
                    Err(e) => Err(e),
                }
            },
            ByteCode::Minus => {
                match Self::minus(&mut coroutine.stack) {
                    Ok(()) => {
                        coroutine.increment_address_current_instruction(self, false);
                        Ok(CoroutineState::Pending)
                    },
                    Err(e) => Err(e),
                }
            },
            ByteCode::Multiply => {
                match Self::multiply(&mut coroutine.stack) {
                    Ok(()) => {
                        coroutine.increment_address_current_instruction(self, false);
                        Ok(CoroutineState::Pending)
                    },
                    Err(e) => Err(e),
                }
            },
            ByteCode::Division => {
                match Self::division(&mut coroutine.stack) {
                    Ok(()) => {
                        coroutine.increment_address_current_instruction(self, false);
                        Ok(CoroutineState::Pending)
                    },
                    Err(e) => Err(e),
                }
            },
            ByteCode::Return => {
                coroutine.increment_address_current_instruction(self, false);
                Ok(CoroutineState::Fulfilled)
            },
            ByteCode::ReturnValue => {
                match Self::return_value(&mut coroutine.stack, output) {
                    Ok(()) => {
                        coroutine.increment_address_current_instruction(self, false);
                        Ok(CoroutineState::Fulfilled)
                    },
                    Err(e) => Err(e),
                }
            },
            ByteCode::Jump { .. } => {
                coroutine.increment_address_current_instruction(self, false);
                Ok(CoroutineState::Pending)
            },
            ByteCode::JumpIfHeadStackTrue { address_instruction } => {
                match coroutine.stack.pop_back() {
                    Some(value) => {
                        if value > 0 {
                            coroutine.increment_address_current_instruction(
                                &ByteCode::Jump { address_instruction: *address_instruction },
                                false,
                            );
                        } else {
                            coroutine.increment_address_current_instruction(self, false);
                        }
                        Ok(CoroutineState::Pending)
                    },
                    None => Err(VmError::StackUnderflow),
                }
            },
            ByteCode::SendChannel { name, value } => {
                let key = channel_key_string(name);
                if store.contains_key(&key) {
                    coroutine.increment_address_current_instruction(self, true);
                } else {
                    store.insert(key, *value);
                    coroutine.increment_address_current_instruction(self, false);
                }
                Ok(CoroutineState::Pending)
            },
            ByteCode::RecvChannel { name } => {
                let key = channel_key_string(name);
                match store.get(&key) {
                    None => {
                        coroutine.increment_address_current_instruction(self, true);
                    },
                    Some(value) => {
                        coroutine.stack.push_back(value);
                        store.remove(&key);
                        coroutine.increment_address_current_instruction(self, false);
                    },
                }
                Ok(CoroutineState::Pending)
            },
            ByteCode::Spawn => {
                match Self::spawn(&mut coroutine.stack, coroutines) {
                    Ok(()) => {
                        coroutine.increment_address_current_instruction(self, false);
                        Ok(CoroutineState::Pending)
                    },
                    Err(e) => Err(e),
                }
            },
            ByteCode::Log => {
                match Self::log(&mut coroutine.stack, output) {
                    Ok(()) => {
                        coroutine.increment_address_current_instruction(self, false);
                        Ok(CoroutineState::Pending)
                    },
                    Err(e) => Err(e),
                }
            },
            ByteCode::PopLog => {
                match Self::pop_log(&mut coroutine.stack, output) {
                    Ok(()) => {
                        coroutine.increment_address_current_instruction(self, false);
                        Ok(CoroutineState::Pending)
                    },
                    Err(e) => Err(e),
                }
            },
        };
        proof {
            let eff = step(self@, old(coroutine)@, old(store)@);
            assert(coroutine@.stack =~= eff.coro.stack);
            assert(coroutine@ =~= eff.coro);
            assert(pool_view(coroutines@) =~= pool_view(old(coroutines)@) + eff.spawned);
            assert(output@ =~= old(output)@ + eff.output);
        }
        r
    }

    /// Pop the top of the stack and emit it.
    pub fn pop_log(stack: &mut VecDeque<i128>, output: &mut Vec<i128>) -> (r: Result<(), VmError>)
        ensures
            match r {
                Ok(()) => {
                    &&& old(stack)@.len() > 0
                    &&& final(stack)@ == old(stack)@.drop_last()
                    &&& final(output)@ == old(output)@.push(old(stack)@.last())
                },
                Err(e) => {
                    &&& e == VmError::StackUnderflow
                    &&& old(stack)@.len() == 0
                    &&& final(stack)@ == old(stack)@
                    &&& final(output)@ == old(output)@
                },
            },
    {
        match stack.pop_back() {
            Some(value) => {
                output.push(value);
                Ok(())
            },
            None => Err(VmError::StackUnderflow),
        }
    }
}

} // verus!

