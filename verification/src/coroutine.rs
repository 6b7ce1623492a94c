//! An execution context: one coroutine's program counter and operand
//! stack. The scheduler owns a context while it is idle; the executor
//! owns it for exactly one instruction step.

use std::collections::VecDeque;
use vstd::prelude::*;
use crate::byte_code::{ByteCode, VmError};
use crate::semantics::{coro_step, CoroModel, InstrModel};
use crate::store::Store;

verus! {

/// The models of a pool of contexts, in pool order.
pub open spec fn pool_view(s: Seq<Coroutine>) -> Seq<CoroModel> {
    Seq::new(s.len(), |i: int| s[i]@)
}

/// The models of a program's instructions, in program order.
pub open spec fn prog_view(s: Seq<ByteCode>) -> Seq<InstrModel> {
    Seq::new(s.len(), |i: int| s[i]@)
}

/// One cooperatively scheduled execution context.
#[derive(Clone)]
pub struct Coroutine {
    /// Index of the next instruction to execute.
    pub address_current_instruction: usize,
    /// Operand stack; the back of the deque is the top.
    pub stack: VecDeque<i128>,
}

/// Whether a context continues (`Pending`) or has terminated (`Fulfilled`)
/// after a step.
#[derive(Clone, Copy, Debug, PartialEq, Eq, Structural)]
pub enum CoroutineState {
    Pending,
    Fulfilled,
}

impl View for Coroutine {
    type V = CoroModel;

    open spec fn view(&self) -> CoroModel {
        CoroModel { pc: self.address_current_instruction as nat, stack: self.stack@ }
    }
}

impl Coroutine {
    /// A fresh context that will start at the given instruction address,
    /// with an empty operand stack.
    pub fn new(address_instruction: usize) -> (r: Coroutine)
        ensures
            r@ == (CoroModel { pc: address_instruction as nat, stack: Seq::<i128>::empty() }),
    {
        Coroutine { address_current_instruction: address_instruction, stack: VecDeque::new() }
    }

    /// Execute the instruction at this context's current counter: one
    /// semantic `coro_step` of the program. The result says whether the
    /// context stays live (`Ok(true)`), has terminated (`Ok(false)`) —
    /// which a counter past the end of the program also is — or faulted.
    pub fn execute_byte_code(
        &mut self,
        coroutines: &mut Vec<Coroutine>,
        store: &mut Store,
        byte_codes: &Vec<ByteCode>,
        output: &mut Vec<i128>,
    ) -> (r: Result<bool, VmError>)
        requires
            old(store).wf(),
        ensures
            final(store).wf(),
            ({
                let eff = coro_step(prog_view(byte_codes@), old(self)@, old(store)@);
                &&& (match r {
                    Ok(works) => eff.result == Ok::<CoroutineState, VmError>(
                        if works {
                            CoroutineState::Pending
                        } else {
                            CoroutineState::Fulfilled
                        },
                    ),
                    Err(e) => eff.result == Err::<CoroutineState, VmError>(e),
                })
                &&& final(self)@ == eff.coro
                &&& final(store)@ == eff.store
                &&& pool_view(final(coroutines)@) == pool_view(old(coroutines)@) + eff.spawned
                &&& final(output)@ == old(output)@ + eff.output
            }),
    {
        if self.address_current_instruction < byte_codes.len() {
            let byte_code = &byte_codes[self.address_current_instruction];
            match byte_code.execute(coroutines, self, store, output) {
                Ok(CoroutineState::Pending) => Ok(true),
                Ok(CoroutineState::Fulfilled) => Ok(false),
                Err(e) => Err(e),
            }
        } else {
            proof {
                assert(pool_view(coroutines@) =~= pool_view(old(coroutines)@) + Seq::<
                    CoroModel,
                >::empty());
                assert(output@ =~= old(output)@ + Seq::<i128>::empty());
            }
            Ok(false)
        }
    }

    /// Apply the counter-advance rule after an instruction: a jump sets the
    /// counter to its target, anything else advances it by one, and a
    /// blocked instruction (`partial_calculation`) leaves it unchanged so
    /// the same instruction is reattempted next round.
    pub fn increment_address_current_instruction(
        &mut self,
        byte_code: &ByteCode,
        partial_calculation: bool,
    )
        requires
            partial_calculation || (byte_code matches ByteCode::Jump { .. }) || old(
                self,
            ).address_current_instruction < usize::MAX,
        ensures
            final(self).stack == old(self).stack,
            final(self).address_current_instruction as nat == (if partial_calculation {
                old(self)@.pc
            } else {
                match byte_code@ {
                    InstrModel::Jump { address_instruction } => address_instruction,
                    _ => old(self)@.pc + 1,
                }
            }),
    {
        if partial_calculation {
            return ;
        }
        match byte_code {
            ByteCode::Jump { address_instruction } => {
                self.address_current_instruction = *address_instruction;
            },
            _ => {
                self.address_current_instruction = self.address_current_instruction + 1;
            },
        };
    }
}

} // verus!
