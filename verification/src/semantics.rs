//! The mathematical semantics of the machine, stated once and shared by
//! every contract: a step function from one instruction and one context to
//! the next state, lifted to a scheduler round and to a bounded number of
//! rounds. The executable interpreter is proved to follow these functions
//! exactly, which is also what makes a run deterministic.

use vstd::prelude::*;
use crate::byte_code::VmError;
use crate::coroutine::CoroutineState;

verus! {

/// The model of one instruction: operand values, name characters, and
/// instruction addresses as plain mathematical data.
pub ghost enum InstrModel {
    LoadVal { value: i128 },
    ReadVar { name: Seq<char> },
    WriteVar { name: Seq<char> },
    Add,
    Minus,
    Multiply,
    Division,
    Return,
    ReturnValue,
    Jump { address_instruction: nat },
    JumpIfHeadStackTrue { address_instruction: nat },
    SendChannel { name: Seq<char>, value: i128 },
    RecvChannel { name: Seq<char> },
    Spawn,
    Log,
    PopLog,
}

/// The model of one execution context: a program counter and an operand
/// stack whose last element is the top.
#[verifier::ext_equal]
pub ghost struct CoroModel {
    pub pc: nat,
    pub stack: Seq<i128>,
}

/// Everything one instruction step does: the stepped context, the store
/// afterwards, the contexts it spawned, the values it emitted, and whether
/// the context continues, retires, or faults.
#[verifier::ext_equal]
pub ghost struct StepEffect {
    pub coro: CoroModel,
    pub store: Map<Seq<char>, i128>,
    pub spawned: Seq<CoroModel>,
    pub output: Seq<i128>,
    pub result: Result<CoroutineState, VmError>,
}

/// The store key reserved for the one-slot channel of a given name.
pub open spec fn channel_key(name: Seq<char>) -> Seq<char> {
    "__channel_"@ + name
}

/// Truncated (round-toward-zero) integer division, as the machine's
/// division instruction computes it.
pub open spec fn trunc_div_int(x: int, d: int) -> int
    recommends
        d != 0,
{
    if x == 0 {
        0
    } else if x > 0 && d > 0 {
        x / d
    } else if x < 0 && d < 0 {
        (x * -1) / (d * -1)
    } else if x < 0 {
        ((x * -1) / d) * -1
    } else {
        (x / (d * -1)) * -1
    }
}

/// Division on 128-bit values; the one unrepresentable quotient wraps to
/// the minimum, as the other arithmetic instructions wrap.
pub open spec fn div_wrap(a: i128, b: i128) -> i128
    recommends
        b != 0,
{
    if a == i128::MIN && b == -1 {
        i128::MIN
    } else {
        trunc_div_int(a as int, b as int) as i128
    }
}

/// The program counter a spawned context starts at. An address outside the
/// machine's range points past the end of any program, so such a context
/// retires silently on its first step.
pub open spec fn spawn_pc(v: i128) -> nat {
    if 0 <= v && v <= usize::MAX as int {
        v as nat
    } else {
        usize::MAX as nat
    }
}

/// A step that succeeded.
pub open spec fn step_ok(
    c: CoroModel,
    store: Map<Seq<char>, i128>,
    spawned: Seq<CoroModel>,
    output: Seq<i128>,
    st: CoroutineState,
) -> StepEffect {
    StepEffect { coro: c, store: store, spawned: spawned, output: output, result: Ok(st) }
}

/// A step that faulted: the context, the store, and the output are left
/// exactly as they were.
pub open spec fn step_err(c: CoroModel, store: Map<Seq<char>, i128>, e: VmError) -> StepEffect {
    StepEffect {
        coro: c,
        store: store,
        spawned: Seq::empty(),
        output: Seq::empty(),
        result: Err(e),
    }
}

/// The semantics of one instruction against one context and the shared
/// store. Jumps set the counter to their target; every other non-blocking
/// instruction advances it by one; a blocked channel instruction leaves it
/// unchanged so the same instruction is retried next round.
pub open spec fn step(instr: InstrModel, c: CoroModel, store: Map<Seq<char>, i128>) -> StepEffect {
    match instr {
        InstrModel::LoadVal { value } => step_ok(
            CoroModel { pc: c.pc + 1, stack: c.stack.push(value) },
            store,
            Seq::empty(),
            Seq::empty(),
            CoroutineState::Pending,
        ),
        InstrModel::ReadVar { name } => {
            if store.contains_key(name) {
                step_ok(
                    CoroModel { pc: c.pc + 1, stack: c.stack.push(store[name]) },
                    store,
                    Seq::empty(),
                    Seq::empty(),
                    CoroutineState::Pending,
                )
            } else {
                step_err(c, store, VmError::UndefinedVariable)
            }
        },
        InstrModel::WriteVar { name } => {
            if c.stack.len() == 0 {
                step_err(c, store, VmError::StackUnderflow)
            } else {
                step_ok(
                    CoroModel { pc: c.pc + 1, stack: c.stack.drop_last() },
                    store.insert(name, c.stack.last()),
                    Seq::empty(),
                    Seq::empty(),
                    CoroutineState::Pending,
                )
            }
        },
        InstrModel::Add => step_binary(c, store, |a: i128, b: i128| a.wrapping_add(b)),
        InstrModel::Minus => step_binary(c, store, |a: i128, b: i128| a.wrapping_sub(b)),
        InstrModel::Multiply => step_binary(c, store, |a: i128, b: i128| a.wrapping_mul(b)),
        InstrModel::Division => {
            if c.stack.len() < 2 {
                step_err(c, store, VmError::StackUnderflow)
            } else if c.stack.last() == 0 {
                step_err(c, store, VmError::DivisionByZero)
            } else {
                step_binary(c, store, |a: i128, b: i128| div_wrap(a, b))
            }
        },
        InstrModel::Return => step_ok(
            CoroModel { pc: c.pc + 1, stack: c.stack },
            store,
            Seq::empty(),
            Seq::empty(),
            CoroutineState::Fulfilled,
        ),
        InstrModel::ReturnValue => {
            if c.stack.len() == 0 {
                step_err(c, store, VmError::StackUnderflow)
            } else {
                step_ok(
                    CoroModel { pc: c.pc + 1, stack: c.stack.drop_last() },
                    store,
                    Seq::empty(),
                    seq![c.stack.last()],
                    CoroutineState::Fulfilled,
                )
            }
        },
        InstrModel::Jump { address_instruction } => step_ok(
            CoroModel { pc: address_instruction, stack: c.stack },
            store,
            Seq::empty(),
            Seq::empty(),
            CoroutineState::Pending,
        ),
        InstrModel::JumpIfHeadStackTrue { address_instruction } => {
            if c.stack.len() == 0 {
                step_err(c, store, VmError::StackUnderflow)
            } else {
                step_ok(
                    CoroModel {
                        pc: if c.stack.last() > 0 {
                            address_instruction
                        } else {
                            c.pc + 1
                        },
                        stack: c.stack.drop_last(),
                    },
                    store,
                    Seq::empty(),
                    Seq::empty(),
                    CoroutineState::Pending,
                )
            }
        },
        InstrModel::SendChannel { name, value } => {
            if store.contains_key(channel_key(name)) {
                step_ok(c, store, Seq::empty(), Seq::empty(), CoroutineState::Pending)
            } else {
                step_ok(
                    CoroModel { pc: c.pc + 1, stack: c.stack },
                    store.insert(channel_key(name), value),
                    Seq::empty(),
                    Seq::empty(),
                    CoroutineState::Pending,
                )
            }
        },
        InstrModel::RecvChannel { name } => {
            if !store.contains_key(channel_key(name)) {
                step_ok(c, store, Seq::empty(), Seq::empty(), CoroutineState::Pending)
            } else {
                step_ok(
                    CoroModel { pc: c.pc + 1, stack: c.stack.push(store[channel_key(name)]) },
                    store.remove(channel_key(name)),
                    Seq::empty(),
                    Seq::empty(),
                    CoroutineState::Pending,
                )
            }
        },
        InstrModel::Spawn => {
            if c.stack.len() < 2 {
                step_err(c, store, VmError::StackUnderflow)
            } else {
                step_ok(
                    CoroModel { pc: c.pc + 1, stack: c.stack.take(c.stack.len() - 2) },
                    store,
                    seq![
                        CoroModel { pc: spawn_pc(c.stack[c.stack.len() - 2]), stack: Seq::empty() },
                        CoroModel { pc: spawn_pc(c.stack.last()), stack: Seq::empty() },
                    ],
                    Seq::empty(),
                    CoroutineState::Pending,
                )
            }
        },
        InstrModel::Log => {
            if c.stack.len() == 0 {
                step_err(c, store, VmError::StackUnderflow)
            } else {
                step_ok(
                    CoroModel { pc: c.pc + 1, stack: c.stack },
                    store,
                    Seq::empty(),
                    seq![c.stack.last()],
                    CoroutineState::Pending,
                )
            }
        },
        InstrModel::PopLog => {
            if c.stack.len() == 0 {
                step_err(c, store, VmError::StackUnderflow)
            } else {
                step_ok(
                    CoroModel { pc: c.pc + 1, stack: c.stack.drop_last() },
                    store,
                    Seq::empty(),
                    seq![c.stack.last()],
                    CoroutineState::Pending,
                )
            }
        },
    }
}

/// The shared shape of the three wrapping arithmetic instructions and of
/// division once its divisor is known good: pop b, pop a (b was pushed
/// later), push `op(a, b)`.
pub open spec fn step_binary(
    c: CoroModel,
    store: Map<Seq<char>, i128>,
    op: spec_fn(i128, i128) -> i128,
) -> StepEffect {
    if c.stack.len() < 2 {
        step_err(c, store, VmError::StackUnderflow)
    } else {
        step_ok(
            CoroModel {
                pc: c.pc + 1,
                stack: c.stack.take(c.stack.len() - 2).push(
                    op(c.stack[c.stack.len() - 2], c.stack.last()),
                ),
            },
            store,
            Seq::empty(),
            Seq::empty(),
            CoroutineState::Pending,
        )
    }
}

/// One step of a context against a program: reading past the end of the
/// instruction sequence is silent termination, not an error.
pub open spec fn coro_step(
    p: Seq<InstrModel>,
    c: CoroModel,
    store: Map<Seq<char>, i128>,
) -> StepEffect {
    if c.pc < p.len() {
        step(p[c.pc as int], c, store)
    } else {
        step_ok(c, store, Seq::empty(), Seq::empty(), CoroutineState::Fulfilled)
    }
}

/// The whole scheduler state between rounds: the live pool, the shared
/// store, everything emitted so far, and the fault that ended the run, if
/// one did.
#[verifier::ext_equal]
pub ghost struct SchedState {
    pub pool: Seq<CoroModel>,
    pub store: Map<Seq<char>, i128>,
    pub output: Seq<i128>,
    pub error: Option<VmError>,
}

/// The remainder of one scheduler round: step each context of `waiting` in
/// order, accumulating spawned contexts and surviving (still pending)
/// contexts; the next pool is all spawned contexts followed by all
/// survivors. A fault ends the round, and the run, at once.
pub open spec fn round_go(
    p: Seq<InstrModel>,
    waiting: Seq<CoroModel>,
    store: Map<Seq<char>, i128>,
    spawned: Seq<CoroModel>,
    survivors: Seq<CoroModel>,
    output: Seq<i128>,
) -> SchedState
    decreases waiting.len(),
{
    if waiting.len() == 0 {
        SchedState { pool: spawned + survivors, store: store, output: output, error: None }
    } else {
        let eff = coro_step(p, waiting[0], store);
        match eff.result {
            Err(e) => SchedState {
                pool: Seq::empty(),
                store: eff.store,
                output: output + eff.output,
                error: Some(e),
            },
            Ok(st) => round_go(
                p,
                waiting.drop_first(),
                eff.store,
                spawned + eff.spawned,
                if st == CoroutineState::Pending {
                    survivors.push(eff.coro)
                } else {
                    survivors
                },
                output + eff.output,
            ),
        }
    }
}

/// One full scheduler round: every live context gets exactly one
/// instruction step. A finished or faulted run stays as it is.
pub open spec fn round(p: Seq<InstrModel>, s: SchedState) -> SchedState {
    if s.error is Some || s.pool.len() == 0 {
        s
    } else {
        round_go(p, s.pool, s.store, Seq::empty(), Seq::empty(), s.output)
    }
}

/// `n` scheduler rounds from `s`.
pub open spec fn run_n(p: Seq<InstrModel>, s: SchedState, n: nat) -> SchedState
    decreases n,
{
    if n == 0 {
        s
    } else {
        round(p, run_n(p, s, (n - 1) as nat))
    }
}

/// A finished (empty pool) or faulted run stays as it is, however many
/// further rounds pass.
pub proof fn lemma_run_n_stable(p: Seq<InstrModel>, s: SchedState, n: nat)
    requires
        s.error is Some || s.pool.len() == 0,
    ensures
        run_n(p, s, n) == s,
    decreases n,
{
    if n > 0 {
        lemma_run_n_stable(p, s, (n - 1) as nat);
    }
}

/// Rounds compose: running `a` rounds and then `b` more is running
/// `a + b` rounds.
pub proof fn lemma_run_n_add(p: Seq<InstrModel>, s: SchedState, a: nat, b: nat)
    ensures
        run_n(p, s, a + b) == run_n(p, run_n(p, s, a), b),
    decreases b,
{
    if b > 0 {
        lemma_run_n_add(p, s, a, (b - 1) as nat);
    }
}

/// Determinism: from equal starting states, the same program run for the
/// same number of rounds reaches the same state — in particular the same
/// output values, in the same order. Together with the machine's
/// contracts, which pin its state after every round to `run_n`, repeated
/// runs of one program can differ in nothing observable.
pub proof fn lemma_run_deterministic(p: Seq<InstrModel>, s1: SchedState, s2: SchedState, n: nat)
    requires
        s1 == s2,
    ensures
        run_n(p, s1, n) == run_n(p, s2, n),
{
}

/// The channel slot has capacity exactly one: a send on an occupied
/// channel changes neither the sender, nor the store, nor the output —
/// the instruction is simply retried next round.
pub proof fn lemma_channel_send_blocks(
    name: Seq<char>,
    value: i128,
    sender: CoroModel,
    store: Map<Seq<char>, i128>,
)
    requires
        store.contains_key(channel_key(name)),
    ensures
        step(InstrModel::SendChannel { name, value }, sender, store) == step_ok(
            sender,
            store,
            Seq::empty(),
            Seq::empty(),
            CoroutineState::Pending,
        ),
{
}

/// Channel rendezvous: a send on a free channel fills exactly its slot,
/// and the matching receive then hands that value — the same value,
/// exactly once — to the receiver's stack and frees the slot, leaving the
/// store as it was before the exchange. Nothing is duplicated or lost.
pub proof fn lemma_channel_rendezvous(
    name: Seq<char>,
    value: i128,
    sender: CoroModel,
    receiver: CoroModel,
    store: Map<Seq<char>, i128>,
)
    requires
        !store.contains_key(channel_key(name)),
    ensures
        ({
            let sent = step(InstrModel::SendChannel { name, value }, sender, store);
            let received = step(InstrModel::RecvChannel { name }, receiver, sent.store);
            &&& sent.result == Ok::<CoroutineState, VmError>(CoroutineState::Pending)
            &&& sent.coro == (CoroModel { pc: sender.pc + 1, stack: sender.stack })
            &&& sent.store == store.insert(channel_key(name), value)
            &&& received.result == Ok::<CoroutineState, VmError>(CoroutineState::Pending)
            &&& received.coro == (CoroModel {
                pc: receiver.pc + 1,
                stack: receiver.stack.push(value),
            })
            &&& received.store == store
        }),
{
    let sent = step(InstrModel::SendChannel { name, value }, sender, store);
    let received = step(InstrModel::RecvChannel { name }, receiver, sent.store);
    assert(received.store =~= store);
}

/// A lone context waiting to receive on a channel that no sender ever
/// fills never terminates: every round leaves the whole machine state
/// exactly as it is, so the pool never empties, however many rounds pass.
pub proof fn lemma_receive_livelock(p: Seq<InstrModel>, s: SchedState, name: Seq<char>, n: nat)
    requires
        s.error is None,
        s.pool.len() == 1,
        s.pool[0].pc < p.len(),
        p[s.pool[0].pc as int] == (InstrModel::RecvChannel { name }),
        !s.store.contains_key(channel_key(name)),
    ensures
        run_n(p, s, n) == s,
        run_n(p, s, n).pool.len() != 0,
    decreases n,
{
    if n > 0 {
        lemma_receive_livelock(p, s, name, (n - 1) as nat);
        let eff = coro_step(p, s.pool[0], s.store);
        let mid = round_go(
            p,
            s.pool.drop_first(),
            eff.store,
            Seq::empty() + eff.spawned,
            Seq::<CoroModel>::empty().push(eff.coro),
            s.output + eff.output,
        );
        assert(round_go(p, s.pool, s.store, Seq::empty(), Seq::empty(), s.output) == mid);
        assert(s.pool.drop_first().len() == 0);
        assert((Seq::empty() + eff.spawned) + Seq::<CoroModel>::empty().push(eff.coro) =~= s.pool);
        assert(s.output + eff.output =~= s.output);
        assert(mid =~= s);
    }
}

} // verus!
