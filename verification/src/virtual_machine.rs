//! The scheduler: owns the program, the shared store, the coroutine pool,
//! and the output stream, and drives cooperative round-robin execution.
//!
//! Each round steps every live context exactly once against the shared
//! store; the next pool is all newly spawned contexts (in spawn order)
//! followed by all contexts that stayed pending (in their prior order).
//! The whole round, and any number of rounds, is proved equal to the
//! semantic `round` and `run_n` functions — which is also why a run is
//! deterministic: the state after `n` rounds is a function of the program
//! and the starting state alone.

use vstd::prelude::*;
use crate::byte_code::{ByteCode, VmError};
use crate::coroutine::{pool_view, prog_view, Coroutine};
use crate::semantics::{
    lemma_run_n_add, lemma_run_n_stable, round, round_go, run_n, CoroModel, SchedState,
};
use crate::store::Store;

verus! {

/// The virtual machine: a fixed program, the shared store, the live
/// coroutine pool, and everything emitted so far.
pub struct VirtualMachine {
    byte_codes: Vec<ByteCode>,
    store: Store,
    coroutines: Vec<Coroutine>,
    output: Vec<i128>,
}

impl VirtualMachine {
    /// The machine is well formed when its store is.
    pub closed spec fn wf(&self) -> bool {
        self.store.wf()
    }

    /// The model of the immutable instruction sequence.
    pub closed spec fn program(&self) -> Seq<crate::semantics::InstrModel> {
        prog_view(self.byte_codes@)
    }

    /// The model of the mutable scheduler state.
    pub closed spec fn sched(&self) -> SchedState {
        SchedState {
            pool: pool_view(self.coroutines@),
            store: self.store@,
            output: self.output@,
            error: None,
        }
    }

    /// A machine for the given program: empty store, empty pool, nothing
    /// emitted yet.
    pub fn new(byte_codes: Vec<ByteCode>) -> (r: VirtualMachine)
        ensures
            r.wf(),
            r.program() == prog_view(byte_codes@),
            r.sched() == (SchedState {
                pool: Seq::<CoroModel>::empty(),
                store: Map::<Seq<char>, i128>::empty(),
                output: Seq::<i128>::empty(),
                error: None,
            }),
    {
        let r = VirtualMachine {
            byte_codes,
            store: Store::new(),
            coroutines: Vec::new(),
            output: Vec::new(),
        };
        proof {
            assert(pool_view(r.coroutines@) =~= Seq::<CoroModel>::empty());
        }
        r
    }

    /// Everything emitted so far, in emission order.
    pub fn output(&self) -> (r: &Vec<i128>)
        ensures
            r@ == self.sched().output,
    {
        &self.output
    }

    /// How many contexts are currently live.
    pub fn live_coroutines(&self) -> (r: usize)
        ensures
            r == self.sched().pool.len(),
    {
        self.coroutines.len()
    }

    /// One full scheduler round: exactly the semantic `round`. A fault
    /// ends the run: the offending step leaves the store and the output
    /// untouched, and the pool is dropped.
    pub fn run_round(&mut self) -> (r: Result<(), VmError>)
        requires
            old(self).wf(),
        ensures
            final(self).wf(),
            final(self).program() == old(self).program(),
            ({
                let fin = round(old(self).program(), old(self).sched());
                &&& final(self).sched() == (SchedState {
                    pool: fin.pool,
                    store: fin.store,
                    output: fin.output,
                    error: None,
                })
                &&& r == (match fin.error {
                    None => Ok::<(), VmError>(()),
                    Some(e) => Err::<(), VmError>(e),
                })
            }),
    {
        let ghost p = prog_view(self.byte_codes@);
        let ghost pool0 = pool_view(self.coroutines@);
        let ghost store0 = self.store@;
        let ghost out0 = self.output@;
        let mut snapshot: Vec<Coroutine> = Vec::new();
        std::mem::swap(&mut snapshot, &mut self.coroutines);
        let mut spawned: Vec<Coroutine> = Vec::new();
        let mut survivors: Vec<Coroutine> = Vec::new();
        proof {
            assert(pool_view(self.coroutines@) =~= Seq::<CoroModel>::empty());
            assert(pool_view(spawned@) =~= Seq::<CoroModel>::empty());
            assert(pool_view(survivors@) =~= Seq::<CoroModel>::empty());
        }
        while snapshot.len() > 0
            invariant
                self.store.wf(),
                prog_view(self.byte_codes@) == p,
                old(self).program() == p,
                old(self).sched() == (SchedState {
                    pool: pool0,
                    store: store0,
                    output: out0,
                    error: None,
                }),
                self.coroutines@.len() == 0,
                round_go(p, pool0, store0, Seq::empty(), Seq::empty(), out0) == round_go(
                    p,
                    pool_view(snapshot@),
                    self.store@,
                    pool_view(spawned@),
                    pool_view(survivors@),
                    self.output@,
                ),
            decreases snapshot.len(),
        {
            let ghost snapshot_pre = pool_view(snapshot@);
            let ghost survivors_pre = pool_view(survivors@);
            let mut coroutine = snapshot.remove(0);
            proof {
                assert(pool_view(snapshot@) =~= snapshot_pre.drop_first());
                assert(snapshot_pre[0] == coroutine@);
            }
            match coroutine.execute_byte_code(
                &mut spawned,
                &mut self.store,
                &self.byte_codes,
                &mut self.output,
            ) {
                Ok(works) => {
                    if works {
                        survivors.push(coroutine);
                        proof {
                            assert(pool_view(survivors@) =~= survivors_pre.push(coroutine@));
                        }
                    }
                },
                Err(e) => {
                    proof {
                        assert(pool_view(self.coroutines@) =~= Seq::<CoroModel>::empty());
                    }
                    return Err(e);
                },
            }
        }
        proof {
            assert(pool_view(snapshot@) =~= Seq::<CoroModel>::empty());
        }
        spawned.append(&mut survivors);
        self.coroutines = spawned;
        proof {
            assert(pool_view(self.coroutines@) =~= round_go(
                p,
                pool0,
                store0,
                Seq::empty(),
                Seq::empty(),
                out0,
            ).pool);
        }
        Ok(())
    }

    /// Seed the pool with one context at address 0 and give every live
    /// context one instruction step per round, for at most `max_rounds`
    /// rounds: exactly `run_n` of the semantics from the seeded state.
    ///
    /// `Ok(true)` says the pool emptied — the run is complete — and
    /// `Ok(false)` that live (possibly permanently blocked) contexts
    /// remain after `max_rounds` rounds: the machine itself has no global
    /// step limit, and an unsatisfiable channel wait never finishes, so
    /// the caller chooses how long to keep going (`run_round` continues a
    /// run one round at a time).
    pub fn run(&mut self, max_rounds: usize) -> (r: Result<bool, VmError>)
        requires
            old(self).wf(),
        ensures
            final(self).wf(),
            final(self).program() == old(self).program(),
            ({
                let seeded = SchedState {
                    pool: seq![
                        (CoroModel { pc: 0, stack: Seq::empty() }),
                    ] + old(self).sched().pool,
                    store: old(self).sched().store,
                    output: old(self).sched().output,
                    error: None,
                };
                let fin = run_n(old(self).program(), seeded, max_rounds as nat);
                &&& final(self).sched() == (SchedState {
                    pool: fin.pool,
                    store: fin.store,
                    output: fin.output,
                    error: None,
                })
                &&& (match r {
                    Ok(done) => fin.error is None && done == (fin.pool.len() == 0),
                    Err(e) => fin.error == Some(e),
                })
            }),
    {
        let ghost p = self.program();
        self.coroutines.insert(0, Coroutine::new(0));
        let ghost seeded = self.sched();
        proof {
            assert(seeded.pool =~= seq![
                (CoroModel { pc: 0, stack: Seq::empty() }),
            ] + old(self).sched().pool);
        }
        let mut i: usize = 0;
        while i < max_rounds
            invariant
                self.wf(),
                self.program() == p,
                old(self).program() == p,
                seeded == (SchedState {
                    pool: seq![
                        (CoroModel { pc: 0, stack: Seq::empty() }),
                    ] + old(self).sched().pool,
                    store: old(self).sched().store,
                    output: old(self).sched().output,
                    error: None,
                }),
                i <= max_rounds,
                run_n(p, seeded, i as nat).error is None,
                self.sched() == run_n(p, seeded, i as nat),
            decreases max_rounds - i,
        {
            if self.coroutines.len() == 0 {
                proof {
                    lemma_run_n_add(p, seeded, i as nat, (max_rounds - i) as nat);
                    lemma_run_n_stable(p, run_n(p, seeded, i as nat), (max_rounds - i) as nat);
                }
                return Ok(true);
            }
            match self.run_round() {
                Ok(()) => {},
                Err(e) => {
                    proof {
                        lemma_run_n_add(p, seeded, (i + 1) as nat, (max_rounds - i - 1) as nat);
                        lemma_run_n_stable(
                            p,
                            run_n(p, seeded, (i + 1) as nat),
                            (max_rounds - i - 1) as nat,
                        );
                    }
                    return Err(e);
                },
            }
            i = i + 1;
        }
        Ok(self.coroutines.len() == 0)
    }
}

} // verus!
