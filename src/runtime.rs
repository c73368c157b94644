//! The runtime driver: the slot array that programs run against, reused
//! from one record to the next.
use vstd::prelude::*;
use crate::builtins::{Resolved, RuntimeError, resolved_model};
use crate::interp::{State, block_spec, exec_block};
use crate::program::Program;
use crate::value::{Val, Value, items_model};
use crate::vm::{Bytecode, compile_program, execute, lemma_vm_agrees_with_interpreter, ops, vm_spec};

verus! {

/// The slots `slots` extended with `Null` up to `n` of them.
pub open spec fn prepared(slots: Seq<Val>, n: nat) -> Seq<Val> {
    if slots.len() >= n {
        slots
    } else {
        slots + Seq::new((n - slots.len()) as nat, |j: int| Val::Null)
    }
}

/// The outcome of running program `p` on record `target` from the slots
/// `slots`, and the state after it.
pub open spec fn run_spec(p: Program, target: Val, slots: Seq<Val>) -> (
    Result<Val, RuntimeError>,
    State,
) {
    block_spec(
        p.statements@,
        0,
        State { target, slots: prepared(slots, p.slot_count as nat) },
        Val::Null,
    )
}

/// The outcome of running bytecode `b` on record `target` from the slots
/// `slots`, and the state after it.
pub open spec fn vm_run_spec(b: Bytecode, target: Val, slots: Seq<Val>) -> (
    Result<Val, RuntimeError>,
    State,
) {
    vm_spec(
        ops(b.instructions@),
        0,
        Seq::empty(),
        State { target, slots: prepared(slots, b.slot_count as nat) },
        Val::Null,
    )
}

/// Holds the local slots across runs. One driver serves one run at a time.
pub struct Runtime {
    slots: Vec<Value>,
}

impl View for Runtime {
    type V = Seq<Val>;

    closed spec fn view(&self) -> Seq<Val> {
        items_model(self.slots)
    }
}

impl Runtime {
    /// A driver with no slots in use.
    pub fn new() -> (r: Runtime)
        ensures
            r@ == Seq::<Val>::empty(),
    {
        let r = Runtime { slots: Vec::new() };
        assert(r@ =~= Seq::<Val>::empty());
        r
    }

    /// Forgets every slot's value; the storage is kept for the next run.
    pub fn clear(&mut self)
        ensures
            final(self)@ == Seq::<Val>::empty(),
    {
        self.slots.clear();
        assert(self@ =~= Seq::<Val>::empty());
    }

    /// Extends the slots with `Null` up to `n` of them.
    fn prepare(&mut self, n: usize)
        ensures
            final(self)@ == prepared(old(self)@, n as nat),
    {
        let ghost start = items_model(self.slots);
        while self.slots.len() < n
            invariant
                start.len() <= self.slots.len(),
                start.len() >= n ==> self.slots.len() == start.len(),
                start.len() < n ==> self.slots.len() <= n,
                items_model(self.slots) =~= start + Seq::new(
                    (self.slots.len() - start.len()) as nat,
                    |j: int| Val::Null,
                ),
            decreases n - self.slots.len(),
        {
            let ghost before = items_model(self.slots);
            self.slots.push(Value::Null);
            assert(crate::value::model(self.slots@[self.slots.len() - 1]) == Val::Null);
            assert(items_model(self.slots) =~= before.push(Val::Null));
        }
        proof {
            if start.len() >= n {
                assert(items_model(self.slots) =~= start);
            } else {
                assert(items_model(self.slots) =~= prepared(start, n as nat));
            }
        }
    }

    /// Runs `program` on `target` by walking its statements.
    pub fn resolve(&mut self, target: &mut Value, program: &Program) -> (r: Resolved)
        ensures
            (resolved_model(r), State { target: final(target)@, slots: final(self)@ }) == run_spec(
                *program,
                old(target)@,
                old(self)@,
            ),
    {
        self.prepare(program.slot_count);
        exec_block(&program.statements, target, &mut self.slots)
    }

    /// Runs compiled bytecode on `target`.
    pub fn run_vm(&mut self, program: &Bytecode, target: &mut Value) -> (r: Resolved)
        ensures
            (resolved_model(r), State { target: final(target)@, slots: final(self)@ })
                == vm_run_spec(*program, old(target)@, old(self)@),
    {
        self.prepare(program.slot_count);
        execute(&program.instructions, target, &mut self.slots)
    }
}

/// A run depends on the program, the record and the slots alone: the same
/// inputs give the same outcome and the same final state.
pub proof fn lemma_run_deterministic(p: Program, t1: Val, t2: Val, s1: Seq<Val>, s2: Seq<Val>)
    requires
        t1 == t2,
        s1 == s2,
    ensures
        run_spec(p, t1, s1) == run_spec(p, t2, s2),
{
}

/// After `clear`, a driver runs any program exactly as a new driver does,
/// whatever it ran before: `clear` leaves the slots of a new driver, and a
/// run depends on nothing else of the driver.
pub proof fn lemma_cleared_runs_as_new(second: Program, t: Val, cleared: Seq<Val>)
    requires
        cleared == Seq::<Val>::empty(),
    ensures
        run_spec(second, t, cleared) == run_spec(second, t, Seq::<Val>::empty()),
{
}

/// The two backends agree: bytecode compiled from a program, run from any
/// slots on any record, gives the outcome, record and slots that walking
/// the program gives.
pub proof fn lemma_backends_agree(p: Program, b: Bytecode, target: Val, slots: Seq<Val>)
    requires
        ops(b.instructions@) == compile_program(p),
        b.slot_count == p.slot_count,
    ensures
        vm_run_spec(b, target, slots) == run_spec(p, target, slots),
{
    lemma_vm_agrees_with_interpreter(p, target, slots);
}

} // verus!
