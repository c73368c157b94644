//! The reference semantics of programs, and the tree-walking interpreter
//! that implements it.
use vstd::prelude::*;
use crate::builtins::{Resolved, RuntimeError, call, call_spec, resolved_model};
use crate::program::{Expr, Stmt};
use crate::value::{
    Segment, Val, Value, copy_value, get_path, get_spec, items_model, set_path, set_spec, values_equal,
};

verus! {

/// What a program can read and write: the record and the local slots.
pub ghost struct State {
    pub target: Val,
    pub slots: Seq<Val>,
}

/// The model of a record and a slot array.
pub open spec fn state_of(target: Value, slots: Vec<Value>) -> State {
    State { target: target@, slots: items_model(slots) }
}

/// The value of slot `i`; a slot that does not exist reads as `Null`.
pub open spec fn slot_value(slots: Seq<Val>, i: int) -> Val {
    if 0 <= i < slots.len() {
        slots[i]
    } else {
        Val::Null
    }
}

/// A condition holds when it is the boolean `true`.
pub open spec fn truthy(v: Val) -> bool {
    v == Val::Boolean(true)
}

/// The outcome of evaluating `e` in `st`.
pub open spec fn eval_spec(e: Expr, st: State) -> Result<Val, RuntimeError>
    decreases e,
{
    match e {
        Expr::Literal(v) => Ok(v@),
        Expr::Target(p) => Ok(get_spec(st.target, p@)),
        Expr::Variable(i, p) => Ok(get_spec(slot_value(st.slots, i as int), p@)),
        Expr::Call(f, a) => call_spec(f, eval_spec(*a, st)),
        Expr::Equal(a, b) => match eval_spec(*a, st) {
            Err(err) => Err(err),
            Ok(x) => match eval_spec(*b, st) {
                Err(err) => Err(err),
                Ok(y) => Ok(Val::Boolean(x == y)),
            },
        },
        Expr::Coalesce(a, b) => match eval_spec(*a, st) {
            Ok(x) => Ok(x),
            Err(_) => eval_spec(*b, st),
        },
    }
}

/// The outcome of running statement `s` from `st`, and the state after it.
///
/// An assignment whose value fails changes nothing.
pub open spec fn stmt_spec(s: Stmt, st: State) -> (Result<Val, RuntimeError>, State)
    decreases s, 0int,
{
    match s {
        Stmt::AssignTarget(p, e) => match eval_spec(e, st) {
            Err(err) => (Err(err), st),
            Ok(v) => (Ok(v), State { target: set_spec(st.target, p@, v), ..st }),
        },
        Stmt::AssignVariable(i, p, e) => match eval_spec(e, st) {
            Err(err) => (Err(err), st),
            Ok(v) => if i < st.slots.len() {
                (
                    Ok(v),
                    State {
                        slots: st.slots.update(i as int, set_spec(st.slots[i as int], p@, v)),
                        ..st
                    },
                )
            } else {
                (Ok(v), st)
            },
        },
        Stmt::If(c, yes, no) => match eval_spec(c, st) {
            Err(err) => (Err(err), st),
            Ok(v) => if truthy(v) {
                block_spec(yes@, 0, st, Val::Null)
            } else {
                block_spec(no@, 0, st, Val::Null)
            },
        },
        Stmt::Expr(e) => (eval_spec(e, st), st),
    }
}

/// The outcome of running `ss` from index `i` on, where `last` is the value
/// of the statement before; the first error ends the run.
pub open spec fn block_spec(ss: Seq<Stmt>, i: int, st: State, last: Val) -> (
    Result<Val, RuntimeError>,
    State,
)
    decreases ss, ss.len() - i,
{
    if i < 0 || i >= ss.len() {
        (Ok(last), st)
    } else {
        let (r, st2) = stmt_spec(ss[i], st);
        match r {
            Err(err) => (Err(err), st2),
            Ok(v) => block_spec(ss, i + 1, st2, v),
        }
    }
}

/// Evaluates `e` against the record and the slots.
pub fn eval_expr(e: &Expr, target: &Value, slots: &Vec<Value>) -> (r: Resolved)
    ensures
        resolved_model(r) == eval_spec(*e, state_of(*target, *slots)),
    decreases e,
{
    match e {
        Expr::Literal(v) => Ok(copy_value(v)),
        Expr::Target(p) => Ok(get_path(target, p)),
        Expr::Variable(i, p) => {
            if *i < slots.len() {
                Ok(get_path(&slots[*i], p))
            } else {
                let empty = Value::Null;
                Ok(get_path(&empty, p))
            }
        },
        Expr::Call(f, a) => {
            let mut arg = eval_expr(a, target, slots);
            let mut out: Resolved = Ok(Value::Null);
            call(*f, &mut arg, &mut out);
            out
        },
        Expr::Equal(a, b) => {
            let x = eval_expr(a, target, slots);
            match x {
                Err(err) => Err(err),
                Ok(x) => {
                    let y = eval_expr(b, target, slots);
                    match y {
                        Err(err) => Err(err),
                        Ok(y) => Ok(Value::Boolean(values_equal(&x, &y))),
                    }
                },
            }
        },
        Expr::Coalesce(a, b) => {
            let x = eval_expr(a, target, slots);
            match x {
                Ok(x) => Ok(x),
                Err(_) => eval_expr(b, target, slots),
            }
        },
    }
}

/// Stores `v` at `path` inside slot `i`; a slot that does not exist is
/// left alone.
pub fn store_variable(slots: &mut Vec<Value>, i: usize, path: &Vec<Segment>, v: Value)
    ensures
        items_model(*final(slots)) == if i < old(slots).len() {
            items_model(*old(slots)).update(
                i as int,
                set_spec(items_model(*old(slots))[i as int], path@, v@),
            )
        } else {
            items_model(*old(slots))
        },
{
    if i < slots.len() {
        let ghost before = items_model(*slots);
        let mut slot = Value::Null;
        core::mem::swap(&mut slot, &mut slots[i]);
        set_path(&mut slot, path, v);
        slots.set(i, slot);
        assert(items_model(*slots) =~= before.update(i as int, set_spec(before[i as int], path@, v@)));
    }
}

/// Runs one statement against the record and the slots.
pub fn exec_stmt(s: &Stmt, target: &mut Value, slots: &mut Vec<Value>) -> (r: Resolved)
    ensures
        (resolved_model(r), state_of(*final(target), *final(slots))) == stmt_spec(
            *s,
            state_of(*old(target), *old(slots)),
        ),
    decreases *s,
{
    match s {
        Stmt::AssignTarget(p, e) => {
            let x = eval_expr(e, target, slots);
            match x {
                Err(err) => Err(err),
                Ok(v) => {
                    let c = copy_value(&v);
                    set_path(target, p, c);
                    Ok(v)
                },
            }
        },
        Stmt::AssignVariable(i, p, e) => {
            let x = eval_expr(e, target, slots);
            match x {
                Err(err) => Err(err),
                Ok(v) => {
                    let c = copy_value(&v);
                    store_variable(slots, *i, p, c);
                    Ok(v)
                },
            }
        },
        Stmt::If(c, yes, no) => {
            let x = eval_expr(c, target, slots);
            match x {
                Err(err) => Err(err),
                Ok(v) => {
                    let holds = match v {
                        Value::Boolean(b) => b,
                        _ => false,
                    };
                    if holds {
                        exec_block(yes, target, slots)
                    } else {
                        exec_block(no, target, slots)
                    }
                },
            }
        },
        Stmt::Expr(e) => eval_expr(e, target, slots),
    }
}

/// Runs a sequence of statements; the first error ends the run. The value
/// of the last statement is the outcome, `Null` for an empty sequence.
pub fn exec_block(ss: &Vec<Stmt>, target: &mut Value, slots: &mut Vec<Value>) -> (r: Resolved)
    ensures
        (resolved_model(r), state_of(*final(target), *final(slots))) == block_spec(
            ss@,
            0,
            state_of(*old(target), *old(slots)),
            Val::Null,
        ),
    decreases *ss,
{
    let mut last = Value::Null;
    let mut i: usize = 0;
    while i < ss.len()
        invariant
            i <= ss.len(),
            block_spec(ss@, 0, state_of(*old(target), *old(slots)), Val::Null) == block_spec(
                ss@,
                i as int,
                state_of(*target, *slots),
                last@,
            ),
        decreases ss.len() - i,
    {
        proof {
            assert(decreases_to!(*ss => ss@));
            assert(decreases_to!(ss@ => ss@[i as int]));
        }
        let r = exec_stmt(&ss[i], target, slots);
        match r {
            Err(err) => {
                return Err(err);
            },
            Ok(v) => {
                last = v;
            },
        }
        i = i + 1;
    }
    Ok(last)
}

/// A statement whose value or condition fails applies none of its
/// assignments: the record and the slots stay as they were, and the error
/// is its outcome.
pub proof fn lemma_failed_statement_changes_nothing(s: Stmt, st: State)
    requires
        match s {
            Stmt::AssignTarget(_, e) => eval_spec(e, st) is Err,
            Stmt::AssignVariable(_, _, e) => eval_spec(e, st) is Err,
            Stmt::If(c, _, _) => eval_spec(c, st) is Err,
            Stmt::Expr(e) => eval_spec(e, st) is Err,
        },
    ensures
        stmt_spec(s, st).1 == st,
        stmt_spec(s, st).0 is Err,
{
}

/// When a statement of a sequence fails, the run stops there: its outcome
/// is that error, and no later statement runs.
pub proof fn lemma_block_stops_at_error(ss: Seq<Stmt>, i: int, st: State, last: Val)
    requires
        0 <= i < ss.len(),
        stmt_spec(ss[i], st).0 is Err,
    ensures
        block_spec(ss, i, st, last) == stmt_spec(ss[i], st),
{
}

} // verus!
