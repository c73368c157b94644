//! The bytecode backend: a compiler from resolved programs to a linear
//! instruction sequence, and a stack machine that runs it.
//!
//! The operand stack holds outcomes, errors included: an expression's code
//! never jumps, and an error only ends the run where a statement consumes
//! it. The recovery form therefore needs no handler table.
use vstd::prelude::*;
use crate::builtins::{Builtin, Resolved, RuntimeError, call, call_spec, resolved_model};
use crate::interp::{
    State, block_spec, eval_spec, slot_value, state_of, stmt_spec, store_variable, truthy,
};
use crate::program::{Expr, Program, Stmt};
use crate::runtime::{prepared, run_spec};
use crate::value::{
    Segment, Val, Value, copy_path, copy_value, get_path, get_spec, set_path, set_spec,
    values_equal,
};

verus! {

/// One bytecode instruction.
#[derive(Debug)]
pub enum Instruction {
    /// Pushes a constant.
    Push(Value),
    /// Pushes the value at a path of the record.
    GetTarget(Vec<Segment>),
    /// Pushes the value at a path inside a slot.
    GetVariable(usize, Vec<Segment>),
    /// Pops an argument, calls a built-in on it, pushes the outcome.
    Call(Builtin),
    /// Pops two outcomes and pushes whether they are equal values.
    Equal,
    /// Pops two outcomes and pushes the first unless it is an error.
    Coalesce,
    /// Pops a value and stores it at a path of the record.
    SetTarget(Vec<Segment>),
    /// Pops a value and stores it at a path inside a slot.
    SetVariable(usize, Vec<Segment>),
    /// Pops a value and makes it the current result.
    SetResult,
    /// Makes `Null` the current result.
    ResetResult,
    /// Pops a condition; unless it is `true`, skips the given number of
    /// instructions and the one after them.
    JumpUnless(usize),
    /// Skips the given number of instructions.
    Jump(usize),
}

/// The model of an [`Instruction`].
pub ghost enum Op {
    Push(Val),
    GetTarget(Seq<Segment>),
    GetVariable(usize, Seq<Segment>),
    Call(Builtin),
    Equal,
    Coalesce,
    SetTarget(Seq<Segment>),
    SetVariable(usize, Seq<Segment>),
    SetResult,
    ResetResult,
    JumpUnless(nat),
    Jump(nat),
}

pub open spec fn op_of(i: Instruction) -> Op {
    match i {
        Instruction::Push(v) => Op::Push(v@),
        Instruction::GetTarget(p) => Op::GetTarget(p@),
        Instruction::GetVariable(s, p) => Op::GetVariable(s, p@),
        Instruction::Call(f) => Op::Call(f),
        Instruction::Equal => Op::Equal,
        Instruction::Coalesce => Op::Coalesce,
        Instruction::SetTarget(p) => Op::SetTarget(p@),
        Instruction::SetVariable(s, p) => Op::SetVariable(s, p@),
        Instruction::SetResult => Op::SetResult,
        Instruction::ResetResult => Op::ResetResult,
        Instruction::JumpUnless(n) => Op::JumpUnless(n as nat),
        Instruction::Jump(n) => Op::Jump(n as nat),
    }
}

/// The model of an instruction sequence.
pub open spec fn ops(code: Seq<Instruction>) -> Seq<Op> {
    code.map_values(|i: Instruction| op_of(i))
}

/// The code of an expression: it leaves the expression's outcome on the
/// stack.
pub open spec fn compile_expr(e: Expr) -> Seq<Op>
    decreases e,
{
    match e {
        Expr::Literal(v) => seq![Op::Push(v@)],
        Expr::Target(p) => seq![Op::GetTarget(p@)],
        Expr::Variable(i, p) => seq![Op::GetVariable(i, p@)],
        Expr::Call(f, a) => compile_expr(*a) + seq![Op::Call(f)],
        Expr::Equal(a, b) => compile_expr(*a) + compile_expr(*b) + seq![Op::Equal],
        Expr::Coalesce(a, b) => compile_expr(*a) + compile_expr(*b) + seq![Op::Coalesce],
    }
}

/// The code of a branch: the result is reset, then its statements run.
pub open spec fn compile_branch(ss: Seq<Stmt>) -> Seq<Op>
    decreases ss, 1int,
{
    seq![Op::ResetResult] + compile_block(ss, 0)
}

/// The code of a statement.
pub open spec fn compile_stmt(s: Stmt) -> Seq<Op>
    decreases s, 2int,
{
    match s {
        Stmt::AssignTarget(p, e) => compile_expr(e) + seq![Op::SetTarget(p@)],
        Stmt::AssignVariable(i, p, e) => compile_expr(e) + seq![Op::SetVariable(i, p@)],
        Stmt::If(c, yes, no) => {
            let y = compile_branch(yes@);
            let n = compile_branch(no@);
            compile_expr(c) + seq![Op::JumpUnless(y.len())] + y + seq![Op::Jump(n.len())] + n
        },
        Stmt::Expr(e) => compile_expr(e) + seq![Op::SetResult],
    }
}

/// The code of the statements of `ss` from index `i` on.
pub open spec fn compile_block(ss: Seq<Stmt>, i: int) -> Seq<Op>
    decreases ss, 0int, ss.len() - i,
{
    if i < 0 || i >= ss.len() {
        Seq::empty()
    } else {
        compile_stmt(ss[i]) + compile_block(ss, i + 1)
    }
}

/// The code of a whole program.
pub open spec fn compile_program(p: Program) -> Seq<Op> {
    compile_block(p.statements@, 0)
}

/// The top of the stack and the rest; an empty stack yields `Null`.
pub open spec fn pop_spec(stack: Seq<Result<Val, RuntimeError>>) -> (
    Result<Val, RuntimeError>,
    Seq<Result<Val, RuntimeError>>,
) {
    if stack.len() == 0 {
        (Ok(Val::Null), stack)
    } else {
        (stack.last(), stack.drop_last())
    }
}

/// Deep equality of two outcomes; the first error wins.
pub open spec fn equal_spec(x: Result<Val, RuntimeError>, y: Result<Val, RuntimeError>) -> Result<
    Val,
    RuntimeError,
> {
    match x {
        Err(e) => Err(e),
        Ok(a) => match y {
            Err(e) => Err(e),
            Ok(b) => Ok(Val::Boolean(a == b)),
        },
    }
}

/// The first outcome unless it is an error, else the second.
pub open spec fn coalesce_spec(x: Result<Val, RuntimeError>, y: Result<Val, RuntimeError>) -> Result<
    Val,
    RuntimeError,
> {
    match x {
        Ok(_) => x,
        Err(_) => y,
    }
}

/// The outcome of running `code` from `pc` with operand stack `stack`,
/// state `st` and current result `last`, and the state it ends in.
///
/// Running past the end yields the current result; a statement that
/// consumes an error ends the run with it.
pub open spec fn vm_spec(
    code: Seq<Op>,
    pc: int,
    stack: Seq<Result<Val, RuntimeError>>,
    st: State,
    last: Val,
) -> (Result<Val, RuntimeError>, State)
    decreases code.len() - pc,
{
    if pc < 0 || pc >= code.len() {
        (Ok(last), st)
    } else {
        match code[pc] {
            Op::Push(v) => vm_spec(code, pc + 1, stack.push(Ok(v)), st, last),
            Op::GetTarget(p) => vm_spec(code, pc + 1, stack.push(Ok(get_spec(st.target, p))), st, last),
            Op::GetVariable(i, p) => vm_spec(
                code,
                pc + 1,
                stack.push(Ok(get_spec(slot_value(st.slots, i as int), p))),
                st,
                last,
            ),
            Op::Call(f) => {
                let (a, s1) = pop_spec(stack);
                vm_spec(code, pc + 1, s1.push(call_spec(f, a)), st, last)
            },
            Op::Equal => {
                let (y, s1) = pop_spec(stack);
                let (x, s2) = pop_spec(s1);
                vm_spec(code, pc + 1, s2.push(equal_spec(x, y)), st, last)
            },
            Op::Coalesce => {
                let (y, s1) = pop_spec(stack);
                let (x, s2) = pop_spec(s1);
                vm_spec(code, pc + 1, s2.push(coalesce_spec(x, y)), st, last)
            },
            Op::SetTarget(p) => {
                let (x, s1) = pop_spec(stack);
                match x {
                    Err(e) => (Err(e), st),
                    Ok(v) => vm_spec(
                        code,
                        pc + 1,
                        s1,
                        State { target: set_spec(st.target, p, v), ..st },
                        v,
                    ),
                }
            },
            Op::SetVariable(i, p) => {
                let (x, s1) = pop_spec(stack);
                match x {
                    Err(e) => (Err(e), st),
                    Ok(v) => if i < st.slots.len() {
                        vm_spec(
                            code,
                            pc + 1,
                            s1,
                            State {
                                slots: st.slots.update(
                                    i as int,
                                    set_spec(st.slots[i as int], p, v),
                                ),
                                ..st
                            },
                            v,
                        )
                    } else {
                        vm_spec(code, pc + 1, s1, st, v)
                    },
                }
            },
            Op::SetResult => {
                let (x, s1) = pop_spec(stack);
                match x {
                    Err(e) => (Err(e), st),
                    Ok(v) => vm_spec(code, pc + 1, s1, st, v),
                }
            },
            Op::ResetResult => vm_spec(code, pc + 1, stack, st, Val::Null),
            Op::JumpUnless(n) => {
                let (x, s1) = pop_spec(stack);
                match x {
                    Err(e) => (Err(e), st),
                    Ok(v) => if truthy(v) {
                        vm_spec(code, pc + 1, s1, st, last)
                    } else if pc + 2 + n >= code.len() {
                        (Ok(last), st)
                    } else {
                        vm_spec(code, pc + 2 + n, s1, st, last)
                    },
                }
            },
            Op::Jump(n) => if pc + 1 + n >= code.len() {
                (Ok(last), st)
            } else {
                vm_spec(code, pc + 1 + n, stack, st, last)
            },
        }
    }
}

/// `code` holds `part` from `pc` on.
pub open spec fn holds_at(code: Seq<Op>, pc: int, part: Seq<Op>) -> bool {
    0 <= pc && pc + part.len() <= code.len() && code.subrange(pc, pc + part.len()) == part
}

proof fn lemma_holds_split(code: Seq<Op>, pc: int, a: Seq<Op>, b: Seq<Op>)
    requires
        holds_at(code, pc, a + b),
    ensures
        holds_at(code, pc, a),
        holds_at(code, pc + a.len(), b),
{
    let whole = code.subrange(pc, pc + a.len() + b.len());
    assert(whole == a + b);
    assert(code.subrange(pc, pc + a.len()) =~= whole.subrange(0, a.len() as int));
    assert((a + b).subrange(0, a.len() as int) =~= a);
    assert(code.subrange(pc + a.len(), pc + a.len() + b.len()) =~= whole.subrange(
        a.len() as int,
        (a.len() + b.len()) as int,
    ));
    assert((a + b).subrange(a.len() as int, (a.len() + b.len()) as int) =~= b);
}

proof fn lemma_holds_op(code: Seq<Op>, pc: int, part: Seq<Op>, j: int)
    requires
        holds_at(code, pc, part),
        0 <= j < part.len(),
    ensures
        code[pc + j] == part[j],
{
    assert(code.subrange(pc, pc + part.len())[j] == code[pc + j]);
}

/// An expression's code pushes the expression's outcome and changes
/// nothing else.
proof fn lemma_expr_code(
    code: Seq<Op>,
    pc: int,
    e: Expr,
    stack: Seq<Result<Val, RuntimeError>>,
    st: State,
    last: Val,
)
    requires
        holds_at(code, pc, compile_expr(e)),
    ensures
        vm_spec(code, pc, stack, st, last) == vm_spec(
            code,
            pc + compile_expr(e).len(),
            stack.push(eval_spec(e, st)),
            st,
            last,
        ),
    decreases e,
{
    let c = compile_expr(e);
    match e {
        Expr::Literal(v) => {
            lemma_holds_op(code, pc, c, 0);
        },
        Expr::Target(p) => {
            lemma_holds_op(code, pc, c, 0);
        },
        Expr::Variable(i, p) => {
            lemma_holds_op(code, pc, c, 0);
        },
        Expr::Call(f, a) => {
            let ca = compile_expr(*a);
            lemma_holds_split(code, pc, ca, seq![Op::Call(f)]);
            lemma_expr_code(code, pc, *a, stack, st, last);
            lemma_holds_op(code, pc + ca.len(), seq![Op::Call(f)], 0);
            let s1 = stack.push(eval_spec(*a, st));
            assert(pop_spec(s1) == (eval_spec(*a, st), stack));
        },
        Expr::Equal(a, b) => {
            let ca = compile_expr(*a);
            let cb = compile_expr(*b);
            lemma_holds_split(code, pc, ca + cb, seq![Op::Equal]);
            lemma_holds_split(code, pc, ca, cb);
            lemma_expr_code(code, pc, *a, stack, st, last);
            let s1 = stack.push(eval_spec(*a, st));
            lemma_expr_code(code, pc + ca.len(), *b, s1, st, last);
            let s2 = s1.push(eval_spec(*b, st));
            lemma_holds_op(code, pc + ca.len() + cb.len(), seq![Op::Equal], 0);
            assert(pop_spec(s2) == (eval_spec(*b, st), s1));
            assert(pop_spec(s1) == (eval_spec(*a, st), stack));
        },
        Expr::Coalesce(a, b) => {
            let ca = compile_expr(*a);
            let cb = compile_expr(*b);
            lemma_holds_split(code, pc, ca + cb, seq![Op::Coalesce]);
            lemma_holds_split(code, pc, ca, cb);
            lemma_expr_code(code, pc, *a, stack, st, last);
            let s1 = stack.push(eval_spec(*a, st));
            lemma_expr_code(code, pc + ca.len(), *b, s1, st, last);
            let s2 = s1.push(eval_spec(*b, st));
            lemma_holds_op(code, pc + ca.len() + cb.len(), seq![Op::Coalesce], 0);
            assert(pop_spec(s2) == (eval_spec(*b, st), s1));
            assert(pop_spec(s1) == (eval_spec(*a, st), stack));
        },
    }
}

/// What running a statement's code does: it ends the run where the
/// statement fails, and otherwise continues after the code with the
/// statement's state and value.
pub open spec fn continues(
    code: Seq<Op>,
    after: int,
    stack: Seq<Result<Val, RuntimeError>>,
    outcome: (Result<Val, RuntimeError>, State),
) -> (Result<Val, RuntimeError>, State) {
    match outcome.0 {
        Err(e) => (Err(e), outcome.1),
        Ok(v) => vm_spec(code, after, stack, outcome.1, v),
    }
}

proof fn lemma_stmt_code(
    code: Seq<Op>,
    pc: int,
    s: Stmt,
    stack: Seq<Result<Val, RuntimeError>>,
    st: State,
    last: Val,
)
    requires
        holds_at(code, pc, compile_stmt(s)),
    ensures
        vm_spec(code, pc, stack, st, last) == continues(
            code,
            pc + compile_stmt(s).len(),
            stack,
            stmt_spec(s, st),
        ),
    decreases s, 2int,
{
    match s {
        Stmt::AssignTarget(p, e) => {
            let ce = compile_expr(e);
            lemma_holds_split(code, pc, ce, seq![Op::SetTarget(p@)]);
            lemma_expr_code(code, pc, e, stack, st, last);
            lemma_holds_op(code, pc + ce.len(), seq![Op::SetTarget(p@)], 0);
            assert(pop_spec(stack.push(eval_spec(e, st))) == (eval_spec(e, st), stack));
        },
        Stmt::AssignVariable(i, p, e) => {
            let ce = compile_expr(e);
            lemma_holds_split(code, pc, ce, seq![Op::SetVariable(i, p@)]);
            lemma_expr_code(code, pc, e, stack, st, last);
            lemma_holds_op(code, pc + ce.len(), seq![Op::SetVariable(i, p@)], 0);
            assert(pop_spec(stack.push(eval_spec(e, st))) == (eval_spec(e, st), stack));
        },
        Stmt::Expr(e) => {
            let ce = compile_expr(e);
            lemma_holds_split(code, pc, ce, seq![Op::SetResult]);
            lemma_expr_code(code, pc, e, stack, st, last);
            lemma_holds_op(code, pc + ce.len(), seq![Op::SetResult], 0);
            assert(pop_spec(stack.push(eval_spec(e, st))) == (eval_spec(e, st), stack));
        },
        Stmt::If(c, yes, no) => {
            let cc = compile_expr(c);
            let y = compile_branch(yes@);
            let n = compile_branch(no@);
            let ju = seq![Op::JumpUnless(y.len())];
            let j = seq![Op::Jump(n.len())];
            assert(compile_stmt(s) == cc + ju + y + j + n);
            lemma_holds_split(code, pc, cc + ju + y + j, n);
            lemma_holds_split(code, pc, cc + ju + y, j);
            lemma_holds_split(code, pc, cc + ju, y);
            lemma_holds_split(code, pc, cc, ju);
            lemma_expr_code(code, pc, c, stack, st, last);
            let q = pc + cc.len();
            lemma_holds_op(code, q, ju, 0);
            assert(pop_spec(stack.push(eval_spec(c, st))) == (eval_spec(c, st), stack));
            let end = pc + compile_stmt(s).len();
            match eval_spec(c, st) {
                Err(_) => {},
                Ok(v) => {
                    if truthy(v) {
                        lemma_branch_code(code, q + 1, yes@, stack, st, last);
                        lemma_holds_op(code, q + 1 + y.len(), j, 0);
                        let b = block_spec(yes@, 0, st, Val::Null);
                        if b.0 is Ok {
                            assert(vm_spec(code, q + 1 + y.len(), stack, b.1, b.0->Ok_0)
                                == vm_spec(code, end, stack, b.1, b.0->Ok_0));
                        }
                    } else {
                        lemma_branch_code(code, q + 2 + y.len(), no@, stack, st, last);
                    }
                },
            }
        },
    }
}

proof fn lemma_branch_code(
    code: Seq<Op>,
    pc: int,
    ss: Seq<Stmt>,
    stack: Seq<Result<Val, RuntimeError>>,
    st: State,
    last: Val,
)
    requires
        holds_at(code, pc, compile_branch(ss)),
    ensures
        vm_spec(code, pc, stack, st, last) == continues(
            code,
            pc + compile_branch(ss).len(),
            stack,
            block_spec(ss, 0, st, Val::Null),
        ),
    decreases ss, 1int,
{
    let r = seq![Op::ResetResult];
    lemma_holds_split(code, pc, r, compile_block(ss, 0));
    lemma_holds_op(code, pc, r, 0);
    lemma_block_code(code, pc + 1, ss, 0, stack, st, Val::Null);
}

proof fn lemma_block_code(
    code: Seq<Op>,
    pc: int,
    ss: Seq<Stmt>,
    i: int,
    stack: Seq<Result<Val, RuntimeError>>,
    st: State,
    last: Val,
)
    requires
        holds_at(code, pc, compile_block(ss, i)),
    ensures
        vm_spec(code, pc, stack, st, last) == continues(
            code,
            pc + compile_block(ss, i).len(),
            stack,
            block_spec(ss, i, st, last),
        ),
    decreases ss, 0int, ss.len() - i,
{
    if 0 <= i < ss.len() {
        let cs = compile_stmt(ss[i]);
        let rest = compile_block(ss, i + 1);
        lemma_holds_split(code, pc, cs, rest);
        lemma_stmt_code(code, pc, ss[i], stack, st, last);
        let o = stmt_spec(ss[i], st);
        if o.0 is Ok {
            lemma_block_code(code, pc + cs.len(), ss, i + 1, stack, o.1, o.0->Ok_0);
        }
    }
}

/// The bytecode backend agrees with the reference semantics: running the
/// compiled code of any program on any record and slots gives the same
/// outcome and leaves the same record and slots as walking the program.
pub proof fn lemma_vm_agrees_with_interpreter(p: Program, target: Val, slots: Seq<Val>)
    ensures
        vm_spec(
            compile_program(p),
            0,
            Seq::empty(),
            State { target, slots: prepared(slots, p.slot_count as nat) },
            Val::Null,
        ) == run_spec(p, target, slots),
{
    let code = compile_program(p);
    assert(code.subrange(0, code.len() as int) =~= code);
    lemma_block_code(
        code,
        0,
        p.statements@,
        0,
        Seq::empty(),
        State { target, slots: prepared(slots, p.slot_count as nat) },
        Val::Null,
    );
}

/// A program compiled to bytecode.
pub struct Bytecode {
    pub instructions: Vec<Instruction>,
    pub slot_count: usize,
}

proof fn lemma_ops_add(a: Seq<Instruction>, b: Seq<Instruction>)
    ensures
        ops(a + b) == ops(a) + ops(b),
{
    assert(ops(a + b) =~= ops(a) + ops(b));
}

fn emit(code: &mut Vec<Instruction>, i: Instruction)
    ensures
        ops(final(code)@) == ops(old(code)@) + seq![op_of(i)],
{
    let ghost before = code@;
    code.push(i);
    assert(ops(code@) =~= ops(before) + seq![op_of(i)]);
}

fn emit_all(code: &mut Vec<Instruction>, more: &mut Vec<Instruction>)
    ensures
        ops(final(code)@) == ops(old(code)@) + ops(old(more)@),
{
    let ghost a = code@;
    let ghost b = more@;
    code.append(more);
    proof {
        lemma_ops_add(a, b);
    }
}

fn compile_expr_into(e: &Expr, code: &mut Vec<Instruction>)
    ensures
        ops(final(code)@) == ops(old(code)@) + compile_expr(*e),
    decreases e,
{
    let ghost start = ops(code@);
    match e {
        Expr::Literal(v) => emit(code, Instruction::Push(copy_value(v))),
        Expr::Target(p) => emit(code, Instruction::GetTarget(copy_path(p))),
        Expr::Variable(i, p) => emit(code, Instruction::GetVariable(*i, copy_path(p))),
        Expr::Call(f, a) => {
            compile_expr_into(a, code);
            emit(code, Instruction::Call(*f));
            assert(ops(code@) =~= start + compile_expr(*e));
        },
        Expr::Equal(a, b) => {
            compile_expr_into(a, code);
            compile_expr_into(b, code);
            emit(code, Instruction::Equal);
            assert(ops(code@) =~= start + compile_expr(*e));
        },
        Expr::Coalesce(a, b) => {
            compile_expr_into(a, code);
            compile_expr_into(b, code);
            emit(code, Instruction::Coalesce);
            assert(ops(code@) =~= start + compile_expr(*e));
        },
    }
}

fn compile_branch_code(ss: &Vec<Stmt>) -> (r: Vec<Instruction>)
    ensures
        ops(r@) == compile_branch(ss@),
    decreases *ss, 1int,
{
    let mut code: Vec<Instruction> = Vec::new();
    assert(ops(code@) =~= Seq::<Op>::empty());
    emit(&mut code, Instruction::ResetResult);
    compile_block_into(ss, &mut code);
    assert(ops(code@) =~= compile_branch(ss@));
    code
}

fn compile_stmt_into(s: &Stmt, code: &mut Vec<Instruction>)
    ensures
        ops(final(code)@) == ops(old(code)@) + compile_stmt(*s),
    decreases *s, 2int,
{
    let ghost start = ops(code@);
    match s {
        Stmt::AssignTarget(p, e) => {
            compile_expr_into(e, code);
            emit(code, Instruction::SetTarget(copy_path(p)));
            assert(ops(code@) =~= start + compile_stmt(*s));
        },
        Stmt::AssignVariable(i, p, e) => {
            compile_expr_into(e, code);
            emit(code, Instruction::SetVariable(*i, copy_path(p)));
            assert(ops(code@) =~= start + compile_stmt(*s));
        },
        Stmt::If(c, yes, no) => {
            compile_expr_into(c, code);
            let mut y = compile_branch_code(yes);
            let mut n = compile_branch_code(no);
            emit(code, Instruction::JumpUnless(y.len()));
            emit_all(code, &mut y);
            emit(code, Instruction::Jump(n.len()));
            emit_all(code, &mut n);
            assert(ops(code@) =~= start + compile_stmt(*s));
        },
        Stmt::Expr(e) => {
            compile_expr_into(e, code);
            emit(code, Instruction::SetResult);
            assert(ops(code@) =~= start + compile_stmt(*s));
        },
    }
}

fn compile_block_into(ss: &Vec<Stmt>, code: &mut Vec<Instruction>)
    ensures
        ops(final(code)@) == ops(old(code)@) + compile_block(ss@, 0),
    decreases *ss, 0int, 0int,
{
    let ghost start = ops(code@);
    let mut i: usize = 0;
    while i < ss.len()
        invariant
            i <= ss.len(),
            ops(code@) + compile_block(ss@, i as int) == start + compile_block(ss@, 0),
        decreases ss.len() - i,
    {
        proof {
            assert(decreases_to!(*ss => ss@));
            assert(decreases_to!(ss@ => ss@[i as int]));
        }
        let ghost before = ops(code@);
        compile_stmt_into(&ss[i], code);
        assert(ops(code@) + compile_block(ss@, i + 1) =~= before + compile_block(ss@, i as int));
        i = i + 1;
    }
    assert(ops(code@) =~= ops(code@) + compile_block(ss@, i as int));
}

/// Compiles a program to bytecode.
pub fn compile(program: &Program) -> (r: Bytecode)
    ensures
        ops(r.instructions@) == compile_program(*program),
        r.slot_count == program.slot_count,
{
    let mut code: Vec<Instruction> = Vec::new();
    assert(ops(code@) =~= Seq::<Op>::empty());
    compile_block_into(&program.statements, &mut code);
    assert(ops(code@) =~= compile_program(*program));
    Bytecode { instructions: code, slot_count: program.slot_count }
}

/// The model of an operand stack.
pub open spec fn stack_model(stack: Seq<Resolved>) -> Seq<Result<Val, RuntimeError>> {
    stack.map_values(|r: Resolved| resolved_model(r))
}

fn pop_outcome(stack: &mut Vec<Resolved>) -> (r: Resolved)
    ensures
        (resolved_model(r), stack_model(final(stack)@)) == pop_spec(stack_model(old(stack)@)),
{
    let ghost before = stack@;
    match stack.pop() {
        Some(r) => {
            assert(stack_model(stack@) =~= stack_model(before).drop_last());
            r
        },
        None => Ok(Value::Null),
    }
}

fn push_outcome(stack: &mut Vec<Resolved>, r: Resolved)
    ensures
        stack_model(final(stack)@) == stack_model(old(stack)@).push(resolved_model(r)),
{
    let ghost before = stack@;
    stack.push(r);
    assert(stack_model(stack@) =~= stack_model(before).push(resolved_model(r)));
}

/// Runs bytecode against the record and the slots.
pub fn execute(code: &Vec<Instruction>, target: &mut Value, slots: &mut Vec<Value>) -> (r: Resolved)
    ensures
        (resolved_model(r), state_of(*final(target), *final(slots))) == vm_spec(
            ops(code@),
            0,
            Seq::empty(),
            state_of(*old(target), *old(slots)),
            Val::Null,
        ),
{
    let ghost c = ops(code@);
    let mut stack: Vec<Resolved> = Vec::new();
    let mut last = Value::Null;
    let mut pc: usize = 0;
    assert(stack_model(stack@) =~= Seq::<Result<Val, RuntimeError>>::empty());
    while pc < code.len()
        invariant
            c == ops(code@),
            pc <= code.len(),
            vm_spec(c, 0, Seq::empty(), state_of(*old(target), *old(slots)), Val::Null) == vm_spec(
                c,
                pc as int,
                stack_model(stack@),
                state_of(*target, *slots),
                last@,
            ),
        decreases code.len() - pc,
    {
        assert(c[pc as int] == op_of(code@[pc as int]));
        match &code[pc] {
            Instruction::Push(v) => {
                push_outcome(&mut stack, Ok(copy_value(v)));
                pc = pc + 1;
            },
            Instruction::GetTarget(p) => {
                push_outcome(&mut stack, Ok(get_path(target, p)));
                pc = pc + 1;
            },
            Instruction::GetVariable(i, p) => {
                let v = if *i < slots.len() {
                    get_path(&slots[*i], p)
                } else {
                    let empty = Value::Null;
                    get_path(&empty, p)
                };
                push_outcome(&mut stack, Ok(v));
                pc = pc + 1;
            },
            Instruction::Call(f) => {
                let mut arg = pop_outcome(&mut stack);
                let mut out: Resolved = Ok(Value::Null);
                call(*f, &mut arg, &mut out);
                push_outcome(&mut stack, out);
                pc = pc + 1;
            },
            Instruction::Equal => {
                let y = pop_outcome(&mut stack);
                let x = pop_outcome(&mut stack);
                let r = match x {
                    Err(e) => Err(e),
                    Ok(a) => match y {
                        Err(e) => Err(e),
                        Ok(b) => Ok(Value::Boolean(values_equal(&a, &b))),
                    },
                };
                push_outcome(&mut stack, r);
                pc = pc + 1;
            },
            Instruction::Coalesce => {
                let y = pop_outcome(&mut stack);
                let x = pop_outcome(&mut stack);
                let r = match x {
                    Ok(a) => Ok(a),
                    Err(_) => y,
                };
                push_outcome(&mut stack, r);
                pc = pc + 1;
            },
            Instruction::SetTarget(p) => {
                let x = pop_outcome(&mut stack);
                match x {
                    Err(e) => {
                        return Err(e);
                    },
                    Ok(v) => {
                        let copy = copy_value(&v);
                        set_path(target, p, copy);
                        last = v;
                    },
                }
                pc = pc + 1;
            },
            Instruction::SetVariable(i, p) => {
                let x = pop_outcome(&mut stack);
                match x {
                    Err(e) => {
                        return Err(e);
                    },
                    Ok(v) => {
                        let copy = copy_value(&v);
                        store_variable(slots, *i, p, copy);
                        last = v;
                    },
                }
                pc = pc + 1;
            },
            Instruction::SetResult => {
                let x = pop_outcome(&mut stack);
                match x {
                    Err(e) => {
                        return Err(e);
                    },
                    Ok(v) => {
                        last = v;
                    },
                }
                pc = pc + 1;
            },
            Instruction::ResetResult => {
                last = Value::Null;
                pc = pc + 1;
            },
            Instruction::JumpUnless(n) => {
                let x = pop_outcome(&mut stack);
                match x {
                    Err(e) => {
                        return Err(e);
                    },
                    Ok(v) => {
                        let holds = match v {
                            Value::Boolean(b) => b,
                            _ => false,
                        };
                        if holds {
                            pc = pc + 1;
                        } else {
                            let room = code.len() - pc;
                            if room <= 2 || *n >= room - 2 {
                                return Ok(last);
                            }
                            pc = pc + 2 + *n;
                        }
                    },
                }
            },
            Instruction::Jump(n) => {
                let room = code.len() - pc;
                if *n >= room - 1 {
                    return Ok(last);
                }
                pc = pc + 1 + *n;
            },
        }
    }
    Ok(last)
}

} // verus!
