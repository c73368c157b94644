use vrl::builtins::{Builtin, Resolved, RuntimeError};
use vrl::program::{Expr, Program, Stmt};
use vrl::runtime::Runtime;
use vrl::value::{Segment, Value, copy_value, get_path, values_equal};
use vrl::vm::{Instruction, compile};

fn bytes(s: &str) -> Value {
    Value::Bytes(s.to_string())
}

fn path(keys: &[&str]) -> Vec<Segment> {
    keys.iter().map(|k| Segment::Field(k.to_string())).collect()
}

fn object(entries: Vec<(&str, Value)>) -> Value {
    Value::Object(entries.into_iter().map(|(k, v)| (k.to_string(), v)).collect())
}

fn target(keys: &[&str]) -> Expr {
    Expr::Target(path(keys))
}

fn call(f: Builtin, e: Expr) -> Expr {
    Expr::Call(f, Box::new(e))
}

fn same_outcome(a: &Resolved, b: &Resolved) -> bool {
    match (a, b) {
        (Ok(x), Ok(y)) => values_equal(x, y),
        (Err(x), Err(y)) => x == y,
        _ => false,
    }
}

/// Runs `program` on a copy of `record` through both backends, checks that
/// they agree, and returns the outcome and the record after the run.
fn run_both(program: &Program, record: &Value) -> (Resolved, Value) {
    let mut walked = copy_value(record);
    let ast = Runtime::new().resolve(&mut walked, program);
    let bytecode = compile(program);
    let mut run = copy_value(record);
    let vm = Runtime::new().run_vm(&bytecode, &mut run);
    assert!(same_outcome(&ast, &vm), "ast {:?}, vm {:?}", ast, vm);
    assert!(values_equal(&walked, &run), "ast {:?}, vm {:?}", walked, run);
    (vm, run)
}

#[test]
fn upcase_on_both_backends() {
    let program = Program {
        statements: vec![Stmt::AssignTarget(path(&["a"]), call(Builtin::Upcase, target(&["b"])))],
        slot_count: 0,
    };
    let (r, record) = run_both(&program, &object(vec![("b", bytes("hi"))]));
    assert!(same_outcome(&r, &Ok(bytes("HI"))));
    assert!(values_equal(&get_path(&record, &path(&["a"])), &bytes("HI")));
    assert!(values_equal(&get_path(&record, &path(&["b"])), &bytes("hi")));
}

#[test]
fn missing_path_on_both_backends() {
    let program = Program {
        statements: vec![Stmt::AssignTarget(path(&["a"]), target(&["b", "c"]))],
        slot_count: 0,
    };
    let (r, record) = run_both(&program, &object(vec![]));
    assert!(same_outcome(&r, &Ok(Value::Null)));
    assert!(values_equal(&record, &object(vec![("a", Value::Null)])));
}

#[test]
fn variable_on_both_backends() {
    let program = Program {
        statements: vec![
            Stmt::AssignVariable(0, vec![], Expr::Literal(object(vec![("noog", bytes("nork"))]))),
            Stmt::Expr(Expr::Variable(0, path(&["noog"]))),
        ],
        slot_count: 1,
    };
    let (r, record) = run_both(&program, &object(vec![]));
    assert!(same_outcome(&r, &Ok(bytes("nork"))));
    assert!(values_equal(&record, &object(vec![])));
}

fn branching_program() -> Program {
    let is = |s: &str| {
        Expr::Equal(Box::new(target(&["status"])), Box::new(Expr::Literal(bytes(s))))
    };
    Program {
        statements: vec![
            Stmt::AssignTarget(path(&["hostname"]), Expr::Literal(bytes("vector"))),
            Stmt::If(
                is("warning"),
                vec![Stmt::AssignTarget(
                    path(&["thing"]),
                    call(Builtin::Upcase, target(&["hostname"])),
                )],
                vec![Stmt::If(
                    is("notice"),
                    vec![Stmt::AssignTarget(
                        path(&["thung"]),
                        call(Builtin::Downcase, target(&["hostname"])),
                    )],
                    vec![Stmt::AssignTarget(
                        path(&["nong"]),
                        call(Builtin::Upcase, target(&["hostname"])),
                    )],
                )],
            ),
        ],
        slot_count: 0,
    }
}

#[test]
fn branches_on_both_backends() {
    let program = branching_program();
    let (r, record) = run_both(&program, &object(vec![("status", bytes("warning"))]));
    assert!(same_outcome(&r, &Ok(bytes("VECTOR"))));
    assert!(values_equal(&get_path(&record, &path(&["thing"])), &bytes("VECTOR")));
    let (r, record) = run_both(&program, &object(vec![("status", bytes("notice"))]));
    assert!(same_outcome(&r, &Ok(bytes("vector"))));
    assert!(values_equal(&get_path(&record, &path(&["thung"])), &bytes("vector")));
    let (r, record) = run_both(&program, &object(vec![("status", Value::Integer(3))]));
    assert!(same_outcome(&r, &Ok(bytes("VECTOR"))));
    assert!(values_equal(&get_path(&record, &path(&["nong"])), &bytes("VECTOR")));
}

#[test]
fn errors_on_both_backends() {
    let program = Program {
        statements: vec![
            Stmt::AssignTarget(path(&["a"]), Expr::Literal(bytes("x"))),
            Stmt::AssignTarget(path(&["b"]), call(Builtin::Downcase, Expr::Literal(Value::Integer(1)))),
            Stmt::AssignTarget(path(&["c"]), Expr::Literal(bytes("never"))),
        ],
        slot_count: 0,
    };
    let (r, record) = run_both(&program, &object(vec![]));
    assert!(same_outcome(&r, &Err(RuntimeError::ExpectedBytes(Builtin::Downcase))));
    assert!(values_equal(&record, &object(vec![("a", bytes("x"))])));

    let recovered = Program {
        statements: vec![Stmt::Expr(Expr::Coalesce(
            Box::new(call(Builtin::String, Expr::Literal(Value::Boolean(true)))),
            Box::new(Expr::Literal(Value::Integer(9))),
        ))],
        slot_count: 0,
    };
    let (r, _) = run_both(&recovered, &object(vec![]));
    assert!(same_outcome(&r, &Ok(Value::Integer(9))));

    let bad_condition = Program {
        statements: vec![Stmt::If(
            call(Builtin::Upcase, Expr::Literal(Value::Null)),
            vec![Stmt::AssignTarget(path(&["x"]), Expr::Literal(Value::Null))],
            vec![],
        )],
        slot_count: 0,
    };
    let (r, record) = run_both(&bad_condition, &object(vec![]));
    assert!(same_outcome(&r, &Err(RuntimeError::ExpectedBytes(Builtin::Upcase))));
    assert!(values_equal(&record, &object(vec![])));
}

#[test]
fn vm_reuse_after_clear() {
    let first = Program {
        statements: vec![Stmt::AssignVariable(0, vec![], Expr::Literal(bytes("kept")))],
        slot_count: 1,
    };
    let second = Program {
        statements: vec![Stmt::Expr(Expr::Variable(0, vec![]))],
        slot_count: 1,
    };
    let mut runtime = Runtime::new();
    let mut record = object(vec![]);
    assert!(same_outcome(&runtime.run_vm(&compile(&first), &mut record), &Ok(bytes("kept"))));
    assert!(same_outcome(&runtime.run_vm(&compile(&second), &mut record), &Ok(bytes("kept"))));
    runtime.clear();
    assert!(same_outcome(&runtime.run_vm(&compile(&second), &mut record), &Ok(Value::Null)));
}

#[test]
fn compiled_branch_layout() {
    // if true { .a = 1 } else { }
    let program = Program {
        statements: vec![Stmt::If(
            Expr::Literal(Value::Boolean(true)),
            vec![Stmt::AssignTarget(path(&["a"]), Expr::Literal(Value::Integer(1)))],
            vec![],
        )],
        slot_count: 0,
    };
    let code = compile(&program).instructions;
    assert_eq!(code.len(), 7);
    assert!(matches!(code[1], Instruction::JumpUnless(3)));
    assert!(matches!(code[2], Instruction::ResetResult));
    assert!(matches!(code[5], Instruction::Jump(1)));
    assert!(matches!(code[6], Instruction::ResetResult));
}
