use vrl::builtins::{Builtin, Resolved, RuntimeError};
use vrl::env::{CompileError, LocalEnv};
use vrl::program::{Expr, Program, Stmt};
use vrl::runtime::Runtime;
use vrl::value::{Segment, Value, get_path, values_equal};

fn bytes(s: &str) -> Value {
    Value::Bytes(s.to_string())
}

fn path(keys: &[&str]) -> Vec<Segment> {
    keys.iter().map(|k| Segment::Field(k.to_string())).collect()
}

fn object(entries: Vec<(&str, Value)>) -> Value {
    Value::Object(entries.into_iter().map(|(k, v)| (k.to_string(), v)).collect())
}

fn field(v: &Value, keys: &[&str]) -> Value {
    get_path(v, &path(keys))
}

fn assert_ok(r: &Resolved, expected: &Value) {
    match r {
        Ok(v) => assert!(values_equal(v, expected), "got {:?}", v),
        Err(e) => panic!("unexpected error {:?}", e),
    }
}

fn entry_count(v: &Value) -> usize {
    match v {
        Value::Object(es) => es.len(),
        _ => panic!("not a mapping"),
    }
}

fn target(keys: &[&str]) -> Expr {
    Expr::Target(path(keys))
}

fn call(f: Builtin, e: Expr) -> Expr {
    Expr::Call(f, Box::new(e))
}

#[test]
fn upcase_assignment() {
    // .a = upcase(.b)
    let program = Program {
        statements: vec![Stmt::AssignTarget(path(&["a"]), call(Builtin::Upcase, target(&["b"])))],
        slot_count: 0,
    };
    let mut record = object(vec![("b", bytes("hi"))]);
    let mut runtime = Runtime::new();
    let r = runtime.resolve(&mut record, &program);
    assert_ok(&r, &bytes("HI"));
    assert!(values_equal(&field(&record, &["a"]), &bytes("HI")));
    assert!(values_equal(&field(&record, &["b"]), &bytes("hi")));
    assert_eq!(entry_count(&record), 2);
}

#[test]
fn variable_read_leaves_record_unchanged() {
    // x = {"noog": "nork"}
    // x.noog
    let mut env = LocalEnv::new();
    let x = env.declare_local("x");
    let program = Program {
        statements: vec![
            Stmt::AssignVariable(
                x,
                vec![],
                Expr::Literal(object(vec![("noog", bytes("nork"))])),
            ),
            Stmt::Expr(Expr::Variable(env.resolve("x").unwrap(), path(&["noog"]))),
        ],
        slot_count: env.slot_count(),
    };
    let mut record = object(vec![]);
    let mut runtime = Runtime::new();
    let r = runtime.resolve(&mut record, &program);
    assert_ok(&r, &bytes("nork"));
    assert!(values_equal(&record, &object(vec![])));
}

#[test]
fn missing_path_reads_null() {
    // .a = .b.c
    let program = Program {
        statements: vec![Stmt::AssignTarget(path(&["a"]), target(&["b", "c"]))],
        slot_count: 0,
    };
    let mut record = object(vec![]);
    let mut runtime = Runtime::new();
    let r = runtime.resolve(&mut record, &program);
    assert_ok(&r, &Value::Null);
    assert!(values_equal(&record, &object(vec![("a", Value::Null)])));
}

#[test]
fn failed_statement_applies_nothing() {
    // .a = "x"
    // .b = upcase(.a.missing == 1) -- fails: a boolean is no byte string
    // .c = "never"
    let program = Program {
        statements: vec![
            Stmt::AssignTarget(path(&["a"]), Expr::Literal(bytes("x"))),
            Stmt::AssignTarget(
                path(&["b"]),
                call(
                    Builtin::Upcase,
                    Expr::Equal(
                        Box::new(target(&["a", "missing"])),
                        Box::new(Expr::Literal(Value::Integer(1))),
                    ),
                ),
            ),
            Stmt::AssignTarget(path(&["c"]), Expr::Literal(bytes("never"))),
        ],
        slot_count: 0,
    };
    let mut record = object(vec![]);
    let mut runtime = Runtime::new();
    let r = runtime.resolve(&mut record, &program);
    assert!(matches!(r, Err(RuntimeError::ExpectedBytes(Builtin::Upcase))));
    assert!(values_equal(&record, &object(vec![("a", bytes("x"))])));
}

#[test]
fn recovery_form_continues() {
    // .a = upcase(1) ?? "fallback"
    let program = Program {
        statements: vec![Stmt::AssignTarget(
            path(&["a"]),
            Expr::Coalesce(
                Box::new(call(Builtin::Upcase, Expr::Literal(Value::Integer(1)))),
                Box::new(Expr::Literal(bytes("fallback"))),
            ),
        )],
        slot_count: 0,
    };
    let mut record = object(vec![]);
    let r = Runtime::new().resolve(&mut record, &program);
    assert_ok(&r, &bytes("fallback"));
    assert!(values_equal(&field(&record, &["a"]), &bytes("fallback")));
}

fn branching_program() -> Program {
    // .hostname = "vector"
    // if .status == "warning" { .thing = upcase(.hostname) }
    // else { if .status == "notice" { .thung = downcase(.hostname) }
    //        else { .nong = upcase(.hostname) } }
    let is = |s: &str| {
        Expr::Equal(Box::new(target(&["status"])), Box::new(Expr::Literal(bytes(s))))
    };
    Program {
        statements: vec![
            Stmt::AssignTarget(path(&["hostname"]), Expr::Literal(bytes("vector"))),
            Stmt::If(
                is("warning"),
                vec![Stmt::AssignTarget(
                    path(&["thing"]),
                    call(Builtin::Upcase, target(&["hostname"])),
                )],
                vec![Stmt::If(
                    is("notice"),
                    vec![Stmt::AssignTarget(
                        path(&["thung"]),
                        call(Builtin::Downcase, target(&["hostname"])),
                    )],
                    vec![Stmt::AssignTarget(
                        path(&["nong"]),
                        call(Builtin::Upcase, target(&["hostname"])),
                    )],
                )],
            ),
        ],
        slot_count: 0,
    }
}

#[test]
fn branches_run_exactly_one_arm() {
    let program = branching_program();
    let mut runtime = Runtime::new();

    let mut warning = object(vec![("status", bytes("warning"))]);
    assert_ok(&runtime.resolve(&mut warning, &program), &bytes("VECTOR"));
    assert!(values_equal(&field(&warning, &["thing"]), &bytes("VECTOR")));
    assert_eq!(entry_count(&warning), 3);

    let mut notice = object(vec![("status", bytes("notice"))]);
    assert_ok(&runtime.resolve(&mut notice, &program), &bytes("vector"));
    assert!(values_equal(&field(&notice, &["thung"]), &bytes("vector")));
    assert_eq!(entry_count(&notice), 3);

    let mut other = object(vec![]);
    assert_ok(&runtime.resolve(&mut other, &program), &bytes("VECTOR"));
    assert!(values_equal(&field(&other, &["nong"]), &bytes("VECTOR")));
    assert_eq!(entry_count(&other), 2);
}

#[test]
fn empty_branch_yields_null() {
    let program = Program {
        statements: vec![Stmt::If(Expr::Literal(Value::Boolean(false)), vec![], vec![])],
        slot_count: 0,
    };
    let mut record = object(vec![]);
    assert_ok(&Runtime::new().resolve(&mut record, &program), &Value::Null);
}

#[test]
fn reruns_are_deterministic() {
    let program = branching_program();
    let mut runtime = Runtime::new();
    let mut first = object(vec![("status", bytes("notice"))]);
    let mut second = object(vec![("status", bytes("notice"))]);
    let a = runtime.resolve(&mut first, &program);
    runtime.clear();
    let b = runtime.resolve(&mut second, &program);
    match (a, b) {
        (Ok(x), Ok(y)) => assert!(values_equal(&x, &y)),
        _ => panic!("both runs should succeed"),
    }
    assert!(values_equal(&first, &second));
}

#[test]
fn cleared_driver_runs_as_new() {
    // first program: x = "left over"; second: y = 1; x
    let mut env = LocalEnv::new();
    let x = env.declare_local("x");
    let first = Program {
        statements: vec![Stmt::AssignVariable(x, vec![], Expr::Literal(bytes("left over")))],
        slot_count: env.slot_count(),
    };
    let second = Program {
        statements: vec![Stmt::Expr(Expr::Variable(0, vec![]))],
        slot_count: 1,
    };
    let mut reused = Runtime::new();
    let mut r1 = object(vec![]);
    assert_ok(&reused.resolve(&mut r1, &first), &bytes("left over"));
    reused.clear();
    let mut r2 = object(vec![]);
    let after_clear = reused.resolve(&mut r2, &second);
    let mut r3 = object(vec![]);
    let fresh = Runtime::new().resolve(&mut r3, &second);
    assert_ok(&after_clear, &Value::Null);
    assert_ok(&fresh, &Value::Null);
}

#[test]
fn slots_are_never_reused() {
    let mut env = LocalEnv::new();
    assert_eq!(env.declare_local("a"), 0);
    assert_eq!(env.declare_local("b"), 1);
    assert_eq!(env.declare_local("a"), 0);
    assert_eq!(env.resolve_local("b"), Some(1));
    assert_eq!(env.slot_count(), 2);
}

#[test]
fn undeclared_variable_is_a_compile_error() {
    let env = LocalEnv::new();
    match env.resolve("nope") {
        Err(CompileError::UndefinedVariable(n)) => assert_eq!(n, "nope"),
        Ok(_) => panic!("expected an error"),
    }
}

#[test]
fn string_rejects_non_bytes() {
    let program = Program {
        statements: vec![Stmt::Expr(call(Builtin::String, Expr::Literal(Value::Null)))],
        slot_count: 0,
    };
    let mut record = object(vec![]);
    let r = Runtime::new().resolve(&mut record, &program);
    assert!(matches!(r, Err(RuntimeError::ExpectedBytes(Builtin::String))));
}
