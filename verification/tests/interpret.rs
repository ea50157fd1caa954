//! Evaluator behaviour on whole programs: scoping, operators, loops,
//! heap values, type checks and the error cases.
use tigress::ast::ty_of_ast;
use tigress::ast::Expr;
use tigress::ast::Op;
use tigress::ast::Type;
use tigress::ast::TypedExpr;
use tigress::ast::Value;
use tigress::interpret::arithmetic;
use tigress::interpret::define_fun;
use tigress::interpret::define_var;
use tigress::interpret::f;
use tigress::interpret::get_var;
use tigress::interpret::type_check;
use tigress::interpret::update_var;
use tigress::interpret::value_eq;
use tigress::interpret::Env;
use tigress::parse::parse;
use tigress::semantics::EvalErr;

const FUEL: u64 = 1_000_000;

fn check(expr: &str, val: Value) {
    let ast = parse(expr).unwrap();
    assert_eq!(f(&ast, FUEL), Ok(val));
}

fn check_err(expr: &str, err: EvalErr) {
    let ast = parse(expr).unwrap();
    assert_eq!(f(&ast, FUEL), Err(err));
}

#[test]
fn letex_test() {
    check("let var x := 4 in x + x end", Value::VNum(8));
    check("let var x: int := 4 in x + x end", Value::VNum(8));
    check("let var x := 4 in let var x := 3 in x + x end end", Value::VNum(6));
    check("let var x := 4 in (let var x := 3 in x end) + x end", Value::VNum(7));
}

#[test]
fn comp_test() {
    check("2 < 5", Value::VNum(1));
    check("4 < 1", Value::VNum(0));
    check("2 = 2", Value::VNum(1));
    check("2 = 5", Value::VNum(0));
    check("2 <> 4", Value::VNum(1));
    check("2 <> 2", Value::VNum(0));
}

#[test]
fn logic_test() {
    check("155", Value::VNum(155));
    check("2 & 3", Value::VNum(3));
    check("0 & 3", Value::VNum(0));
    check("2 | 152", Value::VNum(2));
    check("0 | 155", Value::VNum(155));
}

#[test]
fn arithmetic_values() {
    check("1 + 2 * 3", Value::VNum(7));
    check("(1 + 2) * 3", Value::VNum(9));
    check("10 - 2 - 3", Value::VNum(5));
    check("7 / 2", Value::VNum(3));
    check("-7 / 2", Value::VNum(-3));
    check("7 / -2", Value::VNum(-3));
    check("- - 5", Value::VNum(5));
    check("2 <= 2", Value::VNum(1));
    check("2 >= 3", Value::VNum(0));
    check("1 > 0", Value::VNum(1));
}

#[test]
fn wrapping_arithmetic() {
    check("9223372036854775807 + 1", Value::VNum(i64::MIN));
    check("0 - 9223372036854775807 - 2", Value::VNum(i64::MAX));
    check("-9223372036854775807 - 1", Value::VNum(i64::MIN));
    check("(0 - 9223372036854775807 - 1) / (0 - 1)", Value::VNum(i64::MIN));
}

#[test]
fn string_values() {
    check("\"ab\"", Value::VStr("ab".to_string()));
    check("\"ab\" = \"ab\"", Value::VNum(1));
    check("\"ab\" = \"cd\"", Value::VNum(0));
    check("\"ab\" <> \"cd\"", Value::VNum(1));
    check("\"ab\" = 1", Value::VNum(0));
}

#[test]
fn shadowing_leaves_outer_binding() {
    check(
        "let var x := 4 in (let var x := 3 in x + x end) + x end",
        Value::VNum(10),
    );
    check(
        "let var x := 1 in let var x := x + 1 in x end end",
        Value::VNum(2),
    );
}

#[test]
fn short_circuit_skips_side_effect() {
    check(
        "let var y := 0 in (0 & (y := 5)); y end",
        Value::VNum(0),
    );
    check(
        "let var y := 0 in (2 | (y := 5)); y end",
        Value::VNum(0),
    );
    check(
        "let var y := 0 in (1 & (y := 5)); y end",
        Value::VNum(5),
    );
}

#[test]
fn for_loop_break() {
    check("for i := 1 to 5 do (if i = 3 then break)", Value::VNil);
    check(
        "let var a := 0 in for i := 1 to 5 do (if i = 3 then break else (a := a + i)); a end",
        Value::VNum(3),
    );
    check(
        "let var a := 0 in for i := 1 to 5 do (a := a + i); a end",
        Value::VNum(15),
    );
    check(
        "let var a := 7 in for i := 5 to 1 do (a := 0); a end",
        Value::VNum(7),
    );
}

#[test]
fn while_loop() {
    check(
        "let var i := 0 in (while i < 3 do (i := i + 1)); i end",
        Value::VNum(3),
    );
    check(
        "let var i := 0 in (while 1 do (if i = 4 then break else (i := i + 1))); i end",
        Value::VNum(4),
    );
}

#[test]
fn fuel_bounds_endless_loop() {
    let ast = parse("while 1 do 0").unwrap();
    assert_eq!(f(&ast, 50), Err(EvalErr::OutOfFuel));
}

#[test]
fn array_fill_evaluated_once() {
    check(
        "let type arr = array of int var c := 0 var x := arr [5] of (c := c + 1) in c end",
        Value::VNum(1),
    );
    check(
        "let type arr = array of int var c := 0 var x := arr [0] of (c := c + 1) in c end",
        Value::VNum(1),
    );
}

#[test]
fn array_read_and_write() {
    check(
        "let type arr = array of int var x := arr [4] of 0 in (x[2] := 9; x[2] + x[1]) end",
        Value::VNum(9),
    );
    check_err(
        "let type arr = array of int var x := arr [4] of 0 in x[4] end",
        EvalErr::IndexOutOfBounds,
    );
    check_err(
        "let type arr = array of int var x := arr [0 - 1] of 0 in x end",
        EvalErr::TypeMismatch,
    );
}

#[test]
fn record_fields_and_aliasing() {
    check(
        "let type web = {dat: int} var w := web {dat = 3} in w.dat end",
        Value::VNum(3),
    );
    check(
        "let type p = {v: int} var a := p {v = 1} var b := a in (a.v := 7; b.v) end",
        Value::VNum(7),
    );
    check_err(
        "let type p = {v: int} var a := p {v = 1} in a.w end",
        EvalErr::UnknownField,
    );
    check_err(
        "let type p = {v: int} in p {w = 1} end",
        EvalErr::UnknownField,
    );
}

#[test]
fn type_alias_resolution() {
    check("let type i = int var x: i := 4 in x end", Value::VNum(4));
    check_err(
        "let type a = b type b = a var x: a := 1 in x end",
        EvalErr::UnboundName,
    );
}

#[test]
fn type_check_declared_types() {
    check("let var x: int := 4 in x end", Value::VNum(4));
    check_err("let var x: int := \"s\" in x end", EvalErr::TypeMismatch);
    check("let var s: string := \"s\" in 1 end", Value::VNum(1));
    check_err("let var s: string := 4 in 1 end", EvalErr::TypeMismatch);
}

#[test]
fn function_calls() {
    check(
        "let function f(x: int): int = x + 1 in f(41) end",
        Value::VNum(42),
    );
    check(
        "let function fact(n: int): int = if n = 0 then 1 else n * fact(n - 1) in fact(5) end",
        Value::VNum(120),
    );
    check(
        "let function add(a: int, b: int): int = a + b in add(2, 3) end",
        Value::VNum(5),
    );
    check_err(
        "let function f(x: int): int = x in f(1, 2) end",
        EvalErr::ArityMismatch,
    );
    check_err(
        "let function f(x: int): int = x in f(\"s\") end",
        EvalErr::TypeMismatch,
    );
    check_err(
        "let function f(x: int): string = x in f(1) end",
        EvalErr::TypeMismatch,
    );
    check_err("f(1)", EvalErr::UnboundName);
}

#[test]
fn error_cases() {
    check_err("y", EvalErr::UnboundName);
    check_err("1 / 0", EvalErr::DivisionByZero);
    check_err("break", EvalErr::BreakOutsideLoop);
    check_err("1 + \"s\"", EvalErr::TypeMismatch);
    check_err("-\"s\"", EvalErr::TypeMismatch);
    check_err("if \"s\" then 1", EvalErr::TypeMismatch);
    check_err("let var x := 1 in y := 2 end", EvalErr::UnboundName);
}

#[test]
fn conditionals() {
    check("if 4 then 1 else 2", Value::VNum(1));
    check("if 0 then 1 else 2", Value::VNum(2));
    check("if 4 then if 5 then 3 else 2", Value::VNum(3));
    check("if 0 then 1", Value::VNil);
    check("nil", Value::VNil);
    check("()", Value::VNil);
    check("(1; 2; 3)", Value::VNum(3));
}

#[test]
fn environment_primitives() {
    let env = Env { vars: Vec::new(), funs: Vec::new(), types: Vec::new() };
    let mut pool: Vec<Value> = Vec::new();
    let env1 = define_var("x", Value::VNum(4), &env, &mut pool);
    assert_eq!(get_var("x", &env1, &pool), Ok(Value::VNum(4)));
    let env2 = define_var("x", Value::VNum(3), &env1, &mut pool);
    assert_eq!(get_var("x", &env2, &pool), Ok(Value::VNum(3)));
    assert_eq!(get_var("x", &env1, &pool), Ok(Value::VNum(4)));
    update_var("x", Value::VNum(9), &env1, &mut pool).unwrap();
    assert_eq!(get_var("x", &env1, &pool), Ok(Value::VNum(9)));
    assert_eq!(get_var("x", &env2, &pool), Ok(Value::VNum(3)));
    assert!(get_var("y", &env1, &pool).is_err());
    let env3 = define_fun("g", &Vec::new(), &None, &Expr::Num(1), &env);
    assert_eq!(env3.funs.len(), 1);
    assert_eq!(env3.funs[0].0, "g");
}

#[test]
fn arithmetic_primitives() {
    assert_eq!(arithmetic(Op::Add, 2, 2), 4);
    assert_eq!(arithmetic(Op::Sub, 2, 5), -3);
    assert_eq!(arithmetic(Op::Div, -7, 2), -3);
    assert_eq!(arithmetic(Op::Div, i64::MIN, -1), i64::MIN);
    assert_eq!(arithmetic(Op::Mul, i64::MAX, 2), -2);
    assert_eq!(arithmetic(Op::Le, 3, 3), 1);
    assert_eq!(arithmetic(Op::Gt, 3, 3), 0);
}

#[test]
fn value_and_type_primitives() {
    let env = Env { vars: Vec::new(), funs: Vec::new(), types: Vec::new() };
    assert!(value_eq(&Value::VStr("a".to_string()), &Value::VStr("a".to_string())));
    assert!(!value_eq(&Value::VNum(1), &Value::VStr("1".to_string())));
    assert!(value_eq(&Value::VNil, &Value::VNil));
    assert!(type_check(&Value::VNum(1), "int", &env).is_ok());
    assert!(type_check(&Value::VNum(1), "string", &env).is_err());
    assert!(type_check(&Value::VNum(1), "mystery", &env).is_err());
}

#[test]
fn ty_of_ast_reads_stored_tag() {
    assert_eq!(ty_of_ast(&TypedExpr::Num(1)), Type::Id("int".to_string()));
    assert_eq!(
        ty_of_ast(&TypedExpr::Str("s".to_string())),
        Type::Id("str".to_string())
    );
    let t = TypedExpr::Var("x".to_string(), Type::Id("bool".to_string()));
    assert_eq!(ty_of_ast(&t), Type::Id("bool".to_string()));
}
