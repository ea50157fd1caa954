//! Parser behaviour: tree shapes, precedence, the dangling `else` and
//! `do`, rejection of comparison chains, and the print/parse round
//! trip.
use tigress::ast::Dec;
use tigress::ast::Expr;
use tigress::ast::LValue;
use tigress::ast::Op;
use tigress::ast::Type;
use tigress::parse::fold_op;
use tigress::parse::fold_to_ast;
use tigress::parse::parse;
use tigress::print::to_source;

#[test]
fn parse_test() {
    assert_eq!(
        parse("4 -2"),
        Ok(Expr::OpNode(
            Op::Sub,
            Box::new(Expr::Num(4)),
            Box::new(Expr::Num(2))
        ))
    );
}

#[test]
fn dangling_if_test() {
    assert_eq!(
        parse("if 4 then if 5 then 3 else 2"),
        Ok(Expr::IfNode(
            Box::new(Expr::Num(4)),
            Box::new(Expr::IfNode(
                Box::new(Expr::Num(5)),
                Box::new(Expr::Num(3)),
                Box::new(Expr::Num(2)),
            )),
            Box::new(Expr::Nil),
        ))
    );
}

#[test]
fn dangling_do_test() {
    assert_eq!(
        parse("while 1 do 2 + 3"),
        Ok(Expr::Do(
            Box::new(Expr::Num(1)),
            Box::new(Expr::OpNode(
                Op::Add,
                Box::new(Expr::Num(2)),
                Box::new(Expr::Num(3)),
            ))
        ))
    );
}

#[test]
fn let_test() {
    assert_eq!(
        parse("let var x:= 4 var y:=3 in x + y end"),
        Ok(Expr::Let(
            vec![
                Dec::Var("x".to_string(), None, Expr::Num(4)),
                Dec::Var("y".to_string(), None, Expr::Num(3)),
            ],
            Box::new(Expr::Sequence(vec![Expr::OpNode(
                Op::Add,
                Box::new(Expr::LVal(LValue::Id("x".to_string()))),
                Box::new(Expr::LVal(LValue::Id("y".to_string()))),
            )]))
        ))
    );
    assert_eq!(
        parse("let type i = int in 3 end"),
        Ok(Expr::Let(
            vec![Dec::Type("i".to_string(), Type::Id("int".to_string()))],
            Box::new(Expr::Sequence(vec![Expr::Num(3)])),
        ))
    );
    assert_eq!(
        parse("let type int_array = array of int var x := int_array [4] of 0 in x end"),
        Ok(Expr::Let(
            vec![
                Dec::Type("int_array".to_string(), Type::Array("int".to_string())),
                Dec::Var(
                    "x".to_string(),
                    None,
                    Expr::NewArray(
                        "int_array".to_string(),
                        Box::new(Expr::Num(4)),
                        Box::new(Expr::Num(0))
                    ),
                )
            ],
            Box::new(Expr::Sequence(vec![Expr::LVal(LValue::Id(
                "x".to_string()
            ))])),
        ))
    );
    assert_eq!(
        parse("let type web = {dat: int} in web {dat = 3} end"),
        Ok(Expr::Let(
            vec![Dec::Type(
                "web".to_string(),
                Type::Field(vec![("dat".to_string(), "int".to_string())]),
            )],
            Box::new(Expr::Sequence(vec![Expr::NewStruct(
                "web".to_string(),
                vec![("dat".to_string(), Expr::Num(3))],
            )]))
        ))
    );
    assert_eq!(
        parse("let function f(x: int): int = x in x end"),
        Ok(Expr::Let(
            vec![Dec::Fun(
                "f".to_string(),
                vec![("x".to_string(), "int".to_string())],
                Some("int".to_string()),
                Expr::LVal(LValue::Id("x".to_string())),
            )],
            Box::new(Expr::Sequence(vec![Expr::LVal(LValue::Id(
                "x".to_string()
            ))]))
        ))
    );
}

#[test]
fn new_struct_test() {
    assert_eq!(
        parse("web {dat = 3 }"),
        Ok(Expr::NewStruct(
            "web".to_string(),
            vec![("dat".to_string(), Expr::Num(3))]
        ))
    );
    assert_eq!(
        parse("dummy {}"),
        Ok(Expr::NewStruct("dummy".to_string(), Vec::new()))
    );
}

#[test]
fn lvalue_member_test() {
    assert_eq!(
        parse("x.member.t"),
        Ok(Expr::LVal(LValue::Mem(
            Box::new(LValue::Mem(
                Box::new(LValue::Id("x".to_string())),
                "member".to_string()
            )),
            "t".to_string(),
        )))
    );
    assert_eq!(
        parse("x[4].go"),
        Ok(Expr::LVal(LValue::Mem(
            Box::new(LValue::Idx(
                Box::new(LValue::Id("x".to_string())),
                Box::new(Expr::Num(4))
            )),
            "go".to_string(),
        )))
    );
}

#[test]
fn comparison_chain_rejected() {
    assert!(parse("1 < 2 < 3").is_err());
    assert!(parse("1 = 2 = 3").is_err());
    assert!(parse("1 < 2").is_ok());
}

#[test]
fn syntax_errors() {
    assert!(parse("").is_err());
    assert!(parse("let var := 4 in x end").is_err());
    assert!(parse("if then 1").is_err());
    assert!(parse("(1; 2").is_err());
    assert!(parse("\"unterminated").is_err());
    assert!(parse("99999999999999999999").is_err());
    let err = parse("1 < 2 < 3").unwrap_err();
    assert_eq!(err.pos, 6);
}

#[test]
fn keywords_are_not_identifiers() {
    assert!(parse("let var let := 1 in 0 end").is_err());
    assert!(parse("var").is_err());
}

fn roundtrip(src: &str) {
    let t1 = parse(src).unwrap();
    let printed = to_source(&t1);
    let t2 = parse(&printed).unwrap();
    assert_eq!(t1, t2);
}

#[test]
fn print_parse_round_trip() {
    roundtrip("4 -2");
    roundtrip("1 + 2 * 3");
    roundtrip("(1 + 2) * 3 - -4 / 5");
    roundtrip("1 < 2");
    roundtrip("2 & 3 | 0");
    roundtrip("if 4 then if 5 then 3 else 2");
    roundtrip("if 0 then 1 else 2");
    roundtrip("while 1 do 2 + 3");
    roundtrip("for i := 1 to 5 do (if i = 3 then break)");
    roundtrip("let var x := 4 in x + x end");
    roundtrip("let var x: int := 4 in let var x := 3 in x + x end end");
    roundtrip("let type web = {dat: int} in web {dat = 3} end");
    roundtrip("let type int_array = array of int var x := int_array [4] of 0 in x[2] end");
    roundtrip("let function f(x: int, y: int): int = x + y in f(1, 2) end");
    roundtrip("let function g() = nil in g() end");
    roundtrip("x.member.t := \"str\"");
    roundtrip("(1; 2; 3)");
    roundtrip("()");
    roundtrip("nil");
    roundtrip("let var y := 0 in (0 & (y := 5)); y end");
}

#[test]
fn printed_text_is_canonical() {
    assert_eq!(to_source(&parse("4 -2").unwrap()), "4 - 2");
    assert_eq!(
        to_source(&parse("if 4 then if 5 then 3 else 2").unwrap()),
        "if 4 then if 5 then 3 else 2"
    );
    assert_eq!(
        to_source(&parse("let var x := 4 in x + x end").unwrap()),
        "let var x := 4 in x + x end"
    );
    assert_eq!(to_source(&Expr::Num(-12)), "-12");
}

#[test]
fn fold_op_builds_left_chain() {
    let r = fold_op(
        Expr::Num(4),
        vec![(Expr::Num(1), Op::Add), (Expr::Num(2), Op::Sub)],
    );
    assert_eq!(
        r,
        Expr::OpNode(
            Op::Sub,
            Box::new(Expr::OpNode(
                Op::Add,
                Box::new(Expr::Num(4)),
                Box::new(Expr::Num(1))
            )),
            Box::new(Expr::Num(2))
        )
    );
}

#[test]
fn fold_to_ast_applies_constructor_in_order() {
    let r = fold_to_ast(
        (
            vec![(Expr::Num(1), Op::Add), (Expr::Num(2), Op::Sub)],
            Expr::Num(4),
        ),
        |t, a, b| Expr::OpNode(t, Box::new(a), Box::new(b)),
    );
    assert_eq!(
        r,
        Expr::OpNode(
            Op::Sub,
            Box::new(Expr::OpNode(
                Op::Add,
                Box::new(Expr::Num(4)),
                Box::new(Expr::Num(1))
            )),
            Box::new(Expr::Num(2))
        )
    );
}
