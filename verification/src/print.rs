//! Printing a tree back to source text.
//!
//! `print_expr` gives each tree one canonical text, written at the
//! grammar level the parser builds the node at, so a tree the parser
//! produced re-parses to the same tree.  The executable `to_source` is
//! proved to emit exactly this text.
use vstd::prelude::*;
use vstd::string::StringExecFns;

use crate::ast::Dec;
use crate::ast::DecModel;
use crate::ast::Expr;
use crate::ast::ExprModel;
use crate::ast::Field;
use crate::ast::LValue;
use crate::ast::LValueModel;
use crate::ast::Op;
use crate::ast::Type;
use crate::ast::TypeField;
use crate::ast::TypeModel;
use crate::ast::view_exprs;
use crate::ast::view_decs;
use crate::ast::view_fields;
use crate::ast::view_type_fields;

verus! {

/// The digit character for one decimal digit.
pub open spec fn digit_char(d: nat) -> char {
    if d == 0 {
        '0'
    } else if d == 1 {
        '1'
    } else if d == 2 {
        '2'
    } else if d == 3 {
        '3'
    } else if d == 4 {
        '4'
    } else if d == 5 {
        '5'
    } else if d == 6 {
        '6'
    } else if d == 7 {
        '7'
    } else if d == 8 {
        '8'
    } else {
        '9'
    }
}

/// The decimal digits of a natural number, most significant first.
pub open spec fn dec_digits(n: nat) -> Seq<char>
    decreases n,
{
    if n < 10 {
        seq![digit_char(n)]
    } else {
        dec_digits(n / 10).push(digit_char(n % 10))
    }
}

/// A 64-bit integer's text: a minus sign for negatives, then digits.
pub open spec fn print_i64(i: int) -> Seq<char> {
    if i < 0 {
        seq!['-'] + dec_digits((-i) as nat)
    } else {
        dec_digits(i as nat)
    }
}

/// The text of a binary operator, spaces included.
pub open spec fn op_text(op: Op) -> Seq<char> {
    match op {
        Op::Add => seq![' ', '+', ' '],
        Op::Sub => seq![' ', '-', ' '],
        Op::Mul => seq![' ', '*', ' '],
        Op::Div => seq![' ', '/', ' '],
        Op::Eq => seq![' ', '=', ' '],
        Op::Ne => seq![' ', '<', '>', ' '],
        Op::Lt => seq![' ', '<', ' '],
        Op::Gt => seq![' ', '>', ' '],
        Op::Le => seq![' ', '<', '=', ' '],
        Op::Ge => seq![' ', '>', '=', ' '],
        Op::Or => seq![' ', '|', ' '],
        Op::And => seq![' ', '&', ' '],
    }
}

/// The canonical text of an expression.
pub open spec fn print_expr(e: ExprModel) -> Seq<char>
    decreases e, 1nat,
{
    match e {
        ExprModel::Num(i) => print_i64(i),
        ExprModel::Str(s) => seq!['"'] + s + seq!['"'],
        ExprModel::Var(x) => x,
        ExprModel::LVal(l) => print_lval(l),
        ExprModel::Neg(e1) => seq!['-'] + print_expr(*e1),
        ExprModel::OpNode(op, a, b) => print_expr(*a) + op_text(op) + print_expr(*b),
        ExprModel::IfNode(c, t, f) => if *f == ExprModel::Nil {
            seq!['i', 'f', ' '] + print_expr(*c) + seq![' ', 't', 'h', 'e', 'n', ' ']
                + print_expr(*t)
        } else {
            seq!['i', 'f', ' '] + print_expr(*c) + seq![' ', 't', 'h', 'e', 'n', ' ']
                + print_expr(*t) + seq![' ', 'e', 'l', 's', 'e', ' '] + print_expr(*f)
        },
        ExprModel::Nil => seq!['n', 'i', 'l'],
        ExprModel::LAsgn(l, e1) => print_lval(l) + seq![' ', ':', '=', ' '] + print_expr(*e1),
        ExprModel::Sequence(es) => seq!['('] + print_exprs(es, seq![';', ' ']) + seq![')'],
        ExprModel::Let(ds, b) => seq!['l', 'e', 't', ' '] + print_decs(ds) + seq![
            ' ',
            'i',
            'n',
            ' ',
        ] + (match *b {
            ExprModel::Sequence(es) => print_exprs(es, seq![';', ' ']),
            _ => print_expr(*b),
        }) + seq![' ', 'e', 'n', 'd'],
        ExprModel::For(x, st, en, body) => seq!['f', 'o', 'r', ' '] + x + seq![' ', ':', '=', ' ']
            + print_expr(*st) + seq![' ', 't', 'o', ' '] + print_expr(*en) + seq![
            ' ',
            'd',
            'o',
            ' ',
        ] + print_expr(*body),
        ExprModel::Do(c, body) => seq!['w', 'h', 'i', 'l', 'e', ' '] + print_expr(*c) + seq![
            ' ',
            'd',
            'o',
            ' ',
        ] + print_expr(*body),
        ExprModel::FunApp(f, args) => f + seq!['('] + print_exprs(args, seq![',', ' ']) + seq![')'],
        ExprModel::NewStruct(t, fs) => t + seq![' ', '{'] + print_field_inits(fs) + seq!['}'],
        ExprModel::NewArray(t, n, e1) => t + seq![' ', '['] + print_expr(*n) + seq![
            ']',
            ' ',
            'o',
            'f',
            ' ',
        ] + print_expr(*e1),
        ExprModel::Break => seq!['b', 'r', 'e', 'a', 'k'],
    }
}

/// Expressions joined by a separator.
pub open spec fn print_exprs(es: Seq<ExprModel>, sep: Seq<char>) -> Seq<char>
    decreases es, 2nat,
{
    if es.len() == 0 {
        Seq::empty()
    } else if es.len() == 1 {
        print_expr(es.first())
    } else {
        print_expr(es.first()) + sep + print_exprs(es.drop_first(), sep)
    }
}

/// The canonical text of an l-value.
pub open spec fn print_lval(l: LValueModel) -> Seq<char>
    decreases l, 1nat,
{
    match l {
        LValueModel::Id(x) => x,
        LValueModel::Mem(b, f) => print_lval(*b) + seq!['.'] + f,
        LValueModel::Idx(b, e) => print_lval(*b) + seq!['['] + print_expr(*e) + seq![']'],
    }
}

/// The canonical text of one declaration.
pub open spec fn print_dec(d: DecModel) -> Seq<char>
    decreases d, 1nat,
{
    match d {
        DecModel::Type(name, t) => seq!['t', 'y', 'p', 'e', ' '] + name + seq![' ', '=', ' ']
            + print_type(t),
        DecModel::Var(name, ot, e) => seq!['v', 'a', 'r', ' '] + name + (match ot {
            Option::Some(ty) => seq![':', ' '] + ty,
            Option::None => Seq::empty(),
        }) + seq![' ', ':', '=', ' '] + print_expr(e),
        DecModel::Fun(name, params, ot, body) => seq!['f', 'u', 'n', 'c', 't', 'i', 'o', 'n', ' ']
            + name + seq!['('] + print_params(params) + seq![')'] + (match ot {
            Option::Some(ty) => seq![':', ' '] + ty,
            Option::None => Seq::empty(),
        }) + seq![' ', '=', ' '] + print_expr(body),
    }
}

/// Declarations joined by single spaces.
pub open spec fn print_decs(ds: Seq<DecModel>) -> Seq<char>
    decreases ds, 2nat,
{
    if ds.len() == 0 {
        Seq::empty()
    } else if ds.len() == 1 {
        print_dec(ds.first())
    } else {
        print_dec(ds.first()) + seq![' '] + print_decs(ds.drop_first())
    }
}

/// `name: typename` parameter lists joined by commas.
pub open spec fn print_params(fs: Seq<(Seq<char>, Seq<char>)>) -> Seq<char>
    decreases fs.len(),
{
    if fs.len() == 0 {
        Seq::empty()
    } else if fs.len() == 1 {
        fs.first().0 + seq![':', ' '] + fs.first().1
    } else {
        fs.first().0 + seq![':', ' '] + fs.first().1 + seq![',', ' '] + print_params(
            fs.drop_first(),
        )
    }
}

/// `name = expression` field initializers joined by commas.
pub open spec fn print_field_inits(fs: Seq<(Seq<char>, ExprModel)>) -> Seq<char>
    decreases fs, 2nat,
{
    if fs.len() == 0 {
        Seq::empty()
    } else if fs.len() == 1 {
        fs.first().0 + seq![' ', '=', ' '] + print_expr(fs.first().1)
    } else {
        fs.first().0 + seq![' ', '=', ' '] + print_expr(fs.first().1) + seq![',', ' ']
            + print_field_inits(fs.drop_first())
    }
}

/// The canonical text of a type descriptor.
pub open spec fn print_type(t: TypeModel) -> Seq<char> {
    match t {
        TypeModel::Id(name) => name,
        TypeModel::Field(fs) => seq!['{'] + print_params(fs) + seq!['}'],
        TypeModel::Array(name) => seq!['a', 'r', 'r', 'a', 'y', ' ', 'o', 'f', ' '] + name,
    }
}

/// Appends one decimal digit character.
fn append_digit(out: &mut String, d: u64)
    requires
        d < 10,
    ensures
        final(out)@ == old(out)@ + seq![digit_char(d as nat)],
{
    proof {
        reveal_strlit("0");
        reveal_strlit("1");
        reveal_strlit("2");
        reveal_strlit("3");
        reveal_strlit("4");
        reveal_strlit("5");
        reveal_strlit("6");
        reveal_strlit("7");
        reveal_strlit("8");
        reveal_strlit("9");
    }
    if d == 0 {
        out.append("0");
        proof {
            assert(final(out)@ =~= old(out)@ + seq![digit_char(d as nat)]);
        }
    } else if d == 1 {
        out.append("1");
        proof {
            assert(final(out)@ =~= old(out)@ + seq![digit_char(d as nat)]);
        }
    } else if d == 2 {
        out.append("2");
        proof {
            assert(final(out)@ =~= old(out)@ + seq![digit_char(d as nat)]);
        }
    } else if d == 3 {
        out.append("3");
        proof {
            assert(final(out)@ =~= old(out)@ + seq![digit_char(d as nat)]);
        }
    } else if d == 4 {
        out.append("4");
        proof {
            assert(final(out)@ =~= old(out)@ + seq![digit_char(d as nat)]);
        }
    } else if d == 5 {
        out.append("5");
        proof {
            assert(final(out)@ =~= old(out)@ + seq![digit_char(d as nat)]);
        }
    } else if d == 6 {
        out.append("6");
        proof {
            assert(final(out)@ =~= old(out)@ + seq![digit_char(d as nat)]);
        }
    } else if d == 7 {
        out.append("7");
        proof {
            assert(final(out)@ =~= old(out)@ + seq![digit_char(d as nat)]);
        }
    } else if d == 8 {
        out.append("8");
        proof {
            assert(final(out)@ =~= old(out)@ + seq![digit_char(d as nat)]);
        }
    } else {
        out.append("9");
        proof {
            assert(final(out)@ =~= old(out)@ + seq![digit_char(d as nat)]);
        }
    }
}

/// Appends the decimal digits of an unsigned number.
fn write_u64(out: &mut String, n: u64)
    ensures
        final(out)@ == old(out)@ + dec_digits(n as nat),
    decreases n,
{
    if n < 10 {
        append_digit(out, n);
    } else {
        write_u64(out, n / 10);
        append_digit(out, n % 10);
        proof {
            assert(final(out)@ =~= old(out)@ + dec_digits(n as nat));
        }
    }
}

/// Appends a signed 64-bit integer's text.
fn write_i64(out: &mut String, i: i64)
    ensures
        final(out)@ == old(out)@ + print_i64(i as int),
{
    if i >= 0 {
        write_u64(out, i as u64);
    } else {
        proof {
            reveal_strlit("-");
        }
        out.append("-");
        let mag: u64 = (-(i as i128)) as u64;
        proof {
            assert(mag as nat == (-(i as int)) as nat);
        }
        write_u64(out, mag);
        proof {
            assert(final(out)@ =~= old(out)@ + print_i64(i as int));
        }
    }
}

/// Appends an operator's text.
fn write_op(out: &mut String, op: Op)
    ensures
        final(out)@ == old(out)@ + op_text(op),
{
    proof {
        reveal_strlit(" + ");
        reveal_strlit(" - ");
        reveal_strlit(" * ");
        reveal_strlit(" / ");
        reveal_strlit(" = ");
        reveal_strlit(" <> ");
        reveal_strlit(" < ");
        reveal_strlit(" > ");
        reveal_strlit(" <= ");
        reveal_strlit(" >= ");
        reveal_strlit(" | ");
        reveal_strlit(" & ");
    }
    match op {
        Op::Add => {
            out.append(" + ");
            proof {
                assert(final(out)@ =~= old(out)@ + op_text(op));
            }
        },
        Op::Sub => {
            out.append(" - ");
            proof {
                assert(final(out)@ =~= old(out)@ + op_text(op));
            }
        },
        Op::Mul => {
            out.append(" * ");
            proof {
                assert(final(out)@ =~= old(out)@ + op_text(op));
            }
        },
        Op::Div => {
            out.append(" / ");
            proof {
                assert(final(out)@ =~= old(out)@ + op_text(op));
            }
        },
        Op::Eq => {
            out.append(" = ");
            proof {
                assert(final(out)@ =~= old(out)@ + op_text(op));
            }
        },
        Op::Ne => {
            out.append(" <> ");
            proof {
                assert(final(out)@ =~= old(out)@ + op_text(op));
            }
        },
        Op::Lt => {
            out.append(" < ");
            proof {
                assert(final(out)@ =~= old(out)@ + op_text(op));
            }
        },
        Op::Gt => {
            out.append(" > ");
            proof {
                assert(final(out)@ =~= old(out)@ + op_text(op));
            }
        },
        Op::Le => {
            out.append(" <= ");
            proof {
                assert(final(out)@ =~= old(out)@ + op_text(op));
            }
        },
        Op::Ge => {
            out.append(" >= ");
            proof {
                assert(final(out)@ =~= old(out)@ + op_text(op));
            }
        },
        Op::Or => {
            out.append(" | ");
            proof {
                assert(final(out)@ =~= old(out)@ + op_text(op));
            }
        },
        Op::And => {
            out.append(" & ");
            proof {
                assert(final(out)@ =~= old(out)@ + op_text(op));
            }
        },
    }
}

/// Appends an expression's canonical text.
#[verifier::rlimit(100)]
#[verifier::spinoff_prover]
fn write_expr(e: &Expr, out: &mut String)
    ensures
        final(out)@ == old(out)@ + print_expr(e@),
    decreases *e, 2nat,
{
    proof {
        reveal_strlit("\"");
        reveal_strlit("if ");
        reveal_strlit(" then ");
        reveal_strlit(" else ");
        reveal_strlit("nil");
        reveal_strlit(" := ");
        reveal_strlit("(");
        reveal_strlit(")");
        reveal_strlit("let ");
        reveal_strlit(" in ");
        reveal_strlit(" end");
        reveal_strlit("for ");
        reveal_strlit(" to ");
        reveal_strlit(" do ");
        reveal_strlit("while ");
        reveal_strlit(" {");
        reveal_strlit("}");
        reveal_strlit(" [");
        reveal_strlit("] of ");
        reveal_strlit("break");
        reveal_strlit("; ");
        reveal_strlit(", ");
        assert("; "@ =~= seq![';', ' ']);
        assert(", "@ =~= seq![',', ' ']);
    }
    match e {
        Expr::Num(i) => {
            write_i64(out, *i);
        },
        Expr::Str(s) => {
            out.append("\"");
            out.append(s.as_str());
            out.append("\"");
            proof {
                assert(final(out)@ =~= old(out)@ + print_expr(e@));
            }
        },
        Expr::Var(x) => {
            out.append(x.as_str());
        },
        Expr::LVal(l) => {
            write_lval(l, out);
        },
        Expr::Neg(e1) => {
            proof {
                reveal_strlit("-");
            }
            out.append("-");
            write_expr(e1, out);
            proof {
                assert(final(out)@ =~= old(out)@ + print_expr(e@));
            }
        },
        Expr::OpNode(op, a, b) => {
            write_expr(a, out);
            write_op(out, *op);
            write_expr(b, out);
            proof {
                assert(final(out)@ =~= old(out)@ + print_expr(e@));
            }
        },
        Expr::IfNode(c, t, fe) => {
            out.append("if ");
            write_expr(c, out);
            out.append(" then ");
            write_expr(t, out);
            let is_nil = matches!(&(**fe), Expr::Nil);
            proof {
                assert(is_nil == ((**fe)@ == ExprModel::Nil));
            }
            if !is_nil {
                out.append(" else ");
                write_expr(fe, out);
            }
            proof {
                assert(final(out)@ =~= old(out)@ + print_expr(e@));
            }
        },
        Expr::Nil => {
            out.append("nil");
            proof {
                assert(final(out)@ =~= old(out)@ + print_expr(e@));
            }
        },
        Expr::LAsgn(l, e1) => {
            write_lval(l, out);
            out.append(" := ");
            write_expr(e1, out);
            proof {
                assert(final(out)@ =~= old(out)@ + print_expr(e@));
            }
        },
        Expr::Sequence(es) => {
            out.append("(");
            write_exprs_sep(es, 0, "; ", out);
            out.append(")");
            proof {
                assert(view_exprs(es@).skip(0) =~= view_exprs(es@));
                assert(final(out)@ =~= old(out)@ + print_expr(e@));
            }
        },
        Expr::Let(ds, b) => {
            out.append("let ");
            write_decs_sep(ds, 0, out);
            out.append(" in ");
            match &(**b) {
                Expr::Sequence(es) => {
                    proof {
                        assert((**b)@ == ExprModel::Sequence(view_exprs(es@)));
                    }
                    write_exprs_sep(es, 0, "; ", out);
                    proof {
                        assert(view_exprs(es@).skip(0) =~= view_exprs(es@));
                    }
                },
                _ => {
                    proof {
                        assert(!((**b)@ is Sequence));
                    }
                    write_expr(b, out);
                },
            }
            out.append(" end");
            proof {
                assert(view_decs(ds@).skip(0) =~= view_decs(ds@));
                assert(final(out)@ =~= old(out)@ + print_expr(e@));
            }
        },
        Expr::For(x, st, en, body) => {
            out.append("for ");
            out.append(x.as_str());
            out.append(" := ");
            write_expr(st, out);
            out.append(" to ");
            write_expr(en, out);
            out.append(" do ");
            write_expr(body, out);
            proof {
                assert(final(out)@ =~= old(out)@ + print_expr(e@));
            }
        },
        Expr::Do(c, body) => {
            out.append("while ");
            write_expr(c, out);
            out.append(" do ");
            write_expr(body, out);
            proof {
                assert(final(out)@ =~= old(out)@ + print_expr(e@));
            }
        },
        Expr::FunApp(f, args) => {
            out.append(f.as_str());
            out.append("(");
            write_exprs_sep(args, 0, ", ", out);
            out.append(")");
            proof {
                assert(view_exprs(args@).skip(0) =~= view_exprs(args@));
                assert(final(out)@ =~= old(out)@ + print_expr(e@));
            }
        },
        Expr::NewStruct(t, fs) => {
            out.append(t.as_str());
            out.append(" {");
            write_fields_sep(fs, 0, out);
            out.append("}");
            proof {
                assert(view_fields(fs@).skip(0) =~= view_fields(fs@));
                assert(final(out)@ =~= old(out)@ + print_expr(e@));
            }
        },
        Expr::NewArray(t, n, e1) => {
            out.append(t.as_str());
            out.append(" [");
            write_expr(n, out);
            out.append("] of ");
            write_expr(e1, out);
            proof {
                assert(final(out)@ =~= old(out)@ + print_expr(e@));
            }
        },
        Expr::Break => {
            out.append("break");
            proof {
                assert(final(out)@ =~= old(out)@ + print_expr(e@));
            }
        },
    }
}

/// Appends the expressions from position `i` on, joined by `sep`.
#[verifier::rlimit(100)]
#[verifier::spinoff_prover]
fn write_exprs_sep(es: &Vec<Expr>, i: usize, sep: &str, out: &mut String)
    requires
        i <= es@.len(),
    ensures
        final(out)@ == old(out)@ + print_exprs(view_exprs(es@).skip(i as int), sep@),
    decreases *es, es@.len() - i, 3nat,
{
    broadcast use crate::ast::lemma_view_exprs_len, crate::ast::lemma_view_exprs_index;

    if i < es.len() {
        proof {
            assert(decreases_to!(*es, es@.len() - i, 3nat => es@[i as int], 0nat, 2nat));
            assert(view_exprs(es@).skip(i as int).first() == view_expr_of(es@[i as int]));
        }
        write_expr(&es[i], out);
        if i + 1 < es.len() {
            out.append(sep);
            write_exprs_sep(es, i + 1, sep, out);
            proof {
                assert(view_exprs(es@).skip(i as int).drop_first() =~= view_exprs(es@).skip(
                    i + 1,
                ));
                assert(final(out)@ =~= old(out)@ + print_exprs(
                    view_exprs(es@).skip(i as int),
                    sep@,
                ));
            }
        } else {
            proof {
                assert(view_exprs(es@).skip(i as int).len() == 1);
            }
        }
    } else {
        proof {
            assert(view_exprs(es@).skip(i as int) =~= Seq::<ExprModel>::empty());
            assert(final(out)@ =~= old(out)@ + print_exprs(
                view_exprs(es@).skip(i as int),
                sep@,
            ));
        }
    }
}

/// The model of one expression (a named form of the view, for triggers).
pub open spec fn view_expr_of(e: Expr) -> ExprModel {
    crate::ast::view_expr(e)
}

/// Appends an l-value's canonical text.
#[verifier::rlimit(100)]
#[verifier::spinoff_prover]
fn write_lval(l: &LValue, out: &mut String)
    ensures
        final(out)@ == old(out)@ + print_lval(l@),
    decreases *l, 2nat,
{
    match l {
        LValue::Id(x) => {
            out.append(x.as_str());
        },
        LValue::Mem(b, f) => {
            proof {
                reveal_strlit(".");
            }
            write_lval(b, out);
            out.append(".");
            out.append(f.as_str());
            proof {
                assert(final(out)@ =~= old(out)@ + print_lval(l@));
            }
        },
        LValue::Idx(b, e) => {
            proof {
                reveal_strlit("[");
                reveal_strlit("]");
            }
            write_lval(b, out);
            out.append("[");
            write_expr(e, out);
            out.append("]");
            proof {
                assert(final(out)@ =~= old(out)@ + print_lval(l@));
            }
        },
    }
}

/// Appends one declaration's canonical text.
#[verifier::rlimit(100)]
#[verifier::spinoff_prover]
fn write_dec(d: &Dec, out: &mut String)
    ensures
        final(out)@ == old(out)@ + print_dec(d@),
    decreases *d, 2nat,
{
    proof {
        reveal_strlit("type ");
        reveal_strlit("var ");
        reveal_strlit("function ");
        reveal_strlit(" = ");
        reveal_strlit(" := ");
        reveal_strlit(": ");
        reveal_strlit("(");
        reveal_strlit(")");
    }
    match d {
        Dec::Type(name, t) => {
            out.append("type ");
            out.append(name.as_str());
            out.append(" = ");
            write_type(t, out);
            proof {
                assert(final(out)@ =~= old(out)@ + print_dec(d@));
            }
        },
        Dec::Var(name, ot, e) => {
            out.append("var ");
            out.append(name.as_str());
            match ot {
                Option::Some(ty) => {
                    out.append(": ");
                    out.append(ty.as_str());
                },
                Option::None => {},
            }
            out.append(" := ");
            write_expr(e, out);
            proof {
                assert(final(out)@ =~= old(out)@ + print_dec(d@));
            }
        },
        Dec::Fun(name, params, ot, body) => {
            out.append("function ");
            out.append(name.as_str());
            out.append("(");
            write_params_sep(params, 0, out);
            out.append(")");
            match ot {
                Option::Some(ty) => {
                    out.append(": ");
                    out.append(ty.as_str());
                },
                Option::None => {},
            }
            out.append(" = ");
            write_expr(body, out);
            proof {
                assert(view_type_fields(params@).skip(0) =~= view_type_fields(params@));
                assert(final(out)@ =~= old(out)@ + print_dec(d@));
            }
        },
    }
}

/// Appends the declarations from position `i` on, joined by spaces.
#[verifier::rlimit(100)]
#[verifier::spinoff_prover]
fn write_decs_sep(ds: &Vec<Dec>, i: usize, out: &mut String)
    requires
        i <= ds@.len(),
    ensures
        final(out)@ == old(out)@ + print_decs(view_decs(ds@).skip(i as int)),
    decreases *ds, ds@.len() - i, 3nat,
{
    broadcast use crate::ast::lemma_view_decs_len, crate::ast::lemma_view_decs_index;

    if i < ds.len() {
        proof {
            assert(decreases_to!(*ds, ds@.len() - i, 3nat => ds@[i as int], 0nat, 2nat));
            assert(view_decs(ds@).skip(i as int).first() == crate::ast::view_dec(ds@[i as int]));
        }
        write_dec(&ds[i], out);
        if i + 1 < ds.len() {
            proof {
                reveal_strlit(" ");
            }
            out.append(" ");
            write_decs_sep(ds, i + 1, out);
            proof {
                assert(view_decs(ds@).skip(i as int).drop_first() =~= view_decs(ds@).skip(i + 1));
                assert(final(out)@ =~= old(out)@ + print_decs(view_decs(ds@).skip(i as int)));
            }
        } else {
            proof {
                assert(view_decs(ds@).skip(i as int).len() == 1);
            }
        }
    } else {
        proof {
            assert(view_decs(ds@).skip(i as int) =~= Seq::<DecModel>::empty());
            assert(final(out)@ =~= old(out)@ + print_decs(view_decs(ds@).skip(i as int)));
        }
    }
}

/// Appends the parameter list from position `i` on, joined by commas.
#[verifier::rlimit(100)]
#[verifier::spinoff_prover]
fn write_params_sep(fs: &Vec<TypeField>, i: usize, out: &mut String)
    requires
        i <= fs@.len(),
    ensures
        final(out)@ == old(out)@ + print_params(view_type_fields(fs@).skip(i as int)),
    decreases fs@.len() - i,
{
    proof {
        reveal_strlit(": ");
        reveal_strlit(", ");
    }
    if i < fs.len() {
        out.append(fs[i].0.as_str());
        out.append(": ");
        out.append(fs[i].1.as_str());
        if i + 1 < fs.len() {
            out.append(", ");
            write_params_sep(fs, i + 1, out);
            proof {
                assert(view_type_fields(fs@).skip(i as int).drop_first() =~= view_type_fields(
                    fs@,
                ).skip(i + 1));
                assert(final(out)@ =~= old(out)@ + print_params(
                    view_type_fields(fs@).skip(i as int),
                ));
            }
        } else {
            proof {
                assert(view_type_fields(fs@).skip(i as int).len() == 1);
                assert(final(out)@ =~= old(out)@ + print_params(
                    view_type_fields(fs@).skip(i as int),
                ));
            }
        }
    } else {
        proof {
            assert(view_type_fields(fs@).skip(i as int) =~= Seq::<(Seq<char>, Seq<char>)>::empty());
            assert(final(out)@ =~= old(out)@ + print_params(
                view_type_fields(fs@).skip(i as int),
            ));
        }
    }
}

/// Appends the field initializers from position `i` on, joined by commas.
#[verifier::rlimit(100)]
#[verifier::spinoff_prover]
fn write_fields_sep(fs: &Vec<Field>, i: usize, out: &mut String)
    requires
        i <= fs@.len(),
    ensures
        final(out)@ == old(out)@ + print_field_inits(view_fields(fs@).skip(i as int)),
    decreases *fs, fs@.len() - i, 3nat,
{
    broadcast use crate::ast::lemma_view_fields_len, crate::ast::lemma_view_fields_index;

    proof {
        reveal_strlit(" = ");
        reveal_strlit(", ");
    }
    if i < fs.len() {
        proof {
            assert(decreases_to!(*fs, fs@.len() - i, 3nat => fs@[i as int].1, 0nat, 2nat));
            assert(view_fields(fs@).skip(i as int).first() == (
                fs@[i as int].0@,
                view_expr_of(fs@[i as int].1),
            ));
        }
        out.append(fs[i].0.as_str());
        out.append(" = ");
        write_expr(&fs[i].1, out);
        if i + 1 < fs.len() {
            out.append(", ");
            write_fields_sep(fs, i + 1, out);
            proof {
                assert(view_fields(fs@).skip(i as int).drop_first() =~= view_fields(fs@).skip(
                    i + 1,
                ));
                assert(final(out)@ =~= old(out)@ + print_field_inits(
                    view_fields(fs@).skip(i as int),
                ));
            }
        } else {
            proof {
                assert(view_fields(fs@).skip(i as int).len() == 1);
            }
        }
    } else {
        proof {
            assert(view_fields(fs@).skip(i as int) =~= Seq::<(Seq<char>, ExprModel)>::empty());
            assert(final(out)@ =~= old(out)@ + print_field_inits(
                view_fields(fs@).skip(i as int),
            ));
        }
    }
}

/// Appends a type descriptor's canonical text.
#[verifier::rlimit(100)]
#[verifier::spinoff_prover]
fn write_type(t: &Type, out: &mut String)
    ensures
        final(out)@ == old(out)@ + print_type(t@),
{
    proof {
        reveal_strlit("{");
        reveal_strlit("}");
        reveal_strlit("array of ");
    }
    match t {
        Type::Id(name) => {
            out.append(name.as_str());
        },
        Type::Field(fs) => {
            out.append("{");
            write_params_sep(fs, 0, out);
            out.append("}");
            proof {
                assert(view_type_fields(fs@).skip(0) =~= view_type_fields(fs@));
                assert(final(out)@ =~= old(out)@ + print_type(t@));
            }
        },
        Type::Array(name) => {
            out.append("array of ");
            out.append(name.as_str());
            proof {
                assert(final(out)@ =~= old(out)@ + print_type(t@));
            }
        },
    }
}

/// The canonical source text of a tree: exactly `print_expr` of its
/// model.  A tree the parser produced re-parses from this text to the
/// same tree.
pub fn to_source(ast: &Expr) -> (r: String)
    ensures
        r@ == print_expr(ast@),
{
    let mut out = String::new();
    write_expr(ast, &mut out);
    proof {
        assert(out@ =~= print_expr(ast@));
    }
    out
}


/// Every character a number prints to is a digit, and there is at
/// least one.
proof fn lemma_dec_digits_are_digits(n: nat)
    ensures
        dec_digits(n).len() >= 1,
        forall|i: int|
            0 <= i < dec_digits(n).len() ==> crate::grammar::is_digit(#[trigger] dec_digits(n)[i]),
    decreases n,
{
    if n < 10 {
        assert(crate::grammar::is_digit(digit_char(n)));
    } else {
        lemma_dec_digits_are_digits(n / 10);
        assert(crate::grammar::is_digit(digit_char(n % 10)));
        assert forall|i: int|
            0 <= i < dec_digits(n).len() implies crate::grammar::is_digit(
            #[trigger] dec_digits(n)[i],
        ) by {
            if i < dec_digits(n / 10).len() {
                assert(dec_digits(n)[i] == dec_digits(n / 10)[i]);
            }
        }
    }
}

/// The value of a digit character is the digit.
proof fn lemma_digit_char_val(d: nat)
    requires
        d < 10,
    ensures
        crate::grammar::digit_val(digit_char(d)) == d,
{
}

/// `dec_val` reads only the text below `end`, so texts that agree
/// there give the same value.
proof fn lemma_dec_val_agree(s: Seq<char>, t: Seq<char>, end: int)
    requires
        forall|j: int| 0 <= j < end ==> s[j] == t[j],
    ensures
        crate::grammar::dec_val(s, 0, end) == crate::grammar::dec_val(t, 0, end),
    decreases end,
{
    if end > 0 {
        lemma_dec_val_agree(s, t, end - 1);
    }
}

/// Reading the printed digits of a number back gives the number.
proof fn lemma_dec_val_of_digits(n: nat)
    ensures
        crate::grammar::dec_val(dec_digits(n), 0, dec_digits(n).len() as int) == n,
    decreases n,
{
    let s = dec_digits(n);
    if n < 10 {
        lemma_digit_char_val(n);
        assert(crate::grammar::dec_val(s, 0, 1) == crate::grammar::dec_val(s, 0, 0) * 10
            + crate::grammar::digit_val(s[0]));
    } else {
        lemma_dec_val_of_digits(n / 10);
        lemma_digit_char_val(n % 10);
        let p = dec_digits(n / 10);
        lemma_dec_val_agree(s, p, p.len() as int);
        assert(crate::grammar::dec_val(s, 0, s.len() as int) == crate::grammar::dec_val(
            s,
            0,
            s.len() - 1,
        ) * 10 + crate::grammar::digit_val(s[s.len() - 1]));
        vstd::arithmetic::div_mod::lemma_fundamental_div_mod(n as int, 10);
    }
}

/// A run of digits scans to its end.
proof fn lemma_digits_end_full(s: Seq<char>, pos: int)
    requires
        0 <= pos <= s.len(),
        forall|j: int| pos <= j < s.len() ==> crate::grammar::is_digit(#[trigger] s[j]),
    ensures
        crate::grammar::digits_end(s, pos) == s.len(),
    decreases crate::grammar::rem(s, pos),
{
    if pos < s.len() {
        lemma_digits_end_full(s, pos + 1);
    }
}


/// A literal cannot match where the first characters differ.
proof fn lemma_plit_none(s: Seq<char>, lit: Seq<char>)
    requires
        lit.len() >= 1,
        s.len() >= 1,
        s[0] != lit[0],
    ensures
        crate::grammar::p_lit(s, 0, lit) is None,
{
    if lit.len() <= s.len() {
        assert(s.subrange(0, lit.len() as int)[0] == s[0]);
    }
}

/// A text that starts with a digit is no reserved word, no identifier
/// and no l-value.
proof fn lemma_digit_start_not_name(s: Seq<char>)
    requires
        s.len() >= 1,
        crate::grammar::is_digit(s[0]),
    ensures
        !crate::grammar::p_keyword(s, 0),
        crate::grammar::p_id(s, 0) is None,
        crate::grammar::p_lvalue(s, 0) is None,
{
    reveal(crate::grammar::p_lvalue);
    assert(s[0] != 'l');
    assert(s[0] != 'n');
    assert(s[0] != 'o');
    assert(s[0] != 't');
    assert(s[0] != 'v');
    assert(s[0] != 'w');
    lemma_plit_none(s, crate::grammar::lit_let());
    lemma_plit_none(s, crate::grammar::lit_nil());
    lemma_plit_none(s, crate::grammar::lit_of());
    lemma_plit_none(s, crate::grammar::lit_then());
    lemma_plit_none(s, crate::grammar::lit_to());
    lemma_plit_none(s, crate::grammar::lit_type());
    lemma_plit_none(s, crate::grammar::lit_var());
    lemma_plit_none(s, crate::grammar::lit_while());
    assert(!crate::grammar::is_alpha(s[0]));
}

/// A digit run parses as a primary: the integer literal it spells.
#[verifier::rlimit(100)]
#[verifier::spinoff_prover]
proof fn lemma_digits_primary(n: nat)
    requires
        n <= i64::MAX,
    ensures
        crate::grammar::p_primary(dec_digits(n), 0) == Option::Some(
            (ExprModel::Num(n as int), dec_digits(n).len() as int),
        ),
{
    reveal(crate::grammar::p_primary);
    reveal(crate::grammar::p_try_let);
    let s = dec_digits(n);
    lemma_dec_digits_are_digits(n);
    lemma_dec_val_of_digits(n);
    lemma_digits_end_full(s, 1);
    assert(s[0] != 'l');
    assert(s[0] != '"');
    lemma_plit_none(s, crate::grammar::lit_let());
    assert(crate::grammar::p_string(s, 0) is None);
    assert(crate::grammar::p_int(s, 0) == Option::Some((n as int, s.len() as int)));
}

/// A digit run parses as an expression: the integer literal it spells,
/// consuming the whole run.
#[verifier::rlimit(100)]
#[verifier::spinoff_prover]
proof fn lemma_digits_expr(n: nat)
    requires
        n <= i64::MAX,
    ensures
        crate::grammar::p_expr(dec_digits(n), 0) == Option::Some(
            (ExprModel::Num(n as int), dec_digits(n).len() as int),
        ),
{
    reveal(crate::grammar::p_expr);
    reveal(crate::grammar::p_try_for);
    reveal(crate::grammar::p_try_while);
    reveal(crate::grammar::p_expr0);
    reveal(crate::grammar::p_if_noelse);
    reveal(crate::grammar::p_expr1);
    reveal(crate::grammar::p_if_else);
    reveal(crate::grammar::p_expr2);
    reveal(crate::grammar::p_asgn);
    reveal(crate::grammar::p_expr3);
    reveal(crate::grammar::p_expr4);
    reveal(crate::grammar::p_expr5);
    reveal(crate::grammar::p_cmp_tail);
    reveal(crate::grammar::p_expr6);
    reveal(crate::grammar::p_expr7);
    reveal(crate::grammar::p_expr8);
    reveal(crate::grammar::p_binchain_rest);
    reveal(crate::grammar::p_addmul_rest);
    let s = dec_digits(n);
    let len = s.len() as int;
    let num = ExprModel::Num(n as int);
    lemma_dec_digits_are_digits(n);
    lemma_digit_start_not_name(s);
    lemma_digits_primary(n);
    assert(s[0] != '-');
    assert(s[0] != 'f');
    assert(s[0] != 'w');
    assert(s[0] != 'i');
    lemma_plit_none(s, crate::grammar::lit_for());
    lemma_plit_none(s, crate::grammar::lit_while());
    lemma_plit_none(s, crate::grammar::lit_if());
    lemma_plit_none(s, crate::grammar::lit_asgn());
    assert(crate::grammar::skip_spaces(s, len) == len);
    assert(crate::grammar::p_expr8(s, 0) == Option::Some((num, len)));
    assert(crate::grammar::p_addmul_rest(s, len, num, false) == Option::Some((num, len)));
    assert(crate::grammar::p_expr7(s, 0) == Option::Some((num, len)));
    assert(crate::grammar::p_addmul_rest(s, len, num, true) == Option::Some((num, len)));
    assert(crate::grammar::p_expr6(s, 0) == Option::Some((num, len)));
    assert(crate::grammar::p_op5(s, len) is None);
    assert(crate::grammar::p_cmp_tail(s, len, num) == Option::Some((num, len)));
    assert(crate::grammar::p_expr5(s, 0) == Option::Some((num, len)));
    assert(crate::grammar::p_binchain_rest(s, len, num, '&') == Option::Some((num, len)));
    assert(crate::grammar::p_expr4(s, 0) == Option::Some((num, len)));
    assert(crate::grammar::p_binchain_rest(s, len, num, '|') == Option::Some((num, len)));
    assert(crate::grammar::p_expr3(s, 0) == Option::Some((num, len)));
    assert(crate::grammar::p_asgn(s, 0) is None);
    assert(crate::grammar::p_expr2(s, 0) == Option::Some((num, len)));
    assert(crate::grammar::p_if_else(s, 0) is None);
    assert(crate::grammar::p_expr1(s, 0) == Option::Some((num, len)));
    assert(crate::grammar::p_if_noelse(s, 0) is None);
    assert(crate::grammar::p_expr0(s, 0) == Option::Some((num, len)));
    assert(crate::grammar::p_try_for(s, 0) is None);
    assert(crate::grammar::p_try_while(s, 0) is None);
}

/// The print/parse round trip, proved for integer literals: printing
/// a non-negative integer node and parsing the text back gives the
/// same node.  For other trees the round trip is exercised by tests.
pub proof fn lemma_roundtrip_num(n: int)
    requires
        0 <= n <= i64::MAX,
    ensures
        crate::grammar::parse_result(print_expr(ExprModel::Num(n))) == Option::Some(
            ExprModel::Num(n),
        ),
{
    let s = print_expr(ExprModel::Num(n));
    assert(s == dec_digits(n as nat));
    lemma_dec_digits_are_digits(n as nat);
    lemma_digits_expr(n as nat);
    assert(crate::grammar::skip_spaces(s, 0) == 0);
    assert(crate::grammar::skip_spaces(s, s.len() as int) == s.len());
}

} // verus!
