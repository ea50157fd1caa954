//! The recursive-descent parser, proved to agree with the grammar in
//! `grammar`: each function returns exactly what the corresponding
//! spec rule says, and `parse` accepts a text if and only if
//! `grammar::parse_result` does, producing a tree with that model.
//!
//! Functions carry the input as `&str` with `n` its length in
//! characters; positions count characters.
use vstd::prelude::*;
use vstd::string::StrSliceExecFns;

use crate::ast::Dec;
use crate::ast::DecModel;
use crate::ast::Expr;
use crate::ast::ExprModel;
use crate::ast::Field;
use crate::ast::LValue;
use crate::ast::LValueModel;
use crate::ast::Op;
use crate::ast::Type;
use crate::ast::TypeField;
use crate::ast::TypeModel;
use crate::ast::view_decs;
use crate::ast::view_exprs;
use crate::ast::view_fields;
use crate::ast::view_type_fields;
use crate::grammar::adv;
use crate::grammar::dec_val;
use crate::grammar::digit_val;
use crate::grammar::digits_end;
use crate::grammar::id_end;
use crate::grammar::is_alpha;
use crate::grammar::is_digit;
use crate::grammar::is_id_char;
use crate::grammar::is_space;
use crate::grammar::is_str_char;
use crate::grammar::lit_array;
use crate::grammar::lit_asgn;
use crate::grammar::lit_break;
use crate::grammar::lit_do;
use crate::grammar::lit_else;
use crate::grammar::lit_end;
use crate::grammar::lit_for;
use crate::grammar::lit_function;
use crate::grammar::lit_ge;
use crate::grammar::lit_if;
use crate::grammar::lit_in;
use crate::grammar::lit_le;
use crate::grammar::lit_let;
use crate::grammar::lit_ne;
use crate::grammar::lit_nil;
use crate::grammar::lit_of;
use crate::grammar::lit_then;
use crate::grammar::lit_to;
use crate::grammar::lit_type;
use crate::grammar::lit_var;
use crate::grammar::lit_while;
use crate::grammar::p_id;
use crate::grammar::p_int;
use crate::grammar::p_keyword;
use crate::grammar::p_lit;
use crate::grammar::p_spaces1;
use crate::grammar::p_string;
use crate::grammar::skip_spaces;
use crate::grammar::strbody_end;

verus! {

/// A rejected text: `pos` is the character position at which the parse
/// stopped — the start of the trailing text when a prefix was a valid
/// expression, and the start of the text otherwise.
#[derive(PartialEq, Eq, Structural, Clone, Copy, Debug)]
pub struct SyntaxError {
    pub pos: usize,
}

/// Whether `c` is whitespace.
#[verifier::spinoff_prover]
#[verifier::rlimit(100)]
fn e_is_space(c: char) -> (r: bool)
    ensures
        r == is_space(c),
{
    c == ' ' || c == '\n' || c == '\r' || c == '\t' || c == '\x0c'
}

/// Whether `c` is a decimal digit.
#[verifier::spinoff_prover]
#[verifier::rlimit(100)]
fn e_is_digit(c: char) -> (r: bool)
    ensures
        r == is_digit(c),
{
    let u = c as u32;
    ('0' as u32) <= u && u <= ('9' as u32)
}

/// Whether `c` is a letter.
#[verifier::spinoff_prover]
#[verifier::rlimit(100)]
fn e_is_alpha(c: char) -> (r: bool)
    ensures
        r == is_alpha(c),
{
    let u = c as u32;
    (('a' as u32) <= u && u <= ('z' as u32)) || (('A' as u32) <= u && u <= ('Z' as u32))
}

/// Whether `c` may continue an identifier.
#[verifier::spinoff_prover]
#[verifier::rlimit(100)]
fn e_is_id_char(c: char) -> (r: bool)
    ensures
        r == is_id_char(c),
{
    e_is_alpha(c) || e_is_digit(c) || c == '_'
}

/// Whether `c` may stand inside a string literal.
#[verifier::spinoff_prover]
#[verifier::rlimit(100)]
fn e_is_str_char(c: char) -> (r: bool)
    ensures
        r == is_str_char(c),
{
    c != '\\' && c != '"'
}

/// Skips whitespace.
#[verifier::spinoff_prover]
#[verifier::rlimit(100)]
fn e_skip(s: &str, n: usize, pos: usize) -> (q: usize)
    requires
        n == s@.len(),
        pos <= n,
    ensures
        q as int == skip_spaces(s@, pos as int),
        pos <= q <= n,
    decreases n - pos,
{
    if pos < n && e_is_space(s.get_char(pos)) {
        e_skip(s, n, pos + 1)
    } else {
        pos
    }
}

/// At least one whitespace character, then any further whitespace.
#[verifier::spinoff_prover]
#[verifier::rlimit(100)]
fn e_spaces1(s: &str, n: usize, pos: usize) -> (r: Option<usize>)
    requires
        n == s@.len(),
        pos <= n,
    ensures
        match r {
            Option::Some(q) => p_spaces1(s@, pos as int) == Option::Some(q as int) && pos < q <= n,
            Option::None => p_spaces1(s@, pos as int) is None,
        },
{
    if pos < n && e_is_space(s.get_char(pos)) {
        Option::Some(e_skip(s, n, pos + 1))
    } else {
        Option::None
    }
}

/// Matches a fixed literal at `pos`.
#[verifier::spinoff_prover]
#[verifier::rlimit(100)]
fn e_lit(s: &str, n: usize, pos: usize, lit: &str) -> (r: Option<usize>)
    requires
        n == s@.len(),
        pos <= n,
    ensures
        match r {
            Option::Some(p) => p_lit(s@, pos as int, lit@) == Option::Some(p as int) && pos <= p
                <= n && p == pos + lit@.len(),
            Option::None => p_lit(s@, pos as int, lit@) is None,
        },
{
    let ln = lit.unicode_len();
    if n - pos < ln {
        return Option::None;
    }
    let mut i: usize = 0;
    while i < ln
        invariant
            n == s@.len(),
            pos <= n,
            ln == lit@.len(),
            n - pos >= ln,
            i <= ln,
            forall|j: int| 0 <= j < i ==> s@[pos + j] == lit@[j],
        decreases ln - i,
    {
        if !(s.get_char(pos + i) == lit.get_char(i)) {
            proof {
                assert(s@.subrange(pos as int, pos + lit@.len())[i as int] != lit@[i as int]);
            }
            return Option::None;
        }
        i = i + 1;
    }
    proof {
        assert(s@.subrange(pos as int, pos + lit@.len()) =~= lit@);
    }
    Option::Some(pos + ln)
}

/// Whether a reserved word stands at `pos`.
#[verifier::spinoff_prover]
#[verifier::rlimit(100)]
fn e_keyword(s: &str, n: usize, pos: usize) -> (r: bool)
    requires
        n == s@.len(),
        pos <= n,
    ensures
        r == p_keyword(s@, pos as int),
{
    proof {
        reveal_strlit("let");
        reveal_strlit("nil");
        reveal_strlit("of");
        reveal_strlit("then");
        reveal_strlit("to");
        reveal_strlit("type");
        reveal_strlit("var");
        reveal_strlit("while");
        assert("let"@ =~= lit_let());
        assert("nil"@ =~= lit_nil());
        assert("of"@ =~= lit_of());
        assert("then"@ =~= lit_then());
        assert("to"@ =~= lit_to());
        assert("type"@ =~= lit_type());
        assert("var"@ =~= lit_var());
        assert("while"@ =~= lit_while());
    }
    e_lit(s, n, pos, "let").is_some() || e_lit(s, n, pos, "nil").is_some() || e_lit(
        s,
        n,
        pos,
        "of",
    ).is_some() || e_lit(s, n, pos, "then").is_some() || e_lit(s, n, pos, "to").is_some() || e_lit(
        s,
        n,
        pos,
        "type",
    ).is_some() || e_lit(s, n, pos, "var").is_some() || e_lit(s, n, pos, "while").is_some()
}

/// The end of a run of identifier characters.
#[verifier::spinoff_prover]
#[verifier::rlimit(100)]
fn e_id_end(s: &str, n: usize, pos: usize) -> (q: usize)
    requires
        n == s@.len(),
        pos <= n,
    ensures
        q as int == id_end(s@, pos as int),
        pos <= q <= n,
    decreases n - pos,
{
    if pos < n && e_is_id_char(s.get_char(pos)) {
        e_id_end(s, n, pos + 1)
    } else {
        pos
    }
}

/// An identifier: not a reserved word, a letter, then identifier
/// characters; yields its text.
#[verifier::spinoff_prover]
#[verifier::rlimit(100)]
fn e_id(s: &str, n: usize, pos: usize) -> (r: Option<(String, usize)>)
    requires
        n == s@.len(),
        pos <= n,
    ensures
        match r {
            Option::Some((name, p)) => p_id(s@, pos as int) == Option::Some((name@, p as int))
                && pos < p <= n,
            Option::None => p_id(s@, pos as int) is None,
        },
{
    if e_keyword(s, n, pos) {
        Option::None
    } else if pos < n && e_is_alpha(s.get_char(pos)) {
        let end = e_id_end(s, n, pos + 1);
        let name = s.substring_char(pos, end).to_owned();
        Option::Some((name, end))
    } else {
        Option::None
    }
}

/// The end of a run of digits.
#[verifier::spinoff_prover]
#[verifier::rlimit(100)]
fn e_digits_end(s: &str, n: usize, pos: usize) -> (q: usize)
    requires
        n == s@.len(),
        pos <= n,
    ensures
        q as int == digits_end(s@, pos as int),
        pos <= q <= n,
    decreases n - pos,
{
    if pos < n && e_is_digit(s.get_char(pos)) {
        e_digits_end(s, n, pos + 1)
    } else {
        pos
    }
}

/// An integer literal whose value fits a signed 64-bit integer.
#[verifier::spinoff_prover]
#[verifier::rlimit(100)]
fn e_int(s: &str, n: usize, pos: usize) -> (r: Option<(i64, usize)>)
    requires
        n == s@.len(),
        pos <= n,
    ensures
        match r {
            Option::Some((v, p)) => p_int(s@, pos as int) == Option::Some((v as int, p as int))
                && pos < p <= n,
            Option::None => p_int(s@, pos as int) is None,
        },
{
    if !(pos < n && e_is_digit(s.get_char(pos))) {
        return Option::None;
    }
    let end = e_digits_end(s, n, pos + 1);
    proof {
        crate::grammar::lemma_digits_end_range(s@, pos + 1);
        assert(end as int == adv(pos + 1 as int, digits_end(s@, pos + 1)));
    }
    let mut acc: u128 = 0;
    let mut i: usize = pos;
    while i < end
        invariant
            n == s@.len(),
            pos <= i <= end <= n,
            forall|j: int| pos <= j < end ==> is_digit(s@[j]),
            acc as nat == (if dec_val(s@, pos as int, i as int) > 0x7fffffffffffffff {
                0x8000000000000000nat
            } else {
                dec_val(s@, pos as int, i as int)
            }),
        decreases end - i,
    {
        proof {
            assert(is_digit(s@[i as int]));
        }
        let c = s.get_char(i);
        let d: u128 = ((c as u32) - ('0' as u32)) as u128;
        acc = acc * 10 + d;
        if acc > 0x7fffffffffffffff {
            acc = 0x8000000000000000;
        }
        proof {
            assert(dec_val(s@, pos as int, i + 1) == dec_val(s@, pos as int, i as int) * 10
                + digit_val(s@[i as int]));
        }
        i = i + 1;
    }
    if acc > 0x7fffffffffffffff {
        Option::None
    } else {
        Option::Some((acc as i64, end))
    }
}

/// A string literal between double quotes.
#[verifier::spinoff_prover]
#[verifier::rlimit(100)]
fn e_strbody_end(s: &str, n: usize, pos: usize) -> (q: usize)
    requires
        n == s@.len(),
        pos <= n,
    ensures
        q as int == strbody_end(s@, pos as int),
        pos <= q <= n,
    decreases n - pos,
{
    if pos < n && e_is_str_char(s.get_char(pos)) {
        e_strbody_end(s, n, pos + 1)
    } else {
        pos
    }
}

/// Matches one fixed character at `pos`.
#[verifier::spinoff_prover]
#[verifier::rlimit(100)]
fn e_ch(s: &str, n: usize, pos: usize, c: char) -> (r: Option<usize>)
    requires
        n == s@.len(),
        pos <= n,
    ensures
        match r {
            Option::Some(p) => crate::grammar::p_ch(s@, pos as int, c) == Option::Some(p as int)
                && p == pos + 1 && p <= n,
            Option::None => crate::grammar::p_ch(s@, pos as int, c) is None,
        },
{
    if pos < n && s.get_char(pos) == c {
        Option::Some(pos + 1)
    } else {
        Option::None
    }
}

/// A string literal: quote, body, quote; yields the body's text.
#[verifier::spinoff_prover]
#[verifier::rlimit(100)]
fn e_string(s: &str, n: usize, pos: usize) -> (r: Option<(String, usize)>)
    requires
        n == s@.len(),
        pos <= n,
    ensures
        match r {
            Option::Some((body, p)) => p_string(s@, pos as int) == Option::Some(
                (body@, p as int),
            ) && pos < p <= n,
            Option::None => p_string(s@, pos as int) is None,
        },
{
    match e_ch(s, n, pos, '"') {
        Option::None => Option::None,
        Option::Some(p1) => {
            let end = e_strbody_end(s, n, p1);
            match e_ch(s, n, end, '"') {
                Option::None => Option::None,
                Option::Some(p2) => {
                    let body = s.substring_char(p1, end).to_owned();
                    Option::Some((body, p2))
                },
            }
        },
    }
}


/// One `name : type-name` pair.
#[verifier::spinoff_prover]
#[verifier::rlimit(100)]
fn e_type_field(s: &str, n: usize, pos: usize) -> (r: Option<((String, String), usize)>)
    requires
        n == s@.len(),
        pos <= n,
    ensures
        match r {
            Option::Some((f, p)) => crate::grammar::p_type_field(s@, pos as int) == Option::Some(
                ((f.0@, f.1@), p as int),
            ) && pos <= p <= n,
            Option::None => crate::grammar::p_type_field(s@, pos as int) is None,
        },
{
    reveal_with_fuel(crate::grammar::p_type_field, 1);
    match e_id(s, n, pos) {
        Option::None => Option::None,
        Option::Some((name, p1)) => {
            let p2 = e_skip(s, n, p1);
            match e_ch(s, n, p2, ':') {
                Option::None => Option::None,
                Option::Some(p3) => {
                    let p4 = e_skip(s, n, p3);
                    match e_id(s, n, p4) {
                        Option::None => Option::None,
                        Option::Some((ty, p5)) => Option::Some(((name, ty), p5)),
                    }
                },
            }
        },
    }
}

/// Further `, name : type-name` pairs.
#[verifier::spinoff_prover]
#[verifier::rlimit(100)]
fn e_tf_rest(s: &str, n: usize, pos: usize, acc: Vec<TypeField>) -> (r: (Vec<TypeField>, usize))
    requires
        n == s@.len(),
        pos <= n,
    ensures
        crate::grammar::p_type_fields_rest(s@, pos as int, view_type_fields(acc@))
            == Option::Some((view_type_fields(r.0@), r.1 as int)),
        pos <= r.1 <= n,
    decreases n - pos, 0nat,
{
    reveal_with_fuel(crate::grammar::p_type_fields_rest, 1);
    let p1 = e_skip(s, n, pos);
    match e_ch(s, n, p1, ',') {
        Option::None => (acc, pos),
        Option::Some(p2) => {
            let p3 = e_skip(s, n, p2);
            match e_type_field(s, n, p3) {
                Option::None => (acc, pos),
                Option::Some((f, p4)) => {
                    let ghost gf = f;
                    let mut acc2 = acc;
                    acc2.push(f);
                    proof {
                        assert(view_type_fields(acc2@) =~= view_type_fields(acc@).push(
                            (gf.0@, gf.1@),
                        ));
                    }
                    e_tf_rest(s, n, p4, acc2)
                },
            }
        },
    }
}

/// One or more `name : type-name` pairs separated by commas, or
/// nothing.
#[verifier::spinoff_prover]
#[verifier::rlimit(100)]
fn e_type_fields(s: &str, n: usize, pos: usize) -> (r: (Vec<TypeField>, usize))
    requires
        n == s@.len(),
        pos <= n,
    ensures
        crate::grammar::p_type_fields(s@, pos as int) == Option::Some(
            (view_type_fields(r.0@), r.1 as int),
        ),
        pos <= r.1 <= n,
    decreases n - pos, 28nat,
{
    reveal_with_fuel(crate::grammar::p_type_fields, 1);
    match e_type_field(s, n, pos) {
        Option::None => {
            let empty: Vec<TypeField> = Vec::new();
            proof {
                assert(view_type_fields(empty@) =~= Seq::<(Seq<char>, Seq<char>)>::empty());
            }
            (empty, pos)
        },
        Option::Some((f, p1)) => {
            let ghost gf = f;
            let mut acc: Vec<TypeField> = Vec::new();
            acc.push(f);
            proof {
                assert(view_type_fields(acc@) =~= seq![(gf.0@, gf.1@)]);
            }
            e_tf_rest(s, n, p1, acc)
        },
    }
}

/// The record-shape and bare-name alternatives of a type descriptor.
#[verifier::spinoff_prover]
#[verifier::rlimit(100)]
fn e_type_tail(s: &str, n: usize, pos: usize) -> (r: Option<(Type, usize)>)
    requires
        n == s@.len(),
        pos <= n,
    ensures
        match r {
            Option::Some((t, p)) => crate::grammar::p_type_tail(s@, pos as int) == Option::Some(
                (t@, p as int),
            ) && pos <= p <= n,
            Option::None => crate::grammar::p_type_tail(s@, pos as int) is None,
        },
    decreases n - pos, 1nat,
{
    reveal_with_fuel(crate::grammar::p_type_tail, 1);
    match e_ch(s, n, pos, '{') {
        Option::Some(p1) => {
            let p2 = e_skip(s, n, p1);
            let (fs, p3) = e_type_fields(s, n, p2);
            let p4 = e_skip(s, n, p3);
            match e_ch(s, n, p4, '}') {
                Option::Some(p5) => Option::Some((Type::Field(fs), p5)),
                Option::None => match e_id(s, n, pos) {
                    Option::Some((name, p6)) => Option::Some((Type::Id(name), p6)),
                    Option::None => Option::None,
                },
            }
        },
        Option::None => match e_id(s, n, pos) {
            Option::Some((name, p6)) => Option::Some((Type::Id(name), p6)),
            Option::None => Option::None,
        },
    }
}

/// A type descriptor.
#[verifier::spinoff_prover]
#[verifier::rlimit(100)]
fn e_type(s: &str, n: usize, pos: usize) -> (r: Option<(Type, usize)>)
    requires
        n == s@.len(),
        pos <= n,
    ensures
        match r {
            Option::Some((t, p)) => crate::grammar::p_type(s@, pos as int) == Option::Some(
                (t@, p as int),
            ) && pos <= p <= n,
            Option::None => crate::grammar::p_type(s@, pos as int) is None,
        },
    decreases n - pos, 2nat,
{
    reveal_with_fuel(crate::grammar::p_type, 1);
    proof {
        reveal_strlit("array");
        reveal_strlit("of");
        assert("array"@ =~= lit_array());
        assert("of"@ =~= lit_of());
    }
    match e_lit(s, n, pos, "array") {
        Option::Some(p1) => match e_spaces1(s, n, p1) {
            Option::Some(p2) => match e_lit(s, n, p2, "of") {
                Option::Some(p3) => match e_spaces1(s, n, p3) {
                    Option::Some(p4) => match e_id(s, n, p4) {
                        Option::Some((name, p5)) => Option::Some((Type::Array(name), p5)),
                        Option::None => e_type_tail(s, n, pos),
                    },
                    Option::None => e_type_tail(s, n, pos),
                },
                Option::None => e_type_tail(s, n, pos),
            },
            Option::None => e_type_tail(s, n, pos),
        },
        Option::None => e_type_tail(s, n, pos),
    }
}

/// Suffixes of an l-value: `[ index ]` or `.field`, repeated.
#[verifier::spinoff_prover]
#[verifier::rlimit(100)]
fn e_lval_rest(s: &str, n: usize, pos: usize, acc: LValue) -> (r: (LValue, usize))
    requires
        n == s@.len(),
        pos <= n,
    ensures
        crate::grammar::p_lval_rest(s@, pos as int, acc@) == Option::Some((r.0@, r.1 as int)),
        pos <= r.1 <= n,
    decreases n - pos, 0nat,
{
    reveal_with_fuel(crate::grammar::p_lval_rest, 1);
    let p1 = e_skip(s, n, pos);
    match e_ch(s, n, p1, '[') {
        Option::Some(p2) => {
            let p3 = e_skip(s, n, p2);
            match e_expr(s, n, p3) {
                Option::None => (acc, pos),
                Option::Some((e, p4)) => {
                    let p5 = e_skip(s, n, p4);
                    match e_ch(s, n, p5, ']') {
                        Option::None => (acc, pos),
                        Option::Some(p6) => e_lval_rest(
                            s,
                            n,
                            p6,
                            LValue::Idx(Box::new(acc), Box::new(e)),
                        ),
                    }
                },
            }
        },
        Option::None => match e_ch(s, n, p1, '.') {
            Option::None => (acc, pos),
            Option::Some(p2) => {
                let p3 = e_skip(s, n, p2);
                match e_id(s, n, p3) {
                    Option::None => (acc, pos),
                    Option::Some((f, p4)) => e_lval_rest(
                        s,
                        n,
                        p4,
                        LValue::Mem(Box::new(acc), f),
                    ),
                }
            },
        },
    }
}

/// An l-value.
#[verifier::spinoff_prover]
#[verifier::rlimit(100)]
fn e_lvalue(s: &str, n: usize, pos: usize) -> (r: Option<(LValue, usize)>)
    requires
        n == s@.len(),
        pos <= n,
    ensures
        match r {
            Option::Some((l, p)) => crate::grammar::p_lvalue(s@, pos as int) == Option::Some(
                (l@, p as int),
            ) && pos <= p <= n,
            Option::None => crate::grammar::p_lvalue(s@, pos as int) is None,
        },
    decreases n - pos, 2nat,
{
    reveal_with_fuel(crate::grammar::p_lvalue, 1);
    match e_id(s, n, pos) {
        Option::None => Option::None,
        Option::Some((name, p1)) => Option::Some(e_lval_rest(s, n, p1, LValue::Id(name))),
    }
}

/// The lowest-binding expression level.
#[verifier::spinoff_prover]
#[verifier::rlimit(100)]
fn e_expr(s: &str, n: usize, pos: usize) -> (r: Option<(Expr, usize)>)
    requires
        n == s@.len(),
        pos <= n,
    ensures
        match r {
            Option::Some((e, p)) => crate::grammar::p_expr(s@, pos as int) == Option::Some(
                (e@, p as int),
            ) && pos <= p <= n,
            Option::None => crate::grammar::p_expr(s@, pos as int) is None,
        },
    decreases n - pos, 26nat,
{
    reveal_with_fuel(crate::grammar::p_expr, 1);
    match e_try_for(s, n, pos) {
        Option::Some(r) => Option::Some(r),
        Option::None => match e_try_while(s, n, pos) {
            Option::Some(r) => Option::Some(r),
            Option::None => e_expr0(s, n, pos),
        },
    }
}

/// `for name := start to end do body`.
#[verifier::rlimit(100)]
#[verifier::spinoff_prover]
fn e_try_for(s: &str, n: usize, pos: usize) -> (r: Option<(Expr, usize)>)
    requires
        n == s@.len(),
        pos <= n,
    ensures
        match r {
            Option::Some((e, p)) => crate::grammar::p_try_for(s@, pos as int) == Option::Some(
                (e@, p as int),
            ) && pos <= p <= n,
            Option::None => crate::grammar::p_try_for(s@, pos as int) is None,
        },
    decreases n - pos, 24nat,
{
    reveal_with_fuel(crate::grammar::p_try_for, 1);
    proof {
        reveal_strlit("for");
        reveal_strlit(":=");
        reveal_strlit("to");
        reveal_strlit("do");
        assert("for"@ =~= lit_for());
        assert(":="@ =~= lit_asgn());
        assert("to"@ =~= lit_to());
        assert("do"@ =~= lit_do());
    }
    match e_lit(s, n, pos, "for") {
        Option::None => Option::None,
        Option::Some(p1) => match e_spaces1(s, n, p1) {
            Option::None => Option::None,
            Option::Some(p2) => match e_id(s, n, p2) {
                Option::None => Option::None,
                Option::Some((name, p3)) => {
                    let p4 = e_skip(s, n, p3);
                    match e_lit(s, n, p4, ":=") {
                        Option::None => Option::None,
                        Option::Some(p5) => {
                            let p6 = e_skip(s, n, p5);
                            match e_expr(s, n, p6) {
                                Option::None => Option::None,
                                Option::Some((st, p7)) => match e_spaces1(s, n, p7) {
                                    Option::None => Option::None,
                                    Option::Some(p8) => match e_lit(s, n, p8, "to") {
                                        Option::None => Option::None,
                                        Option::Some(p9) => match e_spaces1(s, n, p9) {
                                            Option::None => Option::None,
                                            Option::Some(p10) => match e_expr(s, n, p10) {
                                                Option::None => Option::None,
                                                Option::Some((en, p11)) => match e_spaces1(
                                                    s,
                                                    n,
                                                    p11,
                                                ) {
                                                    Option::None => Option::None,
                                                    Option::Some(p12) => match e_lit(
                                                        s,
                                                        n,
                                                        p12,
                                                        "do",
                                                    ) {
                                                        Option::None => Option::None,
                                                        Option::Some(p13) => match e_spaces1(
                                                            s,
                                                            n,
                                                            p13,
                                                        ) {
                                                            Option::None => Option::None,
                                                            Option::Some(p14) => match e_expr(
                                                                s,
                                                                n,
                                                                p14,
                                                            ) {
                                                                Option::None => Option::None,
                                                                Option::Some((body, p15)) => Option::Some(
                                                                    (
                                                                        Expr::For(
                                                                            name,
                                                                            Box::new(st),
                                                                            Box::new(en),
                                                                            Box::new(body),
                                                                        ),
                                                                        p15,
                                                                    ),
                                                                ),
                                                            },
                                                        },
                                                    },
                                                },
                                            },
                                        },
                                    },
                                },
                            }
                        },
                    }
                },
            },
        },
    }
}

/// `while condition do body`.
#[verifier::spinoff_prover]
#[verifier::rlimit(100)]
fn e_try_while(s: &str, n: usize, pos: usize) -> (r: Option<(Expr, usize)>)
    requires
        n == s@.len(),
        pos <= n,
    ensures
        match r {
            Option::Some((e, p)) => crate::grammar::p_try_while(s@, pos as int) == Option::Some(
                (e@, p as int),
            ) && pos <= p <= n,
            Option::None => crate::grammar::p_try_while(s@, pos as int) is None,
        },
    decreases n - pos, 24nat,
{
    reveal_with_fuel(crate::grammar::p_try_while, 1);
    proof {
        reveal_strlit("while");
        reveal_strlit("do");
        assert("while"@ =~= lit_while());
        assert("do"@ =~= lit_do());
    }
    match e_lit(s, n, pos, "while") {
        Option::None => Option::None,
        Option::Some(p1) => match e_spaces1(s, n, p1) {
            Option::None => Option::None,
            Option::Some(p2) => match e_expr(s, n, p2) {
                Option::None => Option::None,
                Option::Some((c, p3)) => match e_spaces1(s, n, p3) {
                    Option::None => Option::None,
                    Option::Some(p4) => match e_lit(s, n, p4, "do") {
                        Option::None => Option::None,
                        Option::Some(p5) => match e_spaces1(s, n, p5) {
                            Option::None => Option::None,
                            Option::Some(p6) => match e_expr(s, n, p6) {
                                Option::None => Option::None,
                                Option::Some((body, p7)) => Option::Some(
                                    (Expr::Do(Box::new(c), Box::new(body)), p7),
                                ),
                            },
                        },
                    },
                },
            },
        },
    }
}

/// `if c then e` with no following `else`, or everything below.
#[verifier::spinoff_prover]
#[verifier::rlimit(100)]
fn e_expr0(s: &str, n: usize, pos: usize) -> (r: Option<(Expr, usize)>)
    requires
        n == s@.len(),
        pos <= n,
    ensures
        match r {
            Option::Some((e, p)) => crate::grammar::p_expr0(s@, pos as int) == Option::Some(
                (e@, p as int),
            ) && pos <= p <= n,
            Option::None => crate::grammar::p_expr0(s@, pos as int) is None,
        },
    decreases n - pos, 22nat,
{
    reveal_with_fuel(crate::grammar::p_expr0, 1);
    match e_if_noelse(s, n, pos) {
        Option::Some(r) => Option::Some(r),
        Option::None => e_expr1(s, n, pos),
    }
}

/// The else-less conditional alternative: it matches only when no
/// `else` follows the then-branch.
#[verifier::rlimit(100)]
#[verifier::spinoff_prover]
fn e_if_noelse(s: &str, n: usize, pos: usize) -> (r: Option<(Expr, usize)>)
    requires
        n == s@.len(),
        pos <= n,
    ensures
        match r {
            Option::Some((e, p)) => crate::grammar::p_if_noelse(s@, pos as int) == Option::Some(
                (e@, p as int),
            ) && pos <= p <= n,
            Option::None => crate::grammar::p_if_noelse(s@, pos as int) is None,
        },
    decreases n - pos, 21nat,
{
    reveal_with_fuel(crate::grammar::p_if_noelse, 1);
    proof {
        reveal_strlit("if");
        reveal_strlit("then");
        reveal_strlit("else");
        assert("if"@ =~= lit_if());
        assert("then"@ =~= lit_then());
        assert("else"@ =~= lit_else());
    }
    match e_lit(s, n, pos, "if") {
        Option::None => Option::None,
        Option::Some(p1) => {
            let p2 = e_skip(s, n, p1);
            match e_expr(s, n, p2) {
                Option::None => Option::None,
                Option::Some((c, p3)) => {
                    let p4 = e_skip(s, n, p3);
                    match e_lit(s, n, p4, "then") {
                        Option::None => Option::None,
                        Option::Some(p5) => {
                            let p6 = e_skip(s, n, p5);
                            match e_expr1(s, n, p6) {
                                Option::None => Option::None,
                                Option::Some((e1, p7)) => {
                                    let else_follows = match e_spaces1(s, n, p7) {
                                        Option::Some(q) => e_lit(s, n, q, "else").is_some(),
                                        Option::None => false,
                                    };
                                    if else_follows {
                                        Option::None
                                    } else {
                                        proof {
                                            assert(Expr::Nil@ == ExprModel::Nil);
                                        }
                                        Option::Some(
                                            (
                                                Expr::IfNode(
                                                    Box::new(c),
                                                    Box::new(e1),
                                                    Box::new(Expr::Nil),
                                                ),
                                                p7,
                                            ),
                                        )
                                    }
                                },
                            }
                        },
                    }
                },
            }
        },
    }
}

/// `if c then e1 else e2`, or everything below.
#[verifier::spinoff_prover]
#[verifier::rlimit(100)]
fn e_expr1(s: &str, n: usize, pos: usize) -> (r: Option<(Expr, usize)>)
    requires
        n == s@.len(),
        pos <= n,
    ensures
        match r {
            Option::Some((e, p)) => crate::grammar::p_expr1(s@, pos as int) == Option::Some(
                (e@, p as int),
            ) && pos <= p <= n,
            Option::None => crate::grammar::p_expr1(s@, pos as int) is None,
        },
    decreases n - pos, 20nat,
{
    reveal_with_fuel(crate::grammar::p_expr1, 1);
    match e_if_else(s, n, pos) {
        Option::Some(r) => Option::Some(r),
        Option::None => e_expr2(s, n, pos),
    }
}

/// The else-bearing conditional alternative.
#[verifier::rlimit(100)]
#[verifier::spinoff_prover]
fn e_if_else(s: &str, n: usize, pos: usize) -> (r: Option<(Expr, usize)>)
    requires
        n == s@.len(),
        pos <= n,
    ensures
        match r {
            Option::Some((e, p)) => crate::grammar::p_if_else(s@, pos as int) == Option::Some(
                (e@, p as int),
            ) && pos <= p <= n,
            Option::None => crate::grammar::p_if_else(s@, pos as int) is None,
        },
    decreases n - pos, 19nat,
{
    reveal_with_fuel(crate::grammar::p_if_else, 1);
    proof {
        reveal_strlit("if");
        reveal_strlit("then");
        reveal_strlit("else");
        assert("if"@ =~= lit_if());
        assert("then"@ =~= lit_then());
        assert("else"@ =~= lit_else());
    }
    match e_lit(s, n, pos, "if") {
        Option::None => Option::None,
        Option::Some(p1) => {
            let p2 = e_skip(s, n, p1);
            match e_expr(s, n, p2) {
                Option::None => Option::None,
                Option::Some((c, p3)) => {
                    let p4 = e_skip(s, n, p3);
                    match e_lit(s, n, p4, "then") {
                        Option::None => Option::None,
                        Option::Some(p5) => {
                            let p6 = e_skip(s, n, p5);
                            match e_expr2(s, n, p6) {
                                Option::None => Option::None,
                                Option::Some((e1, p7)) => {
                                    let p8 = e_skip(s, n, p7);
                                    match e_lit(s, n, p8, "else") {
                                        Option::None => Option::None,
                                        Option::Some(p9) => {
                                            let p10 = e_skip(s, n, p9);
                                            match e_expr2(s, n, p10) {
                                                Option::None => Option::None,
                                                Option::Some((e2, p11)) => Option::Some(
                                                    (
                                                        Expr::IfNode(
                                                            Box::new(c),
                                                            Box::new(e1),
                                                            Box::new(e2),
                                                        ),
                                                        p11,
                                                    ),
                                                ),
                                            }
                                        },
                                    }
                                },
                            }
                        },
                    }
                },
            }
        },
    }
}

/// Assignment `lvalue := e`, or everything below.
#[verifier::spinoff_prover]
#[verifier::rlimit(100)]
fn e_expr2(s: &str, n: usize, pos: usize) -> (r: Option<(Expr, usize)>)
    requires
        n == s@.len(),
        pos <= n,
    ensures
        match r {
            Option::Some((e, p)) => crate::grammar::p_expr2(s@, pos as int) == Option::Some(
                (e@, p as int),
            ) && pos <= p <= n,
            Option::None => crate::grammar::p_expr2(s@, pos as int) is None,
        },
    decreases n - pos, 18nat,
{
    reveal_with_fuel(crate::grammar::p_expr2, 1);
    match e_asgn(s, n, pos) {
        Option::Some(r) => Option::Some(r),
        Option::None => e_expr3(s, n, pos),
    }
}

/// The assignment alternative.
#[verifier::rlimit(100)]
#[verifier::spinoff_prover]
fn e_asgn(s: &str, n: usize, pos: usize) -> (r: Option<(Expr, usize)>)
    requires
        n == s@.len(),
        pos <= n,
    ensures
        match r {
            Option::Some((e, p)) => crate::grammar::p_asgn(s@, pos as int) == Option::Some(
                (e@, p as int),
            ) && pos <= p <= n,
            Option::None => crate::grammar::p_asgn(s@, pos as int) is None,
        },
    decreases n - pos, 17nat,
{
    reveal_with_fuel(crate::grammar::p_asgn, 1);
    proof {
        reveal_strlit(":=");
        assert(":="@ =~= lit_asgn());
    }
    match e_lvalue(s, n, pos) {
        Option::None => Option::None,
        Option::Some((l, p1)) => {
            let p2 = e_skip(s, n, p1);
            match e_lit(s, n, p2, ":=") {
                Option::None => Option::None,
                Option::Some(p3) => {
                    let p4 = e_skip(s, n, p3);
                    match e_expr3(s, n, p4) {
                        Option::None => Option::None,
                        Option::Some((e, p5)) => Option::Some(
                            (Expr::LAsgn(l, Box::new(e)), p5),
                        ),
                    }
                },
            }
        },
    }
}

/// Disjunction chain.
#[verifier::spinoff_prover]
#[verifier::rlimit(100)]
fn e_expr3(s: &str, n: usize, pos: usize) -> (r: Option<(Expr, usize)>)
    requires
        n == s@.len(),
        pos <= n,
    ensures
        match r {
            Option::Some((e, p)) => crate::grammar::p_expr3(s@, pos as int) == Option::Some(
                (e@, p as int),
            ) && pos <= p <= n,
            Option::None => crate::grammar::p_expr3(s@, pos as int) is None,
        },
    decreases n - pos, 16nat,
{
    reveal_with_fuel(crate::grammar::p_expr3, 1);
    match e_expr4(s, n, pos) {
        Option::None => Option::None,
        Option::Some((e, p1)) => Option::Some(e_binchain_rest(s, n, p1, e, '|')),
    }
}

/// Conjunction chain.
#[verifier::spinoff_prover]
#[verifier::rlimit(100)]
fn e_expr4(s: &str, n: usize, pos: usize) -> (r: Option<(Expr, usize)>)
    requires
        n == s@.len(),
        pos <= n,
    ensures
        match r {
            Option::Some((e, p)) => crate::grammar::p_expr4(s@, pos as int) == Option::Some(
                (e@, p as int),
            ) && pos <= p <= n,
            Option::None => crate::grammar::p_expr4(s@, pos as int) is None,
        },
    decreases n - pos, 14nat,
{
    reveal_with_fuel(crate::grammar::p_expr4, 1);
    match e_expr5(s, n, pos) {
        Option::None => Option::None,
        Option::Some((e, p1)) => Option::Some(e_binchain_rest(s, n, p1, e, '&')),
    }
}

/// Further `|` or `&` steps, folded to the left.
#[verifier::spinoff_prover]
#[verifier::rlimit(100)]
fn e_binchain_rest(s: &str, n: usize, pos: usize, acc: Expr, opc: char) -> (r: (Expr, usize))
    requires
        n == s@.len(),
        pos <= n,
    ensures
        crate::grammar::p_binchain_rest(s@, pos as int, acc@, opc) == Option::Some(
            (r.0@, r.1 as int),
        ),
        pos <= r.1 <= n,
    decreases n - pos, 0nat,
{
    reveal_with_fuel(crate::grammar::p_binchain_rest, 1);
    let p1 = e_skip(s, n, pos);
    match e_ch(s, n, p1, opc) {
        Option::None => (acc, pos),
        Option::Some(p2) => {
            let p3 = e_skip(s, n, p2);
            let sub = if opc == '|' {
                e_expr4(s, n, p3)
            } else {
                e_expr5(s, n, p3)
            };
            match sub {
                Option::None => (acc, pos),
                Option::Some((e, p4)) => {
                    let op = if opc == '|' {
                        Op::Or
                    } else {
                        Op::And
                    };
                    e_binchain_rest(
                        s,
                        n,
                        p4,
                        Expr::OpNode(op, Box::new(acc), Box::new(e)),
                        opc,
                    )
                },
            }
        },
    }
}

/// One comparison operator.
#[verifier::spinoff_prover]
#[verifier::rlimit(100)]
fn e_op5(s: &str, n: usize, pos: usize) -> (r: Option<(Op, usize)>)
    requires
        n == s@.len(),
        pos <= n,
    ensures
        match r {
            Option::Some((op, p)) => crate::grammar::p_op5(s@, pos as int) == Option::Some(
                (op, p as int),
            ) && pos <= p <= n,
            Option::None => crate::grammar::p_op5(s@, pos as int) is None,
        },
{
    proof {
        reveal_strlit("<>");
        reveal_strlit("<=");
        reveal_strlit(">=");
        assert("<>"@ =~= lit_ne());
        assert("<="@ =~= lit_le());
        assert(">="@ =~= lit_ge());
    }
    match e_ch(s, n, pos, '=') {
        Option::Some(p) => Option::Some((Op::Eq, p)),
        Option::None => match e_lit(s, n, pos, "<>") {
            Option::Some(p) => Option::Some((Op::Ne, p)),
            Option::None => match e_lit(s, n, pos, "<=") {
                Option::Some(p) => Option::Some((Op::Le, p)),
                Option::None => match e_lit(s, n, pos, ">=") {
                    Option::Some(p) => Option::Some((Op::Ge, p)),
                    Option::None => match e_ch(s, n, pos, '<') {
                        Option::Some(p) => Option::Some((Op::Lt, p)),
                        Option::None => match e_ch(s, n, pos, '>') {
                            Option::Some(p) => Option::Some((Op::Gt, p)),
                            Option::None => Option::None,
                        },
                    },
                },
            },
        },
    }
}

/// A single comparison, or a bare operand.
#[verifier::spinoff_prover]
#[verifier::rlimit(100)]
fn e_expr5(s: &str, n: usize, pos: usize) -> (r: Option<(Expr, usize)>)
    requires
        n == s@.len(),
        pos <= n,
    ensures
        match r {
            Option::Some((e, p)) => crate::grammar::p_expr5(s@, pos as int) == Option::Some(
                (e@, p as int),
            ) && pos <= p <= n,
            Option::None => crate::grammar::p_expr5(s@, pos as int) is None,
        },
    decreases n - pos, 12nat,
{
    reveal_with_fuel(crate::grammar::p_expr5, 1);
    match e_expr6(s, n, pos) {
        Option::None => Option::None,
        Option::Some((e1, p1)) => Option::Some(e_cmp_tail(s, n, p1, e1)),
    }
}

/// After a first operand, either one comparison step or nothing.
#[verifier::spinoff_prover]
#[verifier::rlimit(100)]
fn e_cmp_tail(s: &str, n: usize, pos: usize, e1: Expr) -> (r: (Expr, usize))
    requires
        n == s@.len(),
        pos <= n,
    ensures
        crate::grammar::p_cmp_tail(s@, pos as int, e1@) == Option::Some((r.0@, r.1 as int)),
        pos <= r.1 <= n,
    decreases n - pos, 11nat,
{
    reveal_with_fuel(crate::grammar::p_cmp_tail, 1);
    let p2 = e_skip(s, n, pos);
    match e_op5(s, n, p2) {
        Option::None => (e1, pos),
        Option::Some((op, p3)) => {
            let p4 = e_skip(s, n, p3);
            match e_expr6(s, n, p4) {
                Option::None => (e1, pos),
                Option::Some((e2, p5)) => (Expr::OpNode(op, Box::new(e1), Box::new(e2)), p5),
            }
        },
    }
}

/// Additive chain.
#[verifier::spinoff_prover]
#[verifier::rlimit(100)]
fn e_expr6(s: &str, n: usize, pos: usize) -> (r: Option<(Expr, usize)>)
    requires
        n == s@.len(),
        pos <= n,
    ensures
        match r {
            Option::Some((e, p)) => crate::grammar::p_expr6(s@, pos as int) == Option::Some(
                (e@, p as int),
            ) && pos <= p <= n,
            Option::None => crate::grammar::p_expr6(s@, pos as int) is None,
        },
    decreases n - pos, 10nat,
{
    reveal_with_fuel(crate::grammar::p_expr6, 1);
    match e_expr7(s, n, pos) {
        Option::None => Option::None,
        Option::Some((e, p1)) => Option::Some(e_addmul_rest(s, n, p1, e, true)),
    }
}

/// Multiplicative chain.
#[verifier::spinoff_prover]
#[verifier::rlimit(100)]
fn e_expr7(s: &str, n: usize, pos: usize) -> (r: Option<(Expr, usize)>)
    requires
        n == s@.len(),
        pos <= n,
    ensures
        match r {
            Option::Some((e, p)) => crate::grammar::p_expr7(s@, pos as int) == Option::Some(
                (e@, p as int),
            ) && pos <= p <= n,
            Option::None => crate::grammar::p_expr7(s@, pos as int) is None,
        },
    decreases n - pos, 8nat,
{
    reveal_with_fuel(crate::grammar::p_expr7, 1);
    match e_expr8(s, n, pos) {
        Option::None => Option::None,
        Option::Some((e, p1)) => Option::Some(e_addmul_rest(s, n, p1, e, false)),
    }
}

/// Further `+`/`-` or `*`/`/` steps, folded to the left.
#[verifier::spinoff_prover]
#[verifier::rlimit(100)]
fn e_addmul_rest(s: &str, n: usize, pos: usize, acc: Expr, additive: bool) -> (r: (Expr, usize))
    requires
        n == s@.len(),
        pos <= n,
    ensures
        crate::grammar::p_addmul_rest(s@, pos as int, acc@, additive) == Option::Some(
            (r.0@, r.1 as int),
        ),
        pos <= r.1 <= n,
    decreases n - pos, 0nat,
{
    reveal_with_fuel(crate::grammar::p_addmul_rest, 1);
    let p1 = e_skip(s, n, pos);
    let opm: Option<(Op, usize)> = if additive {
        match e_ch(s, n, p1, '+') {
            Option::Some(p) => Option::Some((Op::Add, p)),
            Option::None => match e_ch(s, n, p1, '-') {
                Option::Some(p) => Option::Some((Op::Sub, p)),
                Option::None => Option::None,
            },
        }
    } else {
        match e_ch(s, n, p1, '*') {
            Option::Some(p) => Option::Some((Op::Mul, p)),
            Option::None => match e_ch(s, n, p1, '/') {
                Option::Some(p) => Option::Some((Op::Div, p)),
                Option::None => Option::None,
            },
        }
    };
    match opm {
        Option::None => (acc, pos),
        Option::Some((op, p2)) => {
            let p3 = e_skip(s, n, p2);
            let sub = if additive {
                e_expr7(s, n, p3)
            } else {
                e_expr8(s, n, p3)
            };
            match sub {
                Option::None => (acc, pos),
                Option::Some((e, p4)) => e_addmul_rest(
                    s,
                    n,
                    p4,
                    Expr::OpNode(op, Box::new(acc), Box::new(e)),
                    additive,
                ),
            }
        },
    }
}

/// Unary minus, or a primary.
#[verifier::spinoff_prover]
#[verifier::rlimit(100)]
fn e_expr8(s: &str, n: usize, pos: usize) -> (r: Option<(Expr, usize)>)
    requires
        n == s@.len(),
        pos <= n,
    ensures
        match r {
            Option::Some((e, p)) => crate::grammar::p_expr8(s@, pos as int) == Option::Some(
                (e@, p as int),
            ) && pos <= p <= n,
            Option::None => crate::grammar::p_expr8(s@, pos as int) is None,
        },
    decreases n - pos, 6nat,
{
    reveal_with_fuel(crate::grammar::p_expr8, 1);
    match e_ch(s, n, pos, '-') {
        Option::Some(p1) => {
            let p2 = e_skip(s, n, p1);
            match e_expr8(s, n, p2) {
                Option::Some((e, p3)) => Option::Some((Expr::Neg(Box::new(e)), p3)),
                Option::None => e_primary(s, n, pos),
            }
        },
        Option::None => e_primary(s, n, pos),
    }
}

/// A primary expression, alternatives in grammar order.
#[verifier::rlimit(100)]
#[verifier::spinoff_prover]
fn e_primary(s: &str, n: usize, pos: usize) -> (r: Option<(Expr, usize)>)
    requires
        n == s@.len(),
        pos <= n,
    ensures
        match r {
            Option::Some((e, p)) => crate::grammar::p_primary(s@, pos as int) == Option::Some(
                (e@, p as int),
            ) && pos <= p <= n,
            Option::None => crate::grammar::p_primary(s@, pos as int) is None,
        },
    decreases n - pos, 4nat,
{
    reveal_with_fuel(crate::grammar::p_primary, 1);
    proof {
        reveal_strlit("nil");
        reveal_strlit("break");
        assert("nil"@ =~= lit_nil());
        assert("break"@ =~= lit_break());
    }
    match e_try_let(s, n, pos) {
        Option::Some(r) => Option::Some(r),
        Option::None => match e_string(s, n, pos) {
            Option::Some((str0, p1)) => Option::Some((Expr::Str(str0), p1)),
            Option::None => match e_int(s, n, pos) {
                Option::Some((v, p1)) => Option::Some((Expr::Num(v), p1)),
                Option::None => match e_lit(s, n, pos, "nil") {
                    Option::Some(p1) => Option::Some((Expr::Nil, p1)),
                    Option::None => match e_try_call(s, n, pos) {
                        Option::Some(r) => Option::Some(r),
                        Option::None => match e_try_struct(s, n, pos) {
                            Option::Some(r) => Option::Some(r),
                            Option::None => match e_try_array(s, n, pos) {
                                Option::Some(r) => Option::Some(r),
                                Option::None => match e_try_paren(s, n, pos) {
                                    Option::Some(r) => Option::Some(r),
                                    Option::None => match e_lit(s, n, pos, "break") {
                                        Option::Some(p1) => Option::Some((Expr::Break, p1)),
                                        Option::None => match e_lvalue(s, n, pos) {
                                            Option::Some((l, p1)) => Option::Some(
                                                (Expr::LVal(l), p1),
                                            ),
                                            Option::None => Option::None,
                                        },
                                    },
                                },
                            },
                        },
                    },
                },
            },
        },
    }
}

/// `let declarations in body end`.
#[verifier::rlimit(100)]
#[verifier::spinoff_prover]
fn e_try_let(s: &str, n: usize, pos: usize) -> (r: Option<(Expr, usize)>)
    requires
        n == s@.len(),
        pos <= n,
    ensures
        match r {
            Option::Some((e, p)) => crate::grammar::p_try_let(s@, pos as int) == Option::Some(
                (e@, p as int),
            ) && pos <= p <= n,
            Option::None => crate::grammar::p_try_let(s@, pos as int) is None,
        },
    decreases n - pos, 3nat,
{
    reveal_with_fuel(crate::grammar::p_try_let, 1);
    proof {
        reveal_strlit("let");
        reveal_strlit("in");
        reveal_strlit("end");
        assert("let"@ =~= lit_let());
        assert("in"@ =~= lit_in());
        assert("end"@ =~= lit_end());
    }
    match e_lit(s, n, pos, "let") {
        Option::None => Option::None,
        Option::Some(p1) => match e_spaces1(s, n, p1) {
            Option::None => Option::None,
            Option::Some(p2) => match e_decl_list(s, n, p2) {
                Option::None => Option::None,
                Option::Some((ds, p3)) => match e_spaces1(s, n, p3) {
                    Option::None => Option::None,
                    Option::Some(p4) => match e_lit(s, n, p4, "in") {
                        Option::None => Option::None,
                        Option::Some(p5) => match e_spaces1(s, n, p5) {
                            Option::None => Option::None,
                            Option::Some(p6) => {
                                let (es, p7) = e_expr_seq_opt(s, n, p6);
                                match e_spaces1(s, n, p7) {
                                    Option::None => Option::None,
                                    Option::Some(p8) => match e_lit(s, n, p8, "end") {
                                        Option::None => Option::None,
                                        Option::Some(p9) => {
                                            let ghost ges = es@;
                                            let seq_body = Expr::Sequence(es);
                                            proof {
                                                assert(seq_body@ == ExprModel::Sequence(
                                                    view_exprs(ges),
                                                ));
                                            }
                                            Option::Some(
                                                (Expr::Let(ds, Box::new(seq_body)), p9),
                                            )
                                        },
                                    },
                                }
                            },
                        },
                    },
                },
            },
        },
    }
}

/// A call `name ( arguments )`.
#[verifier::spinoff_prover]
#[verifier::rlimit(100)]
fn e_try_call(s: &str, n: usize, pos: usize) -> (r: Option<(Expr, usize)>)
    requires
        n == s@.len(),
        pos <= n,
    ensures
        match r {
            Option::Some((e, p)) => crate::grammar::p_try_call(s@, pos as int) == Option::Some(
                (e@, p as int),
            ) && pos <= p <= n,
            Option::None => crate::grammar::p_try_call(s@, pos as int) is None,
        },
    decreases n - pos, 3nat,
{
    reveal_with_fuel(crate::grammar::p_try_call, 1);
    match e_id(s, n, pos) {
        Option::None => Option::None,
        Option::Some((name, p1)) => {
            let p2 = e_skip(s, n, p1);
            match e_ch(s, n, p2, '(') {
                Option::None => Option::None,
                Option::Some(p3) => {
                    let p4 = e_skip(s, n, p3);
                    let (args, p5) = e_expr_list_opt(s, n, p4);
                    let p6 = e_skip(s, n, p5);
                    match e_ch(s, n, p6, ')') {
                        Option::None => Option::None,
                        Option::Some(p7) => Option::Some((Expr::FunApp(name, args), p7)),
                    }
                },
            }
        },
    }
}

/// A record constructor `typename { field = e, ... }`.
#[verifier::spinoff_prover]
#[verifier::rlimit(100)]
fn e_try_struct(s: &str, n: usize, pos: usize) -> (r: Option<(Expr, usize)>)
    requires
        n == s@.len(),
        pos <= n,
    ensures
        match r {
            Option::Some((e, p)) => crate::grammar::p_try_struct(s@, pos as int) == Option::Some(
                (e@, p as int),
            ) && pos <= p <= n,
            Option::None => crate::grammar::p_try_struct(s@, pos as int) is None,
        },
    decreases n - pos, 3nat,
{
    reveal_with_fuel(crate::grammar::p_try_struct, 1);
    match e_id(s, n, pos) {
        Option::None => Option::None,
        Option::Some((name, p1)) => {
            let p2 = e_skip(s, n, p1);
            match e_ch(s, n, p2, '{') {
                Option::None => Option::None,
                Option::Some(p3) => {
                    let p4 = e_skip(s, n, p3);
                    let (fs, p5) = e_field_list_opt(s, n, p4);
                    let p6 = e_skip(s, n, p5);
                    match e_ch(s, n, p6, '}') {
                        Option::None => Option::None,
                        Option::Some(p7) => Option::Some((Expr::NewStruct(name, fs), p7)),
                    }
                },
            }
        },
    }
}

/// An array constructor `typename [ size ] of fill`.
#[verifier::rlimit(100)]
#[verifier::spinoff_prover]
fn e_try_array(s: &str, n: usize, pos: usize) -> (r: Option<(Expr, usize)>)
    requires
        n == s@.len(),
        pos <= n,
    ensures
        match r {
            Option::Some((e, p)) => crate::grammar::p_try_array(s@, pos as int) == Option::Some(
                (e@, p as int),
            ) && pos <= p <= n,
            Option::None => crate::grammar::p_try_array(s@, pos as int) is None,
        },
    decreases n - pos, 3nat,
{
    reveal_with_fuel(crate::grammar::p_try_array, 1);
    proof {
        reveal_strlit("of");
        assert("of"@ =~= lit_of());
    }
    match e_id(s, n, pos) {
        Option::None => Option::None,
        Option::Some((name, p1)) => {
            let p2 = e_skip(s, n, p1);
            match e_ch(s, n, p2, '[') {
                Option::None => Option::None,
                Option::Some(p3) => {
                    let p4 = e_skip(s, n, p3);
                    match e_expr(s, n, p4) {
                        Option::None => Option::None,
                        Option::Some((sz, p5)) => {
                            let p6 = e_skip(s, n, p5);
                            match e_ch(s, n, p6, ']') {
                                Option::None => Option::None,
                                Option::Some(p7) => {
                                    let p8 = e_skip(s, n, p7);
                                    match e_lit(s, n, p8, "of") {
                                        Option::None => Option::None,
                                        Option::Some(p9) => {
                                            let p10 = e_skip(s, n, p9);
                                            match e_expr(s, n, p10) {
                                                Option::None => Option::None,
                                                Option::Some((fill, p11)) => Option::Some(
                                                    (
                                                        Expr::NewArray(
                                                            name,
                                                            Box::new(sz),
                                                            Box::new(fill),
                                                        ),
                                                        p11,
                                                    ),
                                                ),
                                            }
                                        },
                                    }
                                },
                            }
                        },
                    }
                },
            }
        },
    }
}

/// A parenthesized, semicolon-separated sequence.
#[verifier::spinoff_prover]
#[verifier::rlimit(100)]
fn e_try_paren(s: &str, n: usize, pos: usize) -> (r: Option<(Expr, usize)>)
    requires
        n == s@.len(),
        pos <= n,
    ensures
        match r {
            Option::Some((e, p)) => crate::grammar::p_try_paren(s@, pos as int) == Option::Some(
                (e@, p as int),
            ) && pos <= p <= n,
            Option::None => crate::grammar::p_try_paren(s@, pos as int) is None,
        },
    decreases n - pos, 3nat,
{
    reveal_with_fuel(crate::grammar::p_try_paren, 1);
    match e_ch(s, n, pos, '(') {
        Option::None => Option::None,
        Option::Some(p1) => {
            let p2 = e_skip(s, n, p1);
            let (es, p3) = e_expr_seq_opt(s, n, p2);
            let p4 = e_skip(s, n, p3);
            match e_ch(s, n, p4, ')') {
                Option::None => Option::None,
                Option::Some(p5) => Option::Some((Expr::Sequence(es), p5)),
            }
        },
    }
}

/// One or more expressions separated by `;`, or nothing.
#[verifier::spinoff_prover]
#[verifier::rlimit(100)]
fn e_expr_seq_opt(s: &str, n: usize, pos: usize) -> (r: (Vec<Expr>, usize))
    requires
        n == s@.len(),
        pos <= n,
    ensures
        crate::grammar::p_expr_seq_opt(s@, pos as int) == Option::Some(
            (view_exprs(r.0@), r.1 as int),
        ),
        pos <= r.1 <= n,
    decreases n - pos, 28nat,
{
    reveal_with_fuel(crate::grammar::p_expr_seq_opt, 1);
    match e_expr(s, n, pos) {
        Option::None => {
            let empty: Vec<Expr> = Vec::new();
            proof {
                assert(view_exprs(empty@) =~= Seq::<ExprModel>::empty());
            }
            (empty, pos)
        },
        Option::Some((e, p1)) => {
            let ghost ge = e;
            let mut acc: Vec<Expr> = Vec::new();
            acc.push(e);
            proof {
                broadcast use crate::ast::lemma_view_exprs_push;

                assert(view_exprs(Seq::<Expr>::empty()) =~= Seq::<ExprModel>::empty());
                assert(view_exprs(acc@) =~= seq![ge@]);
            }
            e_sep_exprs_rest(s, n, p1, acc, ';')
        },
    }
}

/// One or more expressions separated by `,`, or nothing.
#[verifier::spinoff_prover]
#[verifier::rlimit(100)]
fn e_expr_list_opt(s: &str, n: usize, pos: usize) -> (r: (Vec<Expr>, usize))
    requires
        n == s@.len(),
        pos <= n,
    ensures
        crate::grammar::p_expr_list_opt(s@, pos as int) == Option::Some(
            (view_exprs(r.0@), r.1 as int),
        ),
        pos <= r.1 <= n,
    decreases n - pos, 28nat,
{
    reveal_with_fuel(crate::grammar::p_expr_list_opt, 1);
    match e_expr(s, n, pos) {
        Option::None => {
            let empty: Vec<Expr> = Vec::new();
            proof {
                assert(view_exprs(empty@) =~= Seq::<ExprModel>::empty());
            }
            (empty, pos)
        },
        Option::Some((e, p1)) => {
            let ghost ge = e;
            let mut acc: Vec<Expr> = Vec::new();
            acc.push(e);
            proof {
                broadcast use crate::ast::lemma_view_exprs_push;

                assert(view_exprs(Seq::<Expr>::empty()) =~= Seq::<ExprModel>::empty());
                assert(view_exprs(acc@) =~= seq![ge@]);
            }
            e_sep_exprs_rest(s, n, p1, acc, ',')
        },
    }
}

/// Further `<sep> expression` steps.
#[verifier::spinoff_prover]
#[verifier::rlimit(100)]
fn e_sep_exprs_rest(s: &str, n: usize, pos: usize, acc: Vec<Expr>, sep: char) -> (r: (
    Vec<Expr>,
    usize,
))
    requires
        n == s@.len(),
        pos <= n,
    ensures
        crate::grammar::p_sep_exprs_rest(s@, pos as int, view_exprs(acc@), sep) == Option::Some(
            (view_exprs(r.0@), r.1 as int),
        ),
        pos <= r.1 <= n,
    decreases n - pos, 0nat,
{
    reveal_with_fuel(crate::grammar::p_sep_exprs_rest, 1);
    let p1 = e_skip(s, n, pos);
    match e_ch(s, n, p1, sep) {
        Option::None => (acc, pos),
        Option::Some(p2) => {
            let p3 = e_skip(s, n, p2);
            match e_expr(s, n, p3) {
                Option::None => (acc, pos),
                Option::Some((e, p4)) => {
                    let ghost ge = e;
                    let mut acc2 = acc;
                    acc2.push(e);
                    proof {
                        broadcast use crate::ast::lemma_view_exprs_push;

                        assert(view_exprs(acc2@) == view_exprs(acc2@.drop_last()).push(ge@));
                    }
                    e_sep_exprs_rest(s, n, p4, acc2, sep)
                },
            }
        },
    }
}

/// One `name = expression` field initializer.
#[verifier::spinoff_prover]
#[verifier::rlimit(100)]
fn e_field(s: &str, n: usize, pos: usize) -> (r: Option<(Field, usize)>)
    requires
        n == s@.len(),
        pos <= n,
    ensures
        match r {
            Option::Some((f, p)) => crate::grammar::p_field(s@, pos as int) == Option::Some(
                ((f.0@, f.1@), p as int),
            ) && pos <= p <= n,
            Option::None => crate::grammar::p_field(s@, pos as int) is None,
        },
    decreases n - pos, 2nat,
{
    reveal_with_fuel(crate::grammar::p_field, 1);
    match e_id(s, n, pos) {
        Option::None => Option::None,
        Option::Some((name, p1)) => {
            let p2 = e_skip(s, n, p1);
            match e_ch(s, n, p2, '=') {
                Option::None => Option::None,
                Option::Some(p3) => {
                    let p4 = e_skip(s, n, p3);
                    match e_expr(s, n, p4) {
                        Option::None => Option::None,
                        Option::Some((e, p5)) => Option::Some(((name, e), p5)),
                    }
                },
            }
        },
    }
}

/// One or more field initializers separated by `,`, or nothing.
#[verifier::spinoff_prover]
#[verifier::rlimit(100)]
fn e_field_list_opt(s: &str, n: usize, pos: usize) -> (r: (Vec<Field>, usize))
    requires
        n == s@.len(),
        pos <= n,
    ensures
        crate::grammar::p_field_list_opt(s@, pos as int) == Option::Some(
            (view_fields(r.0@), r.1 as int),
        ),
        pos <= r.1 <= n,
    decreases n - pos, 28nat,
{
    reveal_with_fuel(crate::grammar::p_field_list_opt, 1);
    match e_field(s, n, pos) {
        Option::None => {
            let empty: Vec<Field> = Vec::new();
            proof {
                assert(view_fields(empty@) =~= Seq::<(Seq<char>, ExprModel)>::empty());
            }
            (empty, pos)
        },
        Option::Some((f, p1)) => {
            let ghost gf = f;
            let mut acc: Vec<Field> = Vec::new();
            acc.push(f);
            proof {
                broadcast use crate::ast::lemma_view_fields_push;

                assert(view_fields(Seq::<Field>::empty()) =~= Seq::<
                    (Seq<char>, ExprModel),
                >::empty());
                assert(view_fields(acc@) =~= seq![(gf.0@, gf.1@)]);
            }
            e_fields_rest(s, n, p1, acc)
        },
    }
}

/// Further `, name = expression` steps.
#[verifier::spinoff_prover]
#[verifier::rlimit(100)]
fn e_fields_rest(s: &str, n: usize, pos: usize, acc: Vec<Field>) -> (r: (Vec<Field>, usize))
    requires
        n == s@.len(),
        pos <= n,
    ensures
        crate::grammar::p_fields_rest(s@, pos as int, view_fields(acc@)) == Option::Some(
            (view_fields(r.0@), r.1 as int),
        ),
        pos <= r.1 <= n,
    decreases n - pos, 0nat,
{
    reveal_with_fuel(crate::grammar::p_fields_rest, 1);
    let p1 = e_skip(s, n, pos);
    match e_ch(s, n, p1, ',') {
        Option::None => (acc, pos),
        Option::Some(p2) => {
            let p3 = e_skip(s, n, p2);
            match e_field(s, n, p3) {
                Option::None => (acc, pos),
                Option::Some((f, p4)) => {
                    let ghost gf = f;
                    let mut acc2 = acc;
                    acc2.push(f);
                    proof {
                        broadcast use crate::ast::lemma_view_fields_push;

                        assert(view_fields(acc2@) == view_fields(acc2@.drop_last()).push(
                            (gf.0@, gf.1@),
                        ));
                    }
                    e_fields_rest(s, n, p4, acc2)
                },
            }
        },
    }
}

/// An optional `: typename` annotation followed by whitespace.
#[verifier::spinoff_prover]
#[verifier::rlimit(100)]
fn e_opt_ty(s: &str, n: usize, pos: usize) -> (r: (Option<String>, usize))
    requires
        n == s@.len(),
        pos <= n,
    ensures
        crate::grammar::p_opt_ty(s@, pos as int) == (
            crate::interpret::view_opt_name(r.0),
            r.1 as int,
        ),
        pos <= r.1 <= n,
{
    reveal_with_fuel(crate::grammar::p_opt_ty, 1);
    match e_ch(s, n, pos, ':') {
        Option::None => (Option::None, pos),
        Option::Some(p1) => {
            let p2 = e_skip(s, n, p1);
            match e_id(s, n, p2) {
                Option::None => (Option::None, pos),
                Option::Some((ty, p3)) => {
                    let p4 = e_skip(s, n, p3);
                    (Option::Some(ty), p4)
                },
            }
        },
    }
}

/// One declaration.
#[verifier::spinoff_prover]
#[verifier::rlimit(100)]
fn e_declaration(s: &str, n: usize, pos: usize) -> (r: Option<(Dec, usize)>)
    requires
        n == s@.len(),
        pos <= n,
    ensures
        match r {
            Option::Some((d, p)) => crate::grammar::p_declaration(s@, pos as int) == Option::Some(
                (d@, p as int),
            ) && pos < p <= n,
            Option::None => crate::grammar::p_declaration(s@, pos as int) is None,
        },
    decreases n - pos, 2nat,
{
    reveal_with_fuel(crate::grammar::p_declaration, 1);
    match e_try_type_dec(s, n, pos) {
        Option::Some(r) => Option::Some(r),
        Option::None => match e_try_var_dec(s, n, pos) {
            Option::Some(r) => Option::Some(r),
            Option::None => e_try_fun_dec(s, n, pos),
        },
    }
}

/// `type name = type-descriptor`.
#[verifier::spinoff_prover]
#[verifier::rlimit(100)]
fn e_try_type_dec(s: &str, n: usize, pos: usize) -> (r: Option<(Dec, usize)>)
    requires
        n == s@.len(),
        pos <= n,
    ensures
        match r {
            Option::Some((d, p)) => crate::grammar::p_try_type_dec(s@, pos as int)
                == Option::Some((d@, p as int)) && pos < p <= n,
            Option::None => crate::grammar::p_try_type_dec(s@, pos as int) is None,
        },
    decreases n - pos, 1nat,
{
    reveal_with_fuel(crate::grammar::p_try_type_dec, 1);
    proof {
        reveal_strlit("type");
        assert("type"@ =~= lit_type());
    }
    match e_lit(s, n, pos, "type") {
        Option::None => Option::None,
        Option::Some(p1) => match e_spaces1(s, n, p1) {
            Option::None => Option::None,
            Option::Some(p2) => match e_id(s, n, p2) {
                Option::None => Option::None,
                Option::Some((name, p3)) => {
                    let p4 = e_skip(s, n, p3);
                    match e_ch(s, n, p4, '=') {
                        Option::None => Option::None,
                        Option::Some(p5) => {
                            let p6 = e_skip(s, n, p5);
                            match e_type(s, n, p6) {
                                Option::None => Option::None,
                                Option::Some((ty, p7)) => Option::Some(
                                    (Dec::Type(name, ty), p7),
                                ),
                            }
                        },
                    }
                },
            },
        },
    }
}

/// `var name := e` or `var name : typename := e`.
#[verifier::rlimit(100)]
#[verifier::spinoff_prover]
fn e_try_var_dec(s: &str, n: usize, pos: usize) -> (r: Option<(Dec, usize)>)
    requires
        n == s@.len(),
        pos <= n,
    ensures
        match r {
            Option::Some((d, p)) => crate::grammar::p_try_var_dec(s@, pos as int) == Option::Some(
                (d@, p as int),
            ) && pos < p <= n,
            Option::None => crate::grammar::p_try_var_dec(s@, pos as int) is None,
        },
    decreases n - pos, 1nat,
{
    reveal_with_fuel(crate::grammar::p_try_var_dec, 1);
    proof {
        reveal_strlit("var");
        reveal_strlit(":=");
        assert("var"@ =~= lit_var());
        assert(":="@ =~= lit_asgn());
    }
    match e_lit(s, n, pos, "var") {
        Option::None => Option::None,
        Option::Some(p1) => match e_spaces1(s, n, p1) {
            Option::None => Option::None,
            Option::Some(p2) => match e_id(s, n, p2) {
                Option::None => Option::None,
                Option::Some((name, p3)) => {
                    let p4 = e_skip(s, n, p3);
                    let (opt_ty, p5) = e_opt_ty(s, n, p4);
                    match e_lit(s, n, p5, ":=") {
                        Option::None => Option::None,
                        Option::Some(p6) => {
                            let p7 = e_skip(s, n, p6);
                            match e_expr(s, n, p7) {
                                Option::None => Option::None,
                                Option::Some((e, p8)) => Option::Some(
                                    (Dec::Var(name, opt_ty, e), p8),
                                ),
                            }
                        },
                    }
                },
            },
        },
    }
}

/// `function name ( parameters ) = body`, with an optional return type.
#[verifier::rlimit(100)]
#[verifier::spinoff_prover]
fn e_try_fun_dec(s: &str, n: usize, pos: usize) -> (r: Option<(Dec, usize)>)
    requires
        n == s@.len(),
        pos <= n,
    ensures
        match r {
            Option::Some((d, p)) => crate::grammar::p_try_fun_dec(s@, pos as int) == Option::Some(
                (d@, p as int),
            ) && pos < p <= n,
            Option::None => crate::grammar::p_try_fun_dec(s@, pos as int) is None,
        },
    decreases n - pos, 1nat,
{
    reveal_with_fuel(crate::grammar::p_try_fun_dec, 1);
    proof {
        reveal_strlit("function");
        assert("function"@ =~= lit_function());
    }
    match e_lit(s, n, pos, "function") {
        Option::None => Option::None,
        Option::Some(p1) => match e_spaces1(s, n, p1) {
            Option::None => Option::None,
            Option::Some(p2) => match e_id(s, n, p2) {
                Option::None => Option::None,
                Option::Some((name, p3)) => {
                    let p4 = e_skip(s, n, p3);
                    match e_ch(s, n, p4, '(') {
                        Option::None => Option::None,
                        Option::Some(p5) => {
                            let p6 = e_skip(s, n, p5);
                            let (params, p7) = e_type_fields(s, n, p6);
                            let p8 = e_skip(s, n, p7);
                            match e_ch(s, n, p8, ')') {
                                Option::None => Option::None,
                                Option::Some(p9) => {
                                    let p10 = e_skip(s, n, p9);
                                    let (opt_ty, p11) = e_opt_ty(s, n, p10);
                                    match e_ch(s, n, p11, '=') {
                                        Option::None => Option::None,
                                        Option::Some(p12) => {
                                            let p13 = e_skip(s, n, p12);
                                            match e_expr(s, n, p13) {
                                                Option::None => Option::None,
                                                Option::Some((body, p14)) => Option::Some(
                                                    (
                                                        Dec::Fun(name, params, opt_ty, body),
                                                        p14,
                                                    ),
                                                ),
                                            }
                                        },
                                    }
                                },
                            }
                        },
                    }
                },
            },
        },
    }
}

/// One or more declarations separated by whitespace.
#[verifier::spinoff_prover]
#[verifier::rlimit(100)]
fn e_decl_list(s: &str, n: usize, pos: usize) -> (r: Option<(Vec<Dec>, usize)>)
    requires
        n == s@.len(),
        pos <= n,
    ensures
        match r {
            Option::Some((ds, p)) => crate::grammar::p_decl_list(s@, pos as int) == Option::Some(
                (view_decs(ds@), p as int),
            ) && pos <= p <= n,
            Option::None => crate::grammar::p_decl_list(s@, pos as int) is None,
        },
    decreases n - pos, 28nat,
{
    reveal_with_fuel(crate::grammar::p_decl_list, 1);
    match e_declaration(s, n, pos) {
        Option::None => Option::None,
        Option::Some((d, p1)) => {
            let ghost gd = d;
            let mut acc: Vec<Dec> = Vec::new();
            acc.push(d);
            proof {
                broadcast use crate::ast::lemma_view_decs_push;

                assert(view_decs(Seq::<Dec>::empty()) =~= Seq::<DecModel>::empty());
                assert(view_decs(acc@) =~= seq![gd@]);
            }
            Option::Some(e_decls_rest(s, n, p1, acc))
        },
    }
}

/// Further whitespace-separated declarations.
#[verifier::spinoff_prover]
#[verifier::rlimit(100)]
fn e_decls_rest(s: &str, n: usize, pos: usize, acc: Vec<Dec>) -> (r: (Vec<Dec>, usize))
    requires
        n == s@.len(),
        pos <= n,
    ensures
        crate::grammar::p_decls_rest(s@, pos as int, view_decs(acc@)) == Option::Some(
            (view_decs(r.0@), r.1 as int),
        ),
        pos <= r.1 <= n,
    decreases n - pos, 3nat,
{
    reveal_with_fuel(crate::grammar::p_decls_rest, 1);
    if pos < n {
        let p1 = e_skip(s, n, pos);
        match e_declaration(s, n, p1) {
            Option::None => (acc, pos),
            Option::Some((d, p2)) => {
                let ghost gd = d;
                let mut acc2 = acc;
                acc2.push(d);
                proof {
                    broadcast use crate::ast::lemma_view_decs_push;

                    assert(view_decs(acc2@) == view_decs(acc2@.drop_last()).push(gd@));
                }
                e_decls_rest(s, n, p2, acc2)
            },
        }
    } else {
        (acc, pos)
    }
}

/// Parses a whole program.  The result is `Ok` exactly when the
/// grammar accepts the entire text, and the returned tree's model is
/// the one the grammar gives; otherwise the error carries the
/// character position where the parse stopped.
#[verifier::spinoff_prover]
#[verifier::rlimit(100)]
pub fn parse(s: &str) -> (r: Result<Expr, SyntaxError>)
    ensures
        match r {
            Result::Ok(ast) => crate::grammar::parse_result(s@) == Option::Some(ast@),
            Result::Err(e) => crate::grammar::parse_result(s@) is None && (
            match crate::grammar::p_top(s@) {
                Option::Some((_, p)) => e.pos as int == p,
                Option::None => e.pos == 0,
            }),
        },
{
    let n = s.unicode_len();
    let p1 = e_skip(s, n, 0);
    match e_expr(s, n, p1) {
        Option::None => Result::Err(SyntaxError { pos: 0 }),
        Option::Some((ast, p2)) => {
            let p3 = e_skip(s, n, p2);
            if p3 == n {
                Result::Ok(ast)
            } else {
                Result::Err(SyntaxError { pos: p3 })
            }
        },
    }
}

/// The left fold the grammar's operator chains use, in spec form:
/// each (operand, operator) pair wraps the accumulated tree on the
/// left.
pub open spec fn spec_fold_op(first: ExprModel, ops: Seq<(ExprModel, Op)>) -> ExprModel
    decreases ops.len(),
{
    if ops.len() == 0 {
        first
    } else {
        ExprModel::OpNode(
            ops.last().1,
            Box::new(spec_fold_op(first, ops.drop_last())),
            Box::new(ops.last().0),
        )
    }
}

/// The model of a list of (operand, operator) pairs.
pub open spec fn view_op_pairs(s: Seq<(Expr, Op)>) -> Seq<(ExprModel, Op)> {
    Seq::new(s.len(), |i: int| (s[i].0@, s[i].1))
}

/// Folds a list of (operand, operator) pairs onto a first operand,
/// left associatively: `([(1, +), (2, -)], 4)` becomes `(4 + 1) - 2`.
pub fn fold_op(first: Expr, ops: Vec<(Expr, Op)>) -> (r: Expr)
    ensures
        r@ == spec_fold_op(first@, view_op_pairs(ops@)),
{
    let ghost gfirst = first;
    let ghost gops = ops@;
    let mut rest = ops;
    let mut ast = first;
    let ghost mut i: int = 0;
    while rest.len() > 0
        invariant
            0 <= i,
            i + rest@.len() == gops.len(),
            rest@ == gops.skip(i),
            ast@ == spec_fold_op(gfirst@, view_op_pairs(gops).take(i)),
        decreases rest@.len(),
    {
        let (e, op) = rest.remove(0);
        proof {
            assert(gops.skip(i)[0] == gops[i]);
            assert(gops.skip(i).remove(0) =~= gops.skip(i + 1));
            let t1 = view_op_pairs(gops).take(i + 1);
            assert(t1.drop_last() =~= view_op_pairs(gops).take(i));
            assert(t1.last() == (gops[i].0@, gops[i].1));
        }
        ast = Expr::OpNode(op, Box::new(ast), Box::new(e));
        proof {
            i = i + 1;
        }
    }
    proof {
        assert(view_op_pairs(gops).take(gops.len() as int) =~= view_op_pairs(gops));
    }
    ast
}

/// Folds a list of (operand, tag) pairs onto a base tree with a
/// caller-supplied constructor, first pair first.  The result is
/// linked to the constructor by a chain of intermediate trees, each
/// obtained from the previous one by one constructor application.
pub fn fold_to_ast<T, F>(va: (Vec<(Expr, T)>, Expr), fold: F) -> (r: Expr) where
    F: Fn(T, Expr, Expr) -> Expr,
    T: Copy,

    requires
        forall|t: T, a: Expr, b: Expr| #[trigger] fold.requires((t, a, b)),
    ensures
        exists|chain: Seq<Expr>|
            chain.len() == va.0@.len() + 1 && chain.first() == va.1 && chain.last() == r && (
            forall|i: int|
                0 <= i < va.0@.len() ==> #[trigger] fold.ensures(
                    (va.0@[i].1, chain[i], va.0@[i].0),
                    chain[i + 1],
                )),
{
    let (x, y) = va;
    let ghost gx = x@;
    let ghost gy = y;
    let mut rest = x;
    let mut ast = y;
    let ghost mut i: int = 0;
    let ghost mut chain: Seq<Expr> = seq![gy];
    while rest.len() > 0
        invariant
            0 <= i,
            i + rest@.len() == gx.len(),
            rest@ == gx.skip(i),
            chain.len() == i + 1,
            chain.first() == gy,
            chain.last() == ast,
            forall|t: T, a: Expr, b: Expr| #[trigger] fold.requires((t, a, b)),
            forall|j: int|
                0 <= j < i ==> #[trigger] fold.ensures((gx[j].1, chain[j], gx[j].0), chain[j + 1]),
        decreases rest@.len(),
    {
        let (e, t) = rest.remove(0);
        proof {
            assert(gx.skip(i)[0] == gx[i]);
            assert(gx.skip(i).remove(0) =~= gx.skip(i + 1));
        }
        ast = fold(t, ast, e);
        proof {
            chain = chain.push(ast);
            i = i + 1;
        }
    }
    proof {
        assert(gx =~= va.0@);
    }
    ast
}

} // verus!
