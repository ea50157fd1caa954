//! The grammar, as total spec functions with parsing-expression
//! semantics: ordered choice tries alternatives top to bottom, a
//! failed alternative consumes nothing, and repetition is greedy.
//!
//! Each rule maps the input and a position to `None` (no match) or to
//! the parsed model value and the position after it.  Precedence and
//! associativity come from the rule layering: unary minus binds
//! tighter than `*` `/`, then `+` `-`, then the six non-associative
//! comparisons, then `&`, then `|`, then `:=`, then `if`, then the
//! loops.  An `if` with no `else` takes the no-value sentinel as its
//! else branch, and an `else` binds to the innermost `if`.  A loop
//! body extends as far to the right as the expression grammar allows.
//!
//! Positions that flow out of a subrule pass through `adv`, which
//! pins the lower bound the rule has already consumed; parses never
//! move backward, so `adv` changes no value, and the executable
//! parser in `parse` is proved to agree with these functions exactly.
use vstd::prelude::*;

use crate::ast::DecModel;
use crate::ast::ExprModel;
use crate::ast::LValueModel;
use crate::ast::Op;
use crate::ast::TypeModel;

verus! {

/// Characters left from `pos` on; monotone in `pos` over all of `int`.
pub open spec fn rem(s: Seq<char>, pos: int) -> nat {
    if pos < 0 {
        s.len() + 1
    } else if pos <= s.len() {
        (s.len() - pos) as nat
    } else {
        0
    }
}

/// `p`, but never below `lo`.
pub open spec fn adv(lo: int, p: int) -> int {
    if p < lo {
        lo
    } else {
        p
    }
}

/// Whitespace: space, newline, carriage return, tab, form feed.
pub open spec fn is_space(c: char) -> bool {
    c == ' ' || c == '\n' || c == '\r' || c == '\t' || c == '\x0c'
}

/// A decimal digit.
pub open spec fn is_digit(c: char) -> bool {
    ('0' as u32) <= (c as u32) && (c as u32) <= ('9' as u32)
}

/// A letter, as an identifier may start with.
pub open spec fn is_alpha(c: char) -> bool {
    (('a' as u32) <= (c as u32) && (c as u32) <= ('z' as u32)) || (('A' as u32) <= (c as u32) && (c
        as u32) <= ('Z' as u32))
}

/// A letter, digit or underscore, as an identifier continues with.
pub open spec fn is_id_char(c: char) -> bool {
    is_alpha(c) || is_digit(c) || c == '_'
}

/// A character allowed inside a string literal: anything but a
/// backslash or a double quote.
pub open spec fn is_str_char(c: char) -> bool {
    c != '\\' && c != '"'
}

/// The numeric value of a digit character.
pub open spec fn digit_val(c: char) -> nat {
    ((c as u32) - ('0' as u32)) as nat
}

pub open spec fn lit_for() -> Seq<char> {
    seq!['f', 'o', 'r']
}

pub open spec fn lit_while() -> Seq<char> {
    seq!['w', 'h', 'i', 'l', 'e']
}

pub open spec fn lit_do() -> Seq<char> {
    seq!['d', 'o']
}

pub open spec fn lit_to() -> Seq<char> {
    seq!['t', 'o']
}

pub open spec fn lit_if() -> Seq<char> {
    seq!['i', 'f']
}

pub open spec fn lit_then() -> Seq<char> {
    seq!['t', 'h', 'e', 'n']
}

pub open spec fn lit_else() -> Seq<char> {
    seq!['e', 'l', 's', 'e']
}

pub open spec fn lit_let() -> Seq<char> {
    seq!['l', 'e', 't']
}

pub open spec fn lit_in() -> Seq<char> {
    seq!['i', 'n']
}

pub open spec fn lit_end() -> Seq<char> {
    seq!['e', 'n', 'd']
}

pub open spec fn lit_nil() -> Seq<char> {
    seq!['n', 'i', 'l']
}

pub open spec fn lit_of() -> Seq<char> {
    seq!['o', 'f']
}

pub open spec fn lit_type() -> Seq<char> {
    seq!['t', 'y', 'p', 'e']
}

pub open spec fn lit_var() -> Seq<char> {
    seq!['v', 'a', 'r']
}

pub open spec fn lit_function() -> Seq<char> {
    seq!['f', 'u', 'n', 'c', 't', 'i', 'o', 'n']
}

pub open spec fn lit_array() -> Seq<char> {
    seq!['a', 'r', 'r', 'a', 'y']
}

pub open spec fn lit_break() -> Seq<char> {
    seq!['b', 'r', 'e', 'a', 'k']
}

pub open spec fn lit_asgn() -> Seq<char> {
    seq![':', '=']
}

pub open spec fn lit_ne() -> Seq<char> {
    seq!['<', '>']
}

pub open spec fn lit_le() -> Seq<char> {
    seq!['<', '=']
}

pub open spec fn lit_ge() -> Seq<char> {
    seq!['>', '=']
}

/// Matches one fixed character.
pub open spec fn p_ch(s: Seq<char>, pos: int, c: char) -> Option<int> {
    if 0 <= pos < s.len() && s[pos] == c {
        Option::Some(pos + 1)
    } else {
        Option::None
    }
}

/// Matches a fixed literal.
pub open spec fn p_lit(s: Seq<char>, pos: int, lit: Seq<char>) -> Option<int> {
    if 0 <= pos && pos + lit.len() <= s.len() && s.subrange(pos, pos + lit.len()) == lit {
        Option::Some(pos + lit.len())
    } else {
        Option::None
    }
}

/// Skips whitespace; always succeeds, possibly consuming nothing.
pub open spec fn skip_spaces(s: Seq<char>, pos: int) -> int
    decreases rem(s, pos), 0nat,
{
    if 0 <= pos < s.len() && is_space(s[pos]) {
        adv(pos + 1, skip_spaces(s, pos + 1))
    } else {
        pos
    }
}

/// At least one whitespace character, then any further whitespace.
pub open spec fn p_spaces1(s: Seq<char>, pos: int) -> Option<int> {
    if 0 <= pos < s.len() && is_space(s[pos]) {
        Option::Some(adv(pos + 1, skip_spaces(s, pos + 1)))
    } else {
        Option::None
    }
}

/// The end of a run of identifier characters starting at `pos`.
pub open spec fn id_end(s: Seq<char>, pos: int) -> int
    decreases rem(s, pos), 0nat,
{
    if 0 <= pos < s.len() && is_id_char(s[pos]) {
        adv(pos + 1, id_end(s, pos + 1))
    } else {
        pos
    }
}

/// The end of a run of digits starting at `pos`.
pub open spec fn digits_end(s: Seq<char>, pos: int) -> int
    decreases rem(s, pos), 0nat,
{
    if 0 <= pos < s.len() && is_digit(s[pos]) {
        adv(pos + 1, digits_end(s, pos + 1))
    } else {
        pos
    }
}

/// The end of a run of string-body characters starting at `pos`.
pub open spec fn strbody_end(s: Seq<char>, pos: int) -> int
    decreases rem(s, pos), 0nat,
{
    if 0 <= pos < s.len() && is_str_char(s[pos]) {
        adv(pos + 1, strbody_end(s, pos + 1))
    } else {
        pos
    }
}

/// The value of the digit run `s[pos .. end]`, most significant first.
pub open spec fn dec_val(s: Seq<char>, pos: int, end: int) -> nat
    decreases end - pos,
{
    if pos >= end {
        0
    } else {
        dec_val(s, pos, end - 1) * 10 + digit_val(s[end - 1])
    }
}

/// Whether one of the reserved words stands at `pos`.  These words are
/// barred from being identifiers, prefix included, exactly as the
/// grammar anchors them.
pub open spec fn p_keyword(s: Seq<char>, pos: int) -> bool {
    p_lit(s, pos, lit_let()) is Some || p_lit(s, pos, lit_nil()) is Some || p_lit(
        s,
        pos,
        lit_of(),
    ) is Some || p_lit(s, pos, lit_then()) is Some || p_lit(s, pos, lit_to()) is Some || p_lit(
        s,
        pos,
        lit_type(),
    ) is Some || p_lit(s, pos, lit_var()) is Some || p_lit(s, pos, lit_while()) is Some
}

/// An identifier: not a reserved word, a letter, then letters, digits
/// or underscores.
pub open spec fn p_id(s: Seq<char>, pos: int) -> Option<(Seq<char>, int)> {
    if p_keyword(s, pos) {
        Option::None
    } else if 0 <= pos < s.len() && is_alpha(s[pos]) {
        let end = adv(pos + 1, id_end(s, pos + 1));
        Option::Some((s.subrange(pos, end), end))
    } else {
        Option::None
    }
}

/// An integer literal: one or more digits whose value fits a signed
/// 64-bit integer; a larger run of digits matches nothing.
pub open spec fn p_int(s: Seq<char>, pos: int) -> Option<(int, int)> {
    if 0 <= pos < s.len() && is_digit(s[pos]) {
        let end = adv(pos + 1, digits_end(s, pos + 1));
        let v = dec_val(s, pos, end);
        if v <= i64::MAX {
            Option::Some((v as int, end))
        } else {
            Option::None
        }
    } else {
        Option::None
    }
}

/// A string literal: a double quote, any characters that are not a
/// backslash or quote, and a closing double quote.
pub open spec fn p_string(s: Seq<char>, pos: int) -> Option<(Seq<char>, int)> {
    match p_ch(s, pos, '"') {
        Option::None => Option::None,
        Option::Some(p1) => {
            let end = adv(p1, strbody_end(s, p1));
            match p_ch(s, end, '"') {
                Option::None => Option::None,
                Option::Some(p2) => Option::Some((s.subrange(p1, end), p2)),
            }
        },
    }
}

/// A type descriptor: `array of` an element type name, an inline
/// record shape in braces, or a bare type name.
#[verifier::opaque]
pub open spec fn p_type(s: Seq<char>, pos: int) -> Option<(TypeModel, int)>
    decreases rem(s, pos), 2nat,
{
    match p_lit(s, pos, lit_array()) {
        Option::Some(p1) => match p_spaces1(s, p1) {
            Option::Some(p2) => match p_lit(s, p2, lit_of()) {
                Option::Some(p3) => match p_spaces1(s, p3) {
                    Option::Some(p4) => match p_id(s, p4) {
                        Option::Some((name, p5)) => Option::Some((TypeModel::Array(name), p5)),
                        Option::None => p_type_tail(s, pos),
                    },
                    Option::None => p_type_tail(s, pos),
                },
                Option::None => p_type_tail(s, pos),
            },
            Option::None => p_type_tail(s, pos),
        },
        Option::None => p_type_tail(s, pos),
    }
}

/// The record-shape and bare-name alternatives of `p_type`.
#[verifier::opaque]
pub open spec fn p_type_tail(s: Seq<char>, pos: int) -> Option<(TypeModel, int)>
    decreases rem(s, pos), 1nat,
{
    match p_ch(s, pos, '{') {
        Option::Some(p1) => {
            let p2 = adv(p1, skip_spaces(s, p1));
            match p_type_fields(s, p2) {
                Option::Some((fs, p3)) => {
                    let p4 = adv(p1, skip_spaces(s, adv(p1, p3)));
                    match p_ch(s, p4, '}') {
                        Option::Some(p5) => Option::Some((TypeModel::Field(fs), p5)),
                        Option::None => match p_id(s, pos) {
                            Option::Some((name, p6)) => Option::Some((TypeModel::Id(name), p6)),
                            Option::None => Option::None,
                        },
                    }
                },
                Option::None => match p_id(s, pos) {
                    Option::Some((name, p6)) => Option::Some((TypeModel::Id(name), p6)),
                    Option::None => Option::None,
                },
            }
        },
        Option::None => match p_id(s, pos) {
            Option::Some((name, p6)) => Option::Some((TypeModel::Id(name), p6)),
            Option::None => Option::None,
        },
    }
}

/// One or more `name : type-name` pairs separated by commas, or
/// nothing.  Always succeeds; an empty list consumes no input.
#[verifier::opaque]
pub open spec fn p_type_fields(s: Seq<char>, pos: int) -> Option<
    (Seq<(Seq<char>, Seq<char>)>, int),
>
    decreases rem(s, pos), 28nat,
{
    match p_type_field(s, pos) {
        Option::Some((f, p1)) => p_type_fields_rest(
            s,
            adv(pos, p1),
            seq![f],
        ),
        Option::None => Option::Some((Seq::empty(), pos)),
    }
}

/// One `name : type-name` pair.
#[verifier::opaque]
pub open spec fn p_type_field(s: Seq<char>, pos: int) -> Option<((Seq<char>, Seq<char>), int)> {
    match p_id(s, pos) {
        Option::None => Option::None,
        Option::Some((name, p1)) => {
            let p2 = adv(p1, skip_spaces(s, p1));
            match p_ch(s, p2, ':') {
                Option::None => Option::None,
                Option::Some(p3) => {
                    let p4 = adv(p3, skip_spaces(s, p3));
                    match p_id(s, p4) {
                        Option::None => Option::None,
                        Option::Some((ty, p5)) => Option::Some(((name, ty), p5)),
                    }
                },
            }
        },
    }
}

/// Further `, name : type-name` pairs.
#[verifier::opaque]
pub open spec fn p_type_fields_rest(
    s: Seq<char>,
    pos: int,
    acc: Seq<(Seq<char>, Seq<char>)>,
) -> Option<(Seq<(Seq<char>, Seq<char>)>, int)>
    decreases rem(s, pos), 0nat,
{
    let p1 = adv(pos, skip_spaces(s, pos));
    match p_ch(s, p1, ',') {
        Option::None => Option::Some((acc, pos)),
        Option::Some(p2) => {
            let p3 = adv(p2, skip_spaces(s, p2));
            match p_type_field(s, p3) {
                Option::None => Option::Some((acc, pos)),
                Option::Some((f, p4)) => p_type_fields_rest(s, adv(p2, p4), acc.push(f)),
            }
        },
    }
}

/// An l-value: an identifier with field and index suffixes folded on
/// left-associatively.
#[verifier::opaque]
pub open spec fn p_lvalue(s: Seq<char>, pos: int) -> Option<(LValueModel, int)>
    decreases rem(s, pos), 2nat,
{
    match p_id(s, pos) {
        Option::None => Option::None,
        Option::Some((name, p1)) => p_lval_rest(s, adv(pos + 1, p1), LValueModel::Id(name)),
    }
}

/// Suffixes of an l-value: `[ index ]` or `.field`, repeated.
#[verifier::opaque]
pub open spec fn p_lval_rest(s: Seq<char>, pos: int, acc: LValueModel) -> Option<
    (LValueModel, int),
>
    decreases rem(s, pos), 0nat,
{
    let p1 = adv(pos, skip_spaces(s, pos));
    match p_ch(s, p1, '[') {
        Option::Some(p2) => {
            let p3 = adv(p2, skip_spaces(s, p2));
            match p_expr(s, p3) {
                Option::None => Option::Some((acc, pos)),
                Option::Some((e, p4)) => {
                    let p5 = adv(p2, skip_spaces(s, adv(p2, p4)));
                    match p_ch(s, p5, ']') {
                        Option::None => Option::Some((acc, pos)),
                        Option::Some(p6) => p_lval_rest(
                            s,
                            adv(p2, p6),
                            LValueModel::Idx(Box::new(acc), Box::new(e)),
                        ),
                    }
                },
            }
        },
        Option::None => match p_ch(s, p1, '.') {
            Option::None => Option::Some((acc, pos)),
            Option::Some(p2) => {
                let p3 = adv(p2, skip_spaces(s, p2));
                match p_id(s, p3) {
                    Option::None => Option::Some((acc, pos)),
                    Option::Some((f, p4)) => p_lval_rest(
                        s,
                        adv(p2, p4),
                        LValueModel::Mem(Box::new(acc), f),
                    ),
                }
            },
        },
    }
}

/// The lowest-binding expression level: the counting loop, the
/// condition loop, or everything below.
#[verifier::opaque]
pub open spec fn p_expr(s: Seq<char>, pos: int) -> Option<(ExprModel, int)>
    decreases rem(s, pos), 26nat,
{
    match p_try_for(s, pos) {
        Option::Some(r) => Option::Some(r),
        Option::None => match p_try_while(s, pos) {
            Option::Some(r) => Option::Some(r),
            Option::None => p_expr0(s, pos),
        },
    }
}

/// `for name := start to end do body`.
#[verifier::opaque]
pub open spec fn p_try_for(s: Seq<char>, pos: int) -> Option<(ExprModel, int)>
    decreases rem(s, pos), 24nat,
{
    match p_lit(s, pos, lit_for()) {
        Option::None => Option::None,
        Option::Some(p1) => match p_spaces1(s, p1) {
            Option::None => Option::None,
            Option::Some(p2) => match p_id(s, p2) {
                Option::None => Option::None,
                Option::Some((name, p3)) => {
                    let p4 = adv(p2, skip_spaces(s, adv(p2, p3)));
                    match p_lit(s, p4, lit_asgn()) {
                        Option::None => Option::None,
                        Option::Some(p5) => {
                            let p6 = adv(pos + 1, skip_spaces(s, p5));
                            match p_expr(s, p6) {
                                Option::None => Option::None,
                                Option::Some((st, p7)) => match p_spaces1(s, adv(p6, p7)) {
                                    Option::None => Option::None,
                                    Option::Some(p8) => match p_lit(s, p8, lit_to()) {
                                        Option::None => Option::None,
                                        Option::Some(p9) => match p_spaces1(s, p9) {
                                            Option::None => Option::None,
                                            Option::Some(p10) => match p_expr(
                                                s,
                                                adv(pos + 1, p10),
                                            ) {
                                                Option::None => Option::None,
                                                Option::Some((en, p11)) => match p_spaces1(
                                                    s,
                                                    adv(p10, p11),
                                                ) {
                                                    Option::None => Option::None,
                                                    Option::Some(p12) => match p_lit(
                                                        s,
                                                        p12,
                                                        lit_do(),
                                                    ) {
                                                        Option::None => Option::None,
                                                        Option::Some(p13) => match p_spaces1(
                                                            s,
                                                            p13,
                                                        ) {
                                                            Option::None => Option::None,
                                                            Option::Some(p14) => match p_expr(
                                                                s,
                                                                adv(pos + 1, p14),
                                                            ) {
                                                                Option::None => Option::None,
                                                                Option::Some((body, p15)) => Option::Some(
                                                                    (
                                                                        ExprModel::For(
                                                                            name,
                                                                            Box::new(st),
                                                                            Box::new(en),
                                                                            Box::new(body),
                                                                        ),
                                                                        p15,
                                                                    ),
                                                                ),
                                                            },
                                                        },
                                                    },
                                                },
                                            },
                                        },
                                    },
                                },
                            }
                        },
                    }
                },
            },
        },
    }
}

/// `while condition do body`.
#[verifier::opaque]
pub open spec fn p_try_while(s: Seq<char>, pos: int) -> Option<(ExprModel, int)>
    decreases rem(s, pos), 24nat,
{
    match p_lit(s, pos, lit_while()) {
        Option::None => Option::None,
        Option::Some(p1) => match p_spaces1(s, p1) {
            Option::None => Option::None,
            Option::Some(p2) => match p_expr(s, adv(pos + 1, p2)) {
                Option::None => Option::None,
                Option::Some((c, p3)) => match p_spaces1(s, adv(p2, p3)) {
                    Option::None => Option::None,
                    Option::Some(p4) => match p_lit(s, p4, lit_do()) {
                        Option::None => Option::None,
                        Option::Some(p5) => match p_spaces1(s, p5) {
                            Option::None => Option::None,
                            Option::Some(p6) => match p_expr(s, adv(pos + 1, p6)) {
                                Option::None => Option::None,
                                Option::Some((body, p7)) => Option::Some(
                                    (ExprModel::Do(Box::new(c), Box::new(body)), p7),
                                ),
                            },
                        },
                    },
                },
            },
        },
    }
}

/// `if c then e` with no following `else`: the else branch defaults to
/// the no-value sentinel.  Tried before the else-bearing form fails,
/// so an `else` binds to the innermost conditional.
#[verifier::opaque]
pub open spec fn p_expr0(s: Seq<char>, pos: int) -> Option<(ExprModel, int)>
    decreases rem(s, pos), 22nat,
{
    match p_if_noelse(s, pos) {
        Option::Some(r) => Option::Some(r),
        Option::None => p_expr1(s, pos),
    }
}

/// The else-less conditional alternative of `p_expr0`: it matches only
/// when no `else` follows the then-branch.
#[verifier::opaque]
pub open spec fn p_if_noelse(s: Seq<char>, pos: int) -> Option<(ExprModel, int)>
    decreases rem(s, pos), 21nat,
{
    match p_lit(s, pos, lit_if()) {
        Option::None => Option::None,
        Option::Some(p1) => {
            let p2 = adv(pos + 1, skip_spaces(s, p1));
            match p_expr(s, p2) {
                Option::None => Option::None,
                Option::Some((c, p3)) => {
                    let p4 = adv(p2, skip_spaces(s, adv(p2, p3)));
                    match p_lit(s, p4, lit_then()) {
                        Option::None => Option::None,
                        Option::Some(p5) => {
                            let p6 = adv(p5, skip_spaces(s, p5));
                            match p_expr1(s, adv(pos + 1, p6)) {
                                Option::None => Option::None,
                                Option::Some((e1, p7)) => {
                                    let else_follows = match p_spaces1(s, p7) {
                                        Option::Some(q) => p_lit(s, q, lit_else()) is Some,
                                        Option::None => false,
                                    };
                                    if else_follows {
                                        Option::None
                                    } else {
                                        Option::Some(
                                            (
                                                ExprModel::IfNode(
                                                    Box::new(c),
                                                    Box::new(e1),
                                                    Box::new(ExprModel::Nil),
                                                ),
                                                p7,
                                            ),
                                        )
                                    }
                                },
                            }
                        },
                    }
                },
            }
        },
    }
}

/// `if c then e1 else e2`.
#[verifier::opaque]
pub open spec fn p_expr1(s: Seq<char>, pos: int) -> Option<(ExprModel, int)>
    decreases rem(s, pos), 20nat,
{
    match p_if_else(s, pos) {
        Option::Some(r) => Option::Some(r),
        Option::None => p_expr2(s, pos),
    }
}

/// The else-bearing conditional alternative of `p_expr1`.
#[verifier::opaque]
pub open spec fn p_if_else(s: Seq<char>, pos: int) -> Option<(ExprModel, int)>
    decreases rem(s, pos), 19nat,
{
    match p_lit(s, pos, lit_if()) {
        Option::None => Option::None,
        Option::Some(p1) => {
            let p2 = adv(pos + 1, skip_spaces(s, p1));
            match p_expr(s, p2) {
                Option::None => Option::None,
                Option::Some((c, p3)) => {
                    let p4 = adv(p2, skip_spaces(s, adv(p2, p3)));
                    match p_lit(s, p4, lit_then()) {
                        Option::None => Option::None,
                        Option::Some(p5) => {
                            let p6 = adv(p5, skip_spaces(s, p5));
                            match p_expr2(s, adv(pos + 1, p6)) {
                                Option::None => Option::None,
                                Option::Some((e1, p7)) => {
                                    let p8 = adv(p6, skip_spaces(s, adv(p6, p7)));
                                    match p_lit(s, p8, lit_else()) {
                                        Option::None => Option::None,
                                        Option::Some(p9) => {
                                            let p10 = adv(p9, skip_spaces(s, p9));
                                            match p_expr2(s, adv(pos + 1, p10)) {
                                                Option::None => Option::None,
                                                Option::Some((e2, p11)) => Option::Some(
                                                    (
                                                        ExprModel::IfNode(
                                                            Box::new(c),
                                                            Box::new(e1),
                                                            Box::new(e2),
                                                        ),
                                                        p11,
                                                    ),
                                                ),
                                            }
                                        },
                                    }
                                },
                            }
                        },
                    }
                },
            }
        },
    }
}

/// Assignment `lvalue := e`, or everything below.
#[verifier::opaque]
pub open spec fn p_expr2(s: Seq<char>, pos: int) -> Option<(ExprModel, int)>
    decreases rem(s, pos), 18nat,
{
    match p_asgn(s, pos) {
        Option::Some(r) => Option::Some(r),
        Option::None => p_expr3(s, pos),
    }
}

/// The assignment alternative of `p_expr2`.
#[verifier::opaque]
pub open spec fn p_asgn(s: Seq<char>, pos: int) -> Option<(ExprModel, int)>
    decreases rem(s, pos), 17nat,
{
    match p_lvalue(s, pos) {
        Option::None => Option::None,
        Option::Some((l, p1)) => {
            let p2 = adv(pos, skip_spaces(s, adv(pos, p1)));
            match p_lit(s, p2, lit_asgn()) {
                Option::None => Option::None,
                Option::Some(p3) => {
                    let p4 = adv(p3, skip_spaces(s, p3));
                    match p_expr3(s, adv(pos, p4)) {
                        Option::None => Option::None,
                        Option::Some((e, p5)) => Option::Some(
                            (ExprModel::LAsgn(l, Box::new(e)), p5),
                        ),
                    }
                },
            }
        },
    }
}

/// Disjunction chain `a | b | ...`, left associative.
#[verifier::opaque]
pub open spec fn p_expr3(s: Seq<char>, pos: int) -> Option<(ExprModel, int)>
    decreases rem(s, pos), 16nat,
{
    match p_expr4(s, pos) {
        Option::None => Option::None,
        Option::Some((e, p1)) => p_binchain_rest(s, adv(pos, p1), e, '|'),
    }
}

/// Conjunction chain `a & b & ...`, left associative.
#[verifier::opaque]
pub open spec fn p_expr4(s: Seq<char>, pos: int) -> Option<(ExprModel, int)>
    decreases rem(s, pos), 14nat,
{
    match p_expr5(s, pos) {
        Option::None => Option::None,
        Option::Some((e, p1)) => p_binchain_rest(s, adv(pos, p1), e, '&'),
    }
}

/// Further `| operand` or `& operand` steps, folded to the left.
#[verifier::opaque]
pub open spec fn p_binchain_rest(s: Seq<char>, pos: int, acc: ExprModel, opc: char) -> Option<
    (ExprModel, int),
>
    decreases rem(s, pos), 0nat,
{
    let p1 = adv(pos, skip_spaces(s, pos));
    match p_ch(s, p1, opc) {
        Option::None => Option::Some((acc, pos)),
        Option::Some(p2) => {
            let p3 = adv(p2, skip_spaces(s, p2));
            let sub = if opc == '|' {
                p_expr4(s, p3)
            } else {
                p_expr5(s, p3)
            };
            match sub {
                Option::None => Option::Some((acc, pos)),
                Option::Some((e, p4)) => {
                    let op = if opc == '|' {
                        Op::Or
                    } else {
                        Op::And
                    };
                    p_binchain_rest(
                        s,
                        adv(p2, p4),
                        ExprModel::OpNode(op, Box::new(acc), Box::new(e)),
                        opc,
                    )
                },
            }
        },
    }
}

/// One comparison operator.
pub open spec fn p_op5(s: Seq<char>, pos: int) -> Option<(Op, int)> {
    match p_ch(s, pos, '=') {
        Option::Some(p) => Option::Some((Op::Eq, p)),
        Option::None => match p_lit(s, pos, lit_ne()) {
            Option::Some(p) => Option::Some((Op::Ne, p)),
            Option::None => match p_lit(s, pos, lit_le()) {
                Option::Some(p) => Option::Some((Op::Le, p)),
                Option::None => match p_lit(s, pos, lit_ge()) {
                    Option::Some(p) => Option::Some((Op::Ge, p)),
                    Option::None => match p_ch(s, pos, '<') {
                        Option::Some(p) => Option::Some((Op::Lt, p)),
                        Option::None => match p_ch(s, pos, '>') {
                            Option::Some(p) => Option::Some((Op::Gt, p)),
                            Option::None => Option::None,
                        },
                    },
                },
            },
        },
    }
}

/// A single comparison `a <op> b`, or a bare operand: the comparisons
/// do not associate, so a chain of two comparisons matches only up to
/// the first operand's end.
#[verifier::opaque]
pub open spec fn p_expr5(s: Seq<char>, pos: int) -> Option<(ExprModel, int)>
    decreases rem(s, pos), 12nat,
{
    match p_expr6(s, pos) {
        Option::None => Option::None,
        Option::Some((e1, p1)) => p_cmp_tail(s, adv(pos, p1), e1),
    }
}

/// After a first operand, either one comparison step or nothing; the
/// comparisons do not associate, so at most one step is taken.
#[verifier::opaque]
pub open spec fn p_cmp_tail(s: Seq<char>, pos: int, e1: ExprModel) -> Option<(ExprModel, int)>
    decreases rem(s, pos), 11nat,
{
    let p2 = adv(pos, skip_spaces(s, pos));
    match p_op5(s, p2) {
        Option::None => Option::Some((e1, pos)),
        Option::Some((op, p3)) => {
            let p4 = adv(p3, skip_spaces(s, p3));
            match p_expr6(s, adv(pos, p4)) {
                Option::None => Option::Some((e1, pos)),
                Option::Some((e2, p5)) => Option::Some(
                    (ExprModel::OpNode(op, Box::new(e1), Box::new(e2)), p5),
                ),
            }
        },
    }
}

/// Additive chain `a + b - c ...`, left associative.
#[verifier::opaque]
pub open spec fn p_expr6(s: Seq<char>, pos: int) -> Option<(ExprModel, int)>
    decreases rem(s, pos), 10nat,
{
    match p_expr7(s, pos) {
        Option::None => Option::None,
        Option::Some((e, p1)) => p_addmul_rest(s, adv(pos, p1), e, true),
    }
}

/// Multiplicative chain `a * b / c ...`, left associative.
#[verifier::opaque]
pub open spec fn p_expr7(s: Seq<char>, pos: int) -> Option<(ExprModel, int)>
    decreases rem(s, pos), 8nat,
{
    match p_expr8(s, pos) {
        Option::None => Option::None,
        Option::Some((e, p1)) => p_addmul_rest(s, adv(pos, p1), e, false),
    }
}

/// Further `+`/`-` steps (when `additive`) or `*`/`/` steps, folded to
/// the left.
#[verifier::opaque]
pub open spec fn p_addmul_rest(s: Seq<char>, pos: int, acc: ExprModel, additive: bool) -> Option<
    (ExprModel, int),
>
    decreases rem(s, pos), 0nat,
{
    let p1 = adv(pos, skip_spaces(s, pos));
    let opm = if additive {
        match p_ch(s, p1, '+') {
            Option::Some(p) => Option::Some((Op::Add, p)),
            Option::None => match p_ch(s, p1, '-') {
                Option::Some(p) => Option::Some((Op::Sub, p)),
                Option::None => Option::None,
            },
        }
    } else {
        match p_ch(s, p1, '*') {
            Option::Some(p) => Option::Some((Op::Mul, p)),
            Option::None => match p_ch(s, p1, '/') {
                Option::Some(p) => Option::Some((Op::Div, p)),
                Option::None => Option::None,
            },
        }
    };
    match opm {
        Option::None => Option::Some((acc, pos)),
        Option::Some((op, p2)) => {
            let p3 = adv(p2, skip_spaces(s, p2));
            let sub = if additive {
                p_expr7(s, p3)
            } else {
                p_expr8(s, p3)
            };
            match sub {
                Option::None => Option::Some((acc, pos)),
                Option::Some((e, p4)) => p_addmul_rest(
                    s,
                    adv(p2, p4),
                    ExprModel::OpNode(op, Box::new(acc), Box::new(e)),
                    additive,
                ),
            }
        },
    }
}

/// Unary minus, binding tightest of the operators, or a primary.
#[verifier::opaque]
pub open spec fn p_expr8(s: Seq<char>, pos: int) -> Option<(ExprModel, int)>
    decreases rem(s, pos), 6nat,
{
    match p_ch(s, pos, '-') {
        Option::Some(p1) => {
            let p2 = adv(p1, skip_spaces(s, p1));
            match p_expr8(s, adv(pos + 1, p2)) {
                Option::Some((e, p3)) => Option::Some((ExprModel::Neg(Box::new(e)), p3)),
                Option::None => p_primary(s, pos),
            }
        },
        Option::None => p_primary(s, pos),
    }
}

/// A primary expression, alternatives in grammar order: a `let` block,
/// a string or integer literal, `nil`, a call, a record constructor,
/// an array constructor, a parenthesized sequence, `break`, or an
/// l-value.
#[verifier::opaque]
pub open spec fn p_primary(s: Seq<char>, pos: int) -> Option<(ExprModel, int)>
    decreases rem(s, pos), 4nat,
{
    match p_try_let(s, pos) {
        Option::Some(r) => Option::Some(r),
        Option::None => match p_string(s, pos) {
            Option::Some((str0, p1)) => Option::Some((ExprModel::Str(str0), p1)),
            Option::None => match p_int(s, pos) {
                Option::Some((n, p1)) => Option::Some((ExprModel::Num(n), p1)),
                Option::None => match p_lit(s, pos, lit_nil()) {
                    Option::Some(p1) => Option::Some((ExprModel::Nil, p1)),
                    Option::None => match p_try_call(s, pos) {
                        Option::Some(r) => Option::Some(r),
                        Option::None => match p_try_struct(s, pos) {
                            Option::Some(r) => Option::Some(r),
                            Option::None => match p_try_array(s, pos) {
                                Option::Some(r) => Option::Some(r),
                                Option::None => match p_try_paren(s, pos) {
                                    Option::Some(r) => Option::Some(r),
                                    Option::None => match p_lit(s, pos, lit_break()) {
                                        Option::Some(p1) => Option::Some((ExprModel::Break, p1)),
                                        Option::None => match p_lvalue(s, pos) {
                                            Option::Some((l, p1)) => Option::Some(
                                                (ExprModel::LVal(l), p1),
                                            ),
                                            Option::None => Option::None,
                                        },
                                    },
                                },
                            },
                        },
                    },
                },
            },
        },
    }
}

/// `let declarations in body end`.
#[verifier::opaque]
pub open spec fn p_try_let(s: Seq<char>, pos: int) -> Option<(ExprModel, int)>
    decreases rem(s, pos), 3nat,
{
    match p_lit(s, pos, lit_let()) {
        Option::None => Option::None,
        Option::Some(p1) => match p_spaces1(s, p1) {
            Option::None => Option::None,
            Option::Some(p2) => match p_decl_list(s, adv(pos + 1, p2)) {
                Option::None => Option::None,
                Option::Some((ds, p3)) => match p_spaces1(s, adv(p2, p3)) {
                    Option::None => Option::None,
                    Option::Some(p4) => match p_lit(s, p4, lit_in()) {
                        Option::None => Option::None,
                        Option::Some(p5) => match p_spaces1(s, p5) {
                            Option::None => Option::None,
                            Option::Some(p6) => match p_expr_seq_opt(s, adv(pos + 1, p6)) {
                                Option::None => Option::None,
                                Option::Some((es, p7)) => match p_spaces1(s, adv(p6, p7)) {
                                    Option::None => Option::None,
                                    Option::Some(p8) => match p_lit(s, p8, lit_end()) {
                                        Option::None => Option::None,
                                        Option::Some(p9) => Option::Some(
                                            (
                                                ExprModel::Let(
                                                    ds,
                                                    Box::new(ExprModel::Sequence(es)),
                                                ),
                                                p9,
                                            ),
                                        ),
                                    },
                                },
                            },
                        },
                    },
                },
            },
        },
    }
}

/// A call `name ( arguments )`.
#[verifier::opaque]
pub open spec fn p_try_call(s: Seq<char>, pos: int) -> Option<(ExprModel, int)>
    decreases rem(s, pos), 3nat,
{
    match p_id(s, pos) {
        Option::None => Option::None,
        Option::Some((name, p1)) => {
            let p2 = adv(pos + 1, skip_spaces(s, adv(pos + 1, p1)));
            match p_ch(s, p2, '(') {
                Option::None => Option::None,
                Option::Some(p3) => {
                    let p4 = adv(p3, skip_spaces(s, p3));
                    match p_expr_list_opt(s, p4) {
                        Option::None => Option::None,
                        Option::Some((args, p5)) => {
                            let p6 = adv(p3, skip_spaces(s, adv(p3, p5)));
                            match p_ch(s, p6, ')') {
                                Option::None => Option::None,
                                Option::Some(p7) => Option::Some(
                                    (ExprModel::FunApp(name, args), p7),
                                ),
                            }
                        },
                    }
                },
            }
        },
    }
}

/// A record constructor `typename { field = e, ... }`.
#[verifier::opaque]
pub open spec fn p_try_struct(s: Seq<char>, pos: int) -> Option<(ExprModel, int)>
    decreases rem(s, pos), 3nat,
{
    match p_id(s, pos) {
        Option::None => Option::None,
        Option::Some((name, p1)) => {
            let p2 = adv(pos + 1, skip_spaces(s, adv(pos + 1, p1)));
            match p_ch(s, p2, '{') {
                Option::None => Option::None,
                Option::Some(p3) => {
                    let p4 = adv(p3, skip_spaces(s, p3));
                    match p_field_list_opt(s, p4) {
                        Option::None => Option::None,
                        Option::Some((fs, p5)) => {
                            let p6 = adv(p3, skip_spaces(s, adv(p3, p5)));
                            match p_ch(s, p6, '}') {
                                Option::None => Option::None,
                                Option::Some(p7) => Option::Some(
                                    (ExprModel::NewStruct(name, fs), p7),
                                ),
                            }
                        },
                    }
                },
            }
        },
    }
}

/// An array constructor `typename [ size ] of fill`.
#[verifier::opaque]
pub open spec fn p_try_array(s: Seq<char>, pos: int) -> Option<(ExprModel, int)>
    decreases rem(s, pos), 3nat,
{
    match p_id(s, pos) {
        Option::None => Option::None,
        Option::Some((name, p1)) => {
            let p2 = adv(pos + 1, skip_spaces(s, adv(pos + 1, p1)));
            match p_ch(s, p2, '[') {
                Option::None => Option::None,
                Option::Some(p3) => {
                    let p4 = adv(p3, skip_spaces(s, p3));
                    match p_expr(s, p4) {
                        Option::None => Option::None,
                        Option::Some((n, p5)) => {
                            let p6 = adv(p3, skip_spaces(s, adv(p3, p5)));
                            match p_ch(s, p6, ']') {
                                Option::None => Option::None,
                                Option::Some(p7) => {
                                    let p8 = adv(p7, skip_spaces(s, p7));
                                    match p_lit(s, p8, lit_of()) {
                                        Option::None => Option::None,
                                        Option::Some(p9) => {
                                            let p10 = adv(p9, skip_spaces(s, p9));
                                            match p_expr(s, adv(pos + 1, p10)) {
                                                Option::None => Option::None,
                                                Option::Some((fill, p11)) => Option::Some(
                                                    (
                                                        ExprModel::NewArray(
                                                            name,
                                                            Box::new(n),
                                                            Box::new(fill),
                                                        ),
                                                        p11,
                                                    ),
                                                ),
                                            }
                                        },
                                    }
                                },
                            }
                        },
                    }
                },
            }
        },
    }
}

/// A parenthesized, semicolon-separated sequence `( e; e; ... )`.
#[verifier::opaque]
pub open spec fn p_try_paren(s: Seq<char>, pos: int) -> Option<(ExprModel, int)>
    decreases rem(s, pos), 3nat,
{
    match p_ch(s, pos, '(') {
        Option::None => Option::None,
        Option::Some(p1) => {
            let p2 = adv(p1, skip_spaces(s, p1));
            match p_expr_seq_opt(s, p2) {
                Option::None => Option::None,
                Option::Some((es, p3)) => {
                    let p4 = adv(p1, skip_spaces(s, adv(p1, p3)));
                    match p_ch(s, p4, ')') {
                        Option::None => Option::None,
                        Option::Some(p5) => Option::Some((ExprModel::Sequence(es), p5)),
                    }
                },
            }
        },
    }
}

/// One or more expressions separated by `;`, or nothing.  Always
/// succeeds; the empty sequence consumes no input.
#[verifier::opaque]
pub open spec fn p_expr_seq_opt(s: Seq<char>, pos: int) -> Option<(Seq<ExprModel>, int)>
    decreases rem(s, pos), 28nat,
{
    match p_expr(s, pos) {
        Option::None => Option::Some((Seq::empty(), pos)),
        Option::Some((e, p1)) => p_sep_exprs_rest(s, adv(pos, p1), seq![e], ';'),
    }
}

/// One or more expressions separated by `,`, or nothing.  Always
/// succeeds; the empty list consumes no input.
#[verifier::opaque]
pub open spec fn p_expr_list_opt(s: Seq<char>, pos: int) -> Option<(Seq<ExprModel>, int)>
    decreases rem(s, pos), 28nat,
{
    match p_expr(s, pos) {
        Option::None => Option::Some((Seq::empty(), pos)),
        Option::Some((e, p1)) => p_sep_exprs_rest(s, adv(pos, p1), seq![e], ','),
    }
}

/// Further `<sep> expression` steps.
#[verifier::opaque]
pub open spec fn p_sep_exprs_rest(s: Seq<char>, pos: int, acc: Seq<ExprModel>, sep: char) -> Option<
    (Seq<ExprModel>, int),
>
    decreases rem(s, pos), 0nat,
{
    let p1 = adv(pos, skip_spaces(s, pos));
    match p_ch(s, p1, sep) {
        Option::None => Option::Some((acc, pos)),
        Option::Some(p2) => {
            let p3 = adv(p2, skip_spaces(s, p2));
            match p_expr(s, p3) {
                Option::None => Option::Some((acc, pos)),
                Option::Some((e, p4)) => p_sep_exprs_rest(s, adv(p2, p4), acc.push(e), sep),
            }
        },
    }
}

/// One `name = expression` field initializer.
#[verifier::opaque]
pub open spec fn p_field(s: Seq<char>, pos: int) -> Option<((Seq<char>, ExprModel), int)>
    decreases rem(s, pos), 2nat,
{
    match p_id(s, pos) {
        Option::None => Option::None,
        Option::Some((name, p1)) => {
            let p2 = adv(pos + 1, skip_spaces(s, adv(pos + 1, p1)));
            match p_ch(s, p2, '=') {
                Option::None => Option::None,
                Option::Some(p3) => {
                    let p4 = adv(p3, skip_spaces(s, p3));
                    match p_expr(s, adv(pos + 1, p4)) {
                        Option::None => Option::None,
                        Option::Some((e, p5)) => Option::Some(((name, e), p5)),
                    }
                },
            }
        },
    }
}

/// One or more field initializers separated by `,`, or nothing.
#[verifier::opaque]
pub open spec fn p_field_list_opt(s: Seq<char>, pos: int) -> Option<
    (Seq<(Seq<char>, ExprModel)>, int),
>
    decreases rem(s, pos), 28nat,
{
    match p_field(s, pos) {
        Option::None => Option::Some((Seq::empty(), pos)),
        Option::Some((f, p1)) => p_fields_rest(s, adv(pos, p1), seq![f]),
    }
}

/// Further `, name = expression` steps.
#[verifier::opaque]
pub open spec fn p_fields_rest(
    s: Seq<char>,
    pos: int,
    acc: Seq<(Seq<char>, ExprModel)>,
) -> Option<(Seq<(Seq<char>, ExprModel)>, int)>
    decreases rem(s, pos), 0nat,
{
    let p1 = adv(pos, skip_spaces(s, pos));
    match p_ch(s, p1, ',') {
        Option::None => Option::Some((acc, pos)),
        Option::Some(p2) => {
            let p3 = adv(p2, skip_spaces(s, p2));
            match p_field(s, p3) {
                Option::None => Option::Some((acc, pos)),
                Option::Some((f, p4)) => p_fields_rest(s, adv(p2, p4), acc.push(f)),
            }
        },
    }
}

/// An optional `: typename` annotation followed by whitespace, as the
/// variable and function declarations use it.  Always succeeds; when
/// the annotation is absent, nothing is consumed.
#[verifier::opaque]
pub open spec fn p_opt_ty(s: Seq<char>, pos: int) -> (Option<Seq<char>>, int) {
    match p_ch(s, pos, ':') {
        Option::None => (Option::None, pos),
        Option::Some(p1) => {
            let p2 = adv(p1, skip_spaces(s, p1));
            match p_id(s, p2) {
                Option::None => (Option::None, pos),
                Option::Some((ty, p3)) => (
                    Option::Some(ty),
                    adv(p1, skip_spaces(s, adv(p1, p3))),
                ),
            }
        },
    }
}

/// One declaration: a type alias, a variable, or a function.
#[verifier::opaque]
pub open spec fn p_declaration(s: Seq<char>, pos: int) -> Option<(DecModel, int)>
    decreases rem(s, pos), 2nat,
{
    match p_try_type_dec(s, pos) {
        Option::Some(r) => Option::Some(r),
        Option::None => match p_try_var_dec(s, pos) {
            Option::Some(r) => Option::Some(r),
            Option::None => p_try_fun_dec(s, pos),
        },
    }
}

/// `type name = type-descriptor`.
#[verifier::opaque]
pub open spec fn p_try_type_dec(s: Seq<char>, pos: int) -> Option<(DecModel, int)>
    decreases rem(s, pos), 1nat,
{
    match p_lit(s, pos, lit_type()) {
        Option::None => Option::None,
        Option::Some(p1) => match p_spaces1(s, p1) {
            Option::None => Option::None,
            Option::Some(p2) => match p_id(s, p2) {
                Option::None => Option::None,
                Option::Some((name, p3)) => {
                    let p4 = adv(p2, skip_spaces(s, adv(p2, p3)));
                    match p_ch(s, p4, '=') {
                        Option::None => Option::None,
                        Option::Some(p5) => {
                            let p6 = adv(p5, skip_spaces(s, p5));
                            match p_type(s, adv(pos + 1, p6)) {
                                Option::None => Option::None,
                                Option::Some((ty, p7)) => Option::Some(
                                    (DecModel::Type(name, ty), p7),
                                ),
                            }
                        },
                    }
                },
            },
        },
    }
}

/// `var name := e` or `var name : typename := e`.
#[verifier::opaque]
pub open spec fn p_try_var_dec(s: Seq<char>, pos: int) -> Option<(DecModel, int)>
    decreases rem(s, pos), 1nat,
{
    match p_lit(s, pos, lit_var()) {
        Option::None => Option::None,
        Option::Some(p1) => match p_spaces1(s, p1) {
            Option::None => Option::None,
            Option::Some(p2) => match p_id(s, p2) {
                Option::None => Option::None,
                Option::Some((name, p3)) => {
                    let p4 = adv(p2, skip_spaces(s, adv(p2, p3)));
                    let (opt_ty, p5) = p_opt_ty(s, p4);
                    match p_lit(s, adv(p4, p5), lit_asgn()) {
                        Option::None => Option::None,
                        Option::Some(p6) => {
                            let p7 = adv(p6, skip_spaces(s, p6));
                            match p_expr(s, adv(pos + 1, p7)) {
                                Option::None => Option::None,
                                Option::Some((e, p8)) => Option::Some(
                                    (DecModel::Var(name, opt_ty, e), p8),
                                ),
                            }
                        },
                    }
                },
            },
        },
    }
}

/// `function name ( parameters ) = body` or
/// `function name ( parameters ) : typename = body`.
#[verifier::opaque]
pub open spec fn p_try_fun_dec(s: Seq<char>, pos: int) -> Option<(DecModel, int)>
    decreases rem(s, pos), 1nat,
{
    match p_lit(s, pos, lit_function()) {
        Option::None => Option::None,
        Option::Some(p1) => match p_spaces1(s, p1) {
            Option::None => Option::None,
            Option::Some(p2) => match p_id(s, p2) {
                Option::None => Option::None,
                Option::Some((name, p3)) => {
                    let p4 = adv(p2, skip_spaces(s, adv(p2, p3)));
                    match p_ch(s, p4, '(') {
                        Option::None => Option::None,
                        Option::Some(p5) => {
                            let p6 = adv(p5, skip_spaces(s, p5));
                            match p_type_fields(s, p6) {
                                Option::None => Option::None,
                                Option::Some((params, p7)) => {
                                    let p8 = adv(p5, skip_spaces(s, adv(p5, p7)));
                                    match p_ch(s, p8, ')') {
                                        Option::None => Option::None,
                                        Option::Some(p9) => {
                                            let p10 = adv(p9, skip_spaces(s, p9));
                                            let (opt_ty, p11) = p_opt_ty(s, p10);
                                            match p_ch(s, adv(p10, p11), '=') {
                                                Option::None => Option::None,
                                                Option::Some(p12) => {
                                                    let p13 = adv(p12, skip_spaces(s, p12));
                                                    match p_expr(s, adv(pos + 1, p13)) {
                                                        Option::None => Option::None,
                                                        Option::Some((body, p14)) => Option::Some(
                                                            (
                                                                DecModel::Fun(
                                                                    name,
                                                                    params,
                                                                    opt_ty,
                                                                    body,
                                                                ),
                                                                p14,
                                                            ),
                                                        ),
                                                    }
                                                },
                                            }
                                        },
                                    }
                                },
                            }
                        },
                    }
                },
            },
        },
    }
}

/// One or more declarations separated by whitespace.
#[verifier::opaque]
pub open spec fn p_decl_list(s: Seq<char>, pos: int) -> Option<(Seq<DecModel>, int)>
    decreases rem(s, pos), 28nat,
{
    match p_declaration(s, pos) {
        Option::None => Option::None,
        Option::Some((d, p1)) => p_decls_rest(s, adv(pos, p1), seq![d]),
    }
}

/// Further whitespace-separated declarations.
#[verifier::opaque]
pub open spec fn p_decls_rest(s: Seq<char>, pos: int, acc: Seq<DecModel>) -> Option<
    (Seq<DecModel>, int),
>
    decreases rem(s, pos), 3nat,
{
    if 0 <= pos < s.len() {
        let p1 = adv(pos, skip_spaces(s, pos));
        match p_declaration(s, p1) {
            Option::None => Option::Some((acc, pos)),
            Option::Some((d, p2)) => p_decls_rest(s, adv(pos + 1, p2), acc.push(d)),
        }
    } else {
        Option::Some((acc, pos))
    }
}

/// A whole program: optional whitespace, one expression, optional
/// whitespace.  The program is well formed exactly when this matches
/// the entire text.
pub open spec fn p_top(s: Seq<char>) -> Option<(ExprModel, int)> {
    let p1 = adv(0, skip_spaces(s, 0));
    match p_expr(s, p1) {
        Option::None => Option::None,
        Option::Some((e, p2)) => Option::Some((e, adv(p1, skip_spaces(s, adv(p1, p2))))),
    }
}

/// Whether the text is a syntactically valid program, and its tree.
pub open spec fn parse_result(s: Seq<char>) -> Option<ExprModel> {
    match p_top(s) {
        Option::Some((e, p)) => if p == s.len() {
            Option::Some(e)
        } else {
            Option::None
        },
        Option::None => Option::None,
    }
}


/// Every character of a digit run is a digit, and the run stays in
/// bounds.
pub proof fn lemma_digits_end_range(s: Seq<char>, pos: int)
    requires
        0 <= pos <= s.len(),
    ensures
        pos <= digits_end(s, pos) <= s.len(),
        forall|j: int| pos <= j < digits_end(s, pos) ==> is_digit(s[j]),
    decreases rem(s, pos),
{
    if 0 <= pos < s.len() && is_digit(s[pos]) {
        lemma_digits_end_range(s, pos + 1);
    }
}

} // verus!
