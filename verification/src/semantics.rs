//! The big-step semantics of the language, written as total spec functions.
//!
//! `eval_expr` is the mathematical meaning of a program: it maps an
//! expression model, an environment model, a store and a step budget
//! (`fuel`) to an outcome and a final store.  The executable evaluator in
//! `interpret` is proved to return exactly what these functions say.
//!
//! Fuel is charged once per loop iteration and once per function call, so
//! every run is finite; a run that needs more steps than the budget ends
//! in `EvalErr::OutOfFuel`.  No other behaviour depends on the budget.
//!
//! The store is append-only except for assignment, which overwrites one
//! existing location.  Environments are immutable values: extending one
//! yields a new value, which is what makes shadowing safe (see the
//! `lemma_bind_*` laws at the end of this file).
use vstd::prelude::*;

use crate::ast::DecModel;
use crate::ast::ExprModel;
use crate::ast::FunDecModel;
use crate::ast::LValueModel;
use crate::ast::Op;
use crate::ast::TypeModel;
use crate::ast::ValueModel;

verus! {

/// The model of the environment: three independent namespaces, each an
/// association list searched from the most recent entry backwards, so a
/// later binding of a name shadows an earlier one.
pub struct EnvModel {
    /// Variable name to store location.
    pub vars: Seq<(Seq<char>, nat)>,
    /// Function name to declaration.
    pub funs: Seq<(Seq<char>, FunDecModel)>,
    /// Type name to declared descriptor.
    pub types: Seq<(Seq<char>, TypeModel)>,
}

/// An error the evaluator can report.
#[derive(PartialEq, Eq, Structural, Clone, Copy, Debug)]
pub enum EvalErr {
    /// An identifier is missing from the namespace it was looked up in
    /// (variable, function or type), or a store location is dangling.
    UnboundName,
    /// A value's runtime kind does not match an operator's or a declared
    /// type's expectation.
    TypeMismatch,
    /// A call's argument count disagrees with the declaration.
    ArityMismatch,
    /// An array index outside `[0, len)`.
    IndexOutOfBounds,
    /// A record literal does not name exactly the declared fields.
    UnknownField,
    /// Division by zero.
    DivisionByZero,
    /// A `break` signal reached the top level outside any loop.
    BreakOutsideLoop,
    /// The step budget ran out before the program finished.
    OutOfFuel,
}

/// What evaluation can signal instead of producing a value: a `break`
/// travelling to the innermost enclosing loop, or an error.
#[derive(PartialEq, Eq, Structural, Clone, Copy, Debug)]
pub enum EvalSignal {
    LoopBreak,
    Error(EvalErr),
}

/// An outcome together with the store it left behind.
pub type EvalOutcome = (Result<ValueModel, EvalSignal>, Seq<ValueModel>);

/// Looks a name up in an association list, most recent binding first.
pub open spec fn lookup_assoc<T>(entries: Seq<(Seq<char>, T)>, name: Seq<char>) -> Option<T>
    decreases entries.len(),
{
    if entries.len() == 0 {
        Option::None
    } else if entries.last().0 == name {
        Option::Some(entries.last().1)
    } else {
        lookup_assoc(entries.drop_last(), name)
    }
}

/// The empty environment a whole program starts in.
pub open spec fn empty_env() -> EnvModel {
    EnvModel { vars: Seq::empty(), funs: Seq::empty(), types: Seq::empty() }
}

/// Binds a name to a fresh store location holding `v`.  The new location
/// is appended to the store, so every location already in use keeps its
/// contents: a re-binding shadows, it never overwrites.
pub open spec fn bind_var(
    env: EnvModel,
    name: Seq<char>,
    v: ValueModel,
    store: Seq<ValueModel>,
) -> (EnvModel, Seq<ValueModel>) {
    (
        EnvModel { vars: env.vars.push((name, store.len())), funs: env.funs, types: env.types },
        store.push(v),
    )
}

/// Adds a function declaration to the function namespace.
pub open spec fn bind_fun(env: EnvModel, name: Seq<char>, dec: FunDecModel) -> EnvModel {
    EnvModel { vars: env.vars, funs: env.funs.push((name, dec)), types: env.types }
}

/// Adds a type declaration to the type namespace.
pub open spec fn bind_type(env: EnvModel, name: Seq<char>, t: TypeModel) -> EnvModel {
    EnvModel { vars: env.vars, funs: env.funs, types: env.types.push((name, t)) }
}

/// Follows type aliases until a primitive name, a record shape or an
/// array shape is reached.  `int` and `string` are primitive and cannot
/// be shadowed.  `hops` bounds the alias chain; a cycle exhausts it and
/// resolution fails as if the name were unbound.
pub open spec fn resolve_type(
    types: Seq<(Seq<char>, TypeModel)>,
    name: Seq<char>,
    hops: nat,
) -> Option<TypeModel>
    decreases hops,
{
    if name == "int"@ || name == "string"@ {
        Option::Some(TypeModel::Id(name))
    } else {
        match lookup_assoc(types, name) {
            Option::None => Option::None,
            Option::Some(t) => match t {
                TypeModel::Id(other) => if hops == 0 {
                    Option::None
                } else {
                    resolve_type(types, other, (hops - 1) as nat)
                },
                _ => Option::Some(t),
            },
        }
    }
}

/// Checks a value's runtime kind against a declared type name: `int`
/// demands an integer, `string` a string, a record type a record value,
/// an array type an array value.  The check is by kind; it does not chase
/// the locations inside a heap value.
pub open spec fn type_check_val(
    v: ValueModel,
    ty: Seq<char>,
    types: Seq<(Seq<char>, TypeModel)>,
) -> Result<(), EvalSignal> {
    match resolve_type(types, ty, types.len()) {
        Option::None => Result::Err(EvalSignal::Error(EvalErr::UnboundName)),
        Option::Some(shape) => {
            let ok = match shape {
                TypeModel::Id(n) => if n == "int"@ {
                    v is VNum
                } else {
                    v is VStr
                },
                TypeModel::Field(_) => v is VRec,
                TypeModel::Array(_) => v is VArr,
            };
            if ok {
                Result::Ok(())
            } else {
                Result::Err(EvalSignal::Error(EvalErr::TypeMismatch))
            }
        },
    }
}

/// Division truncated towards zero, as the host's 64-bit division does it.
pub open spec fn trunc_div(x: int, d: int) -> int {
    if x == 0 {
        0
    } else if x > 0 && d > 0 {
        x / d
    } else if x < 0 && d < 0 {
        (x * -1) / (d * -1)
    } else if x < 0 {
        ((x * -1) / d) * -1
    } else {
        (x / (d * -1)) * -1
    }
}

/// Brings an unbounded integer into the signed 64-bit range by wrapping,
/// the host's native two's-complement behaviour.
pub open spec fn crop64(x: int) -> int {
    vstd::wrapping::i64_specs::signed_crop(x) as int
}

/// The meaning of an arithmetic or ordering operator on two integers.
/// Arithmetic wraps at 64 bits; comparisons yield 1 or 0.  Only the
/// eight operators that demand integer operands are given meaning here;
/// `Eq`, `Ne`, `Or` and `And` are handled structurally by `eval_expr`.
pub open spec fn arith_val(op: Op, a: int, b: int) -> int {
    match op {
        Op::Add => crop64(a + b),
        Op::Sub => crop64(a - b),
        Op::Mul => crop64(a * b),
        Op::Div => crop64(trunc_div(a, b)),
        Op::Lt => if a < b {
            1
        } else {
            0
        },
        Op::Gt => if a > b {
            1
        } else {
            0
        },
        Op::Le => if a <= b {
            1
        } else {
            0
        },
        Op::Ge => if a >= b {
            1
        } else {
            0
        },
        _ => 0,
    }
}

/// Whether an operator is one of the eight handled by `arith_val`.
pub open spec fn is_arith_op(op: Op) -> bool {
    match op {
        Op::Add | Op::Sub | Op::Mul | Op::Div | Op::Lt | Op::Gt | Op::Le | Op::Ge => true,
        _ => false,
    }
}

/// Structural equality of two runtime values: equal kinds and equal
/// contents.  For records and arrays the contents are the store
/// locations, so two heap values are equal exactly when they are the
/// same object.
pub open spec fn val_eq(a: ValueModel, b: ValueModel) -> bool {
    match (a, b) {
        (ValueModel::VNum(x), ValueModel::VNum(y)) => x == y,
        (ValueModel::VStr(x), ValueModel::VStr(y)) => x == y,
        (ValueModel::VNil, ValueModel::VNil) => true,
        (ValueModel::VRec(x), ValueModel::VRec(y)) => x == y,
        (ValueModel::VArr(x), ValueModel::VArr(y)) => x == y,
        _ => false,
    }
}


/// `n` copies of one value: what array construction appends to the store.
pub open spec fn repeated(v: ValueModel, n: nat) -> Seq<ValueModel> {
    Seq::new(n, |i: int| v)
}

/// `n` fresh store locations starting at `base`.
pub open spec fn fresh_locs(base: nat, n: nat) -> Seq<nat> {
    Seq::new(n, |i: int| (base + i) as nat)
}

/// The field table of a newly built record: each literal field name
/// paired with its pre-allocated location.
pub open spec fn rec_handle(lits: Seq<(Seq<char>, ExprModel)>, base: nat) -> Seq<
    (Seq<char>, nat),
> {
    Seq::new(lits.len(), |i: int| (lits[i].0, (base + i) as nat))
}

/// The meaning of an expression: an outcome and the store it leaves.
///
/// The semantics follows the evaluator contract of the design:
/// literals are themselves; variables and l-values read through their
/// store location; `:=` overwrites an existing location and yields
/// no-value; `&` and `|` short-circuit on integers; `if` demands an
/// integer condition; loops yield no-value and intercept `LoopBreak`;
/// `let` grows the environment declaration by declaration; calls bind
/// parameters at fresh locations in the call-site environment; record
/// and array construction allocate fresh locations.
pub open spec fn eval_expr(
    e: ExprModel,
    env: EnvModel,
    store: Seq<ValueModel>,
    fuel: nat,
) -> EvalOutcome
    decreases fuel, e, 1nat,
{
    match e {
        ExprModel::Num(i) => (Result::Ok(ValueModel::VNum(i)), store),
        ExprModel::Str(s) => (Result::Ok(ValueModel::VStr(s)), store),
        ExprModel::Var(x) => (read_var(env, x, store), store),
        ExprModel::LVal(l) => {
            let (r, s1) = eval_lvalue(l, env, store, fuel);
            match r {
                Result::Err(sig) => (Result::Err(sig), s1),
                Result::Ok(loc) => if loc < s1.len() {
                    (Result::Ok(s1[loc as int]), s1)
                } else {
                    (Result::Err(EvalSignal::Error(EvalErr::UnboundName)), s1)
                },
            }
        },
        ExprModel::Neg(e1) => {
            let (r, s1) = eval_expr(*e1, env, store, fuel);
            match r {
                Result::Err(sig) => (Result::Err(sig), s1),
                Result::Ok(v) => match v {
                    ValueModel::VNum(i) => (Result::Ok(ValueModel::VNum(crop64(-i))), s1),
                    _ => (Result::Err(EvalSignal::Error(EvalErr::TypeMismatch)), s1),
                },
            }
        },
        ExprModel::OpNode(_, _, _) => eval_op(e, env, store, fuel),
        ExprModel::IfNode(c, t, f) => {
            let (r, s1) = eval_expr(*c, env, store, fuel);
            match r {
                Result::Err(sig) => (Result::Err(sig), s1),
                Result::Ok(v) => match v {
                    ValueModel::VNum(i) => if i == 0 {
                        eval_expr(*f, env, s1, fuel)
                    } else {
                        eval_expr(*t, env, s1, fuel)
                    },
                    _ => (Result::Err(EvalSignal::Error(EvalErr::TypeMismatch)), s1),
                },
            }
        },
        ExprModel::Nil => (Result::Ok(ValueModel::VNil), store),
        ExprModel::LAsgn(l, e1) => {
            let (r, s1) = eval_expr(*e1, env, store, fuel);
            match r {
                Result::Err(sig) => (Result::Err(sig), s1),
                Result::Ok(v) => {
                    let (rl, s2) = eval_lvalue(l, env, s1, fuel);
                    match rl {
                        Result::Err(sig) => (Result::Err(sig), s2),
                        Result::Ok(loc) => if loc < s2.len() {
                            (Result::Ok(ValueModel::VNil), s2.update(loc as int, v))
                        } else {
                            (Result::Err(EvalSignal::Error(EvalErr::UnboundName)), s2)
                        },
                    }
                },
            }
        },
        ExprModel::Sequence(es) => eval_seq(es, env, store, fuel),
        ExprModel::Let(ds, b) => {
            let (r, s1) = eval_decs(ds, env, store, fuel);
            match r {
                Result::Err(sig) => (Result::Err(sig), s1),
                Result::Ok(env1) => eval_expr(*b, env1, s1, fuel),
            }
        },
        ExprModel::For(x, st, en, b) => {
            let (r1, s1) = eval_expr(*st, env, store, fuel);
            match r1 {
                Result::Err(sig) => (Result::Err(sig), s1),
                Result::Ok(v1) => {
                    let (r2, s2) = eval_expr(*en, env, s1, fuel);
                    match r2 {
                        Result::Err(sig) => (Result::Err(sig), s2),
                        Result::Ok(v2) => match (v1, v2) {
                            (ValueModel::VNum(i0), ValueModel::VNum(i1)) => {
                                let (env1, s3) = bind_var(env, x, ValueModel::VNum(i0), s2);
                                eval_for(x, i0, i1, *b, env1, s3, fuel)
                            },
                            _ => (Result::Err(EvalSignal::Error(EvalErr::TypeMismatch)), s2),
                        },
                    }
                },
            }
        },
        ExprModel::Do(c, b) => eval_do(*c, *b, env, store, fuel),
        ExprModel::FunApp(f, args) => {
            match lookup_assoc(env.funs, f) {
                Option::None => (Result::Err(EvalSignal::Error(EvalErr::UnboundName)), store),
                Option::Some(dec) => if args.len() != dec.1.len() {
                    (Result::Err(EvalSignal::Error(EvalErr::ArityMismatch)), store)
                } else {
                    let (ra, s1) = eval_args(args, dec.1, env, store, fuel);
                    match ra {
                        Result::Err(sig) => (Result::Err(sig), s1),
                        Result::Ok(vals) => {
                            let (env1, s2) = bind_params(dec.1, vals, env, s1);
                            if fuel == 0 {
                                (Result::Err(EvalSignal::Error(EvalErr::OutOfFuel)), s2)
                            } else {
                                let (rb, s3) = eval_expr(dec.3, env1, s2, (fuel - 1) as nat);
                                match rb {
                                    Result::Err(sig) => (Result::Err(sig), s3),
                                    Result::Ok(v) => match dec.2 {
                                        Option::None => (Result::Ok(v), s3),
                                        Option::Some(retty) => match type_check_val(
                                            v,
                                            retty,
                                            env.types,
                                        ) {
                                            Result::Ok(_) => (Result::Ok(v), s3),
                                            Result::Err(sig) => (Result::Err(sig), s3),
                                        },
                                    },
                                }
                            }
                        },
                    }
                },
            }
        },
        ExprModel::NewStruct(tyname, lits) => {
            match resolve_type(env.types, tyname, env.types.len()) {
                Option::None => (Result::Err(EvalSignal::Error(EvalErr::UnboundName)), store),
                Option::Some(shape) => match shape {
                    TypeModel::Field(dfs) => if !(lits.len() == dfs.len() && (forall|i: int|
                        0 <= i < lits.len() ==> (#[trigger] lits[i]).0 == dfs[i].0)) {
                        (Result::Err(EvalSignal::Error(EvalErr::UnknownField)), store)
                    } else {
                        let base = store.len();
                        let s1 = store + repeated(ValueModel::VNil, lits.len());
                        let (r, s2) = eval_struct_fields(lits, dfs, base, env, s1, fuel);
                        match r {
                            Result::Err(sig) => (Result::Err(sig), s2),
                            Result::Ok(_) => (
                                Result::Ok(ValueModel::VRec(rec_handle(lits, base))),
                                s2,
                            ),
                        }
                    },
                    _ => (Result::Err(EvalSignal::Error(EvalErr::TypeMismatch)), store),
                },
            }
        },
        ExprModel::NewArray(tyname, n, e1) => {
            match resolve_type(env.types, tyname, env.types.len()) {
                Option::None => (Result::Err(EvalSignal::Error(EvalErr::UnboundName)), store),
                Option::Some(shape) => match shape {
                    TypeModel::Array(_) => {
                        let (rn, s1) = eval_expr(*n, env, store, fuel);
                        match rn {
                            Result::Err(sig) => (Result::Err(sig), s1),
                            Result::Ok(vn) => match vn {
                                ValueModel::VNum(len) => if len < 0 {
                                    (Result::Err(EvalSignal::Error(EvalErr::TypeMismatch)), s1)
                                } else {
                                    let (rf, s2) = eval_expr(*e1, env, s1, fuel);
                                    match rf {
                                        Result::Err(sig) => (Result::Err(sig), s2),
                                        Result::Ok(fill) => (
                                            Result::Ok(
                                                ValueModel::VArr(fresh_locs(s2.len(), len as nat)),
                                            ),
                                            s2 + repeated(fill, len as nat),
                                        ),
                                    }
                                },
                                _ => (Result::Err(EvalSignal::Error(EvalErr::TypeMismatch)), s1),
                            },
                        }
                    },
                    _ => (Result::Err(EvalSignal::Error(EvalErr::TypeMismatch)), store),
                },
            }
        },
        ExprModel::Break => (Result::Err(EvalSignal::LoopBreak), store),
    }
}

/// Reads a variable: looks its location up and dereferences it.
pub open spec fn read_var(
    env: EnvModel,
    x: Seq<char>,
    store: Seq<ValueModel>,
) -> Result<ValueModel, EvalSignal> {
    match lookup_assoc(env.vars, x) {
        Option::None => Result::Err(EvalSignal::Error(EvalErr::UnboundName)),
        Option::Some(loc) => if loc < store.len() {
            Result::Ok(store[loc as int])
        } else {
            Result::Err(EvalSignal::Error(EvalErr::UnboundName))
        },
    }
}

/// The meaning of a binary operator node, including the short-circuit
/// rules: `|` keeps a nonzero left operand without touching the right
/// one, `&` keeps a zero left operand without touching the right one,
/// and in both remaining cases the right operand's result is returned
/// as it is.  `=` and `<>` compare any two values structurally.  The
/// eight integer operators demand integer operands on both sides.
pub open spec fn eval_op(
    e: ExprModel,
    env: EnvModel,
    store: Seq<ValueModel>,
    fuel: nat,
) -> EvalOutcome
    decreases fuel, e, 0nat,
{
    match e {
        ExprModel::OpNode(op, e1, e2) => {
            if is_arith_op(op) {
                let (r1, s1) = eval_expr(*e1, env, store, fuel);
                match r1 {
                    Result::Err(sig) => (Result::Err(sig), s1),
                    Result::Ok(v1) => {
                        let (r2, s2) = eval_expr(*e2, env, s1, fuel);
                        match r2 {
                            Result::Err(sig) => (Result::Err(sig), s2),
                            Result::Ok(v2) => match (v1, v2) {
                                (ValueModel::VNum(i1), ValueModel::VNum(i2)) => if op is Div
                                    && i2 == 0 {
                                    (Result::Err(EvalSignal::Error(EvalErr::DivisionByZero)), s2)
                                } else {
                                    (Result::Ok(ValueModel::VNum(arith_val(op, i1, i2))), s2)
                                },
                                _ => (Result::Err(EvalSignal::Error(EvalErr::TypeMismatch)), s2),
                            },
                        }
                    },
                }
            } else if op is Eq || op is Ne {
                let (r1, s1) = eval_expr(*e1, env, store, fuel);
                match r1 {
                    Result::Err(sig) => (Result::Err(sig), s1),
                    Result::Ok(v1) => {
                        let (r2, s2) = eval_expr(*e2, env, s1, fuel);
                        match r2 {
                            Result::Err(sig) => (Result::Err(sig), s2),
                            Result::Ok(v2) => {
                                let res = ((op is Ne) != val_eq(v1, v2));
                                (
                                    Result::Ok(ValueModel::VNum(if res {
                                        1
                                    } else {
                                        0
                                    })),
                                    s2,
                                )
                            },
                        }
                    },
                }
            } else if op is Or {
                let (r1, s1) = eval_expr(*e1, env, store, fuel);
                match r1 {
                    Result::Err(sig) => (Result::Err(sig), s1),
                    Result::Ok(v1) => match v1 {
                        ValueModel::VNum(i1) => if i1 == 0 {
                            eval_expr(*e2, env, s1, fuel)
                        } else {
                            (Result::Ok(v1), s1)
                        },
                        _ => (Result::Err(EvalSignal::Error(EvalErr::TypeMismatch)), s1),
                    },
                }
            } else {
                let (r1, s1) = eval_expr(*e1, env, store, fuel);
                match r1 {
                    Result::Err(sig) => (Result::Err(sig), s1),
                    Result::Ok(v1) => match v1 {
                        ValueModel::VNum(i1) => if i1 == 0 {
                            (Result::Ok(v1), s1)
                        } else {
                            eval_expr(*e2, env, s1, fuel)
                        },
                        _ => (Result::Err(EvalSignal::Error(EvalErr::TypeMismatch)), s1),
                    },
                }
            }
        },
        _ => (Result::Err(EvalSignal::Error(EvalErr::TypeMismatch)), store),
    }
}

/// Resolves an l-value to a store location.  An identifier resolves
/// through the variable namespace; a field access reads the base, which
/// must be a record holding the field; an index access reads the base,
/// which must be an array, and the index, which must fall in `[0, len)`.
pub open spec fn eval_lvalue(
    l: LValueModel,
    env: EnvModel,
    store: Seq<ValueModel>,
    fuel: nat,
) -> (Result<nat, EvalSignal>, Seq<ValueModel>)
    decreases fuel, l, 0nat,
{
    match l {
        LValueModel::Id(x) => match lookup_assoc(env.vars, x) {
            Option::None => (Result::Err(EvalSignal::Error(EvalErr::UnboundName)), store),
            Option::Some(loc) => (Result::Ok(loc), store),
        },
        LValueModel::Mem(b, f) => {
            let (r, s1) = eval_lvalue(*b, env, store, fuel);
            match r {
                Result::Err(sig) => (Result::Err(sig), s1),
                Result::Ok(loc) => if loc < s1.len() {
                    match s1[loc as int] {
                        ValueModel::VRec(fields) => match lookup_assoc(fields, f) {
                            Option::None => (
                                Result::Err(EvalSignal::Error(EvalErr::UnknownField)),
                                s1,
                            ),
                            Option::Some(floc) => (Result::Ok(floc), s1),
                        },
                        _ => (Result::Err(EvalSignal::Error(EvalErr::TypeMismatch)), s1),
                    }
                } else {
                    (Result::Err(EvalSignal::Error(EvalErr::UnboundName)), s1)
                },
            }
        },
        LValueModel::Idx(b, ie) => {
            let (r, s1) = eval_lvalue(*b, env, store, fuel);
            match r {
                Result::Err(sig) => (Result::Err(sig), s1),
                Result::Ok(loc) => if loc < s1.len() {
                    match s1[loc as int] {
                        ValueModel::VArr(locs) => {
                            let (ri, s2) = eval_expr(*ie, env, s1, fuel);
                            match ri {
                                Result::Err(sig) => (Result::Err(sig), s2),
                                Result::Ok(iv) => match iv {
                                    ValueModel::VNum(i) => if 0 <= i < locs.len() {
                                        (Result::Ok(locs[i]), s2)
                                    } else {
                                        (
                                            Result::Err(
                                                EvalSignal::Error(EvalErr::IndexOutOfBounds),
                                            ),
                                            s2,
                                        )
                                    },
                                    _ => (
                                        Result::Err(EvalSignal::Error(EvalErr::TypeMismatch)),
                                        s2,
                                    ),
                                },
                            }
                        },
                        _ => (Result::Err(EvalSignal::Error(EvalErr::TypeMismatch)), s1),
                    }
                } else {
                    (Result::Err(EvalSignal::Error(EvalErr::UnboundName)), s1)
                },
            }
        },
    }
}

/// A sequence: every element is evaluated, the last value is kept.
/// An empty sequence yields no-value.
pub open spec fn eval_seq(
    es: Seq<ExprModel>,
    env: EnvModel,
    store: Seq<ValueModel>,
    fuel: nat,
) -> EvalOutcome
    decreases fuel, es, 0nat,
{
    if es.len() == 0 {
        (Result::Ok(ValueModel::VNil), store)
    } else {
        let (r, s1) = eval_expr(es.first(), env, store, fuel);
        match r {
            Result::Err(sig) => (Result::Err(sig), s1),
            Result::Ok(v) => if es.len() == 1 {
                (Result::Ok(v), s1)
            } else {
                eval_seq(es.drop_first(), env, s1, fuel)
            },
        }
    }
}

/// Declarations of a `let`, processed left to right.  Each initializer
/// is evaluated against the block-entry environment already extended
/// with the prior declarations of the same block; a declared type name
/// on a variable is checked against the initializer's value before the
/// binding is made.
pub open spec fn eval_decs(
    ds: Seq<DecModel>,
    env: EnvModel,
    store: Seq<ValueModel>,
    fuel: nat,
) -> (Result<EnvModel, EvalSignal>, Seq<ValueModel>)
    decreases fuel, ds, 1nat,
{
    if ds.len() == 0 {
        (Result::Ok(env), store)
    } else {
        let (r, s1) = eval_dec(ds.first(), env, store, fuel);
        match r {
            Result::Err(sig) => (Result::Err(sig), s1),
            Result::Ok(env1) => eval_decs(ds.drop_first(), env1, s1, fuel),
        }
    }
}

/// One declaration: a type alias extends the type namespace, a function
/// extends the function namespace, a variable evaluates its initializer
/// and binds a fresh location.
pub open spec fn eval_dec(
    d: DecModel,
    env: EnvModel,
    store: Seq<ValueModel>,
    fuel: nat,
) -> (Result<EnvModel, EvalSignal>, Seq<ValueModel>)
    decreases fuel, d, 0nat,
{
    match d {
        DecModel::Type(name, t) => (Result::Ok(bind_type(env, name, t)), store),
        DecModel::Fun(name, params, retty, body) => (
            Result::Ok(bind_fun(env, name, (name, params, retty, body))),
            store,
        ),
        DecModel::Var(name, opt_ty, init) => {
            let (r, s1) = eval_expr(init, env, store, fuel);
            match r {
                Result::Err(sig) => (Result::Err(sig), s1),
                Result::Ok(v) => {
                    let checked = match opt_ty {
                        Option::None => Result::Ok(()),
                        Option::Some(ty) => type_check_val(v, ty, env.types),
                    };
                    match checked {
                        Result::Err(sig) => (Result::Err(sig), s1),
                        Result::Ok(_) => {
                            let (env1, s2) = bind_var(env, name, v, s1);
                            (Result::Ok(env1), s2)
                        },
                    }
                },
            }
        },
    }
}

/// The counting loop, already past its start/end evaluation: for each
/// counter value from `i` to `en` inclusive the loop variable's one
/// location is overwritten (not re-bound) and the body runs.  A
/// `LoopBreak` from the body ends the loop quietly; the loop's value is
/// no-value.  Each iteration costs one unit of fuel.
pub open spec fn eval_for(
    x: Seq<char>,
    i: int,
    en: int,
    body: ExprModel,
    env: EnvModel,
    store: Seq<ValueModel>,
    fuel: nat,
) -> EvalOutcome
    decreases fuel, body, 0nat,
{
    if i > en {
        (Result::Ok(ValueModel::VNil), store)
    } else if fuel == 0 {
        (Result::Err(EvalSignal::Error(EvalErr::OutOfFuel)), store)
    } else {
        match lookup_assoc(env.vars, x) {
            Option::None => (Result::Err(EvalSignal::Error(EvalErr::UnboundName)), store),
            Option::Some(loc) => if loc < store.len() {
                let s1 = store.update(loc as int, ValueModel::VNum(i));
                let (r, s2) = eval_expr(body, env, s1, (fuel - 1) as nat);
                match r {
                    Result::Err(EvalSignal::LoopBreak) => (Result::Ok(ValueModel::VNil), s2),
                    Result::Err(sig) => (Result::Err(sig), s2),
                    Result::Ok(_) => if i == en {
                        (Result::Ok(ValueModel::VNil), s2)
                    } else {
                        eval_for(x, i + 1, en, body, env, s2, (fuel - 1) as nat)
                    },
                }
            } else {
                (Result::Err(EvalSignal::Error(EvalErr::UnboundName)), store)
            },
        }
    }
}

/// The condition loop: the condition must be an integer; zero stops the
/// loop, otherwise the body runs and the loop repeats.  A `LoopBreak`
/// from the body ends the loop quietly; the loop's value is no-value.
/// Each iteration costs one unit of fuel.
pub open spec fn eval_do(
    c: ExprModel,
    body: ExprModel,
    env: EnvModel,
    store: Seq<ValueModel>,
    fuel: nat,
) -> EvalOutcome
    decreases fuel, body, 0nat,
{
    if fuel == 0 {
        (Result::Err(EvalSignal::Error(EvalErr::OutOfFuel)), store)
    } else {
        let (r, s1) = eval_expr(c, env, store, (fuel - 1) as nat);
        match r {
            Result::Err(sig) => (Result::Err(sig), s1),
            Result::Ok(v) => match v {
                ValueModel::VNum(cv) => if cv == 0 {
                    (Result::Ok(ValueModel::VNil), s1)
                } else {
                    let (rb, s2) = eval_expr(body, env, s1, (fuel - 1) as nat);
                    match rb {
                        Result::Err(EvalSignal::LoopBreak) => (Result::Ok(ValueModel::VNil), s2),
                        Result::Err(sig) => (Result::Err(sig), s2),
                        Result::Ok(_) => eval_do(c, body, env, s2, (fuel - 1) as nat),
                    }
                },
                _ => (Result::Err(EvalSignal::Error(EvalErr::TypeMismatch)), s1),
            },
        }
    }
}

/// Call arguments, evaluated left to right; each value is checked
/// against its positional parameter's declared type as soon as it is
/// evaluated, as the call contract demands.
pub open spec fn eval_args(
    args: Seq<ExprModel>,
    params: Seq<(Seq<char>, Seq<char>)>,
    env: EnvModel,
    store: Seq<ValueModel>,
    fuel: nat,
) -> (Result<Seq<ValueModel>, EvalSignal>, Seq<ValueModel>)
    decreases fuel, args, 0nat,
{
    if args.len() == 0 {
        (Result::Ok(Seq::empty()), store)
    } else {
        let (r, s1) = eval_expr(args.first(), env, store, fuel);
        match r {
            Result::Err(sig) => (Result::Err(sig), s1),
            Result::Ok(v) => {
                let checked = if params.len() > 0 {
                    type_check_val(v, params.first().1, env.types)
                } else {
                    Result::Ok(())
                };
                match checked {
                    Result::Err(sig) => (Result::Err(sig), s1),
                    Result::Ok(_) => {
                        let ps = if params.len() > 0 {
                            params.drop_first()
                        } else {
                            params
                        };
                        let (rr, s2) = eval_args(args.drop_first(), ps, env, s1, fuel);
                        match rr {
                            Result::Err(sig) => (Result::Err(sig), s2),
                            Result::Ok(vs) => (Result::Ok(vs.insert(0, v)), s2),
                        }
                    },
                }
            },
        }
    }
}

/// Binds every parameter to its argument value at a fresh location, in
/// order, against the call-site environment.
pub open spec fn bind_params(
    params: Seq<(Seq<char>, Seq<char>)>,
    vals: Seq<ValueModel>,
    env: EnvModel,
    store: Seq<ValueModel>,
) -> (EnvModel, Seq<ValueModel>)
    decreases params.len(),
{
    if params.len() == 0 || vals.len() == 0 {
        (env, store)
    } else {
        let (env1, s1) = bind_var(env, params.first().0, vals.first(), store);
        bind_params(params.drop_first(), vals.drop_first(), env1, s1)
    }
}

/// Record fields, evaluated in declaration order (the literal must list
/// exactly the declared fields, so this is also literal order).  Each
/// value is checked against the declared field type and written into the
/// field's pre-allocated location at `base + position`.
pub open spec fn eval_struct_fields(
    lits: Seq<(Seq<char>, ExprModel)>,
    dfs: Seq<(Seq<char>, Seq<char>)>,
    base: nat,
    env: EnvModel,
    store: Seq<ValueModel>,
    fuel: nat,
) -> (Result<(), EvalSignal>, Seq<ValueModel>)
    decreases fuel, lits, 0nat,
{
    if lits.len() == 0 {
        (Result::Ok(()), store)
    } else {
        let (r, s1) = eval_expr(lits.first().1, env, store, fuel);
        match r {
            Result::Err(sig) => (Result::Err(sig), s1),
            Result::Ok(v) => {
                let checked = if dfs.len() > 0 {
                    type_check_val(v, dfs.first().1, env.types)
                } else {
                    Result::Ok(())
                };
                match checked {
                    Result::Err(sig) => (Result::Err(sig), s1),
                    Result::Ok(_) => if base < s1.len() {
                        let ds = if dfs.len() > 0 {
                            dfs.drop_first()
                        } else {
                            dfs
                        };
                        eval_struct_fields(
                            lits.drop_first(),
                            ds,
                            (base + 1) as nat,
                            env,
                            s1.update(base as int, v),
                            fuel,
                        )
                    } else {
                        (Result::Err(EvalSignal::Error(EvalErr::UnboundName)), s1)
                    },
                }
            },
        }
    }
}

/// The meaning of a whole program: evaluation in the empty environment
/// over the empty store.  A `LoopBreak` that reaches the top is the
/// `BreakOutsideLoop` error.
pub open spec fn run_program(e: ExprModel, fuel: nat) -> Result<ValueModel, EvalErr> {
    let (r, s) = eval_expr(e, empty_env(), Seq::empty(), fuel);
    match r {
        Result::Ok(v) => Result::Ok(v),
        Result::Err(EvalSignal::LoopBreak) => Result::Err(EvalErr::BreakOutsideLoop),
        Result::Err(EvalSignal::Error(err)) => Result::Err(err),
    }
}


/// Shadowing, first half: after `bind_var`, the bound name resolves to
/// the fresh location, and reading it yields exactly the bound value.
pub proof fn lemma_bind_var_resolves(
    env: EnvModel,
    name: Seq<char>,
    v: ValueModel,
    store: Seq<ValueModel>,
)
    ensures
        ({
            let (env2, s2) = bind_var(env, name, v, store);
            lookup_assoc(env2.vars, name) == Option::Some(store.len())
                && read_var(env2, name, s2) == Result::<ValueModel, EvalSignal>::Ok(v)
        }),
{
    let (env2, s2) = bind_var(env, name, v, store);
    assert(env2.vars.last() == (name, store.len()));
}

/// Shadowing, second half: a new binding changes how no other name
/// resolves.  Together with `lemma_bind_var_resolves` this is lexical
/// shadowing: the inner binding wins for its own name and touches
/// nothing else.
pub proof fn lemma_bind_var_preserves_others(
    env: EnvModel,
    name: Seq<char>,
    v: ValueModel,
    store: Seq<ValueModel>,
    other: Seq<char>,
)
    requires
        other != name,
    ensures
        lookup_assoc(bind_var(env, name, v, store).0.vars, other) == lookup_assoc(
            env.vars,
            other,
        ),
{
    let vars2 = bind_var(env, name, v, store).0.vars;
    assert(vars2.last() == (name, store.len()));
    assert(vars2.drop_last() =~= env.vars);
}

/// Binding allocates, it never overwrites: every location already in
/// the store keeps its contents.  This is why an inner `let var x`
/// cannot corrupt the location an outer `x` still reads through.
pub proof fn lemma_bind_var_preserves_store(
    env: EnvModel,
    name: Seq<char>,
    v: ValueModel,
    store: Seq<ValueModel>,
    loc: nat,
)
    requires
        loc < store.len(),
    ensures
        bind_var(env, name, v, store).1[loc as int] == store[loc as int],
{
}

/// Reading through an environment that predates a binding is unchanged
/// by that binding, provided the environment's locations all lie inside
/// the old store — which holds of every environment the evaluator
/// builds, since locations come from the store length at bind time.
pub proof fn lemma_bind_var_outer_reads_unchanged(
    env: EnvModel,
    name: Seq<char>,
    v: ValueModel,
    store: Seq<ValueModel>,
    other: Seq<char>,
)
    requires
        match lookup_assoc(env.vars, other) {
            Option::Some(loc) => loc < store.len(),
            Option::None => true,
        },
    ensures
        read_var(env, other, bind_var(env, name, v, store).1) == read_var(env, other, store),
{
}

/// Short-circuit of `&`: when the left operand yields zero, the whole
/// conjunction is zero and the right operand is never evaluated — the
/// store is exactly the one the left operand left behind, whatever the
/// right operand is.
pub proof fn lemma_and_short_circuit(
    e1: ExprModel,
    e2: ExprModel,
    env: EnvModel,
    store: Seq<ValueModel>,
    fuel: nat,
)
    requires
        eval_expr(e1, env, store, fuel).0 == Result::<ValueModel, EvalSignal>::Ok(
            ValueModel::VNum(0),
        ),
    ensures
        eval_expr(ExprModel::OpNode(Op::And, Box::new(e1), Box::new(e2)), env, store, fuel) == (
            Result::<ValueModel, EvalSignal>::Ok(ValueModel::VNum(0)),
            eval_expr(e1, env, store, fuel).1,
        ),
{
    let e = ExprModel::OpNode(Op::And, Box::new(e1), Box::new(e2));
    assert(eval_expr(e, env, store, fuel) == eval_op(e, env, store, fuel));
}

/// Short-circuit of `|`: when the left operand yields a nonzero value,
/// that value is the whole disjunction and the right operand is never
/// evaluated, whatever it is.
pub proof fn lemma_or_short_circuit(
    e1: ExprModel,
    e2: ExprModel,
    env: EnvModel,
    store: Seq<ValueModel>,
    fuel: nat,
    n: int,
)
    requires
        n != 0,
        eval_expr(e1, env, store, fuel).0 == Result::<ValueModel, EvalSignal>::Ok(
            ValueModel::VNum(n),
        ),
    ensures
        eval_expr(ExprModel::OpNode(Op::Or, Box::new(e1), Box::new(e2)), env, store, fuel) == (
            Result::<ValueModel, EvalSignal>::Ok(ValueModel::VNum(n)),
            eval_expr(e1, env, store, fuel).1,
        ),
{
    let e = ExprModel::OpNode(Op::Or, Box::new(e1), Box::new(e2));
    assert(eval_expr(e, env, store, fuel) == eval_op(e, env, store, fuel));
}

/// A `LoopBreak` from the body ends the counting loop at once: the loop
/// yields no-value with the store exactly as that body run left it —
/// later iterations never happen, so they can touch nothing.
pub proof fn lemma_for_break(
    x: Seq<char>,
    i: int,
    en: int,
    body: ExprModel,
    env: EnvModel,
    store: Seq<ValueModel>,
    fuel: nat,
    loc: nat,
)
    requires
        i <= en,
        fuel > 0,
        lookup_assoc(env.vars, x) == Option::Some(loc),
        loc < store.len(),
        eval_expr(
            body,
            env,
            store.update(loc as int, ValueModel::VNum(i)),
            (fuel - 1) as nat,
        ).0 == Result::<ValueModel, EvalSignal>::Err(EvalSignal::LoopBreak),
    ensures
        eval_for(x, i, en, body, env, store, fuel) == (
            Result::<ValueModel, EvalSignal>::Ok(ValueModel::VNil),
            eval_expr(body, env, store.update(loc as int, ValueModel::VNum(i)), (fuel - 1) as nat).1,
        ),
{
}

/// The fill expression of an array construction runs exactly once: the
/// final store is the store after a single evaluation of the fill,
/// extended with `n` references to that one value — however large `n`
/// is, no further effect of the fill expression occurs.
pub proof fn lemma_array_fill_once(
    tyname: Seq<char>,
    n_e: ExprModel,
    fill_e: ExprModel,
    env: EnvModel,
    store: Seq<ValueModel>,
    fuel: nat,
    n: int,
    fill: ValueModel,
)
    requires
        resolve_type(env.types, tyname, env.types.len()) matches Option::Some(
            TypeModel::Array(_),
        ),
        eval_expr(n_e, env, store, fuel).0 == Result::<ValueModel, EvalSignal>::Ok(
            ValueModel::VNum(n),
        ),
        n >= 0,
        eval_expr(fill_e, env, eval_expr(n_e, env, store, fuel).1, fuel).0 == Result::<
            ValueModel,
            EvalSignal,
        >::Ok(fill),
    ensures
        ({
            let s1 = eval_expr(n_e, env, store, fuel).1;
            let s2 = eval_expr(fill_e, env, s1, fuel).1;
            eval_expr(
                ExprModel::NewArray(tyname, Box::new(n_e), Box::new(fill_e)),
                env,
                store,
                fuel,
            ) == (
                Result::<ValueModel, EvalSignal>::Ok(ValueModel::VArr(fresh_locs(s2.len(), n as nat))),
                s2 + repeated(fill, n as nat),
            )
        }),
{
}

} // verus!
