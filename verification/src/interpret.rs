//! The executable evaluator.
//!
//! Every function here is proved to return exactly what the spec-level
//! semantics in `semantics` says: `f_sub` agrees with `eval_expr`, the
//! environment operations agree with `bind_var`, `bind_fun`, `bind_type`
//! and `lookup_assoc`, and the top-level `f` agrees with `run_program`.
//!
//! The environment is a value: extending it copies the association
//! vectors, so an inner scope can never disturb the bindings an outer
//! scope still holds.  Mutation happens only in the store (`Vec<Value>`),
//! and only through `update_var` and l-value assignment.
use vstd::prelude::*;

use crate::ast::clone_type;
use crate::ast::clone_type_fields;
use crate::ast::view_dec;
use crate::ast::view_decs;
use crate::ast::view_expr;
use crate::ast::view_exprs;
use crate::ast::view_fields;
use crate::ast::view_locs;
use crate::ast::view_lvalue;
use crate::ast::view_rec_fields;
use crate::ast::view_type;
use crate::ast::view_type_fields;
use crate::ast::view_value;
use crate::ast::Dec;
use crate::ast::Expr;
use crate::ast::ExprModel;
use crate::ast::FunDec;
use crate::ast::FunDecModel;
use crate::ast::LValue;
use crate::ast::Op;
use crate::ast::Type;
use crate::ast::TypeField;
use crate::ast::TypeModel;
use crate::ast::Value;
use crate::ast::ValueModel;
use crate::semantics::bind_fun;
use crate::semantics::fresh_locs;
use crate::semantics::rec_handle;
use crate::semantics::repeated;
use crate::semantics::bind_params;
use crate::semantics::bind_type;
use crate::semantics::bind_var;
use crate::semantics::empty_env;
use crate::semantics::eval_args;
use crate::semantics::eval_dec;
use crate::semantics::eval_decs;
use crate::semantics::eval_do;
use crate::semantics::eval_expr;
use crate::semantics::eval_for;
use crate::semantics::eval_lvalue;
use crate::semantics::eval_op;
use crate::semantics::eval_seq;
use crate::semantics::eval_struct_fields;
use crate::semantics::arith_val;
use crate::semantics::crop64;
use crate::semantics::is_arith_op;
use crate::semantics::lookup_assoc;
use crate::semantics::read_var;
use crate::semantics::resolve_type;
use crate::semantics::run_program;
use crate::semantics::trunc_div;
use crate::semantics::type_check_val;
use crate::semantics::val_eq;
use crate::semantics::EnvModel;
use crate::semantics::EvalErr;
use crate::semantics::EvalSignal;

verus! {

/// The evaluation environment: three independent namespaces.  Each is an
/// association vector searched from its end, so pushing an entry shadows
/// every earlier entry with the same name.  Variables map to store
/// locations, never directly to values.
pub struct Env {
    pub vars: Vec<(String, usize)>,
    pub funs: Vec<(String, FunDec)>,
    pub types: Vec<(String, Type)>,
}

/// The model of a variable namespace.
pub open spec fn view_var_entries(s: Seq<(String, usize)>) -> Seq<(Seq<char>, nat)> {
    Seq::new(s.len(), |i: int| (s[i].0@, s[i].1 as nat))
}

/// The model of one stored function declaration.
pub open spec fn view_fun_dec(fd: FunDec) -> FunDecModel {
    (fd.0@, view_type_fields(fd.1@), view_opt_name(fd.2), view_expr(fd.3))
}

/// The model of an optional type name.
pub open spec fn view_opt_name(o: Option<String>) -> Option<Seq<char>> {
    match o {
        Option::Some(s) => Option::Some(s@),
        Option::None => Option::None,
    }
}

/// The model of a function namespace.
pub open spec fn view_fun_entries(s: Seq<(String, FunDec)>) -> Seq<(Seq<char>, FunDecModel)> {
    Seq::new(s.len(), |i: int| (s[i].0@, view_fun_dec(s[i].1)))
}

/// The model of a type namespace.
pub open spec fn view_type_entries(s: Seq<(String, Type)>) -> Seq<(Seq<char>, TypeModel)> {
    Seq::new(s.len(), |i: int| (s[i].0@, view_type(s[i].1)))
}

impl View for Env {
    type V = EnvModel;

    open spec fn view(&self) -> EnvModel {
        EnvModel {
            vars: view_var_entries(self.vars@),
            funs: view_fun_entries(self.funs@),
            types: view_type_entries(self.types@),
        }
    }
}

/// The model of the store: each value replaced by its model.
pub open spec fn view_store(s: Seq<Value>) -> Seq<ValueModel> {
    Seq::new(s.len(), |i: int| view_value(s[i]))
}

/// Appending to the store appends to its model.
pub broadcast proof fn lemma_view_store_push(s: Seq<Value>, v: Value)
    ensures
        #[trigger] view_store(s.push(v)) == view_store(s).push(view_value(v)),
{
    assert(view_store(s.push(v)) =~= view_store(s).push(view_value(v)));
}

/// Overwriting one store location overwrites the same model location.
pub broadcast proof fn lemma_view_store_update(s: Seq<Value>, i: int, v: Value)
    requires
        0 <= i < s.len(),
    ensures
        #[trigger] view_store(s.update(i, v)) == view_store(s).update(i, view_value(v)),
{
    assert(view_store(s.update(i, v)) =~= view_store(s).update(i, view_value(v)));
}

/// Copies a runtime value.  Heap values copy their location lists, not
/// the locations' contents, so the copy aliases the same heap object.
pub fn clone_value(v: &Value) -> (r: Value)
    ensures
        r@ == v@,
{
    match v {
        Value::VNum(i) => Value::VNum(*i),
        Value::VStr(s) => Value::VStr(s.clone()),
        Value::VNil => Value::VNil,
        Value::VRec(fs) => {
            let mut out: Vec<(String, usize)> = Vec::new();
            let mut i: usize = 0;
            while i < fs.len()
                invariant
                    i <= fs@.len(),
                    out@.len() == i,
                    forall|j: int|
                        0 <= j < i ==> out@[j].0@ == fs@[j].0@ && out@[j].1 == fs@[j].1,
                decreases fs@.len() - i,
            {
                out.push((fs[i].0.clone(), fs[i].1));
                i = i + 1;
            }
            proof {
                assert(view_rec_fields(out@) =~= view_rec_fields(fs@));
            }
            Value::VRec(out)
        },
        Value::VArr(ls) => {
            let mut out: Vec<usize> = Vec::new();
            let mut i: usize = 0;
            while i < ls.len()
                invariant
                    i <= ls@.len(),
                    out@.len() == i,
                    forall|j: int| 0 <= j < i ==> out@[j] == ls@[j],
                decreases ls@.len() - i,
            {
                out.push(ls[i]);
                i = i + 1;
            }
            proof {
                assert(view_locs(out@) =~= view_locs(ls@));
            }
            Value::VArr(out)
        },
    }
}

/// Copies an optional type name.
pub fn clone_opt_name(o: &Option<String>) -> (r: Option<String>)
    ensures
        view_opt_name(r) == view_opt_name(*o),
{
    match o {
        Option::Some(s) => Option::Some(s.clone()),
        Option::None => Option::None,
    }
}

/// Copies an expression tree.
pub fn clone_expr(e: &Expr) -> (r: Expr)
    ensures
        r@ == e@,
    decreases *e, 1nat,
{
    match e {
        Expr::Num(i) => Expr::Num(*i),
        Expr::Str(s) => Expr::Str(s.clone()),
        Expr::Var(s) => Expr::Var(s.clone()),
        Expr::LVal(l) => Expr::LVal(clone_lvalue(l)),
        Expr::Neg(e1) => Expr::Neg(Box::new(clone_expr(e1))),
        Expr::OpNode(op, e1, e2) => Expr::OpNode(
            *op,
            Box::new(clone_expr(e1)),
            Box::new(clone_expr(e2)),
        ),
        Expr::IfNode(c, t, f) => Expr::IfNode(
            Box::new(clone_expr(c)),
            Box::new(clone_expr(t)),
            Box::new(clone_expr(f)),
        ),
        Expr::Nil => Expr::Nil,
        Expr::LAsgn(l, e1) => Expr::LAsgn(clone_lvalue(l), Box::new(clone_expr(e1))),
        Expr::Sequence(es) => Expr::Sequence(clone_exprs(es)),
        Expr::Let(ds, b) => Expr::Let(clone_decs(ds), Box::new(clone_expr(b))),
        Expr::For(x, st, en, b) => Expr::For(
            x.clone(),
            Box::new(clone_expr(st)),
            Box::new(clone_expr(en)),
            Box::new(clone_expr(b)),
        ),
        Expr::Do(c, b) => Expr::Do(Box::new(clone_expr(c)), Box::new(clone_expr(b))),
        Expr::FunApp(name, es) => Expr::FunApp(name.clone(), clone_exprs(es)),
        Expr::NewStruct(t, fs) => Expr::NewStruct(t.clone(), clone_fields(fs)),
        Expr::NewArray(t, n, e1) => Expr::NewArray(
            t.clone(),
            Box::new(clone_expr(n)),
            Box::new(clone_expr(e1)),
        ),
        Expr::Break => Expr::Break,
    }
}

/// Copies a list of expressions.
pub fn clone_exprs(es: &Vec<Expr>) -> (r: Vec<Expr>)
    ensures
        view_exprs(r@) == view_exprs(es@),
    decreases *es, 0nat,
{
    let mut out: Vec<Expr> = Vec::new();
    let mut i: usize = 0;
    proof {
        assert(es@.take(0) =~= Seq::<Expr>::empty());
    }
    while i < es.len()
        invariant
            i <= es@.len(),
            view_exprs(out@) == view_exprs(es@.take(i as int)),
        decreases es@.len() - i,
    {
        proof {
            assert(decreases_to!(*es, 0nat => es@[i as int], 1nat));
        }
        let c = clone_expr(&es[i]);
        proof {
            broadcast use crate::ast::lemma_view_exprs_push;

            let t1 = es@.take(i + 1);
            assert(t1.drop_last() =~= es@.take(i as int));
            assert(t1.last() == es@[i as int]);
        }
        out.push(c);
        i = i + 1;
    }
    proof {
        assert(es@.take(es@.len() as int) =~= es@);
    }
    out
}

/// Copies a list of record field initializers.
pub fn clone_fields(fs: &Vec<(String, Expr)>) -> (r: Vec<(String, Expr)>)
    ensures
        view_fields(r@) == view_fields(fs@),
    decreases *fs, 0nat,
{
    let mut out: Vec<(String, Expr)> = Vec::new();
    let mut i: usize = 0;
    proof {
        assert(fs@.take(0) =~= Seq::<(String, Expr)>::empty());
    }
    while i < fs.len()
        invariant
            i <= fs@.len(),
            view_fields(out@) == view_fields(fs@.take(i as int)),
        decreases fs@.len() - i,
    {
        proof {
            assert(decreases_to!(*fs, 0nat => fs@[i as int].1, 1nat));
        }
        let c = clone_expr(&fs[i].1);
        let name = fs[i].0.clone();
        proof {
            broadcast use crate::ast::lemma_view_fields_push;

            let t1 = fs@.take(i + 1);
            assert(t1.drop_last() =~= fs@.take(i as int));
            assert(t1.last() == fs@[i as int]);
        }
        out.push((name, c));
        i = i + 1;
    }
    proof {
        assert(fs@.take(fs@.len() as int) =~= fs@);
    }
    out
}

/// Copies an l-value.
pub fn clone_lvalue(l: &LValue) -> (r: LValue)
    ensures
        r@ == l@,
    decreases *l, 1nat,
{
    match l {
        LValue::Id(s) => LValue::Id(s.clone()),
        LValue::Mem(b, f) => LValue::Mem(Box::new(clone_lvalue(b)), f.clone()),
        LValue::Idx(b, e) => LValue::Idx(Box::new(clone_lvalue(b)), Box::new(clone_expr(e))),
    }
}

/// Copies one declaration.
pub fn clone_dec(d: &Dec) -> (r: Dec)
    ensures
        d@ == r@,
    decreases *d, 1nat,
{
    match d {
        Dec::Type(name, t) => Dec::Type(name.clone(), clone_type(t)),
        Dec::Var(name, ot, e) => Dec::Var(name.clone(), clone_opt_name(ot), clone_expr(e)),
        Dec::Fun(name, params, ot, body) => Dec::Fun(
            name.clone(),
            clone_type_fields(params),
            clone_opt_name(ot),
            clone_expr(body),
        ),
    }
}

/// Copies a list of declarations.
pub fn clone_decs(ds: &Vec<Dec>) -> (r: Vec<Dec>)
    ensures
        view_decs(r@) == view_decs(ds@),
    decreases *ds, 0nat,
{
    let mut out: Vec<Dec> = Vec::new();
    let mut i: usize = 0;
    proof {
        assert(ds@.take(0) =~= Seq::<Dec>::empty());
    }
    while i < ds.len()
        invariant
            i <= ds@.len(),
            view_decs(out@) == view_decs(ds@.take(i as int)),
        decreases ds@.len() - i,
    {
        proof {
            assert(decreases_to!(*ds, 0nat => ds@[i as int], 1nat));
        }
        let c = clone_dec(&ds[i]);
        proof {
            broadcast use crate::ast::lemma_view_decs_push;

            let t1 = ds@.take(i + 1);
            assert(t1.drop_last() =~= ds@.take(i as int));
            assert(t1.last() == ds@[i as int]);
        }
        out.push(c);
        i = i + 1;
    }
    proof {
        assert(ds@.take(ds@.len() as int) =~= ds@);
    }
    out
}

/// Copies a variable namespace.
pub fn clone_var_entries(vs: &Vec<(String, usize)>) -> (r: Vec<(String, usize)>)
    ensures
        view_var_entries(r@) == view_var_entries(vs@),
{
    let mut out: Vec<(String, usize)> = Vec::new();
    let mut i: usize = 0;
    while i < vs.len()
        invariant
            i <= vs@.len(),
            out@.len() == i,
            forall|j: int| 0 <= j < i ==> out@[j].0@ == vs@[j].0@ && out@[j].1 == vs@[j].1,
        decreases vs@.len() - i,
    {
        out.push((vs[i].0.clone(), vs[i].1));
        i = i + 1;
    }
    proof {
        assert(view_var_entries(out@) =~= view_var_entries(vs@));
    }
    out
}

/// Copies a function namespace.
pub fn clone_fun_entries(fs: &Vec<(String, FunDec)>) -> (r: Vec<(String, FunDec)>)
    ensures
        view_fun_entries(r@) == view_fun_entries(fs@),
{
    let mut out: Vec<(String, FunDec)> = Vec::new();
    let mut i: usize = 0;
    while i < fs.len()
        invariant
            i <= fs@.len(),
            out@.len() == i,
            forall|j: int|
                0 <= j < i ==> (#[trigger] out@[j]).0@ == fs@[j].0@ && out@[j].1.0 == fs@[j].1.0
                    && view_type_fields(out@[j].1.1@) == view_type_fields(fs@[j].1.1@)
                    && view_opt_name(out@[j].1.2) == view_opt_name(fs@[j].1.2) && view_expr(
                    out@[j].1.3,
                ) == view_expr(fs@[j].1.3),
        decreases fs@.len() - i,
    {
        let fd = &fs[i].1;
        let copy: FunDec = (
            fd.0.clone(),
            clone_type_fields(&fd.1),
            clone_opt_name(&fd.2),
            clone_expr(&fd.3),
        );
        out.push((fs[i].0.clone(), copy));
        i = i + 1;
    }
    proof {
        assert(view_fun_entries(out@) =~= view_fun_entries(fs@));
    }
    out
}

/// Copies a type namespace.
pub fn clone_type_entries(ts: &Vec<(String, Type)>) -> (r: Vec<(String, Type)>)
    ensures
        view_type_entries(r@) == view_type_entries(ts@),
{
    let mut out: Vec<(String, Type)> = Vec::new();
    let mut i: usize = 0;
    while i < ts.len()
        invariant
            i <= ts@.len(),
            out@.len() == i,
            forall|j: int|
                0 <= j < i ==> out@[j].0@ == ts@[j].0@ && view_type(#[trigger] out@[j].1)
                    == view_type(ts@[j].1),
        decreases ts@.len() - i,
    {
        out.push((ts[i].0.clone(), clone_type(&ts[i].1)));
        i = i + 1;
    }
    proof {
        assert(view_type_entries(out@) =~= view_type_entries(ts@));
    }
    out
}

/// Copies an environment.
pub fn clone_env(env: &Env) -> (r: Env)
    ensures
        r@ == env@,
{
    Env {
        vars: clone_var_entries(&env.vars),
        funs: clone_fun_entries(&env.funs),
        types: clone_type_entries(&env.types),
    }
}


/// The model of an evaluator result.
pub open spec fn res_view(r: Result<Value, EvalSignal>) -> Result<ValueModel, EvalSignal> {
    match r {
        Result::Ok(v) => Result::Ok(view_value(v)),
        Result::Err(sig) => Result::Err(sig),
    }
}

/// Searches the first `j` entries of a variable namespace, newest first.
fn find_var_upto(vs: &Vec<(String, usize)>, name: &String, j: usize) -> (r: Option<usize>)
    requires
        j <= vs@.len(),
    ensures
        lookup_assoc(view_var_entries(vs@).take(j as int), name@) == (match r {
            Option::Some(loc) => Option::Some(loc as nat),
            Option::None => Option::<nat>::None,
        }),
    decreases j,
{
    if j == 0 {
        proof {
            assert(view_var_entries(vs@).take(0) =~= Seq::<(Seq<char>, nat)>::empty());
        }
        Option::None
    } else {
        proof {
            let t = view_var_entries(vs@).take(j as int);
            assert(t.last() == (vs@[j - 1].0@, vs@[j - 1].1 as nat));
            assert(t.drop_last() =~= view_var_entries(vs@).take(j - 1));
        }
        let entry = &vs[j - 1];
        if entry.0 == *name {
            Option::Some(entry.1)
        } else {
            find_var_upto(vs, name, j - 1)
        }
    }
}

/// Searches a variable namespace for a name, newest binding first.
pub fn find_var(vs: &Vec<(String, usize)>, name: &str) -> (r: Option<usize>)
    ensures
        lookup_assoc(view_var_entries(vs@), name@) == (match r {
            Option::Some(loc) => Option::Some(loc as nat),
            Option::None => Option::<nat>::None,
        }),
{
    let owned = name.to_owned();
    proof {
        assert(view_var_entries(vs@).take(vs@.len() as int) =~= view_var_entries(vs@));
    }
    find_var_upto(vs, &owned, vs.len())
}

/// Searches the first `j` entries of a function namespace, newest first.
fn find_fun_upto<'a>(fs: &'a Vec<(String, FunDec)>, name: &String, j: usize) -> (r: Option<
    &'a FunDec,
>)
    requires
        j <= fs@.len(),
    ensures
        lookup_assoc(view_fun_entries(fs@).take(j as int), name@) == (match r {
            Option::Some(fd) => Option::Some(view_fun_dec(*fd)),
            Option::None => Option::<FunDecModel>::None,
        }),
    decreases j,
{
    if j == 0 {
        proof {
            assert(view_fun_entries(fs@).take(0) =~= Seq::<(Seq<char>, FunDecModel)>::empty());
        }
        Option::None
    } else {
        proof {
            let t = view_fun_entries(fs@).take(j as int);
            assert(t.last() == (fs@[j - 1].0@, view_fun_dec(fs@[j - 1].1)));
            assert(t.drop_last() =~= view_fun_entries(fs@).take(j - 1));
        }
        let entry = &fs[j - 1];
        if entry.0 == *name {
            Option::Some(&entry.1)
        } else {
            find_fun_upto(fs, name, j - 1)
        }
    }
}

/// Searches a function namespace for a name, newest binding first.
pub fn find_fun<'a>(fs: &'a Vec<(String, FunDec)>, name: &String) -> (r: Option<&'a FunDec>)
    ensures
        lookup_assoc(view_fun_entries(fs@), name@) == (match r {
            Option::Some(fd) => Option::Some(view_fun_dec(*fd)),
            Option::None => Option::<FunDecModel>::None,
        }),
{
    proof {
        assert(view_fun_entries(fs@).take(fs@.len() as int) =~= view_fun_entries(fs@));
    }
    find_fun_upto(fs, name, fs.len())
}

/// Searches the first `j` entries of a type namespace, newest first.
fn find_type_upto<'a>(ts: &'a Vec<(String, Type)>, name: &String, j: usize) -> (r: Option<&'a Type>)
    requires
        j <= ts@.len(),
    ensures
        lookup_assoc(view_type_entries(ts@).take(j as int), name@) == (match r {
            Option::Some(t) => Option::Some(t@),
            Option::None => Option::<TypeModel>::None,
        }),
    decreases j,
{
    if j == 0 {
        proof {
            assert(view_type_entries(ts@).take(0) =~= Seq::<(Seq<char>, TypeModel)>::empty());
        }
        Option::None
    } else {
        proof {
            let t = view_type_entries(ts@).take(j as int);
            assert(t.last() == (ts@[j - 1].0@, view_type(ts@[j - 1].1)));
            assert(t.drop_last() =~= view_type_entries(ts@).take(j - 1));
        }
        let entry = &ts[j - 1];
        if entry.0 == *name {
            Option::Some(&entry.1)
        } else {
            find_type_upto(ts, name, j - 1)
        }
    }
}

/// Searches a type namespace for a name, newest binding first.
pub fn find_type<'a>(ts: &'a Vec<(String, Type)>, name: &String) -> (r: Option<&'a Type>)
    ensures
        lookup_assoc(view_type_entries(ts@), name@) == (match r {
            Option::Some(t) => Option::Some(t@),
            Option::None => Option::<TypeModel>::None,
        }),
{
    proof {
        assert(view_type_entries(ts@).take(ts@.len() as int) =~= view_type_entries(ts@));
    }
    find_type_upto(ts, name, ts.len())
}

/// Reads a variable's current value: the location is looked up in the
/// environment and dereferenced in the store; the caller gets a copy of
/// the value (for a heap value, a copy of the handle).
pub fn get_var(name: &str, env: &Env, varpool: &Vec<Value>) -> (r: Result<Value, EvalSignal>)
    ensures
        res_view(r) == read_var(env@, name@, view_store(varpool@)),
{
    match find_var(&env.vars, name) {
        Option::None => Result::Err(EvalSignal::Error(EvalErr::UnboundName)),
        Option::Some(loc) => if loc < varpool.len() {
            Result::Ok(clone_value(&varpool[loc]))
        } else {
            Result::Err(EvalSignal::Error(EvalErr::UnboundName))
        },
    }
}

/// Binds a name to a fresh store location holding `val`, and returns the
/// extended environment.  Even if the name is already bound, the old
/// location is left untouched: the new binding shadows it.
pub fn define_var(name: &str, val: Value, env: &Env, varpool: &mut Vec<Value>) -> (r: Env)
    ensures
        (r@, view_store(final(varpool)@)) == bind_var(
            env@,
            name@,
            val@,
            view_store(old(varpool)@),
        ),
{
    let ghost gval = val;
    let mut vars2 = clone_var_entries(&env.vars);
    let loc = varpool.len();
    vars2.push((name.to_owned(), loc));
    varpool.push(val);
    let r = Env {
        vars: vars2,
        funs: clone_fun_entries(&env.funs),
        types: clone_type_entries(&env.types),
    };
    proof {
        assert(view_store(varpool@) =~= view_store(old(varpool)@).push(view_value(gval)));
        assert(view_var_entries(r.vars@) =~= env@.vars.push(
            (name@, view_store(old(varpool)@).len()),
        ));
    }
    r
}

/// Overwrites the existing store location of a bound name.  This is how
/// loop counters and mutable bindings change without re-binding; an
/// unbound name is an error and leaves the store as it was.
pub fn update_var(name: &str, val: Value, env: &Env, varpool: &mut Vec<Value>) -> (r: Result<
    (),
    EvalSignal,
>)
    ensures
        match lookup_assoc(env@.vars, name@) {
            Option::Some(loc) => if loc < old(varpool)@.len() {
                r is Ok && view_store(final(varpool)@) == view_store(old(varpool)@).update(
                    loc as int,
                    val@,
                )
            } else {
                r == Result::<(), EvalSignal>::Err(EvalSignal::Error(EvalErr::UnboundName))
                    && final(varpool)@ == old(varpool)@
            },
            Option::None => r == Result::<(), EvalSignal>::Err(
                EvalSignal::Error(EvalErr::UnboundName),
            ) && final(varpool)@ == old(varpool)@,
        },
{
    let ghost gval = val;
    match find_var(&env.vars, name) {
        Option::None => Result::Err(EvalSignal::Error(EvalErr::UnboundName)),
        Option::Some(loc) => if loc < varpool.len() {
            varpool.set(loc, val);
            proof {
                assert(view_store(varpool@) =~= view_store(old(varpool)@).update(
                    loc as int,
                    view_value(gval),
                ));
            }
            Result::Ok(())
        } else {
            Result::Err(EvalSignal::Error(EvalErr::UnboundName))
        },
    }
}

/// Adds a function declaration to the environment's function namespace,
/// shadowing any earlier declaration of the same name.
pub fn define_fun(
    name: &str,
    args: &Vec<TypeField>,
    opt_ty: &Option<String>,
    body: &Expr,
    env: &Env,
) -> (r: Env)
    ensures
        r@ == bind_fun(
            env@,
            name@,
            (name@, view_type_fields(args@), view_opt_name(*opt_ty), body@),
        ),
{
    let mut funs2 = clone_fun_entries(&env.funs);
    let dec: FunDec = (name.to_owned(), clone_type_fields(args), clone_opt_name(opt_ty), clone_expr(
        body,
    ));
    let ghost gdec = dec;
    funs2.push((name.to_owned(), dec));
    let r = Env {
        vars: clone_var_entries(&env.vars),
        funs: funs2,
        types: clone_type_entries(&env.types),
    };
    proof {
        assert(view_fun_dec(gdec) == (
            name@,
            view_type_fields(args@),
            view_opt_name(*opt_ty),
            view_expr(*body),
        ));
        assert(view_fun_entries(r.funs@) =~= env@.funs.push((name@, view_fun_dec(gdec))));
    }
    r
}

/// Adds a type declaration to the environment's type namespace,
/// shadowing any earlier declaration of the same name.
pub fn define_type(name: &str, t: &Type, env: &Env) -> (r: Env)
    ensures
        r@ == bind_type(env@, name@, t@),
{
    let mut types2 = clone_type_entries(&env.types);
    let copy = clone_type(t);
    let ghost gcopy = copy;
    types2.push((name.to_owned(), copy));
    let r = Env {
        vars: clone_var_entries(&env.vars),
        funs: clone_fun_entries(&env.funs),
        types: types2,
    };
    proof {
        assert(view_type_entries(r.types@) =~= env@.types.push((name@, view_type(gcopy))));
    }
    r
}


/// `crop64` is the identity on the signed 64-bit range.
proof fn lemma_crop64_id(x: int)
    requires
        -0x8000000000000000 <= x <= 0x7fffffffffffffff,
    ensures
        crop64(x) == x,
{
    let m = 0x10000000000000000int;
    if x >= 0 {
        vstd::arithmetic::div_mod::lemma_small_mod(x as nat, m as nat);
    } else {
        vstd::arithmetic::div_mod::lemma_mod_add_multiples_vanish(x, m);
        vstd::arithmetic::div_mod::lemma_small_mod((x + m) as nat, m as nat);
    }
}

/// `crop64` subtracts one period from a value just above the range.
proof fn lemma_crop64_hi(x: int)
    requires
        0x7fffffffffffffff < x < 0x10000000000000000,
    ensures
        crop64(x) == x - 0x10000000000000000,
{
    let m = 0x10000000000000000int;
    vstd::arithmetic::div_mod::lemma_small_mod(x as nat, m as nat);
}

/// `crop64` adds one period to a value just below the range.
proof fn lemma_crop64_lo(x: int)
    requires
        -0x10000000000000000 <= x < -0x8000000000000000,
    ensures
        crop64(x) == x + 0x10000000000000000,
{
    let m = 0x10000000000000000int;
    vstd::arithmetic::div_mod::lemma_mod_add_multiples_vanish(x, m);
    vstd::arithmetic::div_mod::lemma_small_mod((x + m) as nat, m as nat);
}

/// Wrapping 64-bit addition, exactly `crop64` of the exact sum.
fn add64(a: i64, b: i64) -> (r: i64)
    ensures
        r as int == crop64(a + b),
{
    proof {
        if a + b > i64::MAX {
            lemma_crop64_hi(a + b);
        } else if a + b < i64::MIN {
            lemma_crop64_lo(a + b);
        } else {
            lemma_crop64_id(a + b);
        }
    }
    a.wrapping_add(b)
}

/// Wrapping 64-bit subtraction, exactly `crop64` of the exact difference.
fn sub64(a: i64, b: i64) -> (r: i64)
    ensures
        r as int == crop64(a - b),
{
    proof {
        if a - b > i64::MAX {
            lemma_crop64_hi(a - b);
        } else if a - b < i64::MIN {
            lemma_crop64_lo(a - b);
        } else {
            lemma_crop64_id(a - b);
        }
    }
    a.wrapping_sub(b)
}

/// Wrapping 64-bit multiplication, exactly `crop64` of the exact product.
fn mul64(a: i64, b: i64) -> (r: i64)
    ensures
        r as int == crop64(a * b),
{
    a.wrapping_mul(b)
}

/// Bounds of truncated division: the quotient of 64-bit operands stays
/// in range except for the one overflowing case, whose quotient is
/// exactly one past the top.
proof fn lemma_trunc_div_cases(x: int, d: int)
    requires
        d != 0,
        -0x8000000000000000 <= x <= 0x7fffffffffffffff,
        -0x8000000000000000 <= d <= 0x7fffffffffffffff,
    ensures
        x == -0x8000000000000000 && d == -1 ==> trunc_div(x, d) == 0x8000000000000000,
        !(x == -0x8000000000000000 && d == -1) ==> -0x8000000000000000 <= trunc_div(x, d)
            <= 0x7fffffffffffffff,
{
    broadcast use vstd::arithmetic::div_mod::lemma_div_basics_2;
    broadcast use vstd::arithmetic::div_mod::lemma_div_basics_4;
    broadcast use vstd::arithmetic::div_mod::lemma_div_basics_5;

    let ax = if x < 0 { x * -1 } else { x };
    let ad = if d < 0 { d * -1 } else { d };
    if x != 0 && ad >= 2 {
        vstd::arithmetic::div_mod::lemma_div_is_strictly_smaller(ax, ad);
    }
}

/// Truncating 64-bit division with wrap-around at the single
/// overflowing quotient, as the host's native division behaves under
/// wrapping semantics.  The divisor must not be zero.
fn div64(a: i64, b: i64) -> (r: i64)
    requires
        b != 0,
    ensures
        r as int == crop64(trunc_div(a as int, b as int)),
{
    proof {
        lemma_trunc_div_cases(a as int, b as int);
    }
    if a == i64::MIN && b == -1 {
        proof {
            lemma_crop64_hi(0x8000000000000000int);
        }
        i64::MIN
    } else {
        match a.checked_div(b) {
            Option::Some(q) => {
                proof {
                    lemma_crop64_id(q as int);
                }
                q
            },
            Option::None => {
                proof {
                    assert(false);
                }
                0
            },
        }
    }
}

/// Applies one of the eight integer operators: wrapping arithmetic, or
/// a comparison yielding 1 or 0.  Division demands a nonzero divisor;
/// the evaluator reports `DivisionByZero` before calling this.
pub fn arithmetic(op: Op, v1: i64, v2: i64) -> (r: i64)
    ensures
        is_arith_op(op) && (op is Div ==> v2 != 0) ==> r as int == arith_val(
            op,
            v1 as int,
            v2 as int,
        ),
{
    match op {
        Op::Add => add64(v1, v2),
        Op::Sub => sub64(v1, v2),
        Op::Mul => mul64(v1, v2),
        Op::Div => if v2 != 0 {
            div64(v1, v2)
        } else {
            0
        },
        Op::Lt => if v1 < v2 {
            1
        } else {
            0
        },
        Op::Gt => if v1 > v2 {
            1
        } else {
            0
        },
        Op::Le => if v1 <= v2 {
            1
        } else {
            0
        },
        Op::Ge => if v1 >= v2 {
            1
        } else {
            0
        },
        _ => 0,
    }
}

/// Follows type aliases to a primitive name, record shape or array
/// shape, agreeing with the spec-level `resolve_type`.
pub fn resolve_type_shape(types: &Vec<(String, Type)>, name: &str, hops: usize) -> (r: Option<
    Type,
>)
    ensures
        match r {
            Option::Some(t) => resolve_type(view_type_entries(types@), name@, hops as nat)
                == Option::Some(t@),
            Option::None => resolve_type(view_type_entries(types@), name@, hops as nat) is None,
        },
    decreases hops,
{
    let owned = name.to_owned();
    if owned == "int".to_owned() || owned == "string".to_owned() {
        Option::Some(Type::Id(owned))
    } else {
        match find_type(types, &owned) {
            Option::None => Option::None,
            Option::Some(t) => match t {
                Type::Id(other) => if hops == 0 {
                    Option::None
                } else {
                    resolve_type_shape(types, other.as_str(), hops - 1)
                },
                _ => Option::Some(clone_type(t)),
            },
        }
    }
}

/// Checks a value's runtime kind against a declared type name in the
/// given environment, agreeing with the spec-level `type_check_val`.
pub fn type_check(val: &Value, ty: &str, env: &Env) -> (r: Result<(), EvalSignal>)
    ensures
        r == type_check_val(val@, ty@, env@.types),
{
    match resolve_type_shape(&env.types, ty, env.types.len()) {
        Option::None => Result::Err(EvalSignal::Error(EvalErr::UnboundName)),
        Option::Some(shape) => {
            let ok = match shape {
                Type::Id(n) => if n == "int".to_owned() {
                    matches!(val, Value::VNum(_))
                } else {
                    matches!(val, Value::VStr(_))
                },
                Type::Field(_) => matches!(val, Value::VRec(_)),
                Type::Array(_) => matches!(val, Value::VArr(_)),
            };
            if ok {
                Result::Ok(())
            } else {
                Result::Err(EvalSignal::Error(EvalErr::TypeMismatch))
            }
        },
    }
}

/// Compares two record handles field by field.
fn rec_fields_eq(x: &Vec<(String, usize)>, y: &Vec<(String, usize)>) -> (r: bool)
    ensures
        r == (view_value(Value::VRec(*x)) == view_value(Value::VRec(*y))),
{
    if x.len() != y.len() {
        proof {
            assert(view_rec_fields(x@).len() != view_rec_fields(y@).len());
        }
        return false;
    }
    let mut i: usize = 0;
    while i < x.len()
        invariant
            i <= x@.len(),
            x@.len() == y@.len(),
            forall|j: int| 0 <= j < i ==> view_rec_fields(x@)[j] == view_rec_fields(y@)[j],
        decreases x@.len() - i,
    {
        let ex = &x[i];
        let ey = &y[i];
        if !(ex.0 == ey.0) || ex.1 != ey.1 {
            proof {
                assert(view_rec_fields(x@)[i as int] != view_rec_fields(y@)[i as int]);
            }
            return false;
        }
        i = i + 1;
    }
    proof {
        assert(view_rec_fields(x@) =~= view_rec_fields(y@));
    }
    true
}

/// Compares two array handles location by location.
fn arr_locs_eq(x: &Vec<usize>, y: &Vec<usize>) -> (r: bool)
    ensures
        r == (view_value(Value::VArr(*x)) == view_value(Value::VArr(*y))),
{
    if x.len() != y.len() {
        proof {
            assert(view_locs(x@).len() != view_locs(y@).len());
        }
        return false;
    }
    let mut i: usize = 0;
    while i < x.len()
        invariant
            i <= x@.len(),
            x@.len() == y@.len(),
            forall|j: int| 0 <= j < i ==> view_locs(x@)[j] == view_locs(y@)[j],
        decreases x@.len() - i,
    {
        if x[i] != y[i] {
            proof {
                assert(view_locs(x@)[i as int] != view_locs(y@)[i as int]);
            }
            return false;
        }
        i = i + 1;
    }
    proof {
        assert(view_locs(x@) =~= view_locs(y@));
    }
    true
}

/// Structural equality of two runtime values, agreeing with the
/// spec-level `val_eq`: equal kinds with equal contents; heap values
/// are equal when they are the same object.
pub fn value_eq(a: &Value, b: &Value) -> (r: bool)
    ensures
        r == val_eq(a@, b@),
{
    match (a, b) {
        (Value::VNum(x), Value::VNum(y)) => *x == *y,
        (Value::VStr(x), Value::VStr(y)) => *x == *y,
        (Value::VNil, Value::VNil) => true,
        (Value::VRec(x), Value::VRec(y)) => rec_fields_eq(x, y),
        (Value::VArr(x), Value::VArr(y)) => arr_locs_eq(x, y),
        _ => false,
    }
}


/// Resolves an l-value to a store location, agreeing with the
/// spec-level `eval_lvalue`.
pub fn run_lvalue(l: &LValue, env: &Env, varpool: &mut Vec<Value>, fuel: u64) -> (r: Result<
    usize,
    EvalSignal,
>)
    ensures
        ({
            let out = eval_lvalue(l@, env@, view_store(old(varpool)@), fuel as nat);
            view_store(final(varpool)@) == out.1 && (match r {
                Result::Ok(loc) => out.0 == Result::<nat, EvalSignal>::Ok(loc as nat),
                Result::Err(sig) => out.0 == Result::<nat, EvalSignal>::Err(sig),
            })
        }),
    decreases fuel, *l, 0nat,
{
    broadcast use lemma_view_store_push, lemma_view_store_update;

    match l {
        LValue::Id(x) => match find_var(&env.vars, x.as_str()) {
            Option::None => Result::Err(EvalSignal::Error(EvalErr::UnboundName)),
            Option::Some(loc) => Result::Ok(loc),
        },
        LValue::Mem(b, fname) => {
            match run_lvalue(b, env, varpool, fuel) {
                Result::Err(sig) => Result::Err(sig),
                Result::Ok(loc) => if loc < varpool.len() {
                    let base = clone_value(&varpool[loc]);
                    match base {
                        Value::VRec(fields) => {
                            proof {
                                assert(view_var_entries(fields@) =~= view_rec_fields(fields@));
                            }
                            match find_var(&fields, fname.as_str()) {
                                Option::None => Result::Err(
                                    EvalSignal::Error(EvalErr::UnknownField),
                                ),
                                Option::Some(floc) => Result::Ok(floc),
                            }
                        },
                        _ => Result::Err(EvalSignal::Error(EvalErr::TypeMismatch)),
                    }
                } else {
                    Result::Err(EvalSignal::Error(EvalErr::UnboundName))
                },
            }
        },
        LValue::Idx(b, ie) => {
            match run_lvalue(b, env, varpool, fuel) {
                Result::Err(sig) => Result::Err(sig),
                Result::Ok(loc) => if loc < varpool.len() {
                    let base = clone_value(&varpool[loc]);
                    match base {
                        Value::VArr(locs) => {
                            proof {
                                assert(decreases_to!(fuel, *l, 0nat => fuel, **ie, 1nat));
                            }
                            match f_sub(ie, env, varpool, fuel) {
                                Result::Err(sig) => Result::Err(sig),
                                Result::Ok(iv) => match iv {
                                    Value::VNum(i) => if 0 <= i && (i as u64) < (locs.len()
                                        as u64) {
                                        Result::Ok(locs[i as usize])
                                    } else {
                                        Result::Err(EvalSignal::Error(EvalErr::IndexOutOfBounds))
                                    },
                                    _ => Result::Err(EvalSignal::Error(EvalErr::TypeMismatch)),
                                },
                            }
                        },
                        _ => Result::Err(EvalSignal::Error(EvalErr::TypeMismatch)),
                    }
                } else {
                    Result::Err(EvalSignal::Error(EvalErr::UnboundName))
                },
            }
        },
    }
}

/// Evaluates the elements of a sequence from position `i` on, keeping
/// the last value, agreeing with the spec-level `eval_seq`.
fn run_seq(es: &Vec<Expr>, i: usize, env: &Env, varpool: &mut Vec<Value>, fuel: u64) -> (r: Result<
    Value,
    EvalSignal,
>)
    requires
        i <= es@.len(),
    ensures
        ({
            let out = eval_seq(
                view_exprs(es@).skip(i as int),
                env@,
                view_store(old(varpool)@),
                fuel as nat,
            );
            res_view(r) == out.0 && view_store(final(varpool)@) == out.1
        }),
    decreases fuel, *es, es@.len() - i,
{
    broadcast use crate::ast::lemma_view_exprs_len, crate::ast::lemma_view_exprs_index;

    if i == es.len() {
        Result::Ok(Value::VNil)
    } else {
        proof {
            assert(decreases_to!(fuel, *es, es@.len() - i => fuel, es@[i as int], 1nat));
            assert(view_exprs(es@).skip(i as int).first() == view_expr(es@[i as int]));
        }
        let r1 = f_sub(&es[i], env, varpool, fuel);
        match r1 {
            Result::Err(sig) => Result::Err(sig),
            Result::Ok(v) => if i + 1 == es.len() {
                Result::Ok(v)
            } else {
                proof {
                    assert(view_exprs(es@).skip(i as int).drop_first() =~= view_exprs(
                        es@,
                    ).skip(i + 1));
                }
                run_seq(es, i + 1, env, varpool, fuel)
            },
        }
    }
}

/// Processes one declaration, agreeing with the spec-level `eval_dec`.
fn run_dec(d: &Dec, env: &Env, varpool: &mut Vec<Value>, fuel: u64) -> (r: Result<Env, EvalSignal>)
    ensures
        ({
            let out = eval_dec(d@, env@, view_store(old(varpool)@), fuel as nat);
            view_store(final(varpool)@) == out.1 && (match r {
                Result::Ok(env2) => out.0 == Result::<EnvModel, EvalSignal>::Ok(env2@),
                Result::Err(sig) => out.0 == Result::<EnvModel, EvalSignal>::Err(sig),
            })
        }),
    decreases fuel, *d, 1nat,
{
    match d {
        Dec::Type(name, t) => Result::Ok(define_type(name.as_str(), t, env)),
        Dec::Fun(name, params, ot, body) => Result::Ok(
            define_fun(name.as_str(), params, ot, body, env),
        ),
        Dec::Var(name, ot, init) => {
            match f_sub(init, env, varpool, fuel) {
                Result::Err(sig) => Result::Err(sig),
                Result::Ok(v) => {
                    let checked = match ot {
                        Option::None => Result::Ok(()),
                        Option::Some(ty) => type_check(&v, ty.as_str(), env),
                    };
                    match checked {
                        Result::Err(sig) => Result::Err(sig),
                        Result::Ok(_) => Result::Ok(define_var(name.as_str(), v, env, varpool)),
                    }
                },
            }
        },
    }
}

/// Processes the declarations of a `let` from position `i` on, growing
/// the environment, agreeing with the spec-level `eval_decs`.
fn run_decs(ds: &Vec<Dec>, i: usize, env: Env, varpool: &mut Vec<Value>, fuel: u64) -> (r: Result<
    Env,
    EvalSignal,
>)
    requires
        i <= ds@.len(),
    ensures
        ({
            let out = eval_decs(
                view_decs(ds@).skip(i as int),
                env@,
                view_store(old(varpool)@),
                fuel as nat,
            );
            view_store(final(varpool)@) == out.1 && (match r {
                Result::Ok(env2) => out.0 == Result::<EnvModel, EvalSignal>::Ok(env2@),
                Result::Err(sig) => out.0 == Result::<EnvModel, EvalSignal>::Err(sig),
            })
        }),
    decreases fuel, *ds, ds@.len() - i,
{
    broadcast use crate::ast::lemma_view_decs_len, crate::ast::lemma_view_decs_index;

    if i == ds.len() {
        Result::Ok(env)
    } else {
        proof {
            assert(decreases_to!(fuel, *ds, ds@.len() - i => fuel, ds@[i as int], 1nat));
            assert(view_decs(ds@).skip(i as int).first() == view_dec(ds@[i as int]));
        }
        match run_dec(&ds[i], &env, varpool, fuel) {
            Result::Err(sig) => Result::Err(sig),
            Result::Ok(env1) => {
                proof {
                    assert(view_decs(ds@).skip(i as int).drop_first() =~= view_decs(ds@).skip(
                        i + 1,
                    ));
                }
                run_decs(ds, i + 1, env1, varpool, fuel)
            },
        }
    }
}

/// The counting loop after its bounds are known, agreeing with the
/// spec-level `eval_for`: one location is overwritten per iteration.
fn run_for(
    x: &String,
    i: i64,
    en: i64,
    body: &Expr,
    env: &Env,
    varpool: &mut Vec<Value>,
    fuel: u64,
) -> (r: Result<Value, EvalSignal>)
    ensures
        ({
            let out = eval_for(
                x@,
                i as int,
                en as int,
                body@,
                env@,
                view_store(old(varpool)@),
                fuel as nat,
            );
            res_view(r) == out.0 && view_store(final(varpool)@) == out.1
        }),
    decreases fuel, *body, 0nat,
{
    if i > en {
        Result::Ok(Value::VNil)
    } else if fuel == 0 {
        Result::Err(EvalSignal::Error(EvalErr::OutOfFuel))
    } else {
        match update_var(x.as_str(), Value::VNum(i), env, varpool) {
            Result::Err(sig) => Result::Err(sig),
            Result::Ok(_) => {
                let rb = f_sub(body, env, varpool, fuel - 1);
                match rb {
                    Result::Err(EvalSignal::LoopBreak) => Result::Ok(Value::VNil),
                    Result::Err(sig) => Result::Err(sig),
                    Result::Ok(_) => if i == en {
                        Result::Ok(Value::VNil)
                    } else {
                        run_for(x, i + 1, en, body, env, varpool, fuel - 1)
                    },
                }
            },
        }
    }
}

/// The condition loop, agreeing with the spec-level `eval_do`.
fn run_do(c: &Expr, body: &Expr, env: &Env, varpool: &mut Vec<Value>, fuel: u64) -> (r: Result<
    Value,
    EvalSignal,
>)
    ensures
        ({
            let out = eval_do(c@, body@, env@, view_store(old(varpool)@), fuel as nat);
            res_view(r) == out.0 && view_store(final(varpool)@) == out.1
        }),
    decreases fuel, *body, 0nat,
{
    if fuel == 0 {
        Result::Err(EvalSignal::Error(EvalErr::OutOfFuel))
    } else {
        match f_sub(c, env, varpool, fuel - 1) {
            Result::Err(sig) => Result::Err(sig),
            Result::Ok(v) => match v {
                Value::VNum(cv) => if cv == 0 {
                    Result::Ok(Value::VNil)
                } else {
                    let rb = f_sub(body, env, varpool, fuel - 1);
                    match rb {
                        Result::Err(EvalSignal::LoopBreak) => Result::Ok(Value::VNil),
                        Result::Err(sig) => Result::Err(sig),
                        Result::Ok(_) => run_do(c, body, env, varpool, fuel - 1),
                    }
                },
                _ => Result::Err(EvalSignal::Error(EvalErr::TypeMismatch)),
            },
        }
    }
}

/// Evaluates call arguments from position `i` on, checking each against
/// its parameter's declared type, agreeing with the spec-level
/// `eval_args`.
fn run_args(
    args: &Vec<Expr>,
    params: &Vec<TypeField>,
    i: usize,
    env: &Env,
    varpool: &mut Vec<Value>,
    fuel: u64,
) -> (r: Result<Vec<Value>, EvalSignal>)
    requires
        i <= args@.len(),
        args@.len() == params@.len(),
    ensures
        ({
            let out = eval_args(
                view_exprs(args@).skip(i as int),
                view_type_fields(params@).skip(i as int),
                env@,
                view_store(old(varpool)@),
                fuel as nat,
            );
            view_store(final(varpool)@) == out.1 && (match r {
                Result::Ok(vs) => out.0 == Result::<Seq<ValueModel>, EvalSignal>::Ok(
                    view_store(vs@),
                ),
                Result::Err(sig) => out.0 == Result::<Seq<ValueModel>, EvalSignal>::Err(sig),
            })
        }),
    decreases fuel, *args, args@.len() - i,
{
    broadcast use crate::ast::lemma_view_exprs_len, crate::ast::lemma_view_exprs_index;

    if i == args.len() {
        proof {
            assert(view_store(Seq::<Value>::empty()) =~= Seq::<ValueModel>::empty());
        }
        Result::Ok(Vec::new())
    } else {
        proof {
            assert(decreases_to!(fuel, *args, args@.len() - i => fuel, args@[i as int], 1nat));
            assert(view_exprs(args@).skip(i as int).first() == view_expr(args@[i as int]));
        }
        match f_sub(&args[i], env, varpool, fuel) {
            Result::Err(sig) => Result::Err(sig),
            Result::Ok(v) => {
                let checked = if i < params.len() {
                    type_check(&v, params[i].1.as_str(), env)
                } else {
                    Result::Ok(())
                };
                match checked {
                    Result::Err(sig) => Result::Err(sig),
                    Result::Ok(_) => {
                        proof {
                            assert(view_exprs(args@).skip(i as int).drop_first() =~= view_exprs(
                                args@,
                            ).skip(i + 1));
                            assert(view_type_fields(params@).skip(i as int).drop_first()
                                =~= view_type_fields(params@).skip(i + 1));
                        }
                        let ghost gv = v;
                        match run_args(args, params, i + 1, env, varpool, fuel) {
                            Result::Err(sig) => Result::Err(sig),
                            Result::Ok(mut vs) => {
                                let ghost gvs = vs@;
                                vs.insert(0, v);
                                proof {
                                    assert(view_store(vs@) =~= view_store(gvs).insert(
                                        0,
                                        view_value(gv),
                                    ));
                                }
                                Result::Ok(vs)
                            },
                        }
                    },
                }
            },
        }
    }
}

/// Binds parameters to argument values at fresh locations, in order,
/// agreeing with the spec-level `bind_params`.
fn run_bind_params(
    params: &Vec<TypeField>,
    i: usize,
    vals: Vec<Value>,
    env: Env,
    varpool: &mut Vec<Value>,
) -> (r: Env)
    requires
        i <= params@.len(),
    ensures
        ({
            let out = bind_params(
                view_type_fields(params@).skip(i as int),
                view_store(vals@),
                env@,
                view_store(old(varpool)@),
            );
            r@ == out.0 && view_store(final(varpool)@) == out.1
        }),
    decreases params@.len() - i,
{
    let mut vals = vals;
    if i == params.len() || vals.len() == 0 {
        env
    } else {
        let ghost gvals = vals@;
        let v = vals.remove(0);
        proof {
            assert(view_store(vals@) =~= view_store(gvals).drop_first());
            assert(view_store(gvals).first() == view_value(gvals[0]));
            assert(view_type_fields(params@).skip(i as int).first().0 == params@[i as int].0@);
            assert(view_type_fields(params@).skip(i as int).drop_first() =~= view_type_fields(
                params@,
            ).skip(i + 1));
        }
        let env1 = define_var(params[i].0.as_str(), v, &env, varpool);
        run_bind_params(params, i + 1, vals, env1, varpool)
    }
}

/// Evaluates and writes record fields from position `i` on into their
/// pre-allocated locations, agreeing with the spec-level
/// `eval_struct_fields`.
fn run_struct_fields(
    lits: &Vec<(String, Expr)>,
    dfs: &Vec<TypeField>,
    i: usize,
    base: usize,
    env: &Env,
    varpool: &mut Vec<Value>,
    fuel: u64,
) -> (r: Result<(), EvalSignal>)
    requires
        i <= lits@.len(),
        lits@.len() == dfs@.len(),
    ensures
        ({
            let out = eval_struct_fields(
                view_fields(lits@).skip(i as int),
                view_type_fields(dfs@).skip(i as int),
                base as nat,
                env@,
                view_store(old(varpool)@),
                fuel as nat,
            );
            view_store(final(varpool)@) == out.1 && (match r {
                Result::Ok(u) => out.0 == Result::<(), EvalSignal>::Ok(u),
                Result::Err(sig) => out.0 == Result::<(), EvalSignal>::Err(sig),
            })
        }),
    decreases fuel, *lits, lits@.len() - i,
{
    broadcast use
        crate::ast::lemma_view_fields_len,
        crate::ast::lemma_view_fields_index,
        lemma_view_store_update,
    ;

    if i == lits.len() {
        Result::Ok(())
    } else {
        proof {
            assert(decreases_to!(fuel, *lits, lits@.len() - i => fuel, lits@[i as int].1, 1nat));
            assert(view_fields(lits@).skip(i as int).first() == (
                lits@[i as int].0@,
                view_expr(lits@[i as int].1),
            ));
        }
        match f_sub(&lits[i].1, env, varpool, fuel) {
            Result::Err(sig) => Result::Err(sig),
            Result::Ok(v) => {
                let checked = if i < dfs.len() {
                    type_check(&v, dfs[i].1.as_str(), env)
                } else {
                    Result::Ok(())
                };
                match checked {
                    Result::Err(sig) => Result::Err(sig),
                    Result::Ok(_) => if base < varpool.len() {
                        proof {
                            assert(view_fields(lits@).skip(i as int).drop_first() =~= view_fields(
                                lits@,
                            ).skip(i + 1));
                            assert(view_type_fields(dfs@).skip(i as int).drop_first()
                                =~= view_type_fields(dfs@).skip(i + 1));
                        }
                        varpool.set(base, v);
                        run_struct_fields(lits, dfs, i + 1, base + 1, env, varpool, fuel)
                    } else {
                        Result::Err(EvalSignal::Error(EvalErr::UnboundName))
                    },
                }
            },
        }
    }
}

/// Whether the operator is one of the eight integer operators.
fn is_arith(op: Op) -> (r: bool)
    ensures
        r == is_arith_op(op),
{
    matches!(op, Op::Add | Op::Sub | Op::Mul | Op::Div | Op::Lt | Op::Gt | Op::Le | Op::Ge)
}


/// One arm of the evaluator, split out to keep each proof small.
#[verifier::rlimit(100)]
fn run_op_node(ast: &Expr, env: &Env, varpool: &mut Vec<Value>, fuel: u64) -> (r: Result<
    Value,
    EvalSignal,
>)
    requires
        *ast matches Expr::OpNode(_, _, _),
    ensures
        ({
            let out = eval_expr(ast@, env@, view_store(old(varpool)@), fuel as nat);
            res_view(r) == out.0 && view_store(final(varpool)@) == out.1
        }),
    decreases fuel, *ast, 0nat,
{
    broadcast use lemma_view_store_push, lemma_view_store_update;

    match ast {
        Expr::OpNode(op, e1, e2) => {
            proof {
                assert(ast@ == ExprModel::OpNode(
                    *op,
                    Box::new((**e1)@),
                    Box::new((**e2)@),
                ));
                assert(eval_expr(ast@, env@, view_store(varpool@), fuel as nat) == eval_op(
                    ast@,
                    env@,
                    view_store(varpool@),
                    fuel as nat,
                ));
            }
            let opv = *op;
            if is_arith(opv) {
                match f_sub(e1, env, varpool, fuel) {
                    Result::Err(sig) => Result::Err(sig),
                    Result::Ok(v1) => match f_sub(e2, env, varpool, fuel) {
                        Result::Err(sig) => Result::Err(sig),
                        Result::Ok(v2) => match (v1, v2) {
                            (Value::VNum(i1), Value::VNum(i2)) => {
                                if matches!(opv, Op::Div) && i2 == 0 {
                                    Result::Err(EvalSignal::Error(EvalErr::DivisionByZero))
                                } else {
                                    Result::Ok(Value::VNum(arithmetic(opv, i1, i2)))
                                }
                            },
                            _ => Result::Err(EvalSignal::Error(EvalErr::TypeMismatch)),
                        },
                    },
                }
            } else if matches!(opv, Op::Eq | Op::Ne) {
                match f_sub(e1, env, varpool, fuel) {
                    Result::Err(sig) => Result::Err(sig),
                    Result::Ok(v1) => match f_sub(e2, env, varpool, fuel) {
                        Result::Err(sig) => Result::Err(sig),
                        Result::Ok(v2) => {
                            let same = value_eq(&v1, &v2);
                            let res = matches!(opv, Op::Ne) != same;
                            Result::Ok(Value::VNum(if res {
                                1
                            } else {
                                0
                            }))
                        },
                    },
                }
            } else if matches!(opv, Op::Or) {
                match f_sub(e1, env, varpool, fuel) {
                    Result::Err(sig) => Result::Err(sig),
                    Result::Ok(v1) => match v1 {
                        Value::VNum(i1) => if i1 == 0 {
                            f_sub(e2, env, varpool, fuel)
                        } else {
                            Result::Ok(Value::VNum(i1))
                        },
                        _ => Result::Err(EvalSignal::Error(EvalErr::TypeMismatch)),
                    },
                }
            } else {
                match f_sub(e1, env, varpool, fuel) {
                    Result::Err(sig) => Result::Err(sig),
                    Result::Ok(v1) => match v1 {
                        Value::VNum(i1) => if i1 == 0 {
                            Result::Ok(Value::VNum(i1))
                        } else {
                            f_sub(e2, env, varpool, fuel)
                        },
                        _ => Result::Err(EvalSignal::Error(EvalErr::TypeMismatch)),
                    },
                }
            }
        },
        _ => {
            proof {
                assert(false);
            }
            Result::Err(EvalSignal::Error(EvalErr::TypeMismatch))
        },
    }
}

/// One arm of the evaluator, split out to keep each proof small.
#[verifier::rlimit(100)]
fn run_fun_app(ast: &Expr, env: &Env, varpool: &mut Vec<Value>, fuel: u64) -> (r: Result<
    Value,
    EvalSignal,
>)
    requires
        *ast matches Expr::FunApp(_, _),
    ensures
        ({
            let out = eval_expr(ast@, env@, view_store(old(varpool)@), fuel as nat);
            res_view(r) == out.0 && view_store(final(varpool)@) == out.1
        }),
    decreases fuel, *ast, 0nat,
{
    broadcast use lemma_view_store_push, lemma_view_store_update;

    match ast {
        Expr::FunApp(fname, args) => {
            match find_fun(&env.funs, fname) {
                Option::None => Result::Err(EvalSignal::Error(EvalErr::UnboundName)),
                Option::Some(fd) => {
                    if args.len() != fd.1.len() {
                        proof {
                            crate::ast::lemma_view_exprs_len(args@);
                        }
                        Result::Err(EvalSignal::Error(EvalErr::ArityMismatch))
                    } else {
                        proof {
                            crate::ast::lemma_view_exprs_len(args@);
                            assert(view_exprs(args@).skip(0) =~= view_exprs(args@));
                            assert(view_type_fields(fd.1@).skip(0) =~= view_type_fields(fd.1@));
                        }
                        match run_args(args, &fd.1, 0, env, varpool, fuel) {
                            Result::Err(sig) => Result::Err(sig),
                            Result::Ok(vals) => {
                                let env1 = run_bind_params(
                                    &fd.1,
                                    0,
                                    vals,
                                    clone_env(env),
                                    varpool,
                                );
                                if fuel == 0 {
                                    Result::Err(EvalSignal::Error(EvalErr::OutOfFuel))
                                } else {
                                    match f_sub(&fd.3, &env1, varpool, fuel - 1) {
                                        Result::Err(sig) => Result::Err(sig),
                                        Result::Ok(v) => match &fd.2 {
                                            Option::None => Result::Ok(v),
                                            Option::Some(retty) => {
                                                match type_check(&v, retty.as_str(), env) {
                                                    Result::Ok(_) => Result::Ok(v),
                                                    Result::Err(sig) => Result::Err(sig),
                                                }
                                            },
                                        },
                                    }
                                }
                            },
                        }
                    }
                },
            }
        },
        _ => {
            proof {
                assert(false);
            }
            Result::Err(EvalSignal::Error(EvalErr::TypeMismatch))
        },
    }
}

/// One arm of the evaluator, split out to keep each proof small.
#[verifier::rlimit(100)]
fn run_new_struct(ast: &Expr, env: &Env, varpool: &mut Vec<Value>, fuel: u64) -> (r: Result<
    Value,
    EvalSignal,
>)
    requires
        *ast matches Expr::NewStruct(_, _),
    ensures
        ({
            let out = eval_expr(ast@, env@, view_store(old(varpool)@), fuel as nat);
            res_view(r) == out.0 && view_store(final(varpool)@) == out.1
        }),
    decreases fuel, *ast, 0nat,
{
    broadcast use lemma_view_store_push, lemma_view_store_update;

    match ast {
        Expr::NewStruct(tyname, lits) => {
            match resolve_type_shape(&env.types, tyname.as_str(), env.types.len()) {
                Option::None => Result::Err(EvalSignal::Error(EvalErr::UnboundName)),
                Option::Some(shape) => match shape {
                    Type::Field(dfs) => {
                        if !fields_match(lits, &dfs) {
                            Result::Err(EvalSignal::Error(EvalErr::UnknownField))
                        } else {
                            let base = varpool.len();
                            let ghost s0 = view_store(varpool@);
                            let mut k: usize = 0;
                            proof {
                                assert(view_store(varpool@) =~= s0 + repeated(
                                    ValueModel::VNil,
                                    0,
                                ));
                            }
                            while k < lits.len()
                                invariant
                                    k <= lits@.len(),
                                    varpool@.len() == s0.len() + k,
                                    view_store(varpool@) == s0 + repeated(
                                        ValueModel::VNil,
                                        k as nat,
                                    ),
                                decreases lits@.len() - k,
                            {
                                let ghost prev = view_store(varpool@);
                                varpool.push(Value::VNil);
                                proof {
                                    broadcast use lemma_view_store_push;

                                    assert(prev.push(view_value(Value::VNil)) =~= s0 + repeated(
                                        ValueModel::VNil,
                                        (k + 1) as nat,
                                    ));
                                }
                                k = k + 1;
                            }
                            let total = varpool.len();
                            proof {
                                crate::ast::lemma_view_fields_len(lits@);
                                assert(lits@.len() == dfs@.len());
                                assert(total == base + lits@.len());
                                assert(base + lits@.len() <= usize::MAX);
                                assert(view_fields(lits@).skip(0) =~= view_fields(lits@));
                                assert(view_type_fields(dfs@).skip(0) =~= view_type_fields(dfs@));
                            }
                            match run_struct_fields(lits, &dfs, 0, base, env, varpool, fuel) {
                                Result::Err(sig) => Result::Err(sig),
                                Result::Ok(_) => {
                                    let mut handle: Vec<(String, usize)> = Vec::new();
                                    let mut j: usize = 0;
                                    while j < lits.len()
                                        invariant
                                            j <= lits@.len(),
                                            base + lits@.len() <= usize::MAX,
                                            handle@.len() == j,
                                            forall|m: int|
                                                0 <= m < j ==> (#[trigger] handle@[m]).0@
                                                    == lits@[m].0@ && handle@[m].1 == base + m,
                                        decreases lits@.len() - j,
                                    {
                                        handle.push((lits[j].0.clone(), base + j));
                                        j = j + 1;
                                    }
                                    proof {
                                        broadcast use crate::ast::lemma_view_fields_index;

                                        crate::ast::lemma_view_fields_len(lits@);
                                        assert(view_rec_fields(handle@) =~= rec_handle(
                                            view_fields(lits@),
                                            base as nat,
                                        ));
                                    }
                                    Result::Ok(Value::VRec(handle))
                                },
                            }
                        }
                    },
                    _ => Result::Err(EvalSignal::Error(EvalErr::TypeMismatch)),
                },
            }
        },
        _ => {
            proof {
                assert(false);
            }
            Result::Err(EvalSignal::Error(EvalErr::TypeMismatch))
        },
    }
}

/// One arm of the evaluator, split out to keep each proof small.
#[verifier::rlimit(100)]
fn run_new_array(ast: &Expr, env: &Env, varpool: &mut Vec<Value>, fuel: u64) -> (r: Result<
    Value,
    EvalSignal,
>)
    requires
        *ast matches Expr::NewArray(_, _, _),
    ensures
        ({
            let out = eval_expr(ast@, env@, view_store(old(varpool)@), fuel as nat);
            res_view(r) == out.0 && view_store(final(varpool)@) == out.1
        }),
    decreases fuel, *ast, 0nat,
{
    broadcast use lemma_view_store_push, lemma_view_store_update;

    match ast {
        Expr::NewArray(tyname, n_e, fill_e) => {
            match resolve_type_shape(&env.types, tyname.as_str(), env.types.len()) {
                Option::None => Result::Err(EvalSignal::Error(EvalErr::UnboundName)),
                Option::Some(shape) => match shape {
                    Type::Array(_) => {
                        match f_sub(n_e, env, varpool, fuel) {
                            Result::Err(sig) => Result::Err(sig),
                            Result::Ok(vn) => match vn {
                                Value::VNum(len) => if len < 0 {
                                    Result::Err(EvalSignal::Error(EvalErr::TypeMismatch))
                                } else {
                                    match f_sub(fill_e, env, varpool, fuel) {
                                        Result::Err(sig) => Result::Err(sig),
                                        Result::Ok(fill) => {
                                            let ghost s2 = view_store(varpool@);
                                            let mut locs: Vec<usize> = Vec::new();
                                            let mut k: i64 = 0;
                                            proof {
                                                assert(view_store(varpool@) =~= s2 + repeated(
                                                    view_value(fill),
                                                    0,
                                                ));
                                                assert(view_locs(locs@) =~= fresh_locs(
                                                    s2.len(),
                                                    0,
                                                ));
                                            }
                                            while k < len
                                                invariant
                                                    0 <= k <= len,
                                                    varpool@.len() == s2.len() + k,
                                                    locs@.len() == k,
                                                    view_store(varpool@) == s2 + repeated(
                                                        view_value(fill),
                                                        k as nat,
                                                    ),
                                                    view_locs(locs@) == fresh_locs(
                                                        s2.len(),
                                                        k as nat,
                                                    ),
                                                decreases len - k,
                                            {
                                                let ghost prev_locs = locs@;
                                                let loc_now = varpool.len();
                                                locs.push(loc_now);
                                                varpool.push(clone_value(&fill));
                                                proof {
                                                    broadcast use lemma_view_store_push;

                                                    assert(view_store(varpool@) =~= s2 + repeated(
                                                        view_value(fill),
                                                        (k + 1) as nat,
                                                    ));
                                                    assert(locs@ == prev_locs.push(loc_now));
                                                    assert(loc_now as nat == (s2.len()
                                                        + k) as nat);
                                                    assert(locs@.len() == k + 1);
                                                    assert forall|j: int|
                                                        0 <= j < k + 1 implies view_locs(
                                                        locs@,
                                                    )[j] == fresh_locs(
                                                        s2.len(),
                                                        (k + 1) as nat,
                                                    )[j] by {
                                                        if j < k {
                                                            assert(locs@[j] == prev_locs[j]);
                                                            assert(view_locs(prev_locs)[j]
                                                                == fresh_locs(
                                                                s2.len(),
                                                                k as nat,
                                                            )[j]);
                                                        } else {
                                                            assert(locs@[j] == loc_now);
                                                        }
                                                    }
                                                    assert(view_locs(locs@) =~= fresh_locs(
                                                        s2.len(),
                                                        (k + 1) as nat,
                                                    ));
                                                }
                                                k = k + 1;
                                            }
                                            Result::Ok(Value::VArr(locs))
                                        },
                                    }
                                },
                                _ => Result::Err(EvalSignal::Error(EvalErr::TypeMismatch)),
                            },
                        }
                    },
                    _ => Result::Err(EvalSignal::Error(EvalErr::TypeMismatch)),
                },
            }
        },
        _ => {
            proof {
                assert(false);
            }
            Result::Err(EvalSignal::Error(EvalErr::TypeMismatch))
        },
    }
}

/// The tree-walking evaluator.  It agrees exactly with the spec-level
/// `eval_expr`: same outcome, same final store, for every expression,
/// environment, store and step budget.
#[verifier::rlimit(100)]
pub fn f_sub(ast: &Expr, env: &Env, varpool: &mut Vec<Value>, fuel: u64) -> (r: Result<
    Value,
    EvalSignal,
>)
    ensures
        ({
            let out = eval_expr(ast@, env@, view_store(old(varpool)@), fuel as nat);
            res_view(r) == out.0 && view_store(final(varpool)@) == out.1
        }),
    decreases fuel, *ast, 1nat,
{
    broadcast use lemma_view_store_push, lemma_view_store_update;

    match ast {
        Expr::Num(i) => Result::Ok(Value::VNum(*i)),
        Expr::Str(s) => Result::Ok(Value::VStr(s.clone())),
        Expr::Var(x) => get_var(x.as_str(), env, varpool),
        Expr::LVal(l) => {
            match run_lvalue(l, env, varpool, fuel) {
                Result::Err(sig) => Result::Err(sig),
                Result::Ok(loc) => if loc < varpool.len() {
                    Result::Ok(clone_value(&varpool[loc]))
                } else {
                    Result::Err(EvalSignal::Error(EvalErr::UnboundName))
                },
            }
        },
        Expr::Neg(e1) => {
            match f_sub(e1, env, varpool, fuel) {
                Result::Err(sig) => Result::Err(sig),
                Result::Ok(v) => match v {
                    Value::VNum(i) => Result::Ok(Value::VNum(sub64(0, i))),
                    _ => Result::Err(EvalSignal::Error(EvalErr::TypeMismatch)),
                },
            }
        },
        Expr::OpNode(_, _, _) => run_op_node(ast, env, varpool, fuel),
        Expr::IfNode(c, t, fe) => {
            match f_sub(c, env, varpool, fuel) {
                Result::Err(sig) => Result::Err(sig),
                Result::Ok(v) => match v {
                    Value::VNum(i) => if i == 0 {
                        f_sub(fe, env, varpool, fuel)
                    } else {
                        f_sub(t, env, varpool, fuel)
                    },
                    _ => Result::Err(EvalSignal::Error(EvalErr::TypeMismatch)),
                },
            }
        },
        Expr::Nil => Result::Ok(Value::VNil),
        Expr::LAsgn(l, e1) => {
            match f_sub(e1, env, varpool, fuel) {
                Result::Err(sig) => Result::Err(sig),
                Result::Ok(v) => match run_lvalue(l, env, varpool, fuel) {
                    Result::Err(sig) => Result::Err(sig),
                    Result::Ok(loc) => if loc < varpool.len() {
                        varpool.set(loc, v);
                        Result::Ok(Value::VNil)
                    } else {
                        Result::Err(EvalSignal::Error(EvalErr::UnboundName))
                    },
                },
            }
        },
        Expr::Sequence(es) => {
            proof {
                assert(view_exprs(es@).skip(0) =~= view_exprs(es@));
            }
            run_seq(es, 0, env, varpool, fuel)
        },
        Expr::Let(ds, b) => {
            proof {
                assert(view_decs(ds@).skip(0) =~= view_decs(ds@));
            }
            match run_decs(ds, 0, clone_env(env), varpool, fuel) {
                Result::Err(sig) => Result::Err(sig),
                Result::Ok(env1) => f_sub(b, &env1, varpool, fuel),
            }
        },
        Expr::For(x, st, en, b) => {
            match f_sub(st, env, varpool, fuel) {
                Result::Err(sig) => Result::Err(sig),
                Result::Ok(v1) => match f_sub(en, env, varpool, fuel) {
                    Result::Err(sig) => Result::Err(sig),
                    Result::Ok(v2) => match (v1, v2) {
                        (Value::VNum(i0), Value::VNum(i1)) => {
                            let env1 = define_var(x.as_str(), Value::VNum(i0), env, varpool);
                            run_for(x, i0, i1, b, &env1, varpool, fuel)
                        },
                        _ => Result::Err(EvalSignal::Error(EvalErr::TypeMismatch)),
                    },
                },
            }
        },
        Expr::Do(c, b) => run_do(c, b, env, varpool, fuel),
        Expr::FunApp(_, _) => run_fun_app(ast, env, varpool, fuel),
        Expr::NewStruct(_, _) => run_new_struct(ast, env, varpool, fuel),
        Expr::NewArray(_, _, _) => run_new_array(ast, env, varpool, fuel),
        Expr::Break => Result::Err(EvalSignal::LoopBreak),
    }
}

/// Whether a record literal names exactly the declared fields, in
/// declaration order.
fn fields_match(lits: &Vec<(String, Expr)>, dfs: &Vec<TypeField>) -> (r: bool)
    ensures
        r == (view_fields(lits@).len() == view_type_fields(dfs@).len() && (forall|i: int|
            0 <= i < view_fields(lits@).len() ==> (#[trigger] view_fields(lits@)[i]).0
                == view_type_fields(dfs@)[i].0)),
{
    broadcast use crate::ast::lemma_view_fields_len, crate::ast::lemma_view_fields_index;

    if lits.len() != dfs.len() {
        return false;
    }
    let mut i: usize = 0;
    while i < lits.len()
        invariant
            i <= lits@.len(),
            lits@.len() == dfs@.len(),
            forall|j: int|
                0 <= j < i ==> (#[trigger] view_fields(lits@)[j]).0 == view_type_fields(dfs@)[j].0,
        decreases lits@.len() - i,
    {
        proof {
            crate::ast::lemma_view_fields_index(lits@, i as int);
        }
        if !(lits[i].0 == dfs[i].0) {
            return false;
        }
        i = i + 1;
    }
    true
}

/// Runs a whole program: evaluation in the empty environment over the
/// empty store, agreeing exactly with the spec-level `run_program`.
/// `fuel` bounds loop iterations and call depth; a budget of
/// `u64::MAX` is far beyond anything a test program reaches.
pub fn f(ast: &Expr, fuel: u64) -> (r: Result<Value, EvalErr>)
    ensures
        match r {
            Result::Ok(v) => run_program(ast@, fuel as nat) == Result::<ValueModel, EvalErr>::Ok(
                v@,
            ),
            Result::Err(e) => run_program(ast@, fuel as nat) == Result::<ValueModel, EvalErr>::Err(
                e,
            ),
        },
{
    let env = Env { vars: Vec::new(), funs: Vec::new(), types: Vec::new() };
    let mut varpool: Vec<Value> = Vec::new();
    proof {
        assert(env@.vars =~= empty_env().vars);
        assert(env@.funs =~= empty_env().funs);
        assert(env@.types =~= empty_env().types);
        assert(view_store(varpool@) =~= Seq::<ValueModel>::empty());
    }
    match f_sub(ast, &env, &mut varpool, fuel) {
        Result::Ok(v) => Result::Ok(v),
        Result::Err(EvalSignal::LoopBreak) => Result::Err(EvalErr::BreakOutsideLoop),
        Result::Err(EvalSignal::Error(e)) => Result::Err(e),
    }
}

} // verus!
