//! The abstract syntax of the language, its runtime values, and the
//! spec-level models that contracts are stated over.
//!
//! Each executable type (`Expr`, `LValue`, `Dec`, `Type`, `Value`,
//! `TypedExpr`) has a mathematical model (`ExprModel` and so on) in which
//! strings appear as `Seq<char>`, integers as `int`, and lists as `Seq`.
//! The `View` impls map each tree to its model; every contract in the
//! crate speaks about these models.
use vstd::prelude::*;

verus! {

/// A binary operator. `Or` and `And` short-circuit; the comparisons
/// yield the integers 1 (true) and 0 (false).
#[derive(PartialEq, Eq, Structural, Clone, Copy, Debug)]
pub enum Op {
    Add,
    Sub,
    Mul,
    Div,
    Eq,
    Ne,
    Lt,
    Gt,
    Le,
    Ge,
    Or,
    And,
}

/// An expression tree as the parser produces it.
#[derive(PartialEq, Debug)]
pub enum Expr {
    /// Integer literal.
    Num(i64),
    /// String literal.
    Str(String),
    /// Variable reference by bare name.
    Var(String),
    /// Reference through an l-value (identifier, field or index access).
    LVal(LValue),
    /// Unary negation.
    Neg(Box<Expr>),
    /// Binary operator node.
    OpNode(Op, Box<Expr>, Box<Expr>),
    /// Conditional: if the first is nonzero, the second; otherwise the third.
    IfNode(Box<Expr>, Box<Expr>, Box<Expr>),
    /// The no-value sentinel.
    Nil,
    /// Assignment to an l-value.
    LAsgn(LValue, Box<Expr>),
    /// Sequence evaluated left to right; its value is the last one.
    Sequence(Vec<Expr>),
    /// Scoped block: declarations, then a body.
    Let(Vec<Dec>, Box<Expr>),
    /// Counting loop: variable, start, inclusive end, body.
    For(String, Box<Expr>, Box<Expr>, Box<Expr>),
    /// Condition loop: `while c do e`.
    Do(Box<Expr>, Box<Expr>),
    /// Function application.
    FunApp(String, Vec<Expr>),
    /// Record construction: type name and field initializers.
    NewStruct(String, Vec<Field>),
    /// Array construction: type name, size, fill value.
    NewArray(String, Box<Expr>, Box<Expr>),
    /// Loop exit.
    Break,
}

/// An assignable location descriptor.
#[derive(PartialEq, Debug)]
pub enum LValue {
    Id(String),
    Mem(Box<LValue>, String),
    Idx(Box<LValue>, Box<Expr>),
}

/// A declaration inside a `let` block.
#[derive(PartialEq, Debug)]
pub enum Dec {
    /// Type alias: name and type descriptor.
    Type(String, Type),
    /// Variable: name, optional declared type name, initializer.
    Var(String, Option<String>, Expr),
    /// Function: name, parameters, optional return type name, body.
    Fun(String, Vec<TypeField>, Option<String>, Expr),
}

/// A type descriptor on the right-hand side of a type declaration.
#[derive(PartialEq, Debug)]
pub enum Type {
    /// A named type.
    Id(String),
    /// An inline record shape: ordered (field name, type name) pairs.
    Field(Vec<TypeField>),
    /// An array shape with the named element type.
    Array(String),
}

/// A runtime value. Records and arrays hold store locations, not values:
/// the indirection is what gives them reference semantics.
#[derive(PartialEq, Debug)]
pub enum Value {
    VNum(i64),
    VStr(String),
    /// The no-value result of loops, assignments and `nil`.
    VNil,
    /// A record: one store location per field, in declaration order.
    VRec(Vec<(String, usize)>),
    /// An array: a fixed-length sequence of store locations.
    VArr(Vec<usize>),
}

/// A record field initializer: field name and expression.
pub type Field = (String, Expr);

/// A parameter or record-field declaration: name and type name.
pub type TypeField = (String, String);

/// A function declaration as the environment stores it:
/// name, parameters, optional return type name, body.
pub type FunDec = (String, Vec<TypeField>, Option<String>, Expr);

/// An expression annotated with its type at every node.
#[derive(PartialEq, Debug)]
pub enum TypedExpr {
    Num(i64),
    Str(String),
    Var(String, Type),
    OpNode(Op, Type, Box<TypedExpr>, Box<TypedExpr>),
    IfNode(Box<TypedExpr>, Type, Box<TypedExpr>, Box<TypedExpr>),
    LetEx(String, Type, Box<TypedExpr>, Box<TypedExpr>),
    FunApp(String, Vec<Type>, Type, Vec<TypedExpr>),
}

/// The model of an `Expr`: names as character sequences, numbers as `int`.
#[verifier::ext_equal]
pub enum ExprModel {
    Num(int),
    Str(Seq<char>),
    Var(Seq<char>),
    LVal(LValueModel),
    Neg(Box<ExprModel>),
    OpNode(Op, Box<ExprModel>, Box<ExprModel>),
    IfNode(Box<ExprModel>, Box<ExprModel>, Box<ExprModel>),
    Nil,
    LAsgn(LValueModel, Box<ExprModel>),
    Sequence(Seq<ExprModel>),
    Let(Seq<DecModel>, Box<ExprModel>),
    For(Seq<char>, Box<ExprModel>, Box<ExprModel>, Box<ExprModel>),
    Do(Box<ExprModel>, Box<ExprModel>),
    FunApp(Seq<char>, Seq<ExprModel>),
    NewStruct(Seq<char>, Seq<(Seq<char>, ExprModel)>),
    NewArray(Seq<char>, Box<ExprModel>, Box<ExprModel>),
    Break,
}

/// The model of an `LValue`.
#[verifier::ext_equal]
pub enum LValueModel {
    Id(Seq<char>),
    Mem(Box<LValueModel>, Seq<char>),
    Idx(Box<LValueModel>, Box<ExprModel>),
}

/// The model of a `Dec`.
#[verifier::ext_equal]
pub enum DecModel {
    Type(Seq<char>, TypeModel),
    Var(Seq<char>, Option<Seq<char>>, ExprModel),
    Fun(Seq<char>, Seq<(Seq<char>, Seq<char>)>, Option<Seq<char>>, ExprModel),
}

/// The model of a `Type`.
#[verifier::ext_equal]
pub enum TypeModel {
    Id(Seq<char>),
    Field(Seq<(Seq<char>, Seq<char>)>),
    Array(Seq<char>),
}

/// The model of a `Value`. Store locations are natural numbers.
#[verifier::ext_equal]
pub enum ValueModel {
    VNum(int),
    VStr(Seq<char>),
    VNil,
    VRec(Seq<(Seq<char>, nat)>),
    VArr(Seq<nat>),
}

/// The model of a `TypedExpr`.
#[verifier::ext_equal]
pub enum TypedExprModel {
    Num(int),
    Str(Seq<char>),
    Var(Seq<char>, TypeModel),
    OpNode(Op, TypeModel, Box<TypedExprModel>, Box<TypedExprModel>),
    IfNode(Box<TypedExprModel>, TypeModel, Box<TypedExprModel>, Box<TypedExprModel>),
    LetEx(Seq<char>, TypeModel, Box<TypedExprModel>, Box<TypedExprModel>),
    FunApp(Seq<char>, Seq<TypeModel>, TypeModel, Seq<TypedExprModel>),
}

/// The model of a stored function declaration.
pub type FunDecModel = (Seq<char>, Seq<(Seq<char>, Seq<char>)>, Option<Seq<char>>, ExprModel);

pub open spec fn view_type_fields(fs: Seq<TypeField>) -> Seq<(Seq<char>, Seq<char>)> {
    Seq::new(fs.len(), |i: int| (fs[i].0@, fs[i].1@))
}

pub open spec fn view_type(t: Type) -> TypeModel {
    match t {
        Type::Id(name) => TypeModel::Id(name@),
        Type::Field(fs) => TypeModel::Field(view_type_fields(fs@)),
        Type::Array(name) => TypeModel::Array(name@),
    }
}

/// The model of a record handle's field table.
pub open spec fn view_rec_fields(fs: Seq<(String, usize)>) -> Seq<(Seq<char>, nat)> {
    Seq::new(fs.len(), |i: int| (fs[i].0@, fs[i].1 as nat))
}

/// The model of an array handle's location list.
pub open spec fn view_locs(ls: Seq<usize>) -> Seq<nat> {
    Seq::new(ls.len(), |i: int| ls[i] as nat)
}

pub open spec fn view_value(v: Value) -> ValueModel {
    match v {
        Value::VNum(i) => ValueModel::VNum(i as int),
        Value::VStr(s) => ValueModel::VStr(s@),
        Value::VNil => ValueModel::VNil,
        Value::VRec(fs) => ValueModel::VRec(view_rec_fields(fs@)),
        Value::VArr(ls) => ValueModel::VArr(view_locs(ls@)),
    }
}

pub open spec fn view_expr(e: Expr) -> ExprModel
    decreases e,
{
    match e {
        Expr::Num(i) => ExprModel::Num(i as int),
        Expr::Str(s) => ExprModel::Str(s@),
        Expr::Var(s) => ExprModel::Var(s@),
        Expr::LVal(l) => ExprModel::LVal(view_lvalue(l)),
        Expr::Neg(e1) => ExprModel::Neg(Box::new(view_expr(*e1))),
        Expr::OpNode(op, e1, e2) => ExprModel::OpNode(
            op,
            Box::new(view_expr(*e1)),
            Box::new(view_expr(*e2)),
        ),
        Expr::IfNode(c, t, f) => ExprModel::IfNode(
            Box::new(view_expr(*c)),
            Box::new(view_expr(*t)),
            Box::new(view_expr(*f)),
        ),
        Expr::Nil => ExprModel::Nil,
        Expr::LAsgn(l, e1) => ExprModel::LAsgn(view_lvalue(l), Box::new(view_expr(*e1))),
        Expr::Sequence(es) => ExprModel::Sequence(view_exprs(es@)),
        Expr::Let(ds, b) => ExprModel::Let(view_decs(ds@), Box::new(view_expr(*b))),
        Expr::For(x, st, en, b) => ExprModel::For(
            x@,
            Box::new(view_expr(*st)),
            Box::new(view_expr(*en)),
            Box::new(view_expr(*b)),
        ),
        Expr::Do(c, b) => ExprModel::Do(Box::new(view_expr(*c)), Box::new(view_expr(*b))),
        Expr::FunApp(f, es) => ExprModel::FunApp(f@, view_exprs(es@)),
        Expr::NewStruct(t, fs) => ExprModel::NewStruct(t@, view_fields(fs@)),
        Expr::NewArray(t, n, e1) => ExprModel::NewArray(
            t@,
            Box::new(view_expr(*n)),
            Box::new(view_expr(*e1)),
        ),
        Expr::Break => ExprModel::Break,
    }
}

pub open spec fn view_exprs(es: Seq<Expr>) -> Seq<ExprModel>
    decreases es,
{
    if es.len() == 0 {
        Seq::empty()
    } else {
        view_exprs(es.drop_last()).push(view_expr(es.last()))
    }
}

pub open spec fn view_fields(fs: Seq<Field>) -> Seq<(Seq<char>, ExprModel)>
    decreases fs,
{
    if fs.len() == 0 {
        Seq::empty()
    } else {
        view_fields(fs.drop_last()).push((fs.last().0@, view_expr(fs.last().1)))
    }
}

pub open spec fn view_lvalue(l: LValue) -> LValueModel
    decreases l,
{
    match l {
        LValue::Id(s) => LValueModel::Id(s@),
        LValue::Mem(b, f) => LValueModel::Mem(Box::new(view_lvalue(*b)), f@),
        LValue::Idx(b, e) => LValueModel::Idx(
            Box::new(view_lvalue(*b)),
            Box::new(view_expr(*e)),
        ),
    }
}

pub open spec fn view_dec(d: Dec) -> DecModel
    decreases d,
{
    match d {
        Dec::Type(name, t) => DecModel::Type(name@, view_type(t)),
        Dec::Var(name, ot, e) => DecModel::Var(
            name@,
            match ot {
                Option::Some(t) => Option::Some(t@),
                Option::None => Option::None,
            },
            view_expr(e),
        ),
        Dec::Fun(name, params, ot, body) => DecModel::Fun(
            name@,
            view_type_fields(params@),
            match ot {
                Option::Some(t) => Option::Some(t@),
                Option::None => Option::None,
            },
            view_expr(body),
        ),
    }
}

pub open spec fn view_decs(ds: Seq<Dec>) -> Seq<DecModel>
    decreases ds,
{
    if ds.len() == 0 {
        Seq::empty()
    } else {
        view_decs(ds.drop_last()).push(view_dec(ds.last()))
    }
}

pub open spec fn view_typed_expr(t: TypedExpr) -> TypedExprModel
    decreases t,
{
    match t {
        TypedExpr::Num(i) => TypedExprModel::Num(i as int),
        TypedExpr::Str(s) => TypedExprModel::Str(s@),
        TypedExpr::Var(s, ty) => TypedExprModel::Var(s@, view_type(ty)),
        TypedExpr::OpNode(op, ty, a, b) => TypedExprModel::OpNode(
            op,
            view_type(ty),
            Box::new(view_typed_expr(*a)),
            Box::new(view_typed_expr(*b)),
        ),
        TypedExpr::IfNode(c, ty, a, b) => TypedExprModel::IfNode(
            Box::new(view_typed_expr(*c)),
            view_type(ty),
            Box::new(view_typed_expr(*a)),
            Box::new(view_typed_expr(*b)),
        ),
        TypedExpr::LetEx(x, ty, a, b) => TypedExprModel::LetEx(
            x@,
            view_type(ty),
            Box::new(view_typed_expr(*a)),
            Box::new(view_typed_expr(*b)),
        ),
        TypedExpr::FunApp(f, argtys, ty, args) => TypedExprModel::FunApp(
            f@,
            Seq::new(argtys@.len(), |i: int| view_type(argtys@[i])),
            view_type(ty),
            view_typed_exprs(args@),
        ),
    }
}

pub open spec fn view_typed_exprs(ts: Seq<TypedExpr>) -> Seq<TypedExprModel>
    decreases ts,
{
    if ts.len() == 0 {
        Seq::empty()
    } else {
        view_typed_exprs(ts.drop_last()).push(view_typed_expr(ts.last()))
    }
}

impl View for Expr {
    type V = ExprModel;

    open spec fn view(&self) -> ExprModel {
        view_expr(*self)
    }
}

impl View for LValue {
    type V = LValueModel;

    open spec fn view(&self) -> LValueModel {
        view_lvalue(*self)
    }
}

impl View for Dec {
    type V = DecModel;

    open spec fn view(&self) -> DecModel {
        view_dec(*self)
    }
}

impl View for Type {
    type V = TypeModel;

    open spec fn view(&self) -> TypeModel {
        view_type(*self)
    }
}

impl View for Value {
    type V = ValueModel;

    open spec fn view(&self) -> ValueModel {
        view_value(*self)
    }
}

impl View for TypedExpr {
    type V = TypedExprModel;

    open spec fn view(&self) -> TypedExprModel {
        view_typed_expr(*self)
    }
}

/// The type tag stored at a typed node, without recursing into children.
pub open spec fn spec_ty_of(t: TypedExprModel) -> TypeModel {
    match t {
        TypedExprModel::Num(_) => TypeModel::Id("int"@),
        TypedExprModel::Str(_) => TypeModel::Id("str"@),
        TypedExprModel::Var(_, ty) => ty,
        TypedExprModel::OpNode(_, ty, _, _) => ty,
        TypedExprModel::IfNode(_, ty, _, _) => ty,
        TypedExprModel::LetEx(_, ty, _, _) => ty,
        TypedExprModel::FunApp(_, _, ty, _) => ty,
    }
}

/// Returns the type tag stored at a typed node.
pub fn ty_of_ast(tast: &TypedExpr) -> (r: Type)
    ensures
        r@ == spec_ty_of(tast@),
{
    match tast {
        TypedExpr::Num(_) => Type::Id("int".to_owned()),
        TypedExpr::Str(_) => Type::Id("str".to_owned()),
        TypedExpr::Var(_, ty) => clone_type(ty),
        TypedExpr::OpNode(_, ty, _, _) => clone_type(ty),
        TypedExpr::IfNode(_, ty, _, _) => clone_type(ty),
        TypedExpr::LetEx(_, ty, _, _) => clone_type(ty),
        TypedExpr::FunApp(_, _, ty, _) => clone_type(ty),
    }
}

/// Copies a list of (name, type name) pairs.
pub fn clone_type_fields(fs: &Vec<TypeField>) -> (r: Vec<TypeField>)
    ensures
        view_type_fields(r@) == view_type_fields(fs@),
{
    let mut out: Vec<TypeField> = Vec::new();
    let mut i: usize = 0;
    while i < fs.len()
        invariant
            i <= fs@.len(),
            out@.len() == i,
            forall|j: int|
                0 <= j < i ==> out@[j].0@ == fs@[j].0@ && out@[j].1@ == fs@[j].1@,
        decreases fs@.len() - i,
    {
        out.push((fs[i].0.clone(), fs[i].1.clone()));
        i = i + 1;
    }
    proof {
        assert(view_type_fields(out@) =~= view_type_fields(fs@));
    }
    out
}

/// Copies a type descriptor.
pub fn clone_type(t: &Type) -> (r: Type)
    ensures
        r@ == t@,
{
    match t {
        Type::Id(name) => Type::Id(name.clone()),
        Type::Field(fs) => Type::Field(clone_type_fields(fs)),
        Type::Array(name) => Type::Array(name.clone()),
    }
}


/// Appending to an expression list appends to its model.
pub broadcast proof fn lemma_view_exprs_push(s: Seq<Expr>, e: Expr)
    ensures
        #[trigger] view_exprs(s.push(e)) == view_exprs(s).push(view_expr(e)),
{
    assert(s.push(e).drop_last() =~= s);
    assert(s.push(e).last() == e);
}

/// Appending to a field list appends to its model.
pub broadcast proof fn lemma_view_fields_push(s: Seq<Field>, f: Field)
    ensures
        #[trigger] view_fields(s.push(f)) == view_fields(s).push((f.0@, view_expr(f.1))),
{
    assert(s.push(f).drop_last() =~= s);
    assert(s.push(f).last() == f);
}

/// Appending to a declaration list appends to its model.
pub broadcast proof fn lemma_view_decs_push(s: Seq<Dec>, d: Dec)
    ensures
        #[trigger] view_decs(s.push(d)) == view_decs(s).push(view_dec(d)),
{
    assert(s.push(d).drop_last() =~= s);
    assert(s.push(d).last() == d);
}


/// The model of an expression list has the same length.
pub broadcast proof fn lemma_view_exprs_len(s: Seq<Expr>)
    ensures
        #[trigger] view_exprs(s).len() == s.len(),
    decreases s,
{
    if s.len() > 0 {
        lemma_view_exprs_len(s.drop_last());
    }
}

/// The model of an expression list is the elementwise model.
pub broadcast proof fn lemma_view_exprs_index(s: Seq<Expr>, i: int)
    requires
        0 <= i < s.len(),
    ensures
        #[trigger] view_exprs(s)[i] == view_expr(s[i]),
    decreases s,
{
    lemma_view_exprs_len(s);
    lemma_view_exprs_len(s.drop_last());
    if i < s.len() - 1 {
        lemma_view_exprs_index(s.drop_last(), i);
    }
}

/// The model of a field list has the same length.
pub broadcast proof fn lemma_view_fields_len(s: Seq<Field>)
    ensures
        #[trigger] view_fields(s).len() == s.len(),
    decreases s,
{
    if s.len() > 0 {
        lemma_view_fields_len(s.drop_last());
    }
}

/// The model of a field list is the elementwise model.
pub broadcast proof fn lemma_view_fields_index(s: Seq<Field>, i: int)
    requires
        0 <= i < s.len(),
    ensures
        #[trigger] view_fields(s)[i] == (s[i].0@, view_expr(s[i].1)),
    decreases s,
{
    lemma_view_fields_len(s);
    lemma_view_fields_len(s.drop_last());
    if i < s.len() - 1 {
        lemma_view_fields_index(s.drop_last(), i);
    }
}

/// The model of a declaration list has the same length.
pub broadcast proof fn lemma_view_decs_len(s: Seq<Dec>)
    ensures
        #[trigger] view_decs(s).len() == s.len(),
    decreases s,
{
    if s.len() > 0 {
        lemma_view_decs_len(s.drop_last());
    }
}

/// The model of a declaration list is the elementwise model.
pub broadcast proof fn lemma_view_decs_index(s: Seq<Dec>, i: int)
    requires
        0 <= i < s.len(),
    ensures
        #[trigger] view_decs(s)[i] == view_dec(s[i]),
    decreases s,
{
    lemma_view_decs_len(s);
    lemma_view_decs_len(s.drop_last());
    if i < s.len() - 1 {
        lemma_view_decs_index(s.drop_last(), i);
    }
}

} // verus!
