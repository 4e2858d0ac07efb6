//! Expressions.

use vstd::prelude::*;

verus! {

/// An expression.
#[derive(Debug, PartialEq)]
pub enum Expr {
    Atom(Atom),
    LValue(LValue),
    StructInit(StructInit),
    ListInit(ListInit),
    Call(Box<Call>),
    BinExpr(Box<BinExpr>),
    UnExpr(Box<UnExpr>),
    Assign(Box<Assign>),
    Ternary(Box<Ternary>),
}

/// A left-value, that can be assigned to.
#[derive(Debug, PartialEq)]
pub enum LValue {
    /// A single identifier.
    Ident(String),
    /// A dotted path: an identifier followed by field names.
    Access(Vec<String>),
}

/// An assign expression.
#[derive(Debug, PartialEq)]
pub struct Assign {
    pub lvalue: LValue,
    pub expr: Expr,
}

/// A struct initialization: the shape's name and the fields in source order.
#[derive(Debug, PartialEq)]
pub struct StructInit {
    pub name: String,
    pub fields: Vec<(String, Expr)>,
}

/// A list initialization: the elements in source order.
#[derive(Debug, PartialEq)]
pub struct ListInit {
    pub exprs: Vec<Expr>,
}

/// A conditional expression.
#[derive(Debug, PartialEq)]
pub struct Ternary {
    pub cond: Expr,
    pub branch1: Expr,
    pub branch2: Expr,
}

/// The atomic value of a primitive.
///
/// A float literal is kept as its decimal spelling: the library carries
/// floats through and renders them, and computes nothing with them.
#[derive(Debug, PartialEq)]
pub enum Atom {
    Void,
    Bool(bool),
    Int(i64),
    Float(String),
    Char(char),
    String(String),
}

/// A call expression. Can only call builtins for now.
#[derive(Debug, PartialEq)]
pub struct Call {
    pub builtin: BuiltIn,
    pub args: Vec<Expr>,
}

/// A builtin function name.
#[derive(Clone, Copy, Debug, PartialEq, Eq, Structural)]
pub enum BuiltIn {
    Clone,
    Spawn,
    Delete,
    Print,
}

/// A binary expression.
#[derive(Debug, PartialEq)]
pub struct BinExpr {
    pub left: Expr,
    pub op: BinOp,
    pub right: Expr,
}

/// A binary operator.
#[derive(Clone, Copy, Debug, PartialEq, Eq, Structural)]
pub enum BinOp {
    Add,
    Sub,
    Mul,
    Div,
    Mod,
    And,
    Or,
    Xor,
    BitAnd,
    BitOr,
    Shl,
    Shr,
    Leq,
    Geq,
    Lt,
    Gt,
    Eq,
    Neq,
}

/// An unary expression.
#[derive(Debug, PartialEq)]
pub struct UnExpr {
    pub expr: Expr,
    pub op: UnOp,
}

/// An unary operator.
#[derive(Clone, Copy, Debug, PartialEq, Eq, Structural)]
pub enum UnOp {
    Pos,
    Neg,
    Not,
    BitNot,
}

/// The path that a left-value names: one identifier for `Ident`, the
/// segments for `Access`.
pub open spec fn lvalue_path(lvalue: LValue) -> Seq<Seq<char>> {
    match lvalue {
        LValue::Ident(name) => seq![name@],
        LValue::Access(path) => path.deep_view(),
    }
}

/// The mathematical model of an [`Atom`].
pub enum AtomView {
    Void,
    Bool(bool),
    Int(i64),
    Float(Seq<char>),
    Char(char),
    Text(Seq<char>),
}

/// The mathematical model of an [`LValue`].
pub enum LValueView {
    Ident(Seq<char>),
    Access(Seq<Seq<char>>),
}

/// The mathematical model of an [`Expr`].
pub enum ExprView {
    Atom(AtomView),
    LValue(LValueView),
    StructInit(Seq<char>, Seq<(Seq<char>, ExprView)>),
    ListInit(Seq<ExprView>),
    Call(BuiltIn, Seq<ExprView>),
    BinExpr(Box<ExprView>, BinOp, Box<ExprView>),
    UnExpr(UnOp, Box<ExprView>),
    Assign(LValueView, Box<ExprView>),
    Ternary(Box<ExprView>, Box<ExprView>, Box<ExprView>),
}

impl DeepView for Atom {
    type V = AtomView;

    open spec fn deep_view(&self) -> AtomView {
        match self {
            Atom::Void => AtomView::Void,
            Atom::Bool(b) => AtomView::Bool(*b),
            Atom::Int(i) => AtomView::Int(*i),
            Atom::Float(text) => AtomView::Float(text@),
            Atom::Char(c) => AtomView::Char(*c),
            Atom::String(text) => AtomView::Text(text@),
        }
    }
}

impl DeepView for LValue {
    type V = LValueView;

    open spec fn deep_view(&self) -> LValueView {
        match self {
            LValue::Ident(name) => LValueView::Ident(name@),
            LValue::Access(path) => LValueView::Access(path.deep_view()),
        }
    }
}

/// The model of an expression.
#[verifier::opaque]
pub open spec fn expr_view(expr: Expr) -> ExprView
    decreases expr,
{
    match expr {
        Expr::Atom(atom) => ExprView::Atom(atom.deep_view()),
        Expr::LValue(lvalue) => ExprView::LValue(lvalue.deep_view()),
        Expr::StructInit(init) => ExprView::StructInit(
            init.name@,
            Seq::new(
                init.fields@.len(),
                |i: int|
                    if 0 <= i < init.fields@.len() {
                        (init.fields@[i].0@, expr_view(init.fields@[i].1))
                    } else {
                        (Seq::empty(), ExprView::Atom(AtomView::Void))
                    },
            ),
        ),
        Expr::ListInit(init) => ExprView::ListInit(exprs_view(init.exprs@)),
        Expr::Call(call) => ExprView::Call(call.builtin, exprs_view(call.args@)),
        Expr::BinExpr(bin) => ExprView::BinExpr(
            Box::new(expr_view(bin.left)),
            bin.op,
            Box::new(expr_view(bin.right)),
        ),
        Expr::UnExpr(un) => ExprView::UnExpr(un.op, Box::new(expr_view(un.expr))),
        Expr::Assign(assign) => ExprView::Assign(
            assign.lvalue.deep_view(),
            Box::new(expr_view(assign.expr)),
        ),
        Expr::Ternary(tern) => ExprView::Ternary(
            Box::new(expr_view(tern.cond)),
            Box::new(expr_view(tern.branch1)),
            Box::new(expr_view(tern.branch2)),
        ),
    }
}

/// The models of a run of expressions.
pub open spec fn exprs_view(exprs: Seq<Expr>) -> Seq<ExprView>
    decreases exprs,
{
    Seq::new(
        exprs.len(),
        |i: int|
            if 0 <= i < exprs.len() {
                expr_view(exprs[i])
            } else {
                ExprView::Atom(AtomView::Void)
            },
    )
}

impl DeepView for Expr {
    type V = ExprView;

    open spec fn deep_view(&self) -> ExprView {
        expr_view(*self)
    }
}

/// The model of an expression has the expression's form and holds the
/// models of its parts.
pub proof fn lemma_expr_view(expr: Expr)
    ensures
        expr.deep_view() == match expr {
            Expr::Atom(atom) => ExprView::Atom(atom.deep_view()),
            Expr::LValue(lvalue) => ExprView::LValue(lvalue.deep_view()),
            Expr::StructInit(init) => ExprView::StructInit(init.name@, init.fields.deep_view()),
            Expr::ListInit(init) => ExprView::ListInit(init.exprs.deep_view()),
            Expr::Call(call) => ExprView::Call(call.builtin, call.args.deep_view()),
            Expr::BinExpr(bin) => ExprView::BinExpr(
                Box::new(bin.left.deep_view()),
                bin.op,
                Box::new(bin.right.deep_view()),
            ),
            Expr::UnExpr(un) => ExprView::UnExpr(un.op, Box::new(un.expr.deep_view())),
            Expr::Assign(assign) => ExprView::Assign(
                assign.lvalue.deep_view(),
                Box::new(assign.expr.deep_view()),
            ),
            Expr::Ternary(tern) => ExprView::Ternary(
                Box::new(tern.cond.deep_view()),
                Box::new(tern.branch1.deep_view()),
                Box::new(tern.branch2.deep_view()),
            ),
        },
{
    reveal(expr_view);
    match expr {
        Expr::StructInit(init) => {
            assert(expr_view(expr)->StructInit_1 =~= init.fields.deep_view());
        },
        Expr::ListInit(init) => {
            assert(exprs_view(init.exprs@) =~= init.exprs.deep_view());
        },
        Expr::Call(call) => {
            assert(exprs_view(call.args@) =~= call.args.deep_view());
        },
        _ => {},
    }
}

} // verus!
