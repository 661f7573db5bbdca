//! The expression tree of the interpreted language.
//!
//! Programs arrive as an already-parsed tree of [`Expr`] nodes. The
//! mathematical model of a tree is a [`SpecExpr`], in which every list of
//! children is a `Seq` and every name is a `Seq<char>`; the evaluator's
//! contracts are stated over that model.

use vstd::prelude::*;

verus! {

/// One node of the expression tree.
///
/// `Clause` is only meaningful as a direct child of `Cond`, and `Parameters`
/// as the first child of `Lambda`; the evaluator reports a structural error
/// when either occurs anywhere else.
#[derive(Debug)]
pub enum Expr {
    /// An integer literal.
    Number(i64),
    /// A string literal.
    Str(String),
    /// A name, resolved against the environment at evaluation time.
    Identifier(String),
    /// Operator expression followed by argument expressions.
    Application(Vec<Expr>),
    /// Sequential evaluation in a fresh child scope; yields the last value.
    Block(Vec<Expr>),
    /// Conditional: a list of `Clause` children tried in order.
    Cond(Vec<Expr>),
    /// A `(condition, consequent)` pair; exactly two children.
    Clause(Vec<Expr>),
    /// A parameter list: a flat sequence of `Identifier`s.
    Parameters(Vec<Expr>),
    /// Exactly two children: a `Parameters` node and a body expression.
    Lambda(Vec<Expr>),
    /// `Let(name, value, body)`: binds `name` in the current scope.
    Let(Box<Expr>, Box<Expr>, Box<Expr>),
    /// `Assignment(name, value)`: mutates the existing binding of `name`.
    Assignment(Box<Expr>, Box<Expr>),
}

/// The mathematical model of an [`Expr`].
pub enum SpecExpr {
    Number(i64),
    Str(Seq<char>),
    Identifier(Seq<char>),
    Application(Seq<SpecExpr>),
    Block(Seq<SpecExpr>),
    Cond(Seq<SpecExpr>),
    Clause(Seq<SpecExpr>),
    Parameters(Seq<SpecExpr>),
    Lambda(Seq<SpecExpr>),
    Let(Box<SpecExpr>, Box<SpecExpr>, Box<SpecExpr>),
    Assignment(Box<SpecExpr>, Box<SpecExpr>),
}

/// The model of an expression node.
pub open spec fn expr_view(e: Expr) -> SpecExpr
    decreases e,
{
    match e {
        Expr::Number(n) => SpecExpr::Number(n),
        Expr::Str(s) => SpecExpr::Str(s@),
        Expr::Identifier(s) => SpecExpr::Identifier(s@),
        Expr::Application(es) => SpecExpr::Application(exprs_view(es@)),
        Expr::Block(es) => SpecExpr::Block(exprs_view(es@)),
        Expr::Cond(es) => SpecExpr::Cond(exprs_view(es@)),
        Expr::Clause(es) => SpecExpr::Clause(exprs_view(es@)),
        Expr::Parameters(es) => SpecExpr::Parameters(exprs_view(es@)),
        Expr::Lambda(es) => SpecExpr::Lambda(exprs_view(es@)),
        Expr::Let(n, v, b) => SpecExpr::Let(
            Box::new(expr_view(*n)),
            Box::new(expr_view(*v)),
            Box::new(expr_view(*b)),
        ),
        Expr::Assignment(n, v) => SpecExpr::Assignment(
            Box::new(expr_view(*n)),
            Box::new(expr_view(*v)),
        ),
    }
}

/// The models of a list of expression nodes, in order.
pub open spec fn exprs_view(es: Seq<Expr>) -> Seq<SpecExpr>
    decreases es,
{
    if es.len() == 0 {
        Seq::empty()
    } else {
        proof {
            vstd::seq::axiom_seq_subrange_decreases::<Expr>(es, 1, es.len() as int);
        }
        seq![expr_view(es[0])] + exprs_view(es.subrange(1, es.len() as int))
    }
}

/// A model list has one entry per node.
pub broadcast proof fn lemma_exprs_view_len(es: Seq<Expr>)
    ensures
        #[trigger] exprs_view(es).len() == es.len(),
    decreases es.len(),
{
    if es.len() != 0 {
        lemma_exprs_view_len(es.subrange(1, es.len() as int));
    }
}

/// The model list is the pointwise model of the nodes.
pub broadcast proof fn lemma_exprs_view_index(es: Seq<Expr>, i: int)
    requires
        0 <= i < es.len(),
    ensures
        #[trigger] exprs_view(es)[i] == expr_view(es[i]),
    decreases es.len(),
{
    lemma_exprs_view_len(es);
    if i > 0 {
        lemma_exprs_view_index(es.subrange(1, es.len() as int), i - 1);
    }
}

impl View for Expr {
    type V = SpecExpr;

    open spec fn view(&self) -> SpecExpr {
        expr_view(*self)
    }
}

/// A deep copy of an expression node, with the same model.
pub fn dup_expr(e: &Expr) -> (r: Expr)
    ensures
        r@ == e@,
    decreases *e,
{
    match e {
        Expr::Number(n) => Expr::Number(*n),
        Expr::Str(s) => Expr::Str(s.clone()),
        Expr::Identifier(s) => Expr::Identifier(s.clone()),
        Expr::Application(es) => Expr::Application(dup_exprs(es)),
        Expr::Block(es) => Expr::Block(dup_exprs(es)),
        Expr::Cond(es) => Expr::Cond(dup_exprs(es)),
        Expr::Clause(es) => Expr::Clause(dup_exprs(es)),
        Expr::Parameters(es) => Expr::Parameters(dup_exprs(es)),
        Expr::Lambda(es) => Expr::Lambda(dup_exprs(es)),
        Expr::Let(n, v, b) => Expr::Let(
            Box::new(dup_expr(n)),
            Box::new(dup_expr(v)),
            Box::new(dup_expr(b)),
        ),
        Expr::Assignment(n, v) => Expr::Assignment(
            Box::new(dup_expr(n)),
            Box::new(dup_expr(v)),
        ),
    }
}

/// A deep copy of a list of expression nodes, with the same models.
pub fn dup_exprs(es: &Vec<Expr>) -> (r: Vec<Expr>)
    ensures
        exprs_view(r@) == exprs_view(es@),
    decreases *es,
{
    let mut out: Vec<Expr> = Vec::new();
    let mut i: usize = 0;
    while i < es.len()
        invariant
            i <= es.len(),
            out@.len() == i as int,
            forall|j: int| 0 <= j < i ==> expr_view(out@[j]) == expr_view(es@[j]),
        decreases es.len() - i,
    {
        let d = dup_expr(&es[i]);
        out.push(d);
        i = i + 1;
    }
    proof {
        broadcast use lemma_exprs_view_len, lemma_exprs_view_index;

        assert(exprs_view(out@) =~= exprs_view(es@));
    }
    out
}

} // verus!
