//! The expression tree that the parser builds. Every node owns its parts.

use crate::op::Op;
use crate::token::{Identifier, Immediate, ImmediateView};
use vstd::prelude::*;

verus! {

/// A literal.
#[derive(Debug, PartialEq, Eq)]
pub struct ImmediateExpression {
    pub value: Immediate,
}

/// Two operands with an operator between them.
#[derive(Debug, PartialEq, Eq)]
pub struct BinaryExpression {
    pub left: Box<Expression>,
    pub op: Op,
    pub right: Box<Expression>,
}

/// An operator before its one operand.
#[derive(Debug, PartialEq, Eq)]
pub struct UnaryExpression {
    pub op: Op,
    pub expr: Box<Expression>,
}

/// A call: what is called, which may be any expression, and the arguments in order.
#[derive(Debug, PartialEq, Eq)]
pub struct CallExpression {
    pub func: Box<Expression>,
    pub args: Vec<Expression>,
}

/// A name that stands for a value.
#[derive(Debug, PartialEq, Eq)]
pub struct IdentifierExpression {
    pub ident: Identifier,
}

/// A function declaration: its name, its parameters and the expressions of its body.
#[derive(Debug, PartialEq, Eq)]
pub struct FunctionDeclerationExpression {
    pub ident: Identifier,
    pub parameters: Vec<Identifier>,
    pub body: Vec<Expression>,
}

/// A block of expressions.
#[derive(Debug, PartialEq, Eq)]
pub struct ScopeExpressions {
    pub exprs: Vec<Expression>,
}

/// A binding of a name to the value of an expression.
#[derive(Debug, PartialEq, Eq)]
pub struct BindingExpression {
    pub name: Identifier,
    pub value: Box<Expression>,
}

/// A return, which takes no operand.
#[derive(Debug, Clone, Copy, PartialEq, Eq)]
pub struct Return;

/// An expression.
#[derive(Debug, PartialEq, Eq)]
pub enum Expression {
    BinaryExpression(BinaryExpression),
    UnaryExpression(UnaryExpression),
    CallExpressin(CallExpression),
    ImmediateExpression(ImmediateExpression),
    IdentifierExpression(IdentifierExpression),
    FunctionDeclerationExpression(FunctionDeclerationExpression),
    ScopeExpressions(ScopeExpressions),
    BindingExpression(BindingExpression),
    Return(Return),
}

/// What an `Expression` is in contracts: the same tree over texts.
pub enum ExprView {
    Binary { left: Box<ExprView>, op: Op, right: Box<ExprView> },
    Unary { op: Op, expr: Box<ExprView> },
    Call { func: Box<ExprView>, args: Seq<ExprView> },
    Immediate(ImmediateView),
    Identifier(Seq<char>),
    FunctionDecleration { name: Seq<char>, parameters: Seq<Seq<char>>, body: Seq<ExprView> },
    Scope(Seq<ExprView>),
    Binding { name: Seq<char>, value: Box<ExprView> },
    Return,
}

impl Expression {
    /// The tree of this expression over texts.
    pub open spec fn tree(&self) -> ExprView
        decreases self,
    {
        match self {
            Expression::BinaryExpression(e) => ExprView::Binary {
                left: Box::new(e.left.tree()),
                op: e.op,
                right: Box::new(e.right.tree()),
            },
            Expression::UnaryExpression(e) => ExprView::Unary {
                op: e.op,
                expr: Box::new(e.expr.tree()),
            },
            Expression::CallExpressin(e) => ExprView::Call {
                func: Box::new(e.func.tree()),
                args: Seq::new(
                    e.args@.len(),
                    |i: int|
                        if 0 <= i < e.args@.len() {
                            e.args@[i].tree()
                        } else {
                            arbitrary()
                        },
                ),
            },
            Expression::ImmediateExpression(e) => ExprView::Immediate(e.value@),
            Expression::IdentifierExpression(e) => ExprView::Identifier(e.ident@),
            Expression::FunctionDeclerationExpression(e) => ExprView::FunctionDecleration {
                name: e.ident@,
                parameters: Seq::new(e.parameters@.len(), |i: int| e.parameters@[i]@),
                body: Seq::new(
                    e.body@.len(),
                    |i: int|
                        if 0 <= i < e.body@.len() {
                            e.body@[i].tree()
                        } else {
                            arbitrary()
                        },
                ),
            },
            Expression::ScopeExpressions(e) => ExprView::Scope(
                Seq::new(
                    e.exprs@.len(),
                    |i: int|
                        if 0 <= i < e.exprs@.len() {
                            e.exprs@[i].tree()
                        } else {
                            arbitrary()
                        },
                ),
            ),
            Expression::BindingExpression(e) => ExprView::Binding {
                name: e.name@,
                value: Box::new(e.value.tree()),
            },
            Expression::Return(_) => ExprView::Return,
        }
    }
}

impl View for Expression {
    type V = ExprView;

    open spec fn view(&self) -> ExprView {
        self.tree()
    }
}

impl ExprView {
    /// Every operator in the tree stands where it may: between two operands
    /// only an operator that can be binary, before one operand only one that
    /// can be unary.
    pub open spec fn operators_in_place(self) -> bool
        decreases self,
    {
        match self {
            ExprView::Binary { left, op, right } => op.binary() && left.operators_in_place()
                && right.operators_in_place(),
            ExprView::Unary { op, expr } => op.unary() && expr.operators_in_place(),
            ExprView::Call { func, args } => func.operators_in_place() && forall|i: int|
                0 <= i < args.len() ==> (#[trigger] args[i]).operators_in_place(),
            ExprView::FunctionDecleration { name, parameters, body } => forall|i: int|
                0 <= i < body.len() ==> (#[trigger] body[i]).operators_in_place(),
            ExprView::Scope(exprs) => forall|i: int|
                0 <= i < exprs.len() ==> (#[trigger] exprs[i]).operators_in_place(),
            ExprView::Binding { name, value } => value.operators_in_place(),
            _ => true,
        }
    }
}

/// Every operator in every tree of the list stands where it may.
pub open spec fn all_in_place(exprs: Seq<ExprView>) -> bool {
    forall|i: int| 0 <= i < exprs.len() ==> (#[trigger] exprs[i]).operators_in_place()
}

/// What a list of expressions is in contracts.
pub open spec fn exprs_view(exprs: Seq<Expression>) -> Seq<ExprView> {
    Seq::new(exprs.len(), |i: int| exprs[i]@)
}

/// The view of a list that grew by one expression is the view of the list
/// with the view of that expression added.
pub proof fn lemma_exprs_view_push(exprs: Seq<Expression>, e: Expression)
    ensures
        exprs_view(exprs.push(e)) == exprs_view(exprs).push(e@),
        exprs_view(Seq::empty()) == Seq::<ExprView>::empty(),
{
    assert(exprs_view(exprs.push(e)) =~= exprs_view(exprs).push(e@));
    assert(exprs_view(Seq::empty()) =~= Seq::<ExprView>::empty());
}

} // verus!
