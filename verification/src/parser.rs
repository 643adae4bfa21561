//! The parser: a chain of layers, each of which reads its operands from the
//! next tighter one. It stops at the first error and never takes a token back.

use crate::errors::{FunctionError, LangErrorKind, LangErrorView};
use crate::expressions::{
    exprs_view, lemma_exprs_view_push, BinaryExpression, BindingExpression, CallExpression,
    ExprView, Expression, FunctionDeclerationExpression, IdentifierExpression,
    ImmediateExpression, Return, UnaryExpression,
};
use crate::grammar::{
    binary, binding, body, body_expressions, call, call_args, expect, expression, file, function,
    function_args, function_name, keyword, operand, primary, single_expression, unary,
    BinaryLayer,
};
use crate::keyword::Keyword;
use crate::op::Op;
use crate::stream::{Peeked, TokenStream};
use crate::token::{Identifier, Token};
use vstd::prelude::*;

verus! {

/// The result of parsing one expression.
pub type ExpressionResult = Result<Expression, LangErrorKind>;

/// What the result of parsing one expression is in contracts.
pub open spec fn expr_result_view(r: Result<Expression, LangErrorKind>) -> Result<
    ExprView,
    LangErrorView,
> {
    match r {
        Ok(e) => Ok(e@),
        Err(e) => Err(e@),
    }
}

/// What the result of parsing a list of expressions is in contracts.
pub open spec fn list_result_view(r: Result<Vec<Expression>, LangErrorKind>) -> Result<
    Seq<ExprView>,
    LangErrorView,
> {
    match r {
        Ok(v) => Ok(exprs_view(v@)),
        Err(e) => Err(e@),
    }
}

/// What the result of a step that builds nothing is in contracts.
pub open spec fn unit_result_view(r: Result<(), LangErrorKind>) -> Result<(), LangErrorView> {
    match r {
        Ok(_) => Ok(()),
        Err(e) => Err(e@),
    }
}

/// What the result of reading a name is in contracts.
pub open spec fn name_result_view(r: Result<Identifier, LangErrorKind>) -> Result<
    Seq<char>,
    LangErrorView,
> {
    match r {
        Ok(i) => Ok(i@),
        Err(e) => Err(e@),
    }
}

impl BinaryLayer {
    /// Whether `op` is an operator of this layer.
    pub fn has(&self, op: Op) -> (r: bool)
        ensures
            r == self.binds(op),
    {
        match self {
            BinaryLayer::Assigns => matches!(
                op,
                Op::AddAssign | Op::SubAssign | Op::MulAssign | Op::DivAssign
            ),
            BinaryLayer::AddSub => matches!(op, Op::Add | Op::Sub),
            BinaryLayer::MulDiv => matches!(op, Op::Mul | Op::Div),
        }
    }
}

/// Takes one token, which must be the symbol `op`.
pub fn expect_op(tokens: &mut TokenStream<'_>, op: Op) -> (r: Result<(), LangErrorKind>)
    requires
        old(tokens).wf(),
    ensures
        final(tokens).wf(),
        unit_result_view(r) == expect(old(tokens).items(), op).0,
        final(tokens).items() == expect(old(tokens).items(), op).1,
        final(tokens).items().len() <= old(tokens).items().len(),
        r.is_ok() ==> final(tokens).items().len() < old(tokens).items().len(),
{
    match tokens.next() {
        Some(Ok(Token::Op(found))) => {
            if found == op {
                Ok(())
            } else {
                Err(LangErrorKind::TokenShouldBe { should_be: Token::Op(op), got: Token::Op(found) })
            }
        },
        Some(Ok(tok)) => Err(LangErrorKind::TokenShouldBe { should_be: Token::Op(op), got: tok }),
        Some(Err(e)) => Err(LangErrorKind::TokenError(e)),
        None => Err(LangErrorKind::UnexpectedEOF),
    }
}

/// The loosest layer: the assignment operators.
pub struct AssignsBinaryExpressionParser;

/// The additive operators.
pub struct AddSubBinaryExpressionParser;

/// The multiplicative operators.
pub struct MulDivBinaryExpressionParser;

/// Calls: an operand and, where `(` follows it, its arguments.
pub struct FunctionCallExpressionParser;

/// The operators that stand before their operand.
pub struct UnaryExpressionParser;

/// The tightest layer, which hands nothing on.
pub struct SimpleExpressionParser;

impl AssignsBinaryExpressionParser {
    /// Parses a whole expression.
    pub fn parse(tokens: &mut TokenStream<'_>) -> (r: Result<Expression, LangErrorKind>)
        requires
            old(tokens).wf(),
        ensures
            final(tokens).wf(),
            expr_result_view(r) == expression(old(tokens).items()).0,
            final(tokens).items() == expression(old(tokens).items()).1,
            final(tokens).items().len() <= old(tokens).items().len(),
            r.is_ok() ==> final(tokens).items().len() < old(tokens).items().len(),
        decreases old(tokens).items().len(), 6nat,
    {
        parse_binary_expr(tokens, BinaryLayer::Assigns)
    }
}

impl AddSubBinaryExpressionParser {
    /// Parses a chain of additive operators and their operands.
    pub fn parse(tokens: &mut TokenStream<'_>) -> (r: Result<Expression, LangErrorKind>)
        requires
            old(tokens).wf(),
        ensures
            final(tokens).wf(),
            expr_result_view(r) == binary(old(tokens).items(), BinaryLayer::AddSub).0,
            final(tokens).items() == binary(old(tokens).items(), BinaryLayer::AddSub).1,
            final(tokens).items().len() <= old(tokens).items().len(),
            r.is_ok() ==> final(tokens).items().len() < old(tokens).items().len(),
        decreases old(tokens).items().len(), 4nat, 2nat,
    {
        parse_binary_expr(tokens, BinaryLayer::AddSub)
    }
}

impl MulDivBinaryExpressionParser {
    /// Parses a chain of multiplicative operators and their operands.
    pub fn parse(tokens: &mut TokenStream<'_>) -> (r: Result<Expression, LangErrorKind>)
        requires
            old(tokens).wf(),
        ensures
            final(tokens).wf(),
            expr_result_view(r) == binary(old(tokens).items(), BinaryLayer::MulDiv).0,
            final(tokens).items() == binary(old(tokens).items(), BinaryLayer::MulDiv).1,
            final(tokens).items().len() <= old(tokens).items().len(),
            r.is_ok() ==> final(tokens).items().len() < old(tokens).items().len(),
        decreases old(tokens).items().len(), 3nat, 2nat,
    {
        parse_binary_expr(tokens, BinaryLayer::MulDiv)
    }
}

/// Parses the operand of a layer with the next tighter layer.
pub fn parse_operand(tokens: &mut TokenStream<'_>, layer: BinaryLayer) -> (r: Result<
    Expression,
    LangErrorKind,
>)
    requires
        old(tokens).wf(),
    ensures
        final(tokens).wf(),
        expr_result_view(r) == operand(old(tokens).items(), layer).0,
        final(tokens).items() == operand(old(tokens).items(), layer).1,
        final(tokens).items().len() <= old(tokens).items().len(),
        r.is_ok() ==> final(tokens).items().len() < old(tokens).items().len(),
    decreases old(tokens).items().len(), layer.rank(), 0nat,
{
    match layer {
        BinaryLayer::Assigns => AddSubBinaryExpressionParser::parse(tokens),
        BinaryLayer::AddSub => MulDivBinaryExpressionParser::parse(tokens),
        BinaryLayer::MulDiv => FunctionCallExpressionParser::parse(tokens),
    }
}

/// Parses an operand and, where an operator of `layer` follows it, the
/// operator and the rest of the chain as the right operand.
pub fn parse_binary_expr(tokens: &mut TokenStream<'_>, layer: BinaryLayer) -> (r: Result<
    Expression,
    LangErrorKind,
>)
    requires
        old(tokens).wf(),
    ensures
        final(tokens).wf(),
        expr_result_view(r) == binary(old(tokens).items(), layer).0,
        final(tokens).items() == binary(old(tokens).items(), layer).1,
        final(tokens).items().len() <= old(tokens).items().len(),
        r.is_ok() ==> final(tokens).items().len() < old(tokens).items().len(),
    decreases old(tokens).items().len(), layer.rank(), 1nat,
{
    let left = match parse_operand(tokens, layer) {
        Ok(left) => left,
        Err(e) => {
            return Err(e);
        },
    };
    match tokens.peek() {
        Peeked::Failure => {
            match tokens.next() {
                Some(Err(e)) => Err(LangErrorKind::TokenError(e)),
                _ => unreached(),
            }
        },
        Peeked::Symbol(op) => {
            if layer.has(op) {
                let _ = tokens.next();
                let right = match parse_binary_expr(tokens, layer) {
                    Ok(right) => right,
                    Err(e) => {
                        return Err(e);
                    },
                };
                Ok(
                    Expression::BinaryExpression(
                        BinaryExpression { left: Box::new(left), op, right: Box::new(right) },
                    ),
                )
            } else {
                Ok(left)
            }
        },
        _ => Ok(left),
    }
}

impl FunctionCallExpressionParser {
    /// Parses a unary expression and, where `(` follows it, the arguments
    /// of a call of it.
    #[verifier::loop_isolation(false)]
    pub fn parse(tokens: &mut TokenStream<'_>) -> (r: Result<Expression, LangErrorKind>)
        requires
            old(tokens).wf(),
        ensures
            final(tokens).wf(),
            expr_result_view(r) == call(old(tokens).items()).0,
            final(tokens).items() == call(old(tokens).items()).1,
            final(tokens).items().len() <= old(tokens).items().len(),
            r.is_ok() ==> final(tokens).items().len() < old(tokens).items().len(),
        decreases old(tokens).items().len(), 2nat,
    {
        let ghost entry = tokens.items();
        let func = match UnaryExpressionParser::parse(tokens) {
            Ok(func) => func,
            Err(e) => {
                return Err(e);
            },
        };
        match tokens.peek() {
            Peeked::Symbol(Op::ParenthesesLeft) => {
                let _ = tokens.next();
                let ghost start = tokens.items();
                let mut args: Vec<Expression> = Vec::new();
                proof {
                    lemma_exprs_view_push(args@, func);
                }
                loop
                    invariant
                        tokens.wf(),
                        tokens.items().len() <= start.len(),
                        start.len() < entry.len(),
                        entry == old(tokens).items(),
                        call_args(start, Seq::empty()) == call_args(
                            tokens.items(),
                            exprs_view(args@),
                        ),
                    decreases tokens.items().len(),
                {
                    match tokens.peek() {
                        Peeked::Symbol(Op::ParenthesesRight) => {
                            let _ = tokens.next();
                            let call = CallExpression { func: Box::new(func), args };
                            assert(Expression::CallExpressin(call)@ == ExprView::Call {
                                func: Box::new(func@),
                                args: exprs_view(args@),
                            }) by {
                                assert(Expression::CallExpressin(call)@->Call_args =~= exprs_view(
                                    args@,
                                ));
                            }
                            return Ok(Expression::CallExpressin(call));
                        },
                        Peeked::Symbol(Op::Comma) => {
                            let _ = tokens.next();
                        },
                        Peeked::Failure => {
                            return match tokens.next() {
                                Some(Err(e)) => Err(LangErrorKind::TokenError(e)),
                                _ => unreached(),
                            };
                        },
                        Peeked::End => {
                            return Err(LangErrorKind::UnexpectedEOF);
                        },
                        _ => {
                            let arg = match AssignsBinaryExpressionParser::parse(tokens) {
                                Ok(arg) => arg,
                                Err(e) => {
                                    return Err(e);
                                },
                            };
                            proof {
                                lemma_exprs_view_push(args@, arg);
                            }
                            args.push(arg);
                        },
                    }
                }
            },
            _ => Ok(func),
        }
    }
}

impl UnaryExpressionParser {
    /// Parses a primary expression, or one with `-` or `!` before it.
    pub fn parse(tokens: &mut TokenStream<'_>) -> (r: Result<Expression, LangErrorKind>)
        requires
            old(tokens).wf(),
        ensures
            final(tokens).wf(),
            expr_result_view(r) == unary(old(tokens).items()).0,
            final(tokens).items() == unary(old(tokens).items()).1,
            final(tokens).items().len() <= old(tokens).items().len(),
            r.is_ok() ==> final(tokens).items().len() < old(tokens).items().len(),
        decreases old(tokens).items().len(), 1nat,
    {
        match tokens.peek() {
            Peeked::Symbol(op) => {
                if op.can_be_unary() {
                    let _ = tokens.next();
                    match SimpleExpressionParser::parse(tokens) {
                        Ok(expr) => Ok(
                            Expression::UnaryExpression(UnaryExpression { op, expr: Box::new(expr) }),
                        ),
                        Err(e) => Err(e),
                    }
                } else {
                    SimpleExpressionParser::parse(tokens)
                }
            },
            _ => SimpleExpressionParser::parse(tokens),
        }
    }
}

impl SimpleExpressionParser {
    /// Parses a name, a literal, an expression in parentheses, or what a
    /// reserved word begins.
    pub fn parse(tokens: &mut TokenStream<'_>) -> (r: Result<Expression, LangErrorKind>)
        requires
            old(tokens).wf(),
        ensures
            final(tokens).wf(),
            expr_result_view(r) == primary(old(tokens).items()).0,
            final(tokens).items() == primary(old(tokens).items()).1,
            final(tokens).items().len() <= old(tokens).items().len(),
            r.is_ok() ==> final(tokens).items().len() < old(tokens).items().len(),
        decreases old(tokens).items().len(), 0nat,
    {
        match tokens.next() {
            None => Err(LangErrorKind::UnexpectedEOF),
            Some(Err(e)) => Err(LangErrorKind::TokenError(e)),
            Some(Ok(Token::Identifier(ident))) => Ok(
                Expression::IdentifierExpression(IdentifierExpression { ident }),
            ),
            Some(Ok(Token::Immediate(value))) => Ok(
                Expression::ImmediateExpression(ImmediateExpression { value }),
            ),
            Some(Ok(Token::Op(Op::ParenthesesLeft))) => {
                let inner = match AssignsBinaryExpressionParser::parse(tokens) {
                    Ok(inner) => inner,
                    Err(e) => {
                        return Err(e);
                    },
                };
                match expect_op(tokens, Op::ParenthesesRight) {
                    Ok(_) => Ok(inner),
                    Err(e) => Err(e),
                }
            },
            Some(Ok(Token::Keyword(k))) => parse_keyword(tokens, k),
            Some(Ok(tok)) => Err(LangErrorKind::UnexpectedToken(tok)),
        }
    }
}

/// Parses what follows the reserved word `keyword`.
pub fn parse_keyword(tokens: &mut TokenStream<'_>, keyword: Keyword) -> (r: Result<
    Expression,
    LangErrorKind,
>)
    requires
        old(tokens).wf(),
    ensures
        final(tokens).wf(),
        expr_result_view(r) == crate::grammar::keyword(old(tokens).items(), keyword).0,
        final(tokens).items() == crate::grammar::keyword(old(tokens).items(), keyword).1,
        final(tokens).items().len() <= old(tokens).items().len(),
    decreases old(tokens).items().len(), 9nat,
{
    match keyword {
        Keyword::Let => parse_binding(tokens),
        Keyword::Fn => match parse_func_decl(tokens) {
            Ok(decl) => Ok(Expression::FunctionDeclerationExpression(decl)),
            Err(e) => Err(e),
        },
        Keyword::Return => Ok(Expression::Return(Return)),
        Keyword::Extern => Err(LangErrorKind::UnexpectedToken(Token::Keyword(keyword))),
    }
}

/// Parses a binding after its `let`.
pub fn parse_binding(tokens: &mut TokenStream<'_>) -> (r: Result<Expression, LangErrorKind>)
    requires
        old(tokens).wf(),
    ensures
        final(tokens).wf(),
        expr_result_view(r) == binding(old(tokens).items()).0,
        final(tokens).items() == binding(old(tokens).items()).1,
        final(tokens).items().len() <= old(tokens).items().len(),
        r.is_ok() ==> final(tokens).items().len() < old(tokens).items().len(),
    decreases old(tokens).items().len(), 8nat,
{
    let name = match tokens.next() {
        Some(Ok(Token::Identifier(name))) => name,
        Some(Ok(tok)) => {
            return Err(LangErrorKind::UnexpectedToken(tok));
        },
        Some(Err(e)) => {
            return Err(LangErrorKind::TokenError(e));
        },
        None => {
            return Err(LangErrorKind::UnexpectedEOF);
        },
    };
    match expect_op(tokens, Op::Equal) {
        Ok(_) => {},
        Err(e) => {
            return Err(e);
        },
    }
    match AssignsBinaryExpressionParser::parse(tokens) {
        Ok(value) => Ok(
            Expression::BindingExpression(BindingExpression { name, value: Box::new(value) }),
        ),
        Err(e) => Err(e),
    }
}

/// Reads the name of a function after its `fn`.
pub fn parse_function_name(tokens: &mut TokenStream<'_>) -> (r: Result<Identifier, LangErrorKind>)
    requires
        old(tokens).wf(),
    ensures
        final(tokens).wf(),
        name_result_view(r) == function_name(old(tokens).items()).0,
        final(tokens).items() == function_name(old(tokens).items()).1,
        final(tokens).items().len() <= old(tokens).items().len(),
        r.is_ok() ==> final(tokens).items().len() < old(tokens).items().len(),
{
    match tokens.next() {
        Some(Ok(Token::Identifier(ident))) => Ok(ident),
        Some(Ok(tok)) => Err(
            LangErrorKind::FunctionError(FunctionError::FunctionNameShouldBeIdentifier(tok)),
        ),
        Some(Err(e)) => Err(LangErrorKind::TokenError(e)),
        None => Err(LangErrorKind::UnexpectedEOF),
    }
}

/// Reads the parameters of a function: `(` and `)` with nothing between them.
pub fn parse_function_args(tokens: &mut TokenStream<'_>) -> (r: Result<(), LangErrorKind>)
    requires
        old(tokens).wf(),
    ensures
        final(tokens).wf(),
        unit_result_view(r) == function_args(old(tokens).items()).0,
        final(tokens).items() == function_args(old(tokens).items()).1,
        final(tokens).items().len() <= old(tokens).items().len(),
        r.is_ok() ==> final(tokens).items().len() < old(tokens).items().len(),
{
    match expect_op(tokens, Op::ParenthesesLeft) {
        Ok(_) => expect_op(tokens, Op::ParenthesesRight),
        Err(e) => Err(e),
    }
}

/// Parses a function declaration after its `fn`.
pub fn parse_func_decl(tokens: &mut TokenStream<'_>) -> (r: Result<
    FunctionDeclerationExpression,
    LangErrorKind,
>)
    requires
        old(tokens).wf(),
    ensures
        final(tokens).wf(),
        match r {
            Ok(decl) => function(old(tokens).items()).0 == Ok::<ExprView, LangErrorView>(
                Expression::FunctionDeclerationExpression(decl)@,
            ),
            Err(e) => function(old(tokens).items()).0 == Err::<ExprView, LangErrorView>(e@),
        },
        final(tokens).items() == function(old(tokens).items()).1,
        final(tokens).items().len() <= old(tokens).items().len(),
        r.is_ok() ==> final(tokens).items().len() < old(tokens).items().len(),
    decreases old(tokens).items().len(), 8nat,
{
    let ident = match parse_function_name(tokens) {
        Ok(ident) => ident,
        Err(e) => {
            return Err(e);
        },
    };
    match parse_function_args(tokens) {
        Ok(_) => {},
        Err(e) => {
            return Err(e);
        },
    }
    let body = match parse_body_expressions(tokens) {
        Ok(body) => body,
        Err(e) => {
            return Err(e);
        },
    };
    let decl = FunctionDeclerationExpression { ident, parameters: Vec::new(), body };
    proof {
        let v = Expression::FunctionDeclerationExpression(decl)@;
        assert(v->FunctionDecleration_body =~= exprs_view(body@));
        assert(v->FunctionDecleration_parameters =~= Seq::<Seq<char>>::empty());
    }
    Ok(decl)
}

/// Parses the body of a function: `{`, expressions that each end with `;`,
/// and `}`.
#[verifier::loop_isolation(false)]
pub fn parse_body_expressions(tokens: &mut TokenStream<'_>) -> (r: Result<
    Vec<Expression>,
    LangErrorKind,
>)
    requires
        old(tokens).wf(),
    ensures
        final(tokens).wf(),
        list_result_view(r) == body(old(tokens).items()).0,
        final(tokens).items() == body(old(tokens).items()).1,
        final(tokens).items().len() <= old(tokens).items().len(),
        r.is_ok() ==> final(tokens).items().len() < old(tokens).items().len(),
    decreases old(tokens).items().len(), 7nat, 1nat,
{
    let ghost entry = tokens.items();
    match expect_op(tokens, Op::SquiglyParenthesesLeft) {
        Ok(_) => {},
        Err(e) => {
            return Err(e);
        },
    }
    let ghost start = tokens.items();
    let mut exprs: Vec<Expression> = Vec::new();
    proof {
        assert(exprs_view(exprs@) =~= Seq::<ExprView>::empty());
    }
    loop
        invariant
            tokens.wf(),
            tokens.items().len() <= start.len(),
            start.len() < entry.len(),
            entry == old(tokens).items(),
            body_expressions(start, Seq::empty()) == body_expressions(
                tokens.items(),
                exprs_view(exprs@),
            ),
        decreases tokens.items().len(),
    {
        match tokens.peek() {
            Peeked::Symbol(Op::SquiglyParenthesesRight) => {
                let _ = tokens.next();
                return Ok(exprs);
            },
            Peeked::Failure => {
                return match tokens.next() {
                    Some(Err(e)) => Err(LangErrorKind::TokenError(e)),
                    _ => unreached(),
                };
            },
            Peeked::End => {
                return Err(LangErrorKind::UnexpectedEOF);
            },
            _ => {
                let one = match AssignsBinaryExpressionParser::parse(tokens) {
                    Ok(one) => one,
                    Err(e) => {
                        return Err(e);
                    },
                };
                match expect_op(tokens, Op::SemiColon) {
                    Ok(_) => {},
                    Err(e) => {
                        return Err(e);
                    },
                }
                proof {
                    lemma_exprs_view_push(exprs@, one);
                }
                exprs.push(one);
            },
        }
    }
}

/// Parses one expression that is the whole input: a token that is left
/// after the expression is an error.
pub fn parse_expression(tokens: &mut TokenStream<'_>) -> (r: Result<Expression, LangErrorKind>)
    requires
        old(tokens).wf(),
    ensures
        final(tokens).wf(),
        expr_result_view(r) == single_expression(old(tokens).items()).0,
        final(tokens).items() == single_expression(old(tokens).items()).1,
        r.is_ok() ==> final(tokens).items().len() == 0,
{
    let one = match AssignsBinaryExpressionParser::parse(tokens) {
        Ok(one) => one,
        Err(e) => {
            return Err(e);
        },
    };
    match tokens.next() {
        None => Ok(one),
        Some(Ok(tok)) => Err(LangErrorKind::UnexpectedToken(tok)),
        Some(Err(e)) => Err(LangErrorKind::TokenError(e)),
    }
}

/// Parses one expression after the other until nothing is left.
pub fn parse_file(tokens: &mut TokenStream<'_>) -> (r: Result<Vec<Expression>, LangErrorKind>)
    requires
        old(tokens).wf(),
    ensures
        final(tokens).wf(),
        list_result_view(r) == file(old(tokens).items(), Seq::empty()).0,
        final(tokens).items() == file(old(tokens).items(), Seq::empty()).1,
        r.is_ok() ==> final(tokens).items().len() == 0,
{
    let mut ans: Vec<Expression> = Vec::new();
    proof {
        assert(exprs_view(ans@) =~= Seq::<ExprView>::empty());
    }
    loop
        invariant
            tokens.wf(),
            file(old(tokens).items(), Seq::empty()) == file(tokens.items(), exprs_view(ans@)),
        decreases tokens.items().len(),
    {
        match tokens.peek() {
            Peeked::End => {
                return Ok(ans);
            },
            _ => {
                let one = match AssignsBinaryExpressionParser::parse(tokens) {
                    Ok(one) => one,
                    Err(e) => {
                        return Err(e);
                    },
                };
                proof {
                    lemma_exprs_view_push(ans@, one);
                }
                ans.push(one);
            },
        }
    }
}

} // verus!
