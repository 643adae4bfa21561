//! The grammar, as functions from the items that the lexer yields to the
//! tree that the parser builds and the items that it leaves.
//!
//! The layers, from the loosest binding to the tightest: assignment,
//! additive, multiplicative, call, unary, primary. A chain of operators of
//! one layer groups to the right.

use crate::errors::{FunctionErrorView, LangErrorView, TokenErrorView};
use crate::expressions::ExprView;
use crate::keyword::Keyword;
use crate::op::Op;
use crate::token::TokenView;
use vstd::prelude::*;

verus! {

/// An item of the lexer's output: a token or the error that ended the lexing.
pub type Lexed = Result<TokenView, TokenErrorView>;

/// The outcome of one grammar rule and the items that it left.
pub type Parsed = (Result<ExprView, LangErrorView>, Seq<Lexed>);

/// The outcome of a rule that reads a list of expressions, and the items that it left.
pub type ParsedList = (Result<Seq<ExprView>, LangErrorView>, Seq<Lexed>);

/// A layer of operators that stand between two operands.
#[derive(Debug, Clone, Copy, PartialEq, Eq, Structural)]
pub enum BinaryLayer {
    /// `+=`, `-=`, `*=`, `/=`
    Assigns,
    /// `+`, `-`
    AddSub,
    /// `*`, `/`
    MulDiv,
}

impl BinaryLayer {
    /// Whether `op` is an operator of this layer.
    pub open spec fn binds(self, op: Op) -> bool {
        match self {
            BinaryLayer::Assigns => op == Op::AddAssign || op == Op::SubAssign || op
                == Op::MulAssign || op == Op::DivAssign,
            BinaryLayer::AddSub => op == Op::Add || op == Op::Sub,
            BinaryLayer::MulDiv => op == Op::Mul || op == Op::Div,
        }
    }

    /// The place of this layer in the chain: a layer hands its operands to
    /// the layer of the next lower rank.
    pub open spec fn rank(self) -> nat {
        match self {
            BinaryLayer::Assigns => 5,
            BinaryLayer::AddSub => 4,
            BinaryLayer::MulDiv => 3,
        }
    }

    /// Every operator of a layer may stand between two operands.
    pub proof fn lemma_binds_binary(self, op: Op)
        requires
            self.binds(op),
        ensures
            op.binary(),
    {
    }
}

/// The items after the first one; nothing, where there is none.
pub open spec fn after_first(items: Seq<Lexed>) -> Seq<Lexed> {
    if items.len() > 0 {
        items.drop_first()
    } else {
        items
    }
}

/// Takes one item, which must be the symbol `op`.
pub open spec fn expect(items: Seq<Lexed>, op: Op) -> (Result<(), LangErrorView>, Seq<Lexed>) {
    if items.len() == 0 {
        (Err(LangErrorView::UnexpectedEOF), items)
    } else {
        match items[0] {
            Ok(t) => if t == TokenView::Op(op) {
                (Ok(()), items.drop_first())
            } else {
                (
                    Err(LangErrorView::TokenShouldBe { should_be: TokenView::Op(op), got: t }),
                    items.drop_first(),
                )
            },
            Err(e) => (Err(LangErrorView::TokenError(e)), items.drop_first()),
        }
    }
}

/// A whole expression: the loosest layer.
pub open spec fn expression(items: Seq<Lexed>) -> Parsed
    decreases items.len(), 6nat,
{
    binary(items, BinaryLayer::Assigns)
}

/// The operand of a layer: the next tighter layer.
pub open spec fn operand(items: Seq<Lexed>, layer: BinaryLayer) -> Parsed
    decreases items.len(), layer.rank(), 0nat,
{
    match layer {
        BinaryLayer::Assigns => binary(items, BinaryLayer::AddSub),
        BinaryLayer::AddSub => binary(items, BinaryLayer::MulDiv),
        BinaryLayer::MulDiv => call(items),
    }
}

/// An operand, and, where an operator of the layer follows it, the operator
/// and the rest of the chain as the right operand.
pub open spec fn binary(items: Seq<Lexed>, layer: BinaryLayer) -> Parsed
    decreases items.len(), layer.rank(), 1nat,
{
    let (left, rest) = operand(items, layer);
    match left {
        Err(e) => (Err(e), rest),
        Ok(l) => if rest.len() == 0 {
            (Ok(l), rest)
        } else {
            match rest[0] {
                Err(e) => (Err(LangErrorView::TokenError(e)), rest.drop_first()),
                Ok(TokenView::Op(op)) => if layer.binds(op) && rest.len() <= items.len() {
                    let (right, last) = binary(rest.drop_first(), layer);
                    match right {
                        Err(e) => (Err(e), last),
                        Ok(r) => (
                            Ok(ExprView::Binary { left: Box::new(l), op, right: Box::new(r) }),
                            last,
                        ),
                    }
                } else {
                    (Ok(l), rest)
                },
                Ok(_) => (Ok(l), rest),
            }
        },
    }
}

/// A unary expression, and, where `(` follows it, the arguments of a call of it.
pub open spec fn call(items: Seq<Lexed>) -> Parsed
    decreases items.len(), 2nat,
{
    let (func, rest) = unary(items);
    match func {
        Err(e) => (Err(e), rest),
        Ok(f) => if rest.len() > 0 && rest[0] == Ok::<TokenView, TokenErrorView>(
            TokenView::Op(Op::ParenthesesLeft),
        ) && rest.len() <= items.len() {
            let (args, last) = call_args(rest.drop_first(), Seq::empty());
            match args {
                Err(e) => (Err(e), last),
                Ok(a) => (Ok(ExprView::Call { func: Box::new(f), args: a }), last),
            }
        } else {
            (Ok(f), rest)
        },
    }
}

/// The arguments of a call after `acc`, up to the `)` that ends them. A
/// comma is passed over wherever it stands.
pub open spec fn call_args(items: Seq<Lexed>, acc: Seq<ExprView>) -> ParsedList
    decreases items.len(), 7nat,
{
    if items.len() == 0 {
        (Err(LangErrorView::UnexpectedEOF), items)
    } else {
        match items[0] {
            Err(e) => (Err(LangErrorView::TokenError(e)), items.drop_first()),
            Ok(TokenView::Op(Op::ParenthesesRight)) => (Ok(acc), items.drop_first()),
            Ok(TokenView::Op(Op::Comma)) => call_args(items.drop_first(), acc),
            Ok(_) => {
                let (arg, rest) = expression(items);
                match arg {
                    Err(e) => (Err(e), rest),
                    Ok(a) => if rest.len() < items.len() {
                        call_args(rest, acc.push(a))
                    } else {
                        (Ok(acc.push(a)), rest)
                    },
                }
            },
        }
    }
}

/// A primary expression, or one with `-` or `!` before it.
pub open spec fn unary(items: Seq<Lexed>) -> Parsed
    decreases items.len(), 1nat,
{
    if items.len() > 0 && (items[0] matches Ok(TokenView::Op(op)) && op.unary()) {
        let (operand, rest) = primary(items.drop_first());
        match operand {
            Err(e) => (Err(e), rest),
            Ok(o) => (Ok(ExprView::Unary { op: items[0]->Ok_0->Op_0, expr: Box::new(o) }), rest),
        }
    } else {
        primary(items)
    }
}

/// The tightest layer: a name, a literal, an expression in parentheses, or
/// what a reserved word begins.
pub open spec fn primary(items: Seq<Lexed>) -> Parsed
    decreases items.len(), 0nat,
{
    if items.len() == 0 {
        (Err(LangErrorView::UnexpectedEOF), items)
    } else {
        let rest = items.drop_first();
        match items[0] {
            Err(e) => (Err(LangErrorView::TokenError(e)), rest),
            Ok(TokenView::Identifier(name)) => (Ok(ExprView::Identifier(name)), rest),
            Ok(TokenView::Immediate(value)) => (Ok(ExprView::Immediate(value)), rest),
            Ok(TokenView::Op(Op::ParenthesesLeft)) => {
                let (inner, after) = expression(rest);
                match inner {
                    Err(e) => (Err(e), after),
                    Ok(i) => match expect(after, Op::ParenthesesRight) {
                        (Err(e), last) => (Err(e), last),
                        (Ok(_), last) => (Ok(i), last),
                    },
                }
            },
            Ok(TokenView::Keyword(k)) => keyword(rest, k),
            Ok(t) => (Err(LangErrorView::UnexpectedToken(t)), rest),
        }
    }
}

/// What follows the reserved word `k`.
pub open spec fn keyword(items: Seq<Lexed>, k: Keyword) -> Parsed
    decreases items.len(), 9nat,
{
    match k {
        Keyword::Let => binding(items),
        Keyword::Fn => function(items),
        Keyword::Return => (Ok(ExprView::Return), items),
        Keyword::Extern => (Err(LangErrorView::UnexpectedToken(TokenView::Keyword(k))), items),
    }
}

/// A binding after its `let`: a name, `=`, and the expression that gives the value.
pub open spec fn binding(items: Seq<Lexed>) -> Parsed
    decreases items.len(), 8nat,
{
    if items.len() == 0 {
        (Err(LangErrorView::UnexpectedEOF), items)
    } else {
        let rest = items.drop_first();
        match items[0] {
            Err(e) => (Err(LangErrorView::TokenError(e)), rest),
            Ok(TokenView::Identifier(name)) => match expect(rest, Op::Equal) {
                (Err(e), after) => (Err(e), after),
                (Ok(_), after) => if after.len() < items.len() {
                    let (value, last) = expression(after);
                    match value {
                        Err(e) => (Err(e), last),
                        Ok(v) => (Ok(ExprView::Binding { name, value: Box::new(v) }), last),
                    }
                } else {
                    (Err(LangErrorView::UnexpectedEOF), after)
                },
            },
            Ok(t) => (Err(LangErrorView::UnexpectedToken(t)), rest),
        }
    }
}

/// The name of a function after its `fn`.
pub open spec fn function_name(items: Seq<Lexed>) -> (Result<Seq<char>, LangErrorView>, Seq<Lexed>) {
    if items.len() == 0 {
        (Err(LangErrorView::UnexpectedEOF), items)
    } else {
        match items[0] {
            Err(e) => (Err(LangErrorView::TokenError(e)), items.drop_first()),
            Ok(TokenView::Identifier(name)) => (Ok(name), items.drop_first()),
            Ok(t) => (
                Err(
                    LangErrorView::FunctionError(
                        FunctionErrorView::FunctionNameShouldBeIdentifier(t),
                    ),
                ),
                items.drop_first(),
            ),
        }
    }
}

/// The parameters of a function: `(` and `)` with nothing between them.
pub open spec fn function_args(items: Seq<Lexed>) -> (Result<(), LangErrorView>, Seq<Lexed>) {
    match expect(items, Op::ParenthesesLeft) {
        (Err(e), rest) => (Err(e), rest),
        (Ok(_), rest) => expect(rest, Op::ParenthesesRight),
    }
}

/// A function declaration after its `fn`: the name, the parameters and the body.
pub open spec fn function(items: Seq<Lexed>) -> Parsed
    decreases items.len(), 8nat,
{
    match function_name(items) {
        (Err(e), rest) => (Err(e), rest),
        (Ok(name), rest) => match function_args(rest) {
            (Err(e), after) => (Err(e), after),
            (Ok(_), after) => if after.len() <= items.len() {
                match body(after) {
                    (Err(e), last) => (Err(e), last),
                    (Ok(b), last) => (
                        Ok(
                            ExprView::FunctionDecleration {
                                name,
                                parameters: Seq::empty(),
                                body: b,
                            },
                        ),
                        last,
                    ),
                }
            } else {
                (Err(LangErrorView::UnexpectedEOF), after)
            },
        },
    }
}

/// The body of a function: `{`, expressions that each end with `;`, and `}`.
pub open spec fn body(items: Seq<Lexed>) -> ParsedList
    decreases items.len(), 7nat, 1nat,
{
    match expect(items, Op::SquiglyParenthesesLeft) {
        (Err(e), rest) => (Err(e), rest),
        (Ok(_), rest) => if rest.len() < items.len() {
            body_expressions(rest, Seq::empty())
        } else {
            (Err(LangErrorView::UnexpectedEOF), rest)
        },
    }
}

/// The expressions of a body after `acc`, up to the `}` that ends them.
pub open spec fn body_expressions(items: Seq<Lexed>, acc: Seq<ExprView>) -> ParsedList
    decreases items.len(), 7nat, 0nat,
{
    if items.len() == 0 {
        (Err(LangErrorView::UnexpectedEOF), items)
    } else {
        match items[0] {
            Err(e) => (Err(LangErrorView::TokenError(e)), items.drop_first()),
            Ok(TokenView::Op(Op::SquiglyParenthesesRight)) => (Ok(acc), items.drop_first()),
            Ok(_) => {
                let (one, rest) = expression(items);
                match one {
                    Err(e) => (Err(e), rest),
                    Ok(x) => match expect(rest, Op::SemiColon) {
                        (Err(e), after) => (Err(e), after),
                        (Ok(_), after) => if after.len() < items.len() {
                            body_expressions(after, acc.push(x))
                        } else {
                            (Ok(acc.push(x)), after)
                        },
                    },
                }
            },
        }
    }
}

/// One expression that is the whole input: whatever follows it is an error.
pub open spec fn single_expression(items: Seq<Lexed>) -> Parsed {
    let (one, rest) = expression(items);
    match one {
        Err(e) => (Err(e), rest),
        Ok(x) => if rest.len() == 0 {
            (Ok(x), rest)
        } else {
            match rest[0] {
                Ok(t) => (Err(LangErrorView::UnexpectedToken(t)), rest.drop_first()),
                Err(e) => (Err(LangErrorView::TokenError(e)), rest.drop_first()),
            }
        },
    }
}

/// A file: one expression after the other after `acc`, until nothing is left.
pub open spec fn file(items: Seq<Lexed>, acc: Seq<ExprView>) -> ParsedList
    decreases items.len(),
{
    if items.len() == 0 {
        (Ok(acc), items)
    } else {
        let (one, rest) = expression(items);
        match one {
            Err(e) => (Err(e), rest),
            Ok(x) => if rest.len() < items.len() {
                file(rest, acc.push(x))
            } else {
                (Ok(acc.push(x)), rest)
            },
        }
    }
}

/// A rule never leaves more items than it was given, and it leaves fewer
/// where it succeeds.
pub open spec fn shrinks<T>(outcome: (Result<T, LangErrorView>, Seq<Lexed>), items: Seq<Lexed>) -> bool {
    &&& outcome.1.len() <= items.len()
    &&& outcome.0 is Ok ==> outcome.1.len() < items.len()
}

/// A whole expression takes at least one item where it succeeds and never
/// gives one back. So does every layer below it: the bounds on the items
/// left that the rules test before they go on always hold.
pub proof fn lemma_expression_shrinks(items: Seq<Lexed>)
    ensures
        shrinks(expression(items), items),
    decreases items.len(), 6nat,
{
    lemma_binary_shrinks(items, BinaryLayer::Assigns);
}

/// The operand of a layer takes at least one item where it succeeds and
/// never gives one back.
pub proof fn lemma_operand_shrinks(items: Seq<Lexed>, layer: BinaryLayer)
    ensures
        shrinks(operand(items, layer), items),
    decreases items.len(), layer.rank(), 0nat,
{
    match layer {
        BinaryLayer::Assigns => lemma_binary_shrinks(items, BinaryLayer::AddSub),
        BinaryLayer::AddSub => lemma_binary_shrinks(items, BinaryLayer::MulDiv),
        BinaryLayer::MulDiv => lemma_call_shrinks(items),
    }
}

/// A layer of operators takes at least one item where it succeeds and never
/// gives one back.
pub proof fn lemma_binary_shrinks(items: Seq<Lexed>, layer: BinaryLayer)
    ensures
        shrinks(binary(items, layer), items),
    decreases items.len(), layer.rank(), 1nat,
{
    lemma_operand_shrinks(items, layer);
    let (left, rest) = operand(items, layer);
    if left is Ok && rest.len() > 0 {
        if let Ok(TokenView::Op(op)) = rest[0] {
            if layer.binds(op) {
                lemma_binary_shrinks(rest.drop_first(), layer);
            }
        }
    }
}

/// The call layer takes at least one item where it succeeds and never gives
/// one back.
pub proof fn lemma_call_shrinks(items: Seq<Lexed>)
    ensures
        shrinks(call(items), items),
    decreases items.len(), 2nat,
{
    lemma_unary_shrinks(items);
    let (func, rest) = unary(items);
    if func is Ok && rest.len() > 0 {
        lemma_call_args_shrinks(rest.drop_first(), Seq::empty());
    }
}

/// The arguments of a call take at least the `)` that ends them where they
/// succeed, and never give an item back.
pub proof fn lemma_call_args_shrinks(items: Seq<Lexed>, acc: Seq<ExprView>)
    ensures
        shrinks(call_args(items, acc), items),
    decreases items.len(), 7nat,
{
    if items.len() > 0 {
        match items[0] {
            Err(_) => {},
            Ok(TokenView::Op(Op::ParenthesesRight)) => {},
            Ok(TokenView::Op(Op::Comma)) => {
                lemma_call_args_shrinks(items.drop_first(), acc);
            },
            Ok(_) => {
                lemma_expression_shrinks(items);
                let (arg, rest) = expression(items);
                if let Ok(a) = arg {
                    lemma_call_args_shrinks(rest, acc.push(a));
                }
            },
        }
    }
}

/// The unary layer takes at least one item where it succeeds and never
/// gives one back.
pub proof fn lemma_unary_shrinks(items: Seq<Lexed>)
    ensures
        shrinks(unary(items), items),
    decreases items.len(), 1nat,
{
    if items.len() > 0 && (items[0] matches Ok(TokenView::Op(op)) && op.unary()) {
        lemma_primary_shrinks(items.drop_first());
    } else {
        lemma_primary_shrinks(items);
    }
}

/// The primary layer takes at least one item where it succeeds and never
/// gives one back.
pub proof fn lemma_primary_shrinks(items: Seq<Lexed>)
    ensures
        shrinks(primary(items), items),
    decreases items.len(), 0nat,
{
    if items.len() > 0 {
        let rest = items.drop_first();
        match items[0] {
            Ok(TokenView::Op(Op::ParenthesesLeft)) => {
                lemma_expression_shrinks(rest);
            },
            Ok(TokenView::Keyword(k)) => {
                lemma_keyword_shrinks(rest, k);
            },
            _ => {},
        }
    }
}

/// What follows a reserved word may be nothing at all, so the rule may
/// succeed and leave every item; it never leaves more.
pub proof fn lemma_keyword_shrinks(items: Seq<Lexed>, k: Keyword)
    ensures
        keyword(items, k).1.len() <= items.len(),
    decreases items.len(), 9nat,
{
    match k {
        Keyword::Let => lemma_binding_shrinks(items),
        Keyword::Fn => lemma_function_shrinks(items),
        _ => {},
    }
}

/// A binding takes at least one item where it succeeds and never gives one
/// back.
pub proof fn lemma_binding_shrinks(items: Seq<Lexed>)
    ensures
        shrinks(binding(items), items),
    decreases items.len(), 8nat,
{
    if items.len() > 0 {
        let rest = items.drop_first();
        if let Ok(TokenView::Identifier(_)) = items[0] {
            if let (Ok(_), after) = expect(rest, Op::Equal) {
                lemma_expression_shrinks(after);
            }
        }
    }
}

/// A function declaration takes at least one item where it succeeds and
/// never gives one back.
pub proof fn lemma_function_shrinks(items: Seq<Lexed>)
    ensures
        shrinks(function(items), items),
    decreases items.len(), 8nat,
{
    if let (Ok(_), rest) = function_name(items) {
        if let (Ok(_), after) = function_args(rest) {
            lemma_body_shrinks(after);
        }
    }
}

/// A body takes at least its braces where it succeeds, and never gives an
/// item back.
pub proof fn lemma_body_shrinks(items: Seq<Lexed>)
    ensures
        shrinks(body(items), items),
    decreases items.len(), 7nat, 1nat,
{
    if let (Ok(_), rest) = expect(items, Op::SquiglyParenthesesLeft) {
        lemma_body_expressions_shrinks(rest, Seq::empty());
    }
}

/// The expressions of a body take at least the `}` that ends them where they
/// succeed, and never give an item back.
pub proof fn lemma_body_expressions_shrinks(items: Seq<Lexed>, acc: Seq<ExprView>)
    ensures
        shrinks(body_expressions(items, acc), items),
    decreases items.len(), 7nat, 0nat,
{
    if items.len() > 0 {
        match items[0] {
            Err(_) => {},
            Ok(TokenView::Op(Op::SquiglyParenthesesRight)) => {},
            Ok(_) => {
                lemma_expression_shrinks(items);
                let (one, rest) = expression(items);
                if let Ok(x) = one {
                    if let (Ok(_), after) = expect(rest, Op::SemiColon) {
                        lemma_body_expressions_shrinks(after, acc.push(x));
                    }
                }
            },
        }
    }
}

/// A file is parsed to the end or to the first error: where it succeeds,
/// nothing is left.
pub proof fn lemma_file_reads_everything(items: Seq<Lexed>, acc: Seq<ExprView>)
    ensures
        file(items, acc).0 is Ok ==> file(items, acc).1.len() == 0,
    decreases items.len(),
{
    if items.len() > 0 {
        lemma_expression_shrinks(items);
        let (one, rest) = expression(items);
        if let Ok(x) = one {
            lemma_file_reads_everything(rest, acc.push(x));
        }
    }
}

/// A chain groups to the right: where an operator of the layer follows the
/// first operand, the whole rest of the chain, read by the same layer, is
/// the right operand.
pub proof fn lemma_chain_groups_right(items: Seq<Lexed>, layer: BinaryLayer, op: Op)
    requires
        operand(items, layer).0 is Ok,
        operand(items, layer).1.len() > 0,
        operand(items, layer).1[0] == Ok::<TokenView, TokenErrorView>(TokenView::Op(op)),
        layer.binds(op),
        binary(operand(items, layer).1.drop_first(), layer).0 is Ok,
    ensures
        binary(items, layer).0 == Ok::<ExprView, LangErrorView>(
            ExprView::Binary {
                left: Box::new(operand(items, layer).0->Ok_0),
                op,
                right: Box::new(binary(operand(items, layer).1.drop_first(), layer).0->Ok_0),
            },
        ),
        binary(items, layer).1 == binary(operand(items, layer).1.drop_first(), layer).1,
{
    lemma_operand_shrinks(items, layer);
}

/// A token that is left after a whole expression is an error, and the
/// error names that token.
pub proof fn lemma_trailing_token_is_an_error(items: Seq<Lexed>, t: TokenView)
    requires
        expression(items).0 is Ok,
        expression(items).1.len() > 0,
        expression(items).1[0] == Ok::<TokenView, TokenErrorView>(t),
    ensures
        single_expression(items).0 == Err::<ExprView, LangErrorView>(
            LangErrorView::UnexpectedToken(t),
        ),
{
}

/// A lexical error that a layer meets where an operator could stand comes
/// out as the lexer gave it.
pub proof fn lemma_lexical_error_comes_through(
    items: Seq<Lexed>,
    layer: BinaryLayer,
    e: TokenErrorView,
)
    requires
        operand(items, layer).0 is Ok,
        operand(items, layer).1.len() > 0,
        operand(items, layer).1[0] == Err::<TokenView, TokenErrorView>(e),
    ensures
        binary(items, layer).0 == Err::<ExprView, LangErrorView>(LangErrorView::TokenError(e)),
{
}

} // verus!
