//! What holds of every tree that the grammar yields.

use crate::expressions::{all_in_place, ExprView};
use crate::grammar::{
    binary, binding, body, body_expressions, call, call_args, expect, expression, file, function,
    function_args, function_name, keyword, operand, primary, single_expression, unary,
    BinaryLayer, Lexed,
};
use crate::keyword::Keyword;
use crate::op::Op;
use crate::token::{TokenView};
use vstd::prelude::*;

verus! {

/// In every tree that a whole expression yields, every operator stands
/// where it may: a binary node holds an operator of one of the binary
/// layers, a unary node one of the prefix operators.
pub proof fn lemma_expression_in_place(items: Seq<Lexed>)
    ensures
        expression(items).0 matches Ok(e) ==> e.operators_in_place(),
    decreases items.len(), 6nat,
{
    lemma_binary_in_place(items, BinaryLayer::Assigns);
}

/// The same of one expression that is the whole input.
pub proof fn lemma_single_expression_in_place(items: Seq<Lexed>)
    ensures
        single_expression(items).0 matches Ok(e) ==> e.operators_in_place(),
{
    lemma_expression_in_place(items);
}

/// The same of every expression of a file.
pub proof fn lemma_file_in_place(items: Seq<Lexed>, acc: Seq<ExprView>)
    requires
        all_in_place(acc),
    ensures
        file(items, acc).0 matches Ok(list) ==> all_in_place(list),
    decreases items.len(),
{
    if items.len() > 0 {
        lemma_expression_in_place(items);
        let (one, rest) = expression(items);
        if let Ok(x) = one {
            if rest.len() < items.len() {
                lemma_file_in_place(rest, acc.push(x));
            }
        }
    }
}

/// The same of the operand of a layer.
pub proof fn lemma_operand_in_place(items: Seq<Lexed>, layer: BinaryLayer)
    ensures
        operand(items, layer).0 matches Ok(e) ==> e.operators_in_place(),
    decreases items.len(), layer.rank(), 0nat,
{
    match layer {
        BinaryLayer::Assigns => lemma_binary_in_place(items, BinaryLayer::AddSub),
        BinaryLayer::AddSub => lemma_binary_in_place(items, BinaryLayer::MulDiv),
        BinaryLayer::MulDiv => lemma_call_in_place(items),
    }
}

/// The same of a layer of operators; the operator of the node that the
/// layer builds is one of its own.
pub proof fn lemma_binary_in_place(items: Seq<Lexed>, layer: BinaryLayer)
    ensures
        binary(items, layer).0 matches Ok(e) ==> e.operators_in_place(),
    decreases items.len(), layer.rank(), 1nat,
{
    lemma_operand_in_place(items, layer);
    let (left, rest) = operand(items, layer);
    if left is Ok && rest.len() > 0 {
        if let Ok(TokenView::Op(op)) = rest[0] {
            if layer.binds(op) && rest.len() <= items.len() {
                layer.lemma_binds_binary(op);
                lemma_binary_in_place(rest.drop_first(), layer);
            }
        }
    }
}

/// The same of the call layer.
pub proof fn lemma_call_in_place(items: Seq<Lexed>)
    ensures
        call(items).0 matches Ok(e) ==> e.operators_in_place(),
    decreases items.len(), 2nat,
{
    lemma_unary_in_place(items);
    let (func, rest) = unary(items);
    if func is Ok && rest.len() > 0 && rest.len() <= items.len() {
        lemma_call_args_in_place(rest.drop_first(), Seq::empty());
    }
}

/// The same of the arguments of a call.
pub proof fn lemma_call_args_in_place(items: Seq<Lexed>, acc: Seq<ExprView>)
    requires
        all_in_place(acc),
    ensures
        call_args(items, acc).0 matches Ok(list) ==> all_in_place(list),
    decreases items.len(), 7nat,
{
    if items.len() > 0 {
        match items[0] {
            Err(_) => {},
            Ok(TokenView::Op(Op::ParenthesesRight)) => {},
            Ok(TokenView::Op(Op::Comma)) => {
                lemma_call_args_in_place(items.drop_first(), acc);
            },
            Ok(_) => {
                lemma_expression_in_place(items);
                let (arg, rest) = expression(items);
                if let Ok(a) = arg {
                    if rest.len() < items.len() {
                        lemma_call_args_in_place(rest, acc.push(a));
                    }
                }
            },
        }
    }
}

/// The same of the unary layer.
pub proof fn lemma_unary_in_place(items: Seq<Lexed>)
    ensures
        unary(items).0 matches Ok(e) ==> e.operators_in_place(),
    decreases items.len(), 1nat,
{
    if items.len() > 0 && (items[0] matches Ok(TokenView::Op(op)) && op.unary()) {
        lemma_primary_in_place(items.drop_first());
    } else {
        lemma_primary_in_place(items);
    }
}

/// The same of the primary layer.
pub proof fn lemma_primary_in_place(items: Seq<Lexed>)
    ensures
        primary(items).0 matches Ok(e) ==> e.operators_in_place(),
    decreases items.len(), 0nat,
{
    if items.len() > 0 {
        let rest = items.drop_first();
        match items[0] {
            Ok(TokenView::Op(Op::ParenthesesLeft)) => {
                lemma_expression_in_place(rest);
            },
            Ok(TokenView::Keyword(k)) => {
                lemma_keyword_in_place(rest, k);
            },
            _ => {},
        }
    }
}

/// The same of what follows a reserved word.
pub proof fn lemma_keyword_in_place(items: Seq<Lexed>, k: Keyword)
    ensures
        keyword(items, k).0 matches Ok(e) ==> e.operators_in_place(),
    decreases items.len(), 9nat,
{
    match k {
        Keyword::Let => lemma_binding_in_place(items),
        Keyword::Fn => lemma_function_in_place(items),
        _ => {},
    }
}

/// The same of a binding.
pub proof fn lemma_binding_in_place(items: Seq<Lexed>)
    ensures
        binding(items).0 matches Ok(e) ==> e.operators_in_place(),
    decreases items.len(), 8nat,
{
    if items.len() > 0 {
        let rest = items.drop_first();
        if let Ok(TokenView::Identifier(_)) = items[0] {
            if let (Ok(_), after) = expect(rest, Op::Equal) {
                if after.len() < items.len() {
                    lemma_expression_in_place(after);
                }
            }
        }
    }
}

/// The same of a function declaration.
pub proof fn lemma_function_in_place(items: Seq<Lexed>)
    ensures
        function(items).0 matches Ok(e) ==> e.operators_in_place(),
    decreases items.len(), 8nat,
{
    if let (Ok(_), rest) = function_name(items) {
        if let (Ok(_), after) = function_args(rest) {
            if after.len() <= items.len() {
                lemma_body_in_place(after);
            }
        }
    }
}

/// The same of a body.
pub proof fn lemma_body_in_place(items: Seq<Lexed>)
    ensures
        body(items).0 matches Ok(list) ==> all_in_place(list),
    decreases items.len(), 7nat, 1nat,
{
    if let (Ok(_), rest) = expect(items, Op::SquiglyParenthesesLeft) {
        if rest.len() < items.len() {
            lemma_body_expressions_in_place(rest, Seq::empty());
        }
    }
}

/// The same of the expressions of a body.
pub proof fn lemma_body_expressions_in_place(items: Seq<Lexed>, acc: Seq<ExprView>)
    requires
        all_in_place(acc),
    ensures
        body_expressions(items, acc).0 matches Ok(list) ==> all_in_place(list),
    decreases items.len(), 7nat, 0nat,
{
    if items.len() > 0 {
        match items[0] {
            Err(_) => {},
            Ok(TokenView::Op(Op::SquiglyParenthesesRight)) => {},
            Ok(_) => {
                lemma_expression_in_place(items);
                let (one, rest) = expression(items);
                if let Ok(x) = one {
                    if let (Ok(_), after) = expect(rest, Op::SemiColon) {
                        if after.len() < items.len() {
                            lemma_body_expressions_in_place(after, acc.push(x));
                        }
                    }
                }
            },
        }
    }
}

/// The expressions of a body that was read are the ones that were there
/// before, followed by those that were read.
pub proof fn lemma_body_keeps_what_it_has(items: Seq<Lexed>, acc: Seq<ExprView>)
    ensures
        body_expressions(items, acc).0 matches Ok(list) ==> {
            &&& acc.len() <= list.len()
            &&& list.len() == acc.len() ==> items.len() > 0 && items[0] == Ok::<
                TokenView,
                crate::errors::TokenErrorView,
            >(TokenView::Op(Op::SquiglyParenthesesRight))
        },
    decreases items.len(),
{
    if items.len() > 0 {
        match items[0] {
            Err(_) => {},
            Ok(TokenView::Op(Op::SquiglyParenthesesRight)) => {},
            Ok(_) => {
                let (one, rest) = expression(items);
                if let Ok(x) = one {
                    if let (Ok(_), after) = expect(rest, Op::SemiColon) {
                        if after.len() < items.len() {
                            lemma_body_keeps_what_it_has(after, acc.push(x));
                        }
                    }
                }
            },
        }
    }
}

/// The body of a function is empty only where nothing stood between its
/// braces: `}` came right after `{`.
pub proof fn lemma_empty_body_has_empty_braces(items: Seq<Lexed>)
    requires
        body(items).0 matches Ok(list) && list.len() == 0,
    ensures
        items.len() >= 2,
        items[0] == Ok::<TokenView, crate::errors::TokenErrorView>(
            TokenView::Op(Op::SquiglyParenthesesLeft),
        ),
        items[1] == Ok::<TokenView, crate::errors::TokenErrorView>(
            TokenView::Op(Op::SquiglyParenthesesRight),
        ),
{
    let (opened, rest) = expect(items, Op::SquiglyParenthesesLeft);
    lemma_body_keeps_what_it_has(rest, Seq::empty());
}

} // verus!
