use mlang::errors::{FunctionError, LangErrorKind, TokenError};
use mlang::expressions::{
    BinaryExpression, BindingExpression, CallExpression, Expression,
    FunctionDeclerationExpression, IdentifierExpression, ImmediateExpression, Return,
    ScopeExpressions, UnaryExpression,
};
use mlang::grammar::BinaryLayer;
use mlang::keyword::Keyword;
use mlang::op::Op;
use mlang::parser::{
    expect_op, parse_binary_expr, parse_binding, parse_body_expressions, parse_expression,
    parse_file, parse_func_decl, parse_function_args, parse_function_name, parse_keyword,
    parse_operand, AddSubBinaryExpressionParser, AssignsBinaryExpressionParser,
    FunctionCallExpressionParser, MulDivBinaryExpressionParser, SimpleExpressionParser,
    UnaryExpressionParser,
};
use mlang::stream::{Peeked, TokenStream};
use mlang::token::{Identifier, Immediate, Number, Token};

fn name(text: &str) -> Identifier {
    Identifier::new(text.to_string())
}

fn num(text: &str) -> Expression {
    Expression::ImmediateExpression(ImmediateExpression {
        value: Immediate::Number(Number::I32(text.to_string())),
    })
}

fn var(text: &str) -> Expression {
    Expression::IdentifierExpression(IdentifierExpression { ident: name(text) })
}

fn bin(left: Expression, op: Op, right: Expression) -> Expression {
    Expression::BinaryExpression(BinaryExpression {
        left: Box::new(left),
        op,
        right: Box::new(right),
    })
}

fn un(op: Op, expr: Expression) -> Expression {
    Expression::UnaryExpression(UnaryExpression { op, expr: Box::new(expr) })
}

fn call(func: Expression, args: Vec<Expression>) -> Expression {
    Expression::CallExpressin(CallExpression { func: Box::new(func), args })
}

fn func(ident: &str, body: Vec<Expression>) -> Expression {
    Expression::FunctionDeclerationExpression(FunctionDeclerationExpression {
        ident: name(ident),
        parameters: vec![],
        body,
    })
}

fn bind(ident: &str, value: Expression) -> Expression {
    Expression::BindingExpression(BindingExpression { name: name(ident), value: Box::new(value) })
}

fn parse(source: &str) -> Result<Expression, LangErrorKind> {
    let mut tokens = TokenStream::new(source);
    parse_expression(&mut tokens)
}

fn int_token(text: &str) -> Token {
    Token::Immediate(Immediate::Number(Number::I32(text.to_string())))
}

#[test]
fn same_layer_chain_groups_to_the_right() {
    assert_eq!(
        parse("1 - 2 - 3"),
        Ok(bin(num("1"), Op::Sub, bin(num("2"), Op::Sub, num("3"))))
    );
    assert_ne!(
        parse("1 - 2 - 3"),
        Ok(bin(bin(num("1"), Op::Sub, num("2")), Op::Sub, num("3")))
    );
    assert_eq!(
        parse("8 / 4 / 2 * 1"),
        Ok(bin(
            num("8"),
            Op::Div,
            bin(num("4"), Op::Div, bin(num("2"), Op::Mul, num("1")))
        ))
    );
    assert_eq!(
        parse("a += b -= c"),
        Ok(bin(var("a"), Op::AddAssign, bin(var("b"), Op::SubAssign, var("c"))))
    );
}

#[test]
fn multiplication_binds_tighter_than_addition() {
    assert_eq!(
        parse("1 + 2 * 3"),
        Ok(bin(num("1"), Op::Add, bin(num("2"), Op::Mul, num("3"))))
    );
    assert_eq!(
        parse("1 * 2 + 3"),
        Ok(bin(bin(num("1"), Op::Mul, num("2")), Op::Add, num("3")))
    );
    assert_eq!(
        parse("x *= 1 + 2 / 3"),
        Ok(bin(
            var("x"),
            Op::MulAssign,
            bin(num("1"), Op::Add, bin(num("2"), Op::Div, num("3")))
        ))
    );
}

#[test]
fn parentheses_override_precedence() {
    assert_eq!(
        parse("(1 + 2) * 3"),
        Ok(bin(bin(num("1"), Op::Add, num("2")), Op::Mul, num("3")))
    );
    assert_eq!(parse("((7))"), Ok(num("7")));
    assert_eq!(
        parse("(1 - 2) - 3"),
        Ok(bin(bin(num("1"), Op::Sub, num("2")), Op::Sub, num("3")))
    );
}

#[test]
fn calls_take_their_arguments() {
    assert_eq!(parse("f(1, 2)"), Ok(call(var("f"), vec![num("1"), num("2")])));
    assert_eq!(parse("f()"), Ok(call(var("f"), vec![])));
    assert_eq!(
        parse("f(1 + 2, g(x))"),
        Ok(call(
            var("f"),
            vec![bin(num("1"), Op::Add, num("2")), call(var("g"), vec![var("x")])]
        ))
    );
    assert_eq!(
        parse("f(1) * 2"),
        Ok(bin(call(var("f"), vec![num("1")]), Op::Mul, num("2")))
    );
}

#[test]
fn any_expression_can_be_called() {
    assert_eq!(
        parse("(a + b)(1)"),
        Ok(call(bin(var("a"), Op::Add, var("b")), vec![num("1")]))
    );
    assert_eq!(parse("3(4)"), Ok(call(num("3"), vec![num("4")])));
    assert_eq!(parse("-f(1)"), Ok(call(un(Op::Sub, var("f")), vec![num("1")])));
}

#[test]
fn commas_between_arguments_are_passed_over() {
    assert_eq!(parse("f(1 2)"), Ok(call(var("f"), vec![num("1"), num("2")])));
    assert_eq!(parse("f(,1,,2,)"), Ok(call(var("f"), vec![num("1"), num("2")])));
}

#[test]
fn a_call_is_not_called_again() {
    assert_eq!(
        parse("f(1)(2)"),
        Err(LangErrorKind::UnexpectedToken(Token::Op(Op::ParenthesesLeft)))
    );
}

#[test]
fn unclosed_call_is_an_error() {
    assert_eq!(parse("f(1, 2"), Err(LangErrorKind::UnexpectedEOF));
    assert_eq!(parse("f("), Err(LangErrorKind::UnexpectedEOF));
    assert_eq!(
        parse("f(1, @)"),
        Err(LangErrorKind::TokenError(TokenError::NotValidOp("@".to_string())))
    );
    assert_eq!(
        parse("f(1 }"),
        Err(LangErrorKind::UnexpectedToken(Token::Op(Op::SquiglyParenthesesRight)))
    );
}

#[test]
fn prefix_operators_wrap_a_primary_expression() {
    assert_eq!(parse("-1"), Ok(un(Op::Sub, num("1"))));
    assert_eq!(parse("!x"), Ok(un(Op::Not, var("x"))));
    assert_eq!(parse("-1 + 2"), Ok(bin(un(Op::Sub, num("1")), Op::Add, num("2"))));
    assert_eq!(parse("1 - -2"), Ok(bin(num("1"), Op::Sub, un(Op::Sub, num("2")))));
    assert_eq!(
        parse("-(1 + 2)"),
        Ok(un(Op::Sub, bin(num("1"), Op::Add, num("2"))))
    );
    assert_eq!(parse("--1"), Err(LangErrorKind::UnexpectedToken(Token::Op(Op::Sub))));
    assert_eq!(parse("+1"), Err(LangErrorKind::UnexpectedToken(Token::Op(Op::Add))));
    assert_eq!(parse("-"), Err(LangErrorKind::UnexpectedEOF));
}

#[test]
fn primary_expressions() {
    assert_eq!(parse("x"), Ok(var("x")));
    assert_eq!(parse("42"), Ok(num("42")));
    assert_eq!(
        parse("4.5"),
        Ok(Expression::ImmediateExpression(ImmediateExpression {
            value: Immediate::Number(Number::F32("4.5".to_string())),
        }))
    );
    assert_eq!(parse("return"), Ok(Expression::Return(Return)));
    assert_eq!(parse(""), Err(LangErrorKind::UnexpectedEOF));
    assert_eq!(parse("   "), Err(LangErrorKind::UnexpectedEOF));
    assert_eq!(parse(")"), Err(LangErrorKind::UnexpectedToken(Token::Op(Op::ParenthesesRight))));
    assert_eq!(
        parse("[1]"),
        Err(LangErrorKind::UnexpectedToken(Token::Op(Op::SquareParenthesesLeft)))
    );
    assert_eq!(
        parse("{ 1 }"),
        Err(LangErrorKind::UnexpectedToken(Token::Op(Op::SquiglyParenthesesLeft)))
    );
    assert_eq!(
        parse("extern"),
        Err(LangErrorKind::UnexpectedToken(Token::Keyword(Keyword::Extern)))
    );
}

#[test]
fn unclosed_grouping_is_an_error() {
    assert_eq!(parse("(1 + 2"), Err(LangErrorKind::UnexpectedEOF));
    assert_eq!(parse("("), Err(LangErrorKind::UnexpectedEOF));
    assert_eq!(
        parse("(1 + 2 ]"),
        Err(LangErrorKind::TokenShouldBe {
            should_be: Token::Op(Op::ParenthesesRight),
            got: Token::Op(Op::SquareParenthesesRight),
        })
    );
    assert_eq!(
        parse("(1 2)"),
        Err(LangErrorKind::TokenShouldBe {
            should_be: Token::Op(Op::ParenthesesRight),
            got: int_token("2"),
        })
    );
}

#[test]
fn trailing_tokens_are_an_error() {
    assert_eq!(
        parse("1 + 2 )"),
        Err(LangErrorKind::UnexpectedToken(Token::Op(Op::ParenthesesRight)))
    );
    assert_eq!(parse("1 2"), Err(LangErrorKind::UnexpectedToken(int_token("2"))));
    assert_eq!(
        parse("a == b"),
        Err(LangErrorKind::UnexpectedToken(Token::Op(Op::EqualEqual)))
    );
    assert_eq!(
        parse("return 1"),
        Err(LangErrorKind::UnexpectedToken(int_token("1")))
    );
}

#[test]
fn lexical_errors_come_through_as_they_are() {
    assert_eq!(
        parse("1 + @"),
        Err(LangErrorKind::TokenError(TokenError::NotValidOp("@".to_string())))
    );
    assert_eq!(
        parse("1 @"),
        Err(LangErrorKind::TokenError(TokenError::NotValidOp("@".to_string())))
    );
    assert_eq!(
        parse("1.2.3"),
        Err(LangErrorKind::TokenError(TokenError::NotValidNumber("1.2.3".to_string())))
    );
    assert_eq!(
        parse("(1 + 2 @"),
        Err(LangErrorKind::TokenError(TokenError::NotValidOp("@".to_string())))
    );
    assert_eq!(
        parse("x 1..2"),
        Err(LangErrorKind::TokenError(TokenError::NotValidNumber("1..2".to_string())))
    );
}

#[test]
fn the_first_error_is_returned() {
    assert_eq!(parse(") 1"), Err(LangErrorKind::UnexpectedToken(Token::Op(Op::ParenthesesRight))));
    assert_eq!(parse("(1 + ) 2"), Err(LangErrorKind::UnexpectedToken(Token::Op(Op::ParenthesesRight))));
}

#[test]
fn bindings() {
    assert_eq!(parse("let x = 1"), Ok(bind("x", num("1"))));
    assert_eq!(
        parse("let x = 1 + 2 * y"),
        Ok(bind("x", bin(num("1"), Op::Add, bin(num("2"), Op::Mul, var("y")))))
    );
    assert_eq!(parse("let x = let y = 2"), Ok(bind("x", bind("y", num("2")))));
    assert_eq!(parse("let"), Err(LangErrorKind::UnexpectedEOF));
    assert_eq!(parse("let 1 = 2"), Err(LangErrorKind::UnexpectedToken(int_token("1"))));
    assert_eq!(
        parse("let fn = 2"),
        Err(LangErrorKind::UnexpectedToken(Token::Keyword(Keyword::Fn)))
    );
    assert_eq!(parse("let x"), Err(LangErrorKind::UnexpectedEOF));
    assert_eq!(
        parse("let x 1"),
        Err(LangErrorKind::TokenShouldBe { should_be: Token::Op(Op::Equal), got: int_token("1") })
    );
    assert_eq!(
        parse("let x == 1"),
        Err(LangErrorKind::TokenShouldBe {
            should_be: Token::Op(Op::Equal),
            got: Token::Op(Op::EqualEqual),
        })
    );
    assert_eq!(parse("let x ="), Err(LangErrorKind::UnexpectedEOF));
    assert_eq!(
        parse("let @"),
        Err(LangErrorKind::TokenError(TokenError::NotValidOp("@".to_string())))
    );
}

#[test]
fn function_declarations() {
    assert_eq!(parse("fn f() {}"), Ok(func("f", vec![])));
    assert_eq!(parse("fn f() { 1; }"), Ok(func("f", vec![num("1")])));
    assert_eq!(
        parse("fn main() { let x = 1 + 2; g(x); return; }"),
        Ok(func(
            "main",
            vec![
                bind("x", bin(num("1"), Op::Add, num("2"))),
                call(var("g"), vec![var("x")]),
                Expression::Return(Return),
            ]
        ))
    );
    assert_eq!(
        parse("fn outer() { fn inner() { 1; }; }"),
        Ok(func("outer", vec![func("inner", vec![num("1")])]))
    );
}

#[test]
fn malformed_function_declarations() {
    assert_eq!(parse("fn"), Err(LangErrorKind::UnexpectedEOF));
    assert_eq!(
        parse("fn 1() {}"),
        Err(LangErrorKind::FunctionError(FunctionError::FunctionNameShouldBeIdentifier(
            int_token("1")
        )))
    );
    assert_eq!(
        parse("fn (x) {}"),
        Err(LangErrorKind::FunctionError(FunctionError::FunctionNameShouldBeIdentifier(
            Token::Op(Op::ParenthesesLeft)
        )))
    );
    assert_eq!(
        parse("fn f {}"),
        Err(LangErrorKind::TokenShouldBe {
            should_be: Token::Op(Op::ParenthesesLeft),
            got: Token::Op(Op::SquiglyParenthesesLeft),
        })
    );
    assert_eq!(
        parse("fn f(x) {}"),
        Err(LangErrorKind::TokenShouldBe {
            should_be: Token::Op(Op::ParenthesesRight),
            got: Token::Identifier(name("x")),
        })
    );
    assert_eq!(
        parse("fn f() 1"),
        Err(LangErrorKind::TokenShouldBe {
            should_be: Token::Op(Op::SquiglyParenthesesLeft),
            got: int_token("1"),
        })
    );
    assert_eq!(parse("fn f()"), Err(LangErrorKind::UnexpectedEOF));
    assert_eq!(parse("fn f() {"), Err(LangErrorKind::UnexpectedEOF));
    assert_eq!(parse("fn f() { 1;"), Err(LangErrorKind::UnexpectedEOF));
    assert_eq!(parse("fn f() { 1"), Err(LangErrorKind::UnexpectedEOF));
    assert_eq!(
        parse("fn f() { 1 }"),
        Err(LangErrorKind::TokenShouldBe {
            should_be: Token::Op(Op::SemiColon),
            got: Token::Op(Op::SquiglyParenthesesRight),
        })
    );
    assert_eq!(
        parse("fn f() { 1; @ }"),
        Err(LangErrorKind::TokenError(TokenError::NotValidOp("@".to_string())))
    );
    assert_eq!(
        parse("fn f() { ; }"),
        Err(LangErrorKind::UnexpectedToken(Token::Op(Op::SemiColon)))
    );
}

#[test]
fn files_are_expressions_one_after_the_other() {
    let mut tokens = TokenStream::new("");
    assert_eq!(parse_file(&mut tokens), Ok(vec![]));
    let mut tokens = TokenStream::new("fn f() { 1; } let x = 2 f(x)");
    assert_eq!(
        parse_file(&mut tokens),
        Ok(vec![
            func("f", vec![num("1")]),
            bind("x", num("2")),
            call(var("f"), vec![var("x")]),
        ])
    );
    let mut tokens = TokenStream::new("1 2 )");
    assert_eq!(
        parse_file(&mut tokens),
        Err(LangErrorKind::UnexpectedToken(Token::Op(Op::ParenthesesRight)))
    );
    let mut tokens = TokenStream::new("1 @");
    assert_eq!(
        parse_file(&mut tokens),
        Err(LangErrorKind::TokenError(TokenError::NotValidOp("@".to_string())))
    );
}

#[test]
fn token_stream_peeks_without_taking() {
    let mut tokens = TokenStream::new("a + 1 @ b");
    assert_eq!(tokens.peek(), Peeked::Other);
    assert_eq!(tokens.peek(), Peeked::Other);
    assert_eq!(tokens.next(), Some(Ok(Token::Identifier(name("a")))));
    assert_eq!(tokens.peek(), Peeked::Symbol(Op::Add));
    assert_eq!(tokens.next(), Some(Ok(Token::Op(Op::Add))));
    assert_eq!(tokens.next(), Some(Ok(int_token("1"))));
    assert_eq!(tokens.peek(), Peeked::Failure);
    assert_eq!(tokens.next(), Some(Err(TokenError::NotValidOp("@".to_string()))));
    assert_eq!(tokens.peek(), Peeked::End);
    assert_eq!(tokens.next(), None);
    assert_eq!(tokens.next(), None);
}

#[test]
fn layers_stop_where_their_operators_end() {
    let mut tokens = TokenStream::new("1 * 2 + 3");
    assert_eq!(
        MulDivBinaryExpressionParser::parse(&mut tokens),
        Ok(bin(num("1"), Op::Mul, num("2")))
    );
    assert_eq!(tokens.next(), Some(Ok(Token::Op(Op::Add))));
    let mut tokens = TokenStream::new("1 + 2 += 3");
    assert_eq!(
        AddSubBinaryExpressionParser::parse(&mut tokens),
        Ok(bin(num("1"), Op::Add, num("2")))
    );
    assert_eq!(tokens.peek(), Peeked::Symbol(Op::AddAssign));
    let mut tokens = TokenStream::new("1 + 2 += 3 )");
    assert_eq!(
        AssignsBinaryExpressionParser::parse(&mut tokens),
        Ok(bin(bin(num("1"), Op::Add, num("2")), Op::AddAssign, num("3")))
    );
    assert_eq!(tokens.peek(), Peeked::Symbol(Op::ParenthesesRight));
    let mut tokens = TokenStream::new("f(1) g");
    assert_eq!(
        FunctionCallExpressionParser::parse(&mut tokens),
        Ok(call(var("f"), vec![num("1")]))
    );
    assert_eq!(tokens.peek(), Peeked::Other);
    let mut tokens = TokenStream::new("-x(1)");
    assert_eq!(UnaryExpressionParser::parse(&mut tokens), Ok(un(Op::Sub, var("x"))));
    assert_eq!(tokens.peek(), Peeked::Symbol(Op::ParenthesesLeft));
    let mut tokens = TokenStream::new("x + 1");
    assert_eq!(SimpleExpressionParser::parse(&mut tokens), Ok(var("x")));
    assert_eq!(tokens.peek(), Peeked::Symbol(Op::Add));
}

#[test]
fn binary_layers_by_name() {
    let mut tokens = TokenStream::new("1 - 2 * 3 - 4");
    assert_eq!(
        parse_binary_expr(&mut tokens, BinaryLayer::AddSub),
        Ok(bin(
            num("1"),
            Op::Sub,
            bin(bin(num("2"), Op::Mul, num("3")), Op::Sub, num("4"))
        ))
    );
    let mut tokens = TokenStream::new("1 - 2");
    assert_eq!(parse_binary_expr(&mut tokens, BinaryLayer::MulDiv), Ok(num("1")));
    let mut tokens = TokenStream::new("1 * 2 - 3");
    assert_eq!(
        parse_operand(&mut tokens, BinaryLayer::AddSub),
        Ok(bin(num("1"), Op::Mul, num("2")))
    );
    let mut tokens = TokenStream::new("f(1) * 2");
    assert_eq!(
        parse_operand(&mut tokens, BinaryLayer::MulDiv),
        Ok(call(var("f"), vec![num("1")]))
    );
    assert!(BinaryLayer::Assigns.has(Op::DivAssign));
    assert!(!BinaryLayer::Assigns.has(Op::Div));
    assert!(BinaryLayer::AddSub.has(Op::Sub));
    assert!(!BinaryLayer::AddSub.has(Op::Mul));
    assert!(BinaryLayer::MulDiv.has(Op::Mul));
    assert!(!BinaryLayer::MulDiv.has(Op::Equal));
}

#[test]
fn parts_of_declarations() {
    let mut tokens = TokenStream::new(") x");
    assert_eq!(expect_op(&mut tokens, Op::ParenthesesRight), Ok(()));
    assert_eq!(
        expect_op(&mut tokens, Op::ParenthesesRight),
        Err(LangErrorKind::TokenShouldBe {
            should_be: Token::Op(Op::ParenthesesRight),
            got: Token::Identifier(name("x")),
        })
    );
    assert_eq!(expect_op(&mut tokens, Op::ParenthesesRight), Err(LangErrorKind::UnexpectedEOF));
    let mut tokens = TokenStream::new("x = 3");
    assert_eq!(parse_keyword(&mut tokens, Keyword::Let), Ok(bind("x", num("3"))));
    let mut tokens = TokenStream::new("x = 3");
    assert_eq!(parse_keyword(&mut tokens, Keyword::Return), Ok(Expression::Return(Return)));
    assert_eq!(tokens.next(), Some(Ok(Token::Identifier(name("x")))));
    let mut tokens = TokenStream::new("y = 4");
    assert_eq!(parse_binding(&mut tokens), Ok(bind("y", num("4"))));
    let mut tokens = TokenStream::new("f () { 1; 2; } rest");
    assert_eq!(parse_function_name(&mut tokens), Ok(name("f")));
    assert_eq!(parse_function_args(&mut tokens), Ok(()));
    assert_eq!(parse_body_expressions(&mut tokens), Ok(vec![num("1"), num("2")]));
    assert_eq!(tokens.next(), Some(Ok(Token::Identifier(name("rest")))));
    let mut tokens = TokenStream::new("g() { x; }");
    assert_eq!(
        parse_func_decl(&mut tokens),
        Ok(FunctionDeclerationExpression {
            ident: name("g"),
            parameters: vec![],
            body: vec![var("x")],
        })
    );
}

#[test]
fn scopes_hold_their_expressions() {
    let scope = Expression::ScopeExpressions(ScopeExpressions { exprs: vec![num("1"), var("x")] });
    assert_eq!(
        scope,
        Expression::ScopeExpressions(ScopeExpressions { exprs: vec![num("1"), var("x")] })
    );
    assert_ne!(scope, Expression::ScopeExpressions(ScopeExpressions { exprs: vec![] }));
}
