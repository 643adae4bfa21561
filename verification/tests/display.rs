use mlang::expressions::{
    BinaryExpression, CallExpression, Expression, IdentifierExpression, ImmediateExpression,
    ScopeExpressions,
};
use mlang::keyword::Keyword;
use mlang::op::Op;
use mlang::parser::parse_expression;
use mlang::stream::TokenStream;
use mlang::token::{Identifier, Immediate, ImmediateType, Number, NumberType, TokenType};

fn shown(source: &str) -> String {
    let mut tokens = TokenStream::new(source);
    match parse_expression(&mut tokens) {
        Ok(expr) => expr.to_text(),
        Err(err) => panic!("{:?}", err),
    }
}

fn variable(text: &str) -> Expression {
    Expression::IdentifierExpression(IdentifierExpression {
        ident: Identifier::new(text.to_string()),
    })
}

#[test]
fn names_of_symbols_and_words() {
    assert_eq!(Op::Add.to_text(), "Add");
    assert_eq!(Op::SquiglyParenthesesLeft.to_text(), "SquiglyParenthesesLeft");
    assert_eq!(Op::SemiColon.to_text(), "SemiColon");
    assert_eq!(Op::SmallerEq.to_text(), "SmallerEq");
    assert_eq!(Op::NotEqual.to_text(), format!("{:?}", Op::NotEqual));
    assert_eq!(Keyword::Fn.to_text(), "Fn");
    assert_eq!(Keyword::Return.to_text(), format!("{:?}", Keyword::Return));
}

#[test]
fn literals_show_their_class() {
    assert_eq!(Number::I32("12".to_string()).to_text(), "I32(\"12\")");
    assert_eq!(Number::F32("1.5".to_string()).to_text(), "F32(\"1.5\")");
    assert_eq!(Number::I32("a\"b".to_string()).to_text(), "I32(\"a\\\"b\")");
    assert_eq!(
        Immediate::Number(Number::I32("7".to_string())).to_text(),
        "ImmediateNumber(I32(\"7\"))"
    );
    assert_eq!(Immediate::String("a\"b".to_string()).to_text(), "ImmediateString(a\"b)");
    assert_eq!(Immediate::String(String::new()).to_text(), "ImmediateString()");
}

#[test]
fn token_classes_show_their_names() {
    assert_eq!(TokenType::Identifier.to_text(), "Tok(Identifier)");
    assert_eq!(TokenType::Op(Op::Add).to_text(), "Tok(Add)");
    assert_eq!(TokenType::Keyword(Keyword::Let).to_text(), "Tok(Let)");
    assert_eq!(
        TokenType::Immediate(ImmediateType::String).to_text(),
        "Tok(ImmediateString())"
    );
    assert_eq!(
        TokenType::Immediate(ImmediateType::Number(NumberType::F32)).to_text(),
        "Tok(ImmediateNumber(F32))"
    );
    assert_eq!(ImmediateType::Number(NumberType::I32).to_text(), "ImmediateNumber(I32)");
    assert_eq!(ImmediateType::String.to_text(), "ImmediateString()");
}

#[test]
fn expressions_show_their_tree() {
    assert_eq!(shown("x"), "IdentExpr(x)");
    assert_eq!(shown("1"), "ImmediateNumber(I32(\"1\"))");
    assert_eq!(
        shown("1 + 2 * x"),
        "BinExpr(ImmediateNumber(I32(\"1\")), Add, BinExpr(ImmediateNumber(I32(\"2\")), Mul, IdentExpr(x)))"
    );
    assert_eq!(shown("-x"), "UnaryExpr(Sub, IdentExpr(x))");
    assert_eq!(shown("f()"), "CallExpr(IdentExpr(f), [])");
    assert_eq!(
        shown("f(a, 2)"),
        "CallExpr(IdentExpr(f), [IdentExpr(a),ImmediateNumber(I32(\"2\")),])"
    );
    assert_eq!(shown("fn main() { 1; }"), "FunctionDecleration(main)");
    assert_eq!(shown("let y = x"), "Binding(y, IdentExpr(x))");
    assert_eq!(shown("return"), "Return");
}

#[test]
fn scopes_show_their_expressions_in_order() {
    let empty = Expression::ScopeExpressions(ScopeExpressions { exprs: vec![] });
    assert_eq!(empty.to_text(), "ScopeExprs()");
    let one = Expression::ScopeExpressions(ScopeExpressions { exprs: vec![variable("a")] });
    assert_eq!(one.to_text(), "ScopeExprs(IdentExpr(a))");
    let three = Expression::ScopeExpressions(ScopeExpressions {
        exprs: vec![variable("a"), variable("b"), variable("c")],
    });
    assert_eq!(three.to_text(), "ScopeExprs(IdentExpr(a), IdentExpr(b), IdentExpr(c))");
}

#[test]
fn trees_built_by_hand_show_like_parsed_ones() {
    let tree = Expression::CallExpressin(CallExpression {
        func: Box::new(Expression::BinaryExpression(BinaryExpression {
            left: Box::new(variable("a")),
            op: Op::DivAssign,
            right: Box::new(Expression::ImmediateExpression(ImmediateExpression {
                value: Immediate::String("s".to_string()),
            })),
        })),
        args: vec![variable("z")],
    });
    assert_eq!(
        tree.to_text(),
        "CallExpr(BinExpr(IdentExpr(a), DivAssign, ImmediateString(s)), [IdentExpr(z),])"
    );
}
