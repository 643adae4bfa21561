use mlang::chars::{is_ident_char, is_whitespace};
use mlang::cursor::Cursor;
use mlang::errors::TokenError;
use mlang::keyword::Keyword;
use mlang::lexer::{tokenize, Lexer};
use mlang::op::Op;
use mlang::sub_parsers::{NumberParser, OpCodeParser, WhitespaceParser, WordParser};
use mlang::token::{
    Identifier, Immediate, ImmediateType, Number, NumberType, Spanned, Token, TokenType,
};

fn ident_tok(name: &str) -> Token {
    Token::Identifier(Identifier::new(name.to_string()))
}

fn int_tok(text: &str) -> Token {
    Token::Immediate(Immediate::Number(Number::I32(text.to_string())))
}

fn float_tok(text: &str) -> Token {
    Token::Immediate(Immediate::Number(Number::F32(text.to_string())))
}

#[test]
fn test_char() {
    assert!(!is_ident_char('*', true));
    assert!(is_ident_char('a', true));
    assert!(is_ident_char('💀', true));
}

#[test]
fn ident_chars_follow_the_unicode_tables() {
    assert!(is_ident_char('é', true));
    assert!(is_ident_char('京', true));
    assert!(is_ident_char('_', true));
    assert!(!is_ident_char('7', true));
    assert!(is_ident_char('7', false));
    assert!(is_ident_char('٣', false));
    assert!(!is_ident_char('٣', true));
    assert!(!is_ident_char('#', true));
    assert!(!is_ident_char('→', false));
    assert!(!is_ident_char(' ', false));
}

#[test]
fn whitespace_inside_and_beyond_ascii() {
    assert!(is_whitespace(' '));
    assert!(is_whitespace('\t'));
    assert!(is_whitespace('\n'));
    assert!(is_whitespace('\r'));
    assert!(is_whitespace('\u{A0}'));
    assert!(is_whitespace('\u{3000}'));
    assert!(!is_whitespace('a'));
    assert!(!is_whitespace('\u{1c}'));
    assert!(!is_whitespace('越'));
}

#[test]
fn classifiers_claim_their_first_characters() {
    assert!(WordParser::is_relevant('x'));
    assert!(!WordParser::is_relevant('1'));
    assert!(NumberParser::is_relevant('1'));
    assert!(!NumberParser::is_relevant('.'));
    assert!(OpCodeParser::is_relevant('+'));
    assert!(OpCodeParser::is_relevant('@'));
    assert!(!OpCodeParser::is_relevant('a'));
    assert!(!OpCodeParser::is_relevant(' '));
    assert!(WhitespaceParser::is_relevant(' '));
    assert!(!WhitespaceParser::is_relevant('+'));
}

#[test]
fn cursor_peeks_advances_and_measures() {
    let mut cursor = Cursor::new("héllo w");
    assert_eq!(cursor.string(), "héllo w");
    assert_eq!(cursor.peek_first(), Some('h'));
    assert_eq!(cursor.advance(), Some('h'));
    assert_eq!(cursor.advance(), Some('é'));
    assert_eq!(cursor.get_current_token_len(), 2);
    cursor.reset_token_start();
    assert_eq!(cursor.get_current_token_len(), 0);
    let n = cursor.advance_while(|c| c.is_alphabetic());
    assert_eq!(n, 3);
    assert_eq!(cursor.get_current_token_len(), 3);
    assert_eq!(cursor.remains(), " w");
    assert_eq!(cursor.offset(), 5);
    assert_eq!(cursor.advance(), Some(' '));
    assert_eq!(cursor.advance(), Some('w'));
    assert_eq!(cursor.peek_first(), None);
    assert_eq!(cursor.advance(), None);
    assert_eq!(cursor.remains(), "");
}

#[test]
fn cursor_advances_while_the_prefix_is_accepted() {
    let mut cursor = Cursor::new("abcabd");
    cursor.advance_while_inc_str(|s| "abcabc".starts_with(s));
    assert_eq!(cursor.offset(), 5);
    assert_eq!(cursor.remains(), "d");
    let mut cursor = Cursor::new("xyz");
    cursor.advance_while_inc_str(|s| s.len() < 10);
    assert_eq!(cursor.offset(), 3);
    let mut cursor = Cursor::new("xyz");
    cursor.advance_while_inc_str(|_| false);
    assert_eq!(cursor.offset(), 0);
}

#[test]
fn symbol_table_lookup() {
    assert_eq!(Op::try_from("+"), Ok(Op::Add));
    assert_eq!(Op::try_from("-"), Ok(Op::Sub));
    assert_eq!(Op::try_from("*"), Ok(Op::Mul));
    assert_eq!(Op::try_from("/"), Ok(Op::Div));
    assert_eq!(Op::try_from("+="), Ok(Op::AddAssign));
    assert_eq!(Op::try_from("-="), Ok(Op::SubAssign));
    assert_eq!(Op::try_from("*="), Ok(Op::MulAssign));
    assert_eq!(Op::try_from("/="), Ok(Op::DivAssign));
    assert_eq!(Op::try_from("("), Ok(Op::ParenthesesLeft));
    assert_eq!(Op::try_from(")"), Ok(Op::ParenthesesRight));
    assert_eq!(Op::try_from("["), Ok(Op::SquareParenthesesLeft));
    assert_eq!(Op::try_from("]"), Ok(Op::SquareParenthesesRight));
    assert_eq!(Op::try_from("{"), Ok(Op::SquiglyParenthesesLeft));
    assert_eq!(Op::try_from("}"), Ok(Op::SquiglyParenthesesRight));
    assert_eq!(Op::try_from(","), Ok(Op::Comma));
    assert_eq!(Op::try_from(";"), Ok(Op::SemiColon));
    assert_eq!(Op::try_from("="), Ok(Op::Equal));
    assert_eq!(Op::try_from("=="), Ok(Op::EqualEqual));
    assert_eq!(Op::try_from("!"), Ok(Op::Not));
    assert_eq!(Op::try_from("!="), Ok(Op::NotEqual));
    assert_eq!(Op::try_from(">"), Ok(Op::Greater));
    assert_eq!(Op::try_from(">="), Ok(Op::GreaterEq));
    assert_eq!(Op::try_from("<"), Ok(Op::Smaller));
    assert_eq!(Op::try_from("<="), Ok(Op::SmallerEq));
    assert_eq!(Op::try_from(""), Err(()));
    assert_eq!(Op::try_from(" "), Err(()));
    assert_eq!(Op::try_from("(="), Err(()));
    assert_eq!(Op::try_from("+=="), Err(()));
    assert_eq!(Op::try_from("@"), Err(()));
}

#[test]
fn op_classes_and_lengths() {
    assert_eq!(Op::ParenthesesLeft.get_closing_parentheses(), Some(Op::ParenthesesRight));
    assert_eq!(
        Op::SquareParenthesesLeft.get_closing_parentheses(),
        Some(Op::SquareParenthesesRight)
    );
    assert_eq!(
        Op::SquiglyParenthesesLeft.get_closing_parentheses(),
        Some(Op::SquiglyParenthesesRight)
    );
    assert_eq!(Op::ParenthesesRight.get_closing_parentheses(), None);
    assert_eq!(Op::Add.get_closing_parentheses(), None);
    assert!(Op::Sub.can_be_unary());
    assert!(Op::Not.can_be_unary());
    assert!(!Op::Add.can_be_unary());
    assert!(!Op::Mul.can_be_unary());
    assert!(Op::Add.can_be_binary());
    assert!(Op::DivAssign.can_be_binary());
    assert!(!Op::Not.can_be_binary());
    assert!(!Op::Comma.can_be_binary());
    assert!(!Op::Equal.can_be_binary());
    assert_eq!(Op::Add.len(), 1);
    assert_eq!(Op::AddAssign.len(), 2);
    assert_eq!(Op::SmallerEq.len(), 2);
    assert_eq!(Op::SemiColon.len(), 1);
}

#[test]
fn keyword_lookup_and_length() {
    assert_eq!(Keyword::try_from("fn"), Ok(Keyword::Fn));
    assert_eq!(Keyword::try_from("extern"), Ok(Keyword::Extern));
    assert_eq!(Keyword::try_from("let"), Ok(Keyword::Let));
    assert_eq!(Keyword::try_from("return"), Ok(Keyword::Return));
    assert_eq!(Keyword::try_from("f"), Err(()));
    assert_eq!(Keyword::try_from("fnn"), Err(()));
    assert_eq!(Keyword::try_from("Fn"), Err(()));
    assert_eq!(Keyword::try_from(""), Err(()));
    assert_eq!(Keyword::Fn.len(), 2);
    assert_eq!(Keyword::Extern.len(), 6);
    assert_eq!(Keyword::Let.len(), 3);
    assert_eq!(Keyword::Return.len(), 6);
    assert_eq!(Keyword::Return.as_str(), "return");
}

#[test]
fn token_lengths_and_types() {
    assert_eq!(ident_tok("héllo").len(), 5);
    assert_eq!(int_tok("123").len(), 3);
    assert_eq!(float_tok("1.25").len(), 4);
    assert_eq!(Token::Immediate(Immediate::String("ab".to_string())).len(), 4);
    assert_eq!(Immediate::String(String::new()).len(), 2);
    assert_eq!(Number::F32("0.5".to_string()).len(), 3);
    assert_eq!(Token::Keyword(Keyword::Let).len(), 3);
    assert_eq!(Token::Op(Op::GreaterEq).len(), 2);
    assert_eq!(ident_tok("x").token_type(), TokenType::Identifier);
    assert_eq!(
        int_tok("1").token_type(),
        TokenType::Immediate(ImmediateType::Number(NumberType::I32))
    );
    assert_eq!(
        float_tok("1.0").token_type(),
        TokenType::Immediate(ImmediateType::Number(NumberType::F32))
    );
    assert_eq!(
        Token::Immediate(Immediate::String("s".to_string())).token_type(),
        TokenType::Immediate(ImmediateType::String)
    );
    assert_eq!(Token::Keyword(Keyword::Fn).token_type(), TokenType::Keyword(Keyword::Fn));
    assert_eq!(Token::Op(Op::Add).token_type(), TokenType::Op(Op::Add));
}

#[test]
fn a_word_is_one_identifier() {
    assert_eq!(tokenize("foo_bar1"), Ok(vec![ident_tok("foo_bar1")]));
    assert_eq!(tokenize("_"), Ok(vec![ident_tok("_")]));
    assert_eq!(tokenize("letter"), Ok(vec![ident_tok("letter")]));
    assert_eq!(tokenize("fn1"), Ok(vec![ident_tok("fn1")]));
    assert_eq!(tokenize("naïve💀"), Ok(vec![ident_tok("naïve💀")]));
}

#[test]
fn a_word_that_starts_with_a_digit_is_a_number_and_a_word() {
    assert_eq!(tokenize("1a"), Ok(vec![int_tok("1"), ident_tok("a")]));
}

#[test]
fn reserved_words_are_keywords() {
    assert_eq!(
        tokenize("fn extern let return"),
        Ok(vec![
            Token::Keyword(Keyword::Fn),
            Token::Keyword(Keyword::Extern),
            Token::Keyword(Keyword::Let),
            Token::Keyword(Keyword::Return),
        ])
    );
}

#[test]
fn digits_are_one_number() {
    assert_eq!(tokenize("12345"), Ok(vec![int_tok("12345")]));
    assert_eq!(tokenize("0"), Ok(vec![int_tok("0")]));
    assert_eq!(tokenize("3.14"), Ok(vec![float_tok("3.14")]));
    assert_eq!(tokenize("7."), Ok(vec![float_tok("7.")]));
}

#[test]
fn two_points_are_no_number() {
    assert_eq!(tokenize("1.2.3"), Err(TokenError::NotValidNumber("1.2.3".to_string())));
    assert_eq!(tokenize("1.."), Err(TokenError::NotValidNumber("1..".to_string())));
    assert_eq!(tokenize("x 1.2.3 y"), Err(TokenError::NotValidNumber("1.2.3".to_string())));
}

#[test]
fn a_point_starts_no_number() {
    assert_eq!(tokenize(".5"), Err(TokenError::NotValidOp(".".to_string())));
}

#[test]
fn operators_match_the_longest_prefix() {
    assert_eq!(tokenize("+="), Ok(vec![Token::Op(Op::AddAssign)]));
    assert_eq!(tokenize("+ ="), Ok(vec![Token::Op(Op::Add), Token::Op(Op::Equal)]));
    assert_eq!(tokenize("==="), Ok(vec![Token::Op(Op::EqualEqual), Token::Op(Op::Equal)]));
    assert_eq!(tokenize("<=>"), Ok(vec![Token::Op(Op::SmallerEq), Token::Op(Op::Greater)]));
    assert_eq!(tokenize("!x"), Ok(vec![Token::Op(Op::Not), ident_tok("x")]));
    assert_eq!(
        tokenize("(){}[],;"),
        Ok(vec![
            Token::Op(Op::ParenthesesLeft),
            Token::Op(Op::ParenthesesRight),
            Token::Op(Op::SquiglyParenthesesLeft),
            Token::Op(Op::SquiglyParenthesesRight),
            Token::Op(Op::SquareParenthesesLeft),
            Token::Op(Op::SquareParenthesesRight),
            Token::Op(Op::Comma),
            Token::Op(Op::SemiColon),
        ])
    );
}

#[test]
fn an_unknown_symbol_is_an_error() {
    assert_eq!(tokenize("@"), Err(TokenError::NotValidOp("@".to_string())));
    assert_eq!(tokenize("a @@ b"), Err(TokenError::NotValidOp("@".to_string())));
    assert_eq!(tokenize("\"text\""), Err(TokenError::NotValidOp("\"".to_string())));
    assert_eq!(tokenize("→"), Err(TokenError::NotValidOp("→".to_string())));
}

#[test]
fn whitespace_makes_no_token() {
    assert_eq!(tokenize(""), Ok(vec![]));
    assert_eq!(tokenize("   \t\n\r "), Ok(vec![]));
    assert_eq!(tokenize("\u{A0}x\u{3000}"), Ok(vec![ident_tok("x")]));
    assert_eq!(
        tokenize("  a \n+\t1  "),
        Ok(vec![ident_tok("a"), Token::Op(Op::Add), int_tok("1")])
    );
    assert_eq!(tokenize("a+1"), tokenize(" a + 1 "));
}

#[test]
fn lexer_yields_spans() {
    let mut lexer = Lexer::new("  let  x1 = 4.5;");
    assert_eq!(
        lexer.advance_token(),
        Some(Ok(Spanned { value: Token::Keyword(Keyword::Let), len: 3 }))
    );
    assert_eq!(lexer.advance_token(), Some(Ok(Spanned { value: ident_tok("x1"), len: 2 })));
    assert_eq!(lexer.advance_token(), Some(Ok(Spanned { value: Token::Op(Op::Equal), len: 1 })));
    assert_eq!(lexer.advance_token(), Some(Ok(Spanned { value: float_tok("4.5"), len: 3 })));
    assert_eq!(
        lexer.advance_token(),
        Some(Ok(Spanned { value: Token::Op(Op::SemiColon), len: 1 }))
    );
    assert_eq!(lexer.advance_token(), None);
    assert_eq!(lexer.advance_token(), None);
}

#[test]
fn lexer_stops_after_the_first_error() {
    let mut lexer = Lexer::new("1 + @");
    assert_eq!(lexer.advance_token(), Some(Ok(Spanned { value: int_tok("1"), len: 1 })));
    assert_eq!(lexer.advance_token(), Some(Ok(Spanned { value: Token::Op(Op::Add), len: 1 })));
    assert_eq!(lexer.advance_token(), Some(Err(TokenError::NotValidOp("@".to_string()))));
    assert_eq!(lexer.advance_token(), None);
    assert_eq!(lexer.advance_token(), None);
}

#[test]
fn lexer_stops_after_an_error_with_text_left() {
    let mut lexer = Lexer::new("1.2.3 + 4");
    assert_eq!(
        lexer.advance_token(),
        Some(Err(TokenError::NotValidNumber("1.2.3".to_string())))
    );
    assert_eq!(lexer.advance_token(), None);
    let mut lexer = Lexer::new("@ 1 2");
    assert_eq!(lexer.advance_token(), Some(Err(TokenError::NotValidOp("@".to_string()))));
    assert_eq!(lexer.advance_token(), None);
}

#[test]
fn classifiers_read_one_lexeme() {
    let mut cursor = Cursor::new("abc1+2");
    assert_eq!(WordParser::parse('a', &mut cursor), Ok(ident_tok("abc1")));
    assert_eq!(cursor.remains(), "+2");
    assert_eq!(OpCodeParser::parse('+', &mut cursor), Ok(Token::Op(Op::Add)));
    assert_eq!(NumberParser::parse('2', &mut cursor), Ok(int_tok("2")));
    assert_eq!(cursor.remains(), "");
    assert_eq!(
        OpCodeParser::parse(' ', &mut cursor),
        Err(TokenError::NotValidOp(String::new()))
    );
    let mut cursor = Cursor::new("  \n x");
    assert_eq!(WhitespaceParser::parse(' ', &mut cursor), 4);
    assert_eq!(cursor.remains(), "x");
    assert_eq!(WhitespaceParser::parse('x', &mut cursor), 0);
    assert_eq!(NumberParser::count_points("1.2.3"), 2);
    assert_eq!(NumberParser::count_points("123"), 0);
}
