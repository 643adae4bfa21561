//! Operators and punctuation marks, and the table that maps text to them.

use vstd::prelude::*;
use vstd::string::StrSliceExecFns;

verus! {

/// A symbolic lexeme: an operator or a punctuation mark.
#[derive(Debug, Clone, Copy, PartialEq, Eq, Structural)]
pub enum Op {
    Add,
    Sub,
    Mul,
    Div,
    AddAssign,
    SubAssign,
    MulAssign,
    DivAssign,
    ParenthesesLeft,
    ParenthesesRight,
    SquareParenthesesLeft,
    SquareParenthesesRight,
    SquiglyParenthesesLeft,
    SquiglyParenthesesRight,
    Comma,
    SemiColon,
    Equal,
    EqualEqual,
    Not,
    NotEqual,
    Greater,
    GreaterEq,
    Smaller,
    SmallerEq,
}

/// The symbol that the single character `c` spells, if any.
pub open spec fn single_symbol(c: char) -> Option<Op> {
    if c == '+' {
        Some(Op::Add)
    } else if c == '-' {
        Some(Op::Sub)
    } else if c == '*' {
        Some(Op::Mul)
    } else if c == '/' {
        Some(Op::Div)
    } else if c == '(' {
        Some(Op::ParenthesesLeft)
    } else if c == ')' {
        Some(Op::ParenthesesRight)
    } else if c == '[' {
        Some(Op::SquareParenthesesLeft)
    } else if c == ']' {
        Some(Op::SquareParenthesesRight)
    } else if c == '{' {
        Some(Op::SquiglyParenthesesLeft)
    } else if c == '}' {
        Some(Op::SquiglyParenthesesRight)
    } else if c == ',' {
        Some(Op::Comma)
    } else if c == ';' {
        Some(Op::SemiColon)
    } else if c == '=' {
        Some(Op::Equal)
    } else if c == '!' {
        Some(Op::Not)
    } else if c == '>' {
        Some(Op::Greater)
    } else if c == '<' {
        Some(Op::Smaller)
    } else {
        None
    }
}

/// The symbol that `c` followed by `=` spells, if any.
pub open spec fn compound_symbol(c: char) -> Option<Op> {
    if c == '+' {
        Some(Op::AddAssign)
    } else if c == '-' {
        Some(Op::SubAssign)
    } else if c == '*' {
        Some(Op::MulAssign)
    } else if c == '/' {
        Some(Op::DivAssign)
    } else if c == '=' {
        Some(Op::EqualEqual)
    } else if c == '!' {
        Some(Op::NotEqual)
    } else if c == '>' {
        Some(Op::GreaterEq)
    } else if c == '<' {
        Some(Op::SmallerEq)
    } else {
        None
    }
}

/// The symbol table: the symbol that the whole of `s` spells, if any.
pub open spec fn symbol_of(s: Seq<char>) -> Option<Op> {
    if s.len() == 1 {
        single_symbol(s[0])
    } else if s.len() == 2 && s[1] == '=' {
        compound_symbol(s[0])
    } else {
        None
    }
}

pub fn single_symbol_of(c: char) -> (r: Option<Op>)
    ensures
        r == single_symbol(c),
{
    if c == '+' {
        Some(Op::Add)
    } else if c == '-' {
        Some(Op::Sub)
    } else if c == '*' {
        Some(Op::Mul)
    } else if c == '/' {
        Some(Op::Div)
    } else if c == '(' {
        Some(Op::ParenthesesLeft)
    } else if c == ')' {
        Some(Op::ParenthesesRight)
    } else if c == '[' {
        Some(Op::SquareParenthesesLeft)
    } else if c == ']' {
        Some(Op::SquareParenthesesRight)
    } else if c == '{' {
        Some(Op::SquiglyParenthesesLeft)
    } else if c == '}' {
        Some(Op::SquiglyParenthesesRight)
    } else if c == ',' {
        Some(Op::Comma)
    } else if c == ';' {
        Some(Op::SemiColon)
    } else if c == '=' {
        Some(Op::Equal)
    } else if c == '!' {
        Some(Op::Not)
    } else if c == '>' {
        Some(Op::Greater)
    } else if c == '<' {
        Some(Op::Smaller)
    } else {
        None
    }
}

pub fn compound_symbol_of(c: char) -> (r: Option<Op>)
    ensures
        r == compound_symbol(c),
{
    if c == '+' {
        Some(Op::AddAssign)
    } else if c == '-' {
        Some(Op::SubAssign)
    } else if c == '*' {
        Some(Op::MulAssign)
    } else if c == '/' {
        Some(Op::DivAssign)
    } else if c == '=' {
        Some(Op::EqualEqual)
    } else if c == '!' {
        Some(Op::NotEqual)
    } else if c == '>' {
        Some(Op::GreaterEq)
    } else if c == '<' {
        Some(Op::SmallerEq)
    } else {
        None
    }
}

impl Op {
    /// The text that spells this symbol.
    pub open spec fn text(self) -> Seq<char> {
        match self {
            Op::Add => seq!['+'],
            Op::Sub => seq!['-'],
            Op::Mul => seq!['*'],
            Op::Div => seq!['/'],
            Op::AddAssign => seq!['+', '='],
            Op::SubAssign => seq!['-', '='],
            Op::MulAssign => seq!['*', '='],
            Op::DivAssign => seq!['/', '='],
            Op::ParenthesesLeft => seq!['('],
            Op::ParenthesesRight => seq![')'],
            Op::SquareParenthesesLeft => seq!['['],
            Op::SquareParenthesesRight => seq![']'],
            Op::SquiglyParenthesesLeft => seq!['{'],
            Op::SquiglyParenthesesRight => seq!['}'],
            Op::Comma => seq![','],
            Op::SemiColon => seq![';'],
            Op::Equal => seq!['='],
            Op::EqualEqual => seq!['=', '='],
            Op::Not => seq!['!'],
            Op::NotEqual => seq!['!', '='],
            Op::Greater => seq!['>'],
            Op::GreaterEq => seq!['>', '='],
            Op::Smaller => seq!['<'],
            Op::SmallerEq => seq!['<', '='],
        }
    }

    /// The bracket that closes this one, for an opening bracket.
    pub open spec fn closing(self) -> Option<Op> {
        match self {
            Op::ParenthesesLeft => Some(Op::ParenthesesRight),
            Op::SquareParenthesesLeft => Some(Op::SquareParenthesesRight),
            Op::SquiglyParenthesesLeft => Some(Op::SquiglyParenthesesRight),
            _ => None,
        }
    }

    /// This symbol may stand before its one operand.
    pub open spec fn unary(self) -> bool {
        self == Op::Sub || self == Op::Not
    }

    /// This symbol may stand between two operands.
    pub open spec fn binary(self) -> bool {
        ||| self == Op::Add
        ||| self == Op::Sub
        ||| self == Op::Mul
        ||| self == Op::Div
        ||| self == Op::AddAssign
        ||| self == Op::SubAssign
        ||| self == Op::MulAssign
        ||| self == Op::DivAssign
    }

    pub fn get_closing_parentheses(&self) -> (r: Option<Op>)
        ensures
            r == self.closing(),
    {
        match self {
            Op::ParenthesesLeft => Some(Op::ParenthesesRight),
            Op::SquareParenthesesLeft => Some(Op::SquareParenthesesRight),
            Op::SquiglyParenthesesLeft => Some(Op::SquiglyParenthesesRight),
            _ => None,
        }
    }

    pub fn can_be_unary(&self) -> (r: bool)
        ensures
            r == self.unary(),
    {
        matches!(self, Op::Sub | Op::Not)
    }

    pub fn can_be_binary(&self) -> (r: bool)
        ensures
            r == self.binary(),
    {
        matches!(
            self,
            Op::Add | Op::Sub | Op::Mul | Op::Div | Op::AddAssign | Op::SubAssign | Op::MulAssign
                | Op::DivAssign
        )
    }

    /// The number of characters in the symbol's text.
    pub fn len(&self) -> (n: usize)
        ensures
            n == self.text().len(),
    {
        match self {
            Op::AddAssign
            | Op::SubAssign
            | Op::MulAssign
            | Op::DivAssign
            | Op::EqualEqual
            | Op::NotEqual
            | Op::GreaterEq
            | Op::SmallerEq => 2,
            _ => 1,
        }
    }

    /// Looks `value` up in the symbol table.
    pub fn try_from(value: &str) -> (r: Result<Op, ()>)
        ensures
            r.is_ok() == symbol_of(value@).is_some(),
            r matches Ok(op) ==> symbol_of(value@) == Some(op),
    {
        let n = value.unicode_len();
        let found = if n == 1 {
            single_symbol_of(value.get_char(0))
        } else if n == 2 && value.get_char(1) == '=' {
            compound_symbol_of(value.get_char(0))
        } else {
            None
        };
        match found {
            Some(op) => Ok(op),
            None => Err(()),
        }
    }
}

/// Every symbol is found in the table under its own text, and under no other.
pub proof fn lemma_symbol_table_round_trip(op: Op, s: Seq<char>)
    ensures
        symbol_of(op.text()) == Some(op),
        symbol_of(s) == Some(op) ==> s == op.text(),
{
    if symbol_of(s) == Some(op) {
        assert(s =~= op.text());
    }
}

/// A two-character symbol begins with a one-character symbol, so the table
/// can be searched by growing a prefix one character at a time.
pub proof fn lemma_symbol_prefix_closed(s: Seq<char>)
    requires
        symbol_of(s).is_some(),
        s.len() == 2,
    ensures
        symbol_of(s.subrange(0, 1)).is_some(),
{
}

} // verus!
