//! The text that shows a token class, a literal or an expression to a reader.

use crate::expressions::{exprs_view, ExprView, Expression};
use crate::keyword::Keyword;
use crate::op::Op;
use crate::token::{
    Immediate, ImmediateType, ImmediateView, Number, NumberType, NumberView, TokenType,
};
use vstd::prelude::*;
use vstd::string::StringExecFns;

verus! {

/// The text `s` as the `Debug` formatting of `str` writes it: in double
/// quotes, with the characters that need it escaped.
pub uninterp spec fn debug_quoted(s: Seq<char>) -> Seq<char>;

/// Formats `s` with the `Debug` formatting of `str`. The result depends on
/// the text alone; nothing more is claimed of it.
#[verifier::external_body]
pub(crate) fn debug_quote(s: &str) -> (r: String)
    ensures
        r@ == debug_quoted(s@),
{
    format!("{:?}", s)
}

impl Op {
    /// The name of the symbol.
    pub open spec fn name(self) -> Seq<char> {
        match self {
            Op::Add => "Add"@,
            Op::Sub => "Sub"@,
            Op::Mul => "Mul"@,
            Op::Div => "Div"@,
            Op::AddAssign => "AddAssign"@,
            Op::SubAssign => "SubAssign"@,
            Op::MulAssign => "MulAssign"@,
            Op::DivAssign => "DivAssign"@,
            Op::ParenthesesLeft => "ParenthesesLeft"@,
            Op::ParenthesesRight => "ParenthesesRight"@,
            Op::SquareParenthesesLeft => "SquareParenthesesLeft"@,
            Op::SquareParenthesesRight => "SquareParenthesesRight"@,
            Op::SquiglyParenthesesLeft => "SquiglyParenthesesLeft"@,
            Op::SquiglyParenthesesRight => "SquiglyParenthesesRight"@,
            Op::Comma => "Comma"@,
            Op::SemiColon => "SemiColon"@,
            Op::Equal => "Equal"@,
            Op::EqualEqual => "EqualEqual"@,
            Op::Not => "Not"@,
            Op::NotEqual => "NotEqual"@,
            Op::Greater => "Greater"@,
            Op::GreaterEq => "GreaterEq"@,
            Op::Smaller => "Smaller"@,
            Op::SmallerEq => "SmallerEq"@,
        }
    }

    /// The name of the symbol.
    pub fn to_text(&self) -> (s: &'static str)
        ensures
            s@ == self.name(),
    {
        match self {
            Op::Add => "Add",
            Op::Sub => "Sub",
            Op::Mul => "Mul",
            Op::Div => "Div",
            Op::AddAssign => "AddAssign",
            Op::SubAssign => "SubAssign",
            Op::MulAssign => "MulAssign",
            Op::DivAssign => "DivAssign",
            Op::ParenthesesLeft => "ParenthesesLeft",
            Op::ParenthesesRight => "ParenthesesRight",
            Op::SquareParenthesesLeft => "SquareParenthesesLeft",
            Op::SquareParenthesesRight => "SquareParenthesesRight",
            Op::SquiglyParenthesesLeft => "SquiglyParenthesesLeft",
            Op::SquiglyParenthesesRight => "SquiglyParenthesesRight",
            Op::Comma => "Comma",
            Op::SemiColon => "SemiColon",
            Op::Equal => "Equal",
            Op::EqualEqual => "EqualEqual",
            Op::Not => "Not",
            Op::NotEqual => "NotEqual",
            Op::Greater => "Greater",
            Op::GreaterEq => "GreaterEq",
            Op::Smaller => "Smaller",
            Op::SmallerEq => "SmallerEq",
        }
    }
}

impl Keyword {
    /// The name of the reserved word.
    pub open spec fn name(self) -> Seq<char> {
        match self {
            Keyword::Fn => "Fn"@,
            Keyword::Extern => "Extern"@,
            Keyword::Let => "Let"@,
            Keyword::Return => "Return"@,
        }
    }

    /// The name of the reserved word.
    pub fn to_text(&self) -> (s: &'static str)
        ensures
            s@ == self.name(),
    {
        match self {
            Keyword::Fn => "Fn",
            Keyword::Extern => "Extern",
            Keyword::Let => "Let",
            Keyword::Return => "Return",
        }
    }
}

impl NumberView {
    /// The number with its class: `I32("7")`, `F32("7.5")`.
    pub open spec fn display(self) -> Seq<char> {
        match self {
            NumberView::I32(s) => "I32("@ + debug_quoted(s) + ")"@,
            NumberView::F32(s) => "F32("@ + debug_quoted(s) + ")"@,
        }
    }
}

impl Number {
    /// The text that shows the number with its class.
    pub fn to_text(&self) -> (r: String)
        ensures
            r@ == self@.display(),
    {
        let (mut text, digits) = match self {
            Number::I32(s) => (String::from_str("I32("), s),
            Number::F32(s) => (String::from_str("F32("), s),
        };
        let quoted = debug_quote(digits.as_str());
        text.append(quoted.as_str());
        text.append(")");
        text
    }
}

impl ImmediateView {
    /// The literal with its class: `ImmediateString(text)`,
    /// `ImmediateNumber(I32("7"))`.
    pub open spec fn display(self) -> Seq<char> {
        match self {
            ImmediateView::String(s) => "ImmediateString("@ + s + ")"@,
            ImmediateView::Number(n) => "ImmediateNumber("@ + n.display() + ")"@,
        }
    }
}

impl Immediate {
    /// The text that shows the literal with its class.
    pub fn to_text(&self) -> (r: String)
        ensures
            r@ == self@.display(),
    {
        match self {
            Immediate::String(s) => {
                let mut text = String::from_str("ImmediateString(");
                text.append(s.as_str());
                text.append(")");
                text
            },
            Immediate::Number(n) => {
                let mut text = String::from_str("ImmediateNumber(");
                let inner = n.to_text();
                text.append(inner.as_str());
                text.append(")");
                text
            },
        }
    }
}

impl NumberType {
    /// The name of the class.
    pub open spec fn name(self) -> Seq<char> {
        match self {
            NumberType::I32 => "I32"@,
            NumberType::F32 => "F32"@,
        }
    }
}

impl ImmediateType {
    /// The class of a literal: `ImmediateString()`, `ImmediateNumber(I32)`.
    pub open spec fn display(self) -> Seq<char> {
        match self {
            ImmediateType::String => "ImmediateString()"@,
            ImmediateType::Number(n) => "ImmediateNumber("@ + n.name() + ")"@,
        }
    }

    /// The text that shows the class of a literal.
    pub fn to_text(&self) -> (r: String)
        ensures
            r@ == self.display(),
    {
        match self {
            ImmediateType::String => String::from_str("ImmediateString()"),
            ImmediateType::Number(n) => {
                let mut text = String::from_str("ImmediateNumber(");
                match n {
                    NumberType::I32 => text.append("I32"),
                    NumberType::F32 => text.append("F32"),
                }
                text.append(")");
                text
            },
        }
    }
}

impl TokenType {
    /// The class of a token: `Tok(Identifier)`, `Tok(Add)`.
    pub open spec fn display(self) -> Seq<char> {
        match self {
            TokenType::Identifier => "Tok(Identifier)"@,
            TokenType::Immediate(im) => "Tok("@ + im.display() + ")"@,
            TokenType::Keyword(k) => "Tok("@ + k.name() + ")"@,
            TokenType::Op(op) => "Tok("@ + op.name() + ")"@,
        }
    }

    /// The text that shows the class of a token.
    pub fn to_text(&self) -> (r: String)
        ensures
            r@ == self.display(),
    {
        match self {
            TokenType::Identifier => String::from_str("Tok(Identifier)"),
            TokenType::Immediate(im) => {
                let mut text = String::from_str("Tok(");
                let inner = im.to_text();
                text.append(inner.as_str());
                text.append(")");
                text
            },
            TokenType::Keyword(k) => {
                let mut text = String::from_str("Tok(");
                text.append(k.to_text());
                text.append(")");
                text
            },
            TokenType::Op(op) => {
                let mut text = String::from_str("Tok(");
                text.append(op.to_text());
                text.append(")");
                text
            },
        }
    }
}

/// The texts of the first `n` of `items`, each followed by `end`.
pub open spec fn display_each(items: Seq<ExprView>, n: int, end: Seq<char>) -> Seq<char>
    decreases items, n,
{
    if 0 < n <= items.len() {
        display_each(items, n - 1, end) + items[n - 1].display() + end
    } else {
        Seq::empty()
    }
}

/// The texts of the first `n` of `items`, with `between` between each two.
pub open spec fn display_joined(items: Seq<ExprView>, n: int, between: Seq<char>) -> Seq<char>
    decreases items, n,
{
    if 1 < n <= items.len() {
        display_joined(items, n - 1, between) + between + items[n - 1].display()
    } else if n == 1 && n <= items.len() {
        items[0].display()
    } else {
        Seq::empty()
    }
}

impl ExprView {
    /// The text that shows the tree: every node by the name of its kind,
    /// with its parts in parentheses.
    pub open spec fn display(self) -> Seq<char>
        decreases self,
    {
        match self {
            ExprView::Binary { left, op, right } => "BinExpr("@ + left.display() + ", "@
                + op.name() + ", "@ + right.display() + ")"@,
            ExprView::Unary { op, expr } => "UnaryExpr("@ + op.name() + ", "@ + expr.display()
                + ")"@,
            ExprView::Call { func, args } => "CallExpr("@ + func.display() + ", ["@
                + display_each(args, args.len() as int, ","@) + "])"@,
            ExprView::Immediate(value) => value.display(),
            ExprView::Identifier(name) => "IdentExpr("@ + name + ")"@,
            ExprView::FunctionDecleration { name, parameters, body } => "FunctionDecleration("@
                + name + ")"@,
            ExprView::Scope(exprs) => "ScopeExprs("@ + display_joined(
                exprs,
                exprs.len() as int,
                ", "@,
            ) + ")"@,
            ExprView::Binding { name, value } => "Binding("@ + name + ", "@ + value.display()
                + ")"@,
            ExprView::Return => "Return"@,
        }
    }
}

impl Expression {
    /// The text that shows the expression.
    #[verifier::loop_isolation(false)]
    pub fn to_text(&self) -> (r: String)
        ensures
            r@ == self@.display(),
        decreases self,
    {
        match self {
            Expression::BinaryExpression(e) => {
                let mut text = String::from_str("BinExpr(");
                let left = e.left.to_text();
                text.append(left.as_str());
                text.append(", ");
                text.append(e.op.to_text());
                text.append(", ");
                let right = e.right.to_text();
                text.append(right.as_str());
                text.append(")");
                text
            },
            Expression::UnaryExpression(e) => {
                let mut text = String::from_str("UnaryExpr(");
                text.append(e.op.to_text());
                text.append(", ");
                let inner = e.expr.to_text();
                text.append(inner.as_str());
                text.append(")");
                text
            },
            Expression::CallExpressin(e) => {
                let mut text = String::from_str("CallExpr(");
                let func = e.func.to_text();
                text.append(func.as_str());
                text.append(", [");
                let ghost head = text@;
                let ghost args = exprs_view(e.args@);
                assert(self@->Call_args =~= args);
                let mut i: usize = 0;
                while i < e.args.len()
                    invariant
                        i <= e.args.len(),
                        text@ == head + display_each(args, i as int, ","@),
                    decreases e.args.len() - i,
                {
                    let one = e.args[i].to_text();
                    text.append(one.as_str());
                    text.append(",");
                    i = i + 1;
                    assert(text@ =~= head + display_each(args, i as int, ","@));
                }
                text.append("])");
                text
            },
            Expression::ImmediateExpression(e) => e.value.to_text(),
            Expression::IdentifierExpression(e) => {
                let mut text = String::from_str("IdentExpr(");
                text.append(e.ident.name.as_str());
                text.append(")");
                text
            },
            Expression::FunctionDeclerationExpression(e) => {
                let mut text = String::from_str("FunctionDecleration(");
                text.append(e.ident.name.as_str());
                text.append(")");
                text
            },
            Expression::ScopeExpressions(e) => {
                let mut text = String::from_str("ScopeExprs(");
                let ghost head = text@;
                let ghost exprs = exprs_view(e.exprs@);
                assert(self@->Scope_0 =~= exprs);
                let mut i: usize = 0;
                while i < e.exprs.len()
                    invariant
                        i <= e.exprs.len(),
                        text@ == head + display_joined(exprs, i as int, ", "@),
                    decreases e.exprs.len() - i,
                {
                    if i > 0 {
                        text.append(", ");
                    }
                    let one = e.exprs[i].to_text();
                    text.append(one.as_str());
                    i = i + 1;
                    assert(text@ =~= head + display_joined(exprs, i as int, ", "@));
                }
                text.append(")");
                text
            },
            Expression::BindingExpression(e) => {
                let mut text = String::from_str("Binding(");
                text.append(e.name.name.as_str());
                text.append(", ");
                let value = e.value.to_text();
                text.append(value.as_str());
                text.append(")");
                text
            },
            Expression::Return(_) => String::from_str("Return"),
        }
    }
}

} // verus!
