//! Expressions as trees, and how they are written out.

use vstd::prelude::*;
use vstd::string::StringExecFns;

verus! {

#[derive(Debug, Clone, Copy, PartialEq, Eq, Structural)]
pub enum UnaryOperator {
    Minus,
    Bang,
}

impl UnaryOperator {
    /// The operator as it is written.
    pub open spec fn spec_symbol(self) -> Seq<char> {
        match self {
            UnaryOperator::Minus => "-"@,
            UnaryOperator::Bang => "!"@,
        }
    }

    /// The operator as it is written.
    pub fn symbol(self) -> (symbol: &'static str)
        ensures
            symbol@ == self.spec_symbol(),
    {
        match self {
            UnaryOperator::Minus => "-",
            UnaryOperator::Bang => "!",
        }
    }
}

#[derive(Debug, Clone, Copy, PartialEq, Eq, Structural)]
pub enum BinaryOperator {
    EqualEqual,
    BangEqual,
    Less,
    LessEqual,
    Greater,
    GreaterEqual,
    Plus,
    Minus,
    Star,
    Slash,
}

impl BinaryOperator {
    /// The operator as it is written.
    pub open spec fn spec_symbol(self) -> Seq<char> {
        match self {
            BinaryOperator::EqualEqual => "=="@,
            BinaryOperator::BangEqual => "!="@,
            BinaryOperator::Less => "<"@,
            BinaryOperator::LessEqual => "<="@,
            BinaryOperator::Greater => ">"@,
            BinaryOperator::GreaterEqual => ">="@,
            BinaryOperator::Plus => "+"@,
            BinaryOperator::Minus => "-"@,
            BinaryOperator::Star => "*"@,
            BinaryOperator::Slash => "/"@,
        }
    }

    /// The operator as it is written.
    pub fn symbol(self) -> (symbol: &'static str)
        ensures
            symbol@ == self.spec_symbol(),
    {
        match self {
            BinaryOperator::EqualEqual => "==",
            BinaryOperator::BangEqual => "!=",
            BinaryOperator::Less => "<",
            BinaryOperator::LessEqual => "<=",
            BinaryOperator::Greater => ">",
            BinaryOperator::GreaterEqual => ">=",
            BinaryOperator::Plus => "+",
            BinaryOperator::Minus => "-",
            BinaryOperator::Star => "*",
            BinaryOperator::Slash => "/",
        }
    }
}

/// A literal. A number is held as its digits, the way the scanner read
/// them.
#[derive(Debug, Clone, Copy, PartialEq, Eq)]
pub enum Literal<'a> {
    Identifier(&'a str),
    String(&'a str),
    Number(&'a str),
    Nil,
}

impl<'a> Literal<'a> {
    /// The literal as it is written out: its text, and `nil` for `Nil`.
    pub open spec fn text(self) -> Seq<char> {
        match self {
            Literal::Identifier(s) => s@,
            Literal::String(s) => s@,
            Literal::Number(n) => n@,
            Literal::Nil => "nil"@,
        }
    }

    /// Writes the literal out.
    pub fn to_text(&self) -> (text: String)
        ensures
            text@ == self.text(),
    {
        match *self {
            Literal::Identifier(s) => String::from_str(s),
            Literal::String(s) => String::from_str(s),
            Literal::Number(n) => String::from_str(n),
            Literal::Nil => String::from_str("nil"),
        }
    }
}

/// An expression, as a tree.
#[allow(inconsistent_fields)]
#[derive(Debug, PartialEq, Eq)]
pub enum Expression<'a> {
    Binary { left: Box<Expression<'a>>, operator: BinaryOperator, right: Box<Expression<'a>> },
    Grouping { expression: Box<Expression<'a>> },
    Literal { value: Literal<'a> },
    Unary { operator: UnaryOperator, right: Box<Expression<'a>> },
}

impl<'a> Expression<'a> {
    /// The expression written out with every operation in parentheses, the
    /// operator first.
    pub open spec fn text(self) -> Seq<char>
        decreases self,
    {
        match self {
            Expression::Binary { left, operator, right } => "("@ + operator.spec_symbol() + " "@
                + left.text() + " "@ + right.text() + ")"@,
            Expression::Grouping { expression } => "(group "@ + expression.text() + ")"@,
            Expression::Literal { value } => value.text(),
            Expression::Unary { operator, right } => "("@ + operator.spec_symbol() + " "@
                + right.text() + ")"@,
        }
    }

    /// Writes the expression out.
    pub fn to_text(&self) -> (text: String)
        ensures
            text@ == self.text(),
        decreases self,
    {
        match self {
            Expression::Binary { left, operator, right } => {
                let mut text = String::from_str("(");
                text.append(operator.symbol());
                text.append(" ");
                text.append(left.to_text().as_str());
                text.append(" ");
                text.append(right.to_text().as_str());
                text.append(")");
                text
            },
            Expression::Grouping { expression } => {
                let mut text = String::from_str("(group ");
                text.append(expression.to_text().as_str());
                text.append(")");
                text
            },
            Expression::Literal { value } => value.to_text(),
            Expression::Unary { operator, right } => {
                let mut text = String::from_str("(");
                text.append(operator.symbol());
                text.append(" ");
                text.append(right.to_text().as_str());
                text.append(")");
                text
            },
        }
    }
}

} // verus!
