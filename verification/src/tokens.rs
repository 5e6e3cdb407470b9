//! Lexical categories: the token alphabet the lexer emits and the operator
//! table (precedence, arity, associativity) the parser climbs by.

use vstd::prelude::*;
use vstd::string::StringExecFns;

use crate::ast::NumericLiteral;

verus! {

/// The ordered token stream a lexer run produces.
pub type TokenList = Vec<Token>;

/// One lexical unit of an expression.
///
/// `Number` and `Variable` are the leaf operands; `Function` names a call
/// whose opening parenthesis was already consumed by the lexer; the
/// parenthesis and comma tokens are purely structural and never survive
/// parsing into the tree.
#[derive(Debug, PartialEq)]
pub enum Token {
    Operator(Operator),
    Number(NumericLiteral),
    Variable(String),
    LeftParenthesis,
    RightParenthesis,
    Comma,
    Function(String),
}

/// The mathematical value of a token: names and literal texts as character
/// sequences.
#[verifier::ext_equal]
pub enum TokenView {
    Operator(Operator),
    Number(Seq<char>),
    Variable(Seq<char>),
    LeftParenthesis,
    RightParenthesis,
    Comma,
    Function(Seq<char>),
}

impl View for Token {
    type V = TokenView;

    open spec fn view(&self) -> TokenView {
        match self {
            Token::Operator(op) => TokenView::Operator(*op),
            Token::Number(n) => TokenView::Number(n@),
            Token::Variable(s) => TokenView::Variable(s@),
            Token::LeftParenthesis => TokenView::LeftParenthesis,
            Token::RightParenthesis => TokenView::RightParenthesis,
            Token::Comma => TokenView::Comma,
            Token::Function(s) => TokenView::Function(s@),
        }
    }
}

/// The views of a token sequence, element by element.
pub open spec fn token_views(toks: Seq<Token>) -> Seq<TokenView> {
    toks.map_values(|t: Token| t@)
}

/// The textual form of a token, for error reports.
pub open spec fn spec_token_text(t: TokenView) -> Seq<char> {
    match t {
        TokenView::Operator(op) => op.spec_symbol(),
        TokenView::Number(s) => s,
        TokenView::Variable(s) => s,
        TokenView::Function(s) => s,
        TokenView::LeftParenthesis => "("@,
        TokenView::RightParenthesis => ")"@,
        TokenView::Comma => ","@,
    }
}

impl Token {
    /// The token written back as text, for error reports.
    pub fn text(&self) -> (r: String)
        ensures
            r@ == spec_token_text(self@),
    {
        match self {
            Token::Operator(op) => String::from_str(op.symbol()),
            Token::Number(n) => String::from_str(n.as_text()),
            Token::Variable(s) => s.clone(),
            Token::Function(s) => s.clone(),
            Token::LeftParenthesis => String::from_str("("),
            Token::RightParenthesis => String::from_str(")"),
            Token::Comma => String::from_str(","),
        }
    }
}

/// An operator kind.  Only the five arithmetic kinds have an evaluation
/// rule; the comparison, shift and bitwise kinds are carried in the type
/// for future use and are rejected by the evaluator.
#[derive(Clone, Copy, Debug)]
pub enum Operator {
    Add,
    Subtract,
    Multiply,
    Divide,
    Exponentiate,
    IsGreaterThan,
    IsLessThan,
    IsGreaterThanOrEqualTo,
    IsLessThanOrEqualTo,
    IsEqualTo,
    IsNotEqualTo,
    Not,
    ShiftRight,
    ShiftLeft,
    BitwiseOr,
    BitwiseAnd,
}

impl Operator {
    /// Binding tightness: a higher rank binds tighter.
    pub open spec fn spec_precedence(self) -> int {
        match self {
            Operator::Add => 2,
            Operator::Subtract => 2,
            Operator::Multiply => 3,
            Operator::Divide => 3,
            Operator::Exponentiate => 4,
            Operator::IsGreaterThan => 2,
            Operator::IsLessThan => 2,
            Operator::IsGreaterThanOrEqualTo => 2,
            Operator::IsLessThanOrEqualTo => 2,
            Operator::IsEqualTo => 2,
            Operator::IsNotEqualTo => 2,
            Operator::Not => 2,
            Operator::ShiftRight => 5,
            Operator::ShiftLeft => 5,
            Operator::BitwiseOr => 5,
            Operator::BitwiseAnd => 5,
        }
    }

    pub fn get_precedence(&self) -> (r: i8)
        ensures
            r as int == self.spec_precedence(),
    {
        match self {
            Operator::Add => 2,
            Operator::Subtract => 2,
            Operator::Multiply => 3,
            Operator::Divide => 3,
            Operator::Exponentiate => 4,
            Operator::IsGreaterThan
            | Operator::IsLessThan
            | Operator::IsGreaterThanOrEqualTo
            | Operator::IsLessThanOrEqualTo
            | Operator::IsEqualTo
            | Operator::IsNotEqualTo
            | Operator::Not => 2,
            Operator::ShiftRight
            | Operator::BitwiseOr
            | Operator::BitwiseAnd
            | Operator::ShiftLeft => 5,
        }
    }

    /// How many operands the kind requires: one for `Not`, two otherwise.
    pub open spec fn spec_num_operands(self) -> int {
        match self {
            Operator::Not => 1,
            _ => 2,
        }
    }

    pub fn num_operands(&self) -> (r: i8)
        ensures
            r as int == self.spec_num_operands(),
    {
        match self {
            Operator::Not => 1,
            _ => 2,
        }
    }

    /// Exponentiation is the one right-associative kind: a chain
    /// `a ^ b ^ c` groups as `a ^ (b ^ c)`.
    pub open spec fn spec_right_associative(self) -> bool {
        self is Exponentiate
    }

    pub fn is_right_associative(&self) -> (r: bool)
        ensures
            r == self.spec_right_associative(),
    {
        matches!(self, Operator::Exponentiate)
    }

    /// The textual form of the operator.
    pub open spec fn spec_symbol(self) -> Seq<char> {
        match self {
            Operator::Add => "+"@,
            Operator::Subtract => "-"@,
            Operator::Multiply => "*"@,
            Operator::Divide => "/"@,
            Operator::Exponentiate => "^"@,
            Operator::IsGreaterThan => ">"@,
            Operator::IsLessThan => "<"@,
            Operator::IsGreaterThanOrEqualTo => ">="@,
            Operator::IsLessThanOrEqualTo => "<="@,
            Operator::IsEqualTo => "=="@,
            Operator::IsNotEqualTo => "!="@,
            Operator::Not => "!"@,
            Operator::ShiftRight => ">>"@,
            Operator::ShiftLeft => "<<"@,
            Operator::BitwiseOr => "|"@,
            Operator::BitwiseAnd => "&"@,
        }
    }

    /// The operator written as text, for error reports.
    pub fn symbol(&self) -> (r: &'static str)
        ensures
            r@ == self.spec_symbol(),
    {
        match self {
            Operator::Add => "+",
            Operator::Subtract => "-",
            Operator::Multiply => "*",
            Operator::Divide => "/",
            Operator::Exponentiate => "^",
            Operator::IsGreaterThan => ">",
            Operator::IsLessThan => "<",
            Operator::IsGreaterThanOrEqualTo => ">=",
            Operator::IsLessThanOrEqualTo => "<=",
            Operator::IsEqualTo => "==",
            Operator::IsNotEqualTo => "!=",
            Operator::Not => "!",
            Operator::ShiftRight => ">>",
            Operator::ShiftLeft => "<<",
            Operator::BitwiseOr => "|",
            Operator::BitwiseAnd => "&",
        }
    }
}

/// Operators compare by precedence rank alone, a deliberately narrow
/// relation: two distinct kinds of equal rank are equal here.
impl PartialEq for Operator {
    fn eq(&self, other: &Operator) -> bool {
        self.get_precedence() == other.get_precedence()
    }
}

impl vstd::std_specs::cmp::PartialEqSpecImpl for Operator {
    open spec fn obeys_eq_spec() -> bool {
        true
    }

    open spec fn eq_spec(&self, other: &Operator) -> bool {
        self.spec_precedence() == other.spec_precedence()
    }
}

/// Ordering likewise follows precedence rank: a tighter-binding operator
/// is the greater one.
impl PartialOrd for Operator {
    fn partial_cmp(&self, other: &Operator) -> Option<core::cmp::Ordering> {
        let a = self.get_precedence();
        let b = other.get_precedence();
        if a < b {
            Some(core::cmp::Ordering::Less)
        } else if a == b {
            Some(core::cmp::Ordering::Equal)
        } else {
            Some(core::cmp::Ordering::Greater)
        }
    }
}

impl vstd::std_specs::cmp::PartialOrdSpecImpl for Operator {
    open spec fn obeys_partial_cmp_spec() -> bool {
        true
    }

    open spec fn partial_cmp_spec(&self, other: &Operator) -> Option<core::cmp::Ordering> {
        if self.spec_precedence() < other.spec_precedence() {
            Some(core::cmp::Ordering::Less)
        } else if self.spec_precedence() == other.spec_precedence() {
            Some(core::cmp::Ordering::Equal)
        } else {
            Some(core::cmp::Ordering::Greater)
        }
    }
}

} // verus!
