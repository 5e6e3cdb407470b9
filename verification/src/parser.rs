//! The parser: a token stream to a precedence-correct expression tree, by
//! precedence climbing.
//!
//! Binary operators of equal precedence combine left to right, except
//! exponentiation, which combines right to left.  Two adjacent operands
//! with no operator between them (the lexer's implicit tokens, as in `2x`)
//! fold into a multiplication node of multiplication's precedence.  A
//! function token is followed by its comma-separated arguments up to the
//! closing parenthesis, each argument a full expression.  Malformed input
//! fails fast: a stray or missing parenthesis is `UnbalancedParentheses`,
//! an operator with no operand is `MissingOperands`.

use vstd::prelude::*;

use crate::ast::Node;
use crate::ast::NodeView;
use crate::ast::Root;
use crate::ast::lemma_node_views;
use crate::ast::node_views;
use crate::ast::wf_children_from;
use crate::ast::wf_tree;
use crate::error::Error;
use crate::error::ErrorView;
use crate::lexer::spec_tokenize;
use crate::lexer::tokenize;
use crate::tokens::Operator;
use crate::tokens::Token;
use crate::tokens::TokenView;
use crate::tokens::spec_token_text;
use crate::tokens::token_views;

verus! {

/// A leaf node.
pub open spec fn spec_leaf(t: TokenView) -> NodeView {
    NodeView { token: t, args: Option::None }
}

/// A binary operator node.
pub open spec fn spec_binary(op: Operator, left: NodeView, right: NodeView) -> NodeView {
    NodeView { token: TokenView::Operator(op), args: Option::Some(seq![left, right]) }
}

/// What one parsing step ends in: a node and the position after it, or an
/// error.
pub enum ParseOutcome {
    Parsed { node: NodeView, next: int },
    Failed(ErrorView),
}

/// What parsing an argument list ends in.
pub enum ArgsOutcome {
    Parsed { args: Seq<NodeView>, next: int },
    Failed(ErrorView),
}

/// Parses one operand at position `i`: a number or variable leaf, a
/// parenthesized expression, or a function with its argument list.  Any
/// other token here means an operand is missing.
pub open spec fn spec_parse_atom(t: Seq<TokenView>, i: int) -> ParseOutcome
    decreases t.len() - i, 0int,
        when 0 <= i <= t.len()
{
    if i == t.len() {
        ParseOutcome::Failed(ErrorView::MissingOperands(Seq::empty()))
    } else {
        match t[i] {
            TokenView::Number(_) => ParseOutcome::Parsed { node: spec_leaf(t[i]), next: i + 1 },
            TokenView::Variable(_) => ParseOutcome::Parsed { node: spec_leaf(t[i]), next: i + 1 },
            TokenView::LeftParenthesis => match spec_parse_expr(t, i + 1, 0) {
                ParseOutcome::Failed(e) => ParseOutcome::Failed(e),
                ParseOutcome::Parsed { node, next } => if 0 <= next < t.len() && t[next]
                    is RightParenthesis {
                    ParseOutcome::Parsed { node, next: next + 1 }
                } else {
                    ParseOutcome::Failed(ErrorView::UnbalancedParentheses)
                },
            },
            TokenView::Function(_) => {
                if i + 1 == t.len() {
                    ParseOutcome::Failed(ErrorView::UnbalancedParentheses)
                } else if t[i + 1] is RightParenthesis {
                    ParseOutcome::Parsed {
                        node: NodeView {
                            token: t[i],
                            args: Option::Some(Seq::empty()),
                        },
                        next: i + 2,
                    }
                } else {
                    match spec_parse_args(t, i + 1) {
                        ArgsOutcome::Failed(e) => ParseOutcome::Failed(e),
                        ArgsOutcome::Parsed { args, next } => ParseOutcome::Parsed {
                            node: NodeView { token: t[i], args: Option::Some(args) },
                            next,
                        },
                    }
                }
            },
            _ => ParseOutcome::Failed(ErrorView::MissingOperands(spec_token_text(t[i]))),
        }
    }
}

/// Parses a full expression from position `i`, combining operators whose
/// precedence is at least `min_prec`.
pub open spec fn spec_parse_expr(t: Seq<TokenView>, i: int, min_prec: int) -> ParseOutcome
    decreases t.len() - i, 2int,
        when 0 <= i <= t.len()
{
    if i == t.len() {
        ParseOutcome::Failed(ErrorView::MissingOperands(Seq::empty()))
    } else {
        match spec_parse_atom(t, i) {
            ParseOutcome::Failed(e) => ParseOutcome::Failed(e),
            ParseOutcome::Parsed { node, next } => {
                let j = if i < next <= t.len() {
                    next
                } else {
                    i + 1
                };
                spec_parse_climb(t, j, min_prec, node)
            },
        }
    }
}

/// Having parsed `left`, folds in the operators that follow while their
/// precedence stays at or above `min_prec`.  A right-associative operator
/// parses its right side at its own precedence, a left-associative one a
/// step above; an operand starting right after `left` is an implicit
/// multiplication at multiplication's precedence.
pub open spec fn spec_parse_climb(t: Seq<TokenView>, i: int, min_prec: int, left: NodeView) -> ParseOutcome
    decreases t.len() - i, 3int,
        when 0 <= i <= t.len()
{
    if i == t.len() {
        ParseOutcome::Parsed { node: left, next: i }
    } else {
        match t[i] {
            TokenView::Operator(op) => {
                if op.spec_precedence() >= min_prec {
                    let next_min = if op.spec_right_associative() {
                        op.spec_precedence()
                    } else {
                        op.spec_precedence() + 1
                    };
                    match spec_parse_expr(t, i + 1, next_min) {
                        ParseOutcome::Failed(e) => ParseOutcome::Failed(e),
                        ParseOutcome::Parsed { node: rhs, next } => {
                            let j = if i + 1 < next <= t.len() {
                                next
                            } else if i + 2 <= t.len() {
                                i + 2
                            } else {
                                t.len() as int
                            };
                            spec_parse_climb(t, j, min_prec, spec_binary(op, left, rhs))
                        },
                    }
                } else {
                    ParseOutcome::Parsed { node: left, next: i }
                }
            },
            TokenView::RightParenthesis => ParseOutcome::Parsed { node: left, next: i },
            TokenView::Comma => ParseOutcome::Parsed { node: left, next: i },
            _ => {
                if 3 >= min_prec {
                    match spec_parse_expr(t, i, 4) {
                        ParseOutcome::Failed(e) => ParseOutcome::Failed(e),
                        ParseOutcome::Parsed { node: rhs, next } => {
                            let j = if i < next <= t.len() {
                                next
                            } else {
                                i + 1
                            };
                            spec_parse_climb(t, j, min_prec, spec_binary(Operator::Multiply, left, rhs))
                        },
                    }
                } else {
                    ParseOutcome::Parsed { node: left, next: i }
                }
            },
        }
    }
}

/// Parses the comma-separated argument expressions of a function from
/// position `i`, through the closing parenthesis.
pub open spec fn spec_parse_args(t: Seq<TokenView>, i: int) -> ArgsOutcome
    decreases t.len() - i, 3int,
        when 0 <= i <= t.len()
{
    if i == t.len() {
        ArgsOutcome::Failed(ErrorView::MissingOperands(Seq::empty()))
    } else {
        match spec_parse_expr(t, i, 0) {
        ParseOutcome::Failed(e) => ArgsOutcome::Failed(e),
        ParseOutcome::Parsed { node, next } => {
            if !(0 <= next < t.len()) {
                ArgsOutcome::Failed(ErrorView::UnbalancedParentheses)
            } else if t[next] is Comma {
                let j = if i < next + 1 <= t.len() {
                    next + 1
                } else {
                    i + 1
                };
                match spec_parse_args(t, j) {
                    ArgsOutcome::Failed(e) => ArgsOutcome::Failed(e),
                    ArgsOutcome::Parsed { args, next: after } => ArgsOutcome::Parsed {
                        args: seq![node] + args,
                        next: after,
                    },
                }
            } else if t[next] is RightParenthesis {
                ArgsOutcome::Parsed { args: seq![node], next: next + 1 }
            } else {
                ArgsOutcome::Failed(ErrorView::UnbalancedParentheses)
            }
        },
        }
    }
}

/// What parsing a whole token stream yields: the tree, or the error.  The
/// expression must use the entire stream; a leftover token is a stray
/// parenthesis or comma.
pub open spec fn spec_parse_tokens(t: Seq<TokenView>) -> Result<NodeView, ErrorView> {
    match spec_parse_expr(t, 0, 0) {
        ParseOutcome::Failed(e) => Result::Err(e),
        ParseOutcome::Parsed { node, next } => if next == t.len() {
            Result::Ok(node)
        } else {
            Result::Err(ErrorView::UnbalancedParentheses)
        },
    }
}

/// What parsing an input text yields.
pub open spec fn spec_parse(s: Seq<char>) -> Result<NodeView, ErrorView> {
    spec_parse_tokens(spec_tokenize(s))
}

/// Builds the two-child node of a binary operator application.
fn binary_node(op: Operator, left: Node, right: Node) -> (r: Node)
    ensures
        r@ == spec_binary(op, left@, right@),
{
    let ghost left_view = left@;
    let ghost right_view = right@;
    let mut children: Vec<Node> = Vec::new();
    children.push(left);
    children.push(right);
    let r = Node { token: Token::Operator(op), args: Some(children) };
    proof {
        let children = r.args->0;
        lemma_node_views(children);
        assert(node_views(children) =~= seq![left_view, right_view]);
        assert(r@ =~~= spec_binary(op, left_view, right_view));
    }
    r
}

/// Parses one operand at position `i`.
fn parse_atom(t: &Vec<Token>, i: usize) -> (r: Result<(Node, usize), Error>)
    requires
        i <= t@.len(),
    ensures
        match r {
            Ok(p) => spec_parse_atom(token_views(t@), i as int) == (ParseOutcome::Parsed {
                node: p.0@,
                next: p.1 as int,
            }) && i < p.1 <= t@.len(),
            Err(e) => spec_parse_atom(token_views(t@), i as int) == ParseOutcome::Failed(e@),
        },
    decreases t@.len() - i, 0int,
{
    let ghost tv = token_views(t@);
    proof {
        assert(tv.len() == t@.len());
    }
    if i == t.len() {
        return Err(Error::MissingOperands(String::new()));
    }
    proof {
        assert(tv[i as int] == t@[i as int]@);
    }
    match &t[i] {
        Token::Number(num) => Ok((Node { token: Token::Number(num.clone()), args: None }, i + 1)),
        Token::Variable(name) => Ok(
            (Node { token: Token::Variable(name.clone()), args: None }, i + 1),
        ),
        Token::LeftParenthesis => {
            match parse_expr(t, i + 1, 0) {
                Err(e) => Err(e),
                Ok((node, next)) => {
                    if next < t.len() {
                        proof {
                            assert(tv[next as int] == t@[next as int]@);
                        }
                        if matches!(&t[next], Token::RightParenthesis) {
                            return Ok((node, next + 1));
                        }
                    }
                    Err(Error::UnbalancedParentheses)
                },
            }
        },
        Token::Function(name) => {
            if i + 1 == t.len() {
                return Err(Error::UnbalancedParentheses);
            }
            proof {
                assert(tv[i as int + 1] == t@[i as int + 1]@);
            }
            if matches!(&t[i + 1], Token::RightParenthesis) {
                let empty_args: Vec<Node> = Vec::new();
                let node = Node { token: Token::Function(name.clone()), args: Some(empty_args) };
                proof {
                    lemma_node_views(node.args->0);
                    assert(node_views(node.args->0) =~= Seq::<NodeView>::empty());
                }
                return Ok((node, i + 2));
            }
            match parse_args(t, i + 1) {
                Err(e) => Err(e),
                Ok((args, next)) => {
                    let node = Node { token: Token::Function(name.clone()), args: Some(args) };
                    Ok((node, next))
                },
            }
        },
        _ => Err(Error::MissingOperands(t[i].text())),
    }
}

/// Parses a full expression from `i` at the given minimum precedence.
pub(crate) fn parse_expr(t: &Vec<Token>, i: usize, min_prec: i8) -> (r: Result<(Node, usize), Error>)
    requires
        i <= t@.len(),
    ensures
        match r {
            Ok(p) => spec_parse_expr(token_views(t@), i as int, min_prec as int)
                == (ParseOutcome::Parsed { node: p.0@, next: p.1 as int }) && i < p.1 <= t@.len(),
            Err(e) => spec_parse_expr(token_views(t@), i as int, min_prec as int)
                == ParseOutcome::Failed(e@),
        },
    decreases t@.len() - i, 2int,
{
    if i == t.len() {
        return Err(Error::MissingOperands(String::new()));
    }
    match parse_atom(t, i) {
        Err(e) => Err(e),
        Ok((node, next)) => parse_climb(t, next, min_prec, node),
    }
}

/// Folds the operators after `left` in while their precedence allows.
fn parse_climb(t: &Vec<Token>, i: usize, min_prec: i8, left: Node) -> (r: Result<(Node, usize), Error>)
    requires
        i <= t@.len(),
    ensures
        match r {
            Ok(p) => spec_parse_climb(token_views(t@), i as int, min_prec as int, left@)
                == (ParseOutcome::Parsed { node: p.0@, next: p.1 as int }) && i <= p.1 <= t@.len(),
            Err(e) => spec_parse_climb(token_views(t@), i as int, min_prec as int, left@)
                == ParseOutcome::Failed(e@),
        },
    decreases t@.len() - i, 3int,
{
    let ghost tv = token_views(t@);
    proof {
        assert(tv.len() == t@.len());
    }
    if i == t.len() {
        return Ok((left, i));
    }
    proof {
        assert(tv[i as int] == t@[i as int]@);
    }
    match &t[i] {
        Token::Operator(op) => {
            let p = op.get_precedence();
            if p >= min_prec {
                proof {
                    assert(op.spec_precedence() <= 5);
                }
                let next_min = if op.is_right_associative() {
                    p
                } else {
                    p + 1
                };
                let op = *op;
                match parse_expr(t, i + 1, next_min) {
                    Err(e) => Err(e),
                    Ok((rhs, next)) => parse_climb(t, next, min_prec, binary_node(op, left, rhs)),
                }
            } else {
                Ok((left, i))
            }
        },
        Token::RightParenthesis => Ok((left, i)),
        Token::Comma => Ok((left, i)),
        _ => {
            if 3 >= min_prec {
                match parse_expr(t, i, 4) {
                    Err(e) => Err(e),
                    Ok((rhs, next)) => parse_climb(
                        t,
                        next,
                        min_prec,
                        binary_node(Operator::Multiply, left, rhs),
                    ),
                }
            } else {
                Ok((left, i))
            }
        },
    }
}

/// Parses a function's argument list from `i` through its closing
/// parenthesis.
fn parse_args(t: &Vec<Token>, i: usize) -> (r: Result<(Vec<Node>, usize), Error>)
    requires
        i <= t@.len(),
    ensures
        match r {
            Ok(p) => spec_parse_args(token_views(t@), i as int) == (ArgsOutcome::Parsed {
                args: node_views(p.0),
                next: p.1 as int,
            }) && i < p.1 <= t@.len(),
            Err(e) => spec_parse_args(token_views(t@), i as int) == ArgsOutcome::Failed(e@),
        },
    decreases t@.len() - i, 3int,
{
    let ghost tv = token_views(t@);
    proof {
        assert(tv.len() == t@.len());
    }
    if i == t.len() {
        return Err(Error::MissingOperands(String::new()));
    }
    match parse_expr(t, i, 0) {
        Err(e) => Err(e),
        Ok((node, next)) => {
            if next >= t.len() {
                return Err(Error::UnbalancedParentheses);
            }
            proof {
                assert(tv[next as int] == t@[next as int]@);
            }
            if matches!(&t[next], Token::Comma) {
                match parse_args(t, next + 1) {
                    Err(e) => Err(e),
                    Ok((rest, after)) => {
                        let ghost node_v = node@;
                        let ghost rest_views = node_views(rest);
                        proof {
                            lemma_node_views(rest);
                        }
                        let mut args = rest;
                        args.insert(0, node);
                        proof {
                            lemma_node_views(args);
                            assert(node_views(args) =~= seq![node_v] + rest_views);
                        }
                        Ok((args, after))
                    },
                }
            } else if matches!(&t[next], Token::RightParenthesis) {
                let mut args: Vec<Node> = Vec::new();
                args.push(node);
                proof {
                    lemma_node_views(args);
                    assert(node_views(args) =~= seq![node@]);
                }
                Ok((args, next + 1))
            } else {
                Err(Error::UnbalancedParentheses)
            }
        },
    }
}

/// Parses a whole token stream; the expression must use all of it.
pub fn parse_token_list(t: &Vec<Token>) -> (r: Result<Node, Error>)
    ensures
        match r {
            Ok(node) => spec_parse_tokens(token_views(t@)) == Result::<NodeView, ErrorView>::Ok(
                node@,
            ),
            Err(e) => spec_parse_tokens(token_views(t@)) == Result::<NodeView, ErrorView>::Err(e@),
        },
{
    match parse_expr(t, 0, 0) {
        Err(e) => Err(e),
        Ok((node, next)) => {
            if next == t.len() {
                Ok(node)
            } else {
                Err(Error::UnbalancedParentheses)
            }
        },
    }
}

/// Builds an expression tree from source text, without evaluating it.
pub fn parse(expr: &str) -> (r: Result<Root, Error>)
    ensures
        match r {
            Ok(root) => spec_parse(expr@) == Result::<NodeView, ErrorView>::Ok(root@),
            Err(e) => spec_parse(expr@) == Result::<NodeView, ErrorView>::Err(e@),
        },
{
    let tokens = tokenize(expr);
    match parse_token_list(&tokens) {
        Err(e) => Err(e),
        Ok(node) => Ok(Root { node }),
    }
}

proof fn lemma_atom_wf(t: Seq<TokenView>, i: int)
    requires
        0 <= i <= t.len(),
    ensures
        (match spec_parse_atom(t, i) {
            ParseOutcome::Parsed { node, .. } => wf_tree(node),
            ParseOutcome::Failed(_) => true,
        }),
    decreases t.len() - i, 0int,
{
    if i < t.len() {
        match t[i] {
            TokenView::LeftParenthesis => {
                lemma_expr_wf(t, i + 1, 0);
            },
            TokenView::Function(_) => {
                if i + 1 < t.len() && !(t[i + 1] is RightParenthesis) {
                    lemma_args_wf(t, i + 1);
                }
            },
            _ => {},
        }
    }
}

proof fn lemma_expr_wf(t: Seq<TokenView>, i: int, min_prec: int)
    requires
        0 <= i <= t.len(),
    ensures
        (match spec_parse_expr(t, i, min_prec) {
            ParseOutcome::Parsed { node, .. } => wf_tree(node),
            ParseOutcome::Failed(_) => true,
        }),
    decreases t.len() - i, 2int,
{
    if i < t.len() {
        lemma_atom_wf(t, i);
        match spec_parse_atom(t, i) {
            ParseOutcome::Failed(_) => {},
            ParseOutcome::Parsed { node, next } => {
                let j = if i < next <= t.len() {
                    next
                } else {
                    i + 1
                };
                lemma_climb_wf(t, j, min_prec, node);
            },
        }
    }
}

proof fn lemma_climb_wf(t: Seq<TokenView>, i: int, min_prec: int, left: NodeView)
    requires
        0 <= i <= t.len(),
        wf_tree(left),
    ensures
        (match spec_parse_climb(t, i, min_prec, left) {
            ParseOutcome::Parsed { node, .. } => wf_tree(node),
            ParseOutcome::Failed(_) => true,
        }),
    decreases t.len() - i, 3int,
{
    if i < t.len() {
        match t[i] {
            TokenView::Operator(op) => {
                if op.spec_precedence() >= min_prec {
                    let next_min = if op.spec_right_associative() {
                        op.spec_precedence()
                    } else {
                        op.spec_precedence() + 1
                    };
                    lemma_expr_wf(t, i + 1, next_min);
                    match spec_parse_expr(t, i + 1, next_min) {
                        ParseOutcome::Failed(_) => {},
                        ParseOutcome::Parsed { node: rhs, next } => {
                            let j = if i + 1 < next <= t.len() {
                                next
                            } else if i + 2 <= t.len() {
                                i + 2
                            } else {
                                t.len() as int
                            };
                            lemma_binary_wf(op, left, rhs);
                            lemma_climb_wf(t, j, min_prec, spec_binary(op, left, rhs));
                        },
                    }
                }
            },
            TokenView::RightParenthesis => {},
            TokenView::Comma => {},
            _ => {
                if 3 >= min_prec {
                    lemma_expr_wf(t, i, 4);
                    match spec_parse_expr(t, i, 4) {
                        ParseOutcome::Failed(_) => {},
                        ParseOutcome::Parsed { node: rhs, next } => {
                            let j = if i < next <= t.len() {
                                next
                            } else {
                                i + 1
                            };
                            lemma_binary_wf(Operator::Multiply, left, rhs);
                            lemma_climb_wf(t, j, min_prec, spec_binary(Operator::Multiply, left, rhs));
                        },
                    }
                }
            },
        }
    }
}

proof fn lemma_binary_wf(op: Operator, left: NodeView, right: NodeView)
    requires
        wf_tree(left),
        wf_tree(right),
    ensures
        wf_tree(spec_binary(op, left, right)),
{
    let children = seq![left, right];
    crate::ast::lemma_wf_children_iff(children, 0);
}

proof fn lemma_args_wf(t: Seq<TokenView>, i: int)
    requires
        0 <= i <= t.len(),
    ensures
        (match spec_parse_args(t, i) {
            ArgsOutcome::Parsed { args, .. } => wf_children_from(args, 0),
            ArgsOutcome::Failed(_) => true,
        }),
    decreases t.len() - i, 3int,
{
    if i < t.len() {
        lemma_expr_wf(t, i, 0);
        match spec_parse_expr(t, i, 0) {
            ParseOutcome::Failed(_) => {},
            ParseOutcome::Parsed { node, next } => {
                if 0 <= next < t.len() {
                    if t[next] is Comma {
                        let j = if i < next + 1 <= t.len() {
                            next + 1
                        } else {
                            i + 1
                        };
                        lemma_args_wf(t, j);
                        match spec_parse_args(t, j) {
                            ArgsOutcome::Failed(_) => {},
                            ArgsOutcome::Parsed { args, .. } => {
                                let all = seq![node] + args;
                                crate::ast::lemma_wf_children_iff(args, 0);
                                crate::ast::lemma_wf_children_iff(all, 0);
                                assert forall|k: int| 0 <= k < all.len() implies wf_tree(
                                    #[trigger] all[k],
                                ) by {
                                    if k > 0 {
                                        assert(all[k] == args[k - 1]);
                                    }
                                }
                            },
                        }
                    } else if t[next] is RightParenthesis {
                        let single = seq![node];
                        crate::ast::lemma_wf_children_iff(single, 0);
                    }
                }
            },
        }
    }
}

/// Every tree the parser builds is well shaped: numbers and variables are
/// leaves, operator and function nodes carry their children, and no
/// structural token survives into the tree.
pub proof fn lemma_parse_trees_wellformed(s: Seq<char>)
    ensures
        (match spec_parse(s) {
            Result::Ok(node) => wf_tree(node),
            Result::Err(_) => true,
        }),
{
    lemma_expr_wf(spec_tokenize(s), 0, 0);
}

} // verus!
