//! Properties that hold across the library's stages, stated once over the
//! specification functions that every contract uses.

use vstd::prelude::*;

use crate::ast::NodeView;
use crate::ast::VariableView;
use crate::error::ErrorView;
use crate::eval::ComputationView;
use crate::eval::spec_eval_node;
use crate::functions::spec_builtin;
use crate::parser::spec_binary;
use crate::parser::spec_leaf;
use crate::parser::spec_parse;
use crate::parser::spec_parse_tokens;
use crate::tokens::Operator;
use crate::tokens::TokenView;

verus! {

/// Variable resolution: a variable node evaluates to exactly the numeric
/// value its scope binds, and fails with `UnknownVariable` if and only if
/// the name is unbound or bound to a callable.
pub proof fn lemma_variable_resolution(name: Seq<char>, scope: Map<Seq<char>, VariableView>)
    ensures
        forall|s: Seq<char>|
            scope.contains_key(name) && scope[name] == VariableView::Number(s)
                ==> spec_eval_node(spec_leaf(TokenView::Variable(name)), scope) == Result::<
                ComputationView,
                ErrorView,
            >::Ok(ComputationView::Literal(s)),
        !(scope.contains_key(name) && scope[name] is Number) ==> spec_eval_node(
            spec_leaf(TokenView::Variable(name)),
            scope,
        ) == Result::<ComputationView, ErrorView>::Err(ErrorView::UnknownVariable(name)),
{
}

/// Function arity: a built-in applied to no arguments at all — whether
/// the argument list is absent or empty — fails with the parameter-count
/// error, never by running the built-in.
pub proof fn lemma_zero_arg_builtin_fails(name: Seq<char>, scope: Map<Seq<char>, VariableView>)
    requires
        spec_builtin(name) is Some,
    ensures
        spec_eval_node(
            NodeView { token: TokenView::Function(name), args: Option::Some(Seq::empty()) },
            scope,
        ) == Result::<ComputationView, ErrorView>::Err(ErrorView::NotEnoughFunctionParams(name)),
        spec_eval_node(
            NodeView { token: TokenView::Function(name), args: Option::None },
            scope,
        ) == Result::<ComputationView, ErrorView>::Err(ErrorView::NotEnoughFunctionParams(name)),
{
}

/// Determinism: evaluation is a function of the tree and the scope alone,
/// so — with `eval_with`'s contract pinning each call's result to
/// `spec_eval_node` of views that shared borrows cannot change — two
/// evaluations of one tree against one scope agree.
pub proof fn lemma_eval_deterministic(
    n1: NodeView,
    n2: NodeView,
    s1: Map<Seq<char>, VariableView>,
    s2: Map<Seq<char>, VariableView>,
)
    requires
        n1 == n2,
        s1 == s2,
    ensures
        spec_eval_node(n1, s1) == spec_eval_node(n2, s2),
{
}

/// Re-parse stability: parsing is a function of the source text alone, so
/// — with `parse`'s contract pinning each call's result to `spec_parse`
/// of the text — parsing the same text twice builds equal trees.
pub proof fn lemma_reparse_stable(s1: Seq<char>, s2: Seq<char>)
    requires
        s1 == s2,
    ensures
        spec_parse(s1) == spec_parse(s2),
{
}

/// Exponentiation is right-associative: the token run `a ^ b ^ c` parses
/// as `a ^ (b ^ c)`.
pub proof fn lemma_exponent_right_associative(a: Seq<char>, b: Seq<char>, c: Seq<char>)
    ensures
        spec_parse_tokens(
            seq![
                TokenView::Number(a),
                TokenView::Operator(Operator::Exponentiate),
                TokenView::Number(b),
                TokenView::Operator(Operator::Exponentiate),
                TokenView::Number(c),
            ],
        ) == Result::<NodeView, ErrorView>::Ok(
            spec_binary(
                Operator::Exponentiate,
                spec_leaf(TokenView::Number(a)),
                spec_binary(
                    Operator::Exponentiate,
                    spec_leaf(TokenView::Number(b)),
                    spec_leaf(TokenView::Number(c)),
                ),
            ),
        ),
{
    reveal_with_fuel(crate::parser::spec_parse_expr, 4);
    reveal_with_fuel(crate::parser::spec_parse_atom, 4);
    reveal_with_fuel(crate::parser::spec_parse_climb, 6);
    let t = seq![
        TokenView::Number(a),
        TokenView::Operator(Operator::Exponentiate),
        TokenView::Number(b),
        TokenView::Operator(Operator::Exponentiate),
        TokenView::Number(c),
    ];
    let la = spec_leaf(TokenView::Number(a));
    let lb = spec_leaf(TokenView::Number(b));
    let lc = spec_leaf(TokenView::Number(c));
    assert(crate::parser::spec_parse_atom(t, 4) == (crate::parser::ParseOutcome::Parsed {
        node: lc,
        next: 5int,
    }));
    assert(crate::parser::spec_parse_expr(t, 4, 4) == (crate::parser::ParseOutcome::Parsed {
        node: lc,
        next: 5int,
    }));
    assert(crate::parser::spec_parse_climb(t, 3, 4, lb) == (crate::parser::ParseOutcome::Parsed {
        node: spec_binary(Operator::Exponentiate, lb, lc),
        next: 5int,
    }));
    assert(crate::parser::spec_parse_expr(t, 2, 4) == (crate::parser::ParseOutcome::Parsed {
        node: spec_binary(Operator::Exponentiate, lb, lc),
        next: 5int,
    }));
    assert(crate::parser::spec_parse_climb(t, 1, 0, la) == (crate::parser::ParseOutcome::Parsed {
        node: spec_binary(
            Operator::Exponentiate,
            la,
            spec_binary(Operator::Exponentiate, lb, lc),
        ),
        next: 5int,
    }));
}

/// Multiplication binds tighter than addition: the token run `a + b * c`
/// parses as `a + (b * c)`.
pub proof fn lemma_multiplication_binds_tighter(a: Seq<char>, b: Seq<char>, c: Seq<char>)
    ensures
        spec_parse_tokens(
            seq![
                TokenView::Number(a),
                TokenView::Operator(Operator::Add),
                TokenView::Number(b),
                TokenView::Operator(Operator::Multiply),
                TokenView::Number(c),
            ],
        ) == Result::<NodeView, ErrorView>::Ok(
            spec_binary(
                Operator::Add,
                spec_leaf(TokenView::Number(a)),
                spec_binary(
                    Operator::Multiply,
                    spec_leaf(TokenView::Number(b)),
                    spec_leaf(TokenView::Number(c)),
                ),
            ),
        ),
{
    reveal_with_fuel(crate::parser::spec_parse_expr, 4);
    reveal_with_fuel(crate::parser::spec_parse_atom, 4);
    reveal_with_fuel(crate::parser::spec_parse_climb, 6);
}

} // verus!
