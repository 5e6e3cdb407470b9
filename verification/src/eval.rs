//! The evaluator: a recursive walk of the expression tree against a
//! scope, deciding every error case and substituting every binding.
//!
//! The walk is exact and symbolic: it returns a [`Computation`], the fully
//! resolved arithmetic to perform — literals at the leaves, the n-ary
//! operator applications and function calls above them — or the error
//! that stops it.  The caller carries the arithmetic out with ordinary
//! floating-point operations; everything that can go wrong short of that
//! arithmetic is decided here, against the same scope for every child,
//! left to right.

use vstd::prelude::*;
use vstd::string::StringExecFns;

use crate::ast::Args;
use crate::ast::Node;
use crate::ast::NodeView;
use crate::ast::Root;
use crate::ast::Scope;
use crate::ast::Variable;
use crate::ast::VariableView;
use crate::ast::args_views;
use crate::ast::lemma_node_views;
use crate::ast::node_views;
use crate::error::Error;
use crate::error::ErrorView;
use crate::functions::BuiltinFunction;
use crate::functions::builtin_function;
use crate::functions::spec_builtin;
use crate::tokens::Operator;
use crate::tokens::Token;

verus! {

/// Fully resolved arithmetic: what remains of a tree once every variable
/// is substituted and every name and arity is checked.  An `Operation`
/// applies an operator kind to its operands in order; a `Call` applies a
/// built-in; a `ScopedCall` applies the callable the evaluating caller
/// bound to the name.
#[derive(Debug, PartialEq)]
pub enum Computation {
    Literal(crate::ast::NumericLiteral),
    Operation(Operator, Vec<Computation>),
    Call(BuiltinFunction, Vec<Computation>),
    ScopedCall(String, Vec<Computation>),
}

/// The mathematical value of a [`Computation`].
#[verifier::ext_equal]
pub enum ComputationView {
    Literal(Seq<char>),
    Operation(Operator, Seq<ComputationView>),
    Call(BuiltinFunction, Seq<ComputationView>),
    ScopedCall(Seq<char>, Seq<ComputationView>),
}

/// The view of one computation.
pub open spec fn computation_view(c: Computation) -> ComputationView
    decreases c, 0int,
{
    match c {
        Computation::Literal(lit) => ComputationView::Literal(lit@),
        Computation::Operation(op, cs) => ComputationView::Operation(
            op,
            computation_views_from(cs, 0),
        ),
        Computation::Call(b, cs) => ComputationView::Call(b, computation_views_from(cs, 0)),
        Computation::ScopedCall(name, cs) => ComputationView::ScopedCall(
            name@,
            computation_views_from(cs, 0),
        ),
    }
}

/// The views of `cs[i..]`.
pub open spec fn computation_views_from(cs: Vec<Computation>, i: int) -> Seq<ComputationView>
    decreases cs, cs@.len() - i,
{
    if i < 0 || i >= cs@.len() {
        Seq::empty()
    } else {
        seq![computation_view(cs@[i])] + computation_views_from(cs, i + 1)
    }
}

/// The views of a whole operand list.
pub open spec fn computation_views(cs: Vec<Computation>) -> Seq<ComputationView> {
    computation_views_from(cs, 0)
}

impl View for Computation {
    type V = ComputationView;

    open spec fn view(&self) -> ComputationView {
        computation_view(*self)
    }
}

/// `computation_views` is the element-wise view map.
pub proof fn lemma_computation_views(cs: Vec<Computation>)
    ensures
        computation_views(cs).len() == cs@.len(),
        forall|k: int|
            0 <= k < cs@.len() ==> computation_views(cs)[k] == computation_view(cs@[k]),
{
    lemma_computation_views_from(cs, 0);
}

proof fn lemma_computation_views_from(cs: Vec<Computation>, start: int)
    requires
        0 <= start <= cs@.len(),
    ensures
        computation_views_from(cs, start).len() == cs@.len() - start,
        forall|k: int|
            start <= k < cs@.len() ==> computation_views_from(cs, start)[k - start]
                == computation_view(cs@[k]),
    decreases cs@.len() - start,
{
    if start < cs@.len() {
        lemma_computation_views_from(cs, start + 1);
        assert forall|k: int| start <= k < cs@.len() implies computation_views_from(
            cs,
            start,
        )[k - start] == computation_view(cs@[k]) by {
            if k > start {
                assert(computation_views_from(cs, start + 1)[k - (start + 1)]
                    == computation_view(cs@[k]));
            }
        }
    }
}

/// How a function name resolves: to a built-in, or to a callable the
/// scope marks under that name.
#[derive(Clone, Copy, Debug, PartialEq, Eq, Structural)]
pub enum ResolvedFunction {
    Builtin(BuiltinFunction),
    Scoped,
}

/// Resolution of a function name: the built-in table first, then the
/// scope's callable mark; a numeric binding does not answer for a
/// function.
pub open spec fn spec_resolve_fn(name: Seq<char>, scope: Map<Seq<char>, VariableView>) -> Result<
    ResolvedFunction,
    ErrorView,
> {
    match spec_builtin(name) {
        Option::Some(b) => Result::Ok(ResolvedFunction::Builtin(b)),
        Option::None => if scope.contains_key(name) && scope[name] is Function {
            Result::Ok(ResolvedFunction::Scoped)
        } else {
            Result::Err(ErrorView::UnknownFunction(name))
        },
    }
}

/// What evaluating one tree node against a scope yields.
pub open spec fn spec_eval_node(n: NodeView, scope: Map<Seq<char>, VariableView>) -> Result<
    ComputationView,
    ErrorView,
>
    decreases n, 0int, 0int,
{
    match n.token {
        crate::tokens::TokenView::Number(s) => Result::Ok(ComputationView::Literal(s)),
        crate::tokens::TokenView::Variable(name) => if scope.contains_key(name) {
            match scope[name] {
                VariableView::Number(s) => Result::Ok(ComputationView::Literal(s)),
                VariableView::Function => Result::Err(ErrorView::UnknownVariable(name)),
            }
        } else {
            Result::Err(ErrorView::UnknownVariable(name))
        },
        crate::tokens::TokenView::Operator(op) => spec_eval_operator(op, n.args, scope),
        crate::tokens::TokenView::Function(name) => match spec_resolve_fn(name, scope) {
            Result::Err(e) => Result::Err(e),
            Result::Ok(res) => match spec_eval_args(n.args, scope, name) {
                Result::Err(e) => Result::Err(e),
                Result::Ok(comps) => match res {
                    ResolvedFunction::Builtin(b) => if comps.len() == 0 {
                        Result::Err(ErrorView::NotEnoughFunctionParams(name))
                    } else {
                        Result::Ok(ComputationView::Call(b, comps))
                    },
                    ResolvedFunction::Scoped => Result::Ok(
                        ComputationView::ScopedCall(name, comps),
                    ),
                },
            },
        },
        crate::tokens::TokenView::LeftParenthesis => Result::Err(
            ErrorView::CannotEvaluateToken("("@),
        ),
        crate::tokens::TokenView::RightParenthesis => Result::Err(
            ErrorView::CannotEvaluateToken(")"@),
        ),
        crate::tokens::TokenView::Comma => Result::Err(ErrorView::CannotEvaluateToken(","@)),
    }
}

/// What applying an operator to its child list yields: absent children
/// are missing operands; children are evaluated left to right; only the
/// five arithmetic kinds evaluate, and subtraction, division and
/// exponentiation need a first operand.
pub open spec fn spec_eval_operator(
    op: Operator,
    args: Option<Seq<NodeView>>,
    scope: Map<Seq<char>, VariableView>,
) -> Result<ComputationView, ErrorView>
    decreases args, 1int, 0int,
{
    match args {
        Option::None => Result::Err(ErrorView::MissingOperands(op.spec_symbol())),
        Option::Some(a) => match spec_eval_list(a, scope, 0) {
            Result::Err(e) => Result::Err(e),
            Result::Ok(comps) => if !(op is Add || op is Subtract || op is Multiply || op
                is Divide || op is Exponentiate) {
                Result::Err(ErrorView::CannotEvaluateToken(op.spec_symbol()))
            } else if (op is Subtract || op is Divide || op is Exponentiate) && a.len() == 0 {
                Result::Err(ErrorView::MissingOperands(op.spec_symbol()))
            } else {
                Result::Ok(ComputationView::Operation(op, comps))
            },
        },
    }
}

/// What evaluating a function's argument list yields: an absent list is
/// `NotEnoughFunctionParams`.
pub open spec fn spec_eval_args(
    args: Option<Seq<NodeView>>,
    scope: Map<Seq<char>, VariableView>,
    name: Seq<char>,
) -> Result<Seq<ComputationView>, ErrorView>
    decreases args, 1int, 0int,
{
    match args {
        Option::None => Result::Err(ErrorView::NotEnoughFunctionParams(name)),
        Option::Some(a) => spec_eval_list(a, scope, 0),
    }
}

/// Evaluates `nodes[k..]` left to right, stopping at the first error.
pub open spec fn spec_eval_list(
    nodes: Seq<NodeView>,
    scope: Map<Seq<char>, VariableView>,
    k: int,
) -> Result<Seq<ComputationView>, ErrorView>
    decreases nodes, 2int, nodes.len() - k,
        when 0 <= k <= nodes.len()
{
    if k == nodes.len() {
        Result::Ok(Seq::empty())
    } else {
        match spec_eval_node(nodes[k], scope) {
            Result::Err(e) => Result::Err(e),
            Result::Ok(c) => match spec_eval_list(nodes, scope, k + 1) {
                Result::Err(e) => Result::Err(e),
                Result::Ok(rest) => Result::Ok(seq![c] + rest),
            },
        }
    }
}

/// Applies an operator node's rule to its children.
pub fn eval_operator(operator: &Operator, args: &Option<Args>, scope: &Scope) -> (r: Result<
    Computation,
    Error,
>)
    ensures
        match r {
            Ok(c) => spec_eval_operator(*operator, args_views(*args), scope@) == Result::<
                ComputationView,
                ErrorView,
            >::Ok(c@),
            Err(e) => spec_eval_operator(*operator, args_views(*args), scope@) == Result::<
                ComputationView,
                ErrorView,
            >::Err(e@),
        },
    decreases args_views(*args), 1int, 0int,
{
    let a = match args {
        Some(a) => a,
        None => {
            return Err(Error::MissingOperands(String::from_str(operator.symbol())));
        },
    };
    proof {
        lemma_node_views(*a);
    }
    let comps = match eval_node_list(a, scope, 0) {
        Err(e) => {
            return Err(e);
        },
        Ok(c) => c,
    };
    let supported = matches!(
        operator,
        Operator::Add
            | Operator::Subtract
            | Operator::Multiply
            | Operator::Divide
            | Operator::Exponentiate
    );
    if !supported {
        return Err(Error::CannotEvaluateToken(String::from_str(operator.symbol())));
    }
    let needs_first = matches!(operator, Operator::Subtract | Operator::Divide | Operator::Exponentiate);
    if needs_first && a.len() == 0 {
        return Err(Error::MissingOperands(String::from_str(operator.symbol())));
    }
    Ok(Computation::Operation(*operator, comps))
}

/// Resolves a function name, built-in table first, scope second.
pub fn resolve_fn(name: &str, scope: &Scope) -> (r: Result<ResolvedFunction, Error>)
    ensures
        match r {
            Ok(res) => spec_resolve_fn(name@, scope@) == Result::<ResolvedFunction, ErrorView>::Ok(
                res,
            ),
            Err(e) => spec_resolve_fn(name@, scope@) == Result::<ResolvedFunction, ErrorView>::Err(
                e@,
            ),
        },
{
    match builtin_function(name) {
        Some(b) => Ok(ResolvedFunction::Builtin(b)),
        None => match scope.get_var(name) {
            Some(Variable::Function) => Ok(ResolvedFunction::Scoped),
            _ => Err(Error::UnknownFunction(String::from_str(name))),
        },
    }
}

/// Evaluates a function node's argument list against the scope.
fn eval_args(args: &Option<Args>, scope: &Scope, fn_name: String) -> (r: Result<
    Vec<Computation>,
    Error,
>)
    ensures
        match r {
            Ok(v) => spec_eval_args(args_views(*args), scope@, fn_name@) == Result::<
                Seq<ComputationView>,
                ErrorView,
            >::Ok(computation_views(v)),
            Err(e) => spec_eval_args(args_views(*args), scope@, fn_name@) == Result::<
                Seq<ComputationView>,
                ErrorView,
            >::Err(e@),
        },
    decreases args_views(*args), 1int, 0int,
{
    match args {
        Some(a) => {
            proof {
                lemma_node_views(*a);
            }
            eval_node_list(a, scope, 0)
        },
        None => Err(Error::NotEnoughFunctionParams(fn_name)),
    }
}

/// Evaluates `nodes[k..]` left to right.
fn eval_node_list(nodes: &Vec<Node>, scope: &Scope, k: usize) -> (r: Result<Vec<Computation>, Error>)
    requires
        k <= nodes@.len(),
    ensures
        match r {
            Ok(v) => spec_eval_list(node_views(*nodes), scope@, k as int) == Result::<
                Seq<ComputationView>,
                ErrorView,
            >::Ok(computation_views(v)),
            Err(e) => spec_eval_list(node_views(*nodes), scope@, k as int) == Result::<
                Seq<ComputationView>,
                ErrorView,
            >::Err(e@),
        },
    decreases node_views(*nodes), 2int, nodes@.len() - k,
{
    proof {
        lemma_node_views(*nodes);
    }
    if k == nodes.len() {
        let out: Vec<Computation> = Vec::new();
        proof {
            lemma_computation_views(out);
            assert(computation_views(out) =~= Seq::<ComputationView>::empty());
        }
        return Ok(out);
    }
    let c = match eval_node(&nodes[k], scope) {
        Err(e) => {
            return Err(e);
        },
        Ok(c) => c,
    };
    let rest = match eval_node_list(nodes, scope, k + 1) {
        Err(e) => {
            return Err(e);
        },
        Ok(rest) => rest,
    };
    let ghost c_view = c@;
    let ghost rest_views = computation_views(rest);
    proof {
        lemma_computation_views(rest);
    }
    let mut out = rest;
    out.insert(0, c);
    proof {
        lemma_computation_views(out);
        assert(computation_views(out) =~= seq![c_view] + rest_views);
    }
    Ok(out)
}

/// Evaluates one tree node against a scope.
fn eval_node(node: &Node, scope: &Scope) -> (r: Result<Computation, Error>)
    ensures
        match r {
            Ok(c) => spec_eval_node(node@, scope@) == Result::<ComputationView, ErrorView>::Ok(c@),
            Err(e) => spec_eval_node(node@, scope@) == Result::<ComputationView, ErrorView>::Err(
                e@,
            ),
        },
    decreases node@, 0int, 0int,
{
    proof {
        assert(node@.args == args_views(node.args));
    }
    match &node.token {
        Token::Number(num) => Ok(Computation::Literal(num.clone())),
        Token::Variable(name) => match scope.get_var(name.as_str()) {
            Some(Variable::Number(value)) => Ok(Computation::Literal(value.clone())),
            _ => Err(Error::UnknownVariable(name.clone())),
        },
        Token::Operator(op) => eval_operator(op, &node.args, scope),
        Token::Function(name) => {
            let resolved = match resolve_fn(name.as_str(), scope) {
                Err(e) => {
                    return Err(e);
                },
                Ok(res) => res,
            };
            let comps = match eval_args(&node.args, scope, name.clone()) {
                Err(e) => {
                    return Err(e);
                },
                Ok(c) => c,
            };
            proof {
                lemma_computation_views(comps);
            }
            match resolved {
                ResolvedFunction::Builtin(b) => {
                    if comps.len() == 0 {
                        Err(Error::NotEnoughFunctionParams(name.clone()))
                    } else {
                        Ok(Computation::Call(b, comps))
                    }
                },
                ResolvedFunction::Scoped => Ok(Computation::ScopedCall(name.clone(), comps)),
            }
        },
        Token::LeftParenthesis => Err(Error::CannotEvaluateToken(node.token.text())),
        Token::RightParenthesis => Err(Error::CannotEvaluateToken(node.token.text())),
        Token::Comma => Err(Error::CannotEvaluateToken(node.token.text())),
    }
}

/// Evaluation of an expression tree against a scope, shared by a node
/// and by the root that owns one.
pub trait Evaluate {
    /// The tree this value stands for.
    spec fn tree(&self) -> NodeView;

    /// Evaluates the tree with a given variable scope.
    fn eval_with(&self, scope: &Scope) -> (r: Result<Computation, Error>)
        ensures
            match r {
                Ok(c) => spec_eval_node(self.tree(), scope@) == Result::<
                    ComputationView,
                    ErrorView,
                >::Ok(c@),
                Err(e) => spec_eval_node(self.tree(), scope@) == Result::<
                    ComputationView,
                    ErrorView,
                >::Err(e@),
            },
    ;

    /// Evaluates the tree without any variables.
    fn eval(&self) -> (r: Result<Computation, Error>)
        ensures
            match r {
                Ok(c) => spec_eval_node(self.tree(), Map::empty()) == Result::<
                    ComputationView,
                    ErrorView,
                >::Ok(c@),
                Err(e) => spec_eval_node(self.tree(), Map::empty()) == Result::<
                    ComputationView,
                    ErrorView,
                >::Err(e@),
            },
    ;
}

impl Evaluate for Node {
    open spec fn tree(&self) -> NodeView {
        self@
    }

    fn eval_with(&self, scope: &Scope) -> (r: Result<Computation, Error>) {
        eval_node(self, scope)
    }

    fn eval(&self) -> (r: Result<Computation, Error>) {
        let empty_scope = Scope::new();
        eval_node(self, &empty_scope)
    }
}

impl Evaluate for Root {
    open spec fn tree(&self) -> NodeView {
        self@
    }

    fn eval_with(&self, scope: &Scope) -> (r: Result<Computation, Error>) {
        eval_node(&self.node, scope)
    }

    fn eval(&self) -> (r: Result<Computation, Error>) {
        let empty_scope = Scope::new();
        eval_node(&self.node, &empty_scope)
    }
}

} // verus!
