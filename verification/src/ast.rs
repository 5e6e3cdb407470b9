//! The expression tree and the variable scope.
//!
//! A [`Node`] is one token plus an optional ordered list of children: only
//! operator and function tokens carry children, numbers and variables are
//! leaves.  A [`Root`] owns the top node of a finished parse.  A [`Scope`]
//! maps case-sensitive names to bindings that the parserless evaluator
//! consults when it substitutes variables and resolves function names.

use vstd::prelude::*;
use vstd::string::StrSliceExecFns;
use vstd::string::StringExecFns;

use crate::chars::is_digit_char;
use crate::chars::str_eq;
use crate::tokens::Token;
use crate::tokens::TokenView;

verus! {

/// A numeric literal, kept as its exact decimal text: one or more digits
/// with at most one decimal point, starting with a digit.
#[derive(Debug, PartialEq)]
pub struct NumericLiteral {
    text: String,
}

/// What a well-formed literal text looks like.
pub open spec fn wf_numeric_text(s: Seq<char>) -> bool {
    &&& s.len() > 0
    &&& is_digit_char(s[0])
    &&& forall|i: int| 0 <= i < s.len() ==> is_digit_char(#[trigger] s[i]) || s[i] == '.'
    &&& forall|i: int, j: int|
        0 <= i < s.len() && 0 <= j < s.len() && #[trigger] s[i] == '.' && #[trigger] s[j] == '.'
            ==> i == j
}

impl View for NumericLiteral {
    type V = Seq<char>;

    closed spec fn view(&self) -> Seq<char> {
        self.text@
    }
}

impl Clone for NumericLiteral {
    fn clone(&self) -> (r: Self)
        ensures
            r@ == self@,
    {
        NumericLiteral { text: self.text.clone() }
    }
}

impl NumericLiteral {
    /// Accepts exactly the well-formed decimal texts.
    pub fn new(text: String) -> (r: Option<NumericLiteral>)
        ensures
            match r {
                Some(lit) => lit@ == text@ && wf_numeric_text(text@),
                None => !wf_numeric_text(text@),
            },
    {
        let n = text.as_str().unicode_len();
        if n == 0 {
            return None;
        }
        let mut dots: usize = 0;
        let ghost mut first_dot: int = 0;
        if !crate::chars::digit_char(text.as_str().get_char(0)) {
            return None;
        }
        let mut i: usize = 0;
        while i < n
            invariant
                i <= n,
                n == text@.len(),
                dots <= 1,
                is_digit_char(text@[0]),
                forall|j: int| 0 <= j < i ==> is_digit_char(#[trigger] text@[j]) || text@[j] == '.',
                dots == 0 ==> forall|j: int| 0 <= j < i ==> text@[j] != '.',
                dots > 0 ==> 0 <= first_dot < i && text@[first_dot] == '.',
                dots == 1 ==> forall|j: int| 0 <= j < i && j != first_dot ==> text@[j] != '.',
            decreases n - i,
        {
            let c = text.as_str().get_char(i);
            if crate::chars::digit_char(c) {
            } else if c == '.' {
                if dots > 0 {
                    return None;
                }
                dots = 1;
                proof {
                    first_dot = i as int;
                }
            } else {
                return None;
            }
            i += 1;
        }
        Some(NumericLiteral { text })
    }

    /// Wraps a text the lexer has already shaped.
    pub(crate) fn from_text(text: String) -> (r: NumericLiteral)
        ensures
            r@ == text@,
    {
        NumericLiteral { text }
    }

    /// The literal's decimal text.
    pub fn as_text(&self) -> (r: &str)
        ensures
            r@ == self@,
    {
        self.text.as_str()
    }
}

/// A binding a scope can hold for a name: a number, or the mark that the
/// name is callable.  The caller who runs the finished arithmetic supplies
/// the callable itself for every name it marked.
#[derive(Debug, PartialEq)]
pub enum Variable {
    Number(NumericLiteral),
    Function,
}

/// The mathematical value of a binding.
#[verifier::ext_equal]
pub enum VariableView {
    Number(Seq<char>),
    Function,
}

impl View for Variable {
    type V = VariableView;

    open spec fn view(&self) -> VariableView {
        match self {
            Variable::Number(n) => VariableView::Number(n@),
            Variable::Function => VariableView::Function,
        }
    }
}

/// A mutable mapping from names to bindings, owned by the caller.  Later
/// bindings for a name shadow earlier ones.
#[derive(Debug)]
pub struct Scope {
    entries: Vec<(String, Variable)>,
}

/// The map a list of bindings denotes: each entry inserted in order, so
/// the last binding of a name wins.
pub closed spec fn scope_map(entries: Seq<(String, Variable)>) -> Map<Seq<char>, VariableView>
    decreases entries.len(),
{
    if entries.len() == 0 {
        Map::empty()
    } else {
        scope_map(entries.drop_last()).insert(entries.last().0@, entries.last().1@)
    }
}

impl View for Scope {
    type V = Map<Seq<char>, VariableView>;

    closed spec fn view(&self) -> Map<Seq<char>, VariableView> {
        scope_map(self.entries@)
    }
}

proof fn lemma_scope_map_unmatched_suffix(
    entries: Seq<(String, Variable)>,
    i: int,
    key: Seq<char>,
)
    requires
        0 <= i <= entries.len(),
        forall|j: int| i <= j < entries.len() ==> (#[trigger] entries[j]).0@ != key,
    ensures
        scope_map(entries).contains_key(key) == scope_map(entries.take(i)).contains_key(key),
        scope_map(entries).contains_key(key) ==> scope_map(entries)[key] == scope_map(
            entries.take(i),
        )[key],
    decreases entries.len() - i,
{
    if i == entries.len() {
        assert(entries.take(i) =~= entries);
    } else {
        let shorter = entries.drop_last();
        assert(entries.last().0@ != key);
        lemma_scope_map_unmatched_suffix(shorter, i, key);
        assert(shorter.take(i) =~= entries.take(i));
    }
}

impl Scope {
    /// A scope with no bindings.
    pub fn new() -> (r: Scope)
        ensures
            r@ == Map::<Seq<char>, VariableView>::empty(),
    {
        Scope { entries: Vec::new() }
    }

    /// Binds `name` to `value`, shadowing any earlier binding of the name.
    pub fn set_var(&mut self, name: &str, value: Variable)
        ensures
            final(self)@ == old(self)@.insert(name@, value@),
    {
        let owned = String::from_str(name);
        self.entries.push((owned, value));
        proof {
            assert(self.entries@.drop_last() =~= old(self).entries@);
        }
    }

    /// Looks a name up; the most recent binding answers.
    pub fn get_var(&self, name: &str) -> (r: Option<&Variable>)
        ensures
            match r {
                Some(v) => self@.contains_key(name@) && v@ == self@[name@],
                None => !self@.contains_key(name@),
            },
    {
        let n = self.entries.len();
        let mut i: usize = n;
        while i > 0
            invariant
                i <= n,
                n == self.entries@.len(),
                forall|j: int| i <= j < n ==> (#[trigger] self.entries@[j]).0@ != name@,
            decreases i,
        {
            i -= 1;
            let entry = &self.entries[i];
            if str_eq(entry.0.as_str(), name) {
                proof {
                    lemma_scope_map_unmatched_suffix(self.entries@, i + 1, name@);
                    let prefix = self.entries@.take(i + 1);
                    assert(prefix.last() == self.entries@[i as int]);
                    assert(prefix.drop_last() =~= self.entries@.take(i as int));
                }
                return Some(&self.entries[i].1);
            }
        }
        proof {
            lemma_scope_map_unmatched_suffix(self.entries@, 0, name@);
            assert(self.entries@.take(0) =~= Seq::<(String, Variable)>::empty());
        }
        None
    }
}

/// The children of an internal node, in left-to-right textual order.
pub type Args = Vec<Node>;

/// One node of the expression tree.
#[derive(Debug, PartialEq)]
pub struct Node {
    pub token: Token,
    pub args: Option<Args>,
}

/// The mathematical value of a tree: the token views with the children as
/// a sequence.
#[verifier::ext_equal]
pub struct NodeView {
    pub token: TokenView,
    pub args: Option<Seq<NodeView>>,
}

/// The view of one node.
pub open spec fn node_view(n: Node) -> NodeView
    decreases n, 0int,
{
    NodeView {
        token: n.token@,
        args: match n.args {
            Option::None => Option::None,
            Option::Some(children) => Option::Some(node_views_from(children, 0)),
        },
    }
}

/// The views of `children[i..]`.
pub open spec fn node_views_from(children: Vec<Node>, i: int) -> Seq<NodeView>
    decreases children, children@.len() - i,
{
    if i < 0 || i >= children@.len() {
        Seq::empty()
    } else {
        seq![node_view(children@[i])] + node_views_from(children, i + 1)
    }
}

/// The views of a whole child list.
pub open spec fn node_views(children: Vec<Node>) -> Seq<NodeView> {
    node_views_from(children, 0)
}

/// The views of an optional child list.
pub open spec fn args_views(args: Option<Vec<Node>>) -> Option<Seq<NodeView>> {
    match args {
        Option::None => Option::None,
        Option::Some(children) => Option::Some(node_views(children)),
    }
}

impl View for Node {
    type V = NodeView;

    open spec fn view(&self) -> NodeView {
        node_view(*self)
    }
}

/// `node_views` is the element-wise view map.
pub proof fn lemma_node_views(children: Vec<Node>)
    ensures
        node_views(children).len() == children@.len(),
        forall|k: int|
            0 <= k < children@.len() ==> node_views(children)[k] == node_view(children@[k]),
{
    lemma_node_views_from(children, 0);
}

proof fn lemma_node_views_from(children: Vec<Node>, start: int)
    requires
        0 <= start <= children@.len(),
    ensures
        node_views_from(children, start).len() == children@.len() - start,
        forall|k: int|
            start <= k < children@.len() ==> node_views_from(children, start)[k - start]
                == node_view(children@[k]),
    decreases children@.len() - start,
{
    if start < children@.len() {
        lemma_node_views_from(children, start + 1);
        assert forall|k: int| start <= k < children@.len() implies node_views_from(
            children,
            start,
        )[k - start] == node_view(children@[k]) by {
            if k > start {
                assert(node_views_from(children, start + 1)[k - (start + 1)] == node_view(
                    children@[k],
                ));
            }
        }
    }
}

/// The finished result of a parse: the top of the expression tree.
#[derive(Debug, PartialEq)]
pub struct Root {
    pub node: Node,
}

impl View for Root {
    type V = NodeView;

    open spec fn view(&self) -> NodeView {
        self.node@
    }
}

/// The shape every parsed tree has: numbers and variables are leaves,
/// operator and function nodes carry a child list (each child of the same
/// shape), and the structural tokens never appear in a tree at all.
pub open spec fn wf_tree(n: NodeView) -> bool
    decreases n, 0int,
{
    match n.token {
        TokenView::Number(_) => n.args is None,
        TokenView::Variable(_) => n.args is None,
        TokenView::Operator(_) => n.args is Some && wf_children_from(n.args->0, 0),
        TokenView::Function(_) => n.args is Some && wf_children_from(n.args->0, 0),
        _ => false,
    }
}

/// Every node of `cs[k..]` is a well-shaped tree.
pub open spec fn wf_children_from(cs: Seq<NodeView>, k: int) -> bool
    decreases cs, cs.len() - k,
        when 0 <= k <= cs.len()
{
    k == cs.len() || (wf_tree(cs[k]) && wf_children_from(cs, k + 1))
}

/// `wf_children_from` is the pointwise statement over the suffix.
pub proof fn lemma_wf_children_iff(cs: Seq<NodeView>, k: int)
    requires
        0 <= k <= cs.len(),
    ensures
        wf_children_from(cs, k) <==> (forall|j: int| k <= j < cs.len() ==> wf_tree(#[trigger] cs[j])),
    decreases cs.len() - k,
{
    if k < cs.len() {
        lemma_wf_children_iff(cs, k + 1);
    }
}

} // verus!
