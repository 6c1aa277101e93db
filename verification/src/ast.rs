//! The message syntax tree. `AstNode` is the executable tree; `Ast` is its
//! mathematical model over character sequences, reached through the view.
//! Plural and select options are kept as an association list in first-seen
//! key order, so the tree is fully deterministic.
use vstd::prelude::*;

verus! {

broadcast use vstd::seq::axiom_seq_index_decreases;

#[derive(Debug, PartialEq)]
pub enum AstNode {
    Root(Vec<AstNode>),
    Text(String),
    Variable(String),
    Plural { variable: String, options: Vec<(String, Vec<AstNode>)> },
    Select { variable: String, options: Vec<(String, Vec<AstNode>)> },
    HtmlTag { name: String, children: Vec<AstNode> },
}

/// Mathematical model of a message tree.
pub enum Ast {
    Root(Seq<Ast>),
    Text(Seq<char>),
    Variable(Seq<char>),
    Plural { variable: Seq<char>, options: Seq<(Seq<char>, Seq<Ast>)> },
    Select { variable: Seq<char>, options: Seq<(Seq<char>, Seq<Ast>)> },
    HtmlTag { name: Seq<char>, children: Seq<Ast> },
}

/// Model of one node.
pub open spec fn ast_of(n: AstNode) -> Ast
    decreases n,
{
    match n {
        AstNode::Root(children) => Ast::Root(view_nodes(children@)),
        AstNode::Text(t) => Ast::Text(t@),
        AstNode::Variable(v) => Ast::Variable(v@),
        AstNode::Plural { variable, options } => Ast::Plural {
            variable: variable@,
            options: view_opts(options@),
        },
        AstNode::Select { variable, options } => Ast::Select {
            variable: variable@,
            options: view_opts(options@),
        },
        AstNode::HtmlTag { name, children } => Ast::HtmlTag {
            name: name@,
            children: view_nodes(children@),
        },
    }
}

/// Views of a list of nodes.
pub open spec fn view_nodes(v: Seq<AstNode>) -> Seq<Ast>
    decreases v,
{
    if v.len() == 0 {
        Seq::empty()
    } else {
        seq![ast_of(v[0])] + view_nodes(v.drop_first())
    }
}

/// Views of an option list.
pub open spec fn view_opts(v: Seq<(String, Vec<AstNode>)>) -> Seq<(Seq<char>, Seq<Ast>)>
    decreases v,
{
    if v.len() == 0 {
        Seq::empty()
    } else {
        seq![(v[0].0@, view_nodes(v[0].1@))] + view_opts(v.drop_first())
    }
}

impl View for AstNode {
    type V = Ast;

    open spec fn view(&self) -> Ast {
        ast_of(*self)
    }
}

pub proof fn lemma_view_nodes_index(v: Seq<AstNode>, i: int)
    requires
        0 <= i < v.len(),
    ensures
        view_nodes(v).len() == v.len(),
        view_nodes(v)[i] == ast_of(v[i]),
    decreases v.len(),
{
    if i > 0 {
        lemma_view_nodes_index(v.drop_first(), i - 1);
    } else {
        lemma_view_nodes_len(v.drop_first());
    }
}

pub proof fn lemma_view_nodes_len(v: Seq<AstNode>)
    ensures
        view_nodes(v).len() == v.len(),
    decreases v.len(),
{
    if v.len() > 0 {
        lemma_view_nodes_len(v.drop_first());
    }
}

pub proof fn lemma_view_opts_index(v: Seq<(String, Vec<AstNode>)>, i: int)
    requires
        0 <= i < v.len(),
    ensures
        view_opts(v).len() == v.len(),
        view_opts(v)[i] == (v[i].0@, view_nodes(v[i].1@)),
    decreases v.len(),
{
    if i > 0 {
        lemma_view_opts_index(v.drop_first(), i - 1);
    } else {
        lemma_view_opts_len(v.drop_first());
    }
}

pub proof fn lemma_view_opts_len(v: Seq<(String, Vec<AstNode>)>)
    ensures
        view_opts(v).len() == v.len(),
    decreases v.len(),
{
    if v.len() > 0 {
        lemma_view_opts_len(v.drop_first());
    }
}

/// A root is flattened into its children; any other node stands alone.
pub open spec fn sp_into_vec(a: Ast) -> Seq<Ast> {
    match a {
        Ast::Root(nodes) => nodes,
        _ => seq![a],
    }
}

impl AstNode {
    /// Flatten a parsed fragment into a list of nodes.
    pub fn into_vec(self) -> (r: Vec<AstNode>)
        ensures
            view_nodes(r@) == sp_into_vec(self@),
    {
        match self {
            AstNode::Root(nodes) => nodes,
            other => {
                let ghost o = other;
                let mut r: Vec<AstNode> = Vec::new();
                r.push(other);
                proof {
                    assert(r@ =~= seq![o]);
                    assert(r@.drop_first() =~= Seq::<AstNode>::empty());
                    assert(view_nodes(Seq::<AstNode>::empty()) =~= Seq::<Ast>::empty());
                    assert(r@[0] == o);
                    assert(view_nodes(r@) == seq![ast_of(o)] + view_nodes(r@.drop_first()));
                    assert(view_nodes(r@) =~= seq![ast_of(o)]);
                    assert(!(o@ is Root));
                }
                r
            },
        }
    }
}

} // verus!
