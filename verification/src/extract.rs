//! Variable and option extraction: tree walks over a parsed message that
//! gather the referenced variable names (first-seen order, de-duplicated)
//! and the option labels of plural and select placeholders.
use crate::ast::{ast_of, lemma_view_nodes_index, lemma_view_opts_index, view_nodes, view_opts,
    Ast, AstNode};
use crate::text::{contains_string, str_eq, strs};
use vstd::prelude::*;

verus! {

broadcast use vstd::seq::axiom_seq_index_decreases;

/// Append a name unless it is already present.
pub open spec fn add_var(acc: Seq<Seq<char>>, v: Seq<char>) -> Seq<Seq<char>> {
    if acc.contains(v) {
        acc
    } else {
        acc.push(v)
    }
}

/// The variable names referenced by a node, appended to `acc` in
/// first-seen order without duplicates.
pub open spec fn sp_collect_vars(n: Ast, acc: Seq<Seq<char>>) -> Seq<Seq<char>>
    decreases n,
{
    match n {
        Ast::Root(children) => sp_collect_vars_list(children, acc),
        Ast::Text(_) => acc,
        Ast::Variable(v) => add_var(acc, v),
        Ast::Plural { variable, options } => sp_collect_vars_opts(options, add_var(acc, variable)),
        Ast::Select { variable, options } => sp_collect_vars_opts(options, add_var(acc, variable)),
        Ast::HtmlTag { name: _, children } => sp_collect_vars_list(children, acc),
    }
}

pub open spec fn sp_collect_vars_list(l: Seq<Ast>, acc: Seq<Seq<char>>) -> Seq<Seq<char>>
    decreases l,
{
    if l.len() == 0 {
        acc
    } else {
        sp_collect_vars_list(l.drop_first(), sp_collect_vars(l[0], acc))
    }
}

pub open spec fn sp_collect_vars_opts(
    opts: Seq<(Seq<char>, Seq<Ast>)>,
    acc: Seq<Seq<char>>,
) -> Seq<Seq<char>>
    decreases opts,
{
    if opts.len() == 0 {
        acc
    } else {
        sp_collect_vars_opts(opts.drop_first(), sp_collect_vars_list(opts[0].1, acc))
    }
}

/// The ordered variable list of a message tree.
pub open spec fn sp_vars(a: Ast) -> Seq<Seq<char>> {
    sp_collect_vars(a, Seq::empty())
}

/// Walk a tree appending every referenced variable name to `variables`,
/// keeping first-seen order and skipping names already present.
pub fn traverse_ast_for_variables(node: &AstNode, variables: &mut Vec<String>)
    ensures
        strs(final(variables)@) == sp_collect_vars(node@, strs(old(variables)@)),
    decreases *node, 0int,
{
    match node {
        AstNode::Root(children) => {
            traverse_nodes_for_variables(children, 0, variables);
            proof {
                assert(view_nodes(children@).skip(0) =~= view_nodes(children@));
            }
        },
        AstNode::Text(_) => {
        },
        AstNode::Variable(var) => {
            push_var(variables, var);
        },
        AstNode::Plural { variable, options } => {
            push_var(variables, variable);
            traverse_opts_for_variables(options, 0, variables);
            proof {
                assert(view_opts(options@).skip(0) =~= view_opts(options@));
            }
        },
        AstNode::Select { variable, options } => {
            push_var(variables, variable);
            traverse_opts_for_variables(options, 0, variables);
            proof {
                assert(view_opts(options@).skip(0) =~= view_opts(options@));
            }
        },
        AstNode::HtmlTag { name: _, children } => {
            traverse_nodes_for_variables(children, 0, variables);
            proof {
                assert(view_nodes(children@).skip(0) =~= view_nodes(children@));
            }
        },
    }
}

/// Append one name unless present.
fn push_var(variables: &mut Vec<String>, var: &String)
    ensures
        strs(final(variables)@) == add_var(strs(old(variables)@), var@),
{
    if !contains_string(variables, var) {
        let ghost v0 = variables@;
        variables.push(var.clone());
        proof {
            assert(strs(variables@) =~= strs(v0).push(var@));
        }
    }
}

fn traverse_nodes_for_variables(children: &Vec<AstNode>, i: usize, variables: &mut Vec<String>)
    requires
        i <= children@.len(),
    ensures
        strs(final(variables)@) == sp_collect_vars_list(
            view_nodes(children@).skip(i as int),
            strs(old(variables)@),
        ),
    decreases children@, children@.len() - i,
{
    proof {
        lemma_view_nodes_index_any(children@);
    }
    if i >= children.len() {
        proof {
            assert(view_nodes(children@).skip(i as int) =~= Seq::<Ast>::empty());
        }
    } else {
        let ghost tail = view_nodes(children@).skip(i as int);
        proof {
            lemma_view_nodes_index(children@, i as int);
            assert(tail[0] == ast_of(children@[i as int]));
            assert(tail.drop_first() =~= view_nodes(children@).skip(i + 1));
        }
        traverse_ast_for_variables(&children[i], variables);
        traverse_nodes_for_variables(children, i + 1, variables);
    }
}

fn traverse_opts_for_variables(
    options: &Vec<(String, Vec<AstNode>)>,
    j: usize,
    variables: &mut Vec<String>,
)
    requires
        j <= options@.len(),
    ensures
        strs(final(variables)@) == sp_collect_vars_opts(
            view_opts(options@).skip(j as int),
            strs(old(variables)@),
        ),
    decreases options@, options@.len() - j,
{
    proof {
        lemma_view_opts_index_any(options@);
    }
    if j >= options.len() {
        proof {
            assert(view_opts(options@).skip(j as int) =~= Seq::<(Seq<char>, Seq<Ast>)>::empty());
        }
    } else {
        let ghost tail = view_opts(options@).skip(j as int);
        proof {
            lemma_view_opts_index(options@, j as int);
            assert(tail[0] == (options@[j as int].0@, view_nodes(options@[j as int].1@)));
            assert(tail.drop_first() =~= view_opts(options@).skip(j + 1));
        }
        traverse_nodes_for_variables(&options[j].1, 0, variables);
        proof {
            assert(view_nodes(options@[j as int].1@).skip(0) =~= view_nodes(
                options@[j as int].1@,
            ));
        }
        traverse_opts_for_variables(options, j + 1, variables);
    }
}

pub proof fn lemma_view_nodes_index_any(v: Seq<AstNode>)
    ensures
        view_nodes(v).len() == v.len(),
        forall|i: int| 0 <= i < v.len() ==> #[trigger] view_nodes(v)[i] == ast_of(v[i]),
{
    assert forall|i: int| 0 <= i < v.len() implies #[trigger] view_nodes(v)[i] == ast_of(
        v[i],
    ) by {
        lemma_view_nodes_index(v, i);
    }
    crate::ast::lemma_view_nodes_len(v);
}

pub proof fn lemma_view_opts_index_any(v: Seq<(String, Vec<AstNode>)>)
    ensures
        view_opts(v).len() == v.len(),
        forall|i: int|
            0 <= i < v.len() ==> #[trigger] view_opts(v)[i] == (v[i].0@, view_nodes(v[i].1@)),
{
    assert forall|i: int| 0 <= i < v.len() implies #[trigger] view_opts(v)[i] == (
        v[i].0@,
        view_nodes(v[i].1@),
    ) by {
        lemma_view_opts_index(v, i);
    }
    crate::ast::lemma_view_opts_len(v);
}

/// Whether a select placeholder for `name` stands at the top level of the
/// tree: either the node itself or one of a root's direct children.
pub open spec fn sp_is_select(a: Ast, name: Seq<char>) -> bool
    decreases a,
{
    match a {
        Ast::Select { variable, options: _ } => variable == name,
        Ast::Root(children) => sp_is_select_list(children, name),
        _ => false,
    }
}

pub open spec fn sp_is_select_list(l: Seq<Ast>, name: Seq<char>) -> bool
    decreases l,
{
    if l.len() == 0 {
        false
    } else {
        sp_is_select(l[0], name) || sp_is_select_list(l.drop_first(), name)
    }
}

/// Whether `var_name` is a select variable of this message.
pub fn is_select_variable(ast: &AstNode, var_name: &str) -> (r: bool)
    ensures
        r == sp_is_select(ast@, var_name@),
    decreases *ast, 0int,
{
    match ast {
        AstNode::Select { variable, options: _ } => str_eq(variable.as_str(), var_name),
        AstNode::Root(children) => {
            let r = is_select_in_list(children, 0, var_name);
            proof {
                assert(view_nodes(children@).skip(0) =~= view_nodes(children@));
            }
            r
        },
        _ => false,
    }
}

fn is_select_in_list(children: &Vec<AstNode>, i: usize, var_name: &str) -> (r: bool)
    requires
        i <= children@.len(),
    ensures
        r == sp_is_select_list(view_nodes(children@).skip(i as int), var_name@),
    decreases children@, children@.len() - i,
{
    if i >= children.len() {
        proof {
            lemma_view_nodes_index_any(children@);
            assert(view_nodes(children@).skip(i as int) =~= Seq::<Ast>::empty());
        }
        false
    } else {
        proof {
            lemma_view_nodes_index(children@, i as int);
            assert(view_nodes(children@).skip(i as int)[0] == ast_of(children@[i as int]));
            assert(view_nodes(children@).skip(i as int).drop_first() =~= view_nodes(
                children@,
            ).skip(i + 1));
            lemma_view_nodes_index_any(children@);
        }
        if is_select_variable(&children[i], var_name) {
            true
        } else {
            is_select_in_list(children, i + 1, var_name)
        }
    }
}

/// The labels of an option list.
pub open spec fn opt_keys(opts: Seq<(Seq<char>, Seq<Ast>)>) -> Seq<Seq<char>> {
    opts.map_values(|p: (Seq<char>, Seq<Ast>)| p.0)
}

/// The select options for `name`: the labels of the first top-level select
/// placeholder whose variable is `name`, if any.
pub open spec fn sp_select_options(a: Ast, name: Seq<char>) -> Option<Seq<Seq<char>>>
    decreases a,
{
    match a {
        Ast::Select { variable, options } => if variable == name {
            Some(opt_keys(options))
        } else {
            None
        },
        Ast::Root(children) => sp_select_options_list(children, name),
        _ => None,
    }
}

pub open spec fn sp_select_options_list(l: Seq<Ast>, name: Seq<char>) -> Option<Seq<Seq<char>>>
    decreases l,
{
    if l.len() == 0 {
        None
    } else {
        match sp_select_options(l[0], name) {
            Some(ks) => Some(ks),
            None => sp_select_options_list(l.drop_first(), name),
        }
    }
}

/// Copy the labels of an executable option list.
pub fn keys_of_options(options: &Vec<(String, Vec<AstNode>)>) -> (r: Vec<String>)
    ensures
        strs(r@) == opt_keys(view_opts(options@)),
{
    let mut r: Vec<String> = Vec::new();
    let mut i: usize = 0;
    proof {
        lemma_view_opts_index_any(options@);
    }
    while i < options.len()
        invariant
            i <= options@.len(),
            view_opts(options@).len() == options@.len(),
            forall|k: int|
                0 <= k < options@.len() ==> #[trigger] view_opts(options@)[k] == (
                    options@[k].0@,
                    view_nodes(options@[k].1@),
                ),
            strs(r@) == opt_keys(view_opts(options@)).take(i as int),
        decreases options@.len() - i,
    {
        let ghost r0 = r@;
        r.push(options[i].0.clone());
        proof {
            assert(view_opts(options@)[i as int].0 == options@[i as int].0@);
            assert(opt_keys(view_opts(options@))[i as int] == view_opts(options@)[i as int].0);
            assert(strs(r@) =~= strs(r0).push(options@[i as int].0@));
        }
        i = i + 1;
        proof {
            assert(strs(r@) =~= opt_keys(view_opts(options@)).take(i as int));
        }
    }
    proof {
        assert(opt_keys(view_opts(options@)).take(options@.len() as int) =~= opt_keys(
            view_opts(options@),
        ));
    }
    r
}

/// The select option labels for `var_name`, if it is a select variable.
pub fn get_select_options(ast: &AstNode, var_name: &str) -> (r: Option<Vec<String>>)
    ensures
        match r {
            Some(ks) => sp_select_options(ast@, var_name@) == Some(strs(ks@)),
            None => sp_select_options(ast@, var_name@) is None,
        },
    decreases *ast, 0int,
{
    match ast {
        AstNode::Select { variable, options } => {
            if str_eq(variable.as_str(), var_name) {
                Some(keys_of_options(options))
            } else {
                None
            }
        },
        AstNode::Root(children) => {
            let r = get_select_options_list(children, 0, var_name);
            proof {
                assert(view_nodes(children@).skip(0) =~= view_nodes(children@));
            }
            r
        },
        _ => None,
    }
}

fn get_select_options_list(children: &Vec<AstNode>, i: usize, var_name: &str) -> (r: Option<
    Vec<String>,
>)
    requires
        i <= children@.len(),
    ensures
        match r {
            Some(ks) => sp_select_options_list(view_nodes(children@).skip(i as int), var_name@)
                == Some(strs(ks@)),
            None => sp_select_options_list(view_nodes(children@).skip(i as int), var_name@)
                is None,
        },
    decreases children@, children@.len() - i,
{
    if i >= children.len() {
        proof {
            lemma_view_nodes_index_any(children@);
            assert(view_nodes(children@).skip(i as int) =~= Seq::<Ast>::empty());
        }
        None
    } else {
        proof {
            lemma_view_nodes_index(children@, i as int);
            assert(view_nodes(children@).skip(i as int)[0] == ast_of(children@[i as int]));
            assert(view_nodes(children@).skip(i as int).drop_first() =~= view_nodes(
                children@,
            ).skip(i + 1));
            lemma_view_nodes_index_any(children@);
        }
        match get_select_options(&children[i], var_name) {
            Some(ks) => Some(ks),
            None => get_select_options_list(children, i + 1, var_name),
        }
    }
}


/// View of an executable label map.
pub open spec fn opts_view(v: Seq<(String, Vec<String>)>) -> Seq<(Seq<char>, Seq<Seq<char>>)> {
    v.map_values(|p: (String, Vec<String>)| (p.0@, strs(p.1@)))
}

/// Record labels under a key: a new key is appended, an existing key has
/// the labels appended to its list.
pub open spec fn add_opts(
    acc: Seq<(Seq<char>, Seq<Seq<char>>)>,
    k: Seq<char>,
    labels: Seq<Seq<char>>,
) -> Seq<(Seq<char>, Seq<Seq<char>>)>
    decreases acc.len(),
{
    if acc.len() == 0 {
        seq![(k, labels)]
    } else if acc[0].0 == k {
        seq![(k, acc[0].1 + labels)] + acc.drop_first()
    } else {
        seq![acc[0]] + add_opts(acc.drop_first(), k, labels)
    }
}

/// The label map of a tree: each plural or select variable mapped to its
/// option labels, merged across nested placeholders.
pub open spec fn sp_collect_opts(
    n: Ast,
    acc: Seq<(Seq<char>, Seq<Seq<char>>)>,
) -> Seq<(Seq<char>, Seq<Seq<char>>)>
    decreases n,
{
    match n {
        Ast::Root(children) => sp_collect_opts_list(children, acc),
        Ast::Text(_) => acc,
        Ast::Variable(_) => acc,
        Ast::Plural { variable, options } => sp_collect_opts_opts(
            options,
            add_opts(acc, variable, opt_keys(options)),
        ),
        Ast::Select { variable, options } => sp_collect_opts_opts(
            options,
            add_opts(acc, variable, opt_keys(options)),
        ),
        Ast::HtmlTag { name: _, children } => sp_collect_opts_list(children, acc),
    }
}

pub open spec fn sp_collect_opts_list(
    l: Seq<Ast>,
    acc: Seq<(Seq<char>, Seq<Seq<char>>)>,
) -> Seq<(Seq<char>, Seq<Seq<char>>)>
    decreases l,
{
    if l.len() == 0 {
        acc
    } else {
        sp_collect_opts_list(l.drop_first(), sp_collect_opts(l[0], acc))
    }
}

pub open spec fn sp_collect_opts_opts(
    opts: Seq<(Seq<char>, Seq<Ast>)>,
    acc: Seq<(Seq<char>, Seq<Seq<char>>)>,
) -> Seq<(Seq<char>, Seq<Seq<char>>)>
    decreases opts,
{
    if opts.len() == 0 {
        acc
    } else {
        sp_collect_opts_opts(opts.drop_first(), sp_collect_opts_list(opts[0].1, acc))
    }
}

/// The label map of a whole tree.
pub open spec fn sp_opts(a: Ast) -> Seq<(Seq<char>, Seq<Seq<char>>)> {
    sp_collect_opts(a, Seq::empty())
}

/// Append the views of `b` to `a`.
fn append_strings(a: Vec<String>, b: &Vec<String>) -> (r: Vec<String>)
    ensures
        strs(r@) == strs(a@) + strs(b@),
{
    let ghost a0 = a@;
    let mut r = a;
    let mut i: usize = 0;
    while i < b.len()
        invariant
            i <= b@.len(),
            strs(r@) == strs(a0) + strs(b@).take(i as int),
        decreases b@.len() - i,
    {
        let ghost r0 = r@;
        r.push(b[i].clone());
        i = i + 1;
        proof {
            assert(strs(r@) =~= strs(r0).push(b@[i - 1]@));
            assert(strs(r@) =~= strs(a0) + strs(b@).take(i as int));
        }
    }
    proof {
        assert(strs(b@).take(b@.len() as int) =~= strs(b@));
        assert(strs(a0).add(strs(b@)) == strs(a0) + strs(b@));
    }
    r
}

/// Record labels under a key, mirroring [`add_opts`].
fn add_opts_entry(acc: Vec<(String, Vec<String>)>, k: String, labels: Vec<String>) -> (r: Vec<
    (String, Vec<String>),
>)
    ensures
        opts_view(r@) == add_opts(opts_view(acc@), k@, strs(labels@)),
    decreases acc@.len(),
{
    let ghost acc0 = acc@;
    let mut acc = acc;
    if acc.len() == 0 {
        let ghost kv = k@;
        let ghost lv = strs(labels@);
        let mut r: Vec<(String, Vec<String>)> = Vec::new();
        r.push((k, labels));
        proof {
            assert(opts_view(r@) =~= seq![(kv, lv)]);
            assert(opts_view(acc0) =~= Seq::<(Seq<char>, Seq<Seq<char>>)>::empty());
            assert(add_opts(opts_view(acc0), kv, lv) == seq![(kv, lv)]);
        }
        r
    } else {
        let first = acc.remove(0);
        proof {
            assert(acc@ =~= acc0.drop_first());
            assert(acc0[0] == first);
            assert(opts_view(acc0)[0] == (acc0[0].0@, strs(acc0[0].1@)));
            assert(opts_view(acc0).drop_first() =~= opts_view(acc0.drop_first()));
            assert(opts_view(acc0).len() == acc0.len());
        }
        if first.0 == k {
            let ghost kv = k@;
            let ghost fl = strs(first.1@);
            let ghost lv = strs(labels@);
            let merged = append_strings(first.1, &labels);
            let mut r = acc;
            let ghost r0 = r@;
            r.insert(0, (k, merged));
            proof {
                assert(r@[0].0@ == kv && strs(r@[0].1@) == fl + lv);
                assert(r@.drop_first() =~= r0);
                assert(opts_view(r@) =~= seq![(kv, fl + lv)] + opts_view(r0));
                assert(add_opts(opts_view(acc0), kv, lv) == seq![(kv, fl + lv)] + opts_view(
                    acc0,
                ).drop_first());
            }
            r
        } else {
            let ghost fv = (first.0@, strs(first.1@));
            let ghost kv = k@;
            let ghost lv = strs(labels@);
            let mut r = add_opts_entry(acc, k, labels);
            let ghost rv = opts_view(r@);
            let ghost r0 = r@;
            r.insert(0, first);
            proof {
                assert(r@[0] == acc0[0]);
                assert(r@.drop_first() =~= r0);
                assert(opts_view(r@) =~= seq![fv] + rv);
                assert(add_opts(opts_view(acc0), kv, lv) == seq![opts_view(acc0)[0]] + add_opts(
                    opts_view(acc0).drop_first(),
                    kv,
                    lv,
                ));
                assert(fv == opts_view(acc0)[0]);
            }
            r
        }
    }
}

/// Collect the label map of a tree, mirroring [`sp_collect_opts`].
fn collect_options(node: &AstNode, acc: Vec<(String, Vec<String>)>) -> (r: Vec<
    (String, Vec<String>),
>)
    ensures
        opts_view(r@) == sp_collect_opts(node@, opts_view(acc@)),
    decreases *node, 0int,
{
    match node {
        AstNode::Root(children) => {
            let r = collect_options_list(children, 0, acc);
            proof {
                assert(view_nodes(children@).skip(0) =~= view_nodes(children@));
            }
            r
        },
        AstNode::Text(_) => acc,
        AstNode::Variable(_) => acc,
        AstNode::Plural { variable, options } => {
            let keys = keys_of_options(options);
            let acc1 = add_opts_entry(acc, variable.clone(), keys);
            let r = collect_options_opts(options, 0, acc1);
            proof {
                assert(view_opts(options@).skip(0) =~= view_opts(options@));
            }
            r
        },
        AstNode::Select { variable, options } => {
            let keys = keys_of_options(options);
            let acc1 = add_opts_entry(acc, variable.clone(), keys);
            let r = collect_options_opts(options, 0, acc1);
            proof {
                assert(view_opts(options@).skip(0) =~= view_opts(options@));
            }
            r
        },
        AstNode::HtmlTag { name: _, children } => {
            let r = collect_options_list(children, 0, acc);
            proof {
                assert(view_nodes(children@).skip(0) =~= view_nodes(children@));
            }
            r
        },
    }
}

fn collect_options_list(children: &Vec<AstNode>, i: usize, acc: Vec<(String, Vec<String>)>) -> (r:
    Vec<(String, Vec<String>)>)
    requires
        i <= children@.len(),
    ensures
        opts_view(r@) == sp_collect_opts_list(view_nodes(children@).skip(i as int), opts_view(acc@)),
    decreases children@, children@.len() - i,
{
    proof {
        lemma_view_nodes_index_any(children@);
    }
    if i >= children.len() {
        proof {
            assert(view_nodes(children@).skip(i as int) =~= Seq::<Ast>::empty());
        }
        acc
    } else {
        let ghost tail = view_nodes(children@).skip(i as int);
        proof {
            lemma_view_nodes_index(children@, i as int);
            assert(tail[0] == ast_of(children@[i as int]));
            assert(tail.drop_first() =~= view_nodes(children@).skip(i + 1));
        }
        let acc1 = collect_options(&children[i], acc);
        collect_options_list(children, i + 1, acc1)
    }
}

fn collect_options_opts(
    options: &Vec<(String, Vec<AstNode>)>,
    j: usize,
    acc: Vec<(String, Vec<String>)>,
) -> (r: Vec<(String, Vec<String>)>)
    requires
        j <= options@.len(),
    ensures
        opts_view(r@) == sp_collect_opts_opts(view_opts(options@).skip(j as int), opts_view(acc@)),
    decreases options@, options@.len() - j,
{
    proof {
        lemma_view_opts_index_any(options@);
    }
    if j >= options.len() {
        proof {
            assert(view_opts(options@).skip(j as int) =~= Seq::<(Seq<char>, Seq<Ast>)>::empty());
        }
        acc
    } else {
        let ghost tail = view_opts(options@).skip(j as int);
        proof {
            lemma_view_opts_index(options@, j as int);
            assert(tail[0] == (options@[j as int].0@, view_nodes(options@[j as int].1@)));
            assert(tail.drop_first() =~= view_opts(options@).skip(j + 1));
        }
        let acc1 = collect_options_list(&options[j].1, 0, acc);
        proof {
            assert(view_nodes(options@[j as int].1@).skip(0) =~= view_nodes(
                options@[j as int].1@,
            ));
        }
        collect_options_opts(options, j + 1, acc1)
    }
}

/// The ordered variable list and the label map of a tree: the extraction
/// result every feature engine consumes.
pub fn collect_variables_and_options(node: &AstNode) -> (r: (Vec<String>, Vec<
    (String, Vec<String>),
>))
    ensures
        strs(r.0@) == sp_vars(node@),
        opts_view(r.1@) == sp_opts(node@),
{
    let mut variables: Vec<String> = Vec::new();
    traverse_ast_for_variables(node, &mut variables);
    let options = collect_options(node, Vec::new());
    proof {
        assert(strs(Seq::<String>::empty()) =~= Seq::<Seq<char>>::empty());
        assert(opts_view(Seq::<(String, Vec<String>)>::empty()) =~= Seq::<(
            Seq<char>,
            Seq<Seq<char>>,
        )>::empty());
    }
    (variables, options)
}

/// A variable/plural/select placeholder for `name` stands somewhere in the
/// tree, at any depth.
pub open spec fn mentions_var(a: Ast, name: Seq<char>) -> bool
    decreases a,
{
    match a {
        Ast::Root(children) => mentions_var_list(children, name),
        Ast::Text(_) => false,
        Ast::Variable(v) => v == name,
        Ast::Plural { variable, options } => variable == name || mentions_var_opts(options, name),
        Ast::Select { variable, options } => variable == name || mentions_var_opts(options, name),
        Ast::HtmlTag { name: _, children } => mentions_var_list(children, name),
    }
}

pub open spec fn mentions_var_list(l: Seq<Ast>, name: Seq<char>) -> bool
    decreases l,
{
    if l.len() == 0 {
        false
    } else {
        mentions_var(l[0], name) || mentions_var_list(l.drop_first(), name)
    }
}

pub open spec fn mentions_var_opts(opts: Seq<(Seq<char>, Seq<Ast>)>, name: Seq<char>) -> bool
    decreases opts,
{
    if opts.len() == 0 {
        false
    } else {
        mentions_var_list(opts[0].1, name) || mentions_var_opts(opts.drop_first(), name)
    }
}

proof fn lemma_add_var_contains(acc: Seq<Seq<char>>, x: Seq<char>, v: Seq<char>)
    requires
        add_var(acc, x).contains(v),
    ensures
        acc.contains(v) || v == x,
{
    if !acc.contains(v) && v != x {
        let i = choose|i: int| 0 <= i < add_var(acc, x).len() && add_var(acc, x)[i] == v;
        assert(acc.push(x)[i] == v);
        if i < acc.len() {
            assert(acc[i] == v);
        }
    }
}

proof fn lemma_collect_vars_reach(n: Ast, acc: Seq<Seq<char>>, v: Seq<char>)
    requires
        sp_collect_vars(n, acc).contains(v),
    ensures
        acc.contains(v) || mentions_var(n, v),
    decreases n,
{
    match n {
        Ast::Root(children) => {
            lemma_collect_vars_reach_list(children, acc, v);
        },
        Ast::Text(_) => {
        },
        Ast::Variable(x) => {
            lemma_add_var_contains(acc, x, v);
        },
        Ast::Plural { variable, options } => {
            lemma_collect_vars_reach_opts(options, add_var(acc, variable), v);
            if add_var(acc, variable).contains(v) {
                lemma_add_var_contains(acc, variable, v);
            }
        },
        Ast::Select { variable, options } => {
            lemma_collect_vars_reach_opts(options, add_var(acc, variable), v);
            if add_var(acc, variable).contains(v) {
                lemma_add_var_contains(acc, variable, v);
            }
        },
        Ast::HtmlTag { name: _, children } => {
            lemma_collect_vars_reach_list(children, acc, v);
        },
    }
}

proof fn lemma_collect_vars_reach_list(l: Seq<Ast>, acc: Seq<Seq<char>>, v: Seq<char>)
    requires
        sp_collect_vars_list(l, acc).contains(v),
    ensures
        acc.contains(v) || mentions_var_list(l, v),
    decreases l,
{
    if l.len() > 0 {
        lemma_collect_vars_reach_list(l.drop_first(), sp_collect_vars(l[0], acc), v);
        if sp_collect_vars(l[0], acc).contains(v) {
            lemma_collect_vars_reach(l[0], acc, v);
        }
    }
}

proof fn lemma_collect_vars_reach_opts(
    opts: Seq<(Seq<char>, Seq<Ast>)>,
    acc: Seq<Seq<char>>,
    v: Seq<char>,
)
    requires
        sp_collect_vars_opts(opts, acc).contains(v),
    ensures
        acc.contains(v) || mentions_var_opts(opts, v),
    decreases opts,
{
    if opts.len() > 0 {
        lemma_collect_vars_reach_opts(opts.drop_first(), sp_collect_vars_list(opts[0].1, acc), v);
        if sp_collect_vars_list(opts[0].1, acc).contains(v) {
            lemma_collect_vars_reach_list(opts[0].1, acc, v);
        }
    }
}

/// Every extracted variable name is reachable by a walk of the same tree:
/// the extractor omits nothing, including variables nested inside plural
/// and select option bodies.
pub proof fn lemma_vars_are_mentioned(a: Ast)
    ensures
        forall|v: Seq<char>| sp_vars(a).contains(v) ==> #[trigger] mentions_var(a, v),
{
    assert forall|v: Seq<char>| sp_vars(a).contains(v) implies #[trigger] mentions_var(a, v) by {
        lemma_collect_vars_reach(a, Seq::empty(), v);
        assert(!Seq::<Seq<char>>::empty().contains(v));
    }
}

/// The extraction result of a message: its variable list and label map,
/// absent when the message does not parse.
pub open spec fn sp_extract(m: Seq<char>) -> Option<
    (Seq<Seq<char>>, Seq<(Seq<char>, Seq<Seq<char>>)>),
> {
    match crate::parse::sp_parse_message(m) {
        Ok(a) => Some((sp_vars(a), sp_opts(a))),
        Err(_) => None,
    }
}

/// Extraction is deterministic: any two results of extracting the same
/// message, in the same or in different calls, are equal.
pub proof fn lemma_extract_deterministic(
    m: Seq<char>,
    r1: Option<(Seq<Seq<char>>, Seq<(Seq<char>, Seq<Seq<char>>)>)>,
    r2: Option<(Seq<Seq<char>>, Seq<(Seq<char>, Seq<Seq<char>>)>)>,
)
    requires
        r1 == sp_extract(m),
        r2 == sp_extract(m),
    ensures
        r1 == r2,
{
}

} // verus!
