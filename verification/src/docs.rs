//! Hover and completion documentation. Renders one Markdown block per
//! translation key: a synthesized call signature with a type per variable
//! (number for plural, a literal union for select, string-or-number
//! otherwise), the raw message, a parameter list, and an example call.
//! [`sp_format_documentation`] states the rendered text exactly.
use crate::ast::{ast_of, lemma_view_nodes_index, view_nodes, Ast, AstNode};
use crate::extract::{lemma_view_nodes_index_any};
use crate::parse::{sp_parse_message, Parser};
use crate::registry::{TranslationValue, TvModel};
use crate::text::{contains_string, join, join_strings, strs};
use vstd::prelude::*;

verus! {

broadcast use vstd::seq::axiom_seq_index_decreases;

/// The classification of the variables of a message against a variable
/// list: plural variables, select variables, simple variables. Only the
/// top level and html children are searched, not option bodies.
pub open spec fn sp_categorize(
    n: Ast,
    vars: Seq<Seq<char>>,
    p: Seq<Seq<char>>,
    s: Seq<Seq<char>>,
    si: Seq<Seq<char>>,
) -> (Seq<Seq<char>>, Seq<Seq<char>>, Seq<Seq<char>>)
    decreases n,
{
    match n {
        Ast::Root(children) => sp_categorize_list(children, vars, p, s, si),
        Ast::Text(_) => (p, s, si),
        Ast::Variable(v) => if vars.contains(v) && !si.contains(v) && !p.contains(v)
            && !s.contains(v) {
            (p, s, si.push(v))
        } else {
            (p, s, si)
        },
        Ast::Plural { variable, options: _ } => if vars.contains(variable) && !p.contains(
            variable,
        ) {
            (p.push(variable), s, si)
        } else {
            (p, s, si)
        },
        Ast::Select { variable, options: _ } => if vars.contains(variable) && !s.contains(
            variable,
        ) {
            (p, s.push(variable), si)
        } else {
            (p, s, si)
        },
        Ast::HtmlTag { name: _, children } => sp_categorize_list(children, vars, p, s, si),
    }
}

pub open spec fn sp_categorize_list(
    l: Seq<Ast>,
    vars: Seq<Seq<char>>,
    p: Seq<Seq<char>>,
    s: Seq<Seq<char>>,
    si: Seq<Seq<char>>,
) -> (Seq<Seq<char>>, Seq<Seq<char>>, Seq<Seq<char>>)
    decreases l,
{
    if l.len() == 0 {
        (p, s, si)
    } else {
        let t = sp_categorize(l[0], vars, p, s, si);
        sp_categorize_list(l.drop_first(), vars, t.0, t.1, t.2)
    }
}

/// Any listed variable not yet categorized is taken as simple.
pub open spec fn sp_fill_simple(
    vars: Seq<Seq<char>>,
    p: Seq<Seq<char>>,
    s: Seq<Seq<char>>,
    si: Seq<Seq<char>>,
) -> Seq<Seq<char>>
    decreases vars.len(),
{
    if vars.len() == 0 {
        si
    } else {
        let si1 = if !p.contains(vars[0]) && !s.contains(vars[0]) && !si.contains(vars[0]) {
            si.push(vars[0])
        } else {
            si
        };
        sp_fill_simple(vars.drop_first(), p, s, si1)
    }
}

/// The classification of a registry value against a variable list.
pub open spec fn sp_categorize_value(value: TvModel, vars: Seq<Seq<char>>) -> (
    Seq<Seq<char>>,
    Seq<Seq<char>>,
    Seq<Seq<char>>,
)
{
    let base = match value {
        TvModel::Message(m) => match sp_parse_message(m) {
            Ok(a) => sp_categorize(a, vars, Seq::empty(), Seq::empty(), Seq::empty()),
            Err(_) => (Seq::empty(), Seq::empty(), Seq::empty()),
        },
        TvModel::Inert => (Seq::empty(), Seq::empty(), Seq::empty()),
    };
    (base.0, base.1, sp_fill_simple(vars, base.0, base.1, base.2))
}

/// The raw message text of a registry value; empty for an inert value.
pub open spec fn raw_of(value: TvModel) -> Seq<char> {
    match value {
        TvModel::Message(m) => m,
        TvModel::Inert => Seq::empty(),
    }
}

pub open spec fn plural_line(v: Seq<char>) -> Seq<char> {
    "\n  "@ + v + ": number;"@
}

pub open spec fn sp_plural_lines(p: Seq<Seq<char>>) -> Seq<char>
    decreases p.len(),
{
    if p.len() == 0 {
        Seq::empty()
    } else {
        plural_line(p[0]) + sp_plural_lines(p.drop_first())
    }
}

pub open spec fn select_line(v: Seq<char>, opts: Seq<Seq<char>>) -> Seq<char> {
    "\n  "@ + v + ": '"@ + join(opts, " | "@) + "';"@
}

pub open spec fn sp_select_lines(s: Seq<Seq<char>>, opts: Seq<Seq<char>>) -> Seq<char>
    decreases s.len(),
{
    if s.len() == 0 {
        Seq::empty()
    } else {
        select_line(s[0], opts) + sp_select_lines(s.drop_first(), opts)
    }
}

pub open spec fn simple_line(v: Seq<char>) -> Seq<char> {
    "\n  "@ + v + ": string | number;"@
}

pub open spec fn sp_simple_lines(si: Seq<Seq<char>>) -> Seq<char>
    decreases si.len(),
{
    if si.len() == 0 {
        Seq::empty()
    } else {
        simple_line(si[0]) + sp_simple_lines(si.drop_first())
    }
}

pub open spec fn param_line(
    v: Seq<char>,
    p: Seq<Seq<char>>,
    s: Seq<Seq<char>>,
    opts: Seq<Seq<char>>,
) -> Seq<char> {
    "- `"@ + v + "`: "@ + (if p.contains(v) {
        "Number for plural form.\n"@
    } else if s.contains(v) {
        "One of: "@ + join(opts, ", "@) + ".\n"@
    } else {
        "Value to interpolate.\n"@
    })
}

pub open spec fn sp_param_lines(
    vars: Seq<Seq<char>>,
    p: Seq<Seq<char>>,
    s: Seq<Seq<char>>,
    opts: Seq<Seq<char>>,
) -> Seq<char>
    decreases vars.len(),
{
    if vars.len() == 0 {
        Seq::empty()
    } else {
        param_line(vars[0], p, s, opts) + sp_param_lines(vars.drop_first(), p, s, opts)
    }
}

/// The example argument for one variable: `1` for plural, the first option
/// label for select, `'value'` otherwise.
pub open spec fn arg_text(
    v: Seq<char>,
    p: Seq<Seq<char>>,
    s: Seq<Seq<char>>,
    opts: Seq<Seq<char>>,
) -> Seq<char> {
    if p.contains(v) {
        v + ": 1"@
    } else if s.contains(v) {
        v + ": '"@ + (if opts.len() > 0 {
            opts[0]
        } else {
            Seq::empty()
        }) + "'"@
    } else {
        v + ": 'value'"@
    }
}

pub open spec fn sp_args_tail(
    vars: Seq<Seq<char>>,
    p: Seq<Seq<char>>,
    s: Seq<Seq<char>>,
    opts: Seq<Seq<char>>,
) -> Seq<char>
    decreases vars.len(),
{
    if vars.len() == 0 {
        Seq::empty()
    } else {
        ", "@ + arg_text(vars[0], p, s, opts) + sp_args_tail(vars.drop_first(), p, s, opts)
    }
}

pub open spec fn sp_args(
    vars: Seq<Seq<char>>,
    p: Seq<Seq<char>>,
    s: Seq<Seq<char>>,
    opts: Seq<Seq<char>>,
) -> Seq<char> {
    if vars.len() == 0 {
        Seq::empty()
    } else {
        arg_text(vars[0], p, s, opts) + sp_args_tail(vars.drop_first(), p, s, opts)
    }
}

/// The rendered Markdown documentation of one key.
pub open spec fn sp_format_documentation(
    key: Seq<char>,
    value: TvModel,
    vars: Seq<Seq<char>>,
    opts: Seq<Seq<char>>,
) -> Seq<char> {
    let cat = sp_categorize_value(value, vars);
    let p = cat.0;
    let s = cat.1;
    let si = cat.2;
    "```typescript\nt(key: '"@ + key + "', params?: {"@ + sp_plural_lines(p) + sp_select_lines(
        s,
        opts,
    ) + sp_simple_lines(si) + "\n}): string\n```\n\n"@ + "**Translation:**\n```i18n\n"@ + raw_of(
        value,
    ) + "\n```\n\n"@ + (if vars.len() == 0 {
        Seq::<char>::empty()
    } else {
        "**Parameters:**\n"@ + sp_param_lines(vars, p, s, opts) + "\n"@
    }) + "**Example:**\n```typescript\n"@ + (if vars.len() == 0 {
        "t('"@ + key + "');\n"@
    } else {
        "t('"@ + key + "', { "@ + sp_args(vars, p, s, opts) + " });\n"@
    }) + "```\n"@
}

proof fn lemma_plural_lines_push(p: Seq<Seq<char>>, x: Seq<char>)
    ensures
        sp_plural_lines(p.push(x)) == sp_plural_lines(p) + plural_line(x),
    decreases p.len(),
{
    if p.len() == 0 {
        assert(p.push(x)[0] == x);
        assert(p.push(x).drop_first() =~= Seq::<Seq<char>>::empty());
        assert(sp_plural_lines(Seq::<Seq<char>>::empty()) == Seq::<char>::empty());
        assert(sp_plural_lines(p.push(x)) =~= Seq::<char>::empty() + plural_line(x));
    } else {
        assert(p.push(x).drop_first() =~= p.drop_first().push(x));
        assert(p.push(x)[0] == p[0]);
        lemma_plural_lines_push(p.drop_first(), x);
        assert(plural_line(p[0]) + (sp_plural_lines(p.drop_first()) + plural_line(x)) =~= (
        plural_line(p[0]) + sp_plural_lines(p.drop_first())) + plural_line(x));
    }
}

proof fn lemma_select_lines_push(s: Seq<Seq<char>>, opts: Seq<Seq<char>>, x: Seq<char>)
    ensures
        sp_select_lines(s.push(x), opts) == sp_select_lines(s, opts) + select_line(x, opts),
    decreases s.len(),
{
    if s.len() == 0 {
        assert(s.push(x)[0] == x);
        assert(s.push(x).drop_first() =~= Seq::<Seq<char>>::empty());
        assert(sp_select_lines(Seq::<Seq<char>>::empty(), opts) == Seq::<char>::empty());
        assert(sp_select_lines(s.push(x), opts) =~= Seq::<char>::empty() + select_line(x, opts));
    } else {
        assert(s.push(x).drop_first() =~= s.drop_first().push(x));
        assert(s.push(x)[0] == s[0]);
        lemma_select_lines_push(s.drop_first(), opts, x);
        assert(select_line(s[0], opts) + (sp_select_lines(s.drop_first(), opts) + select_line(
            x,
            opts,
        )) =~= (select_line(s[0], opts) + sp_select_lines(s.drop_first(), opts)) + select_line(
            x,
            opts,
        ));
    }
}

proof fn lemma_simple_lines_push(si: Seq<Seq<char>>, x: Seq<char>)
    ensures
        sp_simple_lines(si.push(x)) == sp_simple_lines(si) + simple_line(x),
    decreases si.len(),
{
    if si.len() == 0 {
        assert(si.push(x)[0] == x);
        assert(si.push(x).drop_first() =~= Seq::<Seq<char>>::empty());
        assert(sp_simple_lines(Seq::<Seq<char>>::empty()) == Seq::<char>::empty());
        assert(sp_simple_lines(si.push(x)) =~= Seq::<char>::empty() + simple_line(x));
    } else {
        assert(si.push(x).drop_first() =~= si.drop_first().push(x));
        assert(si.push(x)[0] == si[0]);
        lemma_simple_lines_push(si.drop_first(), x);
        assert(simple_line(si[0]) + (sp_simple_lines(si.drop_first()) + simple_line(x)) =~= (
        simple_line(si[0]) + sp_simple_lines(si.drop_first())) + simple_line(x));
    }
}

proof fn lemma_param_lines_push(
    vars: Seq<Seq<char>>,
    p: Seq<Seq<char>>,
    s: Seq<Seq<char>>,
    opts: Seq<Seq<char>>,
    x: Seq<char>,
)
    ensures
        sp_param_lines(vars.push(x), p, s, opts) == sp_param_lines(vars, p, s, opts) + param_line(
            x,
            p,
            s,
            opts,
        ),
    decreases vars.len(),
{
    if vars.len() == 0 {
        assert(vars.push(x)[0] == x);
        assert(vars.push(x).drop_first() =~= Seq::<Seq<char>>::empty());
        assert(sp_param_lines(Seq::<Seq<char>>::empty(), p, s, opts) == Seq::<char>::empty());
        assert(sp_param_lines(vars.push(x), p, s, opts) =~= Seq::<char>::empty() + param_line(
            x,
            p,
            s,
            opts,
        ));
    } else {
        assert(vars.push(x).drop_first() =~= vars.drop_first().push(x));
        assert(vars.push(x)[0] == vars[0]);
        lemma_param_lines_push(vars.drop_first(), p, s, opts, x);
        assert(param_line(vars[0], p, s, opts) + (sp_param_lines(vars.drop_first(), p, s, opts)
            + param_line(x, p, s, opts)) =~= (param_line(vars[0], p, s, opts) + sp_param_lines(
            vars.drop_first(),
            p,
            s,
            opts,
        )) + param_line(x, p, s, opts));
    }
}

proof fn lemma_args_tail_push(
    vars: Seq<Seq<char>>,
    p: Seq<Seq<char>>,
    s: Seq<Seq<char>>,
    opts: Seq<Seq<char>>,
    x: Seq<char>,
)
    ensures
        sp_args_tail(vars.push(x), p, s, opts) == sp_args_tail(vars, p, s, opts) + (", "@
            + arg_text(x, p, s, opts)),
    decreases vars.len(),
{
    if vars.len() == 0 {
        assert(vars.push(x)[0] == x);
        assert(vars.push(x).drop_first() =~= Seq::<Seq<char>>::empty());
        assert(sp_args_tail(Seq::<Seq<char>>::empty(), p, s, opts) == Seq::<char>::empty());
        assert(", "@ + arg_text(x, p, s, opts) + Seq::<char>::empty() =~= ", "@ + arg_text(
            x,
            p,
            s,
            opts,
        ));
        assert(sp_args_tail(vars.push(x), p, s, opts) =~= Seq::<char>::empty() + (", "@ + arg_text(
            x,
            p,
            s,
            opts,
        )));
    } else {
        assert(vars.push(x).drop_first() =~= vars.drop_first().push(x));
        assert(vars.push(x)[0] == vars[0]);
        lemma_args_tail_push(vars.drop_first(), p, s, opts, x);
        assert(", "@ + arg_text(vars[0], p, s, opts) + (sp_args_tail(vars.drop_first(), p, s, opts)
            + (", "@ + arg_text(x, p, s, opts))) =~= (", "@ + arg_text(vars[0], p, s, opts)
            + sp_args_tail(vars.drop_first(), p, s, opts)) + (", "@ + arg_text(x, p, s, opts)));
    }
}

proof fn lemma_args_push(
    vars: Seq<Seq<char>>,
    p: Seq<Seq<char>>,
    s: Seq<Seq<char>>,
    opts: Seq<Seq<char>>,
    x: Seq<char>,
)
    ensures
        sp_args(vars.push(x), p, s, opts) == if vars.len() == 0 {
            arg_text(x, p, s, opts)
        } else {
            sp_args(vars, p, s, opts) + (", "@ + arg_text(x, p, s, opts))
        },
{
    if vars.len() == 0 {
        assert(vars.push(x)[0] == x);
        assert(vars.push(x).drop_first() =~= Seq::<Seq<char>>::empty());
        assert(sp_args_tail(Seq::<Seq<char>>::empty(), p, s, opts) == Seq::<char>::empty());
        assert(arg_text(x, p, s, opts) + Seq::<char>::empty() =~= arg_text(x, p, s, opts));
    } else {
        assert(vars.push(x)[0] == vars[0]);
        assert(vars.push(x).drop_first() =~= vars.drop_first().push(x));
        lemma_args_tail_push(vars.drop_first(), p, s, opts, x);
        assert(arg_text(vars[0], p, s, opts) + (sp_args_tail(vars.drop_first(), p, s, opts) + (", "@
            + arg_text(x, p, s, opts))) =~= (arg_text(vars[0], p, s, opts) + sp_args_tail(
            vars.drop_first(),
            p,
            s,
            opts,
        )) + (", "@ + arg_text(x, p, s, opts)));
    }
}

/// Classify the variables of a tree against a variable list, appending to
/// the three category lists in tree order.
pub fn categorize_variables_from_ast(
    node: &AstNode,
    variables: &Vec<String>,
    plural_vars: &mut Vec<String>,
    select_vars: &mut Vec<String>,
    simple_vars: &mut Vec<String>,
)
    ensures
        (strs(final(plural_vars)@), strs(final(select_vars)@), strs(final(simple_vars)@))
            == sp_categorize(
            node@,
            strs(variables@),
            strs(old(plural_vars)@),
            strs(old(select_vars)@),
            strs(old(simple_vars)@),
        ),
    decreases *node, 0int,
{
    match node {
        AstNode::Root(children) => {
            categorize_list(children, 0, variables, plural_vars, select_vars, simple_vars);
            proof {
                assert(view_nodes(children@).skip(0) =~= view_nodes(children@));
            }
        },
        AstNode::Text(_) => {
        },
        AstNode::Variable(v) => {
            if contains_string(variables, v) && !contains_string(simple_vars, v)
                && !contains_string(plural_vars, v) && !contains_string(select_vars, v) {
                let ghost s0 = simple_vars@;
                simple_vars.push(v.clone());
                proof {
                    assert(strs(simple_vars@) =~= strs(s0).push(v@));
                }
            }
        },
        AstNode::Plural { variable, options: _ } => {
            if contains_string(variables, variable) && !contains_string(plural_vars, variable) {
                let ghost p0 = plural_vars@;
                plural_vars.push(variable.clone());
                proof {
                    assert(strs(plural_vars@) =~= strs(p0).push(variable@));
                }
            }
        },
        AstNode::Select { variable, options: _ } => {
            if contains_string(variables, variable) && !contains_string(select_vars, variable) {
                let ghost s0 = select_vars@;
                select_vars.push(variable.clone());
                proof {
                    assert(strs(select_vars@) =~= strs(s0).push(variable@));
                }
            }
        },
        AstNode::HtmlTag { name: _, children } => {
            categorize_list(children, 0, variables, plural_vars, select_vars, simple_vars);
            proof {
                assert(view_nodes(children@).skip(0) =~= view_nodes(children@));
            }
        },
    }
}

fn categorize_list(
    children: &Vec<AstNode>,
    i: usize,
    variables: &Vec<String>,
    plural_vars: &mut Vec<String>,
    select_vars: &mut Vec<String>,
    simple_vars: &mut Vec<String>,
)
    requires
        i <= children@.len(),
    ensures
        (strs(final(plural_vars)@), strs(final(select_vars)@), strs(final(simple_vars)@))
            == sp_categorize_list(
            view_nodes(children@).skip(i as int),
            strs(variables@),
            strs(old(plural_vars)@),
            strs(old(select_vars)@),
            strs(old(simple_vars)@),
        ),
    decreases children@, children@.len() - i,
{
    proof {
        lemma_view_nodes_index_any(children@);
    }
    if i >= children.len() {
        proof {
            assert(view_nodes(children@).skip(i as int) =~= Seq::<Ast>::empty());
        }
    } else {
        let ghost tail = view_nodes(children@).skip(i as int);
        proof {
            lemma_view_nodes_index(children@, i as int);
            assert(tail[0] == ast_of(children@[i as int]));
            assert(tail.drop_first() =~= view_nodes(children@).skip(i + 1));
        }
        categorize_variables_from_ast(
            &children[i],
            variables,
            plural_vars,
            select_vars,
            simple_vars,
        );
        categorize_list(children, i + 1, variables, plural_vars, select_vars, simple_vars);
    }
}

pub struct TypedKeyDocs {}

impl TypedKeyDocs {
    pub fn new() -> (r: TypedKeyDocs) {
        TypedKeyDocs {  }
    }

    /// Classify each listed variable of a registry value as plural, select
    /// or simple; a variable the message does not mention is simple.
    pub fn categorize_variables(&self, value: &TranslationValue, variables: &Vec<String>) -> (r: (
        Vec<String>,
        Vec<String>,
        Vec<String>,
    ))
        ensures
            (strs(r.0@), strs(r.1@), strs(r.2@)) == sp_categorize_value(value@, strs(variables@)),
    {
        let mut plural_vars: Vec<String> = Vec::new();
        let mut select_vars: Vec<String> = Vec::new();
        let mut simple_vars: Vec<String> = Vec::new();
        proof {
            assert(strs(Seq::<String>::empty()) =~= Seq::<Seq<char>>::empty());
        }
        match value {
            TranslationValue::Message(s) => {
                let parser = Parser::new(s.as_str());
                match parser.parse() {
                    Ok(ast) => {
                        categorize_variables_from_ast(
                            &ast,
                            variables,
                            &mut plural_vars,
                            &mut select_vars,
                            &mut simple_vars,
                        );
                    },
                    Err(_) => {
                    },
                }
            },
            TranslationValue::Inert => {
            },
        }
        let mut i: usize = 0;
        let ghost p = strs(plural_vars@);
        let ghost s = strs(select_vars@);
        let ghost si0 = strs(simple_vars@);
        proof {
            assert(strs(variables@).skip(0) =~= strs(variables@));
        }
        while i < variables.len()
            invariant
                i <= variables@.len(),
                p == strs(plural_vars@),
                s == strs(select_vars@),
                sp_fill_simple(strs(variables@), p, s, si0) == sp_fill_simple(
                    strs(variables@).skip(i as int),
                    p,
                    s,
                    strs(simple_vars@),
                ),
            decreases variables@.len() - i,
        {
            let ghost tail = strs(variables@).skip(i as int);
            proof {
                assert(tail[0] == variables@[i as int]@);
                assert(tail.drop_first() =~= strs(variables@).skip(i + 1));
            }
            let var = &variables[i];
            if !contains_string(&plural_vars, var) && !contains_string(&select_vars, var)
                && !contains_string(&simple_vars, var) {
                let ghost si0 = simple_vars@;
                simple_vars.push(var.clone());
                proof {
                    assert(strs(simple_vars@) =~= strs(si0).push(var@));
                }
            }
            i = i + 1;
        }
        proof {
            assert(strs(variables@).skip(variables@.len() as int) =~= Seq::<Seq<char>>::empty());
            assert(sp_fill_simple(Seq::<Seq<char>>::empty(), p, s, strs(simple_vars@)) == strs(
                simple_vars@,
            ));
        }
        (plural_vars, select_vars, simple_vars)
    }

    /// Render the Markdown documentation for one key.
    #[verifier::rlimit(100)]
    pub fn format_documentation(
        &self,
        key: &str,
        value: &TranslationValue,
        variables: &Vec<String>,
        select_options: &Vec<String>,
    ) -> (r: String)
        ensures
            r@ == sp_format_documentation(key@, value@, strs(variables@), strs(select_options@)),
    {
        let ghost vars = strs(variables@);
        let ghost opts = strs(select_options@);
        let cat = self.categorize_variables(value, variables);
        let (plural_vars, select_vars, simple_vars) = cat;
        let ghost p = strs(plural_vars@);
        let ghost s = strs(select_vars@);
        let ghost si = strs(simple_vars@);

        let mut doc = String::new();
        doc.append("```typescript\nt(key: '");
        doc.append(key);
        doc.append("', params?: {");
        let ghost base1 = doc@;

        let mut i: usize = 0;
        while i < plural_vars.len()
            invariant
                i <= plural_vars@.len(),
                p == strs(plural_vars@),
                doc@ == base1 + sp_plural_lines(p.take(i as int)),
            decreases plural_vars@.len() - i,
        {
            doc.append("\n  ");
            doc.append(plural_vars[i].as_str());
            doc.append(": number;");
            proof {
                assert(p.take(i as int).push(p[i as int]) =~= p.take(i + 1));
                lemma_plural_lines_push(p.take(i as int), p[i as int]);
                assert(doc@ =~= base1 + sp_plural_lines(p.take(i + 1)));
            }
            i = i + 1;
        }
        proof {
            assert(p.take(plural_vars@.len() as int) =~= p);
        }
        let joined_pipe = join_strings(select_options, " | ");
        let mut i2: usize = 0;
        let ghost base2 = doc@;
        while i2 < select_vars.len()
            invariant
                i2 <= select_vars@.len(),
                s == strs(select_vars@),
                joined_pipe@ == join(opts, " | "@),
                doc@ == base2 + sp_select_lines(s.take(i2 as int), opts),
            decreases select_vars@.len() - i2,
        {
            doc.append("\n  ");
            doc.append(select_vars[i2].as_str());
            doc.append(": '");
            doc.append(joined_pipe.as_str());
            doc.append("';");
            proof {
                assert(s.take(i2 as int).push(s[i2 as int]) =~= s.take(i2 + 1));
                lemma_select_lines_push(s.take(i2 as int), opts, s[i2 as int]);
                assert(doc@ =~= base2 + sp_select_lines(s.take(i2 + 1), opts));
            }
            i2 = i2 + 1;
        }
        proof {
            assert(s.take(select_vars@.len() as int) =~= s);
        }
        let mut i3: usize = 0;
        let ghost base3 = doc@;
        while i3 < simple_vars.len()
            invariant
                i3 <= simple_vars@.len(),
                si == strs(simple_vars@),
                doc@ == base3 + sp_simple_lines(si.take(i3 as int)),
            decreases simple_vars@.len() - i3,
        {
            doc.append("\n  ");
            doc.append(simple_vars[i3].as_str());
            doc.append(": string | number;");
            proof {
                assert(si.take(i3 as int).push(si[i3 as int]) =~= si.take(i3 + 1));
                lemma_simple_lines_push(si.take(i3 as int), si[i3 as int]);
                assert(doc@ =~= base3 + sp_simple_lines(si.take(i3 + 1)));
            }
            i3 = i3 + 1;
        }
        proof {
            assert(si.take(simple_vars@.len() as int) =~= si);
        }
        doc.append("\n}): string\n```\n\n");
        doc.append("**Translation:**\n```i18n\n");
        match value {
            TranslationValue::Message(m) => {
                doc.append(m.as_str());
            },
            TranslationValue::Inert => {
            },
        }
        doc.append("\n```\n\n");
        proof {
            if value@ is Inert {
                assert(raw_of(value@) =~= Seq::<char>::empty());
            }
        }

        if variables.len() > 0 {
            doc.append("**Parameters:**\n");
            let joined_comma = join_strings(select_options, ", ");
            let mut i4: usize = 0;
            let ghost base4 = doc@;
            while i4 < variables.len()
                invariant
                    i4 <= variables@.len(),
                    vars == strs(variables@),
                    p == strs(plural_vars@),
                    s == strs(select_vars@),
                    joined_comma@ == join(opts, ", "@),
                    doc@ == base4 + sp_param_lines(vars.take(i4 as int), p, s, opts),
                decreases variables@.len() - i4,
            {
                doc.append("- `");
                doc.append(variables[i4].as_str());
                doc.append("`: ");
                if contains_string(&plural_vars, &variables[i4]) {
                    doc.append("Number for plural form.\n");
                } else if contains_string(&select_vars, &variables[i4]) {
                    doc.append("One of: ");
                    doc.append(joined_comma.as_str());
                    doc.append(".\n");
                } else {
                    doc.append("Value to interpolate.\n");
                }
                proof {
                    assert(vars.take(i4 as int).push(vars[i4 as int]) =~= vars.take(i4 + 1));
                    lemma_param_lines_push(vars.take(i4 as int), p, s, opts, vars[i4 as int]);
                    assert(doc@ =~= base4 + sp_param_lines(vars.take(i4 + 1), p, s, opts));
                }
                i4 = i4 + 1;
            }
            proof {
                assert(vars.take(variables@.len() as int) =~= vars);
            }
            doc.append("\n");
        }

        doc.append("**Example:**\n```typescript\n");
        if variables.len() == 0 {
            doc.append("t('");
            doc.append(key);
            doc.append("');\n");
        } else {
            doc.append("t('");
            doc.append(key);
            doc.append("', { ");
            let mut i5: usize = 0;
            let ghost base5 = doc@;
            while i5 < variables.len()
                invariant
                    i5 <= variables@.len(),
                    vars == strs(variables@),
                    p == strs(plural_vars@),
                    s == strs(select_vars@),
                    opts == strs(select_options@),
                    doc@ == base5 + sp_args(vars.take(i5 as int), p, s, opts),
                decreases variables@.len() - i5,
            {
                if i5 > 0 {
                    doc.append(", ");
                }
                if contains_string(&plural_vars, &variables[i5]) {
                    doc.append(variables[i5].as_str());
                    doc.append(": 1");
                } else if contains_string(&select_vars, &variables[i5]) {
                    doc.append(variables[i5].as_str());
                    doc.append(": '");
                    if select_options.len() > 0 {
                        doc.append(select_options[0].as_str());
                    }
                    doc.append("'");
                } else {
                    doc.append(variables[i5].as_str());
                    doc.append(": 'value'");
                }
                proof {
                    assert(vars.take(i5 as int).push(vars[i5 as int]) =~= vars.take(i5 + 1));
                    lemma_args_push(vars.take(i5 as int), p, s, opts, vars[i5 as int]);
                    if i5 > 0 {
                        assert(doc@ =~= base5 + (sp_args(vars.take(i5 as int), p, s, opts) + (", "@
                            + arg_text(vars[i5 as int], p, s, opts))));
                    }
                    if opts.len() > 0 {
                        assert(opts[0] == select_options@[0]@);
                    }
                    assert(doc@ =~= base5 + sp_args(vars.take(i5 + 1), p, s, opts));
                }
                i5 = i5 + 1;
            }
            proof {
                assert(vars.take(variables@.len() as int) =~= vars);
            }
            doc.append(" });\n");
        }
        doc.append("```\n");
        proof {
            assert(doc@ =~= sp_format_documentation(key@, value@, vars, opts));
        }
        doc
    }
}

} // verus!
