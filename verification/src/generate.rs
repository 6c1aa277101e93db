//! TypeScript definition generation: from a flat key-to-message table,
//! render one `Translations` type with a parameter object per key, typed
//! `string` for plain variables, `number` for plural variables and a
//! string-literal union for select variables. File discovery and writing
//! are the caller's concern; this module only computes the text.
use crate::ast::{ast_of, lemma_view_nodes_index, view_nodes, view_opts, Ast, AstNode};
use crate::extract::{keys_of_options, lemma_view_nodes_index_any, opt_keys};
use crate::parse::{sp_parse_message, Parser};
use crate::text::{join, join_strings, push_char, strs};
use vstd::prelude::*;

verus! {

broadcast use vstd::seq::axiom_seq_index_decreases;

/// A label in double quotes, as a literal type.
pub open spec fn quoted(k: Seq<char>) -> Seq<char> {
    seq!['"'] + k + seq!['"']
}

/// The TypeScript type of a select variable: the union of its labels.
pub open spec fn sp_select_type(keys: Seq<Seq<char>>) -> Seq<char> {
    join(keys.map_values(|k: Seq<char>| quoted(k)), " | "@)
}

/// The parameter list of a message: one `(name, type)` pair per placeholder
/// in tree order, without de-duplication.
pub open spec fn sp_params(n: Ast) -> Seq<(Seq<char>, Seq<char>)>
    decreases n,
{
    match n {
        Ast::Root(children) => sp_params_list(children),
        Ast::Text(_) => Seq::empty(),
        Ast::Variable(v) => seq![(v, "string"@)],
        Ast::Plural { variable, options: _ } => seq![(variable, "number"@)],
        Ast::Select { variable, options } => seq![
            (variable, sp_select_type(crate::extract::opt_keys(options))),
        ],
        Ast::HtmlTag { name: _, children } => sp_params_list(children),
    }
}

pub open spec fn sp_params_list(l: Seq<Ast>) -> Seq<(Seq<char>, Seq<char>)>
    decreases l,
{
    if l.len() == 0 {
        Seq::empty()
    } else {
        sp_params(l[0]) + sp_params_list(l.drop_first())
    }
}

/// View of an executable parameter list.
pub open spec fn params_view(v: Seq<(String, String)>) -> Seq<(Seq<char>, Seq<char>)> {
    v.map_values(|p: (String, String)| (p.0@, p.1@))
}

/// Collect the parameter pairs of a tree.
pub fn extract_params(node: &AstNode) -> (r: Vec<(String, String)>)
    ensures
        params_view(r@) == sp_params(node@),
{
    proof {
        assert(params_view(Seq::<(String, String)>::empty()) =~= Seq::<(
            Seq<char>,
            Seq<char>,
        )>::empty());
    }
    let r = extract_params_into(node, Vec::new());
    proof {
        assert(Seq::<(Seq<char>, Seq<char>)>::empty() + sp_params(node@) =~= sp_params(node@));
    }
    r
}

fn extract_params_into(node: &AstNode, acc: Vec<(String, String)>) -> (r: Vec<(String, String)>)
    ensures
        params_view(r@) == params_view(acc@) + sp_params(node@),
    decreases *node, 0int,
{
    let ghost acc0 = params_view(acc@);
    match node {
        AstNode::Root(children) => {
            let r = extract_params_list(children, 0, acc);
            proof {
                assert(view_nodes(children@).skip(0) =~= view_nodes(children@));
            }
            r
        },
        AstNode::Text(_) => {
            proof {
                assert(acc0 + Seq::<(Seq<char>, Seq<char>)>::empty() =~= acc0);
            }
            acc
        },
        AstNode::Variable(v) => {
            let mut r = acc;
            let ghost vv = v@;
            r.push((v.clone(), String::from_str("string")));
            proof {
                assert(params_view(r@) =~= acc0 + seq![(vv, "string"@)]);
            }
            r
        },
        AstNode::Plural { variable, options: _ } => {
            let mut r = acc;
            let ghost vv = variable@;
            r.push((variable.clone(), String::from_str("number")));
            proof {
                assert(params_view(r@) =~= acc0 + seq![(vv, "number"@)]);
            }
            r
        },
        AstNode::Select { variable, options } => {
            let keys = keys_of_options(options);
            let ghost ks = opt_keys(view_opts(options@));
            let mut quoted_keys: Vec<String> = Vec::new();
            let mut i: usize = 0;
            proof {
                assert(strs(quoted_keys@) =~= ks.map_values(|k: Seq<char>| quoted(k)).take(0));
            }
            while i < keys.len()
                invariant
                    i <= keys@.len(),
                    ks == strs(keys@),
                    strs(quoted_keys@) == ks.map_values(|k: Seq<char>| quoted(k)).take(i as int),
                decreases keys@.len() - i,
            {
                let mut q = String::new();
                push_char(&mut q, '"');
                q.append(keys[i].as_str());
                push_char(&mut q, '"');
                let ghost q0 = strs(quoted_keys@);
                proof {
                    assert(q@ =~= quoted(ks[i as int]));
                }
                quoted_keys.push(q);
                proof {
                    assert(strs(quoted_keys@) =~= q0.push(quoted(ks[i as int])));
                    assert(ks.map_values(|k: Seq<char>| quoted(k))[i as int] == quoted(
                        ks[i as int],
                    ));
                    assert(strs(quoted_keys@) =~= ks.map_values(|k: Seq<char>| quoted(k)).take(
                        i + 1,
                    ));
                }
                i = i + 1;
            }
            proof {
                assert(ks.map_values(|k: Seq<char>| quoted(k)).take(keys@.len() as int)
                    =~= ks.map_values(|k: Seq<char>| quoted(k)));
            }
            let union_type = join_strings(&quoted_keys, " | ");
            let mut r = acc;
            let ghost vv = variable@;
            r.push((variable.clone(), union_type));
            proof {
                assert(params_view(r@) =~= acc0 + seq![(vv, sp_select_type(ks))]);
            }
            r
        },
        AstNode::HtmlTag { name: _, children } => {
            let r = extract_params_list(children, 0, acc);
            proof {
                assert(view_nodes(children@).skip(0) =~= view_nodes(children@));
            }
            r
        },
    }
}

fn extract_params_list(children: &Vec<AstNode>, i: usize, acc: Vec<(String, String)>) -> (r: Vec<
    (String, String),
>)
    requires
        i <= children@.len(),
    ensures
        params_view(r@) == params_view(acc@) + sp_params_list(view_nodes(children@).skip(i as int)),
    decreases children@, children@.len() - i,
{
    proof {
        lemma_view_nodes_index_any(children@);
    }
    if i >= children.len() {
        proof {
            assert(view_nodes(children@).skip(i as int) =~= Seq::<Ast>::empty());
            assert(params_view(acc@) + Seq::<(Seq<char>, Seq<char>)>::empty() =~= params_view(
                acc@,
            ));
        }
        acc
    } else {
        let ghost acc0 = params_view(acc@);
        let ghost tail = view_nodes(children@).skip(i as int);
        proof {
            lemma_view_nodes_index(children@, i as int);
            assert(tail[0] == ast_of(children@[i as int]));
            assert(tail.drop_first() =~= view_nodes(children@).skip(i + 1));
        }
        let acc1 = extract_params_into(&children[i], acc);
        let r = extract_params_list(children, i + 1, acc1);
        proof {
            assert(acc0 + sp_params(tail[0]) + sp_params_list(tail.drop_first()) =~= acc0 + (
            sp_params(tail[0]) + sp_params_list(tail.drop_first())));
        }
        r
    }
}

/// The rendered parameter object: `{}` when empty, the named and typed
/// fields otherwise.
pub open spec fn sp_format_params(ps: Seq<(Seq<char>, Seq<char>)>) -> Seq<char> {
    if ps.len() == 0 {
        "{}"@
    } else {
        "{ "@ + join(ps.map_values(|p: (Seq<char>, Seq<char>)| p.0 + ": "@ + p.1), ", "@) + " }"@
    }
}

/// The flat translation table behind the generator.
pub struct TypeScriptGenerator {
    translations: Vec<(String, String)>,
}

impl TypeScriptGenerator {
    /// The entries in insertion order.
    pub closed spec fn entries(&self) -> Seq<(Seq<char>, Seq<char>)> {
        params_view(self.translations@)
    }

    pub fn new() -> (r: TypeScriptGenerator)
        ensures
            r.entries() == Seq::<(Seq<char>, Seq<char>)>::empty(),
    {
        let r = TypeScriptGenerator { translations: Vec::new() };
        proof {
            assert(r.entries() =~= Seq::<(Seq<char>, Seq<char>)>::empty());
        }
        r
    }

    /// Record one flattened key with its raw message.
    pub fn add_translation(&mut self, key: String, value: String)
        ensures
            final(self).entries() == old(self).entries().push((key@, value@)),
    {
        let ghost kv = key@;
        let ghost vv = value@;
        self.translations.push((key, value));
        proof {
            assert(self.entries() =~= old(self).entries().push((kv, vv)));
        }
    }

    /// Render one parameter object.
    pub fn format_params(&self, params: &Vec<(String, String)>) -> (r: String)
        ensures
            r@ == sp_format_params(params_view(params@)),
    {
        let ghost ps = params_view(params@);
        if params.len() == 0 {
            let r = String::from_str("{}");
            return r;
        }
        let mut parts: Vec<String> = Vec::new();
        let mut i: usize = 0;
        let ghost mapped = ps.map_values(|p: (Seq<char>, Seq<char>)| p.0 + ": "@ + p.1);
        proof {
            assert(strs(parts@) =~= mapped.take(0));
        }
        while i < params.len()
            invariant
                i <= params@.len(),
                ps == params_view(params@),
                mapped == ps.map_values(|p: (Seq<char>, Seq<char>)| p.0 + ": "@ + p.1),
                strs(parts@) == mapped.take(i as int),
            decreases params@.len() - i,
        {
            let mut part = params[i].0.clone();
            part.append(": ");
            part.append(params[i].1.as_str());
            let ghost p0 = strs(parts@);
            proof {
                assert(ps[i as int] == (params@[i as int].0@, params@[i as int].1@));
                assert(part@ =~= mapped[i as int]);
            }
            parts.push(part);
            proof {
                assert(strs(parts@) =~= p0.push(mapped[i as int]));
                assert(strs(parts@) =~= mapped.take(i + 1));
            }
            i = i + 1;
        }
        proof {
            assert(mapped.take(params@.len() as int) =~= mapped);
        }
        let joined = join_strings(&parts, ", ");
        let mut r = String::from_str("{ ");
        r.append(joined.as_str());
        r.append(" }");
        r
    }

    /// The line rendered for one table entry; a message that does not parse
    /// renders nothing.
    pub open spec fn sp_render_line(key: Seq<char>, value: Seq<char>) -> Seq<char> {
        match sp_parse_message(value) {
            Ok(ast) => "  \""@ + key + "\": (params: "@ + sp_format_params(sp_params(ast))
                + ") => string,\n"@,
            Err(_) => Seq::empty(),
        }
    }

    /// The lines of all entries, in table order.
    pub open spec fn sp_render_lines(entries: Seq<(Seq<char>, Seq<char>)>) -> Seq<char>
        decreases entries.len(),
    {
        if entries.len() == 0 {
            Seq::empty()
        } else {
            Self::sp_render_line(entries[0].0, entries[0].1) + Self::sp_render_lines(
                entries.drop_first(),
            )
        }
    }

    /// The whole rendered definitions text.
    pub open spec fn sp_render(entries: Seq<(Seq<char>, Seq<char>)>) -> Seq<char> {
        "export type Translations = {\n"@ + Self::sp_render_lines(entries) + "}\n"@
    }

    /// Render the TypeScript definitions for all recorded translations.
    pub fn generate_typescript_definitions(&self) -> (r: String)
        ensures
            r@ == Self::sp_render(self.entries()),
    {
        let ghost entries = self.entries();
        let mut out = String::from_str("export type Translations = {\n");
        let ghost base = out@;
        let mut i: usize = 0;
        proof {
            assert(Self::sp_render_lines(entries).take(0) =~= Seq::<char>::empty());
            assert(out@ =~= base + Self::sp_render_lines(entries.take(0)));
        }
        while i < self.translations.len()
            invariant
                i <= self.translations@.len(),
                entries == self.entries(),
                base == "export type Translations = {\n"@,
                out@ == base + Self::sp_render_lines(entries.take(i as int)),
            decreases self.translations@.len() - i,
        {
            proof {
                assert(entries[i as int] == (
                    self.translations@[i as int].0@,
                    self.translations@[i as int].1@,
                ));
            }
            let key = &self.translations[i].0;
            let value = &self.translations[i].1;
            let parser = Parser::new(value.as_str());
            match parser.parse() {
                Ok(ast) => {
                    let params = extract_params(&ast);
                    let param_string = self.format_params(&params);
                    out.append("  \"");
                    out.append(key.as_str());
                    out.append("\": (params: ");
                    out.append(param_string.as_str());
                    out.append(") => string,\n");
                },
                Err(_) => {
                },
            }
            proof {
                lemma_render_lines_push(entries.take(i as int), entries[i as int]);
                assert(entries.take(i as int).push(entries[i as int]) =~= entries.take(i + 1));
                assert(out@ =~= base + Self::sp_render_lines(entries.take(i + 1)));
            }
            i = i + 1;
        }
        proof {
            assert(entries.take(self.translations@.len() as int) =~= entries);
        }
        out.append("}\n");
        out
    }
}

proof fn lemma_render_lines_push(entries: Seq<(Seq<char>, Seq<char>)>, x: (Seq<char>, Seq<char>))
    ensures
        TypeScriptGenerator::sp_render_lines(entries.push(x)) == TypeScriptGenerator::sp_render_lines(
            entries,
        ) + TypeScriptGenerator::sp_render_line(x.0, x.1),
    decreases entries.len(),
{
    if entries.len() == 0 {
        assert(entries.push(x)[0] == x);
        assert(entries.push(x).drop_first() =~= Seq::<(Seq<char>, Seq<char>)>::empty());
        assert(TypeScriptGenerator::sp_render_lines(Seq::<(Seq<char>, Seq<char>)>::empty())
            == Seq::<char>::empty());
        assert(TypeScriptGenerator::sp_render_lines(entries.push(x)) =~= Seq::<char>::empty()
            + TypeScriptGenerator::sp_render_line(x.0, x.1));
    } else {
        assert(entries.push(x)[0] == entries[0]);
        assert(entries.push(x).drop_first() =~= entries.drop_first().push(x));
        lemma_render_lines_push(entries.drop_first(), x);
        assert(TypeScriptGenerator::sp_render_line(entries[0].0, entries[0].1)
            + (TypeScriptGenerator::sp_render_lines(entries.drop_first())
            + TypeScriptGenerator::sp_render_line(x.0, x.1)) =~= (TypeScriptGenerator::sp_render_line(
            entries[0].0,
            entries[0].1,
        ) + TypeScriptGenerator::sp_render_lines(entries.drop_first()))
            + TypeScriptGenerator::sp_render_line(x.0, x.1));
    }
}

} // verus!
