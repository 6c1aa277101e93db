//! Missing-variable diagnostics: for every `t(key, ...)` call in a host
//! source tree whose key resolves to a message, each required variable not
//! provided in the options object yields one warning on the key literal's
//! span, carrying the key and the missing variable for the code action.
use crate::extract::sp_vars;
use crate::host::TsNode;
use crate::locate::{
    child_by_field, is_t_call, nth_named, point_in_range, sp_child_by_field, sp_is_t_call,
    sp_nth_named, sp_unquote, unquote_string, Position,
};
use crate::parse::{sp_parse_message, Parser};
use crate::registry::{sp_lookup, TranslationValue, TvModel, TypedKeyTranslations};
use crate::text::{contains_string, str_eq, strs};
use vstd::prelude::*;

verus! {

broadcast use vstd::seq::axiom_seq_index_decreases;

#[derive(Debug, PartialEq, Eq, Structural, Clone, Copy)]
pub struct Range {
    pub start: Position,
    pub end: Position,
}

/// Every diagnostic this engine emits is a warning.
#[derive(Debug, PartialEq, Eq, Structural, Clone, Copy)]
pub enum DiagnosticSeverity {
    Warning,
}

/// The structured payload a diagnostic carries for the code action.
#[derive(Debug, PartialEq, Clone)]
pub struct MissingVariableDiagnosticData {
    pub key: String,
    pub missing_variable: String,
}

#[derive(Debug, PartialEq)]
pub struct Diagnostic {
    pub range: Range,
    pub severity: DiagnosticSeverity,
    pub message: String,
    pub data: MissingVariableDiagnosticData,
}

/// Model of a diagnostic.
pub struct DiagModel {
    pub range: Range,
    pub message: Seq<char>,
    pub key: Seq<char>,
    pub missing_variable: Seq<char>,
}

impl View for Diagnostic {
    type V = DiagModel;

    open spec fn view(&self) -> DiagModel {
        DiagModel {
            range: self.range,
            message: self.message@,
            key: self.data.key@,
            missing_variable: self.data.missing_variable@,
        }
    }
}

/// Views of a diagnostic list.
pub open spec fn diags_view(v: Seq<Diagnostic>) -> Seq<DiagModel> {
    v.map_values(|d: Diagnostic| d@)
}

/// The span of a node as a range.
pub open spec fn sp_node_range(n: TsNode) -> Range {
    Range {
        start: Position { line: n.start_row as u32, character: n.start_column as u32 },
        end: Position { line: n.end_row as u32, character: n.end_column as u32 },
    }
}

/// The message text of one diagnostic.
pub open spec fn sp_diag_message(var: Seq<char>, key: Seq<char>) -> Seq<char> {
    "Missing required variable: "@ + var + " for key: "@ + key
}

/// One diagnostic for a variable missing at a call.
pub open spec fn sp_diag(var: Seq<char>, key: Seq<char>, range: Range) -> DiagModel {
    DiagModel { range, message: sp_diag_message(var, key), key, missing_variable: var }
}

/// The provided-variable names of an options object: property keys with
/// their quotes stripped, and shorthand property names.
pub open spec fn sp_provided(children: Seq<TsNode>) -> Seq<Seq<char>>
    decreases children.len(),
{
    if children.len() == 0 {
        Seq::empty()
    } else {
        let c0 = children[0];
        let here: Seq<Seq<char>> = if c0.named && c0.kind@ == "pair"@ {
            match sp_child_by_field(c0.children@, "key"@) {
                Some(k) => seq![sp_unquote(k.text@)],
                None => Seq::empty(),
            }
        } else if c0.named && c0.kind@ == "shorthand_property_identifier"@ {
            seq![c0.text@]
        } else {
            Seq::empty()
        };
        here + sp_provided(children.drop_first())
    }
}

/// The provided variables of a call: read from its second named argument
/// when that is an object literal, empty otherwise.
pub open spec fn sp_provided_of_call(args: TsNode) -> Seq<Seq<char>> {
    match sp_nth_named(args.children@, 1) {
        Some(obj) => if obj.kind@ == "object"@ {
            sp_provided(obj.children@)
        } else {
            Seq::empty()
        },
        None => Seq::empty(),
    }
}

/// One diagnostic per required variable not provided, in required order.
pub open spec fn sp_missing_diags(
    required: Seq<Seq<char>>,
    provided: Seq<Seq<char>>,
    key: Seq<char>,
    range: Range,
) -> Seq<DiagModel>
    decreases required.len(),
{
    if required.len() == 0 {
        Seq::empty()
    } else {
        let rest = sp_missing_diags(required.drop_first(), provided, key, range);
        if provided.contains(required[0]) {
            rest
        } else {
            seq![sp_diag(required[0], key, range)] + rest
        }
    }
}

/// The diagnostics of one call node: none unless it is a `t(...)` call
/// whose first argument is a string literal naming a message that parses.
pub open spec fn sp_call_diags(n: TsNode, reg: Seq<(Seq<char>, TvModel)>) -> Seq<DiagModel> {
    if !sp_is_t_call(n) {
        Seq::empty()
    } else {
        match sp_child_by_field(n.children@, "arguments"@) {
            None => Seq::empty(),
            Some(args) => match sp_nth_named(args.children@, 0) {
                None => Seq::empty(),
                Some(key_node) => if key_node.kind@ == "string"@ {
                    let key = sp_unquote(key_node.text@);
                    match sp_lookup(reg, key) {
                        Some(TvModel::Message(m)) => match sp_parse_message(m) {
                            Ok(ast) => sp_missing_diags(
                                sp_vars(ast),
                                sp_provided_of_call(args),
                                key,
                                sp_node_range(key_node),
                            ),
                            Err(_) => Seq::empty(),
                        },
                        _ => Seq::empty(),
                    }
                } else {
                    Seq::empty()
                },
            },
        }
    }
}

/// All diagnostics of a tree, in preorder, appended to `acc`.
pub open spec fn sp_collect_diags(
    n: TsNode,
    reg: Seq<(Seq<char>, TvModel)>,
    acc: Seq<DiagModel>,
) -> Seq<DiagModel>
    decreases n,
{
    sp_collect_diags_list(n.children@, reg, acc + sp_call_diags(n, reg))
}

pub open spec fn sp_collect_diags_list(
    children: Seq<TsNode>,
    reg: Seq<(Seq<char>, TvModel)>,
    acc: Seq<DiagModel>,
) -> Seq<DiagModel>
    decreases children,
{
    if children.len() == 0 {
        acc
    } else {
        sp_collect_diags_list(children.drop_first(), reg, sp_collect_diags(children[0], reg, acc))
    }
}

/// The diagnostics of a whole document tree against a registry.
pub open spec fn sp_diagnostics(tree: TsNode, reg: Seq<(Seq<char>, TvModel)>) -> Seq<DiagModel> {
    sp_collect_diags(tree, reg, Seq::empty())
}

/// Walk a host source tree and report one warning for each required
/// variable missing at each `t(...)` call.
pub fn generate_diagnostics(tree: &TsNode, registry: &TypedKeyTranslations) -> (r: Vec<Diagnostic>)
    ensures
        diags_view(r@) == sp_diagnostics(*tree, registry.entries()),
{
    proof {
        assert(diags_view(Seq::<Diagnostic>::empty()) =~= Seq::<DiagModel>::empty());
    }
    collect_diags(tree, registry, Vec::new())
}

fn collect_diags(node: &TsNode, registry: &TypedKeyTranslations, acc: Vec<Diagnostic>) -> (r: Vec<
    Diagnostic,
>)
    ensures
        diags_view(r@) == sp_collect_diags(*node, registry.entries(), diags_view(acc@)),
    decreases *node, 0int,
{
    let acc1 = call_diags(node, registry, acc);
    let r = collect_diags_list(&node.children, 0, registry, acc1);
    proof {
        assert(node.children@.skip(0) =~= node.children@);
    }
    r
}

fn collect_diags_list(
    children: &Vec<TsNode>,
    i: usize,
    registry: &TypedKeyTranslations,
    acc: Vec<Diagnostic>,
) -> (r: Vec<Diagnostic>)
    requires
        i <= children@.len(),
    ensures
        diags_view(r@) == sp_collect_diags_list(
            children@.skip(i as int),
            registry.entries(),
            diags_view(acc@),
        ),
    decreases children@, children@.len() - i,
{
    let ghost tail = children@.skip(i as int);
    if i >= children.len() {
        proof {
            assert(tail =~= Seq::<TsNode>::empty());
        }
        acc
    } else {
        proof {
            assert(tail[0] == children@[i as int]);
            assert(tail.drop_first() =~= children@.skip(i + 1));
        }
        let acc1 = collect_diags(&children[i], registry, acc);
        collect_diags_list(children, i + 1, registry, acc1)
    }
}

/// Append the diagnostics of one candidate call node.
fn call_diags(node: &TsNode, registry: &TypedKeyTranslations, acc: Vec<Diagnostic>) -> (r: Vec<
    Diagnostic,
>)
    ensures
        diags_view(r@) == diags_view(acc@) + sp_call_diags(*node, registry.entries()),
{
    let ghost acc0 = diags_view(acc@);
    proof {
        assert(acc0 + Seq::<DiagModel>::empty() =~= acc0);
    }
    if !is_t_call(node) {
        return acc;
    }
    proof {
        assert(node.children@.skip(0) =~= node.children@);
    }
    let args = match child_by_field(&node.children, 0, "arguments") {
        None => {
            return acc;
        },
        Some(args) => args,
    };
    proof {
        assert(args.children@.skip(0) =~= args.children@);
    }
    let key_node = match nth_named(&args.children, 0, 0) {
        None => {
            return acc;
        },
        Some(k) => k,
    };
    if !str_eq(key_node.kind.as_str(), "string") {
        return acc;
    }
    let key = unquote_string(key_node.text.as_str());
    let message = match registry.get(key.as_str()) {
        Some(TranslationValue::Message(m)) => m.clone(),
        _ => {
            return acc;
        },
    };
    let parser = Parser::new(message.as_str());
    let ast = match parser.parse() {
        Ok(ast) => ast,
        Err(_) => {
            return acc;
        },
    };
    let mut required: Vec<String> = Vec::new();
    crate::extract::traverse_ast_for_variables(&ast, &mut required);
    proof {
        assert(strs(Seq::<String>::empty()) =~= Seq::<Seq<char>>::empty());
    }
    let provided = provided_of_call(args);
    let range = Range {
        start: Position {
            line: key_node.start_row as u32,
            character: key_node.start_column as u32,
        },
        end: Position { line: key_node.end_row as u32, character: key_node.end_column as u32 },
    };
    let ghost req = strs(required@);
    let ghost prov = strs(provided@);
    let ghost keyv = key@;
    let mut out = acc;
    let mut i: usize = 0;
    proof {
        assert(req.skip(0) =~= req);
    }
    while i < required.len()
        invariant
            i <= required@.len(),
            req == strs(required@),
            prov == strs(provided@),
            keyv == key@,
            acc0 + sp_missing_diags(req, prov, keyv, range) == diags_view(out@)
                + sp_missing_diags(req.skip(i as int), prov, keyv, range),
        decreases required@.len() - i,
    {
        let ghost tail = req.skip(i as int);
        proof {
            assert(tail[0] == required@[i as int]@);
            assert(tail.drop_first() =~= req.skip(i + 1));
        }
        if !contains_string(&provided, &required[i]) {
            let mut msg = String::new();
            msg.append("Missing required variable: ");
            msg.append(required[i].as_str());
            msg.append(" for key: ");
            msg.append(key.as_str());
            let diag = Diagnostic {
                range,
                severity: DiagnosticSeverity::Warning,
                message: msg,
                data: MissingVariableDiagnosticData {
                    key: key.clone(),
                    missing_variable: required[i].clone(),
                },
            };
            let ghost out0 = diags_view(out@);
            out.push(diag);
            proof {
                assert(diags_view(out@) =~= out0.push(sp_diag(tail[0], keyv, range)));
                assert(diags_view(out@) + sp_missing_diags(req.skip(i + 1), prov, keyv, range)
                    =~= out0 + (seq![sp_diag(tail[0], keyv, range)] + sp_missing_diags(
                    req.skip(i + 1),
                    prov,
                    keyv,
                    range,
                )));
            }
        }
        i = i + 1;
    }
    proof {
        assert(req.skip(req.len() as int) =~= Seq::<Seq<char>>::empty());
        assert(diags_view(out@) + Seq::<DiagModel>::empty() =~= diags_view(out@));
    }
    out
}

/// The provided variables of a call's arguments node.
pub fn provided_of_call(args: &TsNode) -> (r: Vec<String>)
    ensures
        strs(r@) == sp_provided_of_call(*args),
{
    proof {
        assert(args.children@.skip(0) =~= args.children@);
        assert(strs(Seq::<String>::empty()) =~= Seq::<Seq<char>>::empty());
    }
    match nth_named(&args.children, 0, 1) {
        Some(obj) => {
            if str_eq(obj.kind.as_str(), "object") {
                proof {
                    assert(obj.children@.skip(0) =~= obj.children@);
                }
                provided_vars(&obj.children, 0)
            } else {
                Vec::new()
            }
        },
        None => Vec::new(),
    }
}

fn provided_vars(children: &Vec<TsNode>, i: usize) -> (r: Vec<String>)
    requires
        i <= children@.len(),
    ensures
        strs(r@) == sp_provided(children@.skip(i as int)),
    decreases children@.len() - i,
{
    let ghost tail = children@.skip(i as int);
    if i >= children.len() {
        let r: Vec<String> = Vec::new();
        proof {
            assert(tail =~= Seq::<TsNode>::empty());
            assert(strs(r@) =~= Seq::<Seq<char>>::empty());
        }
        r
    } else {
        proof {
            assert(tail[0] == children@[i as int]);
            assert(tail.drop_first() =~= children@.skip(i + 1));
        }
        let c = &children[i];
        let mut here: Vec<String> = Vec::new();
        if c.named && str_eq(c.kind.as_str(), "pair") {
            proof {
                assert(c.children@.skip(0) =~= c.children@);
            }
            match child_by_field(&c.children, 0, "key") {
                Some(k) => {
                    here.push(unquote_string(k.text.as_str()));
                },
                None => {
                },
            }
        } else if c.named && str_eq(c.kind.as_str(), "shorthand_property_identifier") {
            here.push(c.text.clone());
        }
        let rest = provided_vars(children, i + 1);
        let ghost herev = strs(here@);
        let ghost restv = strs(rest@);
        let mut out = here;
        let mut j: usize = 0;
        while j < rest.len()
            invariant
                j <= rest@.len(),
                restv == strs(rest@),
                strs(out@) == herev + restv.take(j as int),
            decreases rest@.len() - j,
        {
            let ghost out0 = strs(out@);
            out.push(rest[j].clone());
            j = j + 1;
            proof {
                assert(strs(out@) =~= out0.push(rest@[j - 1]@));
                assert(strs(out@) =~= herev + restv.take(j as int));
            }
        }
        proof {
            assert(restv.take(rest@.len() as int) =~= restv);
            assert(strs(out@) == herev + restv);
            assert(herev =~= (if tail[0].named && tail[0].kind@ == "pair"@ {
                match sp_child_by_field(tail[0].children@, "key"@) {
                    Some(k) => seq![sp_unquote(k.text@)],
                    None => Seq::<Seq<char>>::empty(),
                }
            } else if tail[0].named && tail[0].kind@ == "shorthand_property_identifier"@ {
                seq![tail[0].text@]
            } else {
                Seq::<Seq<char>>::empty()
            }));
        }
        out
    }
}

} // verus!
