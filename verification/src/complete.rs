//! Completion engine. Inside the key literal it offers every registry key
//! with a detail block and rendered documentation; inside the options
//! object it offers the message's variables (select variables as enum
//! items); inside a property value it offers the select option labels, or
//! one generic placeholder.
use crate::ast::AstNode;
use crate::docs::{sp_format_documentation, TypedKeyDocs};
use crate::extract::{
    get_select_options, is_select_variable, opts_view, sp_extract, sp_is_select,
    sp_select_options, sp_vars, traverse_ast_for_variables,
};
use crate::host::{ts_tree, TsNode};
use crate::diagnostics::{provided_of_call, sp_provided_of_call};
use crate::locate::{
    child_by_field, host_parse_error_text, locate_t_call, sp_child_by_field, sp_locate_call,
    CpModel, CursorPosition, Position, SpModel, TFunctionParser,
};
use crate::parse::{sp_parse_message, Parser};
use crate::registry::{
    extract_variables_and_options, sp_lookup, TranslationValue, TvModel, TypedKeyTranslations,
};
use crate::text::{contains_string, join, join_strings, strs};
use vstd::prelude::*;

verus! {

#[derive(Debug, PartialEq, Eq, Structural, Clone, Copy)]
pub enum CompletionItemKind {
    Constant,
    Variable,
    Enum,
    EnumMember,
    Value,
}

#[derive(Debug, PartialEq)]
pub struct CompletionItem {
    pub label: String,
    pub kind: CompletionItemKind,
    pub detail: String,
    pub documentation: Option<String>,
    pub insert_text: Option<String>,
}

/// Model of a completion item.
pub struct CiModel {
    pub label: Seq<char>,
    pub kind: CompletionItemKind,
    pub detail: Seq<char>,
    pub documentation: Option<Seq<char>>,
    pub insert_text: Option<Seq<char>>,
}

impl View for CompletionItem {
    type V = CiModel;

    open spec fn view(&self) -> CiModel {
        CiModel {
            label: self.label@,
            kind: self.kind,
            detail: self.detail@,
            documentation: opt_str_view2(self.documentation),
            insert_text: opt_str_view2(self.insert_text),
        }
    }
}

pub open spec fn opt_str_view2(o: Option<String>) -> Option<Seq<char>> {
    match o {
        Some(s) => Some(s@),
        None => None,
    }
}

/// Views of an item list.
pub open spec fn items_view(v: Seq<CompletionItem>) -> Seq<CiModel> {
    v.map_values(|c: CompletionItem| c@)
}

/// The variables and the label map of a registry value, as the key
/// completions read them: empty when the value is inert or does not parse.
pub open spec fn sp_value_extraction(value: TvModel) -> (
    Seq<Seq<char>>,
    Seq<(Seq<char>, Seq<Seq<char>>)>,
) {
    match value {
        TvModel::Message(m) => match sp_extract(m) {
            Some(e) => e,
            None => (Seq::empty(), Seq::empty()),
        },
        TvModel::Inert => (Seq::empty(), Seq::empty()),
    }
}

/// One detail line per select variable in the label map.
pub open spec fn sp_opt_lines(opts: Seq<(Seq<char>, Seq<Seq<char>>)>) -> Seq<char>
    decreases opts.len(),
{
    if opts.len() == 0 {
        Seq::empty()
    } else {
        "\n  "@ + opts[0].0 + ": "@ + join(opts[0].1, ", "@) + sp_opt_lines(opts.drop_first())
    }
}

/// The detail block of one key completion.
pub open spec fn sp_completion_detail(
    key: Seq<char>,
    vars: Seq<Seq<char>>,
    opts: Seq<(Seq<char>, Seq<Seq<char>>)>,
) -> Seq<char> {
    "Translation key: "@ + key + (if vars.len() > 0 {
        "\nParameters: "@ + join(vars, ", "@)
    } else {
        Seq::<char>::empty()
    }) + (if opts.len() > 0 {
        "\nSelect options:"@ + sp_opt_lines(opts)
    } else {
        Seq::<char>::empty()
    })
}

/// All option labels of the label map, flattened in map order.
pub open spec fn sp_flat_labels(opts: Seq<(Seq<char>, Seq<Seq<char>>)>) -> Seq<Seq<char>>
    decreases opts.len(),
{
    if opts.len() == 0 {
        Seq::empty()
    } else {
        opts[0].1 + sp_flat_labels(opts.drop_first())
    }
}

/// The completion item of one registry key.
pub open spec fn sp_key_item(key: Seq<char>, value: TvModel) -> CiModel {
    let e = sp_value_extraction(value);
    CiModel {
        label: key,
        kind: CompletionItemKind::Constant,
        detail: sp_completion_detail(key, e.0, e.1),
        documentation: Some(sp_format_documentation(key, value, e.0, sp_flat_labels(e.1))),
        insert_text: None,
    }
}

/// One item per registry entry, in registry order.
pub open spec fn sp_key_completions(reg: Seq<(Seq<char>, TvModel)>) -> Seq<CiModel> {
    reg.map_values(|e: (Seq<char>, TvModel)| sp_key_item(e.0, e.1))
}

/// The item offered for one required variable.
pub open spec fn sp_var_item(v: Seq<char>, ast: crate::ast::Ast, key: Seq<char>) -> CiModel {
    CiModel {
        label: v,
        kind: if sp_is_select(ast, v) {
            CompletionItemKind::Enum
        } else {
            CompletionItemKind::Variable
        },
        detail: "Variable for key: "@ + key,
        documentation: None,
        insert_text: Some(v + ": "@),
    }
}

/// Items for the listed variables, skipping those already provided as
/// properties of the options object.
pub open spec fn sp_var_items(
    vars: Seq<Seq<char>>,
    ast: crate::ast::Ast,
    key: Seq<char>,
    provided: Seq<Seq<char>>,
) -> Seq<CiModel>
    decreases vars.len(),
{
    if vars.len() == 0 {
        Seq::empty()
    } else {
        let rest = sp_var_items(vars.drop_first(), ast, key, provided);
        if provided.contains(vars[0]) {
            rest
        } else {
            seq![sp_var_item(vars[0], ast, key)] + rest
        }
    }
}

/// One item per required variable of the message not yet present as a
/// property at the call.
pub open spec fn sp_variable_completions(
    ast: crate::ast::Ast,
    key: Seq<char>,
    provided: Seq<Seq<char>>,
) -> Seq<CiModel> {
    sp_var_items(sp_vars(ast), ast, key, provided)
}

/// The property names already provided at a call.
pub open spec fn sp_provided_at_call(call: TsNode) -> Seq<Seq<char>> {
    match sp_child_by_field(call.children@, "arguments"@) {
        Some(args) => sp_provided_of_call(args),
        None => Seq::empty(),
    }
}

/// The item offered for one select option label.
pub open spec fn sp_option_item(o: Seq<char>, var: Seq<char>, key: Seq<char>) -> CiModel {
    CiModel {
        label: o,
        kind: CompletionItemKind::EnumMember,
        detail: "Select option for "@ + var + ": "@ + key,
        documentation: None,
        insert_text: Some(o),
    }
}

/// The one generic item offered for a non-select value position.
pub open spec fn sp_generic_value_item(var: Seq<char>, key: Seq<char>) -> CiModel {
    CiModel {
        label: "value"@,
        kind: CompletionItemKind::Value,
        detail: "Value for "@ + var + ": "@ + key,
        documentation: None,
        insert_text: Some("value"@),
    }
}

/// Items for a property-value position: the select option labels when the
/// variable is a select, one generic placeholder otherwise.
pub open spec fn sp_value_completions(
    ast: crate::ast::Ast,
    var: Seq<char>,
    key: Seq<char>,
) -> Seq<CiModel> {
    match sp_select_options(ast, var) {
        Some(labels) => labels.map_values(|o: Seq<char>| sp_option_item(o, var, key)),
        None => seq![sp_generic_value_item(var, key)],
    }
}

/// The completion result for a tree, a cursor and a registry. `None` means
/// no completions apply: the cursor is outside a call, the key is unknown,
/// or its message does not parse.
pub open spec fn sp_complete(
    tree: TsNode,
    row: int,
    col: int,
    reg: Seq<(Seq<char>, TvModel)>,
) -> Option<Seq<CiModel>> {
    match sp_locate_call(tree, row, col) {
        None => None,
        Some(located) => match located.1 {
            CpModel::OutsideTFunction => None,
            CpModel::InFunctionName => None,
            CpModel::InFirstParam { translation_key: _ } => Some(sp_key_completions(reg)),
            CpModel::InSecondParam { translation_key, position } => match translation_key {
                None => None,
                Some(key) => match sp_lookup(reg, key) {
                    None => None,
                    Some(value) => match sp_parse_message(crate::docs::raw_of(value)) {
                        Err(_) => None,
                        Ok(ast) => {
                            let provided = sp_provided_at_call(located.0);
                            match position {
                                SpModel::EmptyObject => Some(
                                    sp_variable_completions(ast, key, provided),
                                ),
                                SpModel::InObject => Some(
                                    sp_variable_completions(ast, key, provided),
                                ),
                                SpModel::InKey(_) => Some(
                                    sp_variable_completions(ast, key, provided),
                                ),
                                SpModel::InValue(var) => Some(sp_value_completions(ast, var, key)),
                            }
                        },
                    },
                },
            },
        },
    }
}

/// Detail block of a key completion.
fn format_completion_detail(
    key: &str,
    variables: &Vec<String>,
    select_options: &Vec<(String, Vec<String>)>,
) -> (r: String)
    ensures
        r@ == sp_completion_detail(key@, strs(variables@), opts_view(select_options@)),
{
    let ghost vars = strs(variables@);
    let ghost opts = opts_view(select_options@);
    let mut detail = String::new();
    detail.append("Translation key: ");
    detail.append(key);
    if variables.len() > 0 {
        detail.append("\nParameters: ");
        let joined = join_strings(variables, ", ");
        detail.append(joined.as_str());
    }
    if select_options.len() > 0 {
        detail.append("\nSelect options:");
        let ghost base = detail@;
        let mut i: usize = 0;
        while i < select_options.len()
            invariant
                i <= select_options@.len(),
                opts == opts_view(select_options@),
                detail@ == base + sp_opt_lines(opts.take(i as int)),
            decreases select_options@.len() - i,
        {
            detail.append("\n  ");
            detail.append(select_options[i].0.as_str());
            detail.append(": ");
            let joined = join_strings(&select_options[i].1, ", ");
            detail.append(joined.as_str());
            proof {
                assert(opts[i as int] == (select_options@[i as int].0@, strs(
                    select_options@[i as int].1@,
                )));
                lemma_opt_lines_push(opts.take(i as int), opts[i as int]);
                assert(opts.take(i as int).push(opts[i as int]) =~= opts.take(i + 1));
                assert(detail@ =~= base + sp_opt_lines(opts.take(i + 1)));
            }
            i = i + 1;
        }
        proof {
            assert(opts.take(select_options@.len() as int) =~= opts);
        }
    }
    proof {
        assert(detail@ =~= sp_completion_detail(key@, vars, opts));
    }
    detail
}

proof fn lemma_opt_lines_push(opts: Seq<(Seq<char>, Seq<Seq<char>>)>, x: (Seq<char>, Seq<Seq<char>>))
    ensures
        sp_opt_lines(opts.push(x)) == sp_opt_lines(opts) + ("\n  "@ + x.0 + ": "@ + join(
            x.1,
            ", "@,
        )),
    decreases opts.len(),
{
    if opts.len() == 0 {
        assert(opts.push(x)[0] == x);
        assert(opts.push(x).drop_first() =~= Seq::<(Seq<char>, Seq<Seq<char>>)>::empty());
        assert(sp_opt_lines(Seq::<(Seq<char>, Seq<Seq<char>>)>::empty()) == Seq::<char>::empty());
        assert(sp_opt_lines(opts.push(x)) =~= Seq::<char>::empty() + ("\n  "@ + x.0 + ": "@ + join(
            x.1,
            ", "@,
        )));
    } else {
        assert(opts.push(x)[0] == opts[0]);
        assert(opts.push(x).drop_first() =~= opts.drop_first().push(x));
        lemma_opt_lines_push(opts.drop_first(), x);
        assert("\n  "@ + opts[0].0 + ": "@ + join(opts[0].1, ", "@) + (sp_opt_lines(
            opts.drop_first(),
        ) + ("\n  "@ + x.0 + ": "@ + join(x.1, ", "@))) =~= ("\n  "@ + opts[0].0 + ": "@ + join(
            opts[0].1,
            ", "@,
        ) + sp_opt_lines(opts.drop_first())) + ("\n  "@ + x.0 + ": "@ + join(x.1, ", "@)));
    }
}

/// Flatten all option labels of a label map.
fn flat_labels(select_options: &Vec<(String, Vec<String>)>) -> (r: Vec<String>)
    ensures
        strs(r@) == sp_flat_labels(opts_view(select_options@)),
{
    let ghost opts = opts_view(select_options@);
    let mut r: Vec<String> = Vec::new();
    proof {
        assert(strs(r@) =~= Seq::<Seq<char>>::empty());
        assert(opts.skip(0) =~= opts);
    }
    let mut i: usize = 0;
    while i < select_options.len()
        invariant
            i <= select_options@.len(),
            opts == opts_view(select_options@),
            sp_flat_labels(opts) == strs(r@) + sp_flat_labels(opts.skip(i as int)),
        decreases select_options@.len() - i,
    {
        let ghost tail = opts.skip(i as int);
        proof {
            assert(tail[0] == (select_options@[i as int].0@, strs(select_options@[i as int].1@)));
            assert(tail.drop_first() =~= opts.skip(i + 1));
        }
        let labels = &select_options[i].1;
        let mut j: usize = 0;
        let ghost r0 = strs(r@);
        while j < labels.len()
            invariant
                j <= labels@.len(),
                strs(r@) == r0 + strs(labels@).take(j as int),
            decreases labels@.len() - j,
        {
            let ghost rr = strs(r@);
            r.push(labels[j].clone());
            j = j + 1;
            proof {
                assert(strs(r@) =~= rr.push(labels@[j - 1]@));
                assert(strs(r@) =~= r0 + strs(labels@).take(j as int));
            }
        }
        proof {
            assert(strs(labels@).take(labels@.len() as int) =~= strs(labels@));
            assert(r0 + tail[0].1 + sp_flat_labels(opts.skip(i + 1)) =~= r0 + (tail[0].1
                + sp_flat_labels(opts.skip(i + 1))));
        }
        i = i + 1;
    }
    proof {
        assert(opts.skip(select_options@.len() as int) =~= Seq::<(Seq<char>, Seq<Seq<char>>)>::empty());
        assert(strs(r@) + Seq::<Seq<char>>::empty() =~= strs(r@));
    }
    r
}

/// One completion item per registry key.
fn provide_translation_key_completions(registry: &TypedKeyTranslations) -> (r: Vec<CompletionItem>)
    ensures
        items_view(r@) == sp_key_completions(registry.entries()),
{
    let ghost reg = registry.entries();
    let entries = registry.get_translation_keys();
    let mut items: Vec<CompletionItem> = Vec::new();
    let mut i: usize = 0;
    proof {
        assert(items_view(items@) =~= sp_key_completions(reg).take(0));
    }
    while i < entries.len()
        invariant
            i <= entries@.len(),
            crate::registry::entries_view(entries@) == reg,
            items_view(items@) == sp_key_completions(reg).take(i as int),
        decreases entries@.len() - i,
    {
        proof {
            assert(reg[i as int] == (entries@[i as int].0@, entries@[i as int].1@));
        }
        let key = &entries[i].0;
        let value = &entries[i].1;
        let e = extract_variables_and_options(value);
        let (variables, select_options) = e;
        let detail = format_completion_detail(key.as_str(), &variables, &select_options);
        let flat = flat_labels(&select_options);
        let docs = TypedKeyDocs::new();
        let documentation = docs.format_documentation(key.as_str(), value, &variables, &flat);
        let ghost items0 = items_view(items@);
        items.push(
            CompletionItem {
                label: key.clone(),
                kind: CompletionItemKind::Constant,
                detail,
                documentation: Some(documentation),
                insert_text: None,
            },
        );
        proof {
            assert(sp_key_completions(reg)[i as int] == sp_key_item(reg[i as int].0, reg[i as int].1));
            assert(items_view(items@) =~= items0.push(sp_key_item(reg[i as int].0, reg[i as int].1)));
            assert(items_view(items@) =~= sp_key_completions(reg).take(i + 1));
        }
        i = i + 1;
    }
    proof {
        assert(sp_key_completions(reg).take(entries@.len() as int) =~= sp_key_completions(reg));
    }
    items
}

/// One item per required variable of a parsed message not yet provided.
fn provide_variable_completions(ast: &AstNode, key: &str, provided: &Vec<String>) -> (r: Vec<
    CompletionItem,
>)
    ensures
        items_view(r@) == sp_variable_completions(ast@, key@, strs(provided@)),
{
    let mut variables: Vec<String> = Vec::new();
    traverse_ast_for_variables(ast, &mut variables);
    proof {
        assert(strs(Seq::<String>::empty()) =~= Seq::<Seq<char>>::empty());
    }
    let ghost vars = sp_vars(ast@);
    let ghost prov = strs(provided@);
    let mut items: Vec<CompletionItem> = Vec::new();
    let mut i: usize = 0;
    proof {
        assert(vars.skip(0) =~= vars);
        assert(items_view(items@) =~= Seq::<CiModel>::empty());
        assert(Seq::<CiModel>::empty() + sp_var_items(vars, ast@, key@, prov) =~= sp_var_items(
            vars,
            ast@,
            key@,
            prov,
        ));
    }
    while i < variables.len()
        invariant
            i <= variables@.len(),
            vars == strs(variables@),
            prov == strs(provided@),
            sp_var_items(vars, ast@, key@, prov) == items_view(items@) + sp_var_items(
                vars.skip(i as int),
                ast@,
                key@,
                prov,
            ),
        decreases variables@.len() - i,
    {
        let ghost tail = vars.skip(i as int);
        proof {
            assert(tail[0] == variables@[i as int]@);
            assert(tail.drop_first() =~= vars.skip(i + 1));
        }
        let var = &variables[i];
        if !contains_string(provided, var) {
            let kind = if is_select_variable(ast, var.as_str()) {
                CompletionItemKind::Enum
            } else {
                CompletionItemKind::Variable
            };
            let mut detail = String::new();
            detail.append("Variable for key: ");
            detail.append(key);
            let mut insert = var.clone();
            insert.append(": ");
            let ghost items0 = items_view(items@);
            items.push(
                CompletionItem {
                    label: var.clone(),
                    kind,
                    detail,
                    documentation: None,
                    insert_text: Some(insert),
                },
            );
            proof {
                assert(items_view(items@) =~= items0.push(sp_var_item(tail[0], ast@, key@)));
                assert(items_view(items@) + sp_var_items(vars.skip(i + 1), ast@, key@, prov)
                    =~= items0 + (seq![sp_var_item(tail[0], ast@, key@)] + sp_var_items(
                    vars.skip(i + 1),
                    ast@,
                    key@,
                    prov,
                )));
            }
        }
        i = i + 1;
    }
    proof {
        assert(vars.skip(vars.len() as int) =~= Seq::<Seq<char>>::empty());
        assert(items_view(items@) + Seq::<CiModel>::empty() =~= items_view(items@));
    }
    items
}

/// Items for a property-value position.
fn provide_value_completions(ast: &AstNode, var_name: &str, key: &str) -> (r: Vec<CompletionItem>)
    ensures
        items_view(r@) == sp_value_completions(ast@, var_name@, key@),
{
    match get_select_options(ast, var_name) {
        Some(options) => {
            let ghost labels = strs(options@);
            let mut items: Vec<CompletionItem> = Vec::new();
            let mut i: usize = 0;
            proof {
                assert(items_view(items@) =~= sp_value_completions(ast@, var_name@, key@).take(0));
            }
            while i < options.len()
                invariant
                    i <= options@.len(),
                    labels == strs(options@),
                    sp_select_options(ast@, var_name@) == Some(labels),
                    items_view(items@) == sp_value_completions(ast@, var_name@, key@).take(i as int),
                decreases options@.len() - i,
            {
                let option = &options[i];
                let mut detail = String::new();
                detail.append("Select option for ");
                detail.append(var_name);
                detail.append(": ");
                detail.append(key);
                let ghost items0 = items_view(items@);
                items.push(
                    CompletionItem {
                        label: option.clone(),
                        kind: CompletionItemKind::EnumMember,
                        detail,
                        documentation: None,
                        insert_text: Some(option.clone()),
                    },
                );
                proof {
                    assert(labels[i as int] == options@[i as int]@);
                    assert(sp_value_completions(ast@, var_name@, key@)[i as int] == sp_option_item(
                        labels[i as int],
                        var_name@,
                        key@,
                    ));
                    assert(items_view(items@) =~= items0.push(
                        sp_option_item(labels[i as int], var_name@, key@),
                    ));
                    assert(items_view(items@) =~= sp_value_completions(ast@, var_name@, key@).take(
                        i + 1,
                    ));
                }
                i = i + 1;
            }
            proof {
                assert(sp_value_completions(ast@, var_name@, key@).take(options@.len() as int)
                    =~= sp_value_completions(ast@, var_name@, key@));
            }
            items
        },
        None => {
            let mut detail = String::new();
            detail.append("Value for ");
            detail.append(var_name);
            detail.append(": ");
            detail.append(key);
            let mut items: Vec<CompletionItem> = Vec::new();
            items.push(
                CompletionItem {
                    label: String::from_str("value"),
                    kind: CompletionItemKind::Value,
                    detail,
                    documentation: None,
                    insert_text: Some(String::from_str("value")),
                },
            );
            proof {
                assert(items_view(items@) =~= seq![sp_generic_value_item(var_name@, key@)]);
            }
            items
        },
    }
}

/// The hover text for one key: the rendered documentation block of its
/// registry entry, or nothing when the key is absent.
pub open spec fn sp_hover(key: Seq<char>, reg: Seq<(Seq<char>, TvModel)>) -> Option<Seq<char>> {
    match sp_lookup(reg, key) {
        None => None,
        Some(value) => {
            let e = sp_value_extraction(value);
            Some(sp_format_documentation(key, value, e.0, sp_flat_labels(e.1)))
        },
    }
}

/// Render the hover documentation for a key, when the registry holds it.
pub fn format_hover_documentation(key: &str, registry: &TypedKeyTranslations) -> (r: Option<
    String,
>)
    ensures
        match r {
            Some(text) => sp_hover(key@, registry.entries()) == Some(text@),
            None => sp_hover(key@, registry.entries()) is None,
        },
{
    let value = match registry.get(key) {
        None => {
            return None;
        },
        Some(v) => v,
    };
    let e = extract_variables_and_options(value);
    let (variables, select_options) = e;
    let flat = flat_labels(&select_options);
    let docs = TypedKeyDocs::new();
    Some(docs.format_documentation(key, value, &variables, &flat))
}

/// The completion request: parse the host source, classify the cursor and
/// produce the applicable items; `Ok(None)` when no completions apply,
/// `Err` only when the host source cannot be parsed.
pub fn handle_completion(document: &str, position: Position, registry: &TypedKeyTranslations) -> (r:
    Result<Option<Vec<CompletionItem>>, String>)
    ensures
        match ts_tree(document@, false) {
            Some(tree) => r is Ok && (match r->Ok_0 {
                Some(items) => sp_complete(
                    tree,
                    position.line as int,
                    position.character as int,
                    registry.entries(),
                ) == Some(items_view(items@)),
                None => sp_complete(
                    tree,
                    position.line as int,
                    position.character as int,
                    registry.entries(),
                ) is None,
            }),
            None => r is Err && r->Err_0@ == host_parse_error_text(),
        },
{
    let parser = match TFunctionParser::new(String::from_str(document), position) {
        Ok(p) => p,
        Err(e) => {
            return Err(e);
        },
    };
    let located = match locate_t_call(
        &parser.tree,
        parser.cursor.line as usize,
        parser.cursor.character as usize,
    ) {
        None => {
            return Ok(None);
        },
        Some(p) => p,
    };
    let (call, cursor_position) = located;
    match cursor_position {
        CursorPosition::OutsideTFunction => Ok(None),
        CursorPosition::InFunctionName => Ok(None),
        CursorPosition::InFirstParam { translation_key: _ } => Ok(
            Some(provide_translation_key_completions(registry)),
        ),
        CursorPosition::InSecondParam { translation_key, position: sub } => {
            let key = match translation_key {
                None => {
                    return Ok(None);
                },
                Some(k) => k,
            };
            let value = match registry.get(key.as_str()) {
                None => {
                    return Ok(None);
                },
                Some(v) => v,
            };
            let raw = match value {
                TranslationValue::Message(m) => m.clone(),
                TranslationValue::Inert => String::new(),
            };
            let message_parser = Parser::new(raw.as_str());
            let ast = match message_parser.parse() {
                Ok(ast) => ast,
                Err(_) => {
                    return Ok(None);
                },
            };
            proof {
                assert(call.children@.skip(0) =~= call.children@);
            }
            let provided: Vec<String> = match child_by_field(&call.children, 0, "arguments") {
                Some(args) => provided_of_call(args),
                None => Vec::new(),
            };
            proof {
                assert(strs(Seq::<String>::empty()) =~= Seq::<Seq<char>>::empty());
            }
            match sub {
                crate::locate::SecondParamPosition::EmptyObject => Ok(
                    Some(provide_variable_completions(&ast, key.as_str(), &provided)),
                ),
                crate::locate::SecondParamPosition::InObject => Ok(
                    Some(provide_variable_completions(&ast, key.as_str(), &provided)),
                ),
                crate::locate::SecondParamPosition::InKey(_) => Ok(
                    Some(provide_variable_completions(&ast, key.as_str(), &provided)),
                ),
                crate::locate::SecondParamPosition::InValue(var_name) => Ok(
                    Some(provide_value_completions(&ast, var_name.as_str(), key.as_str())),
                ),
            }
        },
    }
}

} // verus!
