//! Quick-fix code action: given a diagnostic's payload (key and missing
//! variable), re-locate the `t(...)` call for that key and compute the one
//! text insertion that adds the variable. An existing options object gets
//! the property before its closing brace (with a leading comma unless the
//! object is empty); otherwise a new object literal is appended before the
//! call's closing parenthesis.
use crate::diagnostics::MissingVariableDiagnosticData;
use crate::host::{parse_host_source, ts_tree, TsNode};
use crate::locate::{
    child_by_field, host_parse_error_text, is_t_call, nth_named, sp_child_by_field, sp_is_t_call,
    sp_named_count, sp_nth_named, sp_unquote, unquote_string,
};
use crate::text::str_eq;
use vstd::prelude::*;

verus! {

broadcast use vstd::seq::axiom_seq_index_decreases;

/// One text insertion: the position (row and column) and the text to put
/// there.
#[derive(Debug, PartialEq)]
pub struct FixEdit {
    pub row: usize,
    pub column: usize,
    pub new_text: String,
}

/// The column just before a span's closing character.
pub open spec fn sp_before_end(c: usize) -> int {
    if c >= 1 {
        c - 1
    } else {
        0
    }
}

/// The first `t(...)` call, in preorder over named children, whose first
/// argument is a string literal for `key`.
pub open spec fn sp_find_key_call(n: TsNode, key: Seq<char>) -> Option<TsNode>
    decreases n,
{
    if sp_is_t_call(n) && sp_call_key_matches(n, key) {
        Some(n)
    } else {
        sp_find_key_call_children(n.children@, key)
    }
}

pub open spec fn sp_call_key_matches(n: TsNode, key: Seq<char>) -> bool {
    match sp_child_by_field(n.children@, "arguments"@) {
        None => false,
        Some(args) => match sp_nth_named(args.children@, 0) {
            None => false,
            Some(arg0) => arg0.kind@ == "string"@ && sp_unquote(arg0.text@) == key,
        },
    }
}

pub open spec fn sp_find_key_call_children(children: Seq<TsNode>, key: Seq<char>) -> Option<TsNode>
    decreases children,
{
    if children.len() == 0 {
        None
    } else {
        let r0 = if children[0].named {
            sp_find_key_call(children[0], key)
        } else {
            None
        };
        match r0 {
            Some(n) => Some(n),
            None => sp_find_key_call_children(children.drop_first(), key),
        }
    }
}

/// The insertion for one located call: position and text.
pub open spec fn sp_fix_for_call(call: TsNode, var: Seq<char>) -> (int, int, Seq<char>) {
    let obj = match sp_child_by_field(call.children@, "arguments"@) {
        None => None,
        Some(args) => match sp_nth_named(args.children@, 1) {
            Some(second) => if second.kind@ == "object"@ {
                Some(second)
            } else {
                None
            },
            None => None,
        },
    };
    match obj {
        Some(o) => if sp_named_count(o.children@) == 0 {
            (o.end_row as int, sp_before_end(o.end_column), var + ": \"\""@)
        } else {
            (o.end_row as int, sp_before_end(o.end_column), ", "@ + var + ": \"\""@)
        },
        None => (
            call.end_row as int,
            sp_before_end(call.end_column),
            ", { "@ + var + ": \"\" }"@,
        ),
    }
}

/// The fix for a payload against a tree: the insertion at the call whose
/// key matches, or nothing when no such call exists.
pub open spec fn sp_build_fix(tree: TsNode, key: Seq<char>, var: Seq<char>) -> Option<
    (int, int, Seq<char>),
> {
    match sp_find_key_call(tree, key) {
        None => None,
        Some(call) => Some(sp_fix_for_call(call, var)),
    }
}

/// Compute the insertion that adds the missing variable to the `t(...)`
/// call named by the diagnostic payload. `Ok(None)` when no call with that
/// key stands in the document; `Err` only when the host source cannot be
/// parsed.
pub fn build_fix(document: &str, data: &MissingVariableDiagnosticData) -> (r: Result<
    Option<FixEdit>,
    String,
>)
    ensures
        match ts_tree(document@, false) {
            Some(tree) => r is Ok && (match r->Ok_0 {
                Some(fix) => sp_build_fix(tree, data.key@, data.missing_variable@) == Some(
                    (fix.row as int, fix.column as int, fix.new_text@),
                ),
                None => sp_build_fix(tree, data.key@, data.missing_variable@) is None,
            }),
            None => r is Err && r->Err_0@ == host_parse_error_text(),
        },
{
    let tree = match parse_host_source(document, false) {
        Some(t) => t,
        None => {
            return Err(String::from_str("failed to parse host source"));
        },
    };
    let call = match find_key_call(&tree, data.key.as_str()) {
        None => {
            return Ok(None);
        },
        Some(c) => c,
    };
    Ok(Some(fix_for_call(call, data.missing_variable.as_str())))
}

/// Whether this call's first argument is a string literal for `key`.
fn call_key_matches(n: &TsNode, key: &str) -> (r: bool)
    ensures
        r == sp_call_key_matches(*n, key@),
{
    proof {
        assert(n.children@.skip(0) =~= n.children@);
    }
    match child_by_field(&n.children, 0, "arguments") {
        None => false,
        Some(args) => {
            proof {
                assert(args.children@.skip(0) =~= args.children@);
            }
            match nth_named(&args.children, 0, 0) {
                None => false,
                Some(arg0) => {
                    if str_eq(arg0.kind.as_str(), "string") {
                        let unquoted = unquote_string(arg0.text.as_str());
                        str_eq(unquoted.as_str(), key)
                    } else {
                        false
                    }
                },
            }
        },
    }
}

fn find_key_call<'a>(node: &'a TsNode, key: &str) -> (r: Option<&'a TsNode>)
    ensures
        match r {
            Some(c) => sp_find_key_call(*node, key@) == Some(*c),
            None => sp_find_key_call(*node, key@) is None,
        },
    decreases *node, 0int,
{
    if is_t_call(node) && call_key_matches(node, key) {
        Some(node)
    } else {
        let r = find_key_call_children(&node.children, 0, key);
        proof {
            assert(node.children@.skip(0) =~= node.children@);
        }
        r
    }
}

fn find_key_call_children<'a>(children: &'a Vec<TsNode>, i: usize, key: &str) -> (r: Option<
    &'a TsNode,
>)
    requires
        i <= children@.len(),
    ensures
        match r {
            Some(c) => sp_find_key_call_children(children@.skip(i as int), key@) == Some(*c),
            None => sp_find_key_call_children(children@.skip(i as int), key@) is None,
        },
    decreases children@, children@.len() - i,
{
    let ghost tail = children@.skip(i as int);
    if i >= children.len() {
        proof {
            assert(tail =~= Seq::<TsNode>::empty());
        }
        None
    } else {
        proof {
            assert(tail[0] == children@[i as int]);
            assert(tail.drop_first() =~= children@.skip(i + 1));
        }
        if children[i].named {
            match find_key_call(&children[i], key) {
                Some(c) => Some(c),
                None => find_key_call_children(children, i + 1, key),
            }
        } else {
            find_key_call_children(children, i + 1, key)
        }
    }
}

/// Build the insertion for one call.
fn fix_for_call(call: &TsNode, var: &str) -> (r: FixEdit)
    ensures
        sp_fix_for_call(*call, var@) == (r.row as int, r.column as int, r.new_text@),
{
    proof {
        assert(call.children@.skip(0) =~= call.children@);
    }
    let obj: Option<&TsNode> = match child_by_field(&call.children, 0, "arguments") {
        None => None,
        Some(args) => {
            proof {
                assert(args.children@.skip(0) =~= args.children@);
            }
            match nth_named(&args.children, 0, 1) {
                Some(second) => {
                    if str_eq(second.kind.as_str(), "object") {
                        Some(second)
                    } else {
                        None
                    }
                },
                None => None,
            }
        },
    };
    match obj {
        Some(o) => {
            proof {
                assert(o.children@.skip(0) =~= o.children@);
            }
            let column = if o.end_column >= 1 {
                o.end_column - 1
            } else {
                0
            };
            let mut new_text = String::new();
            if crate::locate::has_named_child(&o.children, 0) {
                new_text.append(", ");
            }
            new_text.append(var);
            new_text.append(": \"\"");
            FixEdit { row: o.end_row, column, new_text }
        },
        None => {
            let column = if call.end_column >= 1 {
                call.end_column - 1
            } else {
                0
            };
            let mut new_text = String::new();
            new_text.append(", { ");
            new_text.append(var);
            new_text.append(": \"\" }");
            FixEdit { row: call.end_row, column, new_text }
        },
    }
}

} // verus!
