//! Call-site locator: given host source and a cursor, find the enclosing
//! `t(...)` call and classify the cursor's sub-position (the key literal,
//! an empty options object, a property key or a property value). Span
//! containment is inclusive on both ends, so a cursor just after the last
//! character of a span still counts as inside it.
use crate::host::{parse_host_source, ts_tree, TsNode};
use crate::text::str_eq;
use vstd::prelude::*;

verus! {

#[derive(Debug, PartialEq, Eq, Structural, Clone, Copy)]
pub struct Position {
    pub line: u32,
    pub character: u32,
}

#[derive(Debug, PartialEq)]
pub enum SecondParamPosition {
    EmptyObject,
    InObject,
    InKey(String),
    InValue(String),
}

#[derive(Debug, PartialEq)]
pub enum CursorPosition {
    OutsideTFunction,
    InFunctionName,
    InFirstParam { translation_key: Option<String> },
    InSecondParam { translation_key: Option<String>, position: SecondParamPosition },
}

/// Model of a second-parameter position.
pub enum SpModel {
    EmptyObject,
    InObject,
    InKey(Seq<char>),
    InValue(Seq<char>),
}

/// Model of a cursor position.
pub enum CpModel {
    OutsideTFunction,
    InFunctionName,
    InFirstParam { translation_key: Option<Seq<char>> },
    InSecondParam { translation_key: Option<Seq<char>>, position: SpModel },
}

impl View for SecondParamPosition {
    type V = SpModel;

    open spec fn view(&self) -> SpModel {
        match self {
            SecondParamPosition::EmptyObject => SpModel::EmptyObject,
            SecondParamPosition::InObject => SpModel::InObject,
            SecondParamPosition::InKey(k) => SpModel::InKey(k@),
            SecondParamPosition::InValue(k) => SpModel::InValue(k@),
        }
    }
}

pub open spec fn opt_str_view(o: Option<String>) -> Option<Seq<char>> {
    match o {
        Some(s) => Some(s@),
        None => None,
    }
}

impl View for CursorPosition {
    type V = CpModel;

    open spec fn view(&self) -> CpModel {
        match self {
            CursorPosition::OutsideTFunction => CpModel::OutsideTFunction,
            CursorPosition::InFunctionName => CpModel::InFunctionName,
            CursorPosition::InFirstParam { translation_key } => CpModel::InFirstParam {
                translation_key: opt_str_view(*translation_key),
            },
            CursorPosition::InSecondParam { translation_key, position } => CpModel::InSecondParam {
                translation_key: opt_str_view(*translation_key),
                position: position@,
            },
        }
    }
}

/// The cursor lies inside the node's span, both bounds included.
pub open spec fn sp_in_range(row: int, col: int, n: TsNode) -> bool {
    (n.start_row < row || (n.start_row == row && n.start_column <= col)) && (row < n.end_row || (row
        == n.end_row && col <= n.end_column))
}

/// The first child that fills field `f` in its parent.
pub open spec fn sp_child_by_field(children: Seq<TsNode>, f: Seq<char>) -> Option<TsNode>
    decreases children.len(),
{
    if children.len() == 0 {
        None
    } else if children[0].field is Some && children[0].field->0@ == f {
        Some(children[0])
    } else {
        sp_child_by_field(children.drop_first(), f)
    }
}

/// The `k`-th named child, in order.
pub open spec fn sp_nth_named(children: Seq<TsNode>, k: int) -> Option<TsNode>
    decreases children.len(),
{
    if children.len() == 0 {
        None
    } else if children[0].named {
        if k == 0 {
            Some(children[0])
        } else {
            sp_nth_named(children.drop_first(), k - 1)
        }
    } else {
        sp_nth_named(children.drop_first(), k)
    }
}

pub open spec fn is_quote(c: char) -> bool {
    c == '"' || c == '\'' || c == '`'
}

pub open spec fn unquote_start(s: Seq<char>) -> Seq<char>
    decreases s.len(),
{
    if s.len() == 0 {
        s
    } else if is_quote(s[0]) {
        unquote_start(s.drop_first())
    } else {
        s
    }
}

pub open spec fn unquote_end(s: Seq<char>) -> Seq<char>
    decreases s.len(),
{
    if s.len() == 0 {
        s
    } else if is_quote(s.last()) {
        unquote_end(s.drop_last())
    } else {
        s
    }
}

/// `s` with every leading and trailing quote character removed.
pub open spec fn sp_unquote(s: Seq<char>) -> Seq<char> {
    unquote_end(unquote_start(s))
}

/// Whether a node is a call of the lookup function: a call expression whose
/// callee is the bare identifier `t` or a member access whose property is
/// named `t`.
pub open spec fn sp_is_t_call(n: TsNode) -> bool {
    n.kind@ == "call_expression"@ && match sp_child_by_field(n.children@, "function"@) {
        Some(f) => (f.kind@ == "identifier"@ && f.text@ == "t"@) || (f.kind@
            == "member_expression"@ && match sp_child_by_field(f.children@, "property"@) {
            Some(p) => p.text@ == "t"@,
            None => false,
        }),
        None => false,
    }
}

/// Classify the cursor against the whole tree: the first `t(...)` call, in
/// preorder over named children, that contains the cursor decides.
pub open spec fn sp_find_t(n: TsNode, row: int, col: int) -> CpModel
    decreases n,
{
    if sp_is_t_call(n) && sp_in_range(row, col, n) {
        sp_analyze_t_call(n, row, col)
    } else {
        sp_find_children(n.children@, row, col)
    }
}

pub open spec fn sp_find_children(children: Seq<TsNode>, row: int, col: int) -> CpModel
    decreases children,
{
    if children.len() == 0 {
        CpModel::OutsideTFunction
    } else {
        let r0 = if children[0].named {
            sp_find_t(children[0], row, col)
        } else {
            CpModel::OutsideTFunction
        };
        if !(r0 is OutsideTFunction) {
            r0
        } else {
            sp_find_children(children.drop_first(), row, col)
        }
    }
}

/// The callee name node a `t(...)` call is recognized by: the bare
/// identifier, or the property of a member access.
pub open spec fn sp_t_name_node(n: TsNode) -> Option<TsNode> {
    match sp_child_by_field(n.children@, "function"@) {
        None => None,
        Some(f) => if f.kind@ == "identifier"@ {
            Some(f)
        } else if f.kind@ == "member_expression"@ {
            sp_child_by_field(f.children@, "property"@)
        } else {
            None
        },
    }
}

/// Classify the cursor within one `t(...)` call: on the callee name, in the
/// key literal, in the second argument, or outside all of them. The first
/// argument's unquoted text is carried along when it is a string literal.
pub open spec fn sp_analyze_t_call(n: TsNode, row: int, col: int) -> CpModel {
    let name_node = sp_t_name_node(n);
    if name_node is Some && sp_in_range(row, col, name_node->0) {
        CpModel::InFunctionName
    } else {
        match sp_child_by_field(n.children@, "arguments"@) {
            None => CpModel::OutsideTFunction,
            Some(args) => {
                let a0 = sp_nth_named(args.children@, 0);
                let a1 = sp_nth_named(args.children@, 1);
                let key = match a0 {
                    Some(arg) => if arg.kind@ == "string"@ {
                        Some(sp_unquote(arg.text@))
                    } else {
                        None
                    },
                    None => None,
                };
                if a0 is Some && sp_in_range(row, col, a0->0) {
                    CpModel::InFirstParam { translation_key: key }
                } else if a1 is Some && sp_in_range(row, col, a1->0) {
                    sp_analyze_second(a1->0, row, col, key)
                } else {
                    CpModel::OutsideTFunction
                }
            },
        }
    }
}

/// Classify the cursor within the second argument: an empty object, a
/// property key span, a property value span, or the object body.
pub open spec fn sp_analyze_second(
    n: TsNode,
    row: int,
    col: int,
    key: Option<Seq<char>>,
) -> CpModel {
    if n.kind@ == "object"@ || n.kind@ == "object_pattern"@ {
        if sp_named_count(n.children@) == 0 {
            CpModel::InSecondParam { translation_key: key, position: SpModel::EmptyObject }
        } else {
            sp_scan_props(n.children@, row, col, key)
        }
    } else {
        CpModel::InSecondParam { translation_key: key, position: SpModel::InObject }
    }
}

pub open spec fn sp_named_count(children: Seq<TsNode>) -> nat
    decreases children.len(),
{
    if children.len() == 0 {
        0
    } else {
        (if children[0].named {
            1nat
        } else {
            0nat
        }) + sp_named_count(children.drop_first())
    }
}

pub open spec fn sp_scan_props(
    children: Seq<TsNode>,
    row: int,
    col: int,
    key: Option<Seq<char>>,
) -> CpModel
    decreases children.len(),
{
    if children.len() == 0 {
        CpModel::InSecondParam { translation_key: key, position: SpModel::InObject }
    } else {
        let prop = children[0];
        if prop.named && sp_in_range(row, col, prop) {
            let kf = sp_child_by_field(prop.children@, "key"@);
            let vf = sp_child_by_field(prop.children@, "value"@);
            if kf is Some && sp_in_range(row, col, kf->0) {
                CpModel::InSecondParam {
                    translation_key: key,
                    position: SpModel::InKey(kf->0.text@),
                }
            } else if vf is Some && sp_in_range(row, col, vf->0) {
                let ktext = match kf {
                    Some(k) => k.text@,
                    None => Seq::empty(),
                };
                CpModel::InSecondParam { translation_key: key, position: SpModel::InValue(ktext) }
            } else {
                sp_scan_props(children.drop_first(), row, col, key)
            }
        } else {
            sp_scan_props(children.drop_first(), row, col, key)
        }
    }
}

/// The first in-range `t(...)` call of the tree together with its
/// classification, scanning named children in preorder; a call whose
/// classification is outside lets the scan go on with later siblings.
pub open spec fn sp_locate_call(n: TsNode, row: int, col: int) -> Option<(TsNode, CpModel)>
    decreases n,
{
    if sp_is_t_call(n) && sp_in_range(row, col, n) {
        Some((n, sp_analyze_t_call(n, row, col)))
    } else {
        sp_locate_children(n.children@, row, col)
    }
}

pub open spec fn sp_locate_children(children: Seq<TsNode>, row: int, col: int) -> Option<
    (TsNode, CpModel),
>
    decreases children,
{
    if children.len() == 0 {
        None
    } else {
        let r0 = if children[0].named {
            sp_locate_call(children[0], row, col)
        } else {
            None
        };
        match r0 {
            Some(p) => if !(p.1 is OutsideTFunction) {
                Some(p)
            } else {
                sp_locate_children(children.drop_first(), row, col)
            },
            None => sp_locate_children(children.drop_first(), row, col),
        }
    }
}

/// Find the first in-range `t(...)` call and classify the cursor within it.
pub fn locate_t_call<'a>(node: &'a TsNode, row: usize, col: usize) -> (r: Option<
    (&'a TsNode, CursorPosition),
>)
    ensures
        match r {
            Some(p) => sp_locate_call(*node, row as int, col as int) == Some((*p.0, p.1@)),
            None => sp_locate_call(*node, row as int, col as int) is None,
        },
    decreases *node, 0int,
{
    if is_t_call(node) && point_in_range(row, col, node) {
        Some((node, analyze_t_call(node, row, col)))
    } else {
        let r = locate_in_children(&node.children, 0, row, col);
        proof {
            assert(node.children@.skip(0) =~= node.children@);
        }
        r
    }
}

fn locate_in_children<'a>(children: &'a Vec<TsNode>, i: usize, row: usize, col: usize) -> (r:
    Option<(&'a TsNode, CursorPosition)>)
    requires
        i <= children@.len(),
    ensures
        match r {
            Some(p) => sp_locate_children(children@.skip(i as int), row as int, col as int)
                == Some((*p.0, p.1@)),
            None => sp_locate_children(children@.skip(i as int), row as int, col as int) is None,
        },
    decreases children@, children@.len() - i,
{
    broadcast use vstd::seq::axiom_seq_index_decreases;

    let ghost tail = children@.skip(i as int);
    if i >= children.len() {
        proof {
            assert(tail =~= Seq::<TsNode>::empty());
        }
        None
    } else {
        proof {
            assert(tail[0] == children@[i as int]);
            assert(tail.drop_first() =~= children@.skip(i + 1));
        }
        if children[i].named {
            match locate_t_call(&children[i], row, col) {
                Some(p) => {
                    if !(matches!(p.1, CursorPosition::OutsideTFunction)) {
                        Some(p)
                    } else {
                        locate_in_children(children, i + 1, row, col)
                    }
                },
                None => locate_in_children(children, i + 1, row, col),
            }
        } else {
            locate_in_children(children, i + 1, row, col)
        }
    }
}

/// The two walks agree: what [`sp_find_t`] classifies is exactly the
/// classification carried by the call [`sp_locate_call`] yields, and a
/// cursor outside every call is outside for both.
pub proof fn lemma_locate_agrees_with_find(n: TsNode, row: int, col: int)
    ensures
        sp_find_t(n, row, col) == (match sp_locate_call(n, row, col) {
            Some(p) => p.1,
            None => CpModel::OutsideTFunction,
        }),
    decreases n,
{
    if sp_is_t_call(n) && sp_in_range(row, col, n) {
    } else {
        lemma_locate_agrees_with_find_children(n.children@, row, col);
    }
}

pub proof fn lemma_locate_agrees_with_find_children(children: Seq<TsNode>, row: int, col: int)
    ensures
        sp_find_children(children, row, col) == (match sp_locate_children(children, row, col) {
            Some(p) => p.1,
            None => CpModel::OutsideTFunction,
        }),
        match sp_locate_children(children, row, col) {
            Some(p) => !(p.1 is OutsideTFunction),
            None => true,
        },
    decreases children,
{
    broadcast use vstd::seq::axiom_seq_index_decreases;

    if children.len() > 0 {
        if children[0].named {
            lemma_locate_agrees_with_find(children[0], row, col);
        }
        lemma_locate_agrees_with_find_children(children.drop_first(), row, col);
    }
}

/// The error text reported when the host source cannot be parsed.
pub open spec fn host_parse_error_text() -> Seq<char> {
    "failed to parse host source"@
}

/// The locator: holds the host source, the cursor, and the parsed tree.
pub struct TFunctionParser {
    pub code: String,
    pub cursor: Position,
    pub tree: TsNode,
}

impl TFunctionParser {
    /// Parse typescript host source for cursor analysis.
    pub fn new(code: String, cursor: Position) -> (r: Result<TFunctionParser, String>)
        ensures
            match r {
                Ok(p) => ts_tree(code@, false) == Some(p.tree) && p.cursor == cursor && p.code@
                    == code@,
                Err(e) => ts_tree(code@, false) is None && e@ == host_parse_error_text(),
            },
    {
        Self::new_for_variant(code, cursor, false)
    }

    /// Parse host source in the given language variant (typescript or tsx).
    pub fn new_for_variant(code: String, cursor: Position, tsx: bool) -> (r: Result<
        TFunctionParser,
        String,
    >)
        ensures
            match r {
                Ok(p) => ts_tree(code@, tsx) == Some(p.tree) && p.cursor == cursor && p.code@
                    == code@,
                Err(e) => ts_tree(code@, tsx) is None && e@ == host_parse_error_text(),
            },
    {
        match parse_host_source(code.as_str(), tsx) {
            Some(tree) => Ok(TFunctionParser { code, cursor, tree }),
            None => Err(String::from_str("failed to parse host source")),
        }
    }

    /// Classify the cursor's position among the `t(...)` calls of the tree.
    pub fn analyze(&self) -> (r: CursorPosition)
        ensures
            r@ == sp_find_t(self.tree, self.cursor.line as int, self.cursor.character as int),
    {
        find_t_function_call(&self.tree, self.cursor.line as usize, self.cursor.character as usize)
    }
}

/// Whether the cursor lies in the node's span.
pub fn point_in_range(row: usize, col: usize, n: &TsNode) -> (r: bool)
    ensures
        r == sp_in_range(row as int, col as int, *n),
{
    (n.start_row < row || (n.start_row == row && n.start_column <= col)) && (row < n.end_row || (row
        == n.end_row && col <= n.end_column))
}

/// The first child filling field `f`.
pub fn child_by_field<'a>(children: &'a Vec<TsNode>, i: usize, f: &str) -> (r: Option<&'a TsNode>)
    requires
        i <= children@.len(),
    ensures
        match r {
            Some(c) => sp_child_by_field(children@.skip(i as int), f@) == Some(*c),
            None => sp_child_by_field(children@.skip(i as int), f@) is None,
        },
    decreases children@.len() - i,
{
    let ghost tail = children@.skip(i as int);
    if i >= children.len() {
        proof {
            assert(tail =~= Seq::<TsNode>::empty());
        }
        None
    } else {
        proof {
            assert(tail[0] == children@[i as int]);
            assert(tail.drop_first() =~= children@.skip(i + 1));
        }
        let matches_field = match &children[i].field {
            Some(name) => str_eq(name.as_str(), f),
            None => false,
        };
        if matches_field {
            Some(&children[i])
        } else {
            child_by_field(children, i + 1, f)
        }
    }
}

/// The `k`-th named child.
pub fn nth_named<'a>(children: &'a Vec<TsNode>, i: usize, k: usize) -> (r: Option<&'a TsNode>)
    requires
        i <= children@.len(),
    ensures
        match r {
            Some(c) => sp_nth_named(children@.skip(i as int), k as int) == Some(*c),
            None => sp_nth_named(children@.skip(i as int), k as int) is None,
        },
    decreases children@.len() - i,
{
    let ghost tail = children@.skip(i as int);
    if i >= children.len() {
        proof {
            assert(tail =~= Seq::<TsNode>::empty());
        }
        None
    } else {
        proof {
            assert(tail[0] == children@[i as int]);
            assert(tail.drop_first() =~= children@.skip(i + 1));
        }
        if children[i].named {
            if k == 0 {
                Some(&children[i])
            } else {
                nth_named(children, i + 1, k - 1)
            }
        } else {
            nth_named(children, i + 1, k)
        }
    }
}

/// Whether any named child exists.
pub fn has_named_child(children: &Vec<TsNode>, i: usize) -> (r: bool)
    requires
        i <= children@.len(),
    ensures
        r == (sp_named_count(children@.skip(i as int)) > 0),
    decreases children@.len() - i,
{
    let ghost tail = children@.skip(i as int);
    if i >= children.len() {
        proof {
            assert(tail =~= Seq::<TsNode>::empty());
        }
        false
    } else {
        proof {
            assert(tail[0] == children@[i as int]);
            assert(tail.drop_first() =~= children@.skip(i + 1));
        }
        if children[i].named {
            true
        } else {
            has_named_child(children, i + 1)
        }
    }
}

/// Strip quote characters from both ends of a node's text.
pub fn unquote_string(s: &str) -> (r: String)
    ensures
        r@ == sp_unquote(s@),
{
    let v = crate::text::chars_of(s);
    let n = v.len();
    let mut start: usize = 0;
    while start < n && is_quote_exec(v[start])
        invariant
            start <= n,
            n == v@.len(),
            forall|k: int| 0 <= k < start ==> is_quote(#[trigger] v@[k]),
        decreases n - start,
    {
        start = start + 1;
    }
    proof {
        lemma_unquote_start_skip(v@, start as int);
        if start < n {
            assert(unquote_start(v@.skip(start as int)) == v@.skip(start as int)) by {
                assert(!is_quote(v@.skip(start as int)[0]));
            }
        } else {
            assert(v@.skip(start as int) =~= Seq::<char>::empty());
        }
    }
    let mut end: usize = n;
    while end > start && is_quote_exec(v[end - 1])
        invariant
            start <= end <= n,
            n == v@.len(),
            forall|k: int| end <= k < n ==> is_quote(#[trigger] v@[k]),
        decreases end,
    {
        end = end - 1;
    }
    let ghost tail = v@.skip(start as int);
    proof {
        assert(forall|k: int| end - start <= k < tail.len() ==> is_quote(#[trigger] tail[k]));
        lemma_unquote_end_take(tail, end - start);
        if end > start {
            assert(unquote_end(tail.take(end - start)) == tail.take(end - start)) by {
                assert(tail.take(end - start).last() == v@[end - 1]);
                assert(!is_quote(v@[end - 1]));
            }
        } else {
            assert(tail.take(end - start) =~= Seq::<char>::empty());
        }
    }
    let mut out: Vec<char> = Vec::new();
    let mut i: usize = start;
    while i < end
        invariant
            start <= i <= end <= n,
            n == v@.len(),
            out@ == v@.subrange(start as int, i as int),
        decreases end - i,
    {
        out.push(v[i]);
        i = i + 1;
        proof {
            assert(out@ =~= v@.subrange(start as int, i as int));
        }
    }
    proof {
        assert(out@ =~= tail.take(end - start));
    }
    crate::text::string_from_chars(&out)
}

fn is_quote_exec(c: char) -> (r: bool)
    ensures
        r == is_quote(c),
{
    c == '"' || c == '\'' || c == '`'
}

proof fn lemma_unquote_start_skip(s: Seq<char>, i: int)
    requires
        0 <= i <= s.len(),
        forall|k: int| 0 <= k < i ==> is_quote(#[trigger] s[k]),
    ensures
        unquote_start(s) == unquote_start(s.skip(i)),
    decreases i,
{
    if i > 0 {
        assert(s.len() > 0 && is_quote(s[0]));
        assert(s.drop_first() =~= s.skip(1));
        lemma_unquote_start_skip(s.skip(1), i - 1);
        assert(s.skip(1).skip(i - 1) =~= s.skip(i));
    } else {
        assert(s.skip(0) =~= s);
    }
}

proof fn lemma_unquote_end_take(s: Seq<char>, i: int)
    requires
        0 <= i <= s.len(),
        forall|k: int| i <= k < s.len() ==> is_quote(#[trigger] s[k]),
    ensures
        unquote_end(s) == unquote_end(s.take(i)),
    decreases s.len() - i,
{
    if i < s.len() {
        assert(s.len() > 0 && is_quote(s.last()));
        assert(s.drop_last() =~= s.take(s.len() - 1));
        lemma_unquote_end_take(s.take(s.len() - 1), i);
        assert(s.take(s.len() - 1).take(i) =~= s.take(i));
    } else {
        assert(s.take(i) =~= s);
    }
}

/// The callee name node of a call, if its shape is one the locator knows.
fn t_name_node<'a>(n: &'a TsNode) -> (r: Option<&'a TsNode>)
    ensures
        match r {
            Some(f) => sp_t_name_node(*n) == Some(*f),
            None => sp_t_name_node(*n) is None,
        },
{
    proof {
        assert(n.children@.skip(0) =~= n.children@);
    }
    match child_by_field(&n.children, 0, "function") {
        None => None,
        Some(f) => {
            if str_eq(f.kind.as_str(), "identifier") {
                Some(f)
            } else if str_eq(f.kind.as_str(), "member_expression") {
                proof {
                    assert(f.children@.skip(0) =~= f.children@);
                }
                child_by_field(&f.children, 0, "property")
            } else {
                None
            }
        },
    }
}

/// Whether this node is a `t(...)` call.
pub fn is_t_call(n: &TsNode) -> (r: bool)
    ensures
        r == sp_is_t_call(*n),
{
    if !str_eq(n.kind.as_str(), "call_expression") {
        return false;
    }
    proof {
        assert(n.children@.skip(0) =~= n.children@);
    }
    match child_by_field(&n.children, 0, "function") {
        None => false,
        Some(f) => {
            if str_eq(f.kind.as_str(), "identifier") && str_eq(f.text.as_str(), "t") {
                true
            } else if str_eq(f.kind.as_str(), "member_expression") {
                proof {
                    assert(f.children@.skip(0) =~= f.children@);
                }
                match child_by_field(&f.children, 0, "property") {
                    Some(p) => str_eq(p.text.as_str(), "t"),
                    None => false,
                }
            } else {
                false
            }
        },
    }
}

/// Walk the tree for the first `t(...)` call containing the cursor.
fn find_t_function_call(node: &TsNode, row: usize, col: usize) -> (r: CursorPosition)
    ensures
        r@ == sp_find_t(*node, row as int, col as int),
    decreases *node, 0int,
{
    if is_t_call(node) && point_in_range(row, col, node) {
        analyze_t_call(node, row, col)
    } else {
        let r = find_in_children(&node.children, 0, row, col);
        proof {
            assert(node.children@.skip(0) =~= node.children@);
        }
        r
    }
}

fn find_in_children(children: &Vec<TsNode>, i: usize, row: usize, col: usize) -> (r: CursorPosition)
    requires
        i <= children@.len(),
    ensures
        r@ == sp_find_children(children@.skip(i as int), row as int, col as int),
    decreases children@, children@.len() - i,
{
    broadcast use vstd::seq::axiom_seq_index_decreases;

    let ghost tail = children@.skip(i as int);
    if i >= children.len() {
        proof {
            assert(tail =~= Seq::<TsNode>::empty());
        }
        CursorPosition::OutsideTFunction
    } else {
        proof {
            assert(tail[0] == children@[i as int]);
            assert(tail.drop_first() =~= children@.skip(i + 1));
        }
        if children[i].named {
            let r0 = find_t_function_call(&children[i], row, col);
            if !(matches!(r0, CursorPosition::OutsideTFunction)) {
                r0
            } else {
                find_in_children(children, i + 1, row, col)
            }
        } else {
            find_in_children(children, i + 1, row, col)
        }
    }
}

/// Classify the cursor within one `t(...)` call.
fn analyze_t_call(node: &TsNode, row: usize, col: usize) -> (r: CursorPosition)
    ensures
        r@ == sp_analyze_t_call(*node, row as int, col as int),
{
    let on_name = match t_name_node(node) {
        Some(f) => point_in_range(row, col, f),
        None => false,
    };
    if on_name {
        return CursorPosition::InFunctionName;
    }
    proof {
        assert(node.children@.skip(0) =~= node.children@);
    }
    match child_by_field(&node.children, 0, "arguments") {
        None => CursorPosition::OutsideTFunction,
        Some(args) => {
            proof {
                assert(args.children@.skip(0) =~= args.children@);
            }
            let a0 = nth_named(&args.children, 0, 0);
            let translation_key: Option<String> = match a0 {
                Some(arg) => {
                    if str_eq(arg.kind.as_str(), "string") {
                        Some(unquote_string(arg.text.as_str()))
                    } else {
                        None
                    }
                },
                None => None,
            };
            match a0 {
                Some(arg) => {
                    if point_in_range(row, col, arg) {
                        return CursorPosition::InFirstParam { translation_key };
                    }
                    let a1 = nth_named(&args.children, 0, 1);
                    match a1 {
                        Some(second) => {
                            if point_in_range(row, col, second) {
                                analyze_second_param(second, row, col, translation_key)
                            } else {
                                CursorPosition::OutsideTFunction
                            }
                        },
                        None => CursorPosition::OutsideTFunction,
                    }
                },
                None => {
                    let a1 = nth_named(&args.children, 0, 1);
                    match a1 {
                        Some(second) => {
                            if point_in_range(row, col, second) {
                                analyze_second_param(second, row, col, translation_key)
                            } else {
                                CursorPosition::OutsideTFunction
                            }
                        },
                        None => CursorPosition::OutsideTFunction,
                    }
                },
            }
        },
    }
}

/// Classify the cursor within the second argument.
fn analyze_second_param(node: &TsNode, row: usize, col: usize, translation_key: Option<String>) -> (
    r: CursorPosition)
    ensures
        r@ == sp_analyze_second(*node, row as int, col as int, opt_str_view(translation_key)),
{
    proof {
        assert(node.children@.skip(0) =~= node.children@);
    }
    if str_eq(node.kind.as_str(), "object") || str_eq(node.kind.as_str(), "object_pattern") {
        if !has_named_child(&node.children, 0) {
            CursorPosition::InSecondParam {
                translation_key,
                position: SecondParamPosition::EmptyObject,
            }
        } else {
            scan_props(&node.children, 0, row, col, translation_key)
        }
    } else {
        CursorPosition::InSecondParam { translation_key, position: SecondParamPosition::InObject }
    }
}

fn scan_props(
    children: &Vec<TsNode>,
    i: usize,
    row: usize,
    col: usize,
    translation_key: Option<String>,
) -> (r: CursorPosition)
    requires
        i <= children@.len(),
    ensures
        r@ == sp_scan_props(
            children@.skip(i as int),
            row as int,
            col as int,
            opt_str_view(translation_key),
        ),
    decreases children@.len() - i,
{
    let ghost tail = children@.skip(i as int);
    if i >= children.len() {
        proof {
            assert(tail =~= Seq::<TsNode>::empty());
        }
        CursorPosition::InSecondParam { translation_key, position: SecondParamPosition::InObject }
    } else {
        proof {
            assert(tail[0] == children@[i as int]);
            assert(tail.drop_first() =~= children@.skip(i + 1));
        }
        let prop = &children[i];
        if prop.named && point_in_range(row, col, prop) {
            proof {
                assert(prop.children@.skip(0) =~= prop.children@);
            }
            let kf = child_by_field(&prop.children, 0, "key");
            let in_key = match kf {
                Some(k) => point_in_range(row, col, k),
                None => false,
            };
            if in_key {
                let key_text = match kf {
                    Some(k) => k.text.clone(),
                    None => String::new(),
                };
                return CursorPosition::InSecondParam {
                    translation_key,
                    position: SecondParamPosition::InKey(key_text),
                };
            }
            let vf = child_by_field(&prop.children, 0, "value");
            let in_value = match vf {
                Some(v) => point_in_range(row, col, v),
                None => false,
            };
            if in_value {
                let key_text = match kf {
                    Some(k) => k.text.clone(),
                    None => String::new(),
                };
                return CursorPosition::InSecondParam {
                    translation_key,
                    position: SecondParamPosition::InValue(key_text),
                };
            }
            scan_props(children, i + 1, row, col, translation_key)
        } else {
            scan_props(children, i + 1, row, col, translation_key)
        }
    }
}

} // verus!
