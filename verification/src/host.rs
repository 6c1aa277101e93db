//! Plain-data view of a parsed host source file. The call-site locator and
//! the diagnostics walk work on [`TsNode`] values, so everything they decide
//! is verified over the tree as data; only the parse itself is delegated to
//! tree-sitter behind a trusted boundary.
use vstd::prelude::*;

verus! {

/// One node of the host-language syntax tree as plain data: the grammar
/// kind, the named flag, the field name this node fills in its parent, the
/// row/column span, the source text it covers, and its children in order.
pub struct TsNode {
    pub kind: String,
    pub named: bool,
    pub field: Option<String>,
    pub start_row: usize,
    pub start_column: usize,
    pub end_row: usize,
    pub end_column: usize,
    pub text: String,
    pub children: Vec<TsNode>,
}

/// The tree that parsing a host source yields: tree-sitter's parse is a
/// function of the source text and the language flag alone.
pub uninterp spec fn ts_tree(source: Seq<char>, tsx: bool) -> Option<TsNode>;

#[verifier::external_type_specification]
#[verifier::external_body]
pub struct ExTsSyntaxNode<'a>(tree_sitter::Node<'a>);

/// Relies on tree-sitter's node accessors (kind, is_named, start_position,
/// end_position, utf8_text, child, child_count, field_name_for_child):
/// copies one node and its children into plain data, one for one. Serves
/// only [`parse_host_source`] below.
#[verifier::external_body]
fn convert_node(node: tree_sitter::Node<'_>, src: &str) -> TsNode {
    let mut children = Vec::new();
    for i in 0..node.child_count() {
        let mut c = convert_node(node.child(i).unwrap(), src);
        c.field = node.field_name_for_child(i).map(|f| f.to_string());
        children.push(c);
    }
    let (sp, ep) = (node.start_position(), node.end_position());
    TsNode {
        kind: node.kind().to_string(), named: node.is_named(), field: None,
        start_row: sp.row, start_column: sp.column, end_row: ep.row, end_column: ep.column,
        text: node.utf8_text(src.as_bytes()).unwrap_or("").to_string(), children,
    }
}

/// Relies on tree-sitter's `Parser::set_language` and `Parser::parse` with
/// the typescript and tsx grammars of tree-sitter-typescript: parses the
/// source and hands its whole tree over as plain data. The result is the
/// same tree for the same source and flag.
#[verifier::external_body]
pub fn parse_host_source(source: &str, tsx: bool) -> (r: Option<TsNode>)
    ensures
        r == ts_tree(source@, tsx),
{
    let mut parser = tree_sitter::Parser::new();
    let language: tree_sitter::Language = if tsx {
        tree_sitter_typescript::LANGUAGE_TSX.into()
    } else {
        tree_sitter_typescript::LANGUAGE_TYPESCRIPT.into()
    };
    parser.set_language(&language).ok()?;
    let tree = parser.parse(source, None)?;
    Some(convert_node(tree.root_node(), source))
}

} // verus!
