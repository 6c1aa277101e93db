//! Tests for the message lexer, parser and extractor.
use typed_key::ast::AstNode;
use typed_key::extract::{
    collect_variables_and_options, get_select_options, is_select_variable,
    traverse_ast_for_variables,
};
use typed_key::lex::{Lexer, Token};
use typed_key::parse::Parser;

fn parse(message: &str) -> AstNode {
    Parser::new(message).parse().expect("message should parse")
}

#[test]
fn lexes_text_variable_text() {
    let mut lexer = Lexer::new("Hello {name}!");
    assert_eq!(lexer.next_token(), Some(Token::Text("Hello ".to_string())));
    assert_eq!(lexer.next_token(), Some(Token::Variable("{name}".to_string())));
    assert_eq!(lexer.next_token(), Some(Token::Text("!".to_string())));
    assert_eq!(lexer.next_token(), None);
}

#[test]
fn lexes_plural_and_select_spans() {
    let mut lexer = Lexer::new("{count, plural, one {x} other {y}}");
    assert_eq!(
        lexer.next_token(),
        Some(Token::Plural("{count, plural, one {x} other {y}}".to_string()))
    );
    assert_eq!(lexer.next_token(), None);

    let mut lexer = Lexer::new("{role, select, admin{Admin}}");
    assert_eq!(
        lexer.next_token(),
        Some(Token::Select("{role, select, admin{Admin}}".to_string()))
    );
    assert_eq!(lexer.next_token(), None);
}

#[test]
fn lexes_html_tags() {
    let mut lexer = Lexer::new("<b>bold</b>");
    assert_eq!(lexer.next_token(), Some(Token::HtmlTag("<b>".to_string())));
    assert_eq!(lexer.next_token(), Some(Token::Text("bold".to_string())));
    assert_eq!(lexer.next_token(), Some(Token::HtmlTag("</b>".to_string())));
    assert_eq!(lexer.next_token(), None);
}

#[test]
fn unterminated_html_span_is_truncated() {
    // The input ends inside the tag: the token is kept, cut at end of input.
    let mut lexer = Lexer::new("hi <b");
    assert_eq!(lexer.next_token(), Some(Token::Text("hi ".to_string())));
    assert_eq!(lexer.next_token(), Some(Token::HtmlTag("<b".to_string())));
    assert_eq!(lexer.next_token(), None);
}

#[test]
fn parses_text_variable_text() {
    // A simple interpolation: text, variable, text.
    let ast = parse("Hello {name}!");
    let expected = AstNode::Root(vec![
        AstNode::Text("Hello ".to_string()),
        AstNode::Variable("name".to_string()),
        AstNode::Text("!".to_string()),
    ]);
    assert_eq!(ast, expected);
}

#[test]
fn extracts_single_variable_and_no_options() {
    let ast = parse("Hello {name}!");
    let (variables, select_options) = collect_variables_and_options(&ast);
    assert_eq!(variables, vec!["name".to_string()]);
    assert!(select_options.is_empty());
}

#[test]
fn parses_plural_with_nested_variable() {
    let ast = parse("{count, plural, one {1 item} other {{count} items}}");
    let expected = AstNode::Root(vec![AstNode::Plural {
        variable: "count".to_string(),
        options: vec![
            ("one".to_string(), vec![AstNode::Text("1 item".to_string())]),
            (
                "other".to_string(),
                vec![
                    AstNode::Variable("count".to_string()),
                    AstNode::Text(" items".to_string()),
                ],
            ),
        ],
    }]);
    assert_eq!(ast, expected);

    let (variables, _) = collect_variables_and_options(&ast);
    assert_eq!(variables, vec!["count".to_string()]);
}

#[test]
fn extraction_is_deterministic_across_calls() {
    // Two full parse-and-extract runs of the same message agree exactly.
    let message = "{role, select, admin{Admin {name}} user{User}} and {count, plural, one {x} other {y}}";
    let first = collect_variables_and_options(&parse(message));
    let second = collect_variables_and_options(&parse(message));
    assert_eq!(first.0, second.0);
    assert_eq!(first.1, second.1);
}

#[test]
fn extracts_variables_nested_in_option_bodies() {
    let ast = parse("{role, select, admin{Hello {name}} user{User}}");
    let mut variables = Vec::new();
    traverse_ast_for_variables(&ast, &mut variables);
    assert_eq!(variables, vec!["role".to_string(), "name".to_string()]);
}

#[test]
fn select_options_are_recorded_per_variable() {
    let ast = parse("{role, select, admin{Admin} user{User}}");
    let (variables, select_options) = collect_variables_and_options(&ast);
    assert_eq!(variables, vec!["role".to_string()]);
    assert_eq!(
        select_options,
        vec![("role".to_string(), vec!["admin".to_string(), "user".to_string()])]
    );
    assert!(is_select_variable(&ast, "role"));
    assert!(!is_select_variable(&ast, "name"));
    assert_eq!(
        get_select_options(&ast, "role"),
        Some(vec!["admin".to_string(), "user".to_string()])
    );
    assert_eq!(get_select_options(&ast, "other"), None);
}

#[test]
fn variable_name_is_trimmed_in_placeholder_header() {
    let ast = parse("{ count , plural, one {x} other {y}}");
    match ast {
        AstNode::Root(children) => match &children[0] {
            AstNode::Plural { variable, .. } => assert_eq!(variable, "count"),
            other => panic!("expected a plural node, got {:?}", other),
        },
        other => panic!("expected a root node, got {:?}", other),
    }
}

#[test]
fn malformed_plural_header_is_an_error() {
    // Fewer than two commas inside a plural span: a recoverable error.
    let result = Parser::new("{count, plural}").parse();
    assert_eq!(result, Err("malformed message structure".to_string()));
}

#[test]
fn unbalanced_brace_is_an_error() {
    let result = Parser::new("{").parse();
    assert_eq!(result, Err("malformed message structure".to_string()));
}

#[test]
fn stray_closing_tag_ends_parsing() {
    let ast = parse("</b>after");
    assert_eq!(ast, AstNode::Root(vec![]));
}

#[test]
fn html_tag_children_are_nested() {
    let ast = parse("<b>bold {x}</b>tail");
    let expected = AstNode::Root(vec![
        AstNode::HtmlTag {
            name: "b".to_string(),
            children: vec![
                AstNode::Text("bold ".to_string()),
                AstNode::Variable("x".to_string()),
            ],
        },
        AstNode::Text("tail".to_string()),
    ]);
    assert_eq!(ast, expected);
}

#[test]
fn plain_text_mentioning_plural_is_misclassified_by_design() {
    // The lexer classifies a balanced-brace span by substring containment,
    // so a variable span whose text contains the word `plural` is taken as
    // a plural placeholder and then fails to parse as one.
    let result = Parser::new("{pluralityVar}").parse();
    assert_eq!(result, Err("malformed message structure".to_string()));
}
