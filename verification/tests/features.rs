//! Tests for the diagnostics, completion, code action and documentation
//! engines, and for the registry and the definitions generator.
use typed_key::action::{build_fix, FixEdit};
use typed_key::complete::{handle_completion, CompletionItemKind};
use typed_key::diagnostics::{generate_diagnostics, DiagnosticSeverity, MissingVariableDiagnosticData};
use typed_key::docs::TypedKeyDocs;
use typed_key::generate::{extract_params, TypeScriptGenerator};
use typed_key::host::parse_host_source;
use typed_key::locate::Position;
use typed_key::parse::Parser;
use typed_key::registry::{TranslationValue, TypedKeyTranslations};

fn greeting_registry() -> TypedKeyTranslations {
    let mut registry = TypedKeyTranslations::new();
    registry.insert(
        "greeting".to_string(),
        TranslationValue::Message(
            "Hello {name}, role: {role, select, admin{Admin} user{User}}".to_string(),
        ),
    );
    registry
}

#[test]
fn diagnose_reports_exactly_the_missing_variable() {
    let registry = greeting_registry();
    let document = r#"t("greeting", { name: "Bob" });"#;
    let tree = parse_host_source(document, false).unwrap();
    let diagnostics = generate_diagnostics(&tree, &registry);
    assert_eq!(diagnostics.len(), 1);
    let diagnostic = &diagnostics[0];
    assert_eq!(diagnostic.severity, DiagnosticSeverity::Warning);
    assert_eq!(diagnostic.data.key, "greeting");
    assert_eq!(diagnostic.data.missing_variable, "role");
    assert_eq!(
        diagnostic.message,
        "Missing required variable: role for key: greeting"
    );
    // The range is the key literal's span.
    assert_eq!(diagnostic.range.start.line, 0);
    assert_eq!(diagnostic.range.start.character, 2);
    assert_eq!(diagnostic.range.end.character, 12);
}

#[test]
fn diagnose_is_silent_when_all_variables_are_provided() {
    let registry = greeting_registry();
    let document = r#"t("greeting", { name: "Bob", role: "admin" });"#;
    let tree = parse_host_source(document, false).unwrap();
    let diagnostics = generate_diagnostics(&tree, &registry);
    assert!(diagnostics.is_empty());
}

#[test]
fn diagnose_counts_shorthand_properties_as_provided() {
    let registry = greeting_registry();
    let document = r#"t("greeting", { name, role });"#;
    let tree = parse_host_source(document, false).unwrap();
    let diagnostics = generate_diagnostics(&tree, &registry);
    assert!(diagnostics.is_empty());
}

#[test]
fn diagnose_skips_unknown_keys() {
    let registry = greeting_registry();
    let document = r#"t("missing.key", {});"#;
    let tree = parse_host_source(document, false).unwrap();
    let diagnostics = generate_diagnostics(&tree, &registry);
    assert!(diagnostics.is_empty());
}

#[test]
fn build_fix_inserts_before_the_closing_brace() {
    // An options object holding only `name: "Bob"`: the insertion text is
    // `, role: ""` placed immediately before the object's closing brace.
    let document = r#"t("greeting", { name: "Bob" });"#;
    let data = MissingVariableDiagnosticData {
        key: "greeting".to_string(),
        missing_variable: "role".to_string(),
    };
    let fix = build_fix(document, &data).unwrap().unwrap();
    let brace = document.rfind('}').unwrap();
    assert_eq!(
        fix,
        FixEdit {
            row: 0,
            column: brace,
            new_text: ", role: \"\"".to_string(),
        }
    );
}

#[test]
fn build_fix_in_empty_object_has_no_leading_comma() {
    let document = r#"t("greeting", {});"#;
    let data = MissingVariableDiagnosticData {
        key: "greeting".to_string(),
        missing_variable: "role".to_string(),
    };
    let fix = build_fix(document, &data).unwrap().unwrap();
    assert_eq!(fix.new_text, "role: \"\"");
    assert_eq!(fix.row, 0);
    assert_eq!(fix.column, document.find('}').unwrap());
}

#[test]
fn build_fix_appends_an_object_when_none_exists() {
    let document = r#"t("greeting");"#;
    let data = MissingVariableDiagnosticData {
        key: "greeting".to_string(),
        missing_variable: "role".to_string(),
    };
    let fix = build_fix(document, &data).unwrap().unwrap();
    assert_eq!(fix.new_text, ", { role: \"\" }");
    assert_eq!(fix.column, document.find(')').unwrap());
}

#[test]
fn build_fix_is_none_for_an_absent_key() {
    let document = r#"t("other", {});"#;
    let data = MissingVariableDiagnosticData {
        key: "greeting".to_string(),
        missing_variable: "role".to_string(),
    };
    assert_eq!(build_fix(document, &data).unwrap(), None);
}

#[test]
fn completion_in_empty_object_offers_both_variables() {
    // Cursor between the braces of the empty options object.
    let registry = greeting_registry();
    let document = r#"t("greeting", {})"#;
    let cursor = Position {
        line: 0,
        character: 15,
    };
    let items = handle_completion(document, cursor, &registry)
        .unwrap()
        .unwrap();
    assert_eq!(items.len(), 2);
    assert_eq!(items[0].label, "name");
    assert_eq!(items[0].kind, CompletionItemKind::Variable);
    assert_eq!(items[0].insert_text, Some("name: ".to_string()));
    assert_eq!(items[1].label, "role");
    assert_eq!(items[1].kind, CompletionItemKind::Enum);
}

#[test]
fn completion_in_key_position_offers_registry_keys() {
    let registry = greeting_registry();
    let document = r#"t("gr", {})"#;
    let cursor = Position {
        line: 0,
        character: 3,
    };
    let items = handle_completion(document, cursor, &registry)
        .unwrap()
        .unwrap();
    assert_eq!(items.len(), 1);
    assert_eq!(items[0].label, "greeting");
    assert_eq!(items[0].kind, CompletionItemKind::Constant);
    assert!(items[0].documentation.is_some());
}

#[test]
fn completion_in_value_position_offers_select_labels() {
    let registry = greeting_registry();
    let document = r#"t("greeting", { role: "x" })"#;
    let value_pos = document.find("\"x\"").unwrap() + 1;
    let cursor = Position {
        line: 0,
        character: value_pos as u32,
    };
    let items = handle_completion(document, cursor, &registry)
        .unwrap()
        .unwrap();
    assert_eq!(items.len(), 2);
    assert_eq!(items[0].label, "admin");
    assert_eq!(items[0].kind, CompletionItemKind::EnumMember);
    assert_eq!(items[1].label, "user");
}

#[test]
fn completion_outside_a_call_is_none() {
    let registry = greeting_registry();
    let document = "const x = 10;";
    let cursor = Position {
        line: 0,
        character: 3,
    };
    assert_eq!(handle_completion(document, cursor, &registry).unwrap(), None);
}

#[test]
fn documentation_renders_the_full_block() {
    let docs = TypedKeyDocs::new();
    let value = TranslationValue::Message("Hi {x}".to_string());
    let variables = vec!["x".to_string()];
    let select_options: Vec<String> = vec![];
    let rendered = docs.format_documentation("k", &value, &variables, &select_options);
    let expected = "```typescript\nt(key: 'k', params?: {\n  x: string | number;\n}): string\n```\n\n\
**Translation:**\n```i18n\nHi {x}\n```\n\n\
**Parameters:**\n- `x`: Value to interpolate.\n\n\
**Example:**\n```typescript\nt('k', { x: 'value' });\n```\n";
    assert_eq!(rendered, expected);
}

#[test]
fn documentation_types_plural_and_select_variables() {
    let docs = TypedKeyDocs::new();
    let value = TranslationValue::Message(
        "{count, plural, one {x} other {y}} {role, select, admin{A} user{U}}".to_string(),
    );
    let variables = vec!["count".to_string(), "role".to_string()];
    let select_options = vec!["admin".to_string(), "user".to_string()];
    let rendered = docs.format_documentation("k", &value, &variables, &select_options);
    assert!(rendered.contains("  count: number;"));
    assert!(rendered.contains("  role: 'admin | user';"));
    assert!(rendered.contains("- `count`: Number for plural form."));
    assert!(rendered.contains("- `role`: One of: admin, user."));
    assert!(rendered.contains("t('k', { count: 1, role: 'admin' });"));
}

#[test]
fn registry_insert_replaces_existing_keys() {
    let mut registry = TypedKeyTranslations::new();
    registry.insert("a".to_string(), TranslationValue::Message("one".to_string()));
    registry.insert("a".to_string(), TranslationValue::Message("two".to_string()));
    registry.insert("b".to_string(), TranslationValue::Inert);
    assert_eq!(registry.len(), 2);
    assert_eq!(
        registry.get("a"),
        Some(&TranslationValue::Message("two".to_string()))
    );
    assert_eq!(registry.get("b"), Some(&TranslationValue::Inert));
    assert_eq!(registry.get("c"), None);
}

#[test]
fn extract_params_types_each_placeholder() {
    let ast = Parser::new("{name} {count, plural, one {x} other {y}} {role, select, a{1} b{2}}")
        .parse()
        .unwrap();
    let params = extract_params(&ast);
    assert_eq!(
        params,
        vec![
            ("name".to_string(), "string".to_string()),
            ("count".to_string(), "number".to_string()),
            ("role".to_string(), "\"a\" | \"b\"".to_string()),
        ]
    );
}

#[test]
fn generator_renders_definitions() {
    let mut generator = TypeScriptGenerator::new();
    generator.add_translation("greeting".to_string(), "Hello {name}!".to_string());
    let rendered = generator.generate_typescript_definitions();
    assert_eq!(
        rendered,
        "export type Translations = {\n  \"greeting\": (params: { name: string }) => string,\n}\n"
    );
}

#[test]
fn format_params_of_nothing_is_the_empty_object() {
    let generator = TypeScriptGenerator::new();
    assert_eq!(generator.format_params(&vec![]), "{}");
}

#[test]
fn diagnose_sees_member_access_calls_and_nested_calls() {
    let registry = greeting_registry();
    let document = "i18n.t(\"greeting\", {});";
    let tree = parse_host_source(document, false).unwrap();
    let diagnostics = generate_diagnostics(&tree, &registry);
    assert_eq!(diagnostics.len(), 2);
    assert_eq!(diagnostics[0].data.missing_variable, "name");
    assert_eq!(diagnostics[1].data.missing_variable, "role");
}

#[test]
fn completion_in_property_key_offers_variables() {
    let registry = greeting_registry();
    let document = "t(\"greeting\", { na: \"x\" })";
    let key_pos = document.find("na:").unwrap() + 1;
    let cursor = Position {
        line: 0,
        character: key_pos as u32,
    };
    let items = handle_completion(document, cursor, &registry)
        .unwrap()
        .unwrap();
    assert_eq!(items.len(), 2);
    assert_eq!(items[0].label, "name");
    assert_eq!(items[1].label, "role");
}

#[test]
fn completion_in_non_select_value_offers_a_placeholder() {
    let registry = greeting_registry();
    let document = "t(\"greeting\", { name: \"x\" })";
    let value_pos = document.find("\"x\"").unwrap() + 1;
    let cursor = Position {
        line: 0,
        character: value_pos as u32,
    };
    let items = handle_completion(document, cursor, &registry)
        .unwrap()
        .unwrap();
    assert_eq!(items.len(), 1);
    assert_eq!(items[0].label, "value");
    assert_eq!(items[0].kind, CompletionItemKind::Value);
}

#[test]
fn hover_renders_documentation_for_known_keys_only() {
    let registry = greeting_registry();
    let text = typed_key::complete::format_hover_documentation("greeting", &registry).unwrap();
    assert!(text.contains("t(key: 'greeting', params?: {"));
    assert!(text.contains("Hello {name}, role: {role, select, admin{Admin} user{User}}"));
    assert_eq!(
        typed_key::complete::format_hover_documentation("missing", &registry),
        None
    );
}

#[test]
fn inert_registry_values_yield_no_diagnostics() {
    let mut registry = TypedKeyTranslations::new();
    registry.insert("n".to_string(), TranslationValue::Inert);
    let document = "t(\"n\", {});";
    let tree = parse_host_source(document, false).unwrap();
    assert!(generate_diagnostics(&tree, &registry).is_empty());
}

#[test]
fn completion_in_object_body_skips_provided_variables() {
    // `name` is already a property, so only `role` is offered.
    let registry = greeting_registry();
    let document = "t(\"greeting\", { name: \"Bob\" })";
    let cursor = Position {
        line: 0,
        character: document.find('}').unwrap() as u32,
    };
    let items = handle_completion(document, cursor, &registry)
        .unwrap()
        .unwrap();
    assert_eq!(items.len(), 1);
    assert_eq!(items[0].label, "role");
    assert_eq!(items[0].kind, CompletionItemKind::Enum);
}

#[test]
fn diagnose_ignores_non_literal_keys() {
    // The first argument is an identifier, not a string literal, even
    // though its text equals a registry key.
    let registry = greeting_registry();
    let document = "t(greeting, {});";
    let tree = parse_host_source(document, false).unwrap();
    assert!(generate_diagnostics(&tree, &registry).is_empty());
}
