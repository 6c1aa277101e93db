//! Tests for the call-site locator over host typescript source.
use typed_key::locate::{CursorPosition, Position, SecondParamPosition, TFunctionParser};

#[test]
fn test_cursor_outside_t_function() {
    let code = r#"
            const x = 10;
            function test() {
                console.log("Hello, world!");
            }
        "#;
    let cursor = Position {
        line: 2,
        character: 10,
    };
    let parser = TFunctionParser::new(code.to_string(), cursor).unwrap();
    let result = parser.analyze();
    assert_eq!(result, CursorPosition::OutsideTFunction);
}

#[test]
fn test_cursor_in_first_param() {
    let code = r#"t("some.key", { dynamicKey: "value" });"#;
    let cursor = Position {
        line: 0,
        character: 5,
    };
    let parser = TFunctionParser::new(code.to_string(), cursor).unwrap();
    let result = parser.analyze();
    assert_eq!(
        result,
        CursorPosition::InFirstParam {
            translation_key: Some("some.key".to_string()),
        }
    );
}

#[test]
fn test_cursor_in_second_param_empty_object() {
    let code = r#"t("some.key", {});"#;
    let cursor = Position {
        line: 0,
        character: 15,
    };
    let parser = TFunctionParser::new(code.to_string(), cursor).unwrap();
    let result = parser.analyze();
    assert_eq!(
        result,
        CursorPosition::InSecondParam {
            translation_key: Some("some.key".to_string()),
            position: SecondParamPosition::EmptyObject,
        }
    );
}

#[test]
fn test_cursor_in_second_param_in_key() {
    let code = r#"t("some.key", { dynamicKey: "value" });"#;
    let key_start = code.find("dynamicKey").unwrap();
    let key_end = key_start + "dynamicKey".len();

    for pos in key_start..key_end {
        let cursor = Position {
            line: 0,
            character: pos as u32,
        };
        let parser = TFunctionParser::new(code.to_string(), cursor).unwrap();
        let result = parser.analyze();
        assert_eq!(
            result,
            CursorPosition::InSecondParam {
                translation_key: Some("some.key".to_string()),
                position: SecondParamPosition::InKey("dynamicKey".to_string()),
            }
        );
    }
}

#[test]
fn cursor_in_property_value_names_its_key() {
    let code = r#"t("some.key", { dynamicKey: "value" });"#;
    let value_start = code.find("\"value\"").unwrap() + 1;
    let cursor = Position {
        line: 0,
        character: value_start as u32,
    };
    let parser = TFunctionParser::new(code.to_string(), cursor).unwrap();
    let result = parser.analyze();
    assert_eq!(
        result,
        CursorPosition::InSecondParam {
            translation_key: Some("some.key".to_string()),
            position: SecondParamPosition::InValue("dynamicKey".to_string()),
        }
    );
}

#[test]
fn member_access_lookup_is_recognized() {
    let code = r#"i18n.t("some.key", {});"#;
    let cursor = Position {
        line: 0,
        character: 10,
    };
    let parser = TFunctionParser::new(code.to_string(), cursor).unwrap();
    let result = parser.analyze();
    assert_eq!(
        result,
        CursorPosition::InFirstParam {
            translation_key: Some("some.key".to_string()),
        }
    );
}

#[test]
fn cursor_on_the_callee_is_in_function_name() {
    let code = r#"t("some.key", {});"#;
    let cursor = Position {
        line: 0,
        character: 0,
    };
    let parser = TFunctionParser::new(code.to_string(), cursor).unwrap();
    assert_eq!(parser.analyze(), CursorPosition::InFunctionName);

    let code = r#"i18n.t("some.key", {});"#;
    let cursor = Position {
        line: 0,
        character: 5,
    };
    let parser = TFunctionParser::new(code.to_string(), cursor).unwrap();
    assert_eq!(parser.analyze(), CursorPosition::InFunctionName);
}

#[test]
fn tsx_variant_parses_jsx_source() {
    let code = "const v = <div>{t(\"some.key\", {})}</div>;";
    let idx = code.find("some").unwrap();
    let cursor = Position {
        line: 0,
        character: idx as u32,
    };
    let parser = TFunctionParser::new_for_variant(code.to_string(), cursor, true).unwrap();
    let result = parser.analyze();
    assert_eq!(
        result,
        CursorPosition::InFirstParam {
            translation_key: Some("some.key".to_string()),
        }
    );
}
