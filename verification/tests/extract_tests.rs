use fast_i18n_scan::extract::{match_balanced_parentheses, Parser, ParserOpts};

fn get_options<'a>(
    parser: &'a Parser,
    key: &str,
) -> Option<&'a fast_i18n_scan::extract::ParseOptions> {
    parser.translations.iter().find(|(k, _)| k == key).map(|(_, o)| o)
}

#[test]
fn test_match_balanced_parentheses() {
    assert_eq!(match_balanced_parentheses("(hello)"), "(hello)");
    assert_eq!(match_balanced_parentheses("{key: 'value'}"), "{key: 'value'}");
    assert_eq!(match_balanced_parentheses("[1, 2, 3]"), "[1, 2, 3]");
    assert_eq!(match_balanced_parentheses("(nested (inner) content)"), "(nested (inner) content)");
}

#[test]
fn test_fix_string_after_reg_exp() {
    let parser = Parser::new();

    assert_eq!(parser.fix_string_after_reg_exp("'hello'", true), Some("hello".to_string()));
    assert_eq!(parser.fix_string_after_reg_exp("\"world\"", true), Some("world".to_string()));
    assert_eq!(parser.fix_string_after_reg_exp("`template`", true), Some("template".to_string()));
    assert_eq!(parser.fix_string_after_reg_exp("", true), None);
    assert_eq!(parser.fix_string_after_reg_exp("''", true), None);
}

#[test]
fn test_parser_set_and_get() {
    let mut parser = Parser::new();
    let mut options = fast_i18n_scan::extract::ParseOptions::default();
    options.default_value = Some("Hello".to_string());

    parser.set("greeting", options);
    assert!(get_options(&parser, "greeting").is_some());
    assert_eq!(
        get_options(&parser, "greeting").unwrap().default_value,
        Some("Hello".to_string())
    );
}

#[test]
fn test_parse_simple_function_call() {
    let mut parser = Parser::new();
    let content = "t('hello.world')";

    parser.parse_func_from_string_by_babel(content, ParserOpts::default());

    assert!(get_options(&parser, "hello.world").is_some());
}

#[test]
fn test_parse_function_call_with_default_value() {
    let mut parser = Parser::new();
    let content = "t('greeting', 'Hello World')";

    parser.parse_func_from_string_by_babel(content, ParserOpts::default());

    assert!(get_options(&parser, "greeting").is_some());
    let options = get_options(&parser, "greeting").unwrap();
    assert_eq!(options.default_value, Some("Hello World".to_string()));
}

#[test]
fn test_empty_key_rejected() {
    let mut parser = Parser::new();
    parser.parse_func_from_string_by_babel("t('', 'x')", ParserOpts::default());
    assert!(parser.translations.is_empty());

    parser.parse_func_from_string_by_babel("t()", ParserOpts::default());
    assert!(parser.translations.is_empty());
}

#[test]
fn test_parse_options_object() {
    let mut parser = Parser::new();
    let content = "t('greeting', 'hi', {defaultValue: 'over', count: '2', ns: 'common'})";

    parser.parse_func_from_string_by_babel(content, ParserOpts::default());

    let options = get_options(&parser, "greeting").unwrap();
    assert_eq!(options.default_value, Some("over".to_string()));
    assert_eq!(options.count, Some("2".to_string()));
    assert_eq!(options.ns, Some("common".to_string()));
    assert_eq!(options.context, None);
}

#[test]
fn test_parse_dotted_call_names() {
    let mut parser = Parser::new();
    let content = "i18n.t('alpha'); i18next.t('beta', 'B')";

    parser.parse_func_from_string_by_babel(content, ParserOpts::default());

    assert!(get_options(&parser, "alpha").is_some());
    assert_eq!(get_options(&parser, "beta").unwrap().default_value, Some("B".to_string()));
}

#[test]
fn test_parse_inside_markup() {
    let mut parser = Parser::new();
    let content = "<p>{t('welcome')}</p>";

    parser.parse_func_from_string_by_babel(content, ParserOpts::default());

    assert!(get_options(&parser, "welcome").is_some());
}

#[test]
fn test_empty_call_list_extracts_nothing() {
    let mut parser = Parser::new();
    let mut opts = ParserOpts::default();
    opts.list = Some(Vec::new());
    parser.parse_func_from_string_by_babel("t('greeting')", opts);
    assert!(parser.translations.is_empty());
}

#[test]
fn test_balanced_truncates_on_mismatch() {
    // The closing bracket `]` does not match the open `(`: the span is
    // truncated just before it.
    assert_eq!(match_balanced_parentheses("(ab]cd"), "(ab");
    // No bracket at all: the whole text comes back.
    assert_eq!(match_balanced_parentheses("plain text"), "plain text");
}

struct CollectingHandler {
    seen: Vec<(String, Option<String>)>,
}

impl fast_i18n_scan::extract::CallHandler for CollectingHandler {
    fn observe(&mut self, key: &str, options: &fast_i18n_scan::extract::ParseOptions) {
        self.seen.push((key.to_string(), options.default_value.clone()));
    }
}

#[test]
fn test_custom_handler_observes_without_storing() {
    let mut parser = Parser::new();
    let mut handler = CollectingHandler { seen: Vec::new() };
    parser.parse_func_from_string_with_handler(
        "t('greeting', 'Hello'); t('farewell')",
        ParserOpts::default(),
        &mut handler,
    );

    // The handler saw every extracted call; the parser stored nothing.
    assert_eq!(handler.seen.len(), 2);
    assert_eq!(handler.seen[0], ("greeting".to_string(), Some("Hello".to_string())));
    assert_eq!(handler.seen[1], ("farewell".to_string(), None));
    assert!(parser.translations.is_empty());
}

#[test]
fn test_extract_calls() {
    let parser = Parser::new();
    let calls = parser.extract_calls("t('a', 'A'); t('b')", ParserOpts::default());
    assert_eq!(calls.len(), 2);
    assert_eq!(calls[0].0, "a");
    assert_eq!(calls[0].1.default_value, Some("A".to_string()));
    assert_eq!(calls[1].0, "b");
}
