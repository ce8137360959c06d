use fast_i18n_scan::hash_key::hash_key_simple;
use fast_i18n_scan::slp::{get_base_key, same_sentence, SisulizerProject};
use serde_json::Value;

#[test]
fn test_get_base_key() {
    assert_eq!(get_base_key("k_hello_world"), "k_hello_world");
    assert_eq!(get_base_key("k_hello_world_0"), "k_hello_world");
    assert_eq!(get_base_key("k_hello_world_plural"), "k_hello_world");
    assert_eq!(get_base_key("k_hello_world_1"), "k_hello_world");
    assert_eq!(get_base_key("normal_key"), "normal_key");
}

#[test]
fn test_is_same_sentence() {
    assert!(same_sentence("Hello World", "HelloWorld"));
    assert!(same_sentence("Hello  World", "Hello World"));
    assert!(same_sentence("  Hello World  ", "HelloWorld"));
    assert!(!same_sentence("Hello World", "Hello Universe"));
}

#[test]
fn test_add_and_get() {
    let mut project = SisulizerProject::new(None);

    project.add("greeting", "zh", "你好");
    assert_eq!(project.get("greeting", "zh"), Some("你好".to_string()));

    project.add("greeting", "en", "Hello");
    assert_eq!(project.get("greeting", "en"), Some("Hello".to_string()));

    project.add("greeting", "en", "你好");
    assert_eq!(project.get("greeting", "en"), Some("Hello".to_string()));
}

#[test]
fn test_obsolete() {
    let mut project = SisulizerProject::new(None);
    project.add("old_key", "zh", "旧词条");
    project.obsolete("old_key");

    assert!(project.get_obsoleted_keys().iter().any(|k| k == "old_key"));
}

#[test]
fn test_keys() {
    let mut project = SisulizerProject::new(None);
    project.add("key1", "zh", "值1");
    project.add("key2", "zh", "值2");

    let keys = project.keys();
    assert_eq!(keys.len(), 2);
    assert!(keys.contains(&"key1".to_string()));
    assert!(keys.contains(&"key2".to_string()));
}

#[test]
fn test_output() {
    let mut project = SisulizerProject::new(None);
    project.add("greeting", "zh", "你好");
    project.add("greeting", "en", "Hello");
    project.add("farewell", "zh", "再见");
    project.obsolete("farewell");

    let output = project.output(Some("zh"));
    let parsed: Value = serde_json::from_str(&output).unwrap();

    assert!(parsed.get("greeting").is_some());
    assert!(parsed.get("farewell").is_none());
}

#[test]
fn test_load() {
    let mut project = SisulizerProject::new(None);

    let zh_content = "{\"greeting\": \"你好\", \"farewell\": \"再见\"}";
    project.load(zh_content, "zh").unwrap();
    assert_eq!(project.get("greeting", "zh"), Some("你好".to_string()));

    let en_content = "{\"greeting\": \"Hello\", \"farewell\": \"Goodbye\"}";
    project.load(en_content, "en").unwrap();
    assert_eq!(project.get("greeting", "en"), Some("Hello".to_string()));
}

#[test]
fn test_load_with_chinese_in_english() {
    let mut project = SisulizerProject::new(None);
    project.load("{\"greeting\": \"你好\"}", "zh").unwrap();

    let result = project.load("{\"greeting\": \"你好\"}", "en");
    assert!(result.is_err());
}

#[test]
fn test_get_stats() {
    let mut project = SisulizerProject::new(None);
    project.add("key1", "zh", "值1");
    project.add("key1", "en", "Value1");
    project.add("key2", "zh", "值2");
    project.obsolete("key2");

    let stats = project.get_stats();
    assert_eq!(stats.total_keys, 2);
    assert_eq!(stats.active_keys, 1);
    assert_eq!(stats.obsoleted_keys, 1);
    assert_eq!(
        stats.lang_stats.iter().find(|(l, _)| l == "en").map(|(_, c)| *c),
        Some(1)
    );
}

#[test]
fn test_suppression_rule() {
    let mut project = SisulizerProject::new(None);
    project.add("k", "zh", "你好");
    project.add("k", "en", "你好");
    assert_eq!(project.get("k", "en"), None);
    project.add("k", "en", "Hello");
    assert_eq!(project.get("k", "en"), Some("Hello".to_string()));
}

#[test]
fn test_obsoletion_propagates_to_base_key() {
    let mut project = SisulizerProject::new(None);
    project.add("k_abc1234", "zh", "一");
    project.add("k_abc1234_0", "zh", "二");
    project.add("k_abc1234_plural", "zh", "三");
    project.add("kept", "zh", "四");
    project.obsolete("k_abc1234");

    let output = project.output(None);
    let parsed: Value = serde_json::from_str(&output).unwrap();
    assert!(parsed.get("k_abc1234").is_none());
    assert!(parsed.get("k_abc1234_0").is_none());
    assert!(parsed.get("k_abc1234_plural").is_none());
    assert!(parsed.get("kept").is_some());
}

#[test]
fn test_output_sorted_and_escaped() {
    let mut project = SisulizerProject::new(None);
    project.add("b", "zh", "line\nbreak \"quoted\"");
    project.add("a", "zh", "first");

    let output = project.output(None);
    let parsed: Value = serde_json::from_str(&output).unwrap();
    assert_eq!(parsed["b"], "line\nbreak \"quoted\"");
    assert_eq!(parsed["a"], "first");
    assert!(output.find("\"a\"").unwrap() < output.find("\"b\"").unwrap());
}

#[test]
fn test_native_fallback_variant() {
    let mut project = SisulizerProject::new(None);
    project.add("k_x_0", "zh", "数");
    // The row exists but holds no native string of its own; the `_0`
    // variant of the base key supplies it.
    project.add("k_x_1", "zh", "");
    assert_eq!(project.get("k_x_0", "zh"), Some("数".to_string()));
}

#[test]
fn test_output_to_directory() {
    let mut project = SisulizerProject::new(None);
    project.add("greeting", "zh", "你好");
    project.add("farewell", "zh", "再见");
    project.obsolete("farewell");

    let out = project.output_to_directory_at("./out", None, "2024-01-01 00:00:00 UTC");
    assert_eq!(out.context_path, "./out/context/context.json");
    assert_eq!(out.source_path, "./out/source/zh.json");

    let ctx: Value = serde_json::from_str(&out.context_json).unwrap();
    assert_eq!(ctx["language"], "zh");
    assert_eq!(ctx["total_keys"], 2);
    assert_eq!(ctx["active_keys"], 1);
    assert_eq!(ctx["obsoleted_keys"], 1);
    assert_eq!(ctx["generated_at"], "2024-01-01 00:00:00 UTC");
    assert_eq!(ctx["project_info"]["native_language"], "zh");
    assert_eq!(ctx["project_info"]["available_languages"][0], "en");

    // The resource object is re-keyed by the content hash of each value.
    let src: Value = serde_json::from_str(&out.source_json).unwrap();
    let hashed = hash_key_simple("你好", None);
    assert_eq!(src[&hashed], "你好");
    assert_eq!(src.as_object().unwrap().len(), 1);
}

#[test]
fn test_load_suppresses_echo() {
    let mut project = SisulizerProject::new(None);
    project.add("k", "zh", "Hello World");
    // The echoed value (whitespace-insensitively equal to the native
    // string) is suppressed; the load itself succeeds.
    project.load("{\"k\": \"HelloWorld\"}", "en").unwrap();
    assert_eq!(project.get("k", "en"), None);
    // A genuinely different value is stored.
    project.load("{\"k\": \"Bonjour\"}", "en").unwrap();
    assert_eq!(project.get("k", "en"), Some("Bonjour".to_string()));
}

#[test]
fn test_load_rejects_invalid_json() {
    let mut project = SisulizerProject::new(None);
    assert!(project.load("not json at all {", "zh").is_err());
    // A valid document that is not an object is ignored.
    assert!(project.load("[1, 2, 3]", "zh").is_ok());
    assert_eq!(project.keys().len(), 0);
}

#[test]
fn test_project_clear() {
    let mut project = SisulizerProject::new(None);
    project.add("k", "zh", "值");
    project.obsolete("k");
    project.clear();
    assert_eq!(project.keys().len(), 0);
    assert!(project.get_obsoleted_keys().is_empty());
    assert_eq!(project.get_native_lang(), "zh");
    assert_eq!(project.get_langs(), &vec!["en".to_string()]);
}
