use fast_i18n_scan::utils::{
    contains_chinese, escape_regex, format_file_size, get_directory, get_file_extension,
    get_filename, is_js_ts_file, normalize_path, remove_whitespace,
};

#[test]
fn test_get_file_extension() {
    assert_eq!(get_file_extension("test.js"), Some("js".to_string()));
    assert_eq!(get_file_extension("test.tsx"), Some("tsx".to_string()));
    assert_eq!(get_file_extension("test"), None);
}

#[test]
fn test_is_js_ts_file() {
    assert!(is_js_ts_file("app.js"));
    assert!(is_js_ts_file("component.tsx"));
    assert!(!is_js_ts_file("style.css"));
    assert!(!is_js_ts_file("README.md"));
}

#[test]
fn test_normalize_path() {
    assert_eq!(normalize_path("src\\components\\App.tsx"), "src/components/App.tsx");
    assert_eq!(normalize_path("src/utils/index.js"), "src/utils/index.js");
}

#[test]
fn test_get_directory() {
    assert_eq!(get_directory("src/components/App.tsx"), "src/components");
    assert_eq!(get_directory("index.js"), "");
}

#[test]
fn test_get_filename() {
    assert_eq!(get_filename("src/components/App.tsx"), "App.tsx");
    assert_eq!(get_filename("index.js"), "index.js");
}

#[test]
fn test_format_file_size() {
    assert_eq!(format_file_size(512), "512 B");
    assert_eq!(format_file_size(1024), "1.0 KB");
    assert_eq!(format_file_size(1536), "1.5 KB");
    assert_eq!(format_file_size(1048576), "1.0 MB");
}

#[test]
fn test_contains_chinese() {
    assert!(contains_chinese("你好世界"));
    assert!(contains_chinese("Hello 世界"));
    assert!(!contains_chinese("Hello World"));
}

#[test]
fn test_remove_whitespace() {
    assert_eq!(remove_whitespace("Hello World"), "HelloWorld");
    assert_eq!(remove_whitespace("  Hello   World  "), "HelloWorld");
    assert_eq!(remove_whitespace("Hello\nWorld\t"), "HelloWorld");
}

#[test]
fn test_escape_regex() {
    assert_eq!(escape_regex("a.b*c"), "a\\.b\\*c");
    assert_eq!(escape_regex("plain"), "plain");
    assert_eq!(escape_regex("(x)"), "\\(x\\)");
}
