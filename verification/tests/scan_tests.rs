use fast_i18n_scan::config::ScanConfig;
use fast_i18n_scan::scan::{ScanInput, Scanner};
use fast_i18n_scan::{create_scanner, expand_braces, get_default_config, scan_files, VERSION};

fn input(path: &str, content: &str) -> ScanInput {
    ScanInput { filepath: path.to_string(), content: Ok(content.to_string()) }
}

#[test]
fn test_version() {
    assert!(!VERSION.is_empty());
}

#[test]
fn lib_test_default_config() {
    let config = get_default_config();
    assert_eq!(config.default_lng, "zh");
}

#[test]
fn test_create_scanner() {
    let scanner = create_scanner();
    assert!(scanner.is_ready());
}

#[test]
fn test_empty_file_list() {
    let result = scan_files(&vec![]).unwrap();
    assert_eq!(result.stats.files_scanned, 0);
    assert_eq!(result.keys.len(), 0);
    assert_eq!(result.stats.errors_count, 0);
}

#[test]
fn test_nonexistent_file() {
    let files = vec![ScanInput {
        filepath: "nonexistent.tsx".to_string(),
        content: Err("No such file or directory".to_string()),
    }];
    let result = scan_files(&files);
    assert!(result.is_err() || result.unwrap().stats.errors_count > 0);
}

#[test]
fn test_scan_sample_file() {
    let content = "\nimport React from 'react';\n\nconst App = () => {\n  const message = \"你好世界\";\n  const greeting = t('greeting', '默认值');\n  \n  return (\n    <div>\n      <h1>硬编码中文</h1>\n      <p>{t('welcome')}</p>\n    </div>\n  );\n};\n";

    let result = scan_files(&vec![input("test.tsx", content)]).unwrap();

    assert!(!result.keys.is_empty());
    assert!(result.stats.errors_count > 0);
    assert_eq!(result.stats.files_scanned, 1);
}

#[test]
fn test_scanner_creation() {
    let scanner = Scanner::new();
    assert!(scanner.is_ready());
}

#[test]
fn mod_test_scanner_with_config() {
    let config = ScanConfig::default();
    let scanner = Scanner::with_config(config);
    assert!(scanner.is_ready());
}

#[test]
fn integration_test_test_scanner_with_config() {
    let config = ScanConfig::default()
        .with_languages(vec!["zh".to_string(), "en".to_string()])
        .with_default_language("zh".to_string());

    let scanner = Scanner::with_config(config);
    assert!(scanner.is_ready());
    assert_eq!(scanner.get_config().default_lng, "zh");
}

#[test]
fn test_scan_empty_files() {
    let mut scanner = Scanner::new();
    let result = scanner.scan_files(&vec![]).unwrap();
    assert_eq!(result.stats.files_scanned, 0);
    assert_eq!(result.keys.len(), 0);
}

#[test]
fn test_end_to_end_scenario() {
    let content = "const g = t('greeting', '你好');\nconst el = <h1>硬编码中文</h1>;\n";
    let result = scan_files(&vec![input("page.tsx", content)]).unwrap();

    assert_eq!(result.stats.keys_found, 1);
    assert!(result.stats.errors_count >= 1);
    assert_eq!(result.stats.files_scanned, 1);
    assert_eq!(
        result.translations.iter().find(|(k, _)| k == "greeting").map(|(_, v)| v.clone()),
        Some("你好".to_string())
    );
}

#[test]
fn test_keys_deduplicated_across_files() {
    let result = scan_files(&vec![
        input("a.ts", "t('shared'); t('only_a')"),
        input("b.ts", "t('shared'); t('only_b')"),
    ])
    .unwrap();

    assert_eq!(result.stats.files_scanned, 2);
    assert_eq!(result.stats.keys_found, 3);
    assert_eq!(result.keys.iter().filter(|k| *k == "shared").count(), 1);
}

#[test]
fn test_read_error_becomes_parse_error() {
    let files = vec![ScanInput {
        filepath: "broken.ts".to_string(),
        content: Err("permission denied".to_string()),
    }];
    let result = scan_files(&files).unwrap();
    assert_eq!(result.stats.errors_count, 1);
    assert_eq!(result.errors[0].filepath, "broken.ts");
    assert_eq!(result.errors[0].line, 1);
    assert_eq!(result.errors[0].message, "permission denied");
}

#[test]
fn test_expand_braces() {
    assert_eq!(
        expand_braces("src/**/*.{js,jsx,ts,tsx}"),
        vec!["src/**/*.js", "src/**/*.jsx", "src/**/*.ts", "src/**/*.tsx"]
    );
    assert_eq!(expand_braces("src/**/*.rs"), vec!["src/**/*.rs"]);
    assert_eq!(expand_braces("a{x, y}b"), vec!["axb", "ayb"]);
}
