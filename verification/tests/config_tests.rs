use fast_i18n_scan::config::{config_builder, get_default_config, BabelOptions};
use fast_i18n_scan::js_config::{prepare_config_json, JsConfig};

#[test]
fn config_test_default_config() {
    let config = get_default_config();
    assert_eq!(config.default_lng, "zh");
    assert_eq!(config.default_ns, "translation");
    assert_eq!(config.input, vec!["src/**/*.{js,jsx,ts,tsx}"]);
    assert_eq!(config.lngs, vec!["zh"]);
    assert_eq!(config.ns, vec!["translation"]);
}

#[test]
fn test_config_builder() {
    let config = config_builder()
        .with_input(vec!["app/**/*.tsx".to_string()])
        .with_languages(vec!["zh".to_string(), "en".to_string()])
        .with_default_language("en".to_string());

    assert_eq!(config.input, vec!["app/**/*.tsx"]);
    assert_eq!(config.lngs, vec!["zh", "en"]);
    assert_eq!(config.default_lng, "en");
}

#[test]
fn test_babel_options() {
    let babel_options = BabelOptions::default();
    assert_eq!(babel_options.source_type, "module");
    assert!(!babel_options.plugins.is_empty());
}

#[test]
fn test_js_config_defaults() {
    let config = JsConfig::default();
    assert_eq!(config.output, "./i18n");
    assert_eq!(config.default_lng, "zh");
    assert_eq!(config.lngs, vec!["zh", "en"]);
    assert!(config.sort);
    assert!(!config.debug);
}

#[test]
fn test_to_scan_config() {
    let config = JsConfig::default().to_scan_config();
    assert_eq!(config.default_lng, "zh");
    assert_eq!(config.resource.save_path, "./i18n/{{lng}}.json");
    assert_eq!(config.ns, vec!["translation"]);
}

#[test]
fn test_prepare_config_json() {
    let js_content = "\nmodule.exports = {\n  input: ['./src/a.ts'],\n  output: './i18n',\n  debug: true,\n  sort: true,\n  removeUnusedKeys: false,\n  lngs: ['zh', 'en'],\n  defaultLng: 'zh',\n};\n        ";

    let json = prepare_config_json(js_content).unwrap();
    let parsed: serde_json::Value = serde_json::from_str(&json).unwrap();
    assert_eq!(parsed["output"], "./i18n");
    assert_eq!(parsed["debug"], true);
    assert_eq!(parsed["defaultLng"], "zh");
    assert_eq!(parsed["lngs"][1], "en");
    assert_eq!(parsed["input"][0], "./src/a.ts");
}

#[test]
fn test_prepare_config_json_drops_comments() {
    let js_content = "// a comment line\nmodule.exports = {\n  output: './x',\n  debug: false,\n  sort: false,\n  removeUnusedKeys: false,\n  input: [],\n  lngs: [],\n  defaultLng: 'zh',\n};";
    let json = prepare_config_json(js_content).unwrap();
    let parsed: serde_json::Value = serde_json::from_str(&json).unwrap();
    assert_eq!(parsed["output"], "./x");
}

#[test]
fn test_prepare_config_json_without_object() {
    assert_eq!(prepare_config_json("no braces here"), None);
}
