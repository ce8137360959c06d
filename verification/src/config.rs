//! Scan configuration: input patterns, languages, namespaces, resource
//! paths and recognised call names, with a builder-style API.

use vstd::prelude::*;

verus! {

/// One parser plugin: a bare name, or a name with a JSON options blob.
pub enum BabelPlugin {
    Simple(String),
    WithOptions(String, String),
}

/// Parser options used when extracting.
pub struct BabelOptions {
    pub plugins: Vec<BabelPlugin>,
    pub source_type: String,
}

impl Default for BabelOptions {
    /// The full default plugin set.
    fn default() -> (r: Self)
        ensures
            r.plugins@.len() == 22,
            r.source_type@ == "module"@,
    {
        let mut plugins: Vec<BabelPlugin> = Vec::new();
        plugins.push(BabelPlugin::Simple(String::from_str("jsx")));
        plugins.push(BabelPlugin::Simple(String::from_str("typescript")));
        plugins.push(BabelPlugin::Simple(String::from_str("doExpressions")));
        plugins.push(BabelPlugin::Simple(String::from_str("objectRestSpread")));
        plugins.push(
            BabelPlugin::WithOptions(
                String::from_str("decorators"),
                String::from_str("{\"decoratorsBeforeExport\":true}"),
            ),
        );
        plugins.push(BabelPlugin::Simple(String::from_str("classProperties")));
        plugins.push(BabelPlugin::Simple(String::from_str("classPrivateProperties")));
        plugins.push(BabelPlugin::Simple(String::from_str("classPrivateMethods")));
        plugins.push(BabelPlugin::Simple(String::from_str("exportDefaultFrom")));
        plugins.push(BabelPlugin::Simple(String::from_str("exportNamespaceFrom")));
        plugins.push(BabelPlugin::Simple(String::from_str("asyncGenerators")));
        plugins.push(BabelPlugin::Simple(String::from_str("functionBind")));
        plugins.push(BabelPlugin::Simple(String::from_str("functionSent")));
        plugins.push(BabelPlugin::Simple(String::from_str("dynamicImport")));
        plugins.push(BabelPlugin::Simple(String::from_str("numericSeparator")));
        plugins.push(BabelPlugin::Simple(String::from_str("optionalChaining")));
        plugins.push(BabelPlugin::Simple(String::from_str("importMeta")));
        plugins.push(BabelPlugin::Simple(String::from_str("bigInt")));
        plugins.push(BabelPlugin::Simple(String::from_str("optionalCatchBinding")));
        plugins.push(BabelPlugin::Simple(String::from_str("throwExpressions")));
        plugins.push(
            BabelPlugin::WithOptions(
                String::from_str("pipelineOperator"),
                String::from_str("{\"proposal\":\"minimal\"}"),
            ),
        );
        plugins.push(BabelPlugin::Simple(String::from_str("nullishCoalescingOperator")));
        BabelOptions { plugins, source_type: String::from_str("module") }
    }
}

/// Where resource files are read from and written to.
pub struct ResourceConfig {
    pub load_path: String,
    pub save_path: String,
}

/// The recognised translation-call names and their file extensions.
pub struct FuncConfig {
    pub list: Vec<String>,
    pub extensions: Vec<String>,
    pub babylon: BabelOptions,
}

impl Default for FuncConfig {
    /// The default call names `i18next.t`, `i18n.t`, `t`, with no
    /// transform extensions.
    fn default() -> (r: Self)
        ensures
            r.list.deep_view() == seq!["i18next.t"@, "i18n.t"@, "t"@],
            r.extensions@.len() == 0,
    {
        let mut list: Vec<String> = Vec::new();
        list.push(String::from_str("i18next.t"));
        list.push(String::from_str("i18n.t"));
        list.push(String::from_str("t"));
        proof {
            assert(list.deep_view() =~~= seq!["i18next.t"@, "i18n.t"@, "t"@]);
        }
        FuncConfig { list, extensions: Vec::new(), babylon: BabelOptions::default() }
    }
}

/// Markup-transform settings.
pub struct TransConfig {
    pub extensions: Vec<String>,
    pub babylon: BabelOptions,
}

impl Default for TransConfig {
    fn default() -> (r: Self)
        ensures
            r.extensions@.len() == 0,
    {
        TransConfig { extensions: Vec::new(), babylon: BabelOptions::default() }
    }
}

/// The scan configuration.
pub struct ScanConfig {
    pub input: Vec<String>,
    pub lngs: Vec<String>,
    pub ns: Vec<String>,
    pub default_lng: String,
    pub default_ns: String,
    pub resource: ResourceConfig,
    pub func: FuncConfig,
    pub trans: TransConfig,
}

impl Default for ScanConfig {
    /// The defaults: scan `src/**/*.{js,jsx,ts,tsx}`, language `zh`,
    /// namespace `translation`.
    fn default() -> (r: Self)
        ensures
            r.input.deep_view() == seq!["src/**/*.{js,jsx,ts,tsx}"@],
            r.lngs.deep_view() == seq!["zh"@],
            r.ns.deep_view() == seq!["translation"@],
            r.default_lng@ == "zh"@,
            r.default_ns@ == "translation"@,
            r.resource.load_path@ == ""@,
            r.resource.save_path@ == "i18n/translation/{{lng}}.js"@,
            r.func.list.deep_view() == seq!["i18next.t"@, "i18n.t"@, "t"@],
            r.func.extensions@.len() == 0,
            r.trans.extensions@.len() == 0,
    {
        let mut input: Vec<String> = Vec::new();
        input.push(String::from_str("src/**/*.{js,jsx,ts,tsx}"));
        let mut lngs: Vec<String> = Vec::new();
        lngs.push(String::from_str("zh"));
        let mut ns: Vec<String> = Vec::new();
        ns.push(String::from_str("translation"));
        proof {
            assert(input.deep_view() =~~= seq!["src/**/*.{js,jsx,ts,tsx}"@]);
            assert(lngs.deep_view() =~~= seq!["zh"@]);
            assert(ns.deep_view() =~~= seq!["translation"@]);
        }
        ScanConfig {
            input,
            lngs,
            ns,
            default_lng: String::from_str("zh"),
            default_ns: String::from_str("translation"),
            resource: ResourceConfig {
                load_path: String::from_str(""),
                save_path: String::from_str("i18n/translation/{{lng}}.js"),
            },
            func: FuncConfig::default(),
            trans: TransConfig::default(),
        }
    }
}

impl ScanConfig {
    /// The default configuration.
    pub fn new() -> (r: Self)
        ensures
            r.default_lng@ == "zh"@,
            r.default_ns@ == "translation"@,
    {
        ScanConfig::default()
    }

    /// Replaces the input patterns.
    pub fn with_input(self, input: Vec<String>) -> (r: Self)
        ensures
            r.input == input,
            r.lngs == self.lngs,
            r.ns == self.ns,
            r.default_lng == self.default_lng,
            r.default_ns == self.default_ns,
    {
        ScanConfig { input, ..self }
    }

    /// Replaces the language list.
    pub fn with_languages(self, lngs: Vec<String>) -> (r: Self)
        ensures
            r.lngs == lngs,
            r.input == self.input,
            r.ns == self.ns,
            r.default_lng == self.default_lng,
            r.default_ns == self.default_ns,
    {
        ScanConfig { lngs, ..self }
    }

    /// Replaces the namespaces.
    pub fn with_namespaces(self, ns: Vec<String>) -> (r: Self)
        ensures
            r.ns == ns,
            r.input == self.input,
            r.lngs == self.lngs,
            r.default_lng == self.default_lng,
            r.default_ns == self.default_ns,
    {
        ScanConfig { ns, ..self }
    }

    /// Replaces the default language.
    pub fn with_default_language(self, default_lng: String) -> (r: Self)
        ensures
            r.default_lng == default_lng,
            r.input == self.input,
            r.lngs == self.lngs,
            r.ns == self.ns,
            r.default_ns == self.default_ns,
    {
        ScanConfig { default_lng, ..self }
    }

    /// Replaces the default namespace.
    pub fn with_default_namespace(self, default_ns: String) -> (r: Self)
        ensures
            r.default_ns == default_ns,
            r.input == self.input,
            r.lngs == self.lngs,
            r.ns == self.ns,
            r.default_lng == self.default_lng,
    {
        ScanConfig { default_ns, ..self }
    }

    /// Replaces the resource paths.
    pub fn with_resource(self, resource: ResourceConfig) -> (r: Self)
        ensures
            r.resource == resource,
            r.input == self.input,
            r.lngs == self.lngs,
            r.default_lng == self.default_lng,
    {
        ScanConfig { resource, ..self }
    }

    /// Replaces the call-name configuration.
    pub fn with_func(self, func: FuncConfig) -> (r: Self)
        ensures
            r.func == func,
            r.input == self.input,
            r.lngs == self.lngs,
            r.default_lng == self.default_lng,
    {
        ScanConfig { func, ..self }
    }

    /// Replaces the markup-transform configuration.
    pub fn with_trans(self, trans: TransConfig) -> (r: Self)
        ensures
            r.trans == trans,
            r.input == self.input,
            r.lngs == self.lngs,
            r.default_lng == self.default_lng,
    {
        ScanConfig { trans, ..self }
    }
}

/// The default scan configuration.
pub fn get_default_config() -> (r: ScanConfig)
    ensures
        r.input.deep_view() == seq!["src/**/*.{js,jsx,ts,tsx}"@],
        r.lngs.deep_view() == seq!["zh"@],
        r.ns.deep_view() == seq!["translation"@],
        r.default_lng@ == "zh"@,
        r.default_ns@ == "translation"@,
        r.resource.load_path@ == ""@,
        r.resource.save_path@ == "i18n/translation/{{lng}}.js"@,
        r.func.list.deep_view() == seq!["i18next.t"@, "i18n.t"@, "t"@],
        r.func.extensions@.len() == 0,
        r.trans.extensions@.len() == 0,
{
    ScanConfig::default()
}

/// A configuration to build on.
pub fn config_builder() -> (r: ScanConfig)
    ensures
        r.default_lng@ == "zh"@,
        r.default_ns@ == "translation"@,
{
    ScanConfig::new()
}

} // verus!
