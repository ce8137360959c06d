//! The scan orchestrator: runs the call-site extractor and the linter over
//! each input file's text and aggregates keys, translations, errors and
//! warnings into one result.

use vstd::prelude::*;

use crate::config::ScanConfig;
use crate::extract::{scan_store, OptionsModel, Parser, ParserOpts};
use crate::linter::{lint_outcome, LintResultModel, LintState, LintStateModel, ZhLinter};
use crate::slp::tmap_set;
use crate::text::str_eq;

verus! {

/// The kind of a scan error.
#[derive(Clone, Copy, PartialEq, Eq, Structural, Debug)]
pub enum ErrorType {
    ParseError,
    InvalidKey,
    DuplicateKey,
    MissingTranslation,
    HardCodedText,
}

/// The kind of a scan warning.
#[derive(Clone, Copy, PartialEq, Eq, Structural, Debug)]
pub enum WarningType {
    UnusedKey,
    StringConcatenation,
    HardCodedDomain,
}

/// One error found while scanning.
pub struct ScanError {
    pub filepath: String,
    pub line: u32,
    pub column: u32,
    pub message: String,
    pub error_type: ErrorType,
}

/// The mathematical content of a [`ScanError`].
pub struct ScanErrorModel {
    pub filepath: Seq<char>,
    pub line: u32,
    pub column: u32,
    pub message: Seq<char>,
    pub error_type: ErrorType,
}

impl DeepView for ScanError {
    type V = ScanErrorModel;

    open spec fn deep_view(&self) -> ScanErrorModel {
        ScanErrorModel {
            filepath: self.filepath@,
            line: self.line,
            column: self.column,
            message: self.message@,
            error_type: self.error_type,
        }
    }
}

/// One warning found while scanning.
pub struct ScanWarning {
    pub filepath: String,
    pub line: u32,
    pub column: u32,
    pub message: String,
    pub warning_type: WarningType,
}

/// The mathematical content of a [`ScanWarning`].
pub struct ScanWarningModel {
    pub filepath: Seq<char>,
    pub line: u32,
    pub column: u32,
    pub message: Seq<char>,
    pub warning_type: WarningType,
}

impl DeepView for ScanWarning {
    type V = ScanWarningModel;

    open spec fn deep_view(&self) -> ScanWarningModel {
        ScanWarningModel {
            filepath: self.filepath@,
            line: self.line,
            column: self.column,
            message: self.message@,
            warning_type: self.warning_type,
        }
    }
}

/// Counters for one scan.
#[derive(Clone, Copy, PartialEq, Eq, Structural, Debug)]
pub struct ScanStats {
    pub files_scanned: usize,
    pub keys_found: usize,
    pub errors_count: usize,
    pub warnings_count: usize,
    pub processing_time_ms: u64,
}

/// The aggregated outcome of one scan.
pub struct ScanResult {
    pub keys: Vec<String>,
    pub translations: Vec<(String, String)>,
    pub errors: Vec<ScanError>,
    pub warnings: Vec<ScanWarning>,
    pub stats: ScanStats,
}

/// One file to scan: its path and either its text or the message of the
/// failure to read it. Reading happens outside the scan, eagerly.
pub struct ScanInput {
    pub filepath: String,
    pub content: Result<String, String>,
}

/// The mathematical content of a [`ScanInput`].
pub struct ScanInputModel {
    pub filepath: Seq<char>,
    pub content: Result<Seq<char>, Seq<char>>,
}

impl DeepView for ScanInput {
    type V = ScanInputModel;

    open spec fn deep_view(&self) -> ScanInputModel {
        ScanInputModel {
            filepath: self.filepath@,
            content: match self.content {
                Ok(ref c) => Ok(c@),
                Err(ref e) => Err(e@),
            },
        }
    }
}

/// The call names the scan recognises, in the order the extractor's
/// defaults list them.
pub open spec fn default_funcs() -> Seq<Seq<char>> {
    seq!["t"@, "i18n.t"@, "i18next.t"@]
}

/// The translation map one file's text yields.
pub open spec fn file_translations(content: Seq<char>) -> Seq<(Seq<char>, OptionsModel)> {
    scan_store(content, default_funcs(), 0, Seq::empty())
}

/// The keys of a translation map, in map order.
pub open spec fn keys_of(tr: Seq<(Seq<char>, OptionsModel)>) -> Seq<Seq<char>> {
    tr.map_values(|p: (Seq<char>, OptionsModel)| p.0)
}

/// Merges a file's default values into the aggregated translations, first
/// `i` entries: an entry with a default value overwrites any earlier entry
/// for its key.
pub open spec fn fold_trans(
    acc: Seq<(Seq<char>, Seq<char>)>,
    tr: Seq<(Seq<char>, OptionsModel)>,
    i: int,
) -> Seq<(Seq<char>, Seq<char>)>
    decreases tr.len() - i,
{
    if i < 0 || i >= tr.len() {
        acc
    } else {
        match tr[i].1.default_value {
            Some(dv) => fold_trans(tmap_set(acc, tr[i].0, dv), tr, i + 1),
            None => fold_trans(acc, tr, i + 1),
        }
    }
}

/// The rolling state of a scan over a list of inputs.
pub struct GatherState {
    pub keys: Seq<Seq<char>>,
    pub trans: Seq<(Seq<char>, Seq<char>)>,
    pub errs: Seq<ScanErrorModel>,
    pub lint: LintStateModel,
}

/// A file-level read failure, reported at line 1, column 1.
pub open spec fn read_error(fp: Seq<char>, msg: Seq<char>) -> ScanErrorModel {
    ScanErrorModel { filepath: fp, line: 1, column: 1, message: msg, error_type: ErrorType::ParseError }
}

/// Scans the inputs from position `i`: an unreadable file adds one parse
/// error; a readable file's text is linted (accumulating findings) and
/// scanned for calls, its keys appended and its default values merged.
pub open spec fn gather_from(inputs: Seq<ScanInputModel>, i: int, st: GatherState) -> GatherState
    decreases inputs.len() - i,
{
    if i < 0 || i >= inputs.len() {
        st
    } else {
        let inp = inputs[i];
        match inp.content {
            Err(e) => gather_from(
                inputs,
                i + 1,
                GatherState { errs: st.errs.push(read_error(inp.filepath, e)), ..st },
            ),
            Ok(c) => {
                let tr = file_translations(c);
                gather_from(
                    inputs,
                    i + 1,
                    GatherState {
                        keys: st.keys + keys_of(tr),
                        trans: fold_trans(st.trans, tr, 0),
                        errs: st.errs,
                        lint: lint_outcome(st.lint, c, inp.filepath),
                    },
                )
            },
        }
    }
}

/// The keys with later duplicates removed, first occurrence kept.
pub open spec fn dedup_from(s: Seq<Seq<char>>, i: int, acc: Seq<Seq<char>>) -> Seq<Seq<char>>
    decreases s.len() - i,
{
    if i < 0 || i >= s.len() {
        acc
    } else if acc.contains(s[i]) {
        dedup_from(s, i + 1, acc)
    } else {
        dedup_from(s, i + 1, acc.push(s[i]))
    }
}

/// A linter finding turned into a scan error.
pub open spec fn lint_error(lr: LintResultModel) -> ScanErrorModel {
    ScanErrorModel {
        filepath: lr.filepath,
        line: lr.loc.start.line,
        column: lr.loc.start.column,
        message: "Hard-coded Chinese text found: "@ + lr.value,
        error_type: ErrorType::HardCodedText,
    }
}

/// A linter suggestion or concatenation finding turned into a scan warning.
pub open spec fn lint_warning(lr: LintResultModel, wt: WarningType) -> ScanWarningModel {
    ScanWarningModel {
        filepath: lr.filepath,
        line: lr.loc.start.line,
        column: lr.loc.start.column,
        message: (if wt is HardCodedDomain {
            "Hard-coded domain found: "@
        } else {
            "String concatenation found: "@
        }) + lr.value,
        warning_type: wt,
    }
}

/// The scanner: holds the configuration and the linter it runs.
pub struct Scanner {
    pub config: ScanConfig,
    pub linter: ZhLinter,
}

/// An empty gather state.
pub open spec fn empty_gather() -> GatherState {
    GatherState {
        keys: Seq::empty(),
        trans: Seq::empty(),
        errs: Seq::empty(),
        lint: crate::linter::empty_lint_state(),
    }
}

/// What a whole scan yields, spelled out field by field over the final
/// gather state.
pub open spec fn scan_result_matches(r: ScanResult, inputs: Seq<ScanInputModel>) -> bool {
    let st = gather_from(inputs, 0, empty_gather());
    let uniq = dedup_from(st.keys, 0, Seq::empty());
    &&& r.keys.deep_view() == uniq
    &&& r.translations.deep_view() == st.trans
    &&& r.errors.deep_view() == st.errs + st.lint.result.map_values(|lr: LintResultModel| lint_error(lr))
    &&& r.warnings.deep_view() == st.lint.hard_code_suggestions.map_values(
        |lr: LintResultModel| lint_warning(lr, WarningType::HardCodedDomain),
    ) + st.lint.no_string_concatenations.map_values(
        |lr: LintResultModel| lint_warning(lr, WarningType::StringConcatenation),
    )
    &&& r.stats.files_scanned == inputs.len()
    &&& r.stats.keys_found == uniq.len()
    &&& r.stats.errors_count == r.errors.deep_view().len()
    &&& r.stats.warnings_count == r.warnings.deep_view().len()
    &&& r.stats.processing_time_ms == 0
}

fn assoc_set_exec(m: &mut Vec<(String, String)>, k: &str, v: &str)
    ensures
        final(m).deep_view() == tmap_set(old(m).deep_view(), k@, v@),
{
    let ghost m0 = m.deep_view();
    let mut j: usize = 0;
    while j < m.len()
        invariant
            j <= m@.len(),
            m0 == m.deep_view(),
            m == old(m),
            forall|x: int| 0 <= x < j ==> (#[trigger] m0[x]).0 != k@,
        decreases m@.len() - j,
    {
        proof {
            assert(m0[j as int] == m@[j as int].deep_view());
        }
        if str_eq(m[j].0.as_str(), k) {
            proof {
                crate::slp::lemma_tmap_set_update(m0, k@, v@, j as int);
            }
            m[j] = (String::from_str(k), String::from_str(v));
            proof {
                assert(m.deep_view() =~~= m0.update(j as int, (k@, v@)));
            }
            return ;
        }
        j += 1;
    }
    proof {
        crate::slp::lemma_tmap_set_push(m0, k@, v@);
    }
    m.push((String::from_str(k), String::from_str(v)));
    proof {
        assert(m.deep_view() =~~= m0.push((k@, v@)));
    }
}

impl Scanner {
    /// A scanner with the default configuration.
    pub fn new() -> (r: Self)
        ensures
            r.config.default_lng@ == "zh"@,
    {
        Scanner { config: ScanConfig::default(), linter: ZhLinter::new() }
    }

    /// A scanner with the given configuration.
    pub fn with_config(config: ScanConfig) -> (r: Self)
        ensures
            r.config == config,
    {
        Scanner { config, linter: ZhLinter::new() }
    }

    /// Whether the scanner can run.
    pub fn is_ready(&self) -> (r: bool)
        ensures
            r,
    {
        true
    }

    /// The current configuration.
    pub fn get_config(&self) -> (r: &ScanConfig)
        ensures
            r == &self.config,
    {
        &self.config
    }

    /// Replaces the configuration.
    pub fn set_config(&mut self, config: ScanConfig)
        ensures
            final(self).config == config,
    {
        self.config = config;
    }

    /// Scans every input: extracts translation calls, lints for hard-coded
    /// text, and aggregates keys (deduplicated, first occurrence kept),
    /// default values, errors and warnings. Never fails: unreadable files
    /// become per-file parse errors in the result.
    pub fn scan_files(&mut self, files: &Vec<ScanInput>) -> (r: Result<ScanResult, String>)
        ensures
            (match r {
                Ok(res) => scan_result_matches(res, files.deep_view()),
                Err(e) => false,
            }),
    {
        let mut keys: Vec<String> = Vec::new();
        let mut translations: Vec<(String, String)> = Vec::new();
        let mut errors: Vec<ScanError> = Vec::new();
        let mut lint = LintState::new();
        let ghost im = files.deep_view();
        proof {
            assert(keys.deep_view() =~~= Seq::<Seq<char>>::empty());
            assert(translations.deep_view() =~~= Seq::<(Seq<char>, Seq<char>)>::empty());
            assert(errors.deep_view() =~~= Seq::<ScanErrorModel>::empty());
        }
        let mut i: usize = 0;
        while i < files.len()
            invariant
                i <= files@.len(),
                im == files.deep_view(),
                gather_from(
                    im,
                    i as int,
                    GatherState {
                        keys: keys.deep_view(),
                        trans: translations.deep_view(),
                        errs: errors.deep_view(),
                        lint: lint.deep_view(),
                    },
                ) == gather_from(im, 0, empty_gather()),
            decreases files@.len() - i,
        {
            proof {
                assert(im[i as int] == files@[i as int].deep_view());
            }
            let inp = &files[i];
            match &inp.content {
                Err(e) => {
                    let ghost e0 = errors.deep_view();
                    errors.push(
                        ScanError {
                            filepath: inp.filepath.clone(),
                            line: 1,
                            column: 1,
                            message: e.clone(),
                            error_type: ErrorType::ParseError,
                        },
                    );
                    proof {
                        assert(errors.deep_view() =~~= e0.push(
                            read_error(im[i as int].filepath, im[i as int].content->Err_0),
                        ));
                    }
                },
                Ok(content) => {
                    let ghost st_pre = GatherState {
                        keys: keys.deep_view(),
                        trans: translations.deep_view(),
                        errs: errors.deep_view(),
                        lint: lint.deep_view(),
                    };
                    self.linter.verify(&mut lint, content.as_str(), inp.filepath.as_str());
                    let mut parser = Parser::new();
                    proof {
                        assert(parser.translations.deep_view() =~~= Seq::<
                            (Seq<char>, OptionsModel),
                        >::empty());
                    }
                    parser.parse_func_from_string_by_babel(content.as_str(), ParserOpts::default());
                    let ghost tr = file_translations(content@);
                    proof {
                        assert(seq!["t"@, "i18n.t"@, "i18next.t"@] =~~= default_funcs());
                        assert(parser.translations.deep_view() == tr);
                        assert(lint.deep_view() == lint_outcome(
                            st_pre.lint,
                            im[i as int].content->Ok_0,
                            im[i as int].filepath,
                        ));
                    }
                    let ghost k0 = keys.deep_view();
                    let ghost t0 = translations.deep_view();
                    proof {
                        assert(k0 + keys_of(tr).take(0) =~~= k0);
                    }
                    let mut j: usize = 0;
                    while j < parser.translations.len()
                        invariant
                            j <= parser.translations@.len(),
                            tr == parser.translations.deep_view(),
                            keys.deep_view() == k0 + keys_of(tr).take(j as int),
                            fold_trans(t0, tr, 0) == fold_trans(
                                translations.deep_view(),
                                tr,
                                j as int,
                            ),
                        decreases parser.translations@.len() - j,
                    {
                        proof {
                            assert(tr[j as int] == (parser.translations@[j as int].0@, parser.translations@[
                                j as int
                            ].1.deep_view()));
                            assert(keys_of(tr)[j as int] == tr[j as int].0);
                        }
                        let ghost kd0 = keys.deep_view();
                        keys.push(parser.translations[j].0.clone());
                        proof {
                            assert(keys.deep_view() =~~= kd0.push(tr[j as int].0));
                            assert(kd0.push(tr[j as int].0) =~~= k0 + keys_of(tr).take(j as int + 1));
                        }
                        let has_dv = parser.translations[j].1.default_value.is_some();
                        if has_dv {
                            let dv = parser.translations[j].1.default_value.as_ref().unwrap().clone();
                            let ks = parser.translations[j].0.clone();
                            assoc_set_exec(&mut translations, ks.as_str(), dv.as_str());
                        }
                        j += 1;
                    }
                    proof {
                        assert(keys_of(tr).take(keys_of(tr).len() as int) =~~= keys_of(tr));
                        assert(keys.deep_view() == k0 + keys_of(tr));
                        assert(translations.deep_view() == fold_trans(t0, tr, 0));
                        assert(im[i as int].content->Ok_0 == content@);
                        assert(gather_from(im, i as int, st_pre) == gather_from(
                            im,
                            i as int + 1,
                            GatherState {
                                keys: k0 + keys_of(tr),
                                trans: fold_trans(t0, tr, 0),
                                errs: st_pre.errs,
                                lint: lint_outcome(
                                    st_pre.lint,
                                    im[i as int].content->Ok_0,
                                    im[i as int].filepath,
                                ),
                            },
                        ));
                    }
                },
            }
            i += 1;
        }
        // Deduplicate keys, keeping each first occurrence.
        let mut uniq: Vec<String> = Vec::new();
        let ghost ks = keys.deep_view();
        proof {
            assert(uniq.deep_view() =~~= Seq::<Seq<char>>::empty());
        }
        let mut i2: usize = 0;
        while i2 < keys.len()
            invariant
                i2 <= keys@.len(),
                ks == keys.deep_view(),
                dedup_from(ks, i2 as int, uniq.deep_view()) == dedup_from(ks, 0, Seq::empty()),
            decreases keys@.len() - i2,
        {
            proof {
                assert(ks[i2 as int] == keys@[i2 as int]@);
            }
            let ghost u0 = uniq.deep_view();
            let mut present = false;
            let mut x: usize = 0;
            while x < uniq.len() && !present
                invariant
                    x <= uniq@.len(),
                    i2 < keys@.len(),
                    ks == keys.deep_view(),
                    u0 == uniq.deep_view(),
                    present ==> u0.contains(ks[i2 as int]),
                    !present ==> forall|y: int| 0 <= y < x ==> (#[trigger] u0[y]) != ks[i2 as int],
                decreases uniq@.len() - x + (if present {
                    0int
                } else {
                    1int
                }),
            {
                proof {
                    assert(u0[x as int] == uniq@[x as int]@);
                }
                if str_eq(uniq[x].as_str(), keys[i2].as_str()) {
                    present = true;
                } else {
                    x += 1;
                }
            }
            if !present {
                proof {
                    assert(!u0.contains(ks[i2 as int]));
                }
                uniq.push(keys[i2].clone());
                proof {
                    assert(uniq.deep_view() =~~= u0.push(ks[i2 as int]));
                }
            }
            i2 += 1;
        }
        // Turn accumulated linter findings into errors and warnings.
        let ghost e0 = errors.deep_view();
        let ghost lr0 = lint.result.deep_view();
        let mut i3: usize = 0;
        while i3 < lint.result.len()
            invariant
                i3 <= lint.result@.len(),
                lr0 == lint.result.deep_view(),
                errors.deep_view() == e0 + lr0.map_values(|lr: LintResultModel| lint_error(lr)).take(
                    i3 as int,
                ),
            decreases lint.result@.len() - i3,
        {
            proof {
                assert(lr0[i3 as int] == lint.result@[i3 as int].deep_view());
                assert(lr0.map_values(|lr: LintResultModel| lint_error(lr))[i3 as int] == lint_error(
                    lr0[i3 as int],
                ));
            }
            let fr = &lint.result[i3];
            let ghost ed0 = errors.deep_view();
            errors.push(
                ScanError {
                    filepath: fr.filepath.clone(),
                    line: fr.loc.start.line,
                    column: fr.loc.start.column,
                    message: String::from_str("Hard-coded Chinese text found: ").concat(
                        fr.value.as_str(),
                    ),
                    error_type: ErrorType::HardCodedText,
                },
            );
            proof {
                assert(errors.deep_view() =~~= ed0.push(lint_error(lr0[i3 as int])));
                assert(ed0.push(lint_error(lr0[i3 as int])) =~~= e0 + lr0.map_values(
                    |lr: LintResultModel| lint_error(lr),
                ).take(i3 as int + 1));
            }
            i3 += 1;
        }
        proof {
            let le = lr0.map_values(|lr: LintResultModel| lint_error(lr));
            assert(le.take(le.len() as int) =~~= le);
        }
        let mut warnings: Vec<ScanWarning> = Vec::new();
        let ghost hs0 = lint.hard_code_suggestions.deep_view();
        proof {
            assert(warnings.deep_view() =~~= Seq::<ScanWarningModel>::empty());
        }
        let mut i4: usize = 0;
        while i4 < lint.hard_code_suggestions.len()
            invariant
                i4 <= lint.hard_code_suggestions@.len(),
                hs0 == lint.hard_code_suggestions.deep_view(),
                warnings.deep_view() == hs0.map_values(
                    |lr: LintResultModel| lint_warning(lr, WarningType::HardCodedDomain),
                ).take(i4 as int),
            decreases lint.hard_code_suggestions@.len() - i4,
        {
            proof {
                assert(hs0[i4 as int] == lint.hard_code_suggestions@[i4 as int].deep_view());
                assert(hs0.map_values(
                    |lr: LintResultModel| lint_warning(lr, WarningType::HardCodedDomain),
                )[i4 as int] == lint_warning(hs0[i4 as int], WarningType::HardCodedDomain));
            }
            let fr = &lint.hard_code_suggestions[i4];
            let ghost wd0 = warnings.deep_view();
            warnings.push(
                ScanWarning {
                    filepath: fr.filepath.clone(),
                    line: fr.loc.start.line,
                    column: fr.loc.start.column,
                    message: String::from_str("Hard-coded domain found: ").concat(fr.value.as_str()),
                    warning_type: WarningType::HardCodedDomain,
                },
            );
            proof {
                assert(warnings.deep_view() =~~= wd0.push(
                    lint_warning(hs0[i4 as int], WarningType::HardCodedDomain),
                ));
                assert(wd0.push(lint_warning(hs0[i4 as int], WarningType::HardCodedDomain)) =~~= hs0.map_values(
                    |lr: LintResultModel| lint_warning(lr, WarningType::HardCodedDomain),
                ).take(i4 as int + 1));
            }
            i4 += 1;
        }
        proof {
            let hw = hs0.map_values(|lr: LintResultModel| lint_warning(lr, WarningType::HardCodedDomain));
            assert(hw.take(hw.len() as int) =~~= hw);
        }
        let ghost w1 = warnings.deep_view();
        let ghost cs0 = lint.no_string_concatenations.deep_view();
        let mut i5: usize = 0;
        while i5 < lint.no_string_concatenations.len()
            invariant
                i5 <= lint.no_string_concatenations@.len(),
                cs0 == lint.no_string_concatenations.deep_view(),
                warnings.deep_view() == w1 + cs0.map_values(
                    |lr: LintResultModel| lint_warning(lr, WarningType::StringConcatenation),
                ).take(i5 as int),
            decreases lint.no_string_concatenations@.len() - i5,
        {
            proof {
                assert(cs0[i5 as int] == lint.no_string_concatenations@[i5 as int].deep_view());
                assert(cs0.map_values(
                    |lr: LintResultModel| lint_warning(lr, WarningType::StringConcatenation),
                )[i5 as int] == lint_warning(cs0[i5 as int], WarningType::StringConcatenation));
            }
            let fr = &lint.no_string_concatenations[i5];
            let ghost wd0 = warnings.deep_view();
            warnings.push(
                ScanWarning {
                    filepath: fr.filepath.clone(),
                    line: fr.loc.start.line,
                    column: fr.loc.start.column,
                    message: String::from_str("String concatenation found: ").concat(
                        fr.value.as_str(),
                    ),
                    warning_type: WarningType::StringConcatenation,
                },
            );
            proof {
                assert(warnings.deep_view() =~~= wd0.push(
                    lint_warning(cs0[i5 as int], WarningType::StringConcatenation),
                ));
                assert(wd0.push(lint_warning(cs0[i5 as int], WarningType::StringConcatenation))
                    =~~= w1 + cs0.map_values(
                    |lr: LintResultModel| lint_warning(lr, WarningType::StringConcatenation),
                ).take(i5 as int + 1));
            }
            i5 += 1;
        }
        proof {
            let cw = cs0.map_values(|lr: LintResultModel| lint_warning(lr, WarningType::StringConcatenation));
            assert(cw.take(cw.len() as int) =~~= cw);
        }
        let keys_count = uniq.len();
        let errors_count = errors.len();
        let warnings_count = warnings.len();
        let res = ScanResult {
            keys: uniq,
            translations,
            errors,
            warnings,
            stats: ScanStats {
                files_scanned: files.len(),
                keys_found: keys_count,
                errors_count,
                warnings_count,
                processing_time_ms: 0,
            },
        };
        proof {
            assert(scan_result_matches(res, im));
        }
        Ok(res)
    }
}

} // verus!
