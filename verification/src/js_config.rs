//! The JavaScript-style configuration file: its structured form, its
//! conversion to a scan configuration, and the textual normalization that
//! turns the `module.exports = {...}` object literal into plain JSON.

use vstd::prelude::*;

use crate::config::{FuncConfig, ResourceConfig, ScanConfig, TransConfig};
use crate::extract::matches_at;
use crate::linter::split_lines;
use crate::text::{chars_to_string, copy_range, to_chars, trim, trim_vec};

verus! {

/// A loaded configuration file.
pub struct JsConfig {
    pub input: Vec<String>,
    pub output: String,
    pub debug: bool,
    pub sort: bool,
    pub remove_unused_keys: bool,
    pub lngs: Vec<String>,
    pub default_lng: String,
}

impl Default for JsConfig {
    /// The defaults: scan the source tree, write to `./i18n`, languages
    /// `zh` and `en` with `zh` as the default.
    fn default() -> (r: Self)
        ensures
            r.input.deep_view() == seq!["./src/**/!(*.d).{js,jsx,ts,tsx}"@],
            r.output@ == "./i18n"@,
            !r.debug,
            r.sort,
            !r.remove_unused_keys,
            r.lngs.deep_view() == seq!["zh"@, "en"@],
            r.default_lng@ == "zh"@,
    {
        let mut input: Vec<String> = Vec::new();
        input.push(String::from_str("./src/**/!(*.d).{js,jsx,ts,tsx}"));
        let mut lngs: Vec<String> = Vec::new();
        lngs.push(String::from_str("zh"));
        lngs.push(String::from_str("en"));
        proof {
            assert(input.deep_view() =~~= seq!["./src/**/!(*.d).{js,jsx,ts,tsx}"@]);
            assert(lngs.deep_view() =~~= seq!["zh"@, "en"@]);
        }
        JsConfig {
            input,
            output: String::from_str("./i18n"),
            debug: false,
            sort: true,
            remove_unused_keys: false,
            lngs,
            default_lng: String::from_str("zh"),
        }
    }
}

impl JsConfig {
    /// The scan configuration this file describes: its inputs, languages
    /// and default language, with the namespace defaults, an empty load
    /// path and a save path of `<output>/{{lng}}.json`.
    pub fn to_scan_config(&self) -> (r: ScanConfig)
        ensures
            r.input.deep_view() == self.input.deep_view(),
            r.lngs.deep_view() == self.lngs.deep_view(),
            r.ns.deep_view() == seq!["translation"@],
            r.default_lng@ == self.default_lng@,
            r.default_ns@ == "translation"@,
            r.resource.load_path@ == ""@,
            r.resource.save_path@ == self.output@ + "/{{lng}}.json"@,
            r.func.list.deep_view() == seq!["i18next.t"@, "i18n.t"@, "t"@],
    {
        let mut ns: Vec<String> = Vec::new();
        ns.push(String::from_str("translation"));
        proof {
            assert(ns.deep_view() =~~= seq!["translation"@]);
        }
        ScanConfig {
            input: clone_strings(&self.input),
            lngs: clone_strings(&self.lngs),
            ns,
            default_lng: self.default_lng.clone(),
            default_ns: String::from_str("translation"),
            resource: ResourceConfig {
                load_path: String::from_str(""),
                save_path: self.output.clone().concat("/{{lng}}.json"),
            },
            func: FuncConfig::default(),
            trans: TransConfig::default(),
        }
    }
}

fn clone_strings(v: &Vec<String>) -> (r: Vec<String>)
    ensures
        r.deep_view() == v.deep_view(),
{
    let mut out: Vec<String> = Vec::new();
    proof {
        assert(out.deep_view() =~~= v.deep_view().take(0));
    }
    let mut i: usize = 0;
    while i < v.len()
        invariant
            i <= v@.len(),
            out.deep_view() == v.deep_view().take(i as int),
        decreases v@.len() - i,
    {
        let ghost dv0 = out.deep_view();
        proof {
            assert(v.deep_view()[i as int] == v@[i as int]@);
        }
        out.push(v[i].clone());
        proof {
            assert(out.deep_view() =~~= dv0.push(v.deep_view()[i as int]));
            assert(dv0.push(v.deep_view()[i as int]) =~~= v.deep_view().take(i as int + 1));
        }
        i += 1;
    }
    proof {
        assert(v.deep_view().take(v@.len() as int) =~~= v.deep_view());
    }
    out
}

/// The text with every occurrence of `pat` (scanned left to right,
/// non-overlapping) replaced by `rep`; an empty pattern leaves the text
/// unchanged.
pub open spec fn spec_replace(s: Seq<char>, pat: Seq<char>, rep: Seq<char>, i: int) -> Seq<char>
    decreases s.len() - i,
{
    if i < 0 || i >= s.len() {
        Seq::empty()
    } else if pat.len() > 0 && matches_at(s, pat, i) {
        rep + spec_replace(s, pat, rep, i + pat.len())
    } else {
        seq![s[i]] + spec_replace(s, pat, rep, i + 1)
    }
}

fn replace_exec(s: &Vec<char>, pat: &Vec<char>, rep: &Vec<char>) -> (r: Vec<char>)
    requires
        pat@.len() > 0,
    ensures
        r@ == spec_replace(s@, pat@, rep@, 0),
{
    let mut out: Vec<char> = Vec::new();
    let mut i: usize = 0;
    proof {
        assert(out@ + spec_replace(s@, pat@, rep@, 0) =~= spec_replace(s@, pat@, rep@, 0));
    }
    while i < s.len()
        invariant
            i <= s@.len(),
            pat@.len() > 0,
            out@ + spec_replace(s@, pat@, rep@, i as int) == spec_replace(s@, pat@, rep@, 0),
        decreases s@.len() - i,
    {
        let ghost o0 = out@;
        if matches_here(s, pat, i) {
            let mut rc = copy_range(rep, 0, rep.len());
            proof {
                assert(rc@ =~= rep@);
            }
            out.append(&mut rc);
            proof {
                assert(out@ + spec_replace(s@, pat@, rep@, i + pat@.len()) =~= o0 + (rep@
                    + spec_replace(s@, pat@, rep@, i + pat@.len())));
            }
            i = i + pat.len();
        } else {
            out.push(s[i]);
            proof {
                assert(out@ + spec_replace(s@, pat@, rep@, i as int + 1) =~= o0 + (seq![s@[i as int]]
                    + spec_replace(s@, pat@, rep@, i as int + 1)));
            }
            i += 1;
        }
    }
    proof {
        assert(out@ + spec_replace(s@, pat@, rep@, i as int) =~= out@);
    }
    out
}

fn matches_here(s: &Vec<char>, pat: &Vec<char>, i: usize) -> (r: bool)
    requires
        i <= s@.len(),
    ensures
        r == matches_at(s@, pat@, i as int),
{
    let n: usize = s.len();
    if pat.len() > n - i {
        return false;
    }
    let mut k: usize = 0;
    while k < pat.len()
        invariant
            i + pat@.len() <= s@.len(),
            s@.len() <= usize::MAX,
            k <= pat@.len(),
            forall|x: int| 0 <= x < k ==> s@[i + x] == pat@[x],
        decreases pat@.len() - k,
    {
        if s[i + k] != pat[k] {
            proof {
                assert(s@.subrange(i as int, i + pat@.len() as int)[k as int] == s@[i + k]);
            }
            return false;
        }
        k += 1;
    }
    proof {
        assert(s@.subrange(i as int, i + pat@.len() as int) =~= pat@);
    }
    true
}

/// Whether a trimmed line is a `//` comment line.
pub open spec fn is_comment_line(l: Seq<char>) -> bool {
    let t = trim(l);
    t.len() >= 2 && t[0] == '/' && t[1] == '/'
}

/// Whether any of the first `i` lines is a kept (non-comment) line.
pub open spec fn exists_kept(lines: Seq<Seq<char>>, i: int) -> bool {
    exists|j: int| 0 <= j < i && !is_comment_line(#[trigger] lines[j])
}

/// The lines that are not comment lines, joined with newlines.
pub open spec fn joined_code_lines(lines: Seq<Seq<char>>, i: int) -> Seq<char>
    decreases i,
{
    if i <= 0 {
        Seq::empty()
    } else if is_comment_line(lines[i - 1]) {
        joined_code_lines(lines, i - 1)
    } else if !exists_kept(lines, i - 1) {
        lines[i - 1]
    } else {
        joined_code_lines(lines, i - 1) + seq!['\n'] + lines[i - 1]
    }
}

/// The first index of `c` at or after `i`, if any.
pub open spec fn find_char(s: Seq<char>, c: char, i: int) -> Option<int>
    decreases s.len() - i,
{
    if i < 0 || i >= s.len() {
        None
    } else if s[i] == c {
        Some(i)
    } else {
        find_char(s, c, i + 1)
    }
}

/// The index just after the last occurrence of `c` in the first `i`
/// characters, or 0 when none.
pub open spec fn rfind_end(s: Seq<char>, c: char, i: int) -> int
    decreases i,
{
    crate::utils::start_after_last(s, c, i)
}

/// The object-literal text normalized to JSON: comment lines dropped, the
/// text between the first `{` and the last `}` kept, single quotes turned
/// into double quotes, trailing commas before a closing brace removed, and
/// the known configuration keys quoted. Nothing when no braced object is
/// present.
pub open spec fn spec_prepare(content: Seq<char>) -> Option<Seq<char>> {
    let lines = split_lines(content);
    let cleaned = joined_code_lines(lines, lines.len() as int);
    match find_char(cleaned, '{', 0) {
        None => None,
        Some(b) => {
            let e = rfind_end(cleaned, '}', cleaned.len() as int);
            if e == 0 || e <= b {
                None
            } else {
                let body = cleaned.subrange(b, e);
                Some(apply_replacements(body))
            }
        },
    }
}

/// The fixed replacement chain applied to the braced body.
pub open spec fn apply_replacements(body: Seq<char>) -> Seq<char> {
    let s1 = spec_replace(body, "'"@, "\""@, 0);
    let s2 = spec_replace(s1, ",\n}"@, "\n}"@, 0);
    let s3 = spec_replace(s2, ",\n  }"@, "\n  }"@, 0);
    let s4 = spec_replace(s3, "input:"@, "\"input\":"@, 0);
    let s5 = spec_replace(s4, "output:"@, "\"output\":"@, 0);
    let s6 = spec_replace(s5, "debug:"@, "\"debug\":"@, 0);
    let s7 = spec_replace(s6, "sort:"@, "\"sort\":"@, 0);
    let s8 = spec_replace(s7, "removeUnusedKeys:"@, "\"removeUnusedKeys\":"@, 0);
    let s9 = spec_replace(s8, "lngs:"@, "\"lngs\":"@, 0);
    spec_replace(s9, "defaultLng:"@, "\"defaultLng\":"@, 0)
}

fn apply_one(v: &Vec<char>, pat: &str, rep: &str) -> (r: Vec<char>)
    requires
        pat@.len() > 0,
    ensures
        r@ == spec_replace(v@, pat@, rep@, 0),
{
    let pc = to_chars(pat);
    let rc = to_chars(rep);
    replace_exec(v, &pc, &rc)
}

/// Normalizes the text of a JavaScript-style configuration file to plain
/// JSON, ready for a JSON parser: comment lines are dropped, the object
/// literal between the first `{` and the last `}` is kept, quotes are
/// normalized, trailing commas before closing braces removed, and the
/// recognised keys quoted. Nothing when no braced object is present.
pub fn prepare_config_json(content: &str) -> (r: Option<String>)
    ensures
        r.deep_view() == spec_prepare(content@),
{
    let cchars = to_chars(content);
    let lines = crate::linter::split_lines_exec(&cchars);
    let ghost lm = lines.deep_view();
    let mut cleaned: Vec<char> = Vec::new();
    let mut kept = false;
    let mut i: usize = 0;
    while i < lines.len()
        invariant
            i <= lines@.len(),
            lm == lines.deep_view(),
            cleaned@ == joined_code_lines(lm, i as int),
            kept == exists_kept(lm, i as int),
        decreases lines@.len() - i,
    {
        proof {
            assert(lm[i as int] == lines@[i as int]@);
        }
        let t = trim_vec(&lines[i]);
        let is_comment = t.len() >= 2 && t[0] == '/' && t[1] == '/';
        proof {
            assert(is_comment == is_comment_line(lm[i as int])) by {
                if trim(lm[i as int]).len() >= 2 {
                    assert(t@[0] == trim(lm[i as int])[0]);
                    assert(t@[1] == trim(lm[i as int])[1]);
                }
            }
        }
        if !is_comment {
            if kept {
                cleaned.push('\n');
            } else {
                proof {
                    lemma_joined_empty(lm, i as int);
                    assert(cleaned@ =~= Seq::<char>::empty());
                }
            }
            let mut lc = copy_range(&lines[i], 0, lines[i].len());
            proof {
                assert(lc@ =~= lm[i as int]);
            }
            cleaned.append(&mut lc);
            kept = true;
            proof {
                assert(cleaned@ =~= joined_code_lines(lm, i as int + 1));
                assert(exists_kept(lm, i as int + 1));
            }
        } else {
            proof {
                assert(exists_kept(lm, i as int + 1) == exists_kept(lm, i as int)) by {
                    if exists_kept(lm, i as int + 1) {
                        let w = choose|j: int|
                            0 <= j < i as int + 1 && !is_comment_line(#[trigger] lm[j]);
                        assert(w < i as int);
                    }
                }
            }
        }
        i += 1;
    }
    match find_char_exec(&cleaned, '{') {
        None => None,
        Some(b) => {
            let e = rfind_end_exec(&cleaned, '}');
            if e == 0 || e <= b {
                None
            } else {
                let body = copy_range(&cleaned, b, e);
                proof {
                    reveal_strlit("'");
                    reveal_strlit(",\n}");
                    reveal_strlit(",\n  }");
                    reveal_strlit("input:");
                    reveal_strlit("output:");
                    reveal_strlit("debug:");
                    reveal_strlit("sort:");
                    reveal_strlit("removeUnusedKeys:");
                    reveal_strlit("lngs:");
                    reveal_strlit("defaultLng:");
                }
                let s1 = apply_one(&body, "'", "\"");
                let s2 = apply_one(&s1, ",\n}", "\n}");
                let s3 = apply_one(&s2, ",\n  }", "\n  }");
                let s4 = apply_one(&s3, "input:", "\"input\":");
                let s5 = apply_one(&s4, "output:", "\"output\":");
                let s6 = apply_one(&s5, "debug:", "\"debug\":");
                let s7 = apply_one(&s6, "sort:", "\"sort\":");
                let s8 = apply_one(&s7, "removeUnusedKeys:", "\"removeUnusedKeys\":");
                let s9 = apply_one(&s8, "lngs:", "\"lngs\":");
                let s10 = apply_one(&s9, "defaultLng:", "\"defaultLng\":");
                Some(chars_to_string(&s10))
            }
        },
    }
}

proof fn lemma_joined_empty(lines: Seq<Seq<char>>, i: int)
    requires
        !exists_kept(lines, i),
    ensures
        joined_code_lines(lines, i) == Seq::<char>::empty(),
    decreases i,
{
    if i > 0 {
        assert(is_comment_line(lines[i - 1])) by {
            if !is_comment_line(lines[i - 1]) {
                assert(exists_kept(lines, i));
            }
        }
        assert(!exists_kept(lines, i - 1)) by {
            if exists_kept(lines, i - 1) {
                let w = choose|j: int| 0 <= j < i - 1 && !is_comment_line(#[trigger] lines[j]);
                assert(exists_kept(lines, i));
            }
        }
        lemma_joined_empty(lines, i - 1);
    }
}

fn find_char_exec(s: &Vec<char>, c: char) -> (r: Option<usize>)
    ensures
        (match r {
            Some(b) => find_char(s@, c, 0) == Some(b as int) && b < s@.len(),
            None => find_char(s@, c, 0) is None,
        }),
{
    let mut i: usize = 0;
    while i < s.len()
        invariant
            i <= s@.len(),
            find_char(s@, c, 0) == find_char(s@, c, i as int),
        decreases s@.len() - i,
    {
        if s[i] == c {
            return Some(i);
        }
        i += 1;
    }
    None
}

fn rfind_end_exec(s: &Vec<char>, c: char) -> (r: usize)
    ensures
        r as int == rfind_end(s@, c, s@.len() as int),
        r <= s@.len(),
{
    let mut i: usize = s.len();
    while i > 0 && s[i - 1] != c
        invariant
            i <= s@.len(),
            crate::utils::start_after_last(s@, c, s@.len() as int) == crate::utils::start_after_last(
                s@,
                c,
                i as int,
            ),
        decreases i,
    {
        i -= 1;
    }
    i
}

} // verus!
