//! Scans JavaScript/TypeScript source text for i18n translation calls, flags
//! hard-coded Chinese text, and merges translated strings into per-language
//! resource sets keyed by a deterministic content hash.

pub mod text;
pub mod hash_key;
pub mod extract;
pub mod linter;
pub mod slp;
pub mod utils;
pub mod config;
pub mod scan;
pub mod js_config;
pub mod remove_key;
pub mod nodes;

use vstd::prelude::*;

use crate::linter::next_char_at;
use crate::scan::{scan_result_matches, ScanInput, ScanResult, Scanner};
use crate::text::{chars_to_string, copy_range, to_chars, trim, trim_vec};

verus! {

/// Library version.
pub const VERSION: &'static str = "0.1.0";

/// The default scan configuration.
pub fn get_default_config() -> (r: crate::config::ScanConfig)
    ensures
        r.input.deep_view() == seq!["src/**/*.{js,jsx,ts,tsx}"@],
        r.lngs.deep_view() == seq!["zh"@],
        r.ns.deep_view() == seq!["translation"@],
        r.default_lng@ == "zh"@,
        r.default_ns@ == "translation"@,
        r.resource.load_path@ == ""@,
        r.resource.save_path@ == "i18n/translation/{{lng}}.js"@,
        r.func.list.deep_view() == seq!["i18next.t"@, "i18n.t"@, "t"@],
{
    crate::config::get_default_config()
}

/// A scanner with the default configuration.
pub fn create_scanner() -> (r: Scanner)
    ensures
        r.config.default_lng@ == "zh"@,
{
    Scanner::new()
}

/// Scans the given files (each handed over with its text, or with the
/// message of the failure to read it) with a fresh scanner. Never fails:
/// unreadable files become per-file parse errors in the result.
pub fn scan_files(files: &Vec<ScanInput>) -> (r: Result<ScanResult, String>)
    ensures
        (match r {
            Ok(res) => scan_result_matches(res, files.deep_view()),
            Err(e) => false,
        }),
{
    let mut scanner = create_scanner();
    scanner.scan_files(files)
}

/// Scans a single file.
pub fn scan_file(input: ScanInput) -> (r: Result<ScanResult, String>)
    ensures
        (match r {
            Ok(res) => scan_result_matches(res, seq![input.deep_view()]),
            Err(e) => false,
        }),
{
    let ghost m = input.deep_view();
    let mut files: Vec<ScanInput> = Vec::new();
    files.push(input);
    proof {
        assert(files.deep_view() =~~= seq![m]);
    }
    scan_files(&files)
}

/// The comma-separated pieces of the text from `i`, the piece under
/// construction given as `cur`.
pub open spec fn split_commas(s: Seq<char>, i: int, cur: Seq<char>) -> Seq<Seq<char>>
    decreases s.len() - i,
{
    if i < 0 || i >= s.len() {
        seq![cur]
    } else if s[i] == ',' {
        seq![cur] + split_commas(s, i + 1, Seq::empty())
    } else {
        split_commas(s, i + 1, cur.push(s[i]))
    }
}

/// What brace expansion yields: when the pattern holds a `{` and a later
/// `}` (each the first of its kind), one pattern per comma-separated
/// alternative, each trimmed and spliced between the prefix and the
/// suffix; otherwise the pattern itself.
pub open spec fn spec_expand_braces(p: Seq<char>) -> Seq<Seq<char>> {
    match next_char_at(p, '{', 0) {
        None => seq![p],
        Some(b) => {
            match next_char_at(p, '}', 0) {
                None => seq![p],
                Some(e) => {
                    if b < e {
                        split_commas(p.subrange(b + 1, e), 0, Seq::empty()).map_values(
                            |o: Seq<char>| p.take(b) + trim(o) + p.skip(e + 1),
                        )
                    } else {
                        seq![p]
                    }
                },
            }
        },
    }
}

fn wrap_piece(prefix: &Vec<char>, piece: &Vec<char>, suffix: &Vec<char>) -> (r: String)
    ensures
        r@ == prefix@ + trim(piece@) + suffix@,
{
    let mut w: Vec<char> = Vec::new();
    let mut pc = copy_range(prefix, 0, prefix.len());
    w.append(&mut pc);
    let mut tc = trim_vec(piece);
    w.append(&mut tc);
    let mut sc = copy_range(suffix, 0, suffix.len());
    w.append(&mut sc);
    proof {
        assert(prefix@.subrange(0, prefix@.len() as int) =~= prefix@);
        assert(suffix@.subrange(0, suffix@.len() as int) =~= suffix@);
    }
    chars_to_string(&w)
}

/// Expands one level of `{a,b,c}` brace alternatives in a glob pattern.
pub fn expand_braces(pattern: &str) -> (r: Vec<String>)
    ensures
        r.deep_view() == spec_expand_braces(pattern@),
{
    let v = to_chars(pattern);
    let start = find_char_in(&v, '{');
    let end = find_char_in(&v, '}');
    let (b, e) = match (start, end) {
        (Some(b), Some(e)) => (b, e),
        _ => {
            let mut out: Vec<String> = Vec::new();
            out.push(String::from_str(pattern));
            proof {
                assert(out.deep_view() =~~= seq![pattern@]);
            }
            return out;
        },
    };
    if b >= e {
        let mut out: Vec<String> = Vec::new();
        out.push(String::from_str(pattern));
        proof {
            assert(out.deep_view() =~~= seq![pattern@]);
        }
        return out;
    }
    let _n: usize = v.len();
    let prefix = copy_range(&v, 0, b);
    let suffix = copy_range(&v, e + 1, v.len());
    let opts = copy_range(&v, b + 1, e);
    proof {
        assert(prefix@ =~= pattern@.take(b as int));
        assert(suffix@ =~= pattern@.skip(e as int + 1));
        assert(opts@ =~= pattern@.subrange(b as int + 1, e as int));
    }
    let ghost om = split_commas(opts@, 0, Seq::empty());
    let ghost wrap = |o: Seq<char>| pattern@.take(b as int) + trim(o) + pattern@.skip(e as int + 1);
    let mut out: Vec<String> = Vec::new();
    let mut cur: Vec<char> = Vec::new();
    let ghost mut raw: Seq<Seq<char>> = Seq::empty();
    let mut i: usize = 0;
    while i < opts.len()
        invariant
            i <= opts@.len(),
            om == split_commas(opts@, 0, Seq::empty()),
            om == raw + split_commas(opts@, i as int, cur@),
            out.deep_view() == raw.map_values(wrap),
            prefix@ == pattern@.take(b as int),
            suffix@ == pattern@.skip(e as int + 1),
            wrap == (|o: Seq<char>| pattern@.take(b as int) + trim(o) + pattern@.skip(
                e as int + 1,
            )),
        decreases opts@.len() - i,
    {
        if opts[i] == ',' {
            let ghost o0 = out.deep_view();
            let ghost r0 = raw;
            out.push(wrap_piece(&prefix, &cur, &suffix));
            proof {
                raw = raw.push(cur@);
                assert(out.deep_view() =~~= o0.push(wrap(cur@)));
                assert(o0.push(wrap(cur@)) =~~= raw.map_values(wrap));
                assert(r0.push(cur@) + split_commas(opts@, i as int + 1, Seq::empty()) =~~= r0 + (
                seq![cur@] + split_commas(opts@, i as int + 1, Seq::empty())));
            }
            cur = Vec::new();
        } else {
            cur.push(opts[i]);
        }
        i += 1;
    }
    let ghost o0 = out.deep_view();
    out.push(wrap_piece(&prefix, &cur, &suffix));
    proof {
        raw = raw.push(cur@);
        assert(out.deep_view() =~~= o0.push(wrap(cur@)));
        assert(o0.push(wrap(cur@)) =~~= raw.map_values(wrap));
        assert(raw =~~= om);
        assert(out.deep_view() =~~= om.map_values(
            |o: Seq<char>| pattern@.take(b as int) + trim(o) + pattern@.skip(e as int + 1),
        ));
    }
    out
}

fn find_char_in(s: &Vec<char>, c: char) -> (r: Option<usize>)
    ensures
        (match r {
            Some(b) => next_char_at(s@, c, 0) == Some(b as int) && b < s@.len(),
            None => next_char_at(s@, c, 0) is None,
        }),
{
    let mut i: usize = 0;
    while i < s.len()
        invariant
            i <= s@.len(),
            next_char_at(s@, c, 0) == next_char_at(s@, c, i as int),
        decreases s@.len() - i,
    {
        if s[i] == c {
            return Some(i);
        }
        i += 1;
    }
    None
}

} // verus!
