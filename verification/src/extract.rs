//! The call-site extractor: a hand-rolled lexical scanner that finds
//! translation-function invocations (`t('key')`, `t('key', 'default')`,
//! `t('key', 'default', {opts})`) in arbitrary source text, extracts the key
//! and optional default value, pulls out a balanced-delimiter options span,
//! and shallowly parses `identifier: 'string'` pairs from it. It is
//! deliberately not a real parser: the grammar below is a best-effort,
//! single-pass match, and on imbalance the options span is truncated rather
//! than rejected.

use vstd::prelude::*;

use crate::text::{
    chars_to_string, copy_range, is_quote, is_quote_char, is_whitespace_char, is_word,
    is_word_char, is_ws, str_eq, to_chars, trim, trim_vec,
};

verus! {

// ------------------------------------------------------------------
// Data model
// ------------------------------------------------------------------
/// The options recognised on one extracted call, as character sequences.
pub struct OptionsModel {
    pub default_value: Option<Seq<char>>,
    pub default_value_plural: Option<Seq<char>>,
    pub count: Option<Seq<char>>,
    pub context: Option<Seq<char>>,
    pub ns: Option<Seq<char>>,
    pub key_separator: Option<Seq<char>>,
    pub ns_separator: Option<Seq<char>>,
}

/// No options at all.
pub open spec fn no_options() -> OptionsModel {
    OptionsModel {
        default_value: None,
        default_value_plural: None,
        count: None,
        context: None,
        ns: None,
        key_separator: None,
        ns_separator: None,
    }
}

/// The options recognised on one extracted call.
pub struct ParseOptions {
    pub default_value: Option<String>,
    pub default_value_plural: Option<String>,
    pub count: Option<String>,
    pub context: Option<String>,
    pub ns: Option<String>,
    pub key_separator: Option<String>,
    pub ns_separator: Option<String>,
}

impl DeepView for ParseOptions {
    type V = OptionsModel;

    open spec fn deep_view(&self) -> OptionsModel {
        OptionsModel {
            default_value: self.default_value.deep_view(),
            default_value_plural: self.default_value_plural.deep_view(),
            count: self.count.deep_view(),
            context: self.context.deep_view(),
            ns: self.ns.deep_view(),
            key_separator: self.key_separator.deep_view(),
            ns_separator: self.ns_separator.deep_view(),
        }
    }
}

impl Clone for ParseOptions {
    fn clone(&self) -> (r: Self)
        ensures
            r.deep_view() == self.deep_view(),
    {
        ParseOptions {
            default_value: self.default_value.clone(),
            default_value_plural: self.default_value_plural.clone(),
            count: self.count.clone(),
            context: self.context.clone(),
            ns: self.ns.clone(),
            key_separator: self.key_separator.clone(),
            ns_separator: self.ns_separator.clone(),
        }
    }
}

impl Default for ParseOptions {
    /// All options absent.
    fn default() -> (r: Self)
        ensures
            r.deep_view() == no_options(),
    {
        ParseOptions {
            default_value: None,
            default_value_plural: None,
            count: None,
            context: None,
            ns: None,
            key_separator: None,
            ns_separator: None,
        }
    }
}

// ------------------------------------------------------------------
// Basic scanning: whitespace runs and quoted strings
// ------------------------------------------------------------------
/// The first index at or after `i` holding a non-whitespace character.
pub open spec fn ws_end(t: Seq<char>, i: int) -> int
    decreases t.len() - i,
{
    if i < 0 || i >= t.len() {
        i
    } else if !is_ws(t[i]) {
        i
    } else {
        ws_end(t, i + 1)
    }
}

fn ws_end_exec(t: &Vec<char>, i: usize) -> (r: usize)
    requires
        i <= t@.len(),
    ensures
        i <= r <= t@.len(),
        r as int == ws_end(t@, i as int),
{
    let mut j = i;
    while j < t.len() && is_whitespace_char(t[j])
        invariant
            i <= j <= t@.len(),
            ws_end(t@, i as int) == ws_end(t@, j as int),
        decreases t@.len() - j,
    {
        j += 1;
    }
    j
}

/// Given an opening quote of kind `q` just before index `j`, the index after
/// the closing quote, scanning over body characters and backslash escapes.
/// A backslash directly before a newline, or a string that never closes,
/// yields no match.
pub open spec fn quote_body_end(t: Seq<char>, q: char, j: int) -> Option<int>
    decreases t.len() - j,
{
    if j < 0 || j >= t.len() {
        None
    } else if t[j] == q {
        Some(j + 1)
    } else if t[j] == '\\' {
        if j + 1 < t.len() {
            if t[j + 1] == '\n' {
                None
            } else {
                quote_body_end(t, q, j + 2)
            }
        } else {
            None
        }
    } else {
        quote_body_end(t, q, j + 1)
    }
}

fn quote_body_end_exec(t: &Vec<char>, q: char, j: usize) -> (r: Option<usize>)
    requires
        j <= t@.len(),
    ensures
        (match r {
            Some(e) => quote_body_end(t@, q, j as int) == Some(e as int) && j < e <= t@.len(),
            None => quote_body_end(t@, q, j as int) is None,
        }),
    decreases t@.len() - j,
{
    if j == t.len() {
        None
    } else if t[j] == q {
        Some(j + 1)
    } else if t[j] == '\\' {
        if j + 1 < t.len() {
            if t[j + 1] == '\n' {
                None
            } else {
                quote_body_end_exec(t, q, j + 2)
            }
        } else {
            None
        }
    } else {
        quote_body_end_exec(t, q, j + 1)
    }
}

/// A quoted-string argument with surrounding whitespace: whitespace, a
/// quoted literal (any of the three quote kinds, with escapes), whitespace.
/// Yields the literal's span (quotes included) and the position after the
/// trailing whitespace.
pub open spec fn string_arg(t: Seq<char>, i: int) -> Option<(int, int, int)> {
    let a = ws_end(t, i);
    if 0 <= a && a < t.len() && is_quote(t[a]) {
        match quote_body_end(t, t[a], a + 1) {
            Some(e) => Some((a, e, ws_end(t, e))),
            None => None,
        }
    } else {
        None
    }
}

fn string_arg_exec(t: &Vec<char>, i: usize) -> (r: Option<(usize, usize, usize)>)
    requires
        i <= t@.len(),
    ensures
        (match r {
            Some((lo, hi, p)) => string_arg(t@, i as int) == Some((lo as int, hi as int, p as int))
                && i <= lo < hi <= p <= t@.len() && hi >= lo + 2,
            None => string_arg(t@, i as int) is None,
        }),
{
    let a = ws_end_exec(t, i);
    if a < t.len() && is_quote_char(t[a]) {
        match quote_body_end_exec(t, t[a], a + 1) {
            Some(e) => {
                let p = ws_end_exec(t, e);
                Some((a, e, p))
            },
            None => None,
        }
    } else {
        None
    }
}

// ------------------------------------------------------------------
// Matching one call site
// ------------------------------------------------------------------
/// The spans of one matched invocation: the key literal, the optional
/// default-value literal, the end of the whole match (just after the
/// terminating `,` or `)`), and whether the match ended with a comma
/// (meaning a third, options argument follows).
pub struct CallMatch {
    pub key_lo: int,
    pub key_hi: int,
    pub has_dv: bool,
    pub dv_lo: int,
    pub dv_hi: int,
    pub end: int,
    pub trailing_comma: bool,
}

/// Parses the arguments after `(`: a first quoted string (the key), then
/// either `)`, or `,` followed optionally by a second quoted string (the
/// default value) that must itself be terminated by `,` or `)`. When the
/// second string cannot be parsed that way, the first comma terminates the
/// match and an options argument is assumed to follow.
pub open spec fn args_at(t: Seq<char>, i: int) -> Option<CallMatch> {
    match string_arg(t, i) {
        None => None,
        Some((klo, khi, p)) => {
            if p >= t.len() {
                None
            } else if t[p] == ')' {
                Some(
                    CallMatch {
                        key_lo: klo,
                        key_hi: khi,
                        has_dv: false,
                        dv_lo: 0,
                        dv_hi: 0,
                        end: p + 1,
                        trailing_comma: false,
                    },
                )
            } else if t[p] == ',' {
                match string_arg(t, p + 1) {
                    Some((dlo, dhi, q)) => {
                        if q < t.len() && (t[q] == ',' || t[q] == ')') {
                            Some(
                                CallMatch {
                                    key_lo: klo,
                                    key_hi: khi,
                                    has_dv: true,
                                    dv_lo: dlo,
                                    dv_hi: dhi,
                                    end: q + 1,
                                    trailing_comma: t[q] == ',',
                                },
                            )
                        } else {
                            Some(
                                CallMatch {
                                    key_lo: klo,
                                    key_hi: khi,
                                    has_dv: false,
                                    dv_lo: 0,
                                    dv_hi: 0,
                                    end: p + 1,
                                    trailing_comma: true,
                                },
                            )
                        }
                    },
                    None => Some(
                        CallMatch {
                            key_lo: klo,
                            key_hi: khi,
                            has_dv: false,
                            dv_lo: 0,
                            dv_hi: 0,
                            end: p + 1,
                            trailing_comma: true,
                        },
                    ),
                }
            } else {
                None
            }
        },
    }
}

/// The executable twin of a [`CallMatch`], with machine indices.
struct FoundCall {
    key_lo: usize,
    key_hi: usize,
    has_dv: bool,
    dv_lo: usize,
    dv_hi: usize,
    end: usize,
    trailing_comma: bool,
}

/// Whether an executable match mirrors a spec-level match and its spans lie
/// within a text of length `n`.
spec fn found_matches(fc: FoundCall, m: CallMatch, n: int) -> bool {
    &&& fc.key_lo == m.key_lo
    &&& fc.key_hi == m.key_hi
    &&& fc.has_dv == m.has_dv
    &&& fc.dv_lo == m.dv_lo
    &&& fc.dv_hi == m.dv_hi
    &&& fc.end == m.end
    &&& fc.trailing_comma == m.trailing_comma
    &&& fc.key_lo <= fc.key_hi <= n
    &&& fc.dv_lo <= fc.dv_hi <= n
    &&& 0 < fc.end <= n
}

fn args_at_exec(t: &Vec<char>, i: usize) -> (r: Option<FoundCall>)
    requires
        i <= t@.len(),
    ensures
        (match r {
            Some(fc) => args_at(t@, i as int) is Some && found_matches(
                fc,
                args_at(t@, i as int)->Some_0,
                t@.len() as int,
            ) && i < fc.end,
            None => args_at(t@, i as int) is None,
        }),
{
    match string_arg_exec(t, i) {
        None => None,
        Some((klo, khi, p)) => {
            if p >= t.len() {
                None
            } else if t[p] == ')' {
                Some(
                    FoundCall {
                        key_lo: klo,
                        key_hi: khi,
                        has_dv: false,
                        dv_lo: 0,
                        dv_hi: 0,
                        end: p + 1,
                        trailing_comma: false,
                    },
                )
            } else if t[p] == ',' {
                match string_arg_exec(t, p + 1) {
                    Some((dlo, dhi, q)) => {
                        if q < t.len() && (t[q] == ',' || t[q] == ')') {
                            Some(
                                FoundCall {
                                    key_lo: klo,
                                    key_hi: khi,
                                    has_dv: true,
                                    dv_lo: dlo,
                                    dv_hi: dhi,
                                    end: q + 1,
                                    trailing_comma: t[q] == ',',
                                },
                            )
                        } else {
                            Some(
                                FoundCall {
                                    key_lo: klo,
                                    key_hi: khi,
                                    has_dv: false,
                                    dv_lo: 0,
                                    dv_hi: 0,
                                    end: p + 1,
                                    trailing_comma: true,
                                },
                            )
                        }
                    },
                    None => Some(
                        FoundCall {
                            key_lo: klo,
                            key_hi: khi,
                            has_dv: false,
                            dv_lo: 0,
                            dv_hi: 0,
                            end: p + 1,
                            trailing_comma: true,
                        },
                    ),
                }
            } else {
                None
            }
        },
    }
}

/// Whether the characters of `f` appear in `t` starting at `j`.
pub open spec fn matches_at(t: Seq<char>, f: Seq<char>, j: int) -> bool {
    0 <= j && j + f.len() <= t.len() && t.subrange(j, j + f.len() as int) == f
}

fn matches_at_exec(t: &Vec<char>, f: &Vec<char>, j: usize) -> (r: bool)
    requires
        j <= t@.len(),
    ensures
        r == matches_at(t@, f@, j as int),
{
    let n: usize = t.len();
    if f.len() > n - j {
        return false;
    }
    let mut k: usize = 0;
    while k < f.len()
        invariant
            j + f@.len() <= t@.len(),
            t@.len() <= usize::MAX,
            k <= f@.len(),
            forall|x: int| 0 <= x < k ==> t@[j + x] == f@[x],
        decreases f@.len() - k,
    {
        if t[j + k] != f[k] {
            proof {
                assert(t@.subrange(j as int, j + f@.len() as int)[k as int] == t@[j + k]);
            }
            return false;
        }
        k += 1;
    }
    proof {
        assert(t@.subrange(j as int, j + f@.len() as int) =~= f@);
    }
    true
}

/// Tries each configured call name in order at position `j`: the name must
/// be followed directly by `(` and a parseable argument list.
pub open spec fn func_at(t: Seq<char>, fd: Seq<Seq<char>>, j: int, fi: int) -> Option<CallMatch>
    decreases fd.len() - fi,
{
    if fi < 0 || fi >= fd.len() {
        None
    } else {
        let f = fd[fi];
        if matches_at(t, f, j) && j + f.len() < t.len() && t[j + f.len() as int] == '(' {
            match args_at(t, j + f.len() + 1) {
                Some(m) => Some(m),
                None => func_at(t, fd, j, fi + 1),
            }
        } else {
            func_at(t, fd, j, fi + 1)
        }
    }
}

fn func_at_exec(t: &Vec<char>, fd: &Vec<Vec<char>>, j: usize, fi: usize) -> (r: Option<FoundCall>)
    requires
        j <= t@.len(),
        fi <= fd@.len(),
    ensures
        (match r {
            Some(fc) => func_at(t@, fd.deep_view(), j as int, fi as int) is Some && found_matches(
                fc,
                func_at(t@, fd.deep_view(), j as int, fi as int)->Some_0,
                t@.len() as int,
            ) && j < fc.end,
            None => func_at(t@, fd.deep_view(), j as int, fi as int) is None,
        }),
    decreases fd@.len() - fi,
{
    if fi == fd.len() {
        None
    } else {
        let f = &fd[fi];
        proof {
            assert(fd.deep_view()[fi as int] == fd@[fi as int]@);
        }
        if matches_at_exec(t, f, j) && f.len() < t.len() - j && t[j + f.len()] == '(' {
            match args_at_exec(t, j + f.len() + 1) {
                Some(m) => Some(m),
                None => func_at_exec(t, fd, j, fi + 1),
            }
        } else {
            func_at_exec(t, fd, j, fi + 1)
        }
    }
}

/// A match starting at position `i`. At the start of the text the call may
/// be preceded by whitespace only; anywhere else the character at `i` must
/// be a non-identifier boundary character, with the call name directly
/// after it.
pub open spec fn match_at(t: Seq<char>, fd: Seq<Seq<char>>, i: int) -> Option<CallMatch> {
    if i == 0 {
        match func_at(t, fd, ws_end(t, 0), 0) {
            Some(m) => Some(m),
            None => {
                if t.len() > 0 && !is_word(t[0]) {
                    func_at(t, fd, 1, 0)
                } else {
                    None
                }
            },
        }
    } else if 0 < i < t.len() && !is_word(t[i]) {
        func_at(t, fd, i + 1, 0)
    } else {
        None
    }
}

fn match_at_exec(t: &Vec<char>, fd: &Vec<Vec<char>>, i: usize) -> (r: Option<FoundCall>)
    requires
        i < t@.len(),
    ensures
        (match r {
            Some(fc) => match_at(t@, fd.deep_view(), i as int) is Some && found_matches(
                fc,
                match_at(t@, fd.deep_view(), i as int)->Some_0,
                t@.len() as int,
            ) && fc.end > 0,
            None => match_at(t@, fd.deep_view(), i as int) is None,
        }),
{
    let _n: usize = t.len();
    if i == 0 {
        let j = ws_end_exec(t, 0);
        match func_at_exec(t, fd, j, 0) {
            Some(m) => Some(m),
            None => {
                if !is_word_char(t[0]) {
                    func_at_exec(t, fd, 1, 0)
                } else {
                    None
                }
            },
        }
    } else if !is_word_char(t[i]) {
        func_at_exec(t, fd, i + 1, 0)
    } else {
        None
    }
}

// ------------------------------------------------------------------
// The balanced-delimiter options span
// ------------------------------------------------------------------
pub open spec fn is_open_bracket(c: char) -> bool {
    c == '(' || c == '[' || c == '{'
}

pub open spec fn is_close_bracket(c: char) -> bool {
    c == ')' || c == ']' || c == '}'
}

pub open spec fn close_of(c: char) -> char {
    if c == '(' {
        ')'
    } else if c == '[' {
        ']'
    } else {
        '}'
    }
}

/// The balanced bracketed span: capture starts at the first opening bracket;
/// brackets are matched on a stack; the span ends when the stack empties,
/// when a closing bracket mismatches the stack top (truncate there — the
/// whole call is not failed), or at the end of the text.
pub open spec fn bal(t: Seq<char>, i: int, stack: Seq<char>, start: Option<int>) -> Seq<char>
    decreases t.len() - i,
{
    if start is Some && stack.len() == 0 {
        t.subrange(start->0, i)
    } else if i < 0 || i >= t.len() {
        t.subrange(
            match start {
                Some(st) => st,
                None => 0,
            },
            t.len() as int,
        )
    } else {
        let c = t[i];
        if is_open_bracket(c) {
            bal(
                t,
                i + 1,
                stack.push(close_of(c)),
                match start {
                    Some(st) => Some(st),
                    None => Some(i),
                },
            )
        } else if is_close_bracket(c) {
            if stack.len() > 0 && stack.last() == c {
                bal(t, i + 1, stack.drop_last(), start)
            } else {
                t.subrange(
                    match start {
                        Some(st) => st,
                        None => 0,
                    },
                    i,
                )
            }
        } else {
            bal(t, i + 1, stack, start)
        }
    }
}

/// The balanced span from the start of the text.
pub open spec fn balanced_span(t: Seq<char>) -> Seq<char> {
    bal(t, 0, Seq::empty(), None)
}

fn balanced_exec(t: &Vec<char>) -> (r: Vec<char>)
    ensures
        r@ == balanced_span(t@),
{
    let mut i: usize = 0;
    let mut stack: Vec<char> = Vec::new();
    let mut start: Option<usize> = None;
    loop
        invariant
            i <= t@.len(),
            (match start {
                Some(st) => st < t@.len() && st <= i,
                None => true,
            }),
            balanced_span(t@) == bal(
                t@,
                i as int,
                stack@,
                match start {
                    Some(st) => Some(st as int),
                    None => None,
                },
            ),
        decreases t@.len() - i,
    {
        match start {
            Some(st) => {
                if stack.len() == 0 {
                    return copy_range(t, st, i);
                }
            },
            None => {},
        }
        if i == t.len() {
            let st = match start {
                Some(st) => st,
                None => 0,
            };
            return copy_range(t, st, t.len());
        }
        let c = t[i];
        if c == '(' || c == '[' || c == '{' {
            let cl = if c == '(' {
                ')'
            } else if c == '[' {
                ']'
            } else {
                '}'
            };
            stack.push(cl);
            if start.is_none() {
                start = Some(i);
            }
        } else if c == ')' || c == ']' || c == '}' {
            let ok = stack.len() > 0 && *stack.last().unwrap() == c;
            if ok {
                proof {
                    assert(stack@.drop_last() =~= stack@.take(stack@.len() - 1));
                }
                stack.pop();
            } else {
                let st = match start {
                    Some(st) => st,
                    None => 0,
                };
                return copy_range(t, st, i);
            }
        }
        i += 1;
    }
}

/// Recovers the balanced bracketed span at the start of the text, or —
/// when no bracket is found, or the text runs out — the remainder from the
/// first opening bracket (or the whole text).
pub fn match_balanced_parentheses(s: &str) -> (r: String)
    ensures
        r@ == balanced_span(s@),
{
    let t = to_chars(s);
    let span = balanced_exec(&t);
    chars_to_string(&span)
}

// ------------------------------------------------------------------
// Shallow option parsing: `identifier: 'string'` pairs
// ------------------------------------------------------------------
/// The end of the identifier run starting at `i`.
pub open spec fn word_end(t: Seq<char>, i: int) -> int
    decreases t.len() - i,
{
    if i < 0 || i >= t.len() {
        i
    } else if !is_word(t[i]) {
        i
    } else {
        word_end(t, i + 1)
    }
}

fn word_end_exec(t: &Vec<char>, i: usize) -> (r: usize)
    requires
        i <= t@.len(),
    ensures
        i <= r <= t@.len(),
        r as int == word_end(t@, i as int),
{
    let mut j = i;
    while j < t.len() && is_word_char(t[j])
        invariant
            i <= j <= t@.len(),
            word_end(t@, i as int) == word_end(t@, j as int),
        decreases t@.len() - j,
    {
        j += 1;
    }
    j
}

/// The index of the closing quote for a value: the first occurrence of `q`,
/// with no newline before it.
pub open spec fn value_end(t: Seq<char>, q: char, j: int) -> Option<int>
    decreases t.len() - j,
{
    if j < 0 || j >= t.len() {
        None
    } else if t[j] == q {
        Some(j)
    } else if t[j] == '\n' {
        None
    } else {
        value_end(t, q, j + 1)
    }
}

fn value_end_exec(t: &Vec<char>, q: char, j: usize) -> (r: Option<usize>)
    requires
        j <= t@.len(),
    ensures
        (match r {
            Some(e) => value_end(t@, q, j as int) == Some(e as int) && j <= e < t@.len(),
            None => value_end(t@, q, j as int) is None,
        }),
    decreases t@.len() - j,
{
    if j == t.len() {
        None
    } else if t[j] == q {
        Some(j)
    } else if t[j] == '\n' {
        None
    } else {
        value_end_exec(t, q, j + 1)
    }
}

/// One `identifier: 'value'` pair starting exactly at `i`: an identifier
/// run, optional whitespace, a colon, optional whitespace, and a quoted
/// value on a single line. Yields the pair and the index after the closing
/// quote.
pub open spec fn prop_at(t: Seq<char>, i: int) -> Option<(Seq<char>, Seq<char>, int)> {
    if i < 0 || i >= t.len() || !is_word(t[i]) {
        None
    } else {
        let ke = word_end(t, i);
        let c1 = ws_end(t, ke);
        if c1 >= t.len() || t[c1] != ':' {
            None
        } else {
            let vs = ws_end(t, c1 + 1);
            if vs >= t.len() || !is_quote(t[vs]) {
                None
            } else {
                match value_end(t, t[vs], vs + 1) {
                    Some(ve) => Some((t.subrange(i, ke), t.subrange(vs + 1, ve), ve + 1)),
                    None => None,
                }
            }
        }
    }
}

/// All pairs found by scanning left to right, resuming after each match.
pub open spec fn props_from(t: Seq<char>, i: int) -> Seq<(Seq<char>, Seq<char>)>
    decreases t.len() - i,
{
    if i < 0 || i >= t.len() {
        Seq::empty()
    } else {
        match prop_at(t, i) {
            Some((k, v, e)) => {
                let j = if i + 1 < e && e <= t.len() {
                    e
                } else {
                    i + 1
                };
                seq![(k, v)] + props_from(t, j)
            },
            None => props_from(t, i + 1),
        }
    }
}

fn prop_at_exec(t: &Vec<char>, i: usize) -> (r: Option<(Vec<char>, Vec<char>, usize)>)
    requires
        i < t@.len(),
    ensures
        (match r {
            Some((k, v, e)) => prop_at(t@, i as int) is Some && ({
                let m = prop_at(t@, i as int)->Some_0;
                k@ == m.0 && v@ == m.1 && e as int == m.2 && i < e <= t@.len()
            }),
            None => prop_at(t@, i as int) is None,
        }),
{
    if !is_word_char(t[i]) {
        None
    } else {
        let ke = word_end_exec(t, i);
        let c1 = ws_end_exec(t, ke);
        if c1 >= t.len() || t[c1] != ':' {
            None
        } else {
            let vs = ws_end_exec(t, c1 + 1);
            if vs >= t.len() || !is_quote_char(t[vs]) {
                None
            } else {
                match value_end_exec(t, t[vs], vs + 1) {
                    Some(ve) => {
                        let k = copy_range(t, i, ke);
                        let v = copy_range(t, vs + 1, ve);
                        Some((k, v, ve + 1))
                    },
                    None => None,
                }
            }
        }
    }
}

fn props_scan_exec(t: &Vec<char>) -> (r: Vec<(Vec<char>, Vec<char>)>)
    ensures
        r.deep_view() == props_from(t@, 0),
{
    let mut out: Vec<(Vec<char>, Vec<char>)> = Vec::new();
    let mut i: usize = 0;
    while i < t.len()
        invariant
            i <= t@.len(),
            out.deep_view() + props_from(t@, i as int) == props_from(t@, 0),
        decreases t@.len() - i,
    {
        match prop_at_exec(t, i) {
            Some((k, v, e)) => {
                let ghost dv0 = out.deep_view();
                let ghost pair = (k@, v@);
                proof {
                    assert(props_from(t@, i as int) == seq![pair] + props_from(t@, e as int));
                }
                out.push((k, v));
                proof {
                    assert(out.deep_view() =~~= dv0.push(pair));
                    assert(dv0.push(pair) + props_from(t@, e as int) =~~= dv0 + (seq![pair]
                        + props_from(t@, e as int)));
                }
                i = e;
            },
            None => {
                i += 1;
            },
        }
    }
    proof {
        assert(out.deep_view() + props_from(t@, i as int) =~= out.deep_view());
    }
    out
}

// ------------------------------------------------------------------
// Folding recognised options
// ------------------------------------------------------------------
/// Applies one parsed pair to the options, if its key is a recognised
/// option name; unrecognised keys are ignored.
pub open spec fn apply_prop(o: OptionsModel, k: Seq<char>, v: Seq<char>) -> OptionsModel {
    if k == "defaultValue"@ {
        OptionsModel { default_value: Some(v), ..o }
    } else if k == "defaultValue_plural"@ {
        OptionsModel { default_value_plural: Some(v), ..o }
    } else if k == "count"@ {
        OptionsModel { count: Some(v), ..o }
    } else if k == "context"@ {
        OptionsModel { context: Some(v), ..o }
    } else if k == "ns"@ {
        OptionsModel { ns: Some(v), ..o }
    } else if k == "keySeparator"@ {
        OptionsModel { key_separator: Some(v), ..o }
    } else if k == "nsSeparator"@ {
        OptionsModel { ns_separator: Some(v), ..o }
    } else {
        o
    }
}

/// Applies all parsed pairs in order; later pairs overwrite earlier ones.
pub open spec fn fold_props(o: OptionsModel, props: Seq<(Seq<char>, Seq<char>)>) -> OptionsModel
    decreases props.len(),
{
    if props.len() == 0 {
        o
    } else {
        fold_props(apply_prop(o, props[0].0, props[0].1), props.drop_first())
    }
}

/// Whether a character vector holds the same characters as a string slice.
fn chars_eq_str(v: &Vec<char>, s: &str) -> (r: bool)
    ensures
        r == (v@ == s@),
{
    let n = s.unicode_len();
    if v.len() != n {
        return false;
    }
    let mut i: usize = 0;
    while i < n
        invariant
            n == s@.len(),
            n == v@.len(),
            i <= n,
            forall|j: int| 0 <= j < i ==> v@[j] == s@[j],
        decreases n - i,
    {
        if v[i] != s.get_char(i) {
            return false;
        }
        i += 1;
    }
    proof {
        assert(v@ =~= s@);
    }
    true
}

fn apply_props(po: &mut ParseOptions, props: &Vec<(Vec<char>, Vec<char>)>)
    ensures
        final(po).deep_view() == fold_props(old(po).deep_view(), props.deep_view()),
{
    proof {
        assert(props.deep_view().skip(0) =~~= props.deep_view());
    }
    let mut i: usize = 0;
    while i < props.len()
        invariant
            i <= props@.len(),
            fold_props(old(po).deep_view(), props.deep_view()) == fold_props(
                po.deep_view(),
                props.deep_view().skip(i as int),
            ),
        decreases props@.len() - i,
    {
        let ghost po0 = po.deep_view();
        let ghost pk = props.deep_view()[i as int].0;
        let ghost pv = props.deep_view()[i as int].1;
        proof {
            assert(props.deep_view().skip(i as int)[0] == props.deep_view()[i as int]);
            assert(props.deep_view().skip(i as int).drop_first() =~~= props.deep_view().skip(
                i as int + 1,
            ));
            assert(props.deep_view()[i as int] == (props@[i as int].0@, props@[i as int].1@));
        }
        let k = &props[i].0;
        let v = &props[i].1;
        if chars_eq_str(k, "defaultValue") {
            po.default_value = Some(chars_to_string(v));
        } else if chars_eq_str(k, "defaultValue_plural") {
            po.default_value_plural = Some(chars_to_string(v));
        } else if chars_eq_str(k, "count") {
            po.count = Some(chars_to_string(v));
        } else if chars_eq_str(k, "context") {
            po.context = Some(chars_to_string(v));
        } else if chars_eq_str(k, "ns") {
            po.ns = Some(chars_to_string(v));
        } else if chars_eq_str(k, "keySeparator") {
            po.key_separator = Some(chars_to_string(v));
        } else if chars_eq_str(k, "nsSeparator") {
            po.ns_separator = Some(chars_to_string(v));
        }
        proof {
            assert(po.deep_view() == apply_prop(po0, pk, pv));
        }
        i += 1;
    }
    proof {
        assert(props.deep_view().skip(props@.len() as int).len() == 0);
    }
}

// ------------------------------------------------------------------
// Unquoting
// ------------------------------------------------------------------
/// Trims a captured span and strips one layer of matching quotes. An empty
/// or whitespace-only span yields nothing; a key that unquotes to the empty
/// string yields nothing either (empty keys are invalid), while an empty
/// unquoted non-key value is kept.
pub open spec fn fix_string(s: Seq<char>, is_key: bool) -> Option<Seq<char>> {
    if s.len() == 0 {
        None
    } else {
        let t = trim(s);
        if t.len() == 0 {
            None
        } else {
            let u = if t.len() >= 2 && is_quote(t[0]) && t.last() == t[0] {
                t.subrange(1, t.len() - 1)
            } else {
                t
            };
            if u.len() == 0 && is_key {
                None
            } else {
                Some(u)
            }
        }
    }
}

fn fix_string_vec(v: &Vec<char>, is_key: bool) -> (r: Option<Vec<char>>)
    ensures
        (match r {
            Some(rv) => fix_string(v@, is_key) == Some(rv@),
            None => fix_string(v@, is_key) is None,
        }),
{
    if v.len() == 0 {
        return None;
    }
    let t = trim_vec(v);
    if t.len() == 0 {
        return None;
    }
    let u = if t.len() >= 2 && is_quote_char(t[0]) && t[t.len() - 1] == t[0] {
        copy_range(&t, 1, t.len() - 1)
    } else {
        t
    };
    if u.len() == 0 && is_key {
        None
    } else {
        Some(u)
    }
}

// ------------------------------------------------------------------
// One extracted call, and storing calls
// ------------------------------------------------------------------
/// The options attached to a match: the default value captured in the call
/// itself, overridden by any recognised pairs parsed from the balanced
/// options span that follows a trailing comma. A span that trims to nothing
/// is ignored.
pub open spec fn options_of_match(t: Seq<char>, m: CallMatch, dv: Option<Seq<char>>) -> OptionsModel {
    let base = OptionsModel { default_value: dv, ..no_options() };
    if m.trailing_comma {
        let code = balanced_span(t.skip(m.end));
        if trim(code).len() > 0 {
            fold_props(base, props_from(code, 0))
        } else {
            base
        }
    } else {
        base
    }
}

/// The key and options of one match, or nothing when the key is empty after
/// unquoting (an invalid key discards the match) or a captured default
/// value fails to unquote.
pub open spec fn call_of_match(t: Seq<char>, m: CallMatch) -> Option<(Seq<char>, OptionsModel)> {
    match fix_string(t.subrange(m.key_lo, m.key_hi), true) {
        None => None,
        Some(k) => {
            if m.has_dv {
                match fix_string(t.subrange(m.dv_lo, m.dv_hi), false) {
                    None => None,
                    Some(dv) => Some((k, options_of_match(t, m, Some(dv)))),
                }
            } else {
                Some((k, options_of_match(t, m, None)))
            }
        },
    }
}

/// Stores one call in the translation map: the entry for the key is
/// overwritten in place, or appended when the key is new (last writer wins).
pub open spec fn store_one(
    tr: Seq<(Seq<char>, OptionsModel)>,
    k: Seq<char>,
    o: OptionsModel,
) -> Seq<(Seq<char>, OptionsModel)>
    decreases tr.len(),
{
    if tr.len() == 0 {
        seq![(k, o)]
    } else if tr[0].0 == k {
        seq![(k, o)] + tr.drop_first()
    } else {
        seq![tr[0]] + store_one(tr.drop_first(), k, o)
    }
}

proof fn lemma_store_one_update(
    tr: Seq<(Seq<char>, OptionsModel)>,
    k: Seq<char>,
    o: OptionsModel,
    idx: int,
)
    requires
        0 <= idx < tr.len(),
        tr[idx].0 == k,
        forall|j: int| 0 <= j < idx ==> (#[trigger] tr[j]).0 != k,
    ensures
        store_one(tr, k, o) == tr.update(idx, (k, o)),
    decreases idx,
{
    if idx == 0 {
        assert(store_one(tr, k, o) =~= tr.update(0, (k, o)));
    } else {
        lemma_store_one_update(tr.drop_first(), k, o, idx - 1);
        assert(seq![tr[0]] + tr.drop_first().update(idx - 1, (k, o)) =~= tr.update(idx, (k, o)));
    }
}

proof fn lemma_store_one_push(tr: Seq<(Seq<char>, OptionsModel)>, k: Seq<char>, o: OptionsModel)
    requires
        forall|j: int| 0 <= j < tr.len() ==> (#[trigger] tr[j]).0 != k,
    ensures
        store_one(tr, k, o) == tr.push((k, o)),
    decreases tr.len(),
{
    if tr.len() == 0 {
        assert(store_one(tr, k, o) =~= tr.push((k, o)));
    } else {
        lemma_store_one_push(tr.drop_first(), k, o);
        assert(seq![tr[0]] + tr.drop_first().push((k, o)) =~= tr.push((k, o)));
    }
}

/// Scans the text from position `i`, storing every extracted call into the
/// translation map, scanning resuming after each match.
pub open spec fn scan_store(
    t: Seq<char>,
    fd: Seq<Seq<char>>,
    i: int,
    tr: Seq<(Seq<char>, OptionsModel)>,
) -> Seq<(Seq<char>, OptionsModel)>
    decreases t.len() - i,
{
    if i < 0 || i >= t.len() {
        tr
    } else {
        match match_at(t, fd, i) {
            None => scan_store(t, fd, i + 1, tr),
            Some(m) => {
                let j = if i + 1 < m.end && m.end <= t.len() {
                    m.end
                } else {
                    i + 1
                };
                match call_of_match(t, m) {
                    None => scan_store(t, fd, j, tr),
                    Some((k, o)) => scan_store(t, fd, j, store_one(tr, k, o)),
                }
            },
        }
    }
}

// ------------------------------------------------------------------
// The parser
// ------------------------------------------------------------------
/// Scanner-side parser options for the extraction pass.
pub struct BabylonOptions {
    pub plugins: Vec<String>,
    pub source_type: String,
}

impl Default for BabylonOptions {
    /// The default parser plugins.
    fn default() -> (r: Self)
        ensures
            r.plugins@.len() == 3,
            r.source_type@ == "module"@,
    {
        let mut plugins: Vec<String> = Vec::new();
        plugins.push(String::from_str("jsx"));
        plugins.push(String::from_str("typescript"));
        plugins.push(String::from_str("objectRestSpread"));
        BabylonOptions { plugins, source_type: String::from_str("module") }
    }
}

/// The configured call names and parser options.
pub struct FuncParseConfig {
    pub list: Vec<String>,
    pub babylon: BabylonOptions,
}

impl Default for FuncParseConfig {
    /// The default recognised call names: `t`, `i18n.t`, `i18next.t`.
    fn default() -> (r: Self)
        ensures
            r.list.deep_view() =~= seq!["t"@, "i18n.t"@, "i18next.t"@],
    {
        let mut list: Vec<String> = Vec::new();
        list.push(String::from_str("t"));
        list.push(String::from_str("i18n.t"));
        list.push(String::from_str("i18next.t"));
        proof {
            assert(list.deep_view() =~= seq!["t"@, "i18n.t"@, "i18next.t"@]);
        }
        FuncParseConfig { list, babylon: BabylonOptions::default() }
    }
}

/// Per-call options for one extraction pass.
pub struct ParserOpts {
    /// Call names to recognise for this pass; the parser's own list when
    /// absent.
    pub list: Option<Vec<String>>,
    /// The path the text came from, for diagnostics.
    pub filepath: Option<String>,
    /// Parser options for this pass; the parser's own when absent.
    pub babylon_options: Option<BabylonOptions>,
}

impl Default for ParserOpts {
    fn default() -> (r: Self)
        ensures
            r.list is None,
            r.filepath is None,
            r.babylon_options is None,
    {
        ParserOpts { list: None, filepath: None, babylon_options: None }
    }
}

/// The parser's persistent options.
pub struct ParserOptions {
    pub func: FuncParseConfig,
}

impl Default for ParserOptions {
    fn default() -> (r: Self)
        ensures
            r.func.list.deep_view() =~= seq!["t"@, "i18n.t"@, "i18next.t"@],
    {
        ParserOptions { func: FuncParseConfig::default() }
    }
}

/// Stores one key/options pair in a translation map, overwriting in place
/// or appending.
fn store_call(tr: &mut Vec<(String, ParseOptions)>, key: &str, options: ParseOptions)
    ensures
        final(tr).deep_view() == store_one(old(tr).deep_view(), key@, options.deep_view()),
{
    let ghost m0 = tr.deep_view();
    let mut i: usize = 0;
    while i < tr.len()
        invariant
            i <= tr@.len(),
            m0 == tr.deep_view(),
            tr == old(tr),
            forall|j: int| 0 <= j < i ==> (#[trigger] m0[j]).0 != key@,
        decreases tr@.len() - i,
    {
        if str_eq(tr[i].0.as_str(), key) {
            proof {
                lemma_store_one_update(m0, key@, options.deep_view(), i as int);
            }
            tr[i] = (String::from_str(key), options);
            proof {
                assert(final(tr).deep_view() =~= m0.update(i as int, (key@, options.deep_view())));
            }
            return ;
        }
        i += 1;
    }
    proof {
        lemma_store_one_push(m0, key@, options.deep_view());
    }
    tr.push((String::from_str(key), options));
    proof {
        assert(tr.deep_view() =~= m0.push((key@, options.deep_view())));
    }
}

/// The call names as character vectors.
fn funcs_to_chars(funcs: &Vec<String>) -> (r: Vec<Vec<char>>)
    ensures
        r.deep_view() == funcs.deep_view(),
{
    let mut fd: Vec<Vec<char>> = Vec::new();
    let mut fi: usize = 0;
    while fi < funcs.len()
        invariant
            fi <= funcs@.len(),
            fd.deep_view() == funcs.deep_view().take(fi as int),
        decreases funcs@.len() - fi,
    {
        let ghost dv0 = fd.deep_view();
        proof {
            assert(funcs.deep_view()[fi as int] == funcs@[fi as int]@);
        }
        fd.push(to_chars(funcs[fi].as_str()));
        proof {
            assert(fd.deep_view() =~~= dv0.push(funcs.deep_view()[fi as int]));
            assert(dv0.push(funcs.deep_view()[fi as int]) =~~= funcs.deep_view().take(
                fi as int + 1,
            ));
        }
        fi += 1;
    }
    proof {
        assert(funcs.deep_view().take(funcs@.len() as int) =~~= funcs.deep_view());
    }
    fd
}

/// Scans the text and stores every extracted call into the given map.
fn scan_calls_into(tr: &mut Vec<(String, ParseOptions)>, t: &Vec<char>, fd: &Vec<Vec<char>>)
    ensures
        final(tr).deep_view() == scan_store(t@, fd.deep_view(), 0, old(tr).deep_view()),
{
    let ghost fd0 = fd.deep_view();
    let ghost tr0 = tr.deep_view();
    let mut i: usize = 0;
    while i < t.len()
        invariant
            i <= t@.len(),
            fd.deep_view() == fd0,
            scan_store(t@, fd0, i as int, tr.deep_view()) == scan_store(t@, fd0, 0, tr0),
        decreases t@.len() - i,
    {
        match match_at_exec(t, fd, i) {
            None => {
                i += 1;
            },
            Some(fc) => {
                let ghost m = match_at(t@, fd0, i as int)->Some_0;
                let j = if fc.end > i + 1 {
                    fc.end
                } else {
                    i + 1
                };
                let key_chars = copy_range(t, fc.key_lo, fc.key_hi);
                match fix_string_vec(&key_chars, true) {
                    None => {
                        proof {
                            assert(call_of_match(t@, m) is None);
                        }
                        i = j;
                    },
                    Some(kv) => {
                        let mut po = ParseOptions::default();
                        let mut ok = true;
                        if fc.has_dv {
                            let dvc = copy_range(t, fc.dv_lo, fc.dv_hi);
                            match fix_string_vec(&dvc, false) {
                                None => {
                                    ok = false;
                                },
                                Some(dv) => {
                                    po.default_value = Some(chars_to_string(&dv));
                                },
                            }
                        }
                        if ok {
                            let ghost dv_model = po.deep_view().default_value;
                            proof {
                                assert(po.deep_view() == OptionsModel {
                                    default_value: dv_model,
                                    ..no_options()
                                });
                            }
                            if fc.trailing_comma {
                                let rest = copy_range(t, fc.end, t.len());
                                proof {
                                    assert(rest@ =~= t@.skip(m.end));
                                }
                                let code = balanced_exec(&rest);
                                let trimmed = trim_vec(&code);
                                if trimmed.len() > 0 {
                                    let props = props_scan_exec(&code);
                                    apply_props(&mut po, &props);
                                }
                            }
                            proof {
                                assert(po.deep_view() == options_of_match(t@, m, dv_model));
                            }
                            let ks = chars_to_string(&kv);
                            store_call(tr, ks.as_str(), po);
                            proof {
                                assert(call_of_match(t@, m) == Some(
                                    (kv@, options_of_match(t@, m, dv_model)),
                                ));
                            }
                        } else {
                            proof {
                                assert(call_of_match(t@, m) is None);
                            }
                        }
                        i = j;
                    },
                }
            },
        }
    }
    proof {
        assert(scan_store(t@, fd0, t@.len() as int, tr.deep_view()) == tr.deep_view());
    }
}

/// The injectable per-call strategy: an implementation observes each
/// extracted call in place of the parser's default store-and-continue
/// behaviour. The trait promises nothing of its implementations.
pub trait CallHandler {
    fn observe(&mut self, key: &str, options: &ParseOptions);
}

/// The call-site extractor: scans text for translation calls and keeps the
/// extracted key/options pairs, one entry per key, last writer wins.
pub struct Parser {
    pub options: ParserOptions,
    pub translations: Vec<(String, ParseOptions)>,
}

impl Parser {
    /// A parser with the default call names and no stored translations.
    pub fn new() -> (r: Self)
        ensures
            r.options.func.list.deep_view() =~= seq!["t"@, "i18n.t"@, "i18next.t"@],
            r.translations@.len() == 0,
    {
        Parser { options: ParserOptions::default(), translations: Vec::new() }
    }

    /// A parser with the given options and no stored translations.
    pub fn with_options(options: ParserOptions) -> (r: Self)
        ensures
            r.options == options,
            r.translations@.len() == 0,
    {
        Parser { options, translations: Vec::new() }
    }

    /// Stores a key/options pair, overwriting any prior entry for the key.
    pub fn set(&mut self, key: &str, options: ParseOptions)
        ensures
            final(self).translations.deep_view() == store_one(
                old(self).translations.deep_view(),
                key@,
                options.deep_view(),
            ),
            final(self).options == old(self).options,
    {
        store_call(&mut self.translations, key, options);
    }

    /// Trims a captured span and strips one layer of matching quotes; an
    /// empty result is rejected for keys and kept for values.
    pub fn fix_string_after_reg_exp(&self, s: &str, is_key: bool) -> (r: Option<String>)
        ensures
            r.deep_view() == fix_string(s@, is_key),
    {
        let v = to_chars(s);
        match fix_string_vec(&v, is_key) {
            Some(rv) => Some(chars_to_string(&rv)),
            None => None,
        }
    }

    /// Scans the text for translation calls and stores every extracted call
    /// in the translation map. Calls whose key is empty after unquoting are
    /// discarded, as are calls whose captured default value fails to
    /// unquote; an options argument is parsed shallowly from the balanced
    /// span after the match. An empty call-name list extracts nothing.
    pub fn parse_func_from_string_by_babel(&mut self, content: &str, opts: ParserOpts)
        ensures
            final(self).options == old(self).options,
            final(self).translations.deep_view() == scan_store(
                content@,
                (match opts.list {
                    Some(l) => l.deep_view(),
                    None => old(self).options.func.list.deep_view(),
                }),
                0,
                old(self).translations.deep_view(),
            ),
    {
        let t = to_chars(content);
        let funcs: &Vec<String> = match &opts.list {
            Some(l) => l,
            None => &self.options.func.list,
        };
        let fd = funcs_to_chars(funcs);
        scan_calls_into(&mut self.translations, &t, &fd);
    }

    /// The calls one extraction pass over the text finds, as a fresh map in
    /// extraction order: exactly what an extraction pass would store into
    /// an empty parser.
    pub fn extract_calls(&self, content: &str, opts: ParserOpts) -> (r: Vec<(String, ParseOptions)>)
        ensures
            r.deep_view() == scan_store(
                content@,
                (match opts.list {
                    Some(l) => l.deep_view(),
                    None => self.options.func.list.deep_view(),
                }),
                0,
                Seq::empty(),
            ),
    {
        let t = to_chars(content);
        let funcs: &Vec<String> = match &opts.list {
            Some(l) => l,
            None => &self.options.func.list,
        };
        let fd = funcs_to_chars(funcs);
        let mut calls: Vec<(String, ParseOptions)> = Vec::new();
        proof {
            assert(calls.deep_view() =~~= Seq::<(Seq<char>, OptionsModel)>::empty());
        }
        scan_calls_into(&mut calls, &t, &fd);
        calls
    }

    /// Scans the text for translation calls and hands each extracted call
    /// (the same calls, in the same order, that `extract_calls` yields) to
    /// the handler instead of storing it: the parser's own map is left
    /// untouched.
    pub fn parse_func_from_string_with_handler<H: CallHandler>(
        &mut self,
        content: &str,
        opts: ParserOpts,
        handler: &mut H,
    )
        ensures
            final(self).options == old(self).options,
            final(self).translations == old(self).translations,
    {
        let calls = self.extract_calls(content, opts);
        let mut i: usize = 0;
        while i < calls.len()
            invariant
                i <= calls@.len(),
                self.options == old(self).options,
                self.translations == old(self).translations,
            decreases calls@.len() - i,
        {
            handler.observe(calls[i].0.as_str(), &calls[i].1);
            i += 1;
        }
    }
}

/// A parser with the default options.
pub fn create_parser() -> (r: Parser)
    ensures
        r.options.func.list.deep_view() =~= seq!["t"@, "i18n.t"@, "i18next.t"@],
        r.translations@.len() == 0,
{
    Parser::new()
}

/// A parser with the given options.
pub fn create_parser_with_options(options: ParserOptions) -> (r: Parser)
    ensures
        r.options == options,
        r.translations@.len() == 0,
{
    Parser::with_options(options)
}

// ------------------------------------------------------------------
// Laws
// ------------------------------------------------------------------
/// Every key in a translation map is non-empty.
pub open spec fn all_keys_nonempty(tr: Seq<(Seq<char>, OptionsModel)>) -> bool {
    forall|i: int| 0 <= i < tr.len() ==> (#[trigger] tr[i]).0.len() > 0
}

proof fn lemma_store_one_nonempty(tr: Seq<(Seq<char>, OptionsModel)>, k: Seq<char>, o: OptionsModel)
    requires
        all_keys_nonempty(tr),
        k.len() > 0,
    ensures
        all_keys_nonempty(store_one(tr, k, o)),
    decreases tr.len(),
{
    if tr.len() == 0 {
    } else if tr[0].0 == k {
        assert forall|i: int| 0 <= i < store_one(tr, k, o).len() implies (#[trigger] store_one(
            tr,
            k,
            o,
        )[i]).0.len() > 0 by {
            if i > 0 {
                assert(store_one(tr, k, o)[i] == tr.drop_first()[i - 1]);
                assert(tr.drop_first()[i - 1] == tr[i]);
            }
        }
    } else {
        assert(all_keys_nonempty(tr.drop_first())) by {
            assert(forall|i: int|
                0 <= i < tr.drop_first().len() ==> (#[trigger] tr.drop_first()[i]) == tr[i + 1]);
        }
        lemma_store_one_nonempty(tr.drop_first(), k, o);
        assert forall|i: int| 0 <= i < store_one(tr, k, o).len() implies (#[trigger] store_one(
            tr,
            k,
            o,
        )[i]).0.len() > 0 by {
            if i > 0 {
                assert(store_one(tr, k, o)[i] == store_one(tr.drop_first(), k, o)[i - 1]);
            }
        }
    }
}

/// Invalid-key rejection law: extraction never stores an empty key. A call
/// with an empty key literal, or no key at all, is discarded, so a
/// translation map whose keys are all non-empty keeps that property under
/// any extraction pass.
pub proof fn lemma_extraction_rejects_empty_keys(
    t: Seq<char>,
    fd: Seq<Seq<char>>,
    i: int,
    tr: Seq<(Seq<char>, OptionsModel)>,
)
    requires
        all_keys_nonempty(tr),
    ensures
        all_keys_nonempty(scan_store(t, fd, i, tr)),
    decreases t.len() - i,
{
    if i < 0 || i >= t.len() {
    } else {
        match match_at(t, fd, i) {
            None => {
                lemma_extraction_rejects_empty_keys(t, fd, i + 1, tr);
            },
            Some(m) => {
                let j = if i + 1 < m.end && m.end <= t.len() {
                    m.end
                } else {
                    i + 1
                };
                match call_of_match(t, m) {
                    None => {
                        lemma_extraction_rejects_empty_keys(t, fd, j, tr);
                    },
                    Some((k, o)) => {
                        assert(k.len() > 0);
                        lemma_store_one_nonempty(tr, k, o);
                        lemma_extraction_rejects_empty_keys(t, fd, j, store_one(tr, k, o));
                    },
                }
            },
        }
    }
}

} // verus!
