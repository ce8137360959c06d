//! The hard-coded-text linter: pattern detectors applied line by line that
//! flag bare Chinese text in code, markup and template strings, hard-coded
//! domains, and naive string concatenation, with 1-based line/column
//! positions (columns in bytes) and adjacent-duplicate suppression.

use vstd::prelude::*;

use crate::extract::ws_end;
use crate::text::{
    bytes_upto, chars_to_string, copy_range, is_quote, is_quote_char, is_whitespace_char, is_zh,
    is_zh_char, str_eq, to_chars, trim, trim_vec, utf8_len_of,
};

verus! {

// ------------------------------------------------------------------
// Positions and findings
// ------------------------------------------------------------------
/// A 1-based line/column position; columns count bytes.
#[derive(Clone, Copy, PartialEq, Eq, Structural, Debug)]
pub struct Position {
    pub line: u32,
    pub column: u32,
}

/// A position range.
#[derive(Clone, Copy, PartialEq, Eq, Structural, Debug)]
pub struct Location {
    pub start: Position,
    pub end: Position,
}

/// One detection: where it was found and the implicated source text.
pub struct LintResult {
    pub filepath: String,
    pub loc: Location,
    pub value: String,
}

/// The mathematical content of a [`LintResult`].
pub struct LintResultModel {
    pub filepath: Seq<char>,
    pub loc: Location,
    pub value: Seq<char>,
}

impl DeepView for LintResult {
    type V = LintResultModel;

    open spec fn deep_view(&self) -> LintResultModel {
        LintResultModel { filepath: self.filepath@, loc: self.loc, value: self.value@ }
    }
}

impl Clone for LintResult {
    fn clone(&self) -> (r: Self)
        ensures
            r.deep_view() == self.deep_view(),
    {
        LintResult { filepath: self.filepath.clone(), loc: self.loc, value: self.value.clone() }
    }
}

/// The rule that produced a message.
#[derive(Clone, Copy, PartialEq, Eq, Structural, Debug)]
pub enum MessageId {
    BareZhInJs,
    BareZhInJsx,
    BareZhInTemplate,
    ForbiddenHardCodeOfDomain,
    NoStringConcatenation,
}

/// The wire name of each message id.
pub open spec fn message_id_str(m: MessageId) -> Seq<char> {
    match m {
        MessageId::BareZhInJs => "bareZhInJs"@,
        MessageId::BareZhInJsx => "bareZhInJsx"@,
        MessageId::BareZhInTemplate => "bareZhInTemplate"@,
        MessageId::ForbiddenHardCodeOfDomain => "forbiddenHardCodeOfDomain"@,
        MessageId::NoStringConcatenation => "noStringConcatenation"@,
    }
}

/// The message id a wire name denotes, if any.
pub open spec fn message_id_of(s: Seq<char>) -> Option<MessageId> {
    if s == "bareZhInJs"@ {
        Some(MessageId::BareZhInJs)
    } else if s == "bareZhInJsx"@ {
        Some(MessageId::BareZhInJsx)
    } else if s == "bareZhInTemplate"@ {
        Some(MessageId::BareZhInTemplate)
    } else if s == "forbiddenHardCodeOfDomain"@ {
        Some(MessageId::ForbiddenHardCodeOfDomain)
    } else if s == "noStringConcatenation"@ {
        Some(MessageId::NoStringConcatenation)
    } else {
        None
    }
}

impl MessageId {
    /// Parses a wire name.
    pub fn from_str(s: &str) -> (r: Option<MessageId>)
        ensures
            r == message_id_of(s@),
    {
        if str_eq(s, "bareZhInJs") {
            Some(MessageId::BareZhInJs)
        } else if str_eq(s, "bareZhInJsx") {
            Some(MessageId::BareZhInJsx)
        } else if str_eq(s, "bareZhInTemplate") {
            Some(MessageId::BareZhInTemplate)
        } else if str_eq(s, "forbiddenHardCodeOfDomain") {
            Some(MessageId::ForbiddenHardCodeOfDomain)
        } else if str_eq(s, "noStringConcatenation") {
            Some(MessageId::NoStringConcatenation)
        } else {
            None
        }
    }

    /// The wire name of this message id.
    pub fn as_str(&self) -> (r: &'static str)
        ensures
            r@ == message_id_str(*self),
    {
        match self {
            MessageId::BareZhInJs => "bareZhInJs",
            MessageId::BareZhInJsx => "bareZhInJsx",
            MessageId::BareZhInTemplate => "bareZhInTemplate",
            MessageId::ForbiddenHardCodeOfDomain => "forbiddenHardCodeOfDomain",
            MessageId::NoStringConcatenation => "noStringConcatenation",
        }
    }
}

/// One raw detector message, before routing.
#[derive(Clone, Copy, PartialEq, Eq, Structural, Debug)]
pub struct EslintMessage {
    pub line: u32,
    pub column: u32,
    pub end_line: u32,
    pub end_column: u32,
    pub message_id: MessageId,
}

// ------------------------------------------------------------------
// Configuration
// ------------------------------------------------------------------
/// ECMAScript feature switches for the simulated lint run.
#[derive(Clone, Copy, PartialEq, Eq, Structural, Debug)]
pub struct EcmaFeatures {
    pub jsx: bool,
    pub legacy_decorators: bool,
}

/// Parser options for the simulated lint run.
pub struct ParserOptions {
    pub ecma_version: u32,
    pub source_type: String,
    pub ecma_features: EcmaFeatures,
}

/// The configuration handed to the simulated lint run.
pub struct EslintConfig {
    pub env: Vec<(String, bool)>,
    pub parser: String,
    pub parser_options: ParserOptions,
    pub rules: Vec<(String, String)>,
}

// ------------------------------------------------------------------
// Splitting text into lines
// ------------------------------------------------------------------
/// A carriage return at the end of a line-ending is dropped.
pub open spec fn strip_cr(l: Seq<char>) -> Seq<char> {
    if l.len() > 0 && l.last() == '\r' {
        l.drop_last()
    } else {
        l
    }
}

/// Splits text into lines at `\n` (dropping a `\r` directly before it); a
/// final line without a newline is kept, a trailing newline adds no line.
pub open spec fn split_lines_rec(t: Seq<char>, i: int, cur: Seq<char>) -> Seq<Seq<char>>
    decreases t.len() - i,
{
    if i < 0 || i >= t.len() {
        if cur.len() == 0 {
            Seq::empty()
        } else {
            seq![cur]
        }
    } else if t[i] == '\n' {
        seq![strip_cr(cur)] + split_lines_rec(t, i + 1, Seq::empty())
    } else {
        split_lines_rec(t, i + 1, cur.push(t[i]))
    }
}

pub open spec fn split_lines(t: Seq<char>) -> Seq<Seq<char>> {
    split_lines_rec(t, 0, Seq::empty())
}

pub fn split_lines_exec(t: &Vec<char>) -> (r: Vec<Vec<char>>)
    ensures
        r.deep_view() == split_lines(t@),
{
    let mut out: Vec<Vec<char>> = Vec::new();
    let mut cur: Vec<char> = Vec::new();
    let mut i: usize = 0;
    while i < t.len()
        invariant
            i <= t@.len(),
            split_lines(t@) == out.deep_view() + split_lines_rec(t@, i as int, cur@),
        decreases t@.len() - i,
    {
        if t[i] == '\n' {
            let ghost dv0 = out.deep_view();
            let ghost stripped = strip_cr(cur@);
            if cur.len() > 0 && cur[cur.len() - 1] == '\r' {
                cur.pop();
                proof {
                    assert(cur@ =~= stripped);
                }
            }
            out.push(cur);
            proof {
                assert(out.deep_view() =~~= dv0.push(stripped));
                assert(dv0.push(stripped) + split_lines_rec(t@, i as int + 1, Seq::empty()) =~~= dv0
                    + (seq![stripped] + split_lines_rec(t@, i as int + 1, Seq::empty())));
            }
            cur = Vec::new();
        } else {
            cur.push(t[i]);
        }
        i += 1;
    }
    if cur.len() > 0 {
        let ghost dv0 = out.deep_view();
        let ghost last = cur@;
        out.push(cur);
        proof {
            assert(out.deep_view() =~~= dv0.push(last));
            assert(dv0.push(last) =~~= dv0 + seq![last]);
        }
    }
    out
}

// ------------------------------------------------------------------
// Per-line detectors
// ------------------------------------------------------------------
/// Truncation to 32 bits, as storing a wide offset in a `u32` field does.
pub open spec fn to_u32(x: int) -> u32 {
    (x % 0x1_0000_0000) as u32
}

/// The first index at or after `i` holding a CJK character.
pub open spec fn zh_start(line: Seq<char>, i: int) -> Option<int>
    decreases line.len() - i,
{
    if i < 0 || i >= line.len() {
        None
    } else if is_zh(line[i]) {
        Some(i)
    } else {
        zh_start(line, i + 1)
    }
}

fn zh_start_exec(line: &Vec<char>, i: usize) -> (r: Option<usize>)
    requires
        i <= line@.len(),
    ensures
        (match r {
            Some(s) => zh_start(line@, i as int) == Some(s as int) && i <= s < line@.len(),
            None => zh_start(line@, i as int) is None,
        }),
    decreases line@.len() - i,
{
    if i == line.len() {
        None
    } else if is_zh_char(line[i]) {
        Some(i)
    } else {
        zh_start_exec(line, i + 1)
    }
}

/// The end of the CJK run starting at `i`.
pub open spec fn zh_end(line: Seq<char>, i: int) -> int
    decreases line.len() - i,
{
    if i < 0 || i >= line.len() {
        i
    } else if !is_zh(line[i]) {
        i
    } else {
        zh_end(line, i + 1)
    }
}

fn zh_end_exec(line: &Vec<char>, i: usize) -> (r: usize)
    requires
        i <= line@.len(),
    ensures
        i <= r <= line@.len(),
        r as int == zh_end(line@, i as int),
{
    let mut j = i;
    while j < line.len() && is_zh_char(line[j])
        invariant
            i <= j <= line@.len(),
            zh_end(line@, i as int) == zh_end(line@, j as int),
        decreases line@.len() - j,
    {
        j += 1;
    }
    j
}

/// How many occurrences of `c` appear before index `i`.
pub open spec fn count_upto(line: Seq<char>, c: char, i: int) -> int
    decreases i,
{
    if i <= 0 {
        0
    } else {
        count_upto(line, c, i - 1) + if line[i - 1] == c {
            1int
        } else {
            0int
        }
    }
}

/// Inside a string literal: an odd number of one of the three quote kinds
/// appears before the position.
pub open spec fn in_string_literal(line: Seq<char>, pos: int) -> bool {
    count_upto(line, '\'', pos) % 2 == 1 || count_upto(line, '"', pos) % 2 == 1 || count_upto(
        line,
        '`',
        pos,
    ) % 2 == 1
}

fn count_upto_exec(line: &Vec<char>, c: char, i: usize) -> (r: usize)
    requires
        i <= line@.len(),
    ensures
        r as int == count_upto(line@, c, i as int),
{
    let mut n: usize = 0;
    let mut j: usize = 0;
    while j < i
        invariant
            j <= i <= line@.len(),
            n <= j,
            n as int == count_upto(line@, c, j as int),
        decreases i - j,
    {
        if line[j] == c {
            n += 1;
        }
        j += 1;
    }
    n
}

fn in_string_literal_exec(line: &Vec<char>, pos: usize) -> (r: bool)
    requires
        pos <= line@.len(),
    ensures
        r == in_string_literal(line@, pos as int),
{
    let a = count_upto_exec(line, '\'', pos);
    let b = count_upto_exec(line, '"', pos);
    let c = count_upto_exec(line, '`', pos);
    a % 2 == 1 || b % 2 == 1 || c % 2 == 1
}

/// A markup match starting at `i`: `>`, whitespace, at least one CJK
/// character, whitespace, `<`. Yields the end of the match.
pub open spec fn jsx_at(line: Seq<char>, i: int) -> Option<int> {
    if i < 0 || i >= line.len() || line[i] != '>' {
        None
    } else {
        let w = ws_end(line, i + 1);
        let z = zh_end(line, w);
        if z == w {
            None
        } else {
            let w2 = ws_end(line, z);
            if w2 < line.len() && line[w2] == '<' {
                Some(w2 + 1)
            } else {
                None
            }
        }
    }
}

fn jsx_at_exec(line: &Vec<char>, i: usize) -> (r: Option<usize>)
    requires
        i < line@.len(),
    ensures
        (match r {
            Some(e) => jsx_at(line@, i as int) == Some(e as int) && i < e <= line@.len(),
            None => jsx_at(line@, i as int) is None,
        }),
{
    let _n: usize = line.len();
    if line[i] != '>' {
        None
    } else {
        let w = ws_end_local(line, i + 1);
        let z = zh_end_exec(line, w);
        if z == w {
            None
        } else {
            let w2 = ws_end_local(line, z);
            if w2 < line.len() && line[w2] == '<' {
                Some(w2 + 1)
            } else {
                None
            }
        }
    }
}

fn ws_end_local(t: &Vec<char>, i: usize) -> (r: usize)
    requires
        i <= t@.len(),
    ensures
        i <= r <= t@.len(),
        r as int == ws_end(t@, i as int),
{
    let mut j = i;
    while j < t.len() && is_whitespace_char(t[j])
        invariant
            i <= j <= t@.len(),
            ws_end(t@, i as int) == ws_end(t@, j as int),
        decreases t@.len() - j,
    {
        j += 1;
    }
    j
}

/// The leftmost markup match.
pub open spec fn jsx_find(line: Seq<char>, i: int) -> Option<(int, int)>
    decreases line.len() - i,
{
    if i < 0 || i >= line.len() {
        None
    } else {
        match jsx_at(line, i) {
            Some(e) => Some((i, e)),
            None => jsx_find(line, i + 1),
        }
    }
}

fn jsx_find_exec(line: &Vec<char>) -> (r: Option<(usize, usize)>)
    ensures
        (match r {
            Some((s, e)) => jsx_find(line@, 0) == Some((s as int, e as int)) && s < e <= line@.len(),
            None => jsx_find(line@, 0) is None,
        }),
{
    let mut i: usize = 0;
    while i < line.len()
        invariant
            i <= line@.len(),
            jsx_find(line@, 0) == jsx_find(line@, i as int),
        decreases line@.len() - i,
    {
        match jsx_at_exec(line, i) {
            Some(e) => {
                return Some((i, e));
            },
            None => {
                i += 1;
            },
        }
    }
    None
}

/// The first index at or after `j` holding `c`.
pub open spec fn next_char_at(line: Seq<char>, c: char, j: int) -> Option<int>
    decreases line.len() - j,
{
    if j < 0 || j >= line.len() {
        None
    } else if line[j] == c {
        Some(j)
    } else {
        next_char_at(line, c, j + 1)
    }
}

fn next_char_at_exec(line: &Vec<char>, c: char, j: usize) -> (r: Option<usize>)
    requires
        j <= line@.len(),
    ensures
        (match r {
            Some(e) => next_char_at(line@, c, j as int) == Some(e as int) && j <= e < line@.len(),
            None => next_char_at(line@, c, j as int) is None,
        }),
    decreases line@.len() - j,
{
    if j == line.len() {
        None
    } else if line[j] == c {
        Some(j)
    } else {
        next_char_at_exec(line, c, j + 1)
    }
}

/// A template match starting at `i`: a backtick-delimited body containing
/// at least one CJK character. Yields the end of the match.
pub open spec fn template_at(line: Seq<char>, i: int) -> Option<int> {
    if i < 0 || i >= line.len() || line[i] != '`' {
        None
    } else {
        match next_char_at(line, '`', i + 1) {
            None => None,
            Some(b1) => {
                match zh_start(line, i + 1) {
                    Some(k) => if k < b1 {
                        Some(b1 + 1)
                    } else {
                        None
                    },
                    None => None,
                }
            },
        }
    }
}

fn template_at_exec(line: &Vec<char>, i: usize) -> (r: Option<usize>)
    requires
        i < line@.len(),
    ensures
        (match r {
            Some(e) => template_at(line@, i as int) == Some(e as int) && i < e <= line@.len(),
            None => template_at(line@, i as int) is None,
        }),
{
    let _n: usize = line.len();
    if line[i] != '`' {
        None
    } else {
        match next_char_at_exec(line, '`', i + 1) {
            None => None,
            Some(b1) => {
                match zh_start_exec(line, i + 1) {
                    Some(k) => if k < b1 {
                        Some(b1 + 1)
                    } else {
                        None
                    },
                    None => None,
                }
            },
        }
    }
}

/// The leftmost template match.
pub open spec fn template_find(line: Seq<char>, i: int) -> Option<(int, int)>
    decreases line.len() - i,
{
    if i < 0 || i >= line.len() {
        None
    } else {
        match template_at(line, i) {
            Some(e) => Some((i, e)),
            None => template_find(line, i + 1),
        }
    }
}

fn template_find_exec(line: &Vec<char>) -> (r: Option<(usize, usize)>)
    ensures
        (match r {
            Some((s, e)) => template_find(line@, 0) == Some((s as int, e as int)) && s < e
                <= line@.len(),
            None => template_find(line@, 0) is None,
        }),
{
    let mut i: usize = 0;
    while i < line.len()
        invariant
            i <= line@.len(),
            template_find(line@, 0) == template_find(line@, i as int),
        decreases line@.len() - i,
    {
        match template_at_exec(line, i) {
            Some(e) => {
                return Some((i, e));
            },
            None => {
                i += 1;
            },
        }
    }
    None
}

/// An ASCII letter.
pub open spec fn is_alpha(c: char) -> bool {
    let u = c as u32;
    (0x41 <= u && u <= 0x5a) || (0x61 <= u && u <= 0x7a)
}

fn is_alpha_char(c: char) -> (r: bool)
    ensures
        r == is_alpha(c),
{
    let u = c as u32;
    (0x41 <= u && u <= 0x5a) || (0x61 <= u && u <= 0x7a)
}

/// A character a host name may contain.
pub open spec fn is_host(c: char) -> bool {
    let u = c as u32;
    is_alpha(c) || (0x30 <= u && u <= 0x39) || c == '.' || c == '-'
}

fn is_host_char(c: char) -> (r: bool)
    ensures
        r == is_host(c),
{
    let u = c as u32;
    is_alpha_char(c) || (0x30 <= u && u <= 0x39) || c == '.' || c == '-'
}

/// The end of the ASCII-letter run starting at `i`.
pub open spec fn alpha_end(line: Seq<char>, i: int) -> int
    decreases line.len() - i,
{
    if i < 0 || i >= line.len() {
        i
    } else if !is_alpha(line[i]) {
        i
    } else {
        alpha_end(line, i + 1)
    }
}

fn alpha_end_exec(line: &Vec<char>, i: usize) -> (r: usize)
    requires
        i <= line@.len(),
    ensures
        i <= r <= line@.len(),
        r as int == alpha_end(line@, i as int),
{
    let mut j = i;
    while j < line.len() && is_alpha_char(line[j])
        invariant
            i <= j <= line@.len(),
            alpha_end(line@, i as int) == alpha_end(line@, j as int),
        decreases line@.len() - j,
    {
        j += 1;
    }
    j
}

/// The end of the host-character run starting at `i`.
pub open spec fn host_end(line: Seq<char>, i: int) -> int
    decreases line.len() - i,
{
    if i < 0 || i >= line.len() {
        i
    } else if !is_host(line[i]) {
        i
    } else {
        host_end(line, i + 1)
    }
}

fn host_end_exec(line: &Vec<char>, i: usize) -> (r: usize)
    requires
        i <= line@.len(),
    ensures
        i <= r <= line@.len(),
        r as int == host_end(line@, i as int),
{
    let mut j = i;
    while j < line.len() && is_host_char(line[j])
        invariant
            i <= j <= line@.len(),
            host_end(line@, i as int) == host_end(line@, j as int),
        decreases line@.len() - j,
    {
        j += 1;
    }
    j
}

/// Searches downward from `j` for the rightmost dot that is followed by at
/// least two ASCII letters, leaving a non-empty host part before it. Yields
/// the end of the letter run after that dot.
pub open spec fn domain_split(line: Seq<char>, r0: int, j: int) -> Option<int>
    decreases j + 1,
{
    if j <= r0 || j < 0 {
        None
    } else if j < line.len() && line[j] == '.' && alpha_end(line, j + 1) >= j + 3 {
        Some(alpha_end(line, j + 1))
    } else {
        domain_split(line, r0, j - 1)
    }
}

fn domain_split_exec(line: &Vec<char>, r0: usize, j: usize) -> (r: Option<usize>)
    requires
        j <= line@.len(),
    ensures
        (match r {
            Some(e) => domain_split(line@, r0 as int, j as int) == Some(e as int) && r0 < e
                <= line@.len(),
            None => domain_split(line@, r0 as int, j as int) is None,
        }),
    decreases j,
{
    if j <= r0 {
        None
    } else if j < line.len() && line[j] == '.' {
        let ae = alpha_end_exec(line, j + 1);
        if ae - j >= 3 {
            Some(ae)
        } else {
            domain_split_exec(line, r0, j - 1)
        }
    } else {
        domain_split_exec(line, r0, j - 1)
    }
}

/// A hard-coded-domain match starting at `i`: `http`, an optional `s`,
/// `://`, then a host run that ends in a dot followed by at least two
/// letters. Yields the end of the match.
pub open spec fn domain_at(line: Seq<char>, i: int) -> Option<int> {
    if i < 0 || i + 4 > line.len() || line[i] != 'h' || line[i + 1] != 't' || line[i + 2] != 't'
        || line[i + 3] != 'p' {
        None
    } else {
        let p = if i + 4 < line.len() && line[i + 4] == 's' {
            i + 5
        } else {
            i + 4
        };
        if p + 3 > line.len() || line[p] != ':' || line[p + 1] != '/' || line[p + 2] != '/' {
            None
        } else {
            let r0 = p + 3;
            let re = host_end(line, r0);
            if re == r0 {
                None
            } else {
                domain_split(line, r0, re - 1)
            }
        }
    }
}

fn domain_at_exec(line: &Vec<char>, i: usize) -> (r: Option<usize>)
    requires
        i < line@.len(),
    ensures
        (match r {
            Some(e) => domain_at(line@, i as int) == Some(e as int) && i < e <= line@.len(),
            None => domain_at(line@, i as int) is None,
        }),
{
    let n: usize = line.len();
    if n - i < 4 || line[i] != 'h' || line[i + 1] != 't' || line[i + 2] != 't' || line[i + 3]
        != 'p' {
        None
    } else {
        let p = if i + 4 < n && line[i + 4] == 's' {
            i + 5
        } else {
            i + 4
        };
        if n - p < 3 || line[p] != ':' || line[p + 1] != '/' || line[p + 2] != '/' {
            None
        } else {
            let r0 = p + 3;
            let re = host_end_exec(line, r0);
            if re == r0 {
                None
            } else {
                domain_split_exec(line, r0, re - 1)
            }
        }
    }
}

/// The leftmost hard-coded-domain match.
pub open spec fn domain_find(line: Seq<char>, i: int) -> Option<(int, int)>
    decreases line.len() - i,
{
    if i < 0 || i >= line.len() {
        None
    } else {
        match domain_at(line, i) {
            Some(e) => Some((i, e)),
            None => domain_find(line, i + 1),
        }
    }
}

fn domain_find_exec(line: &Vec<char>) -> (r: Option<(usize, usize)>)
    ensures
        (match r {
            Some((s, e)) => domain_find(line@, 0) == Some((s as int, e as int)) && s < e
                <= line@.len(),
            None => domain_find(line@, 0) is None,
        }),
{
    let mut i: usize = 0;
    while i < line.len()
        invariant
            i <= line@.len(),
            domain_find(line@, 0) == domain_find(line@, i as int),
        decreases line@.len() - i,
    {
        match domain_at_exec(line, i) {
            Some(e) => {
                return Some((i, e));
            },
            None => {
                i += 1;
            },
        }
    }
    None
}

/// The first index at or after `j` holding any quote character.
pub open spec fn next_quote_at(line: Seq<char>, j: int) -> Option<int>
    decreases line.len() - j,
{
    if j < 0 || j >= line.len() {
        None
    } else if is_quote(line[j]) {
        Some(j)
    } else {
        next_quote_at(line, j + 1)
    }
}

fn next_quote_at_exec(line: &Vec<char>, j: usize) -> (r: Option<usize>)
    requires
        j <= line@.len(),
    ensures
        (match r {
            Some(e) => next_quote_at(line@, j as int) == Some(e as int) && j <= e < line@.len(),
            None => next_quote_at(line@, j as int) is None,
        }),
    decreases line@.len() - j,
{
    if j == line.len() {
        None
    } else if is_quote_char(line[j]) {
        Some(j)
    } else {
        next_quote_at_exec(line, j + 1)
    }
}

/// A naive-concatenation match starting at `i`: a quoted literal, `+`
/// (with optional whitespace), and a second quoted literal. Yields the end
/// of the match.
pub open spec fn concat_at(line: Seq<char>, i: int) -> Option<int> {
    if i < 0 || i >= line.len() || !is_quote(line[i]) {
        None
    } else {
        match next_quote_at(line, i + 1) {
            None => None,
            Some(b1) => {
                let w = ws_end(line, b1 + 1);
                if w >= line.len() || line[w] != '+' {
                    None
                } else {
                    let w2 = ws_end(line, w + 1);
                    if w2 >= line.len() || !is_quote(line[w2]) {
                        None
                    } else {
                        match next_quote_at(line, w2 + 1) {
                            None => None,
                            Some(b2) => Some(b2 + 1),
                        }
                    }
                }
            },
        }
    }
}

fn concat_at_exec(line: &Vec<char>, i: usize) -> (r: Option<usize>)
    requires
        i < line@.len(),
    ensures
        (match r {
            Some(e) => concat_at(line@, i as int) == Some(e as int) && i < e <= line@.len(),
            None => concat_at(line@, i as int) is None,
        }),
{
    let _n: usize = line.len();
    if !is_quote_char(line[i]) {
        None
    } else {
        match next_quote_at_exec(line, i + 1) {
            None => None,
            Some(b1) => {
                let w = ws_end_local(line, b1 + 1);
                if w >= line.len() || line[w] != '+' {
                    None
                } else {
                    let w2 = ws_end_local(line, w + 1);
                    if w2 >= line.len() || !is_quote_char(line[w2]) {
                        None
                    } else {
                        match next_quote_at_exec(line, w2 + 1) {
                            None => None,
                            Some(b2) => Some(b2 + 1),
                        }
                    }
                }
            },
        }
    }
}

/// The leftmost naive-concatenation match.
pub open spec fn concat_find(line: Seq<char>, i: int) -> Option<(int, int)>
    decreases line.len() - i,
{
    if i < 0 || i >= line.len() {
        None
    } else {
        match concat_at(line, i) {
            Some(e) => Some((i, e)),
            None => concat_find(line, i + 1),
        }
    }
}

fn concat_find_exec(line: &Vec<char>) -> (r: Option<(usize, usize)>)
    ensures
        (match r {
            Some((s, e)) => concat_find(line@, 0) == Some((s as int, e as int)) && s < e
                <= line@.len(),
            None => concat_find(line@, 0) is None,
        }),
{
    let mut i: usize = 0;
    while i < line.len()
        invariant
            i <= line@.len(),
            concat_find(line@, 0) == concat_find(line@, i as int),
        decreases line@.len() - i,
    {
        match concat_at_exec(line, i) {
            Some(e) => {
                return Some((i, e));
            },
            None => {
                i += 1;
            },
        }
    }
    None
}

// ------------------------------------------------------------------
// Messages per line and per text
// ------------------------------------------------------------------
/// A message for a span of one line: columns are 1-based byte offsets.
pub open spec fn mk_msg(line: Seq<char>, ln: u32, cs: int, ce: int, id: MessageId) -> EslintMessage {
    EslintMessage {
        line: ln,
        column: to_u32(bytes_upto(line, cs) + 1),
        end_line: ln,
        end_column: to_u32(bytes_upto(line, ce) + 1),
        message_id: id,
    }
}

/// The messages one line produces: the first match of each detector, in a
/// fixed order; a bare CJK run only counts when it lies inside a string
/// literal.
pub open spec fn line_messages(line: Seq<char>, ln: u32) -> Seq<EslintMessage> {
    let zs = match zh_start(line, 0) {
        Some(s) => if in_string_literal(line, s) {
            seq![mk_msg(line, ln, s, zh_end(line, s), MessageId::BareZhInJs)]
        } else {
            Seq::empty()
        },
        None => Seq::empty(),
    };
    let js = match jsx_find(line, 0) {
        Some((s, e)) => seq![mk_msg(line, ln, s, e, MessageId::BareZhInJsx)],
        None => Seq::empty(),
    };
    let ts = match template_find(line, 0) {
        Some((s, e)) => seq![mk_msg(line, ln, s, e, MessageId::BareZhInTemplate)],
        None => Seq::empty(),
    };
    let ds = match domain_find(line, 0) {
        Some((s, e)) => seq![mk_msg(line, ln, s, e, MessageId::ForbiddenHardCodeOfDomain)],
        None => Seq::empty(),
    };
    let cs = match concat_find(line, 0) {
        Some((s, e)) => seq![mk_msg(line, ln, s, e, MessageId::NoStringConcatenation)],
        None => Seq::empty(),
    };
    zs + js + ts + ds + cs
}

/// The byte width of the first `k` characters, exactly.
fn byte_off_exec(line: &Vec<char>, k: usize) -> (r: u128)
    requires
        k <= line@.len(),
    ensures
        r as int == bytes_upto(line@, k as int),
        r <= 4 * (k as u128),
{
    let mut off: u128 = 0;
    let mut j: usize = 0;
    while j < k
        invariant
            j <= k <= line@.len(),
            off as int == bytes_upto(line@, j as int),
            off <= 4 * (j as u128),
        decreases k - j,
    {
        off = off + (utf8_len_of(line[j]) as u128);
        j += 1;
    }
    off
}

fn mk_msg_exec(line: &Vec<char>, ln: u32, cs: usize, ce: usize, id: MessageId) -> (r: EslintMessage)
    requires
        cs <= line@.len(),
        ce <= line@.len(),
    ensures
        r == mk_msg(line@, ln, cs as int, ce as int, id),
{
    let bs = byte_off_exec(line, cs);
    let be = byte_off_exec(line, ce);
    let cs32: u128 = (bs + 1) % 0x1_0000_0000;
    let ce32: u128 = (be + 1) % 0x1_0000_0000;
    EslintMessage {
        line: ln,
        column: cs32 as u32,
        end_line: ln,
        end_column: ce32 as u32,
        message_id: id,
    }
}

fn line_messages_exec(line: &Vec<char>, ln: u32) -> (r: Vec<EslintMessage>)
    ensures
        r@ == line_messages(line@, ln),
{
    let mut out: Vec<EslintMessage> = Vec::new();
    match zh_start_exec(line, 0) {
        Some(s) => {
            if in_string_literal_exec(line, s) {
                let e = zh_end_exec(line, s);
                out.push(mk_msg_exec(line, ln, s, e, MessageId::BareZhInJs));
            }
        },
        None => {},
    }
    match jsx_find_exec(line) {
        Some((s, e)) => {
            out.push(mk_msg_exec(line, ln, s, e, MessageId::BareZhInJsx));
        },
        None => {},
    }
    match template_find_exec(line) {
        Some((s, e)) => {
            out.push(mk_msg_exec(line, ln, s, e, MessageId::BareZhInTemplate));
        },
        None => {},
    }
    match domain_find_exec(line) {
        Some((s, e)) => {
            out.push(mk_msg_exec(line, ln, s, e, MessageId::ForbiddenHardCodeOfDomain));
        },
        None => {},
    }
    match concat_find_exec(line) {
        Some((s, e)) => {
            out.push(mk_msg_exec(line, ln, s, e, MessageId::NoStringConcatenation));
        },
        None => {},
    }
    proof {
        assert(out@ =~= line_messages(line@, ln));
    }
    out
}

/// The messages of the first `i` lines, in line order.
pub open spec fn msgs_upto(lines: Seq<Seq<char>>, i: int) -> Seq<EslintMessage>
    decreases i,
{
    if i <= 0 {
        Seq::empty()
    } else {
        msgs_upto(lines, i - 1) + line_messages(lines[i - 1], to_u32(i))
    }
}

/// Every message the detectors produce for the whole text.
pub open spec fn all_messages(lines: Seq<Seq<char>>) -> Seq<EslintMessage> {
    msgs_upto(lines, lines.len() as int)
}

fn line_num_exec(idx: usize) -> (r: u32)
    ensures
        r == to_u32(idx + 1),
{
    (((idx as u128) + 1) % 0x1_0000_0000) as u32
}

fn all_messages_exec(lines: &Vec<Vec<char>>) -> (r: Vec<EslintMessage>)
    ensures
        r@ == all_messages(lines.deep_view()),
{
    let mut out: Vec<EslintMessage> = Vec::new();
    let mut idx: usize = 0;
    while idx < lines.len()
        invariant
            idx <= lines@.len(),
            out@ == msgs_upto(lines.deep_view(), idx as int),
        decreases lines@.len() - idx,
    {
        proof {
            assert(lines.deep_view()[idx as int] == lines@[idx as int]@);
        }
        let ln = line_num_exec(idx);
        let mut lm = line_messages_exec(&lines[idx], ln);
        out.append(&mut lm);
        idx += 1;
    }
    out
}

// ------------------------------------------------------------------
// Recovering the implicated source text
// ------------------------------------------------------------------
/// The characters of `l` from `from` (clamped into the line) spanning at
/// most `cnt` characters.
pub open spec fn clip_slice(l: Seq<char>, from: int, cnt: int) -> Seq<char> {
    let n = l.len() as int;
    let lo = if from < 0 {
        0
    } else if from > n {
        n
    } else {
        from
    };
    let hi0 = from + cnt;
    let hi = if hi0 < lo {
        lo
    } else if hi0 > n {
        n
    } else {
        hi0
    };
    l.subrange(lo, hi)
}

fn clip_exec(l: &Vec<char>, from: i128, cnt: i128) -> (r: Vec<char>)
    requires
        -0x1_0000_0000_0000_0000 <= from <= 0x1_0000_0000_0000_0000,
        -0x1_0000_0000_0000_0000 <= cnt <= 0x1_0000_0000_0000_0000,
    ensures
        r@ == clip_slice(l@, from as int, cnt as int),
{
    let n: usize = l.len();
    let ni: i128 = n as i128;
    let lo: i128 = if from < 0 {
        0
    } else if from > ni {
        ni
    } else {
        from
    };
    let hi0: i128 = from + cnt;
    let hi: i128 = if hi0 < lo {
        lo
    } else if hi0 > ni {
        ni
    } else {
        hi0
    };
    copy_range(l, lo as usize, hi as usize)
}

/// The piece of line `idx` (0-based) that the location covers, trimmed:
/// the first line of the file is sliced from the start column (and up to
/// the end column when the location is a single line), the location's last
/// line is sliced up to the end column, and any other covered line is
/// taken whole.
pub open spec fn piece_of(lines: Seq<Seq<char>>, idx: int, loc: Location) -> Seq<char> {
    let ln = to_u32(idx + 1);
    if loc.start.line <= ln && ln <= loc.end.line {
        let l = lines[idx];
        let sc = loc.start.column as int;
        let ec = loc.end.column as int;
        if idx == 0 {
            if loc.end.line == loc.start.line {
                trim(clip_slice(l, sc - 1, ec - sc))
            } else {
                trim(clip_slice(l, sc - 1, l.len() as int))
            }
        } else if ln == loc.end.line {
            trim(clip_slice(l, 0, ec - 1))
        } else {
            trim(l)
        }
    } else {
        Seq::empty()
    }
}

/// The concatenated, per-line-trimmed text the location spans in the first
/// `i` lines.
pub open spec fn value_upto(lines: Seq<Seq<char>>, i: int, loc: Location) -> Seq<char>
    decreases i,
{
    if i <= 0 {
        Seq::empty()
    } else {
        value_upto(lines, i - 1, loc) + piece_of(lines, i - 1, loc)
    }
}

/// The raw text the location spans.
pub open spec fn raw_value(lines: Seq<Seq<char>>, loc: Location) -> Seq<char> {
    value_upto(lines, lines.len() as int, loc)
}

fn raw_value_exec(lines: &Vec<Vec<char>>, loc: &Location) -> (r: Vec<char>)
    ensures
        r@ == raw_value(lines.deep_view(), *loc),
{
    let mut out: Vec<char> = Vec::new();
    let mut idx: usize = 0;
    while idx < lines.len()
        invariant
            idx <= lines@.len(),
            out@ == value_upto(lines.deep_view(), idx as int, *loc),
        decreases lines@.len() - idx,
    {
        proof {
            assert(lines.deep_view()[idx as int] == lines@[idx as int]@);
        }
        let ln = line_num_exec(idx);
        if loc.start.line <= ln && ln <= loc.end.line {
            let l = &lines[idx];
            let sc: i128 = loc.start.column as i128;
            let ec: i128 = loc.end.column as i128;
            let clipped = if idx == 0 {
                if loc.end.line == loc.start.line {
                    clip_exec(l, sc - 1, ec - sc)
                } else {
                    clip_exec(l, sc - 1, l.len() as i128)
                }
            } else if ln == loc.end.line {
                clip_exec(l, 0, ec - 1)
            } else {
                copy_range(l, 0, l.len())
            };
            proof {
                if !(idx == 0) && !(ln == loc.end.line) {
                    assert(clipped@ =~= lines@[idx as int]@);
                }
            }
            let mut piece = trim_vec(&clipped);
            out.append(&mut piece);
        }
        idx += 1;
    }
    out
}

/// A character allowed in a closing tag name.
pub open spec fn is_tag_char(c: char) -> bool {
    crate::text::is_word(c) || c == '-' || c == '.'
}

fn is_tag_char_exec(c: char) -> (r: bool)
    ensures
        r == is_tag_char(c),
{
    crate::text::is_word_char(c) || c == '-' || c == '.'
}

/// Scans a markup open tag from just after `<`: quoted attribute chunks
/// are skipped whole, and the first `>` outside quotes ends the tag.
/// Yields the index after that `>`.
pub open spec fn jsx_head(v: Seq<char>, i: int, q: Option<char>) -> Option<int>
    decreases v.len() - i,
{
    if i < 0 || i >= v.len() {
        None
    } else {
        match q {
            Some(qc) => if v[i] == qc {
                jsx_head(v, i + 1, None)
            } else {
                jsx_head(v, i + 1, Some(qc))
            },
            None => {
                if v[i] == '>' {
                    Some(i + 1)
                } else if v[i] == '"' {
                    jsx_head(v, i + 1, Some('"'))
                } else if v[i] == '\'' {
                    jsx_head(v, i + 1, Some('\''))
                } else {
                    jsx_head(v, i + 1, None)
                }
            },
        }
    }
}

fn jsx_head_exec(v: &Vec<char>, i: usize, q: Option<char>) -> (r: Option<usize>)
    requires
        i <= v@.len(),
    ensures
        (match r {
            Some(e) => jsx_head(v@, i as int, q) == Some(e as int) && i < e <= v@.len(),
            None => jsx_head(v@, i as int, q) is None,
        }),
    decreases v@.len() - i,
{
    if i == v.len() {
        None
    } else {
        match q {
            Some(qc) => if v[i] == qc {
                jsx_head_exec(v, i + 1, None)
            } else {
                jsx_head_exec(v, i + 1, Some(qc))
            },
            None => {
                if v[i] == '>' {
                    Some(i + 1)
                } else if v[i] == '"' {
                    jsx_head_exec(v, i + 1, Some('"'))
                } else if v[i] == '\'' {
                    jsx_head_exec(v, i + 1, Some('\''))
                } else {
                    jsx_head_exec(v, i + 1, None)
                }
            },
        }
    }
}

/// The start of the tag-name run ending at `k`, scanning backwards.
pub open spec fn tag_start(v: Seq<char>, k: int) -> int
    decreases k + 1,
{
    if k < 0 || k >= v.len() || !is_tag_char(v[k]) {
        k + 1
    } else {
        tag_start(v, k - 1)
    }
}

fn tag_start_exec(v: &Vec<char>, k: usize) -> (r: usize)
    requires
        k < v@.len(),
    ensures
        r as int == tag_start(v@, k as int),
        r <= k + 1,
    decreases k,
{
    let _n: usize = v.len();
    if !is_tag_char_exec(v[k]) {
        k + 1
    } else if k == 0 {
        proof {
            assert(tag_start(v@, -1) == 0);
        }
        0
    } else {
        tag_start_exec(v, k - 1)
    }
}

/// Whether the span `[lo, hi)` contains a newline.
pub open spec fn has_nl(v: Seq<char>, lo: int, hi: int) -> bool {
    exists|k: int| lo <= k < hi && v[k] == '\n'
}

fn has_nl_exec(v: &Vec<char>, lo: usize, hi: usize) -> (r: bool)
    requires
        lo <= hi <= v@.len(),
    ensures
        r == has_nl(v@, lo as int, hi as int),
{
    let mut k = lo;
    while k < hi
        invariant
            lo <= k <= hi <= v@.len(),
            forall|x: int| lo <= x < k ==> v@[x] != '\n',
        decreases hi - k,
    {
        if v[k] == '\n' {
            return true;
        }
        k += 1;
    }
    false
}

/// Strips the surrounding markup syntax from a single-element value:
/// `<tag ...>content</name>` becomes `content`. Anything that does not
/// have that exact shape is returned unchanged.
pub open spec fn jsx_strip(v: Seq<char>) -> Seq<char> {
    if v.len() < 2 || v[0] != '<' || v.last() != '>' {
        v
    } else {
        match jsx_head(v, 1, None) {
            None => v,
            Some(h) => {
                let ws = tag_start(v, v.len() - 2);
                if ws >= 2 && v[ws - 1] == '/' && v[ws - 2] == '<' && ws - 2 >= h + 1 && !has_nl(
                    v,
                    h,
                    ws - 2,
                ) {
                    v.subrange(h, ws - 2)
                } else {
                    v
                }
            },
        }
    }
}

fn jsx_strip_exec(v: &Vec<char>) -> (r: Vec<char>)
    ensures
        r@ == jsx_strip(v@),
{
    let n: usize = v.len();
    if n < 2 || v[0] != '<' || v[n - 1] != '>' {
        return copy_range(v, 0, n);
    }
    match jsx_head_exec(v, 1, None) {
        None => copy_range(v, 0, n),
        Some(h) => {
            let ws = tag_start_exec(v, n - 2);
            if ws >= 2 && v[ws - 1] == '/' && v[ws - 2] == '<' && ws - 2 > h && !has_nl_exec(
                v,
                h,
                ws - 2,
            ) {
                copy_range(v, h, ws - 2)
            } else {
                copy_range(v, 0, n)
            }
        },
    }
}

/// Strips one layer of surrounding quote characters (of any kind) from a
/// single-line value of at least three characters; anything else is
/// returned unchanged.
pub open spec fn quote_strip(v: Seq<char>) -> Seq<char> {
    if v.len() >= 3 && is_quote(v[0]) && is_quote(v.last()) && !has_nl(v, 1, v.len() - 1) {
        v.subrange(1, v.len() - 1)
    } else {
        v
    }
}

fn quote_strip_exec(v: &Vec<char>) -> (r: Vec<char>)
    ensures
        r@ == quote_strip(v@),
{
    let n: usize = v.len();
    if n >= 3 && is_quote_char(v[0]) && is_quote_char(v[n - 1]) && !has_nl_exec(v, 1, n - 1) {
        copy_range(v, 1, n - 1)
    } else {
        copy_range(v, 0, n)
    }
}

/// The implicated text of a finding: the raw spanned text, with markup
/// syntax stripped for markup findings and quotes stripped for the rest.
pub open spec fn finding_value(lines: Seq<Seq<char>>, loc: Location, id: MessageId) -> Seq<char> {
    let raw = raw_value(lines, loc);
    if id is BareZhInJsx {
        jsx_strip(raw)
    } else {
        quote_strip(raw)
    }
}

fn finding_value_exec(lines: &Vec<Vec<char>>, loc: &Location, id: MessageId) -> (r: Vec<char>)
    ensures
        r@ == finding_value(lines.deep_view(), *loc, id),
{
    let raw = raw_value_exec(lines, loc);
    match id {
        MessageId::BareZhInJsx => jsx_strip_exec(&raw),
        _ => quote_strip_exec(&raw),
    }
}

// ------------------------------------------------------------------
// The linter and its accumulated findings
// ------------------------------------------------------------------
/// The three finding buckets a lint session accumulates: errors (bare
/// text), hard-coded-domain suggestions, and concatenation warnings. An
/// explicit value that the caller owns and resets, never implicit
/// process-wide state, so that scans stay composable.
pub struct LintState {
    pub result: Vec<LintResult>,
    pub hard_code_suggestions: Vec<LintResult>,
    pub no_string_concatenations: Vec<LintResult>,
}

/// The mathematical content of a [`LintState`].
pub struct LintStateModel {
    pub result: Seq<LintResultModel>,
    pub hard_code_suggestions: Seq<LintResultModel>,
    pub no_string_concatenations: Seq<LintResultModel>,
}

impl DeepView for LintState {
    type V = LintStateModel;

    open spec fn deep_view(&self) -> LintStateModel {
        LintStateModel {
            result: self.result.deep_view(),
            hard_code_suggestions: self.hard_code_suggestions.deep_view(),
            no_string_concatenations: self.no_string_concatenations.deep_view(),
        }
    }
}

/// A state with no findings.
pub open spec fn empty_lint_state() -> LintStateModel {
    LintStateModel {
        result: Seq::empty(),
        hard_code_suggestions: Seq::empty(),
        no_string_concatenations: Seq::empty(),
    }
}

impl LintState {
    /// A state with no findings.
    pub fn new() -> (r: LintState)
        ensures
            r.deep_view() == empty_lint_state(),
    {
        let r = LintState {
            result: Vec::new(),
            hard_code_suggestions: Vec::new(),
            no_string_concatenations: Vec::new(),
        };
        proof {
            assert(r.result.deep_view() =~= Seq::<LintResultModel>::empty());
            assert(r.hard_code_suggestions.deep_view() =~= Seq::<LintResultModel>::empty());
            assert(r.no_string_concatenations.deep_view() =~= Seq::<LintResultModel>::empty());
        }
        r
    }
}

/// Routes messages into the three buckets in order. A message whose
/// location exactly equals the location of the most recently stored error
/// finding is dropped (adjacent-duplicate suppression), except for the
/// first message of a run.
pub open spec fn route_from(
    msgs: Seq<EslintMessage>,
    k: int,
    lines: Seq<Seq<char>>,
    fp: Seq<char>,
    st: LintStateModel,
) -> LintStateModel
    decreases msgs.len() - k,
{
    if k < 0 || k >= msgs.len() {
        st
    } else {
        let msg = msgs[k];
        let loc = Location {
            start: Position { line: msg.line, column: msg.column },
            end: Position { line: msg.end_line, column: msg.end_column },
        };
        if k > 0 && st.result.len() > 0 && st.result.last().loc == loc {
            route_from(msgs, k + 1, lines, fp, st)
        } else {
            let fr = LintResultModel {
                filepath: fp,
                loc,
                value: finding_value(lines, loc, msg.message_id),
            };
            let st2 = if msg.message_id is ForbiddenHardCodeOfDomain {
                LintStateModel { hard_code_suggestions: st.hard_code_suggestions.push(fr), ..st }
            } else if msg.message_id is NoStringConcatenation {
                LintStateModel {
                    no_string_concatenations: st.no_string_concatenations.push(fr),
                    ..st
                }
            } else {
                LintStateModel { result: st.result.push(fr), ..st }
            };
            route_from(msgs, k + 1, lines, fp, st2)
        }
    }
}

/// What one lint pass over `t` adds to the state.
pub open spec fn lint_outcome(st: LintStateModel, t: Seq<char>, fp: Seq<char>) -> LintStateModel {
    route_from(all_messages(split_lines(t)), 0, split_lines(t), fp, st)
}


// ------------------------------------------------------------------
// Detection and routing laws
// ------------------------------------------------------------------
/// Detection law, bare text in code: a line holding a CJK run whose first
/// character lies inside a string literal produces a bare-text-in-code
/// message, and it comes first.
pub proof fn lemma_line_detects_bare_text(line: Seq<char>, ln: u32)
    requires
        (match zh_start(line, 0) {
            Some(s) => in_string_literal(line, s),
            None => false,
        }),
    ensures
        line_messages(line, ln).len() > 0,
        line_messages(line, ln)[0].message_id is BareZhInJs,
{
}

/// Detection law, bare text in markup: a line holding CJK element text
/// between a tag close and a tag open produces a markup message.
pub proof fn lemma_line_detects_markup_text(line: Seq<char>, ln: u32)
    requires
        jsx_find(line, 0) is Some,
    ensures
        exists|i: int|
            0 <= i < line_messages(line, ln).len() && (#[trigger] line_messages(line, ln)[
                i
            ]).message_id is BareZhInJsx,
{
    let zs_len: int = match zh_start(line, 0) {
        Some(s) => if in_string_literal(line, s) {
            1int
        } else {
            0int
        },
        None => 0int,
    };
    assert(line_messages(line, ln)[zs_len].message_id is BareZhInJsx);
}

/// Detection law, templates: a line holding a backtick-delimited body with
/// CJK text produces a template message.
pub proof fn lemma_line_detects_template_text(line: Seq<char>, ln: u32)
    requires
        template_find(line, 0) is Some,
    ensures
        exists|i: int|
            0 <= i < line_messages(line, ln).len() && (#[trigger] line_messages(line, ln)[
                i
            ]).message_id is BareZhInTemplate,
{
    let zs_len: int = match zh_start(line, 0) {
        Some(s) => if in_string_literal(line, s) {
            1int
        } else {
            0int
        },
        None => 0int,
    };
    let js_len: int = match jsx_find(line, 0) {
        Some(p) => 1int,
        None => 0int,
    };
    assert(line_messages(line, ln)[zs_len + js_len].message_id is BareZhInTemplate);
}

/// Detection law, domains: a line holding a hard-coded `http(s)` host
/// produces a domain message.
pub proof fn lemma_line_detects_domain(line: Seq<char>, ln: u32)
    requires
        domain_find(line, 0) is Some,
    ensures
        exists|i: int|
            0 <= i < line_messages(line, ln).len() && (#[trigger] line_messages(line, ln)[
                i
            ]).message_id is ForbiddenHardCodeOfDomain,
{
    let zs_len: int = match zh_start(line, 0) {
        Some(s) => if in_string_literal(line, s) {
            1int
        } else {
            0int
        },
        None => 0int,
    };
    let js_len: int = match jsx_find(line, 0) {
        Some(p) => 1int,
        None => 0int,
    };
    let ts_len: int = match template_find(line, 0) {
        Some(p) => 1int,
        None => 0int,
    };
    assert(line_messages(line, ln)[zs_len + js_len + ts_len].message_id
        is ForbiddenHardCodeOfDomain);
}

/// Detection law, concatenation: a line holding two quoted literals joined
/// by `+` produces a concatenation message.
pub proof fn lemma_line_detects_concat(line: Seq<char>, ln: u32)
    requires
        concat_find(line, 0) is Some,
    ensures
        exists|i: int|
            0 <= i < line_messages(line, ln).len() && (#[trigger] line_messages(line, ln)[
                i
            ]).message_id is NoStringConcatenation,
{
    let zs_len: int = match zh_start(line, 0) {
        Some(s) => if in_string_literal(line, s) {
            1int
        } else {
            0int
        },
        None => 0int,
    };
    let js_len: int = match jsx_find(line, 0) {
        Some(p) => 1int,
        None => 0int,
    };
    let ts_len: int = match template_find(line, 0) {
        Some(p) => 1int,
        None => 0int,
    };
    let ds_len: int = match domain_find(line, 0) {
        Some(p) => 1int,
        None => 0int,
    };
    assert(line_messages(line, ln)[zs_len + js_len + ts_len + ds_len].message_id
        is NoStringConcatenation);
}

/// Routing law: routing keeps what was already stored, extends the
/// suggestion bucket only for domain messages, the concatenation bucket
/// only for concatenation messages, and the error bucket only for the
/// three bare-text messages.
pub proof fn lemma_route_buckets(
    msgs: Seq<EslintMessage>,
    k: int,
    lines: Seq<Seq<char>>,
    fp: Seq<char>,
    st: LintStateModel,
)
    ensures
        ({
            let out = route_from(msgs, k, lines, fp, st);
            &&& out.result.len() >= st.result.len()
            &&& out.result.take(st.result.len() as int) == st.result
            &&& out.hard_code_suggestions.len() >= st.hard_code_suggestions.len()
            &&& out.hard_code_suggestions.take(st.hard_code_suggestions.len() as int)
                == st.hard_code_suggestions
            &&& out.no_string_concatenations.len() >= st.no_string_concatenations.len()
            &&& out.no_string_concatenations.take(st.no_string_concatenations.len() as int)
                == st.no_string_concatenations
            &&& (forall|x: int|
                k <= x < msgs.len() ==> !((#[trigger] msgs[x]).message_id
                    is ForbiddenHardCodeOfDomain)) ==> out.hard_code_suggestions
                == st.hard_code_suggestions
            &&& (forall|x: int|
                k <= x < msgs.len() ==> !((#[trigger] msgs[x]).message_id
                    is NoStringConcatenation)) ==> out.no_string_concatenations
                == st.no_string_concatenations
            &&& (forall|x: int|
                k <= x < msgs.len() ==> ((#[trigger] msgs[x]).message_id
                    is ForbiddenHardCodeOfDomain || msgs[x].message_id is NoStringConcatenation))
                ==> out.result == st.result
        }),
    decreases msgs.len() - k,
{
    if k < 0 || k >= msgs.len() {
        let out = route_from(msgs, k, lines, fp, st);
        assert(out.result.take(st.result.len() as int) =~= st.result);
        assert(out.hard_code_suggestions.take(st.hard_code_suggestions.len() as int)
            =~= st.hard_code_suggestions);
        assert(out.no_string_concatenations.take(st.no_string_concatenations.len() as int)
            =~= st.no_string_concatenations);
    } else {
        let msg = msgs[k];
        let loc = Location {
            start: Position { line: msg.line, column: msg.column },
            end: Position { line: msg.end_line, column: msg.end_column },
        };
        if k > 0 && st.result.len() > 0 && st.result.last().loc == loc {
            lemma_route_buckets(msgs, k + 1, lines, fp, st);
        } else {
            let fr = LintResultModel {
                filepath: fp,
                loc,
                value: finding_value(lines, loc, msg.message_id),
            };
            let st2 = if msg.message_id is ForbiddenHardCodeOfDomain {
                LintStateModel { hard_code_suggestions: st.hard_code_suggestions.push(fr), ..st }
            } else if msg.message_id is NoStringConcatenation {
                LintStateModel {
                    no_string_concatenations: st.no_string_concatenations.push(fr),
                    ..st
                }
            } else {
                LintStateModel { result: st.result.push(fr), ..st }
            };
            lemma_route_buckets(msgs, k + 1, lines, fp, st2);
            let out = route_from(msgs, k, lines, fp, st);
            assert(out == route_from(msgs, k + 1, lines, fp, st2));
            assert(out.result.take(st.result.len() as int) =~= out.result.take(
                st2.result.len() as int,
            ).take(st.result.len() as int));
            assert(st2.result.take(st.result.len() as int) =~= st.result);
            assert(out.result.take(st.result.len() as int) =~= st.result);
            assert(out.hard_code_suggestions.take(st.hard_code_suggestions.len() as int)
                =~= out.hard_code_suggestions.take(st2.hard_code_suggestions.len() as int).take(
                st.hard_code_suggestions.len() as int,
            ));
            assert(st2.hard_code_suggestions.take(st.hard_code_suggestions.len() as int)
                =~= st.hard_code_suggestions);
            assert(out.hard_code_suggestions.take(st.hard_code_suggestions.len() as int)
                =~= st.hard_code_suggestions);
            assert(out.no_string_concatenations.take(st.no_string_concatenations.len() as int)
                =~= out.no_string_concatenations.take(
                st2.no_string_concatenations.len() as int,
            ).take(st.no_string_concatenations.len() as int));
            assert(st2.no_string_concatenations.take(st.no_string_concatenations.len() as int)
                =~= st.no_string_concatenations);
            assert(out.no_string_concatenations.take(st.no_string_concatenations.len() as int)
                =~= st.no_string_concatenations);
        }
    }
}

/// Whether a text ends with the given suffix.
pub open spec fn ends_with(a: Seq<char>, b: Seq<char>) -> bool {
    a.len() >= b.len() && a.subrange(a.len() - b.len(), a.len() as int) == b
}

fn ends_with_exec(s: &str, suf: &str) -> (r: bool)
    ensures
        r == ends_with(s@, suf@),
{
    let n = s.unicode_len();
    let m = suf.unicode_len();
    if m > n {
        return false;
    }
    let mut k: usize = 0;
    while k < m
        invariant
            n == s@.len(),
            m == suf@.len(),
            m <= n,
            k <= m,
            forall|x: int| 0 <= x < k ==> s@[n - m + x] == suf@[x],
        decreases m - k,
    {
        if s.get_char(n - m + k) != suf.get_char(k) {
            proof {
                assert(s@.subrange(n as int - m as int, n as int)[k as int] == s@[n - m + k]);
            }
            return false;
        }
        k += 1;
    }
    proof {
        assert(s@.subrange(n as int - m as int, n as int) =~= suf@);
    }
    true
}

/// The hard-coded-text linter. It holds no state of its own: findings
/// accumulate in the [`LintState`] handed to [`ZhLinter::verify`].
pub struct ZhLinter {}

impl Default for ZhLinter {
    fn default() -> (r: Self)
        ensures
            r == (ZhLinter {  }),
    {
        ZhLinter {  }
    }
}

impl ZhLinter {
    pub fn new() -> (r: Self)
        ensures
            r == (ZhLinter {  }),
    {
        ZhLinter {  }
    }

    /// The lint configuration for a file: the TypeScript parser for `.ts`
    /// and `.tsx` files, browser/es6 environment, and the four rules.
    pub fn get_config(&self, filepath: &str) -> (r: EslintConfig)
        ensures
            r.parser@ == (if ends_with(filepath@, ".ts"@) || ends_with(filepath@, ".tsx"@) {
                "ts-parser"@
            } else {
                "js-eslint"@
            }),
            r.env.deep_view() == seq![("browser"@, true), ("es6"@, true)],
            r.rules.deep_view() == seq![
                ("@tencent/tea-i18n/no-bare-zh-in-js"@, "error"@),
                ("@tencent/tea-i18n/no-bare-zh-in-jsx"@, "error"@),
                ("@tencent/tea-i18n/no-hard-code-of-domain"@, "error"@),
                ("@tencent/tea-i18n/no-string-concat"@, "error"@),
            ],
            r.parser_options.ecma_version == 6,
            r.parser_options.source_type@ == "module"@,
            r.parser_options.ecma_features == (EcmaFeatures { jsx: true, legacy_decorators: true }),
    {
        let is_ts = ends_with_exec(filepath, ".ts") || ends_with_exec(filepath, ".tsx");
        let mut env: Vec<(String, bool)> = Vec::new();
        env.push((String::from_str("browser"), true));
        env.push((String::from_str("es6"), true));
        let mut rules: Vec<(String, String)> = Vec::new();
        rules.push(
            (String::from_str("@tencent/tea-i18n/no-bare-zh-in-js"), String::from_str("error")),
        );
        rules.push(
            (String::from_str("@tencent/tea-i18n/no-bare-zh-in-jsx"), String::from_str("error")),
        );
        rules.push(
            (String::from_str("@tencent/tea-i18n/no-hard-code-of-domain"), String::from_str(
                "error",
            )),
        );
        rules.push(
            (String::from_str("@tencent/tea-i18n/no-string-concat"), String::from_str("error")),
        );
        proof {
            assert(env.deep_view() =~~= seq![("browser"@, true), ("es6"@, true)]);
            assert(rules.deep_view() =~~= seq![
                ("@tencent/tea-i18n/no-bare-zh-in-js"@, "error"@),
                ("@tencent/tea-i18n/no-bare-zh-in-jsx"@, "error"@),
                ("@tencent/tea-i18n/no-hard-code-of-domain"@, "error"@),
                ("@tencent/tea-i18n/no-string-concat"@, "error"@),
            ]);
        }
        EslintConfig {
            env,
            parser: if is_ts {
                String::from_str("ts-parser")
            } else {
                String::from_str("js-eslint")
            },
            parser_options: ParserOptions {
                ecma_version: 6,
                source_type: String::from_str("module"),
                ecma_features: EcmaFeatures { jsx: true, legacy_decorators: true },
            },
            rules,
        }
    }

    /// Recovers the implicated source text for a finding from the
    /// line-split text.
    pub fn get_value(&self, lines: &Vec<String>, loc: &Location, message_id: &MessageId) -> (r:
        String)
        ensures
            r@ == finding_value(lines.deep_view(), *loc, *message_id),
    {
        let mut lchars: Vec<Vec<char>> = Vec::new();
        let mut i: usize = 0;
        while i < lines.len()
            invariant
                i <= lines@.len(),
                lchars.deep_view() == lines.deep_view().take(i as int),
            decreases lines@.len() - i,
        {
            let ghost dv0 = lchars.deep_view();
            proof {
                assert(lines.deep_view()[i as int] == lines@[i as int]@);
            }
            lchars.push(to_chars(lines[i].as_str()));
            proof {
                assert(lchars.deep_view() =~~= dv0.push(lines.deep_view()[i as int]));
                assert(dv0.push(lines.deep_view()[i as int]) =~~= lines.deep_view().take(
                    i as int + 1,
                ));
            }
            i += 1;
        }
        proof {
            assert(lines.deep_view().take(lines@.len() as int) =~~= lines.deep_view());
        }
        let v = finding_value_exec(&lchars, loc, message_id.clone());
        chars_to_string(&v)
    }

    /// Runs the five detectors over every line and returns the raw
    /// messages, in line order.
    pub fn mock_eslint_verify(&self, content: &str, config: &EslintConfig) -> (r: Vec<
        EslintMessage,
    >)
        ensures
            r@ == all_messages(split_lines(content@)),
    {
        let t = to_chars(content);
        let lines = split_lines_exec(&t);
        all_messages_exec(&lines)
    }

    /// Lints one file's text: detects, suppresses adjacent duplicates, and
    /// routes each finding into the matching bucket of the state.
    pub fn verify(&self, state: &mut LintState, content: &str, filepath: &str)
        ensures
            final(state).deep_view() == lint_outcome(old(state).deep_view(), content@, filepath@),
    {
        let config = self.get_config(filepath);
        let t = to_chars(content);
        let lines = split_lines_exec(&t);
        let msgs = all_messages_exec(&lines);
        let ghost lm = lines.deep_view();
        let ghost st0 = state.deep_view();
        let mut k: usize = 0;
        while k < msgs.len()
            invariant
                k <= msgs@.len(),
                lines.deep_view() == lm,
                lm == split_lines(content@),
                msgs@ == all_messages(lm),
                route_from(msgs@, k as int, lm, filepath@, state.deep_view()) == route_from(
                    msgs@,
                    0,
                    lm,
                    filepath@,
                    st0,
                ),
            decreases msgs@.len() - k,
        {
            let msg = msgs[k];
            let loc = Location {
                start: Position { line: msg.line, column: msg.column },
                end: Position { line: msg.end_line, column: msg.end_column },
            };
            let dup = k > 0 && state.result.len() > 0 && state.result[state.result.len() - 1].loc
                == loc;
            proof {
                if state.result@.len() > 0 {
                    assert(state.result.deep_view().last() == state.result@[state.result@.len()
                        - 1].deep_view());
                }
            }
            if !dup {
                let ghost sth = state.deep_view();
                let value_chars = finding_value_exec(&lines, &loc, msg.message_id);
                let lr = LintResult {
                    filepath: String::from_str(filepath),
                    loc,
                    value: chars_to_string(&value_chars),
                };
                let ghost frm = lr.deep_view();
                match msg.message_id {
                    MessageId::ForbiddenHardCodeOfDomain => {
                        state.hard_code_suggestions.push(lr);
                        proof {
                            assert(state.hard_code_suggestions.deep_view()
                                =~= sth.hard_code_suggestions.push(frm));
                        }
                    },
                    MessageId::NoStringConcatenation => {
                        state.no_string_concatenations.push(lr);
                        proof {
                            assert(state.no_string_concatenations.deep_view()
                                =~= sth.no_string_concatenations.push(frm));
                        }
                    },
                    _ => {
                        state.result.push(lr);
                        proof {
                            assert(state.result.deep_view() =~= sth.result.push(frm));
                        }
                    },
                }
            }
            k += 1;
        }
    }
}

/// The index of the first character whose byte offset is at or past `pos`
/// (scanning from `k`).
pub open spec fn char_index_at(s: Seq<char>, pos: int, k: int) -> int
    decreases s.len() - k,
{
    if k < 0 || k >= s.len() || bytes_upto(s, k) >= pos {
        k
    } else {
        char_index_at(s, pos, k + 1)
    }
}

impl ZhLinter {
    /// Whether a byte position in a line lies inside a string literal: an
    /// odd number of one of the three quote kinds occurs before the
    /// character the position falls on.
    pub fn is_in_string_literal(&self, line: &str, pos: usize) -> (r: bool)
        ensures
            r == in_string_literal(line@, char_index_at(line@, pos as int, 0)),
    {
        let v = to_chars(line);
        let mut k: usize = 0;
        let mut off: u128 = 0;
        while k < v.len() && off < pos as u128
            invariant
                k <= v@.len(),
                v@ == line@,
                off as int == bytes_upto(v@, k as int),
                char_index_at(line@, pos as int, 0) == char_index_at(line@, pos as int, k as int),
            decreases v@.len() - k,
        {
            proof {
                crate::text::lemma_bytes_upto_bound(v@, k as int);
            }
            off = off + (utf8_len_of(v[k]) as u128);
            k += 1;
        }
        in_string_literal_exec(&v, k)
    }
}

/// A copy of the error findings accumulated so far.
pub fn get_result(state: &LintState) -> (r: Vec<LintResult>)
    ensures
        r.deep_view() == state.result.deep_view(),
{
    clone_results(&state.result)
}

/// A copy of the hard-coded-domain suggestions accumulated so far.
pub fn get_hard_code_suggestions(state: &LintState) -> (r: Vec<LintResult>)
    ensures
        r.deep_view() == state.hard_code_suggestions.deep_view(),
{
    clone_results(&state.hard_code_suggestions)
}

/// A copy of the concatenation warnings accumulated so far.
pub fn get_no_string_concatenations(state: &LintState) -> (r: Vec<LintResult>)
    ensures
        r.deep_view() == state.no_string_concatenations.deep_view(),
{
    clone_results(&state.no_string_concatenations)
}

fn clone_results(v: &Vec<LintResult>) -> (r: Vec<LintResult>)
    ensures
        r.deep_view() == v.deep_view(),
{
    let mut out: Vec<LintResult> = Vec::new();
    let mut i: usize = 0;
    while i < v.len()
        invariant
            i <= v@.len(),
            out.deep_view() == v.deep_view().take(i as int),
        decreases v@.len() - i,
    {
        let ghost dv0 = out.deep_view();
        out.push(v[i].clone());
        proof {
            assert(out.deep_view() =~~= dv0.push(v.deep_view()[i as int]));
            assert(dv0.push(v.deep_view()[i as int]) =~~= v.deep_view().take(i as int + 1));
        }
        i += 1;
    }
    proof {
        assert(v.deep_view().take(v@.len() as int) =~~= v.deep_view());
    }
    out
}

/// Empties all three buckets.
pub fn clear_results(state: &mut LintState)
    ensures
        final(state).deep_view() == empty_lint_state(),
{
    state.result.clear();
    state.hard_code_suggestions.clear();
    state.no_string_concatenations.clear();
    proof {
        assert(state.result.deep_view() =~= Seq::<LintResultModel>::empty());
        assert(state.hard_code_suggestions.deep_view() =~= Seq::<LintResultModel>::empty());
        assert(state.no_string_concatenations.deep_view() =~= Seq::<LintResultModel>::empty());
    }
}

/// A fresh linter.
pub fn create_linter() -> (r: ZhLinter)
    ensures
        r == (ZhLinter {  }),
{
    ZhLinter::new()
}

/// Lints one file's text into a fresh state and returns it.
pub fn verify_code(content: &str, filepath: &str) -> (r: LintState)
    ensures
        r.deep_view() == lint_outcome(empty_lint_state(), content@, filepath@),
{
    let linter = ZhLinter::new();
    let mut state = LintState::new();
    linter.verify(&mut state, content, filepath);
    state
}

} // verus!
