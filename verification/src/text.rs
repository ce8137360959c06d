//! Character-level helpers shared by the extractor, the linter and the
//! project model: whitespace stripping, character classes, string/character
//! conversions and lexicographic comparison.

use vstd::prelude::*;

verus! {

/// The Unicode `White_Space` code points, the set that `char::is_whitespace`
/// recognises.
pub open spec fn is_ws(c: char) -> bool {
    let u = c as u32;
    (0x09 <= u && u <= 0x0d) || u == 0x20 || u == 0x85 || u == 0xa0 || u == 0x1680 || (0x2000
        <= u && u <= 0x200a) || u == 0x2028 || u == 0x2029 || u == 0x202f || u == 0x205f || u
        == 0x3000
}

pub fn is_whitespace_char(c: char) -> (r: bool)
    ensures
        r == is_ws(c),
{
    let u = c as u32;
    (0x09 <= u && u <= 0x0d) || u == 0x20 || u == 0x85 || u == 0xa0 || u == 0x1680 || (0x2000
        <= u && u <= 0x200a) || u == 0x2028 || u == 0x2029 || u == 0x202f || u == 0x205f || u
        == 0x3000
}

/// An identifier character: ASCII letter, digit or underscore.
pub open spec fn is_word(c: char) -> bool {
    let u = c as u32;
    (0x41 <= u && u <= 0x5a) || (0x61 <= u && u <= 0x7a) || (0x30 <= u && u <= 0x39) || u == 0x5f
}

pub fn is_word_char(c: char) -> (r: bool)
    ensures
        r == is_word(c),
{
    let u = c as u32;
    (0x41 <= u && u <= 0x5a) || (0x61 <= u && u <= 0x7a) || (0x30 <= u && u <= 0x39) || u == 0x5f
}

/// A string-literal delimiter: single quote, double quote or backtick.
pub open spec fn is_quote(c: char) -> bool {
    c == '\'' || c == '"' || c == '`'
}

pub fn is_quote_char(c: char) -> (r: bool)
    ensures
        r == is_quote(c),
{
    c == '\'' || c == '"' || c == '`'
}

/// A CJK ideograph in the range the linter looks for.
pub open spec fn is_zh(c: char) -> bool {
    0x4e00 <= c as u32 && c as u32 <= 0x9fff
}

pub fn is_zh_char(c: char) -> (r: bool)
    ensures
        r == is_zh(c),
{
    let u = c as u32;
    0x4e00 <= u && u <= 0x9fff
}

/// A CJK ideograph in the narrower range the project model's integrity check
/// uses.
pub open spec fn is_zh_narrow(c: char) -> bool {
    0x4e00 <= c as u32 && c as u32 <= 0x9fa5
}

pub fn is_zh_narrow_char(c: char) -> (r: bool)
    ensures
        r == is_zh_narrow(c),
{
    let u = c as u32;
    0x4e00 <= u && u <= 0x9fa5
}

/// The text with every whitespace character removed.
pub open spec fn strip_ws(s: Seq<char>) -> Seq<char> {
    s.filter(|c: char| !is_ws(c))
}

/// One step of a forward filtering pass: filtering one more element of a
/// prefix either appends that element or leaves the filtered prefix as it was.
pub proof fn lemma_filter_take_step<A>(s: Seq<A>, pred: spec_fn(A) -> bool, i: int)
    requires
        0 <= i < s.len(),
    ensures
        s.take(i + 1).filter(pred) == if pred(s[i]) {
            s.take(i).filter(pred).push(s[i])
        } else {
            s.take(i).filter(pred)
        },
{
    reveal(Seq::filter);
    assert(s.take(i + 1).drop_last() =~= s.take(i));
    assert(s.take(i + 1).last() == s[i]);
}

/// Removes every whitespace character from a character vector.
pub fn strip_ws_vec(s: &Vec<char>) -> (r: Vec<char>)
    ensures
        r@ == strip_ws(s@),
{
    let mut out: Vec<char> = Vec::new();
    let mut i: usize = 0;
    while i < s.len()
        invariant
            i <= s@.len(),
            out@ == s@.take(i as int).filter(|c: char| !is_ws(c)),
        decreases s@.len() - i,
    {
        proof {
            lemma_filter_take_step(s@, |c: char| !is_ws(c), i as int);
        }
        if !is_whitespace_char(s[i]) {
            out.push(s[i]);
        }
        i += 1;
    }
    proof {
        assert(s@.take(s@.len() as int) =~= s@);
    }
    out
}

/// The characters of a string, in order.
pub fn to_chars(s: &str) -> (r: Vec<char>)
    ensures
        r@ == s@,
{
    let n = s.unicode_len();
    let mut out: Vec<char> = Vec::new();
    let mut i: usize = 0;
    while i < n
        invariant
            n == s@.len(),
            i <= n,
            out@ == s@.take(i as int),
        decreases n - i,
    {
        let c = s.get_char(i);
        out.push(c);
        i += 1;
        proof {
            assert(out@ =~= s@.take(i as int));
        }
    }
    proof {
        assert(out@ =~= s@);
    }
    out
}

/// Relies on `String`'s `FromIterator<char>` impl: collecting characters
/// yields the string of exactly those characters, in order.
#[verifier::external_body]
pub(crate) fn chars_to_string(v: &Vec<char>) -> (r: String)
    ensures
        r@ == v@,
{
    v.iter().collect()
}

/// Whether two string slices hold the same characters.
pub fn str_eq(a: &str, b: &str) -> (r: bool)
    ensures
        r == (a@ == b@),
{
    let n = a.unicode_len();
    let m = b.unicode_len();
    if n != m {
        return false;
    }
    let mut i: usize = 0;
    while i < n
        invariant
            n == a@.len(),
            n == b@.len(),
            i <= n,
            forall|j: int| 0 <= j < i ==> a@[j] == b@[j],
        decreases n - i,
    {
        if a.get_char(i) != b.get_char(i) {
            return false;
        }
        i += 1;
    }
    proof {
        assert(a@ =~= b@);
    }
    true
}

/// The text with leading and trailing whitespace removed.
pub open spec fn trim(s: Seq<char>) -> Seq<char>
    decreases s.len(),
{
    if s.len() > 0 && is_ws(s[0]) {
        trim(s.drop_first())
    } else if s.len() > 0 && is_ws(s.last()) {
        trim(s.drop_last())
    } else {
        s
    }
}

proof fn lemma_trim_all_ws(s: Seq<char>)
    requires
        forall|k: int| 0 <= k < s.len() ==> is_ws(#[trigger] s[k]),
    ensures
        trim(s) == Seq::<char>::empty(),
    decreases s.len(),
{
    if s.len() > 0 {
        lemma_trim_all_ws(s.drop_first());
    } else {
        assert(trim(s) =~= Seq::<char>::empty());
    }
}

proof fn lemma_trim_range(s: Seq<char>, lo: int, hi: int)
    requires
        0 <= lo <= hi <= s.len(),
        forall|k: int| 0 <= k < lo ==> is_ws(#[trigger] s[k]),
        forall|k: int| hi <= k < s.len() ==> is_ws(#[trigger] s[k]),
        lo < hi ==> !is_ws(s[lo]) && !is_ws(s[hi - 1]),
    ensures
        trim(s) == s.subrange(lo, hi),
    decreases s.len(),
{
    if lo == hi {
        lemma_trim_all_ws(s);
        assert(s.subrange(lo, hi) =~= Seq::<char>::empty());
    } else if s.len() > 0 && is_ws(s[0]) {
        lemma_trim_range(s.drop_first(), lo - 1, hi - 1);
        assert(s.drop_first().subrange(lo - 1, hi - 1) =~= s.subrange(lo, hi));
    } else if s.len() > 0 && is_ws(s.last()) {
        lemma_trim_range(s.drop_last(), lo, hi);
        assert(s.drop_last().subrange(lo, hi) =~= s.subrange(lo, hi));
    } else {
        assert(s.subrange(lo, hi) =~= s);
    }
}

/// Copies the characters in `[lo, hi)`.
pub fn copy_range(s: &Vec<char>, lo: usize, hi: usize) -> (r: Vec<char>)
    requires
        lo <= hi <= s@.len(),
    ensures
        r@ == s@.subrange(lo as int, hi as int),
{
    let mut out: Vec<char> = Vec::new();
    let mut i: usize = lo;
    while i < hi
        invariant
            lo <= i <= hi <= s@.len(),
            out@ == s@.subrange(lo as int, i as int),
        decreases hi - i,
    {
        out.push(s[i]);
        i += 1;
        proof {
            assert(out@ =~= s@.subrange(lo as int, i as int));
        }
    }
    out
}

/// Removes leading and trailing whitespace from a character vector.
pub fn trim_vec(s: &Vec<char>) -> (r: Vec<char>)
    ensures
        r@ == trim(s@),
{
    let n = s.len();
    let mut lo: usize = 0;
    while lo < n && is_whitespace_char(s[lo])
        invariant
            lo <= n,
            n == s@.len(),
            forall|k: int| 0 <= k < lo ==> is_ws(#[trigger] s@[k]),
        decreases n - lo,
    {
        lo += 1;
    }
    if lo == n {
        proof {
            lemma_trim_range(s@, lo as int, lo as int);
        }
        return copy_range(s, lo, lo);
    }
    let mut hi: usize = n;
    while hi > lo && is_whitespace_char(s[hi - 1])
        invariant
            lo <= hi <= n,
            n == s@.len(),
            forall|k: int| hi <= k < n ==> is_ws(#[trigger] s@[k]),
            !is_ws(s@[lo as int]),
        decreases hi,
    {
        hi -= 1;
    }
    proof {
        lemma_trim_range(s@, lo as int, hi as int);
    }
    copy_range(s, lo, hi)
}

/// The number of bytes the UTF-8 encoding of a character occupies.
pub open spec fn utf8_len(c: char) -> int {
    let u = c as u32;
    if u < 0x80 {
        1
    } else if u < 0x800 {
        2
    } else if u < 0x10000 {
        3
    } else {
        4
    }
}

pub fn utf8_len_of(c: char) -> (r: usize)
    ensures
        r == utf8_len(c),
{
    let u = c as u32;
    if u < 0x80 {
        1
    } else if u < 0x800 {
        2
    } else if u < 0x10000 {
        3
    } else {
        4
    }
}

/// The byte width of the first `i` characters of `s` under UTF-8.
pub open spec fn bytes_upto(s: Seq<char>, i: int) -> int
    decreases i,
{
    if i <= 0 {
        0
    } else {
        bytes_upto(s, i - 1) + utf8_len(s[i - 1])
    }
}

pub proof fn lemma_bytes_upto_bound(s: Seq<char>, i: int)
    requires
        0 <= i <= s.len(),
    ensures
        i <= bytes_upto(s, i) <= 4 * i,
    decreases i,
{
    if i > 0 {
        lemma_bytes_upto_bound(s, i - 1);
    }
}

/// Lexicographic order on character sequences, by code point; this is the
/// order `str` comparison gives, since UTF-8 preserves code-point order.
pub open spec fn lex_le(a: Seq<char>, b: Seq<char>) -> bool
    decreases a.len(),
{
    if a.len() == 0 {
        true
    } else if b.len() == 0 {
        false
    } else if (a[0] as u32) < (b[0] as u32) {
        true
    } else if (a[0] as u32) > (b[0] as u32) {
        false
    } else {
        lex_le(a.drop_first(), b.drop_first())
    }
}

/// Whether the characters of `a` lexicographically precede or equal `b`.
pub fn lex_le_chars(a: &Vec<char>, b: &Vec<char>) -> (r: bool)
    ensures
        r == lex_le(a@, b@),
{
    proof {
        assert(a@.skip(0) =~= a@);
        assert(b@.skip(0) =~= b@);
    }
    lex_le_from(a, b, 0)
}

fn lex_le_from(a: &Vec<char>, b: &Vec<char>, i: usize) -> (r: bool)
    requires
        i <= a@.len(),
        i <= b@.len(),
    ensures
        r == lex_le(a@.skip(i as int), b@.skip(i as int)),
    decreases a@.len() - i,
{
    if i == a.len() {
        proof {
            assert(a@.skip(i as int).len() == 0);
        }
        true
    } else if i == b.len() {
        proof {
            assert(b@.skip(i as int).len() == 0);
        }
        false
    } else {
        let ca = a[i];
        let cb = b[i];
        proof {
            assert(a@.skip(i as int)[0] == a@[i as int]);
            assert(b@.skip(i as int)[0] == b@[i as int]);
            assert(a@.skip(i as int).drop_first() =~= a@.skip(i as int + 1));
            assert(b@.skip(i as int).drop_first() =~= b@.skip(i as int + 1));
        }
        if (ca as u32) < (cb as u32) {
            true
        } else if (ca as u32) > (cb as u32) {
            false
        } else {
            lex_le_from(a, b, i + 1)
        }
    }
}

/// The decimal digits of `n`, most significant first.
pub open spec fn dec_digits(n: int) -> Seq<char>
    decreases n,
{
    if n <= 0 {
        Seq::empty()
    } else {
        dec_digits(n / 10).push((0x30 + (n % 10)) as u32 as char)
    }
}

/// The usual decimal rendering of a natural number (`0` for zero).
pub open spec fn dec_str(n: int) -> Seq<char> {
    if n == 0 {
        seq!['0']
    } else {
        dec_digits(n)
    }
}

/// Renders a number in decimal.
pub fn u64_to_dec(n: u64) -> (r: Vec<char>)
    ensures
        r@ == dec_str(n as int),
{
    if n == 0 {
        let mut out: Vec<char> = Vec::new();
        out.push('0');
        proof {
            assert(out@ =~= dec_str(0));
        }
        return out;
    }
    let mut out: Vec<char> = Vec::new();
    let mut m: u64 = n;
    while m > 0
        invariant
            dec_digits(n as int) == dec_digits(m as int) + out@,
        decreases m,
    {
        let d = (m % 10) as u8;
        let c = (0x30 + d) as char;
        proof {
            assert(dec_digits(m as int) == dec_digits(m as int / 10).push(
                (0x30 + (m as int % 10)) as u32 as char,
            ));
            assert(c as u32 == 0x30 + (m as int % 10));
            vstd::utf8::char_u32_cast(c, c as u32);
            assert(dec_digits(m as int / 10).push(c) + out@ =~= dec_digits(m as int / 10) + (seq![
                c,
            ] + out@));
            assert(seq![c] + out@ =~= out@.insert(0, c));
        }
        out.insert(0, c);
        m = m / 10;
    }
    proof {
        assert(dec_digits(n as int) =~= out@);
    }
    out
}

} // verus!
