//! Path and text utilities: extension handling, path splitting, size
//! formatting, and small text predicates.

use vstd::prelude::*;

use crate::text::{
    chars_to_string, copy_range, dec_str, is_zh, is_zh_char, str_eq, strip_ws, strip_ws_vec,
    to_chars, u64_to_dec,
};

verus! {

/// Backslashes replaced by forward slashes.
pub open spec fn spec_normalize_path(s: Seq<char>) -> Seq<char> {
    s.map_values(
        |c: char|
            if c == '\\' {
                '/'
            } else {
                c
            },
    )
}

/// Normalizes a file path to forward slashes.
pub fn normalize_path(filepath: &str) -> (r: String)
    ensures
        r@ == spec_normalize_path(filepath@),
{
    let v = to_chars(filepath);
    let mut out: Vec<char> = Vec::new();
    let mut i: usize = 0;
    while i < v.len()
        invariant
            i <= v@.len(),
            out@.len() == i,
            forall|j: int| 0 <= j < i ==> out@[j] == spec_normalize_path(v@)[j],
        decreases v@.len() - i,
    {
        if v[i] == '\\' {
            out.push('/');
        } else {
            out.push(v[i]);
        }
        i += 1;
    }
    proof {
        assert(out@ =~= spec_normalize_path(filepath@));
    }
    chars_to_string(&out)
}

/// The index just after the last occurrence of `c` in the first `i`
/// characters, or 0 when there is none.
pub open spec fn start_after_last(s: Seq<char>, c: char, i: int) -> int
    decreases i,
{
    if i <= 0 {
        0
    } else if s[i - 1] == c {
        i
    } else {
        start_after_last(s, c, i - 1)
    }
}

fn start_after_last_exec(s: &Vec<char>, c: char) -> (r: usize)
    ensures
        r as int == start_after_last(s@, c, s@.len() as int),
        r <= s@.len(),
{
    let mut i: usize = s.len();
    while i > 0 && s[i - 1] != c
        invariant
            i <= s@.len(),
            start_after_last(s@, c, s@.len() as int) == start_after_last(s@, c, i as int),
        decreases i,
    {
        i -= 1;
    }
    i
}

/// The text with trailing occurrences of `c` removed.
pub open spec fn strip_trailing(s: Seq<char>, c: char) -> Seq<char>
    decreases s.len(),
{
    if s.len() > 0 && s.last() == c {
        strip_trailing(s.drop_last(), c)
    } else {
        s
    }
}

fn strip_trailing_len(s: &Vec<char>, c: char) -> (r: usize)
    ensures
        r <= s@.len(),
        s@.take(r as int) == strip_trailing(s@, c),
{
    let mut i: usize = s.len();
    proof {
        assert(s@.take(s@.len() as int) =~= s@);
    }
    while i > 0 && s[i - 1] == c
        invariant
            i <= s@.len(),
            strip_trailing(s@, c) == strip_trailing(s@.take(i as int), c),
        decreases i,
    {
        proof {
            assert(s@.take(i as int).drop_last() =~= s@.take(i as int - 1));
        }
        i -= 1;
    }
    proof {
        if i > 0 {
            assert(s@.take(i as int).last() == s@[i as int - 1]);
        }
    }
    i
}

/// An ASCII upper-case letter lowered; other characters unchanged.
pub open spec fn lower_ascii(c: char) -> char {
    let u = c as u32;
    if 0x41 <= u && u <= 0x5a {
        ((u + 0x20) as u32) as char
    } else {
        c
    }
}

/// The file name's extension, lower-cased: the part after the last dot of
/// the last path component; none when there is no dot, or only a leading
/// one.
pub open spec fn spec_extension(s: Seq<char>) -> Option<Seq<char>> {
    let f = s.skip(start_after_last(s, '/', s.len() as int));
    let d = start_after_last(f, '.', f.len() as int);
    if d == 0 || (d == 1 && f.len() > 0 && f[0] == '.') {
        None
    } else {
        Some(f.skip(d).map_values(|c: char| lower_ascii(c)))
    }
}

/// The lower-cased extension of a file path, if it has one.
pub fn get_file_extension(filepath: &str) -> (r: Option<String>)
    ensures
        r.deep_view() == spec_extension(filepath@),
{
    let v = to_chars(filepath);
    let st = start_after_last_exec(&v, '/');
    let f = copy_range(&v, st, v.len());
    proof {
        assert(f@ =~= filepath@.skip(start_after_last(filepath@, '/', filepath@.len() as int)));
    }
    let d = start_after_last_exec(&f, '.');
    if d == 0 || (d == 1 && f.len() > 0 && f[0] == '.') {
        None
    } else {
        let tail = copy_range(&f, d, f.len());
        let mut out: Vec<char> = Vec::new();
        let mut i: usize = 0;
        while i < tail.len()
            invariant
                i <= tail@.len(),
                out@.len() == i,
                forall|j: int|
                    0 <= j < i ==> out@[j] == lower_ascii(#[trigger] tail@[j]),
            decreases tail@.len() - i,
        {
            let c = tail[i];
            let u = c as u32;
            if 0x41 <= u && u <= 0x5a {
                let lc = ((u + 0x20) as u8) as char;
                proof {
                    vstd::utf8::char_u32_cast(lc, lc as u32);
                }
                out.push(lc);
            } else {
                out.push(c);
            }
            i += 1;
        }
        proof {
            assert(out@ =~= f@.skip(d as int).map_values(|c: char| lower_ascii(c)));
        }
        Some(chars_to_string(&out))
    }
}

/// Whether the path names a JavaScript or TypeScript source file.
pub fn is_js_ts_file(filepath: &str) -> (r: bool)
    ensures
        r == (match spec_extension(filepath@) {
            Some(e) => e == "js"@ || e == "jsx"@ || e == "ts"@ || e == "tsx"@,
            None => false,
        }),
{
    match get_file_extension(filepath) {
        Some(ext) => {
            let e = ext.as_str();
            str_eq(e, "js") || str_eq(e, "jsx") || str_eq(e, "ts") || str_eq(e, "tsx")
        },
        None => false,
    }
}

/// The directory part of a path: everything before the last slash (with
/// repeated and trailing slashes collapsed), `.` for a bare or empty
/// path's root, the empty string for a single component, `/` for a file
/// directly under the root.
pub open spec fn spec_directory(s: Seq<char>) -> Seq<char> {
    if s.len() == 0 {
        seq!['.']
    } else {
        let t = strip_trailing(s, '/');
        if t.len() == 0 {
            seq!['.']
        } else {
            let st = start_after_last(t, '/', t.len() as int);
            if st == 0 {
                Seq::empty()
            } else {
                let p = strip_trailing(t.take(st), '/');
                if p.len() == 0 {
                    seq!['/']
                } else {
                    p
                }
            }
        }
    }
}

/// The directory part of a file path.
pub fn get_directory(filepath: &str) -> (r: String)
    ensures
        r@ == spec_directory(filepath@),
{
    let v = to_chars(filepath);
    if v.len() == 0 {
        let mut out: Vec<char> = Vec::new();
        out.push('.');
        proof {
            assert(out@ =~= seq!['.']);
        }
        return chars_to_string(&out);
    }
    let tl = strip_trailing_len(&v, '/');
    let t = copy_range(&v, 0, tl);
    if t.len() == 0 {
        let mut out: Vec<char> = Vec::new();
        out.push('.');
        proof {
            assert(out@ =~= seq!['.']);
        }
        return chars_to_string(&out);
    }
    let st = start_after_last_exec(&t, '/');
    if st == 0 {
        let out: Vec<char> = Vec::new();
        proof {
            assert(out@ =~= Seq::<char>::empty());
        }
        return chars_to_string(&out);
    }
    let tp = copy_range(&t, 0, st);
    proof {
        assert(tp@ =~= t@.take(st as int));
    }
    let pl = strip_trailing_len(&tp, '/');
    if pl == 0 {
        let mut out: Vec<char> = Vec::new();
        out.push('/');
        proof {
            assert(out@ =~= seq!['/']);
        }
        chars_to_string(&out)
    } else {
        let p = copy_range(&tp, 0, pl);
        chars_to_string(&p)
    }
}

/// The file-name part of a path: the last component, trailing slashes
/// ignored; the path itself when that component is empty or a dot entry.
pub open spec fn spec_filename(s: Seq<char>) -> Seq<char> {
    let t = strip_trailing(s, '/');
    if t.len() == 0 {
        s
    } else {
        let f = t.skip(start_after_last(t, '/', t.len() as int));
        if f == seq!['.'] || f == seq!['.', '.'] {
            s
        } else {
            f
        }
    }
}

/// The file-name part of a file path.
pub fn get_filename(filepath: &str) -> (r: String)
    ensures
        r@ == spec_filename(filepath@),
{
    let v = to_chars(filepath);
    let tl = strip_trailing_len(&v, '/');
    let t = copy_range(&v, 0, tl);
    if t.len() == 0 {
        return String::from_str(filepath);
    }
    let st = start_after_last_exec(&t, '/');
    let f = copy_range(&t, st, t.len());
    proof {
        assert(f@ =~= strip_trailing(filepath@, '/').skip(
            start_after_last(
                strip_trailing(filepath@, '/'),
                '/',
                strip_trailing(filepath@, '/').len() as int,
            ),
        ));
    }
    let is_dot = f.len() == 1 && f[0] == '.';
    let is_dotdot = f.len() == 2 && f[0] == '.' && f[1] == '.';
    proof {
        if is_dot {
            assert(f@ =~= seq!['.']);
        }
        if is_dotdot {
            assert(f@ =~= seq!['.', '.']);
        }
        if !is_dot {
            assert(f@ != seq!['.']);
        }
        if !is_dotdot {
            assert(f@ != seq!['.', '.']);
        }
    }
    if is_dot || is_dotdot {
        String::from_str(filepath)
    } else {
        chars_to_string(&f)
    }
}

/// The rendered size: a plain byte count under one kibibyte, otherwise
/// the value scaled by the matching power of 1024 and rounded to one
/// decimal digit (nearest, ties to even), with the unit appended.
pub open spec fn spec_format_size(size: int) -> Seq<char> {
    if size < 1024 {
        dec_str(size) + seq![' ', 'B']
    } else {
        let div = if size < 0x100000 {
            0x400int
        } else if size < 0x40000000 {
            0x100000int
        } else {
            0x40000000int
        };
        let unit = if size < 0x100000 {
            seq!['K', 'B']
        } else if size < 0x40000000 {
            seq!['M', 'B']
        } else {
            seq!['G', 'B']
        };
        let q = (size * 10) / div;
        let rem = (size * 10) % div;
        let tenths = if 2 * rem > div {
            q + 1
        } else if 2 * rem < div {
            q
        } else if q % 2 == 1 {
            q + 1
        } else {
            q
        };
        dec_str(tenths / 10) + seq!['.'] + dec_str(tenths % 10) + seq![' '] + unit
    }
}

/// Renders a byte count in a human-readable unit.
pub fn format_file_size(size: u64) -> (r: String)
    ensures
        r@ == spec_format_size(size as int),
{
    let mut out: Vec<char> = Vec::new();
    if size < 1024 {
        let mut d = u64_to_dec(size);
        out.append(&mut d);
        out.push(' ');
        out.push('B');
        proof {
            assert(out@ =~= spec_format_size(size as int));
        }
        return chars_to_string(&out);
    }
    let div: u128 = if size < 0x100000 {
        0x400
    } else if size < 0x40000000 {
        0x100000
    } else {
        0x40000000
    };
    let q: u128 = ((size as u128) * 10) / div;
    let rem: u128 = ((size as u128) * 10) % div;
    let tenths: u128 = if 2 * rem > div {
        q + 1
    } else if 2 * rem < div {
        q
    } else if q % 2 == 1 {
        q + 1
    } else {
        q
    };
    let whole: u64 = (tenths / 10) as u64;
    let frac: u64 = (tenths % 10) as u64;
    let mut d = u64_to_dec(whole);
    out.append(&mut d);
    out.push('.');
    let mut d2 = u64_to_dec(frac);
    out.append(&mut d2);
    out.push(' ');
    if size < 0x100000 {
        out.push('K');
    } else if size < 0x40000000 {
        out.push('M');
    } else {
        out.push('G');
    }
    out.push('B');
    proof {
        assert(out@ =~= spec_format_size(size as int));
    }
    chars_to_string(&out)
}

/// Whether the text holds any CJK character.
pub open spec fn spec_contains_chinese(s: Seq<char>) -> bool {
    exists|i: int| 0 <= i < s.len() && is_zh(s[i])
}

/// Whether the text holds any CJK character.
pub fn contains_chinese(text: &str) -> (r: bool)
    ensures
        r == spec_contains_chinese(text@),
{
    let n = text.unicode_len();
    let mut i: usize = 0;
    while i < n
        invariant
            n == text@.len(),
            i <= n,
            forall|j: int| 0 <= j < i ==> !is_zh(text@[j]),
        decreases n - i,
    {
        if is_zh_char(text.get_char(i)) {
            return true;
        }
        i += 1;
    }
    false
}

/// The text with every whitespace character removed.
pub fn remove_whitespace(text: &str) -> (r: String)
    ensures
        r@ == strip_ws(text@),
{
    let v = to_chars(text);
    let s = strip_ws_vec(&v);
    chars_to_string(&s)
}

/// A regular-expression meta character (the set `regex::escape` escapes).
pub open spec fn is_regex_meta(c: char) -> bool {
    c == '\\' || c == '.' || c == '+' || c == '*' || c == '?' || c == '(' || c == ')' || c == '|'
        || c == '[' || c == ']' || c == '{' || c == '}' || c == '^' || c == '$' || c == '#' || c
        == '&' || c == '-' || c == '~'
}

/// The text with a backslash inserted before every meta character.
pub open spec fn regex_escaped(s: Seq<char>) -> Seq<char>
    decreases s.len(),
{
    if s.len() == 0 {
        Seq::empty()
    } else {
        regex_escaped(s.drop_last()) + (if is_regex_meta(s.last()) {
            seq!['\\', s.last()]
        } else {
            seq![s.last()]
        })
    }
}

/// Relies on `regex::escape`: it inserts a backslash before each of the
/// eighteen regex meta characters and keeps every other character as it
/// is.
#[verifier::external_body]
pub fn escape_regex(text: &str) -> (r: String)
    ensures
        r@ == regex_escaped(text@),
{
    regex::escape(text)
}

} // verus!
