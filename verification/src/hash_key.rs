//! Deterministic content hashing of translatable text: a 32-bit rolling hash
//! over the UTF-8 bytes of the whitespace-stripped value, rendered as a
//! zero-padded base-36 key `k_XXXXXXX`, plus a collision registry that maps
//! each original value to the key it produced.

use vstd::prelude::*;

use crate::text::{chars_to_string, str_eq, strip_ws, strip_ws_vec, to_chars};
use vstd::string::StringSliceAdditionalSpecFns;

verus! {

/// One step of the rolling hash: `h * 31 + b`, wrapping at 32 bits.
pub open spec fn hash_step(h: int, b: u8) -> int {
    (h * 31 + b) % 0x1_0000_0000
}

/// The rolling hash of the first `i` bytes.
pub open spec fn hash_upto(bytes: Seq<u8>, i: int) -> int
    decreases i,
{
    if i <= 0 {
        0
    } else {
        hash_step(hash_upto(bytes, i - 1), bytes[i - 1])
    }
}

/// The 32-bit rolling hash of a whole byte sequence.
pub open spec fn hash_bytes(bytes: Seq<u8>) -> int {
    hash_upto(bytes, bytes.len() as int)
}

pub proof fn lemma_hash_upto_bound(bytes: Seq<u8>, i: int)
    ensures
        0 <= hash_upto(bytes, i) < 0x1_0000_0000,
    decreases i,
{
    if i > 0 {
        lemma_hash_upto_bound(bytes, i - 1);
    }
}

/// The rolling hash of a string's UTF-8 bytes.
pub fn hash_string(s: &str) -> (r: u32)
    ensures
        r as int == hash_bytes(s.spec_bytes()),
{
    let bytes = s.as_bytes();
    let mut h: u64 = 0;
    let mut i: usize = 0;
    while i < bytes.len()
        invariant
            bytes@ == s.spec_bytes(),
            i <= bytes@.len(),
            h < 0x1_0000_0000,
            h as int == hash_upto(bytes@, i as int),
        decreases bytes@.len() - i,
    {
        let b = bytes[i];
        h = (h * 31 + (b as u64)) % 0x1_0000_0000;
        i += 1;
    }
    h as u32
}

/// The character for one base-36 digit: `0`-`9` then `a`-`z`.
pub open spec fn digit36(d: int) -> char {
    if d < 10 {
        ((0x30 + d) as u32) as char
    } else {
        ((0x57 + d) as u32) as char
    }
}

/// The base-36 digits of `n`, most significant first (empty for zero).
pub open spec fn radix36_digits(n: int) -> Seq<char>
    decreases n,
{
    if n <= 0 {
        Seq::empty()
    } else {
        radix36_digits(n / 36).push(digit36(n % 36))
    }
}

/// The base-36 rendering of a number (`0` for zero).
pub open spec fn radix36_str(n: int) -> Seq<char> {
    if n == 0 {
        seq!['0']
    } else {
        radix36_digits(n)
    }
}

/// 36 to the `k`-th power.
pub open spec fn pow36(k: nat) -> int
    decreases k,
{
    if k == 0 {
        1
    } else {
        36 * pow36((k - 1) as nat)
    }
}

pub proof fn lemma_radix36_len(n: int, k: nat)
    requires
        0 <= n < pow36(k),
    ensures
        radix36_digits(n).len() <= k,
    decreases n,
{
    if n > 0 {
        assert(k > 0) by {
            if k == 0 {
                assert(pow36(0) == 1);
            }
        }
        assert(pow36(k) == 36 * pow36((k - 1) as nat));
        vstd::arithmetic::div_mod::lemma_multiply_divide_lt(n, 36, pow36((k - 1) as nat));
        vstd::arithmetic::div_mod::lemma_div_is_strictly_smaller(n, 36);
        vstd::arithmetic::div_mod::lemma_div_pos_is_pos(n, 36);
        lemma_radix36_len(n / 36, (k - 1) as nat);
    }
}

/// A lower-case base-36 digit character.
pub open spec fn is_digit36_char(c: char) -> bool {
    let u = c as u32;
    (0x30 <= u && u <= 0x39) || (0x61 <= u && u <= 0x7a)
}

pub proof fn lemma_radix36_digit_chars(n: int)
    ensures
        forall|i: int|
            0 <= i < radix36_digits(n).len() ==> is_digit36_char(#[trigger] radix36_digits(n)[i]),
    decreases n,
{
    if n > 0 {
        lemma_radix36_digit_chars(n / 36);
        vstd::arithmetic::div_mod::lemma_mod_division_less_than_divisor(n, 36);
        let d = n % 36;
        assert(is_digit36_char(digit36(d))) by {
            if d < 10 {
                assert(digit36(d) as u32 == 0x30 + d) by {
                    vstd::utf8::char_u32_cast(digit36(d), (0x30 + d) as u32);
                }
            } else {
                assert(digit36(d) as u32 == 0x57 + d) by {
                    vstd::utf8::char_u32_cast(digit36(d), (0x57 + d) as u32);
                }
            }
        }
        let tail = radix36_digits(n / 36);
        assert(radix36_digits(n) == tail.push(digit36(d)));
        assert forall|i: int| 0 <= i < radix36_digits(n).len() implies is_digit36_char(
            #[trigger] radix36_digits(n)[i],
        ) by {
            if i < tail.len() {
                assert(radix36_digits(n)[i] == tail[i]);
            } else {
                assert(radix36_digits(n)[i] == digit36(d));
            }
        }
    }
}

/// Renders a 32-bit number in base 36, digits `0`-`9a`-`z`.
pub fn radix_36(num: u32) -> (r: Vec<char>)
    ensures
        r@ == radix36_str(num as int),
{
    if num == 0 {
        let mut out: Vec<char> = Vec::new();
        out.push('0');
        proof {
            assert(out@ =~= radix36_str(0));
        }
        return out;
    }
    let mut out: Vec<char> = Vec::new();
    let mut m: u32 = num;
    while m > 0
        invariant
            radix36_digits(num as int) == radix36_digits(m as int) + out@,
        decreases m,
    {
        let d = (m % 36) as u8;
        let c = if d < 10 {
            (0x30 + d) as char
        } else {
            (0x57 + d) as char
        };
        proof {
            vstd::utf8::char_u32_cast(c, c as u32);
            assert(c == digit36(m as int % 36));
            assert(radix36_digits(m as int / 36).push(c) + out@ =~= radix36_digits(m as int / 36)
                + (seq![c] + out@));
            assert(seq![c] + out@ =~= out@.insert(0, c));
        }
        out.insert(0, c);
        m = m / 36;
    }
    proof {
        assert(radix36_digits(num as int) =~= out@);
    }
    out
}

/// Left-pads a rendering to seven characters with `0`.
pub open spec fn pad7(s: Seq<char>) -> Seq<char> {
    if s.len() >= 7 {
        s
    } else {
        Seq::new((7 - s.len()) as nat, |i: int| '0') + s
    }
}

/// The key generated for a value: `k_` followed by the zero-padded base-36
/// rendering of the rolling hash of the whitespace-stripped value's UTF-8
/// bytes. This is a pure function of the value: the same text always yields
/// the same key, and whitespace never affects it.
pub open spec fn spec_hash_key(value: Seq<char>) -> Seq<char> {
    seq!['k', '_'] + pad7(radix36_str(hash_bytes(vstd::utf8::encode_utf8(strip_ws(value)))))
}

/// Computes the key for a value. The optional context is accepted for
/// interface compatibility but never affects the digest: distinct contexts
/// for the same text intentionally collapse to the same key.
pub fn hash_key_simple(value: &str, context: Option<&str>) -> (r: String)
    ensures
        r@ == spec_hash_key(value@),
{
    let chars = to_chars(value);
    let stripped = strip_ws_vec(&chars);
    let cleaned = chars_to_string(&stripped);
    let h = hash_string(cleaned.as_str());
    let digits = radix_36(h);
    let mut out: Vec<char> = Vec::new();
    out.push('k');
    out.push('_');
    let mut pad: usize = 7;
    if digits.len() < 7 {
        pad = 7 - digits.len();
        let mut j: usize = 0;
        while j < pad
            invariant
                out@ == seq!['k', '_'] + Seq::new(j as nat, |i: int| '0'),
                j <= pad,
            decreases pad - j,
        {
            out.push('0');
            proof {
                assert(out@ =~= seq!['k', '_'] + Seq::new((j + 1) as nat, |i: int| '0'));
            }
            j += 1;
        }
        let mut j2: usize = 0;
        while j2 < digits.len()
            invariant
                out@ == seq!['k', '_'] + Seq::new(pad as nat, |i: int| '0') + digits@.take(
                    j2 as int,
                ),
                j2 <= digits@.len(),
            decreases digits@.len() - j2,
        {
            out.push(digits[j2]);
            proof {
                assert(out@ =~= seq!['k', '_'] + Seq::new(pad as nat, |i: int| '0') + digits@.take(
                    j2 + 1,
                ));
            }
            j2 += 1;
        }
        proof {
            assert(digits@.take(digits@.len() as int) =~= digits@);
            assert(out@ =~= seq!['k', '_'] + pad7(digits@));
        }
    } else {
        let mut j3: usize = 0;
        while j3 < digits.len()
            invariant
                out@ == seq!['k', '_'] + digits@.take(j3 as int),
                j3 <= digits@.len(),
            decreases digits@.len() - j3,
        {
            out.push(digits[j3]);
            proof {
                assert(out@ =~= seq!['k', '_'] + digits@.take(j3 + 1));
            }
            j3 += 1;
        }
        proof {
            assert(digits@.take(digits@.len() as int) =~= digits@);
            assert(out@ =~= seq!['k', '_'] + pad7(digits@));
        }
    }
    chars_to_string(&out)
}

/// A key has the exact shape `k_` followed by seven base-36 digits.
pub open spec fn is_key_format(s: Seq<char>) -> bool {
    s.len() == 9 && s[0] == 'k' && s[1] == '_' && (forall|i: int|
        2 <= i < 9 ==> is_digit36_char(#[trigger] s[i]))
}

/// Key-format law: every generated key matches `k_[0-9a-z]{7}` exactly.
pub proof fn lemma_hash_key_format(value: Seq<char>)
    ensures
        is_key_format(spec_hash_key(value)),
{
    let bytes = vstd::utf8::encode_utf8(strip_ws(value));
    let h = hash_bytes(bytes);
    lemma_hash_upto_bound(bytes, bytes.len() as int);
    assert(pow36(7) == 78364164096) by {
        reveal_with_fuel(pow36, 8);
    }
    lemma_radix36_len(h, 7);
    lemma_radix36_digit_chars(h);
    let d = radix36_str(h);
    assert(forall|i: int| 0 <= i < d.len() ==> is_digit36_char(#[trigger] d[i])) by {
        if h == 0 {
            assert(d == seq!['0']);
            assert(is_digit36_char('0'));
        }
    }
    assert(d.len() >= 1) by {
        if h != 0 {
            assert(radix36_digits(h).len() >= 1);
        }
    }
}

/// Determinism law: the key is a function of the value alone, and whitespace
/// differences never change it.
pub proof fn lemma_hash_key_ignores_whitespace(a: Seq<char>, b: Seq<char>)
    requires
        strip_ws(a) == strip_ws(b),
    ensures
        spec_hash_key(a) == spec_hash_key(b),
{
}

/// Looks up a key in an association list, front to back.
pub open spec fn assoc_get(m: Seq<(Seq<char>, Seq<char>)>, k: Seq<char>) -> Option<Seq<char>>
    decreases m.len(),
{
    if m.len() == 0 {
        None
    } else if m[0].0 == k {
        Some(m[0].1)
    } else {
        assoc_get(m.drop_first(), k)
    }
}

/// The collision registry, an explicit value the caller owns rather than
/// implicit process-wide state: it maps each original (unstripped) value to
/// the key it produced, and records every genuine hash collision it has
/// seen.
pub struct KeyRegistry {
    /// Original value paired with the key generated for it.
    pub entries: Vec<(String, String)>,
    /// Each recorded collision: the key recorded earlier and the freshly
    /// computed differing key.
    pub collisions: Vec<(String, String)>,
}

fn registry_find(entries: &Vec<(String, String)>, value: &str, i: usize) -> (r: Option<String>)
    requires
        i <= entries@.len(),
    ensures
        r.deep_view() == assoc_get(entries.deep_view().skip(i as int), value@),
    decreases entries@.len() - i,
{
    if i == entries.len() {
        proof {
            assert(entries.deep_view().skip(i as int).len() == 0);
        }
        None
    } else {
        proof {
            assert(entries.deep_view().skip(i as int)[0] == entries.deep_view()[i as int]);
            assert(entries.deep_view().skip(i as int).drop_first() =~= entries.deep_view().skip(
                i as int + 1,
            ));
        }
        let p = &entries[i];
        if str_eq(p.0.as_str(), value) {
            Some(p.1.clone())
        } else {
            registry_find(entries, value, i + 1)
        }
    }
}

impl KeyRegistry {
    /// An empty registry.
    pub fn new() -> (r: KeyRegistry)
        ensures
            r.entries@.len() == 0,
            r.collisions@.len() == 0,
    {
        KeyRegistry { entries: Vec::new(), collisions: Vec::new() }
    }

    /// Computes the key for a value and applies the collision policy: if the
    /// same original value was seen before with a different key, the pair is
    /// recorded as a collision (and the new key still returned); a new value
    /// is recorded with its key.
    pub fn hash_key(&mut self, value: &str, context: Option<&str>) -> (r: String)
        ensures
            r@ == spec_hash_key(value@),
            ({
                let m = old(self).entries.deep_view();
                match assoc_get(m, value@) {
                    Some(k) => final(self).entries.deep_view() == m && (if k != spec_hash_key(
                        value@,
                    ) {
                        final(self).collisions.deep_view() == old(self).collisions.deep_view().push(
                            (k, spec_hash_key(value@)),
                        )
                    } else {
                        final(self).collisions.deep_view() == old(self).collisions.deep_view()
                    }),
                    None => final(self).entries.deep_view() == m.push(
                        (value@, spec_hash_key(value@)),
                    ) && final(self).collisions.deep_view() == old(self).collisions.deep_view(),
                }
            }),
    {
        let key = hash_key_simple(value, context);
        proof {
            assert(self.entries.deep_view().skip(0) =~= self.entries.deep_view());
        }
        match registry_find(&self.entries, value, 0) {
            Some(existing) => {
                if !str_eq(existing.as_str(), key.as_str()) {
                    self.collisions.push((existing, key.clone()));
                }
            },
            None => {
                self.entries.push((String::from_str(value), key.clone()));
            },
        }
        key
    }

    /// Empties the value-to-key map; recorded collisions are kept.
    pub fn clear_key_map(&mut self)
        ensures
            final(self).entries@.len() == 0,
            final(self).collisions == old(self).collisions,
    {
        self.entries.clear();
    }

    /// The number of distinct values recorded so far.
    pub fn get_key_map_size(&self) -> (r: usize)
        ensures
            r == self.entries@.len(),
    {
        self.entries.len()
    }
}

} // verus!
