//! The translation-project model: merges per-language translated strings
//! into keyed rows, suppresses translations that merely echo the native
//! string, tracks obsoleted base keys, and emits sorted per-language
//! resource files.

use vstd::prelude::*;

use crate::hash_key::assoc_get;
use crate::text::{chars_to_string, copy_range, str_eq, strip_ws, to_chars};

verus! {

// ------------------------------------------------------------------
// Rows and the project model
// ------------------------------------------------------------------
/// One keyed row: the native-language string and per-language translations.
pub struct SourceRow {
    pub key: String,
    pub native_string: Option<String>,
    pub translate_map: Vec<(String, String)>,
}

impl SourceRow {
    /// A fresh row with no native string and no translations.
    pub fn new(key: String) -> (r: SourceRow)
        ensures
            r.deep_view() == (RowModel { key: key@, native: None, trans: Seq::empty() }),
    {
        let r = SourceRow { key, native_string: None, translate_map: Vec::new() };
        proof {
            assert(r.translate_map.deep_view() =~= Seq::<(Seq<char>, Seq<char>)>::empty());
        }
        r
    }
}

/// The mathematical content of a [`SourceRow`].
pub struct RowModel {
    pub key: Seq<char>,
    pub native: Option<Seq<char>>,
    pub trans: Seq<(Seq<char>, Seq<char>)>,
}

impl DeepView for SourceRow {
    type V = RowModel;

    open spec fn deep_view(&self) -> RowModel {
        RowModel {
            key: self.key@,
            native: self.native_string.deep_view(),
            trans: self.translate_map.deep_view(),
        }
    }
}

/// Construction options: the native language and the target languages.
pub struct SisulizerProjectOptions {
    pub native_lang: String,
    pub langs: Vec<String>,
}

impl Default for SisulizerProjectOptions {
    /// Native language `zh`, one target language `en`.
    fn default() -> (r: Self)
        ensures
            r.native_lang@ == "zh"@,
            r.langs.deep_view() == seq!["en"@],
    {
        let mut langs: Vec<String> = Vec::new();
        langs.push(String::from_str("en"));
        proof {
            assert(langs.deep_view() =~~= seq!["en"@]);
        }
        SisulizerProjectOptions { native_lang: String::from_str("zh"), langs }
    }
}

/// The project: native language, target languages (native excluded), the
/// row map, and the set of obsoleted base keys.
pub struct SisulizerProject {
    pub native_lang: String,
    pub langs: Vec<String>,
    pub rows: Vec<SourceRow>,
    pub obsoleted: Vec<String>,
}

/// The mathematical content of a [`SisulizerProject`].
pub struct ProjectModel {
    pub native_lang: Seq<char>,
    pub langs: Seq<Seq<char>>,
    pub rows: Seq<RowModel>,
    pub obsoleted: Seq<Seq<char>>,
}

impl DeepView for SisulizerProject {
    type V = ProjectModel;

    open spec fn deep_view(&self) -> ProjectModel {
        ProjectModel {
            native_lang: self.native_lang@,
            langs: self.langs.deep_view(),
            rows: self.rows.deep_view(),
            obsoleted: self.obsoleted.deep_view(),
        }
    }
}

// ------------------------------------------------------------------
// Base keys
// ------------------------------------------------------------------
/// An ASCII decimal digit.
pub open spec fn is_digit(c: char) -> bool {
    0x30 <= c as u32 && c as u32 <= 0x39
}

fn is_digit_char(c: char) -> (r: bool)
    ensures
        r == is_digit(c),
{
    let u = c as u32;
    0x30 <= u && u <= 0x39
}

/// The key with a trailing `_<digit>` or `_plural` variant suffix removed,
/// provided what remains still has the generated-key shape `k_` plus at
/// least one character; any other key is its own base key.
pub open spec fn spec_base_key(key: Seq<char>) -> Seq<char> {
    if key.len() >= 5 && key[0] == 'k' && key[1] == '_' && key[key.len() - 2] == '_' && is_digit(
        key.last(),
    ) {
        key.take(key.len() - 2)
    } else if key.len() >= 10 && key[0] == 'k' && key[1] == '_' && key.subrange(
        key.len() - 7,
        key.len() as int,
    ) == "_plural"@ {
        key.take(key.len() - 7)
    } else {
        key
    }
}

/// The base form of a key, with pluralization/context suffixes stripped.
pub fn get_base_key(key: &str) -> (r: String)
    ensures
        r@ == spec_base_key(key@),
{
    let v = to_chars(key);
    let n: usize = v.len();
    if n >= 5 && v[0] == 'k' && v[1] == '_' && v[n - 2] == '_' && is_digit_char(v[n - 1]) {
        let b = copy_range(&v, 0, n - 2);
        proof {
            assert(b@ =~= key@.take(key@.len() - 2));
        }
        chars_to_string(&b)
    } else if n >= 10 && v[0] == 'k' && v[1] == '_' && v[n - 7] == '_' && v[n - 6] == 'p' && v[n
        - 5] == 'l' && v[n - 4] == 'u' && v[n - 3] == 'r' && v[n - 2] == 'a' && v[n - 1] == 'l' {
        proof {
            reveal_strlit("_plural");
            assert(key@.subrange(key@.len() - 7, key@.len() as int) =~= "_plural"@);
        }
        let b = copy_range(&v, 0, n - 7);
        proof {
            assert(b@ =~= key@.take(key@.len() - 7));
        }
        chars_to_string(&b)
    } else {
        proof {
            if key@.len() >= 10 && key@[0] == 'k' && key@[1] == '_' && key@.subrange(
                key@.len() - 7,
                key@.len() as int,
            ) == "_plural"@ {
                reveal_strlit("_plural");
                let s7 = key@.subrange(key@.len() - 7, key@.len() as int);
                assert(s7[0] == key@[key@.len() - 7] && s7[0] == '_');
                assert(s7[1] == key@[key@.len() - 6] && s7[1] == 'p');
                assert(s7[2] == key@[key@.len() - 5] && s7[2] == 'l');
                assert(s7[3] == key@[key@.len() - 4] && s7[3] == 'u');
                assert(s7[4] == key@[key@.len() - 3] && s7[4] == 'r');
                assert(s7[5] == key@[key@.len() - 2] && s7[5] == 'a');
                assert(s7[6] == key@[key@.len() - 1] && s7[6] == 'l');
            }
        }
        String::from_str(key)
    }
}

// ------------------------------------------------------------------
// Row lookup and update, in the model
// ------------------------------------------------------------------
/// The index of the row holding `key`, if any.
pub open spec fn find_row(rows: Seq<RowModel>, key: Seq<char>) -> Option<int>
    decreases rows.len(),
{
    if rows.len() == 0 {
        None
    } else if rows[0].key == key {
        Some(0)
    } else {
        match find_row(rows.drop_first(), key) {
            Some(i) => Some(i + 1),
            None => None,
        }
    }
}

proof fn lemma_find_row_at(rows: Seq<RowModel>, key: Seq<char>, idx: int)
    requires
        0 <= idx < rows.len(),
        rows[idx].key == key,
        forall|j: int| 0 <= j < idx ==> (#[trigger] rows[j]).key != key,
    ensures
        find_row(rows, key) == Some(idx),
    decreases idx,
{
    if idx > 0 {
        lemma_find_row_at(rows.drop_first(), key, idx - 1);
    }
}

proof fn lemma_find_row_props(rows: Seq<RowModel>, key: Seq<char>)
    ensures
        (match find_row(rows, key) {
            Some(i) => 0 <= i < rows.len() && rows[i].key == key,
            None => true,
        }),
    decreases rows.len(),
{
    if rows.len() > 0 {
        lemma_find_row_props(rows.drop_first(), key);
    }
}

proof fn lemma_find_row_none(rows: Seq<RowModel>, key: Seq<char>)
    requires
        forall|j: int| 0 <= j < rows.len() ==> (#[trigger] rows[j]).key != key,
    ensures
        find_row(rows, key) is None,
    decreases rows.len(),
{
    if rows.len() > 0 {
        lemma_find_row_none(rows.drop_first(), key);
    }
}

/// Sets an entry in a language-to-string association list, overwriting in
/// place or appending.
pub open spec fn tmap_set(
    m: Seq<(Seq<char>, Seq<char>)>,
    k: Seq<char>,
    v: Seq<char>,
) -> Seq<(Seq<char>, Seq<char>)>
    decreases m.len(),
{
    if m.len() == 0 {
        seq![(k, v)]
    } else if m[0].0 == k {
        seq![(k, v)] + m.drop_first()
    } else {
        seq![m[0]] + tmap_set(m.drop_first(), k, v)
    }
}

pub proof fn lemma_tmap_set_update(m: Seq<(Seq<char>, Seq<char>)>, k: Seq<char>, v: Seq<char>, idx: int)
    requires
        0 <= idx < m.len(),
        m[idx].0 == k,
        forall|j: int| 0 <= j < idx ==> (#[trigger] m[j]).0 != k,
    ensures
        tmap_set(m, k, v) == m.update(idx, (k, v)),
    decreases idx,
{
    if idx == 0 {
        assert(tmap_set(m, k, v) =~= m.update(0, (k, v)));
    } else {
        lemma_tmap_set_update(m.drop_first(), k, v, idx - 1);
        assert(seq![m[0]] + m.drop_first().update(idx - 1, (k, v)) =~= m.update(idx, (k, v)));
    }
}

pub proof fn lemma_tmap_set_push(m: Seq<(Seq<char>, Seq<char>)>, k: Seq<char>, v: Seq<char>)
    requires
        forall|j: int| 0 <= j < m.len() ==> (#[trigger] m[j]).0 != k,
    ensures
        tmap_set(m, k, v) == m.push((k, v)),
    decreases m.len(),
{
    if m.len() == 0 {
        assert(tmap_set(m, k, v) =~= m.push((k, v)));
    } else {
        lemma_tmap_set_push(m.drop_first(), k, v);
        assert(seq![m[0]] + m.drop_first().push((k, v)) =~= m.push((k, v)));
    }
}

/// Writes the native string of `key`'s row, creating the row if needed.
pub open spec fn set_native(m: ProjectModel, key: Seq<char>, value: Seq<char>) -> ProjectModel {
    match find_row(m.rows, key) {
        Some(i) => ProjectModel {
            rows: m.rows.update(i, RowModel { native: Some(value), ..m.rows[i] }),
            ..m
        },
        None => ProjectModel {
            rows: m.rows.push(RowModel { key, native: Some(value), trans: Seq::empty() }),
            ..m
        },
    }
}

/// Writes one translation of `key`'s row, creating the row if needed.
pub open spec fn set_trans(
    m: ProjectModel,
    key: Seq<char>,
    lang: Seq<char>,
    value: Seq<char>,
) -> ProjectModel {
    match find_row(m.rows, key) {
        Some(i) => ProjectModel {
            rows: m.rows.update(
                i,
                RowModel { trans: tmap_set(m.rows[i].trans, lang, value), ..m.rows[i] },
            ),
            ..m
        },
        None => ProjectModel {
            rows: m.rows.push(RowModel { key, native: None, trans: seq![(lang, value)] }),
            ..m
        },
    }
}

/// The native string stored directly on `key`'s row, if any.
pub open spec fn native_of_key(m: ProjectModel, key: Seq<char>) -> Option<Seq<char>> {
    match find_row(m.rows, key) {
        Some(i) => m.rows[i].native,
        None => None,
    }
}

/// The fallback lookup for a native string: the key's base form first,
/// then the base form with `_0` appended (the pluralization heuristic).
pub open spec fn try_find_native(m: ProjectModel, key: Seq<char>) -> Option<Seq<char>> {
    let base = spec_base_key(key);
    match native_of_key(m, base) {
        Some(s) => Some(s),
        None => native_of_key(m, base + "_0"@),
    }
}

/// What `get` returns: for the native language, the row's native string
/// with the variant fallback; for any other language, the row's stored
/// translation. A key with no row resolves to nothing.
pub open spec fn model_get(m: ProjectModel, key: Seq<char>, lang: Seq<char>) -> Option<Seq<char>> {
    match find_row(m.rows, key) {
        None => None,
        Some(i) => {
            if lang == m.native_lang {
                match m.rows[i].native {
                    Some(s) => Some(s),
                    None => try_find_native(m, key),
                }
            } else {
                assoc_get(m.rows[i].trans, lang)
            }
        },
    }
}

/// What `add` does: a native-language value overwrites the row's native
/// string unconditionally; a value for any other language is stored only
/// if it is non-empty, a native string exists for the key, and the value
/// differs from that native string once whitespace is ignored.
pub open spec fn model_add(
    m: ProjectModel,
    key: Seq<char>,
    lang: Seq<char>,
    value: Seq<char>,
) -> ProjectModel {
    let native = model_get(m, key, m.native_lang);
    if lang == m.native_lang {
        set_native(m, key, value)
    } else if value.len() > 0 && native is Some && strip_ws(value) != strip_ws(native->0) {
        set_trans(m, key, lang, value)
    } else {
        m
    }
}

/// Suppression law: adding, for a non-native language, a value that equals
/// the key's native string once whitespace is ignored leaves the project
/// unchanged.
pub proof fn lemma_add_suppresses_echo(
    m: ProjectModel,
    key: Seq<char>,
    lang: Seq<char>,
    value: Seq<char>,
)
    requires
        lang != m.native_lang,
        model_get(m, key, m.native_lang) is Some,
        strip_ws(value) == strip_ws(model_get(m, key, m.native_lang)->0),
    ensures
        model_add(m, key, lang, value) == m,
{
}

// ------------------------------------------------------------------
// The project's executable methods
// ------------------------------------------------------------------
impl SisulizerProject {
    /// A fresh project. The target-language list keeps its order but drops
    /// the native language.
    pub fn new(options: Option<SisulizerProjectOptions>) -> (r: SisulizerProject)
        ensures
            ({
                let opts_native = match options {
                    Some(o) => o.native_lang@,
                    None => "zh"@,
                };
                let opts_langs = match options {
                    Some(o) => o.langs.deep_view(),
                    None => seq!["en"@],
                };
                r.deep_view() == (ProjectModel {
                    native_lang: opts_native,
                    langs: opts_langs.filter(|l: Seq<char>| l != opts_native),
                    rows: Seq::empty(),
                    obsoleted: Seq::empty(),
                })
            }),
    {
        let opts = match options {
            Some(o) => o,
            None => SisulizerProjectOptions::default(),
        };
        let ghost native_model = opts.native_lang@;
        let ghost langs_model = opts.langs.deep_view();
        let mut langs: Vec<String> = Vec::new();
        let mut i: usize = 0;
        while i < opts.langs.len()
            invariant
                i <= opts.langs@.len(),
                langs_model == opts.langs.deep_view(),
                native_model == opts.native_lang@,
                langs.deep_view() == langs_model.take(i as int).filter(
                    |l: Seq<char>| l != native_model,
                ),
            decreases opts.langs@.len() - i,
        {
            proof {
                crate::text::lemma_filter_take_step(
                    langs_model,
                    |l: Seq<char>| l != native_model,
                    i as int,
                );
                assert(opts.langs.deep_view()[i as int] == opts.langs@[i as int]@);
            }
            let ghost dv0 = langs.deep_view();
            if !str_eq(opts.langs[i].as_str(), opts.native_lang.as_str()) {
                langs.push(opts.langs[i].clone());
                proof {
                    assert(langs.deep_view() =~~= dv0.push(langs_model[i as int]));
                }
            }
            i += 1;
        }
        proof {
            assert(langs_model.take(langs_model.len() as int) =~~= langs_model);
        }
        let r = SisulizerProject {
            native_lang: opts.native_lang,
            langs,
            rows: Vec::new(),
            obsoleted: Vec::new(),
        };
        proof {
            assert(r.rows.deep_view() =~= Seq::<RowModel>::empty());
            assert(r.obsoleted.deep_view() =~= Seq::<Seq<char>>::empty());
        }
        r
    }

    /// The index of `key`'s row, if present.
    fn find_index(&self, key: &str) -> (r: Option<usize>)
        ensures
            (match r {
                Some(i) => find_row(self.rows.deep_view(), key@) == Some(i as int) && i
                    < self.rows@.len(),
                None => find_row(self.rows.deep_view(), key@) is None,
            }),
    {
        let mut i: usize = 0;
        while i < self.rows.len()
            invariant
                i <= self.rows@.len(),
                forall|j: int|
                    0 <= j < i ==> (#[trigger] self.rows.deep_view()[j]).key != key@,
            decreases self.rows@.len() - i,
        {
            proof {
                assert(self.rows.deep_view()[i as int] == self.rows@[i as int].deep_view());
            }
            if str_eq(self.rows[i].key.as_str(), key) {
                proof {
                    lemma_find_row_at(self.rows.deep_view(), key@, i as int);
                }
                return Some(i);
            }
            i += 1;
        }
        proof {
            lemma_find_row_none(self.rows.deep_view(), key@);
        }
        None
    }

    /// Ensures a row exists for `key` and returns its index; a missing row
    /// is created empty at the end.
    pub fn get_or_create_row(&mut self, key: &str) -> (i: usize)
        ensures
            ({
                let m0 = old(self).deep_view();
                match find_row(m0.rows, key@) {
                    Some(idx) => final(self).deep_view() == m0 && i as int == idx,
                    None => final(self).deep_view() == (ProjectModel {
                        rows: m0.rows.push(
                            RowModel { key: key@, native: None, trans: Seq::empty() },
                        ),
                        ..m0
                    }) && i as int == m0.rows.len(),
                }
            }),
            i < final(self).rows@.len(),
            final(self).rows.deep_view()[i as int].key == key@,
    {
        match self.find_index(key) {
            Some(i) => {
                proof {
                    lemma_find_row_props(self.rows.deep_view(), key@);
                }
                i
            },
            None => {
                let ghost m0 = self.deep_view();
                let i = self.rows.len();
                self.rows.push(SourceRow::new(String::from_str(key)));
                proof {
                    assert(self.rows.deep_view() =~~= m0.rows.push(
                        RowModel { key: key@, native: None, trans: Seq::empty() },
                    ));
                }
                i
            },
        }
    }

    /// Writes the native string of `key`'s row.
    fn set_native_exec(&mut self, key: &str, value: &str)
        ensures
            final(self).deep_view() == set_native(old(self).deep_view(), key@, value@),
    {
        let ghost m0 = self.deep_view();
        match self.find_index(key) {
            Some(i) => {
                let mut row = self.rows.remove(i);
                row.native_string = Some(String::from_str(value));
                self.rows.insert(i, row);
                proof {
                    assert(self.rows.deep_view() =~~= m0.rows.update(
                        i as int,
                        RowModel { native: Some(value@), ..m0.rows[i as int] },
                    ));
                }
            },
            None => {
                let mut row = SourceRow::new(String::from_str(key));
                row.native_string = Some(String::from_str(value));
                self.rows.push(row);
                proof {
                    assert(self.rows.deep_view() =~~= m0.rows.push(
                        RowModel { key: key@, native: Some(value@), trans: Seq::empty() },
                    ));
                }
            },
        }
    }

    /// Writes one translation of `key`'s row.
    fn set_trans_exec(&mut self, key: &str, lang: &str, value: &str)
        ensures
            final(self).deep_view() == set_trans(old(self).deep_view(), key@, lang@, value@),
    {
        let ghost m0 = self.deep_view();
        match self.find_index(key) {
            Some(i) => {
                let mut row = self.rows.remove(i);
                let ghost tm0 = row.translate_map.deep_view();
                let mut j: usize = 0;
                let mut found = false;
                while j < row.translate_map.len() && !found
                    invariant
                        i < old(self).rows@.len(),
                        j <= row.translate_map@.len(),
                        row.key == old(self).rows@[i as int].key,
                        row.native_string == old(self).rows@[i as int].native_string,
                        !found ==> row.translate_map.deep_view() == tm0,
                        !found ==> forall|x: int| 0 <= x < j ==> (#[trigger] tm0[x]).0 != lang@,
                        found ==> row.translate_map.deep_view() == tmap_set(tm0, lang@, value@),
                    decreases row.translate_map@.len() - j + (if found { 0int } else { 1int }),
                {
                    proof {
                        assert(tm0[j as int] == row.translate_map@[j as int].deep_view());
                    }
                    if str_eq(row.translate_map[j].0.as_str(), lang) {
                        proof {
                            lemma_tmap_set_update(tm0, lang@, value@, j as int);
                        }
                        row.translate_map[j] = (String::from_str(lang), String::from_str(value));
                        proof {
                            assert(row.translate_map.deep_view() =~~= tm0.update(
                                j as int,
                                (lang@, value@),
                            ));
                        }
                        found = true;
                    } else {
                        j += 1;
                    }
                }
                if !found {
                    proof {
                        lemma_tmap_set_push(tm0, lang@, value@);
                    }
                    row.translate_map.push((String::from_str(lang), String::from_str(value)));
                    proof {
                        assert(row.translate_map.deep_view() =~~= tm0.push((lang@, value@)));
                    }
                }
                self.rows.insert(i, row);
                proof {
                    assert(self.rows.deep_view() =~~= m0.rows.update(
                        i as int,
                        RowModel {
                            trans: tmap_set(m0.rows[i as int].trans, lang@, value@),
                            ..m0.rows[i as int]
                        },
                    ));
                }
            },
            None => {
                let mut row = SourceRow::new(String::from_str(key));
                row.translate_map.push((String::from_str(lang), String::from_str(value)));
                self.rows.push(row);
                proof {
                    assert(row.translate_map.deep_view() =~~= seq![(lang@, value@)]);
                    assert(self.rows.deep_view() =~~= m0.rows.push(
                        RowModel { key: key@, native: None, trans: seq![(lang@, value@)] },
                    ));
                }
            },
        }
    }

    /// The native string stored directly on `key`'s row, if any.
    fn native_of_key_exec(&self, key: &str) -> (r: Option<String>)
        ensures
            r.deep_view() == native_of_key(self.deep_view(), key@),
    {
        match self.find_index(key) {
            Some(i) => {
                proof {
                    assert(self.rows.deep_view()[i as int] == self.rows@[i as int].deep_view());
                    assert(native_of_key(self.deep_view(), key@)
                        == self.rows@[i as int].native_string.deep_view());
                }
                match &self.rows[i].native_string {
                    Some(s) => {
                        let c = s.clone();
                        proof {
                            assert(Some(c).deep_view() == Some(c@));
                        }
                        Some(c)
                    },
                    None => None,
                }
            },
            None => None,
        }
    }

    /// The fallback lookup for a native string: the base key, then the
    /// base key with `_0` appended.
    fn try_find_native_string(&self, key: &str) -> (r: Option<String>)
        ensures
            r.deep_view() == try_find_native(self.deep_view(), key@),
    {
        let base = get_base_key(key);
        match self.native_of_key_exec(base.as_str()) {
            Some(s) => Some(s),
            None => {
                let with_zero = base.concat("_0");
                proof {
                    reveal_strlit("_0");
                }
                self.native_of_key_exec(with_zero.as_str())
            },
        }
    }

    /// Looks up the resolved string for a key in a language: the native
    /// string (with the variant fallback) for the native language, the
    /// stored translation otherwise.
    pub fn get(&self, key: &str, lang: &str) -> (r: Option<String>)
        ensures
            r.deep_view() == model_get(self.deep_view(), key@, lang@),
    {
        match self.find_index(key) {
            None => None,
            Some(i) => {
                proof {
                    assert(self.rows.deep_view()[i as int] == self.rows@[i as int].deep_view());
                }
                if str_eq(lang, self.native_lang.as_str()) {
                    match &self.rows[i].native_string {
                        Some(s) => Some(s.clone()),
                        None => self.try_find_native_string(key),
                    }
                } else {
                    let tm = &self.rows[i].translate_map;
                    proof {
                        assert(tm.deep_view().skip(0) =~~= tm.deep_view());
                    }
                    tmap_get_exec(tm, lang, 0)
                }
            },
        }
    }

    /// Merges one value: native-language values overwrite the native
    /// string; other values are stored only when non-empty, a native
    /// string exists, and the value is not a whitespace-insensitive echo
    /// of it.
    pub fn add(&mut self, key: &str, lang: &str, translated_string: &str)
        ensures
            final(self).deep_view() == model_add(
                old(self).deep_view(),
                key@,
                lang@,
                translated_string@,
            ),
    {
        let nl = self.native_lang.clone();
        let native = self.get(key, nl.as_str());
        if str_eq(lang, nl.as_str()) {
            self.set_native_exec(key, translated_string);
        } else {
            match native {
                Some(n) => {
                    if !translated_string.is_empty() && !same_sentence(
                        translated_string,
                        n.as_str(),
                    ) {
                        self.set_trans_exec(key, lang, translated_string);
                    }
                },
                None => {},
            }
        }
    }

    /// Every key with a row, in insertion order.
    pub fn keys(&self) -> (r: Vec<String>)
        ensures
            r.deep_view() == self.rows.deep_view().map_values(|rm: RowModel| rm.key),
    {
        let mut out: Vec<String> = Vec::new();
        let ghost km = self.rows.deep_view().map_values(|rm: RowModel| rm.key);
        proof {
            assert(out.deep_view() =~~= km.take(0));
        }
        let mut i: usize = 0;
        while i < self.rows.len()
            invariant
                i <= self.rows@.len(),
                km == self.rows.deep_view().map_values(|rm: RowModel| rm.key),
                out.deep_view() == km.take(i as int),
            decreases self.rows@.len() - i,
        {
            let ghost dv0 = out.deep_view();
            proof {
                assert(self.rows.deep_view()[i as int] == self.rows@[i as int].deep_view());
                assert(km[i as int] == self.rows.deep_view()[i as int].key);
            }
            out.push(self.rows[i].key.clone());
            proof {
                assert(out.deep_view() =~~= dv0.push(km[i as int]));
                assert(dv0.push(km[i as int]) =~~= km.take(i as int + 1));
            }
            i += 1;
        }
        proof {
            assert(km.take(km.len() as int) =~~= km);
        }
        out
    }

    /// Marks a base key as obsoleted; only output filtering is affected.
    pub fn obsolete(&mut self, key: &str)
        ensures
            final(self).deep_view() == (ProjectModel {
                obsoleted: if old(self).obsoleted.deep_view().contains(key@) {
                    old(self).obsoleted.deep_view()
                } else {
                    old(self).obsoleted.deep_view().push(key@)
                },
                ..old(self).deep_view()
            }),
    {
        let ghost ob0 = self.obsoleted.deep_view();
        let mut i: usize = 0;
        while i < self.obsoleted.len()
            invariant
                i <= self.obsoleted@.len(),
                ob0 == self.obsoleted.deep_view(),
                self == old(self),
                forall|j: int| 0 <= j < i ==> (#[trigger] ob0[j]) != key@,
            decreases self.obsoleted@.len() - i,
        {
            proof {
                assert(ob0[i as int] == self.obsoleted@[i as int]@);
            }
            if str_eq(self.obsoleted[i].as_str(), key) {
                proof {
                    assert(ob0.contains(key@));
                }
                return ;
            }
            i += 1;
        }
        proof {
            assert(!ob0.contains(key@));
        }
        self.obsoleted.push(String::from_str(key));
        proof {
            assert(self.obsoleted.deep_view() =~~= ob0.push(key@));
        }
    }

    /// The native language.
    pub fn get_native_lang(&self) -> (r: &str)
        ensures
            r@ == self.native_lang@,
    {
        self.native_lang.as_str()
    }

    /// The target languages, native language excluded.
    pub fn get_langs(&self) -> (r: &Vec<String>)
        ensures
            r.deep_view() == self.langs.deep_view(),
    {
        &self.langs
    }

    /// Whether a row exists for the key.
    pub fn has_key(&self, key: &str) -> (r: bool)
        ensures
            r == (find_row(self.rows.deep_view(), key@) is Some),
    {
        match self.find_index(key) {
            Some(_) => true,
            None => false,
        }
    }

    /// The obsoleted base keys, in the order they were marked.
    pub fn get_obsoleted_keys(&self) -> (r: &Vec<String>)
        ensures
            r.deep_view() == self.obsoleted.deep_view(),
    {
        &self.obsoleted
    }

    /// Drops every row and every obsoletion mark; the languages stay.
    pub fn clear(&mut self)
        ensures
            final(self).deep_view() == (ProjectModel {
                rows: Seq::empty(),
                obsoleted: Seq::empty(),
                ..old(self).deep_view()
            }),
    {
        self.rows.clear();
        self.obsoleted.clear();
        proof {
            assert(self.rows.deep_view() =~= Seq::<RowModel>::empty());
            assert(self.obsoleted.deep_view() =~= Seq::<Seq<char>>::empty());
        }
    }
}

proof fn lemma_assoc_get_at(m: Seq<(Seq<char>, Seq<char>)>, k: Seq<char>, idx: int)
    requires
        0 <= idx < m.len(),
        m[idx].0 == k,
        forall|j: int| 0 <= j < idx ==> (#[trigger] m[j]).0 != k,
    ensures
        assoc_get(m, k) == Some(m[idx].1),
    decreases idx,
{
    if idx > 0 {
        lemma_assoc_get_at(m.drop_first(), k, idx - 1);
    }
}

proof fn lemma_assoc_get_none(m: Seq<(Seq<char>, Seq<char>)>, k: Seq<char>)
    requires
        forall|j: int| 0 <= j < m.len() ==> (#[trigger] m[j]).0 != k,
    ensures
        assoc_get(m, k) is None,
    decreases m.len(),
{
    if m.len() > 0 {
        lemma_assoc_get_none(m.drop_first(), k);
    }
}

fn tmap_get_exec(tm: &Vec<(String, String)>, lang: &str, j: usize) -> (r: Option<String>)
    requires
        j <= tm@.len(),
    ensures
        r.deep_view() == assoc_get(tm.deep_view().skip(j as int), lang@),
    decreases tm@.len() - j,
{
    if j == tm.len() {
        proof {
            assert(tm.deep_view().skip(j as int).len() == 0);
        }
        None
    } else {
        proof {
            assert(tm.deep_view().skip(j as int)[0] == tm.deep_view()[j as int]);
            assert(tm.deep_view().skip(j as int).drop_first() =~~= tm.deep_view().skip(
                j as int + 1,
            ));
            assert(tm.deep_view()[j as int] == tm@[j as int].deep_view());
        }
        let p = &tm[j];
        if str_eq(p.0.as_str(), lang) {
            Some(p.1.clone())
        } else {
            tmap_get_exec(tm, lang, j + 1)
        }
    }
}

/// Whether two strings are the same sentence: equal once every whitespace
/// character is removed.
pub fn same_sentence(a: &str, b: &str) -> (r: bool)
    ensures
        r == (strip_ws(a@) == strip_ws(b@)),
{
    let va = to_chars(a);
    let vb = to_chars(b);
    let sa = crate::text::strip_ws_vec(&va);
    let sb = crate::text::strip_ws_vec(&vb);
    let mut i: usize = 0;
    if sa.len() != sb.len() {
        return false;
    }
    while i < sa.len()
        invariant
            sa@.len() == sb@.len(),
            i <= sa@.len(),
            sa@ == strip_ws(a@),
            sb@ == strip_ws(b@),
            forall|j: int| 0 <= j < i ==> sa@[j] == sb@[j],
        decreases sa@.len() - i,
    {
        if sa[i] != sb[i] {
            return false;
        }
        i += 1;
    }
    proof {
        assert(sa@ =~= sb@);
    }
    true
}

/// A project built from the given options.
pub fn create_sisulizer_project(options: Option<SisulizerProjectOptions>) -> (r: SisulizerProject)
    ensures
        ({
            let opts_native = match options {
                Some(o) => o.native_lang@,
                None => "zh"@,
            };
            let opts_langs = match options {
                Some(o) => o.langs.deep_view(),
                None => seq!["en"@],
            };
            r.deep_view() == (ProjectModel {
                native_lang: opts_native,
                langs: opts_langs.filter(|l: Seq<char>| l != opts_native),
                rows: Seq::empty(),
                obsoleted: Seq::empty(),
            })
        }),
{
    SisulizerProject::new(options)
}

/// A project with the default options: native `zh`, target `en`.
pub fn create_default_sisulizer_project() -> (r: SisulizerProject)
    ensures
        r.deep_view().native_lang == "zh"@,
        r.deep_view().langs == seq!["en"@],
        r.deep_view().rows == Seq::<RowModel>::empty(),
        r.deep_view().obsoleted == Seq::<Seq<char>>::empty(),
{
    let r = SisulizerProject::new(None);
    proof {
        reveal_strlit("en");
        reveal_strlit("zh");
        assert("en"@ != "zh"@) by {
            if "en"@ == "zh"@ {
                assert("en"@[0] == "zh"@[0]);
            }
        }
        reveal(Seq::filter);
        assert(seq!["en"@].drop_last() =~~= Seq::<Seq<char>>::empty());
        assert(seq!["en"@].filter(|l: Seq<char>| l != "zh"@) =~= seq!["en"@]);
    }
    r
}


// ------------------------------------------------------------------
// Loading a resource file
// ------------------------------------------------------------------
/// The entries of `s` parsed as a JSON object, in the order the JSON
/// parser yields them (ascending key order, duplicate keys collapsed with
/// the later value winning): the outer level is parse success, the inner
/// level is whether the document is an object at all; a string value comes
/// as `Some`, a value of any other JSON type as `None`.
pub uninterp spec fn json_object_entries(s: Seq<char>) -> Option<
    Option<Seq<(Seq<char>, Option<Seq<char>>)>>,
>;

/// Relies on `serde_json::from_str` parsing the text as a JSON document:
/// an object's entries are handed back in the parser's (key-sorted) order,
/// string values as `Some` and other values as `None`; a non-object
/// document yields `Ok(None)`; a parse failure yields the parser's message.
#[verifier::external_body]
fn parse_json_object(s: &str) -> (r: Result<Option<Vec<(String, Option<String>)>>, String>)
    ensures
        (match (r, json_object_entries(s@)) {
            (Ok(Some(v)), Some(Some(e))) => v.deep_view() == e,
            (Ok(None), Some(None)) => true,
            (Err(_), None) => true,
            _ => false,
        }),
{
    match serde_json::from_str::<serde_json::Value>(s) {
        Ok(serde_json::Value::Object(map)) => {
            let to_str = |v: serde_json::Value| match v {
                serde_json::Value::String(x) => Some(x),
                _ => None,
            };
            Ok(Some(map.into_iter().map(|(k, v)| (k, to_str(v))).collect()))
        },
        Ok(_) => Ok(None),
        Err(e) => Err(e.to_string()),
    }
}

/// Whether the text holds a character in the narrow CJK range.
pub open spec fn has_zh_narrow(v: Seq<char>) -> bool {
    exists|i: int| 0 <= i < v.len() && crate::text::is_zh_narrow(v[i])
}

fn has_zh_narrow_exec(s: &str) -> (r: bool)
    ensures
        r == has_zh_narrow(s@),
{
    let n = s.unicode_len();
    let mut i: usize = 0;
    while i < n
        invariant
            n == s@.len(),
            i <= n,
            forall|j: int| 0 <= j < i ==> !crate::text::is_zh_narrow(s@[j]),
        decreases n - i,
    {
        if crate::text::is_zh_narrow_char(s.get_char(i)) {
            return true;
        }
        i += 1;
    }
    false
}

/// The integrity-error message for a source-language value found in a
/// non-source-language file.
pub open spec fn load_msg(lang: Seq<char>, value: Seq<char>) -> Seq<char> {
    "Chinese text found in "@ + lang + ".json entry: "@ + value
}

/// What loading a parsed entry list does: each string entry is merged with
/// the same suppression rule as `add` (a value that equals the existing
/// native string once whitespace is ignored is not stored), with one
/// exception: a non-`zh`, non-native entry holding CJK text is a data
/// integrity error that aborts the load at that entry, keeping what was
/// merged before it.
pub open spec fn model_load(
    m: ProjectModel,
    entries: Seq<(Seq<char>, Option<Seq<char>>)>,
    j: int,
    lang: Seq<char>,
) -> (ProjectModel, Option<Seq<char>>)
    decreases entries.len() - j,
{
    if j < 0 || j >= entries.len() {
        (m, None)
    } else {
        let (k, vo) = entries[j];
        match vo {
            None => model_load(m, entries, j + 1, lang),
            Some(v) => {
                let native = model_get(m, k, m.native_lang);
                if lang == m.native_lang {
                    model_load(set_native(m, k, v), entries, j + 1, lang)
                } else if v.len() > 0 && native is Some {
                    if lang != "zh"@ && has_zh_narrow(v) {
                        (m, Some(load_msg(lang, v)))
                    } else if strip_ws(v) != strip_ws(native->0) {
                        model_load(set_trans(m, k, lang, v), entries, j + 1, lang)
                    } else {
                        model_load(m, entries, j + 1, lang)
                    }
                } else {
                    model_load(m, entries, j + 1, lang)
                }
            },
        }
    }
}

impl SisulizerProject {
    /// Merges a language's resource file, given as JSON text: a flat
    /// object mapping extraction keys to strings, merged with the same
    /// echoed-source suppression as `add`. Non-object documents are
    /// ignored; a parse failure reports the parser's message; a non-`zh`,
    /// non-native entry holding CJK text is a data-integrity error that
    /// aborts the load, keeping what was merged before it.
    pub fn load(&mut self, content: &str, lang: &str) -> (r: Result<(), String>)
        ensures
            ({
                let m0 = old(self).deep_view();
                match json_object_entries(content@) {
                    None => r is Err && final(self).deep_view() == m0,
                    Some(None) => r is Ok && final(self).deep_view() == m0,
                    Some(Some(entries)) => {
                        let outcome = model_load(m0, entries, 0, lang@);
                        match outcome.1 {
                            None => r is Ok && final(self).deep_view() == outcome.0,
                            Some(msg) => (match r {
                                Err(em) => em@ == msg,
                                Ok(u) => false,
                            }) && final(self).deep_view() == outcome.0,
                        }
                    },
                }
            }),
    {
        match parse_json_object(content) {
            Err(m) => Err(m),
            Ok(None) => Ok(()),
            Ok(Some(entries)) => {
                let ghost em = entries.deep_view();
                let ghost m00 = self.deep_view();
                let nl = self.native_lang.clone();
                let mut j: usize = 0;
                while j < entries.len()
                    invariant
                        j <= entries@.len(),
                        em == entries.deep_view(),
                        nl@ == self.native_lang@,
                        m00 == old(self).deep_view(),
                        json_object_entries(content@) == Some(Some(em)),
                        model_load(self.deep_view(), em, j as int, lang@) == model_load(
                            m00,
                            em,
                            0,
                            lang@,
                        ),
                    decreases entries@.len() - j,
                {
                    let ghost m_it = self.deep_view();
                    proof {
                        assert(em[j as int] == (entries@[j as int].0@, entries@[
                            j as int
                        ].1.deep_view()));
                    }
                    let p = &entries[j];
                    match &p.1 {
                        None => {},
                        Some(v) => {
                            let native = self.get(p.0.as_str(), nl.as_str());
                            if str_eq(lang, nl.as_str()) {
                                self.set_native_exec(p.0.as_str(), v.as_str());
                            } else {
                                match &native {
                                    Some(n) => {
                                        if !v.as_str().is_empty() {
                                            if !str_eq(lang, "zh") && has_zh_narrow_exec(
                                                v.as_str(),
                                            ) {
                                                let msg = String::from_str(
                                                    "Chinese text found in ",
                                                ).concat(lang).concat(".json entry: ").concat(
                                                    v.as_str(),
                                                );
                                                proof {
                                                    assert(msg@ =~= load_msg(lang@, v@));
                                                    let cur = self.deep_view();
                                                    assert(model_load(cur, em, j as int, lang@) == (
                                                        cur,
                                                        Some(load_msg(lang@, v@)),
                                                    ));
                                                }
                                                return Err(msg);
                                            } else if !same_sentence(v.as_str(), n.as_str()) {
                                                self.set_trans_exec(p.0.as_str(), lang, v.as_str());
                                            }
                                        }
                                    },
                                    None => {},
                                }
                            }
                        },
                    }
                    proof {
                        assert(model_load(m_it, em, j as int, lang@) == model_load(
                            self.deep_view(),
                            em,
                            j as int + 1,
                            lang@,
                        ));
                    }
                    j += 1;
                }
                Ok(())
            },
        }
    }
}

// ------------------------------------------------------------------
// Sorted output
// ------------------------------------------------------------------
/// Inserts a key into an already-sorted sequence, before the first element
/// it precedes or equals.
pub open spec fn insert_sorted(x: Seq<char>, s: Seq<Seq<char>>) -> Seq<Seq<char>>
    decreases s.len(),
{
    if s.len() == 0 {
        seq![x]
    } else if crate::text::lex_le(x, s[0]) {
        seq![x] + s
    } else {
        seq![s[0]] + insert_sorted(x, s.drop_first())
    }
}

proof fn lemma_insert_sorted_at(x: Seq<char>, s: Seq<Seq<char>>, j: int)
    requires
        0 <= j <= s.len(),
        forall|k: int| 0 <= k < j ==> !crate::text::lex_le(x, #[trigger] s[k]),
        j < s.len() ==> crate::text::lex_le(x, s[j]),
    ensures
        insert_sorted(x, s) == s.take(j) + seq![x] + s.skip(j),
    decreases j,
{
    if s.len() == 0 {
        assert(insert_sorted(x, s) =~= s.take(j) + seq![x] + s.skip(j));
    } else if j == 0 {
        assert(insert_sorted(x, s) =~= s.take(0) + seq![x] + s.skip(0));
    } else {
        lemma_insert_sorted_at(x, s.drop_first(), j - 1);
        assert(seq![s[0]] + (s.drop_first().take(j - 1) + seq![x] + s.drop_first().skip(j - 1))
            =~= s.take(j) + seq![x] + s.skip(j));
    }
}

/// Sorts keys by inserting each in turn.
pub open spec fn sort_from(s: Seq<Seq<char>>, i: int, acc: Seq<Seq<char>>) -> Seq<Seq<char>>
    decreases s.len() - i,
{
    if i < 0 || i >= s.len() {
        acc
    } else {
        sort_from(s, i + 1, insert_sorted(s[i], acc))
    }
}

/// The keys in ascending lexicographic order.
pub open spec fn sort_keys(s: Seq<Seq<char>>) -> Seq<Seq<char>> {
    sort_from(s, 0, Seq::empty())
}

fn sort_keys_exec(keys: &Vec<String>) -> (r: Vec<Vec<char>>)
    ensures
        r.deep_view() == sort_keys(keys.deep_view()),
{
    let mut sorted: Vec<Vec<char>> = Vec::new();
    proof {
        assert(sorted.deep_view() =~~= Seq::<Seq<char>>::empty());
    }
    let mut i: usize = 0;
    while i < keys.len()
        invariant
            i <= keys@.len(),
            sort_from(keys.deep_view(), i as int, sorted.deep_view()) == sort_keys(
                keys.deep_view(),
            ),
        decreases keys@.len() - i,
    {
        proof {
            assert(keys.deep_view()[i as int] == keys@[i as int]@);
        }
        let kc = crate::text::to_chars(keys[i].as_str());
        let ghost sd0 = sorted.deep_view();
        let mut j: usize = 0;
        let mut found = false;
        while j < sorted.len() && !found
            invariant
                i < keys@.len(),
                j <= sorted@.len(),
                kc@ == keys.deep_view()[i as int],
                sd0 == sorted.deep_view(),
                forall|k: int| 0 <= k < j ==> !crate::text::lex_le(kc@, #[trigger] sd0[k]),
                found ==> j < sorted@.len() && crate::text::lex_le(kc@, sd0[j as int]),
            decreases sorted@.len() - j + (if found {
                0int
            } else {
                1int
            }),
        {
            proof {
                assert(sd0[j as int] == sorted@[j as int]@);
            }
            if crate::text::lex_le_chars(&kc, &sorted[j]) {
                found = true;
            } else {
                j += 1;
            }
        }
        proof {
            lemma_insert_sorted_at(kc@, sd0, j as int);
        }
        sorted.insert(j, kc);
        proof {
            assert(sorted.deep_view() =~~= sd0.take(j as int) + seq![keys.deep_view()[i as int]]
                + sd0.skip(j as int));
        }
        i += 1;
    }
    sorted
}

/// The key/value pairs of the emitted resource object, walking the sorted
/// keys from position `j`: a key whose base form is obsoleted is omitted,
/// as is a key with no resolved value in the requested language.
pub open spec fn out_pairs_from(
    m: ProjectModel,
    sorted: Seq<Seq<char>>,
    j: int,
    lang: Seq<char>,
) -> Seq<(Seq<char>, Seq<char>)>
    decreases sorted.len() - j,
{
    if j < 0 || j >= sorted.len() {
        Seq::empty()
    } else {
        let k = sorted[j];
        let rest = out_pairs_from(m, sorted, j + 1, lang);
        if !m.obsoleted.contains(spec_base_key(k)) {
            match model_get(m, k, lang) {
                Some(v) => seq![(k, v)] + rest,
                None => rest,
            }
        } else {
            rest
        }
    }
}

/// The emitted pairs: sorted by extraction key, obsoleted base keys and
/// unresolved keys omitted.
pub open spec fn output_pairs(m: ProjectModel, lang: Seq<char>) -> Seq<(Seq<char>, Seq<char>)> {
    out_pairs_from(m, sort_keys(m.rows.map_values(|rm: RowModel| rm.key)), 0, lang)
}

/// Obsoletion law: no pair the output yields has an obsoleted base key;
/// obsoleting a base key silences the key itself and all its variants.
pub proof fn lemma_output_omits_obsoleted(m: ProjectModel, lang: Seq<char>)
    ensures
        forall|x: int|
            0 <= x < output_pairs(m, lang).len() ==> !m.obsoleted.contains(
                spec_base_key(#[trigger] output_pairs(m, lang)[x].0),
            ),
{
    lemma_out_pairs_omit(m, sort_keys(m.rows.map_values(|rm: RowModel| rm.key)), 0, lang);
}

proof fn lemma_out_pairs_omit(m: ProjectModel, sorted: Seq<Seq<char>>, j: int, lang: Seq<char>)
    ensures
        forall|x: int|
            0 <= x < out_pairs_from(m, sorted, j, lang).len() ==> !m.obsoleted.contains(
                spec_base_key(#[trigger] out_pairs_from(m, sorted, j, lang)[x].0),
            ),
    decreases sorted.len() - j,
{
    if j < 0 || j >= sorted.len() {
    } else {
        lemma_out_pairs_omit(m, sorted, j + 1, lang);
        let k = sorted[j];
        let rest = out_pairs_from(m, sorted, j + 1, lang);
        if !m.obsoleted.contains(spec_base_key(k)) {
            match model_get(m, k, lang) {
                Some(v) => {
                    assert forall|x: int|
                        0 <= x < out_pairs_from(m, sorted, j, lang).len() implies !m.obsoleted.contains(
                        spec_base_key(#[trigger] out_pairs_from(m, sorted, j, lang)[x].0),
                    ) by {
                        if x > 0 {
                            assert(out_pairs_from(m, sorted, j, lang)[x] == rest[x - 1]);
                        }
                    }
                },
                None => {},
            }
        }
    }
}

/// Obsoletion law, variant shapes: for a well-formed generated key,
/// obsoleting the key silences its `_<digit>` and `_plural` variants,
/// whose base form it is.
pub proof fn lemma_base_key_of_variants(key: Seq<char>, d: char)
    requires
        key.len() >= 3,
        key[0] == 'k',
        key[1] == '_',
        is_digit(d),
    ensures
        spec_base_key(key + seq!['_', d]) == key,
        spec_base_key(key + "_plural"@) == key,
{
    let kd = key + seq!['_', d];
    assert(kd.len() == key.len() + 2);
    assert(kd[0] == 'k' && kd[1] == '_');
    assert(kd[kd.len() - 2] == '_' && kd.last() == d);
    assert(kd.take(kd.len() - 2) =~= key);
    let kp = key + "_plural"@;
    reveal_strlit("_plural");
    assert(kp.len() == key.len() + 7);
    assert(kp[0] == 'k' && kp[1] == '_');
    assert(kp.subrange(kp.len() - 7, kp.len() as int) =~= "_plural"@);
    assert(kp[kp.len() - 2] == 'a');
    assert(!is_digit('a')) by {
        assert('a' as u32 == 0x61);
    }
    assert(kp.take(kp.len() - 7) =~= key);
}

// ------------------------------------------------------------------
// JSON emission
// ------------------------------------------------------------------
/// A lower-case hexadecimal digit (for escaping control characters).
pub open spec fn hex_digit(d: int) -> char {
    crate::hash_key::digit36(d)
}

/// The JSON escape of one character: quotes, backslashes and control
/// characters are escaped, everything else stands for itself.
pub open spec fn json_escape_char(c: char) -> Seq<char> {
    let u = c as u32;
    if c == '"' {
        seq!['\\', '"']
    } else if c == '\\' {
        seq!['\\', '\\']
    } else if u == 0x08 {
        seq!['\\', 'b']
    } else if c == '\t' {
        seq!['\\', 't']
    } else if c == '\n' {
        seq!['\\', 'n']
    } else if u == 0x0c {
        seq!['\\', 'f']
    } else if c == '\r' {
        seq!['\\', 'r']
    } else if u < 0x20 {
        seq!['\\', 'u', '0', '0', hex_digit(u as int / 16), hex_digit(u as int % 16)]
    } else {
        seq![c]
    }
}

/// The JSON escape of a whole text.
pub open spec fn json_escape(s: Seq<char>) -> Seq<char>
    decreases s.len(),
{
    if s.len() == 0 {
        Seq::empty()
    } else {
        json_escape(s.drop_last()) + json_escape_char(s.last())
    }
}

/// A JSON string literal: the escaped text in double quotes.
pub open spec fn json_str(s: Seq<char>) -> Seq<char> {
    seq!['"'] + json_escape(s) + seq!['"']
}

fn hex_digit_exec(d: u8) -> (r: char)
    requires
        d < 16,
    ensures
        r == hex_digit(d as int),
{
    let c = if d < 10 {
        (0x30 + d) as char
    } else {
        (0x57 + d) as char
    };
    proof {
        vstd::utf8::char_u32_cast(c, c as u32);
    }
    c
}

fn json_escape_push(out: &mut Vec<char>, c: char)
    ensures
        final(out)@ == old(out)@ + json_escape_char(c),
{
    let ghost o0 = out@;
    let u = c as u32;
    if c == '"' {
        out.push('\\');
        out.push('"');
    } else if c == '\\' {
        out.push('\\');
        out.push('\\');
    } else if u == 0x08 {
        out.push('\\');
        out.push('b');
    } else if c == '\t' {
        out.push('\\');
        out.push('t');
    } else if c == '\n' {
        out.push('\\');
        out.push('n');
    } else if u == 0x0c {
        out.push('\\');
        out.push('f');
    } else if c == '\r' {
        out.push('\\');
        out.push('r');
    } else if u < 0x20 {
        out.push('\\');
        out.push('u');
        out.push('0');
        out.push('0');
        out.push(hex_digit_exec((u / 16) as u8));
        out.push(hex_digit_exec((u % 16) as u8));
    } else {
        out.push(c);
    }
    proof {
        assert(out@ =~= o0 + json_escape_char(c));
    }
}

fn json_str_append(out: &mut Vec<char>, s: &Vec<char>)
    ensures
        final(out)@ == old(out)@ + json_str(s@),
{
    let ghost o0 = out@;
    out.push('"');
    let mut i: usize = 0;
    while i < s.len()
        invariant
            i <= s@.len(),
            out@ == o0 + seq!['"'] + json_escape(s@.take(i as int)),
        decreases s@.len() - i,
    {
        json_escape_push(out, s[i]);
        proof {
            assert(s@.take(i as int + 1).drop_last() =~= s@.take(i as int));
            assert(s@.take(i as int + 1).last() == s@[i as int]);
            assert(o0 + seq!['"'] + json_escape(s@.take(i as int)) + json_escape_char(s@[i as int])
                =~= o0 + seq!['"'] + json_escape(s@.take(i as int + 1)));
        }
        i += 1;
    }
    out.push('"');
    proof {
        assert(s@.take(s@.len() as int) =~= s@);
        assert(out@ =~= o0 + json_str(s@));
    }
}

/// The body of a pretty-printed flat object: entries joined by a comma,
/// newline and two-space indent.
pub open spec fn json_body_upto(pairs: Seq<(Seq<char>, Seq<char>)>, j: int) -> Seq<char>
    decreases j,
{
    if j <= 0 {
        Seq::empty()
    } else {
        json_body_upto(pairs, j - 1) + (if j == 1 {
            Seq::empty()
        } else {
            seq![',', '\n', ' ', ' ']
        }) + json_str(pairs[j - 1].0) + seq![':', ' '] + json_str(pairs[j - 1].1)
    }
}

/// A flat JSON object over the pairs, pretty-printed with two-space
/// indent; `{}` when empty.
pub open spec fn json_of_pairs(pairs: Seq<(Seq<char>, Seq<char>)>) -> Seq<char> {
    if pairs.len() == 0 {
        seq!['{', '}']
    } else {
        seq!['{', '\n', ' ', ' '] + json_body_upto(pairs, pairs.len() as int) + seq!['\n', '}']
    }
}

fn json_of_pairs_exec(pairs: &Vec<(Vec<char>, Vec<char>)>) -> (r: Vec<char>)
    ensures
        r@ == json_of_pairs(pairs.deep_view()),
{
    let mut out: Vec<char> = Vec::new();
    if pairs.len() == 0 {
        out.push('{');
        out.push('}');
        proof {
            assert(out@ =~= json_of_pairs(pairs.deep_view()));
        }
        return out;
    }
    out.push('{');
    out.push('\n');
    out.push(' ');
    out.push(' ');
    let ghost head = seq!['{', '\n', ' ', ' '];
    proof {
        assert(out@ =~= head + json_body_upto(pairs.deep_view(), 0));
    }
    let mut j: usize = 0;
    while j < pairs.len()
        invariant
            j <= pairs@.len(),
            out@ == head + json_body_upto(pairs.deep_view(), j as int),
        decreases pairs@.len() - j,
    {
        proof {
            assert(pairs.deep_view()[j as int] == (pairs@[j as int].0@, pairs@[j as int].1@));
        }
        if j > 0 {
            out.push(',');
            out.push('\n');
            out.push(' ');
            out.push(' ');
        }
        json_str_append(&mut out, &pairs[j].0);
        out.push(':');
        out.push(' ');
        json_str_append(&mut out, &pairs[j].1);
        proof {
            assert(out@ =~= head + json_body_upto(pairs.deep_view(), j as int + 1));
        }
        j += 1;
    }
    out.push('\n');
    out.push('}');
    proof {
        assert(out@ =~= json_of_pairs(pairs.deep_view()));
    }
    out
}

// ------------------------------------------------------------------
// Statistics and directory output
// ------------------------------------------------------------------
/// Key counts and, per target language, how many rows hold a translation.
pub struct ProjectStats {
    pub total_keys: usize,
    pub active_keys: usize,
    pub obsoleted_keys: usize,
    pub lang_stats: Vec<(String, usize)>,
}

/// How many of the first `i` rows hold a translation for `lang`.
pub open spec fn trans_count(rows: Seq<RowModel>, lang: Seq<char>, i: int) -> int
    decreases i,
{
    if i <= 0 {
        0
    } else {
        trans_count(rows, lang, i - 1) + (if assoc_get(rows[i - 1].trans, lang) is Some {
            1int
        } else {
            0int
        })
    }
}

/// The two generated files of the structured output, as path/content
/// pairs: a context summary and the re-keyed per-language resource object.
pub struct DirectoryOutput {
    pub context_path: String,
    pub context_json: String,
    pub source_path: String,
    pub source_json: String,
}

/// The context summary document.
pub open spec fn context_json_of(m: ProjectModel, target: Seq<char>, ts: Seq<char>) -> Seq<char> {
    "{\n  \"active_keys\": "@ + crate::text::dec_str(m.rows.len() - m.obsoleted.len())
        + ",\n  \"generated_at\": "@ + json_str(ts) + ",\n  \"language\": "@ + json_str(target)
        + ",\n  \"obsoleted_keys\": "@ + crate::text::dec_str(m.obsoleted.len() as int)
        + ",\n  \"project_info\": {\n    \"available_languages\": "@ + langs_json(m.langs)
        + ",\n    \"native_language\": "@ + json_str(m.native_lang) + "\n  },\n  \"total_keys\": "@
        + crate::text::dec_str(m.rows.len() as int) + "\n}"@
}

/// The language-name array, pretty-printed as an array nested two levels
/// deep: one element per line at a six-space indent, the closing bracket
/// at four; `[]` when empty.
pub open spec fn langs_json(ls: Seq<Seq<char>>) -> Seq<char> {
    if ls.len() == 0 {
        seq!['[', ']']
    } else {
        seq!['['] + langs_items(ls, ls.len() as int) + seq!['\n', ' ', ' ', ' ', ' ', ']']
    }
}

pub open spec fn langs_items(ls: Seq<Seq<char>>, j: int) -> Seq<char>
    decreases j,
{
    if j <= 0 {
        Seq::empty()
    } else {
        langs_items(ls, j - 1) + (if j == 1 {
            seq!['\n']
        } else {
            seq![',', '\n']
        }) + seq![' ', ' ', ' ', ' ', ' ', ' '] + json_str(ls[j - 1])
    }
}

fn langs_json_append(out: &mut Vec<char>, ls: &Vec<String>)
    ensures
        final(out)@ == old(out)@ + langs_json(ls.deep_view()),
{
    let ghost o0 = out@;
    out.push('[');
    if ls.len() == 0 {
        out.push(']');
        proof {
            assert(out@ =~= o0 + langs_json(ls.deep_view()));
        }
        return ;
    }
    let mut j: usize = 0;
    while j < ls.len()
        invariant
            j <= ls@.len(),
            out@ == o0 + seq!['['] + langs_items(ls.deep_view(), j as int),
        decreases ls@.len() - j,
    {
        proof {
            assert(ls.deep_view()[j as int] == ls@[j as int]@);
        }
        if j > 0 {
            out.push(',');
        }
        out.push('\n');
        out.push(' ');
        out.push(' ');
        out.push(' ');
        out.push(' ');
        out.push(' ');
        out.push(' ');
        let lc = crate::text::to_chars(ls[j].as_str());
        json_str_append(out, &lc);
        proof {
            assert(out@ =~= o0 + seq!['['] + langs_items(ls.deep_view(), j as int + 1));
        }
        j += 1;
    }
    out.push('\n');
    out.push(' ');
    out.push(' ');
    out.push(' ');
    out.push(' ');
    out.push(']');
    proof {
        assert(out@ =~= o0 + langs_json(ls.deep_view()));
    }
}

/// The re-keyed resource pairs: each value keyed by its own content hash.
pub open spec fn rekeyed_pairs(pairs: Seq<(Seq<char>, Seq<char>)>) -> Seq<(Seq<char>, Seq<char>)> {
    pairs.map_values(|p: (Seq<char>, Seq<char>)| (crate::hash_key::spec_hash_key(p.1), p.1))
}

/// The language an output call targets: the given one, or the native
/// language when none is given.
pub open spec fn target_of(lang: Option<&str>, native: Seq<char>) -> Seq<char> {
    match lang {
        Some(l) => l@,
        None => native,
    }
}

/// Whether a directory output has exactly the two files the structured
/// layout prescribes, for the given project, target language and timestamp.
pub open spec fn dir_output_matches(
    r: DirectoryOutput,
    m: ProjectModel,
    output_dir: Seq<char>,
    target: Seq<char>,
    ts: Seq<char>,
) -> bool {
    &&& r.context_path@ == output_dir + "/context/context.json"@
    &&& r.context_json@ == context_json_of(m, target, ts)
    &&& r.source_path@ == output_dir + "/source/"@ + target + ".json"@
    &&& r.source_json@ == json_of_pairs(rekeyed_pairs(output_pairs(m, target)))
}

/// Relies on `chrono::Utc::now`: the current UTC time, rendered as
/// `YYYY-MM-DD HH:MM:SS UTC`. The result depends on the clock, so nothing
/// is promised of it; the rest of the output is specified for every
/// timestamp by `output_to_directory_at`. On a system clock set before
/// 1970 the call itself aborts the process.
#[verifier::external_body]
fn current_timestamp() -> (r: String) {
    chrono::Utc::now().format("%Y-%m-%d %H:%M:%S UTC").to_string()
}

impl SisulizerProject {
    /// Emits the resource object for a language (the native language when
    /// none is given) as pretty-printed JSON text: keys sorted, obsoleted
    /// base keys and unresolved keys omitted.
    pub fn output(&self, lang: Option<&str>) -> (r: String)
        ensures
            r@ == json_of_pairs(
                output_pairs(
                    self.deep_view(),
                    match lang {
                        Some(l) => l@,
                        None => self.native_lang@,
                    },
                ),
            ),
    {
        let pairs = self.output_pairs_exec(lang);
        let v = json_of_pairs_exec(&pairs);
        chars_to_string(&v)
    }

    /// The emitted pairs for a language, sorted by extraction key.
    fn output_pairs_exec(&self, lang: Option<&str>) -> (r: Vec<(Vec<char>, Vec<char>)>)
        ensures
            r.deep_view() == output_pairs(
                self.deep_view(),
                match lang {
                    Some(l) => l@,
                    None => self.native_lang@,
                },
            ),
    {
        let nl = self.native_lang.clone();
        let target: &str = match lang {
            Some(l) => l,
            None => nl.as_str(),
        };
        let ks = self.keys();
        let sorted = sort_keys_exec(&ks);
        let ghost sm = sorted.deep_view();
        let ghost lm = match lang {
            Some(l) => l@,
            None => self.native_lang@,
        };
        let mut out: Vec<(Vec<char>, Vec<char>)> = Vec::new();
        proof {
            assert(out.deep_view() =~~= Seq::<(Seq<char>, Seq<char>)>::empty());
        }
        let mut j: usize = 0;
        while j < sorted.len()
            invariant
                j <= sorted@.len(),
                sm == sorted.deep_view(),
                lm == target@,
                out.deep_view() + out_pairs_from(self.deep_view(), sm, j as int, lm)
                    == out_pairs_from(self.deep_view(), sm, 0, lm),
            decreases sorted@.len() - j,
        {
            proof {
                assert(sm[j as int] == sorted@[j as int]@);
            }
            let kstr = chars_to_string(&sorted[j]);
            let base = get_base_key(kstr.as_str());
            let mut obsoleted = false;
            let mut x: usize = 0;
            while x < self.obsoleted.len() && !obsoleted
                invariant
                    x <= self.obsoleted@.len(),
                    base@ == spec_base_key(sm[j as int]),
                    obsoleted ==> self.obsoleted.deep_view().contains(spec_base_key(sm[j as int])),
                    !obsoleted ==> forall|y: int|
                        0 <= y < x ==> (#[trigger] self.obsoleted.deep_view()[y]) != spec_base_key(
                            sm[j as int],
                        ),
                decreases self.obsoleted@.len() - x + (if obsoleted { 0int } else { 1int }),
            {
                proof {
                    assert(self.obsoleted.deep_view()[x as int] == self.obsoleted@[x as int]@);
                }
                if str_eq(self.obsoleted[x].as_str(), base.as_str()) {
                    obsoleted = true;
                } else {
                    x += 1;
                }
            }
            proof {
                if !obsoleted {
                    assert(!self.obsoleted.deep_view().contains(spec_base_key(sm[j as int])));
                }
            }
            let ghost dv0 = out.deep_view();
            if !obsoleted {
                match self.get(kstr.as_str(), target) {
                    Some(v) => {
                        let vc = crate::text::to_chars(v.as_str());
                        out.push((copy_chars(&sorted[j]), vc));
                        proof {
                            let pair = (sm[j as int], model_get(self.deep_view(), sm[j as int], lm)->0);
                            assert(out.deep_view() =~~= dv0.push(pair));
                            assert(dv0.push(pair) + out_pairs_from(
                                self.deep_view(),
                                sm,
                                j as int + 1,
                                lm,
                            ) =~~= dv0 + (seq![pair] + out_pairs_from(
                                self.deep_view(),
                                sm,
                                j as int + 1,
                                lm,
                            )));
                        }
                    },
                    None => {},
                }
            }
            j += 1;
        }
        proof {
            assert(out.deep_view() + out_pairs_from(self.deep_view(), sm, sm.len() as int, lm)
                =~~= out.deep_view());
        }
        out
    }

    /// Key counts and per-language translation counts.
    pub fn get_stats(&self) -> (r: ProjectStats)
        requires
            self.obsoleted@.len() <= self.rows@.len(),
        ensures
            r.total_keys == self.rows@.len(),
            r.obsoleted_keys == self.obsoleted@.len(),
            r.active_keys == self.rows@.len() - self.obsoleted@.len(),
            r.lang_stats@.len() == self.langs@.len(),
            forall|j: int|
                0 <= j < self.langs@.len() ==> (#[trigger] r.lang_stats.deep_view()[j]).0
                    == self.langs.deep_view()[j] && r.lang_stats.deep_view()[j].1 as int
                    == trans_count(self.rows.deep_view(), self.langs.deep_view()[j], self.rows@.len() as int),
    {
        let total = self.rows.len();
        let obsoleted_n = self.obsoleted.len();
        let mut lang_stats: Vec<(String, usize)> = Vec::new();
        let mut j: usize = 0;
        while j < self.langs.len()
            invariant
                j <= self.langs@.len(),
                lang_stats@.len() == j,
                forall|x: int|
                    0 <= x < j ==> (#[trigger] lang_stats.deep_view()[x]).0
                        == self.langs.deep_view()[x] && lang_stats.deep_view()[x].1 as int
                        == trans_count(self.rows.deep_view(), self.langs.deep_view()[x], self.rows@.len() as int),
            decreases self.langs@.len() - j,
        {
            proof {
                assert(self.langs.deep_view()[j as int] == self.langs@[j as int]@);
            }
            let lang = &self.langs[j];
            let mut cnt: usize = 0;
            let mut x: usize = 0;
            while x < self.rows.len()
                invariant
                    x <= self.rows@.len(),
                    cnt <= x,
                    cnt as int == trans_count(self.rows.deep_view(), lang@, x as int),
                decreases self.rows@.len() - x,
            {
                proof {
                    assert(self.rows.deep_view()[x as int] == self.rows@[x as int].deep_view());
                    assert(self.rows[x as int].translate_map.deep_view().skip(0)
                        =~~= self.rows@[x as int].translate_map.deep_view());
                }
                match tmap_get_exec(&self.rows[x].translate_map, lang.as_str(), 0) {
                    Some(v2) => {
                        cnt += 1;
                    },
                    None => {},
                }
                x += 1;
            }
            let ghost ls0 = lang_stats.deep_view();
            lang_stats.push((lang.clone(), cnt));
            proof {
                assert(lang_stats.deep_view() =~~= ls0.push((lang@, cnt)));
            }
            j += 1;
        }
        ProjectStats {
            total_keys: total,
            active_keys: total - obsoleted_n,
            obsoleted_keys: obsoleted_n,
            lang_stats,
        }
    }

    /// The structured-output files for a language, with an explicitly
    /// given generation timestamp: `context/context.json` under the output
    /// directory summarises counts and languages, and `source/<lang>.json`
    /// holds the resource object re-keyed by each value's content hash.
    pub fn output_to_directory_at(
        &self,
        output_dir: &str,
        lang: Option<&str>,
        generated_at: &str,
    ) -> (r: DirectoryOutput)
        requires
            self.obsoleted@.len() <= self.rows@.len(),
        ensures
            dir_output_matches(
                r,
                self.deep_view(),
                output_dir@,
                match lang {
                    Some(l) => l@,
                    None => self.native_lang@,
                },
                generated_at@,
            ),
    {
        let nl = self.native_lang.clone();
        let target: &str = match lang {
            Some(l) => l,
            None => nl.as_str(),
        };
        let context_path = String::from_str(output_dir).concat("/context/context.json");
        let source_path = String::from_str(output_dir).concat("/source/").concat(target).concat(
            ".json",
        );
        proof {
            assert(source_path@ =~= output_dir@ + "/source/"@ + target@ + ".json"@);
        }
        // context.json
        let mut cj: Vec<char> = Vec::new();
        let total = self.rows.len();
        let obsoleted_n = self.obsoleted.len();
        cj.append(&mut crate::text::to_chars("{\n  \"active_keys\": "));
        cj.append(&mut crate::text::u64_to_dec((total - obsoleted_n) as u64));
        cj.append(&mut crate::text::to_chars(",\n  \"generated_at\": "));
        let tsc = crate::text::to_chars(generated_at);
        json_str_append(&mut cj, &tsc);
        cj.append(&mut crate::text::to_chars(",\n  \"language\": "));
        let tc = crate::text::to_chars(target);
        json_str_append(&mut cj, &tc);
        cj.append(&mut crate::text::to_chars(",\n  \"obsoleted_keys\": "));
        cj.append(&mut crate::text::u64_to_dec(obsoleted_n as u64));
        cj.append(&mut crate::text::to_chars(",\n  \"project_info\": {\n    \"available_languages\": "));
        langs_json_append(&mut cj, &self.langs);
        cj.append(&mut crate::text::to_chars(",\n    \"native_language\": "));
        let nlc = crate::text::to_chars(self.native_lang.as_str());
        json_str_append(&mut cj, &nlc);
        cj.append(&mut crate::text::to_chars("\n  },\n  \"total_keys\": "));
        cj.append(&mut crate::text::u64_to_dec(total as u64));
        cj.append(&mut crate::text::to_chars("\n}"));
        proof {
            assert(cj@ =~= context_json_of(
                self.deep_view(),
                match lang {
                    Some(l) => l@,
                    None => self.native_lang@,
                },
                generated_at@,
            ));
        }
        // source/<lang>.json
        let pairs = self.output_pairs_exec(lang);
        let mut rekeyed: Vec<(Vec<char>, Vec<char>)> = Vec::new();
        proof {
            assert(rekeyed.deep_view() =~~= rekeyed_pairs(pairs.deep_view()).take(0));
        }
        let mut j: usize = 0;
        while j < pairs.len()
            invariant
                j <= pairs@.len(),
                rekeyed.deep_view() == rekeyed_pairs(pairs.deep_view()).take(j as int),
            decreases pairs@.len() - j,
        {
            proof {
                assert(pairs.deep_view()[j as int] == (pairs@[j as int].0@, pairs@[j as int].1@));
                assert(rekeyed_pairs(pairs.deep_view())[j as int] == (
                    crate::hash_key::spec_hash_key(pairs.deep_view()[j as int].1),
                    pairs.deep_view()[j as int].1,
                ));
            }
            let vstr = chars_to_string(&pairs[j].1);
            let hk = crate::hash_key::hash_key_simple(vstr.as_str(), None);
            let hkc = crate::text::to_chars(hk.as_str());
            let ghost rk0 = rekeyed.deep_view();
            rekeyed.push((hkc, copy_chars(&pairs[j].1)));
            proof {
                assert(rekeyed.deep_view() =~~= rk0.push(rekeyed_pairs(pairs.deep_view())[j as int]));
                assert(rk0.push(rekeyed_pairs(pairs.deep_view())[j as int]) =~~= rekeyed_pairs(
                    pairs.deep_view(),
                ).take(j as int + 1));
            }
            j += 1;
        }
        proof {
            let rp = rekeyed_pairs(pairs.deep_view());
            assert(rp.take(rp.len() as int) =~~= rp);
        }
        let sj = json_of_pairs_exec(&rekeyed);
        DirectoryOutput {
            context_path,
            context_json: chars_to_string(&cj),
            source_path,
            source_json: chars_to_string(&sj),
        }
    }

    /// The structured-output files, stamped with the current UTC time. The
    /// timestamp depends on the clock; everything else is exactly what
    /// `output_to_directory_at` yields for it.
    pub fn output_to_directory(&self, output_dir: &str, lang: Option<&str>) -> (r: DirectoryOutput)
        requires
            self.obsoleted@.len() <= self.rows@.len(),
        ensures
            exists|ts: Seq<char>|
                #[trigger] dir_output_matches(
                    r,
                    self.deep_view(),
                    output_dir@,
                    target_of(lang, self.native_lang@),
                    ts,
                ),
    {
        let ts = current_timestamp();
        let r = self.output_to_directory_at(output_dir, lang, ts.as_str());
        proof {
            assert(dir_output_matches(
                r,
                self.deep_view(),
                output_dir@,
                target_of(lang, self.native_lang@),
                ts@,
            ));
        }
        r
    }
}

/// A fresh copy of a character vector.
fn copy_chars(v: &Vec<char>) -> (r: Vec<char>)
    ensures
        r@ == v@,
{
    let r = copy_range(v, 0, v.len());
    proof {
        assert(v@.subrange(0, v@.len() as int) =~= v@);
    }
    r
}


} // verus!
