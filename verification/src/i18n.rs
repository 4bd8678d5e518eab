//! Two languages and a few hundred strings do not earn Fluent's machinery.
//! Flat dotted keys, `{name}` interpolation, parsed once per language.
//!
//! The catalogs are TOML tables of strings. They are read by the application
//! and handed to `Catalogs::parse`; everything after that is here and proved.
use crate::textops::{
    replace_all, replace_from, chars_eq, chars_of, lower_chars, lower_seq, owned, push_chars, push_str, slice_range,
    starts_with, string_from_chars,
};
use vstd::prelude::*;

verus! {

#[derive(Debug, Clone, Copy, PartialEq, Eq, Hash, Structural)]
pub enum Lang {
    Vi,
    En,
}

impl Default for Lang {
    /// The user should never open the application and find it in English.
    fn default() -> (l: Lang)
        ensures
            l == Lang::Vi,
    {
        Lang::Vi
    }
}

impl Lang {
    pub fn code(self) -> (s: &'static str)
        ensures
            s@ == (match self {
                Lang::Vi => "vi"@,
                Lang::En => "en"@,
            }),
    {
        match self {
            Lang::Vi => "vi",
            Lang::En => "en",
        }
    }

    pub fn label(self) -> (s: &'static str)
        ensures
            s@ == (match self {
                Lang::Vi => "Tiếng Việt"@,
                Lang::En => "English"@,
            }),
    {
        match self {
            Lang::Vi => "Tiếng Việt",
            Lang::En => "English",
        }
    }

    pub fn all() -> (r: [Lang; 2])
        ensures
            r@ == seq![Lang::Vi, Lang::En],
    {
        [Lang::Vi, Lang::En]
    }

    /// Follow the OS locale, falling back to Vietnamese.
    pub fn from_locale(locale: Option<&str>) -> (l: Lang)
        ensures
            l == (if locale is Some && starts_with(lower_seq(locale.unwrap()@), "en"@) {
                Lang::En
            } else {
                Lang::Vi
            }),
    {
        match locale {
            Some(s) => {
                let low = lower_chars(chars_of(s).as_slice());
                let en = chars_of("en");
                proof {
                    reveal_strlit("en");
                }
                if low.len() >= 2 && low[0] == 'e' && low[1] == 'n' {
                    assert(low@.take(2) =~= "en"@);
                    Lang::En
                } else {
                    proof {
                        if starts_with(low@, en@) {
                            assert(low@[0] == low@.take(2)[0]);
                            assert(low@[1] == low@.take(2)[1]);
                        }
                    }
                    Lang::Vi
                }
            },
            None => Lang::Vi,
        }
    }
}

pub open spec fn entry_views(v: Seq<(String, String)>) -> Seq<(Seq<char>, Seq<char>)> {
    v.map_values(|e: (String, String)| (e.0@, e.1@))
}

pub open spec fn keys_distinct(c: Seq<(Seq<char>, Seq<char>)>) -> bool {
    forall|i: int, j: int| 0 <= i < j < c.len() ==> #[trigger] c[i].0 != #[trigger] c[j].0
}

/// `a` comes before `b` in the order of their characters' code points, a
/// proper prefix first: the order of their UTF-8 bytes, which is how `String`
/// orders.
pub open spec fn text_before(a: Seq<char>, b: Seq<char>) -> bool {
    exists|k: int|
        0 <= k <= a.len() && k <= b.len() && #[trigger] a.take(k) == b.take(k) && ((k == a.len()
            && k < b.len()) || (k < a.len() && k < b.len() && (a[k] as u32) < (b[k] as u32)))
}

/// The keys come in ascending order.
pub open spec fn keys_ascending(c: Seq<(Seq<char>, Seq<char>)>) -> bool {
    forall|i: int, j: int| 0 <= i < j < c.len() ==> text_before(#[trigger] c[i].0, #[trigger] c[j].0)
}

/// What `toml::from_str::<BTreeMap<String, String>>` makes of a catalog's text:
/// its entries in key order, or nothing when the text is not such a table.
pub uninterp spec fn toml_string_table(src: Seq<char>) -> Option<Seq<(Seq<char>, Seq<char>)>>;

/// `toml::from_str` into a map from strings to strings, its entries taken in
/// the map's order. The result depends on the text alone and is named; a map
/// holds each key once, and a `BTreeMap` gives its entries sorted by key,
/// `String`s being ordered by their bytes.
#[verifier::external_body]
fn parse_string_table(src: &str) -> (r: Option<Vec<(String, String)>>)
    ensures
        match r {
            Some(v) => toml_string_table(src@) == Some(entry_views(v@)) && keys_distinct(
                entry_views(v@),
            ) && keys_ascending(entry_views(v@)),
            None => toml_string_table(src@) is None,
        },
{
    toml::from_str::<std::collections::BTreeMap<String, String>>(src).ok().map(
        |m| m.into_iter().collect(),
    )
}

/// One language's strings.
pub struct Catalog {
    entries: Vec<(String, String)>,
}

impl View for Catalog {
    type V = Seq<(Seq<char>, Seq<char>)>;

    closed spec fn view(&self) -> Seq<(Seq<char>, Seq<char>)> {
        entry_views(self.entries@)
    }
}

impl Catalog {
    /// A catalog holds each key once, in ascending order.
    #[verifier::type_invariant]
    spec fn keys_in_order(self) -> bool {
        keys_distinct(entry_views(self.entries@)) && keys_ascending(entry_views(self.entries@))
    }

    pub fn empty() -> (c: Catalog)
        ensures
            c@ == Seq::<(Seq<char>, Seq<char>)>::empty(),
    {
        let c = Catalog { entries: Vec::new() };
        assert(c@ =~= Seq::<(Seq<char>, Seq<char>)>::empty());
        c
    }

    /// A catalog from its TOML text.
    pub fn parse(src: &str) -> (r: Option<Catalog>)
        ensures
            match r {
                Some(c) => toml_string_table(src@) == Some(c@) && keys_distinct(c@) && keys_ascending(
                    c@,
                ),
                None => toml_string_table(src@) is None,
            },
    {
        match parse_string_table(src) {
            Some(v) => Some(Catalog { entries: v }),
            None => None,
        }
    }
}

pub struct Catalogs {
    pub vi: Catalog,
    pub en: Catalog,
}

impl Catalogs {
    pub open spec fn of(&self, lang: Lang) -> Seq<(Seq<char>, Seq<char>)> {
        match lang {
            Lang::Vi => self.vi@,
            Lang::En => self.en@,
        }
    }

    fn get(&self, lang: Lang) -> (c: &Catalog)
        ensures
            c@ == self.of(lang),
    {
        match lang {
            Lang::Vi => &self.vi,
            Lang::En => &self.en,
        }
    }
}

/// The first entry at or after `k` whose key is `key`.
pub open spec fn find_key(c: Seq<(Seq<char>, Seq<char>)>, key: Seq<char>, k: int) -> Option<
    Seq<char>,
>
    decreases c.len() - k,
{
    if k < 0 || k >= c.len() {
        None
    } else if c[k].0 == key {
        Some(c[k].1)
    } else {
        find_key(c, key, k + 1)
    }
}

/// A key's text: in the language asked for, else in English, else the key
/// itself, which is ugly on screen and therefore easy to notice.
pub open spec fn spec_lookup(cats: Catalogs, lang: Lang, key: Seq<char>) -> Seq<char> {
    match find_key(cats.of(lang), key, 0) {
        Some(v) => v,
        None => if lang != Lang::En {
            match find_key(cats.en@, key, 0) {
                Some(v) => v,
                None => key,
            }
        } else {
            key
        },
    }
}

fn get_key(c: &Catalog, key: &str) -> (r: Option<String>)
    ensures
        match r {
            Some(v) => find_key(c@, key@, 0) == Some(v@),
            None => find_key(c@, key@, 0) is None,
        },
{
    let kc = chars_of(key);
    for i in 0..c.entries.len()
        invariant
            kc@ == key@,
            find_key(c@, key@, 0) == find_key(c@, key@, i as int),
    {
        let ec = chars_of(c.entries[i].0.as_str());
        if chars_eq(ec.as_slice(), kc.as_slice()) {
            return Some(c.entries[i].1.clone());
        }
    }
    None
}

/// Look a key up.
pub fn lookup(cats: &Catalogs, lang: Lang, key: &str) -> (s: String)
    ensures
        s@ == spec_lookup(*cats, lang, key@),
{
    if let Some(v) = get_key(cats.get(lang), key) {
        return v;
    }
    if lang != Lang::En {
        if let Some(v) = get_key(&cats.en, key) {
            return v;
        }
    }
    owned(key)
}

/// `{name}`.
pub open spec fn placeholder(name: Seq<char>) -> Seq<char> {
    "{"@ + name + "}"@
}

/// The text with each named argument substituted, in the order given.
pub open spec fn substitute(s: Seq<char>, args: Seq<(&str, &str)>) -> Seq<char>
    decreases args.len(),
{
    if args.len() == 0 {
        s
    } else {
        let prev = substitute(s, args.drop_last());
        replace_from(prev, placeholder(args.last().0@), args.last().1@, 0)
    }
}

/// A key's text with `{name}` placeholders filled in.
pub fn format(cats: &Catalogs, lang: Lang, key: &str, args: &[(&str, &str)]) -> (s: String)
    ensures
        s@ == substitute(spec_lookup(*cats, lang, key@), args@),
{
    let base = lookup(cats, lang, key);
    let mut cur = chars_of(base.as_str());
    for i in 0..args.len()
        invariant
            cur@ == substitute(base@, args@.take(i as int)),
    {
        let (name, value) = args[i];
        let mut pat: Vec<char> = Vec::new();
        push_str(&mut pat, "{");
        push_str(&mut pat, name);
        push_str(&mut pat, "}");
        proof {
            reveal_strlit("{");
        }
        let v = chars_of(value);
        cur = replace_all(cur.as_slice(), pat.as_slice(), v.as_slice());
        assert(args@.take(i + 1).drop_last() =~= args@.take(i as int));
    }
    assert(args@.take(args@.len() as int) =~= args@);
    string_from_chars(cur.as_slice())
}

/// Every key of a language's catalog, in the catalog's order.
pub fn keys(cats: &Catalogs, lang: Lang) -> (v: Vec<String>)
    ensures
        v@.len() == cats.of(lang).len(),
        forall|i: int| 0 <= i < v@.len() ==> #[trigger] v@[i]@ == cats.of(lang)[i].0,
        forall|i: int, j: int|
            0 <= i < j < v@.len() ==> #[trigger] v@[i]@ != #[trigger] v@[j]@ && text_before(
                v@[i]@,
                v@[j]@,
            ),
{
    let c = cats.get(lang);
    proof {
        use_type_invariant(c);
    }
    let mut v: Vec<String> = Vec::new();
    for i in 0..c.entries.len()
        invariant
            v@.len() == i,
            c@ == cats.of(lang),
            forall|j: int| 0 <= j < i ==> #[trigger] v@[j]@ == c@[j].0,
    {
        v.push(c.entries[i].0.clone());
    }
    v
}

} // verus!
