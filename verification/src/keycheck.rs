//! Translation keys named in source text, and the catalogs that must hold them.
//!
//! A lookup of a key that no catalog has falls back to showing the key itself,
//! silently. So every key the code names literally is checked against both
//! catalogs. Comments are blanked first: a doc comment that spells out a call
//! names no real key.
use crate::hygiene::{count_of, vviews, Violation};
use crate::textops::{
    chars_eq, chars_of, find_from, lemma_find_from, slice_from, slice_range, string_from_chars,
    trim_start, trim_start_index, views,
};
use vstd::prelude::*;

verus! {

// ------------------------------------------------------------ comments

/// A `//` begins at `i`.
pub open spec fn opens_comment(s: Seq<char>, i: int) -> bool {
    0 <= i && i + 1 < s.len() && s[i] == '/' && s[i + 1] == '/'
}

/// Position `i` lies in a `//` comment: one opened here, or one that was open
/// on the previous position of the same line.
pub open spec fn in_comment(s: Seq<char>, i: int) -> bool
    decreases i,
{
    if i < 0 || i >= s.len() {
        false
    } else {
        opens_comment(s, i) || (i > 0 && s[i - 1] != '\n' && in_comment(s, i - 1))
    }
}

/// The text with every character of a `//` comment turned into a space, the
/// line breaks kept: every position keeps its place.
pub open spec fn spec_blank_comments(s: Seq<char>) -> Seq<char> {
    Seq::new(s.len(), |i: int| if in_comment(s, i) && s[i] != '\n' { ' ' } else { s[i] })
}

/// Blank out `//` comments, keeping every position and line break in place.
pub fn blank_comments(text: &str) -> (r: String)
    ensures
        r@ == spec_blank_comments(text@),
{
    let s = chars_of(text);
    let n = s.len();
    let mut out: Vec<char> = Vec::new();
    let mut inside = false;
    for i in 0..n
        invariant
            n == s@.len(),
            s@ == text@,
            out@.len() == i,
            forall|k: int| 0 <= k < i ==> out@[k] == #[trigger] spec_blank_comments(s@)[k],
            i > 0 ==> inside == in_comment(s@, i - 1),
    {
        let opens = i + 1 < n && s[i] == '/' && s[i + 1] == '/';
        inside = opens || (i > 0 && s[i - 1] != '\n' && inside);
        assert(inside == in_comment(s@, i as int));
        out.push(if inside && s[i] != '\n' { ' ' } else { s[i] });
    }
    assert(out@ =~= spec_blank_comments(s@));
    string_from_chars(out.as_slice())
}

// ------------------------------------------------------------ literal keys

/// The calls whose second argument names a key.
pub open spec fn openers() -> Seq<Seq<char>> {
    seq!["tr!("@, "i18n::lookup("@, "i18n::format("@]
}

/// The key of a call whose opener ends at `start`: after the next comma and
/// any whitespace, a string literal up to its closing quote. With it, the
/// position just after the comma.
pub open spec fn key_after(s: Seq<char>, start: int) -> Option<(int, Seq<char>)> {
    match find_from(s, seq![','], start) {
        None => None,
        Some(c) => {
            let rest = trim_start(s.subrange(c + 1, s.len() as int));
            if rest.len() > 0 && rest[0] == '"' {
                let body = rest.subrange(1, rest.len() as int);
                match find_from(body, seq!['"'], 0) {
                    Some(e) => Some((c + 1, body.subrange(0, e))),
                    None => None,
                }
            } else {
                None
            }
        },
    }
}

/// Every literal key of the calls that `op` opens, from position `from` on.
/// A call whose second argument is not a literal yields nothing.
pub open spec fn keys_from(s: Seq<char>, op: Seq<char>, from: int) -> Seq<(int, Seq<char>)>
    decreases s.len() + 1 - from,
{
    if op.len() == 0 || from < 0 {
        Seq::empty()
    } else {
        match find_from(s, op, from) {
            None => Seq::empty(),
            Some(at) => {
                proof {
                    lemma_find_from(s, op, from);
                }
                let later = keys_from(s, op, at + op.len());
                match key_after(s, at + op.len()) {
                    Some(k) => seq![k] + later,
                    None => later,
                }
            },
        }
    }
}

/// All literal keys of a text, call by call for each opener in turn.
pub open spec fn spec_literal_keys(s: Seq<char>) -> Seq<(int, Seq<char>)> {
    keys_from(s, openers()[0], 0) + keys_from(s, openers()[1], 0) + keys_from(s, openers()[2], 0)
}

pub open spec fn key_views(v: Seq<(usize, String)>) -> Seq<(int, Seq<char>)> {
    v.map_values(|k: (usize, String)| (k.0 as int, k.1@))
}

/// The first place at or after `from` where `p` occurs.
fn find_at(s: &[char], p: &[char], from: usize) -> (r: Option<usize>)
    requires
        from <= s@.len(),
    ensures
        match r {
            Some(i) => find_from(s@, p@, from as int) == Some(i as int) && i + p@.len() <= s@.len(),
            None => find_from(s@, p@, from as int) is None,
        },
{
    if p.len() > s.len() - from {
        return None;
    }
    let last = s.len() - p.len();
    let total = s.len();
    let mut i: usize = from;
    loop
        invariant
            from <= i <= last,
            total == s@.len(),
            last + p@.len() == s@.len(),
            find_from(s@, p@, from as int) == find_from(s@, p@, i as int),
        decreases last - i,
    {
        if chars_eq(slice_range(s, i, i + p.len()), p) {
            return Some(i);
        }
        if i == last {
            assert(find_from(s@, p@, i + 1) is None);
            return None;
        }
        i += 1;
    }
}

/// `key_after`, computed.
fn key_at(s: &[char], start: usize) -> (r: Option<(usize, String)>)
    requires
        start <= s@.len(),
    ensures
        match r {
            Some(k) => key_after(s@, start as int) == Some((k.0 as int, k.1@)) && k.0 < s@.len(),
            None => key_after(s@, start as int) is None,
        },
{
    let comma = vec![','];
    let quote = vec!['"'];
    assert(comma@ =~= seq![',']);
    assert(quote@ =~= seq!['"']);
    let total = s.len();
    let c = match find_at(s, comma.as_slice(), start) {
        Some(c) => c,
        None => return None,
    };
    let after = c + 1;
    let tail = slice_from(s, after);
    let t0 = trim_start_index(tail);
    let rest = slice_from(tail, t0);
    assert(tail@ =~= s@.subrange(after as int, s@.len() as int));
    assert(rest@ == trim_start(tail@));
    if rest.len() > 0 && rest[0] == '"' {
        let body = slice_from(rest, 1);
        assert(body@ =~= rest@.subrange(1, rest@.len() as int));
        match find_at(body, quote.as_slice(), 0) {
            Some(e) => {
                let key = string_from_chars(slice_range(body, 0, e));
                Some((after, key))
            },
            None => None,
        }
    } else {
        None
    }
}

/// Append the keys of the calls `op` opens.
fn keys_with(s: &[char], op: &str, out: &mut Vec<(usize, String)>)
    requires
        op@.len() > 0,
        forall|i: int| 0 <= i < old(out)@.len() ==> (#[trigger] old(out)@[i]).0 < s@.len(),
    ensures
        key_views(final(out)@) == key_views(old(out)@) + keys_from(s@, op@, 0),
        forall|i: int| 0 <= i < final(out)@.len() ==> (#[trigger] final(out)@[i]).0 < s@.len(),
{
    let opc = chars_of(op);
    let ghost start = key_views(out@);
    let total = s.len();
    let mut from: usize = 0;
    loop
        invariant
            total == s@.len(),
            start == key_views(old(out)@),
            opc@ == op@,
            op@.len() > 0,
            from <= s@.len(),
            key_views(out@) + keys_from(s@, op@, from as int) == start + keys_from(s@, op@, 0),
            forall|i: int| 0 <= i < out@.len() ==> (#[trigger] out@[i]).0 < s@.len(),
        decreases s@.len() - from,
    {
        match find_at(s, opc.as_slice(), from) {
            None => {
                assert(keys_from(s@, op@, from as int) =~= Seq::<(int, Seq<char>)>::empty());
                assert(key_views(out@) =~= start + keys_from(s@, op@, 0));
                return;
            },
            Some(at) => {
                proof {
                    lemma_find_from(s@, op@, from as int);
                }
                let next = at + opc.len();
                let ghost before = key_views(out@);
                match key_at(s, next) {
                    Some(k) => {
                        out.push(k);
                        assert(key_views(out@) =~= before.push((k.0 as int, k.1@)));
                        assert(keys_from(s@, op@, from as int) =~= seq![(k.0 as int, k.1@)]
                            + keys_from(s@, op@, next as int));
                    },
                    None => {},
                }
                from = next;
            },
        }
    }
}

/// The literal keys that `tr!(lang, "k")`, `i18n::lookup(lang, "k")` and
/// `i18n::format(lang, "k", ..)` name anywhere in a text, each with the
/// character position just after the call's first comma. A call whose second
/// argument is not a literal names nothing here.
pub fn literal_keys_in(text: &str) -> (r: Vec<(usize, String)>)
    ensures
        key_views(r@) == spec_literal_keys(text@),
        forall|i: int| 0 <= i < r@.len() ==> (#[trigger] r@[i]).0 < text@.len(),
{
    let s = chars_of(text);
    let mut out: Vec<(usize, String)> = Vec::new();
    proof {
        reveal_strlit("tr!(");
        reveal_strlit("i18n::lookup(");
        reveal_strlit("i18n::format(");
    }
    assert(key_views(out@) =~= Seq::<(int, Seq<char>)>::empty());
    keys_with(s.as_slice(), "tr!(", &mut out);
    keys_with(s.as_slice(), "i18n::lookup(", &mut out);
    keys_with(s.as_slice(), "i18n::format(", &mut out);
    assert(key_views(out@) =~= spec_literal_keys(text@));
    out
}

// ------------------------------------------------------------ catalogs

pub open spec fn rule_missing_vi() -> Seq<char> {
    "translation key is missing from vi.toml"@
}

pub open spec fn rule_missing_en() -> Seq<char> {
    "translation key is missing from en.toml"@
}

/// What a violation quotes of a key.
pub open spec fn key_text(k: Seq<char>) -> Seq<char> {
    "key `"@ + k + "`"@
}

/// The line a position falls on, counting from one.
pub open spec fn line_at(s: Seq<char>, off: int) -> nat {
    count_of(s.take(off), '\n') + 1
}

/// The violations one key gives: one for each catalog that lacks it.
pub open spec fn key_violation(
    s: Seq<char>,
    k: (int, Seq<char>),
    vi: Seq<Seq<char>>,
    en: Seq<Seq<char>>,
) -> Seq<(nat, Seq<char>, Seq<char>)> {
    (if vi.contains(k.1) {
        Seq::empty()
    } else {
        seq![(line_at(s, k.0), key_text(k.1), rule_missing_vi())]
    }) + (if en.contains(k.1) {
        Seq::empty()
    } else {
        seq![(line_at(s, k.0), key_text(k.1), rule_missing_en())]
    })
}

pub open spec fn key_violations(
    s: Seq<char>,
    keys: Seq<(int, Seq<char>)>,
    vi: Seq<Seq<char>>,
    en: Seq<Seq<char>>,
) -> Seq<(nat, Seq<char>, Seq<char>)>
    decreases keys.len(),
{
    if keys.len() == 0 {
        Seq::empty()
    } else {
        key_violations(s, keys.drop_last(), vi, en) + key_violation(s, keys.last(), vi, en)
    }
}

/// What one source file breaks of the key rule: its text with comments
/// blanked, its literal keys in order, each checked against `vi` then `en`.
pub open spec fn spec_missing_keys(text: Seq<char>, vi: Seq<Seq<char>>, en: Seq<Seq<char>>) -> Seq<(nat, Seq<char>, Seq<char>)> {
    let b = spec_blank_comments(text);
    key_violations(b, spec_literal_keys(b), vi, en)
}

fn key_message(k: &String) -> (r: String)
    ensures
        r@ == key_text(k@),
{
    let mut v = chars_of("key `");
    crate::textops::push_str(&mut v, k.as_str());
    crate::textops::push_str(&mut v, "`");
    proof {
        reveal_strlit("key `");
        reveal_strlit("`");
    }
    let r = string_from_chars(v.as_slice());
    assert(r@ =~= key_text(k@));
    r
}

fn count_newlines(s: &[char], off: usize) -> (r: usize)
    requires
        off < s@.len(),
    ensures
        r as nat == line_at(s@, off as int),
{
    let total = s.len();
    let mut n: usize = 0;
    for i in 0..off
        invariant
            total == s@.len(),
            off < s@.len(),
            n as nat == count_of(s@.take(i as int), '\n'),
            n <= i,
    {
        assert(s@.take(i + 1).drop_last() =~= s@.take(i as int));
        if s[i] == '\n' {
            n += 1;
        }
    }
    n + 1
}

/// For one source file, each literal key it names that the `vi` or the `en`
/// catalog lacks: `vi` is checked before `en`, keys in the order
/// `literal_keys_in` finds them, comments blanked first. `rel` is the file's
/// path as reported.
pub fn missing_keys(rel: &str, text: &str, vi: &Vec<String>, en: &Vec<String>) -> (v: Vec<Violation>)
    ensures
        vviews(v@) == spec_missing_keys(text@, views(vi@), views(en@)),
        forall|i: int| 0 <= i < v@.len() ==> (#[trigger] v@[i]).file@ == rel@,
{
    let blanked = blank_comments(text);
    let b = chars_of(blanked.as_str());
    let keys = literal_keys_in(blanked.as_str());
    let mut out: Vec<Violation> = Vec::new();
    proof {
        reveal_strlit("translation key is missing from vi.toml");
        reveal_strlit("translation key is missing from en.toml");
    }
    for i in 0..keys.len()
        invariant
            b@ == blanked@,
            key_views(keys@) == spec_literal_keys(b@),
            forall|j: int| 0 <= j < keys@.len() ==> (#[trigger] keys@[j]).0 < b@.len(),
            vviews(out@) == key_violations(b@, key_views(keys@).take(i as int), views(vi@), views(en@)),
            forall|j: int| 0 <= j < out@.len() ==> (#[trigger] out@[j]).file@ == rel@,
    {
        let ghost before = vviews(out@);
        let off = keys[i].0;
        let key = &keys[i].1;
        let line = count_newlines(b.as_slice(), off);
        assert(key_views(keys@)[i as int] == (off as int, key@));
        assert(key_views(keys@).take(i + 1).drop_last() =~= key_views(keys@).take(i as int));
        if !crate::textops::contains_string(vi, key) {
            out.push(Violation { file: rel.to_string(), line, text: key_message(key), rule: "translation key is missing from vi.toml" });
        }
        if !crate::textops::contains_string(en, key) {
            out.push(Violation { file: rel.to_string(), line, text: key_message(key), rule: "translation key is missing from en.toml" });
        }
        assert(vviews(out@) =~= before + key_violation(b@, (off as int, key@), views(vi@), views(en@)));
    }
    assert(key_views(keys@).take(keys@.len() as int) =~= key_views(keys@));
    out
}

/// The keys of `cat` that `refs` does not hold, in `cat`'s order.
pub open spec fn unreferenced(cat: Seq<Seq<char>>, refs: Seq<Seq<char>>) -> Seq<Seq<char>>
    decreases cat.len(),
{
    if cat.len() == 0 {
        Seq::empty()
    } else {
        let sub = unreferenced(cat.drop_last(), refs);
        if refs.contains(cat.last()) {
            sub
        } else {
            sub.push(cat.last())
        }
    }
}

/// The catalog's keys that no file names literally, in the catalog's order.
/// Such a key may still be chosen at run time, so this is a note, not a rule.
pub fn unused_keys(catalog: &Vec<String>, referenced: &Vec<String>) -> (r: Vec<String>)
    ensures
        views(r@) == unreferenced(views(catalog@), views(referenced@)),
{
    let mut out: Vec<String> = Vec::new();
    for i in 0..catalog.len()
        invariant
            views(out@) == unreferenced(views(catalog@).take(i as int), views(referenced@)),
    {
        assert(views(catalog@).take(i + 1).drop_last() =~= views(catalog@).take(i as int));
        assert(views(catalog@).take(i + 1).last() == catalog@[i as int]@);
        if !crate::textops::contains_string(referenced, &catalog[i]) {
            let ghost before = out@;
            let k = catalog[i].clone();
            out.push(k);
            proof {
                crate::textops::lemma_views_push(before, k);
            }
        }
    }
    assert(views(catalog@).take(catalog@.len() as int) =~= views(catalog@));
    out
}

} // verus!
