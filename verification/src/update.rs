//! Is there a newer release?
//!
//! Only when asked. The application contacts nothing on its own. The answer
//! comes from GitHub's `releases/latest` redirect: the version is in the URL it
//! lands on. Following the redirect is the application's part; reading the
//! version out of where it landed, and deciding, is here.
use crate::error::EfError;
use crate::textops::{
    chars_of, decimal, owned, parse_unsigned, parse_unsigned_exec, push_chars, push_str,
    slice_from, slice_range, string_from_chars,
};
use vstd::prelude::*;

verus! {

/// Where releases live. One constant, because the check, the download page and
/// the help text must all name the same repository.
pub const REPO: &'static str = "ltran1612/easy-gui-fortran77";

#[derive(Debug, Clone, PartialEq, Eq)]
pub enum Status {
    /// Nothing newer than what is running.
    UpToDate,
    /// A newer release exists.
    Available { version: String },
}

pub open spec fn releases_url() -> Seq<char> {
    "https://github.com/"@ + REPO@ + "/releases/latest"@
}

/// The page to send someone to, which is also where the installer is.
pub fn releases_page() -> (s: String)
    ensures
        s@ == releases_url(),
{
    let mut v: Vec<char> = Vec::new();
    push_str(&mut v, "https://github.com/");
    push_str(&mut v, REPO);
    push_str(&mut v, "/releases/latest");
    string_from_chars(v.as_slice())
}

/// `str::split('.')`, scanned: the pieces finished so far and the one still open.
pub open spec fn split_scan(s: Seq<char>) -> (Seq<Seq<char>>, Seq<char>)
    decreases s.len(),
{
    if s.len() == 0 {
        (Seq::empty(), Seq::empty())
    } else {
        let (done, cur) = split_scan(s.drop_last());
        if s.last() == '.' {
            (done.push(cur), Seq::empty())
        } else {
            (done, cur.push(s.last()))
        }
    }
}

/// `str::split('.')`: always at least one piece, possibly empty.
pub open spec fn split_dots(s: Seq<char>) -> Seq<Seq<char>> {
    let (done, cur) = split_scan(s);
    done.push(cur)
}

/// Each piece read as a `u64`, or `None` if any is not one.
pub open spec fn numbers(pieces: Seq<Seq<char>>) -> Option<Seq<u64>>
    decreases pieces.len(),
{
    if pieces.len() == 0 {
        Some(Seq::empty())
    } else {
        match (numbers(pieces.drop_last()), parse_unsigned(pieces.last(), u64::MAX as nat)) {
            (Some(ns), Some(n)) => Some(ns.push(n as u64)),
            _ => None,
        }
    }
}

/// One leading `v` dropped.
pub open spec fn without_v(s: Seq<char>) -> Seq<char> {
    if s.len() > 0 && s[0] == 'v' {
        s.drop_first()
    } else {
        s
    }
}

/// `1.2.3` as numbers, or `None` if it is not that shape.
pub open spec fn spec_parts(v: Seq<char>) -> Option<Seq<u64>> {
    let v = without_v(v);
    if v.len() == 0 {
        None
    } else {
        numbers(split_dots(v))
    }
}

/// `Vec<u64>`'s order: the first difference decides, and a prefix comes first.
pub open spec fn lex_greater(a: Seq<u64>, b: Seq<u64>) -> bool
    decreases a.len(),
{
    if a.len() == 0 {
        false
    } else if b.len() == 0 {
        true
    } else if a[0] != b[0] {
        a[0] > b[0]
    } else {
        lex_greater(a.drop_first(), b.drop_first())
    }
}

/// Is `candidate` a newer `x.y.z` than `current`? Anything that is not a
/// plain dotted number on either side answers `false`.
pub open spec fn spec_is_newer(candidate: Seq<char>, current: Seq<char>) -> bool {
    match (spec_parts(candidate), spec_parts(current)) {
        (Some(a), Some(b)) => lex_greater(a, b),
        _ => false,
    }
}

fn parts(v: &str) -> (r: Option<Vec<u64>>)
    ensures
        match spec_parts(v@) {
            Some(ns) => r matches Some(x) && x@ == ns,
            None => r is None,
        },
{
    let all = chars_of(v);
    let s: &[char] = if all.len() > 0 && all[0] == 'v' {
        slice_from(all.as_slice(), 1)
    } else {
        all.as_slice()
    };
    assert(s@ == without_v(v@));
    if s.len() == 0 {
        return None;
    }
    let mut out: Vec<u64> = Vec::new();
    let mut start: usize = 0;
    let mut i: usize = 0;
    while i < s.len()
        invariant
            start <= i <= s@.len(),
            s@ == without_v(v@),
            s@.len() > 0,
            split_scan(s@.take(i as int)).1 == s@.subrange(start as int, i as int),
            numbers(split_scan(s@.take(i as int)).0) == Some(out@),
        decreases s.len() - i,
    {
        assert(s@.take(i + 1).drop_last() =~= s@.take(i as int));
        if s[i] == '.' {
            let piece = slice_range(s, start, i);
            let ghost done = split_scan(s@.take(i as int)).0;
            match parse_unsigned_exec(piece, u64::MAX) {
                Some(n) => {
                    out.push(n);
                    assert(done.push(piece@).drop_last() =~= done);
                },
                None => {
                    proof {
                        assert(done.push(piece@).drop_last() =~= done);
                        assert(split_scan(s@.take(i + 1)).0 == done.push(piece@));
                        assert(parse_unsigned(piece@, u64::MAX as nat) is None);
                        assert(numbers(split_scan(s@.take(i + 1)).0) is None);
                        lemma_numbers_none(s@, i + 1);
                    }
                    return None;
                },
            }
            start = i + 1;
            assert(s@.subrange(start as int, i + 1) =~= Seq::<char>::empty());
        } else {
            assert(s@.subrange(start as int, i + 1) =~= s@.subrange(start as int, i as int).push(
                s@[i as int],
            ));
        }
        i += 1;
    }
    assert(s@.take(i as int) =~= s@);
    let last = slice_range(s, start, s.len());
    let ghost done = split_scan(s@).0;
    assert(split_dots(s@).drop_last() =~= done);
    match parse_unsigned_exec(last, u64::MAX) {
        Some(n) => {
            out.push(n);
            Some(out)
        },
        None => None,
    }
}

/// Once a finished piece fails to read, the whole fails.
proof fn lemma_numbers_none(s: Seq<char>, i: int)
    requires
        0 <= i <= s.len(),
        numbers(split_scan(s.take(i)).0) is None,
    ensures
        numbers(split_dots(s)) is None,
    decreases s.len() - i,
{
    if i < s.len() {
        assert(s.take(i + 1).drop_last() =~= s.take(i));
        let (done, cur) = split_scan(s.take(i));
        if s[i] == '.' {
            assert(done.push(cur).drop_last() =~= done);
        }
        lemma_numbers_none(s, i + 1);
    } else {
        assert(s.take(i) =~= s);
        assert(split_dots(s).drop_last() =~= split_scan(s).0);
    }
}

fn greater(a: &[u64], b: &[u64]) -> (r: bool)
    ensures
        r == lex_greater(a@, b@),
{
    let mut i: usize = 0;
    assert(a@.skip(0) =~= a@);
    assert(b@.skip(0) =~= b@);
    loop
        invariant
            i <= a@.len(),
            i <= b@.len(),
            lex_greater(a@, b@) == lex_greater(a@.skip(i as int), b@.skip(i as int)),
        decreases a.len() - i,
    {
        assert(a@.skip(i as int).len() == a@.len() - i);
        if i == a.len() {
            return false;
        }
        if i == b.len() {
            return true;
        }
        if a[i] != b[i] {
            assert(a@.skip(i as int)[0] == a@[i as int]);
            assert(b@.skip(i as int)[0] == b@[i as int]);
            return a[i] > b[i];
        }
        assert(a@.skip(i as int).drop_first() =~= a@.skip(i + 1));
        assert(b@.skip(i as int).drop_first() =~= b@.skip(i + 1));
        i += 1;
    }
}

/// Is `candidate` a newer `x.y.z` than `current`? Numeric per component, so
/// 0.10.0 is newer than 0.9.0, which a string compare gets backwards.
pub fn is_newer(candidate: &str, current: &str) -> (r: bool)
    ensures
        r == spec_is_newer(candidate@, current@),
{
    match (parts(candidate), parts(current)) {
        (Some(a), Some(b)) => greater(a.as_slice(), b.as_slice()),
        _ => false,
    }
}

/// The last segment of a URL, trailing slashes ignored.
pub open spec fn last_segment(url: Seq<char>) -> Seq<char> {
    let u = url.take(url.len() - crate::textops::char_suffix_len(url, '/'));
    u.skip(last_slash(u, u.len() as int) + 1)
}

pub open spec fn last_slash(s: Seq<char>, k: int) -> int
    decreases k,
{
    if k <= 0 {
        -1
    } else if s[k - 1] == '/' {
        k - 1
    } else {
        last_slash(s, k - 1)
    }
}

/// The version a release URL names, if it names one.
pub open spec fn spec_tag_from_url(url: Seq<char>) -> Option<Seq<char>> {
    let v = without_v(last_segment(url));
    if spec_parts(v) is Some {
        Some(v)
    } else {
        None
    }
}

/// Pull `1.2.3` out of `https://…/releases/tag/v1.2.3`. A redirect to the
/// releases index must not be read as a release called "latest".
pub fn tag_from_url(url: &str) -> (r: Option<String>)
    ensures
        match spec_tag_from_url(url@) {
            Some(v) => r matches Some(s) && s@ == v,
            None => r is None,
        },
{
    let c = chars_of(url);
    let mut end: usize = c.len();
    while end > 0 && c[end - 1] == '/'
        invariant
            end <= c@.len(),
            forall|k: int| end <= k < c@.len() ==> #[trigger] c@[k] == '/',
            end == 0 || c@[end - 1] != '/' || true,
        decreases end,
    {
        end -= 1;
    }
    proof {
        crate::textops::lemma_char_suffix_len(c@, '/', end as int);
    }
    let u = slice_range(c.as_slice(), 0, end);
    let mut k: usize = end;
    while k > 0 && u[k - 1] != '/'
        invariant
            k <= u@.len(),
            last_slash(u@, u@.len() as int) == last_slash(u@, k as int),
        decreases k,
    {
        k -= 1;
    }
    let tail = slice_from(u, k);
    let v: &[char] = if tail.len() > 0 && tail[0] == 'v' {
        slice_from(tail, 1)
    } else {
        tail
    };
    let vs = string_from_chars(v);
    if parts(vs.as_str()).is_some() {
        Some(vs)
    } else {
        None
    }
}

/// What the check concludes, from where GitHub's redirect landed (or why it
/// could not be followed) and the version that is running.
pub fn check(current: &str, landed: Result<String, String>) -> (r: Result<Status, EfError>)
    ensures
        match landed {
            Err(e) => r matches Err(EfError::Other(m)) && m@ == "could not reach GitHub: "@ + e@,
            Ok(url) => match spec_tag_from_url(url@) {
                None => r matches Err(EfError::Other(m)) && m@ == "could not read a version from "@
                    + url@,
                Some(latest) => if spec_is_newer(latest, current@) {
                    r matches Ok(Status::Available { version }) && version@ == latest
                } else {
                    r == Ok::<Status, EfError>(Status::UpToDate)
                },
            },
        },
{
    let url = match landed {
        Err(e) => {
            let mut m: Vec<char> = Vec::new();
            push_str(&mut m, "could not reach GitHub: ");
            push_str(&mut m, e.as_str());
            return Err(EfError::Other(string_from_chars(m.as_slice())));
        },
        Ok(u) => u,
    };
    let latest = match tag_from_url(url.as_str()) {
        Some(v) => v,
        None => {
            let mut m: Vec<char> = Vec::new();
            push_str(&mut m, "could not read a version from ");
            push_str(&mut m, url.as_str());
            return Err(EfError::Other(string_from_chars(m.as_slice())));
        },
    };
    if is_newer(latest.as_str(), current) {
        Ok(Status::Available { version: latest })
    } else {
        Ok(Status::UpToDate)
    }
}

// ------------------------------------------------------------ laws

/// A version is never newer than itself.
pub proof fn law_not_newer_than_itself(v: Seq<char>)
    ensures
        !spec_is_newer(v, v),
{
    if let Some(a) = spec_parts(v) {
        lemma_lex_irreflexive(a);
    }
}

/// Of two versions at most one is newer than the other.
pub proof fn law_newer_is_asymmetric(a: Seq<char>, b: Seq<char>)
    ensures
        !(spec_is_newer(a, b) && spec_is_newer(b, a)),
{
    if let (Some(x), Some(y)) = (spec_parts(a), spec_parts(b)) {
        lemma_lex_asymmetric(x, y);
    }
}

/// Newer than something newer is newer still.
pub proof fn law_newer_is_transitive(a: Seq<char>, b: Seq<char>, c: Seq<char>)
    requires
        spec_is_newer(a, b),
        spec_is_newer(b, c),
    ensures
        spec_is_newer(a, c),
{
    lemma_lex_transitive(spec_parts(a).unwrap(), spec_parts(b).unwrap(), spec_parts(c).unwrap());
}

/// A leading `v` is not a difference.
pub proof fn law_leading_v_is_ignored(v: Seq<char>)
    requires
        v.len() == 0 || v[0] != 'v',
    ensures
        spec_parts(seq!['v'] + v) == spec_parts(v),
{
    assert((seq!['v'] + v).drop_first() =~= v);
}

proof fn lemma_lex_irreflexive(a: Seq<u64>)
    ensures
        !lex_greater(a, a),
    decreases a.len(),
{
    if a.len() > 0 {
        lemma_lex_irreflexive(a.drop_first());
    }
}

proof fn lemma_lex_asymmetric(a: Seq<u64>, b: Seq<u64>)
    ensures
        !(lex_greater(a, b) && lex_greater(b, a)),
    decreases a.len(),
{
    if a.len() > 0 && b.len() > 0 && a[0] == b[0] {
        lemma_lex_asymmetric(a.drop_first(), b.drop_first());
    }
}

proof fn lemma_lex_transitive(a: Seq<u64>, b: Seq<u64>, c: Seq<u64>)
    requires
        lex_greater(a, b),
        lex_greater(b, c),
    ensures
        lex_greater(a, c),
    decreases a.len(),
{
    if a.len() > 0 && b.len() > 0 && c.len() > 0 && a[0] == b[0] && b[0] == c[0] {
        lemma_lex_transitive(a.drop_first(), b.drop_first(), c.drop_first());
    }
}

} // verus!
