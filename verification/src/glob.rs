//! A very small glob matcher for the toolchain prune rules.
//!
//! Only `*` is special, and it matches any sequence of characters **including
//! `/`**: the semantics Python's `fnmatch` gave the rules when they were worked
//! out, so the patterns mean exactly what they meant when they were validated.
//!
//! The matcher is the usual iterative one that remembers only the last `*`.
//! It is proved here to agree with the plain recursive definition of matching.
use crate::textops::chars_of;
use vstd::prelude::*;

verus! {

/// Does the pattern from position `i` match the text from position `j`?
/// A `*` matches nothing, or one more character and is tried again; any other
/// character matches itself.
pub open spec fn glob_from(p: Seq<char>, t: Seq<char>, i: int, j: int) -> bool
    decreases p.len() - i, t.len() - j,
{
    if i < 0 || j < 0 || i >= p.len() {
        j == t.len()
    } else if p[i] == '*' {
        glob_from(p, t, i + 1, j) || (j < t.len() && glob_from(p, t, i, j + 1))
    } else {
        j < t.len() && p[i] == t[j] && glob_from(p, t, i + 1, j + 1)
    }
}

/// Does the whole text match the whole pattern?
pub open spec fn glob(p: Seq<char>, t: Seq<char>) -> bool {
    glob_from(p, t, 0, 0)
}

/// A `*` absorbs any amount of the text: it matches from `j` exactly when
/// what follows it matches from some later position.
proof fn lemma_star(p: Seq<char>, t: Seq<char>, i: int, j: int)
    requires
        0 <= i < p.len(),
        p[i] == '*',
        0 <= j <= t.len(),
    ensures
        glob_from(p, t, i, j) == exists|k: int| j <= k <= t.len() && #[trigger] glob_from(p, t, i + 1, k),
    decreases t.len() - j,
{
    if glob_from(p, t, i + 1, j) {
        assert(j <= j <= t.len() && glob_from(p, t, i + 1, j));
    }
    if j < t.len() {
        lemma_star(p, t, i, j + 1);
        if glob_from(p, t, i, j + 1) {
            let k = choose|k: int| j + 1 <= k <= t.len() && #[trigger] glob_from(p, t, i + 1, k);
            assert(j <= k <= t.len() && glob_from(p, t, i + 1, k));
        }
        if exists|k: int| j <= k <= t.len() && #[trigger] glob_from(p, t, i + 1, k) {
            let k = choose|k: int| j <= k <= t.len() && #[trigger] glob_from(p, t, i + 1, k);
            if k > j {
                assert(j + 1 <= k <= t.len() && glob_from(p, t, i + 1, k));
            }
        }
    } else {
        if exists|k: int| j <= k <= t.len() && #[trigger] glob_from(p, t, i + 1, k) {
            let k = choose|k: int| j <= k <= t.len() && #[trigger] glob_from(p, t, i + 1, k);
            assert(k == j);
        }
    }
}

/// A run of pattern without `*` matches only the same characters of text.
proof fn lemma_literal(p: Seq<char>, t: Seq<char>, a: int, b: int, k: int)
    requires
        0 <= a <= b <= p.len(),
        forall|x: int| a <= x < b ==> p[x] != '*',
        0 <= k <= t.len(),
    ensures
        glob_from(p, t, a, k) ==> k + (b - a) <= t.len() && t.subrange(k, k + (b - a))
            == p.subrange(a, b) && glob_from(p, t, b, k + (b - a)),
        (k + (b - a) <= t.len() && t.subrange(k, k + (b - a)) == p.subrange(a, b)) ==> (
        glob_from(p, t, a, k) == glob_from(p, t, b, k + (b - a))),
    decreases b - a,
{
    if a < b {
        lemma_literal(p, t, a + 1, b, if k < t.len() {
            k + 1
        } else {
            k
        });
        if glob_from(p, t, a, k) {
            assert(t.subrange(k, k + (b - a)) =~= seq![t[k]] + t.subrange(k + 1, k + 1 + (b - a
                - 1)));
            assert(p.subrange(a, b) =~= seq![p[a]] + p.subrange(a + 1, b));
        }
        if k + (b - a) <= t.len() && t.subrange(k, k + (b - a)) == p.subrange(a, b) {
            assert(t.subrange(k, k + (b - a))[0] == p.subrange(a, b)[0]);
            assert(t.subrange(k + 1, k + 1 + (b - a - 1)) =~= t.subrange(k, k + (b - a)).skip(1));
            assert(p.subrange(a + 1, b) =~= p.subrange(a, b).skip(1));
        }
    } else {
        assert(t.subrange(k, k) =~= p.subrange(a, b));
    }
}

/// At the end of the text only stars can remain.
proof fn lemma_end(p: Seq<char>, t: Seq<char>, i: int)
    requires
        0 <= i <= p.len(),
    ensures
        glob_from(p, t, i, t.len() as int) == forall|x: int| i <= x < p.len() ==> p[x] == '*',
    decreases p.len() - i,
{
    if i < p.len() {
        lemma_end(p, t, i + 1);
    }
}

fn is_match(p: &[char], t: &[char]) -> (r: bool)
    ensures
        r == glob(p@, t@),
{
    let plen = p.len();
    let tlen = t.len();
    let mut pi: usize = 0;
    let mut ti: usize = 0;
    let mut star: usize = usize::MAX;
    let mut mark: usize = 0;
    while ti < tlen
        invariant
            plen == p@.len(),
            tlen == t@.len(),
            pi <= plen,
            mark <= ti <= tlen,
            star == usize::MAX ==> glob(p@, t@) == glob_from(p@, t@, pi as int, ti as int),
            star != usize::MAX ==> {
                &&& star < pi
                &&& p@[star as int] == '*'
                &&& forall|x: int| star < x < pi ==> p@[x] != '*'
                &&& ti - mark == pi - (star + 1)
                &&& t@.subrange(mark as int, ti as int) == p@.subrange(star + 1, pi as int)
                &&& glob(p@, t@) == exists|k: int|
                    mark <= k <= tlen && #[trigger] glob_from(p@, t@, star + 1, k)
            },
        decreases tlen - mark, (tlen - ti) + (plen - pi),
    {
        if pi < plen && p[pi] == '*' {
            proof {
                lemma_star(p@, t@, pi as int, ti as int);
                if star != usize::MAX {
                    let s1 = star + 1;
                    lemma_literal(p@, t@, s1 as int, pi as int, mark as int);
                    if exists|k: int| mark <= k <= tlen && #[trigger] glob_from(p@, t@, s1 as int, k) {
                        let k = choose|k: int| mark <= k <= tlen && #[trigger] glob_from(p@, t@, s1 as int, k);
                        lemma_literal(p@, t@, s1 as int, pi as int, k);
                        let k2 = k + (pi - s1);
                        lemma_star(p@, t@, pi as int, k2);
                        let k3 = choose|k3: int| k2 <= k3 <= tlen && #[trigger] glob_from(p@, t@, pi + 1, k3);
                        assert(ti <= k3 <= tlen && glob_from(p@, t@, pi + 1, k3));
                    }
                    if glob_from(p@, t@, pi as int, ti as int) {
                        assert(mark <= mark <= tlen && glob_from(p@, t@, s1 as int, mark as int));
                    }
                }
            }
            star = pi;
            mark = ti;
            pi += 1;
            assert(t@.subrange(mark as int, ti as int) =~= p@.subrange(star + 1, pi as int));
        } else if pi < plen && p[pi] == t[ti] {
            proof {
                if star != usize::MAX {
                    assert(t@.subrange(mark as int, ti + 1) =~= t@.subrange(mark as int, ti as int).push(t@[ti as int]));
                    assert(p@.subrange(star + 1, pi + 1) =~= p@.subrange(star + 1, pi as int).push(p@[pi as int]));
                }
            }
            pi += 1;
            ti += 1;
        } else if star != usize::MAX {
            proof {
                let s1 = star + 1;
                lemma_literal(p@, t@, s1 as int, pi as int, mark as int);
                assert(!glob_from(p@, t@, pi as int, ti as int));
                assert(!glob_from(p@, t@, s1 as int, mark as int));
                if exists|k: int| mark <= k <= tlen && #[trigger] glob_from(p@, t@, s1 as int, k) {
                    let k = choose|k: int| mark <= k <= tlen && #[trigger] glob_from(p@, t@, s1 as int, k);
                    assert(mark + 1 <= k);
                }
            }
            pi = star + 1;
            mark += 1;
            ti = mark;
            assert(t@.subrange(mark as int, ti as int) =~= p@.subrange(star + 1, pi as int));
        } else {
            return false;
        }
    }
    proof {
        if star != usize::MAX {
            let s1 = star + 1;
            lemma_literal(p@, t@, s1 as int, pi as int, mark as int);
            if exists|k: int| mark <= k <= tlen && #[trigger] glob_from(p@, t@, s1 as int, k) {
                let k = choose|k: int| mark <= k <= tlen && #[trigger] glob_from(p@, t@, s1 as int, k);
                lemma_literal(p@, t@, s1 as int, pi as int, k);
                assert(k == mark);
            }
            if glob_from(p@, t@, pi as int, ti as int) {
                assert(mark <= mark <= tlen && glob_from(p@, t@, s1 as int, mark as int));
            }
        }
        lemma_end(p@, t@, pi as int);
    }
    let start = pi;
    while pi < plen && p[pi] == '*'
        invariant
            start <= pi <= plen,
            plen == p@.len(),
            forall|x: int| start <= x < pi ==> p@[x] == '*',
        decreases plen - pi,
    {
        pi += 1;
    }
    pi == plen
}

/// Does `text` match `pattern`?
pub fn matches(pattern: &str, text: &str) -> (r: bool)
    ensures
        r == glob(pattern@, text@),
{
    let p = chars_of(pattern);
    let t = chars_of(text);
    is_match(p.as_slice(), t.as_slice())
}

} // verus!
