//! Paths as text, with the meaning `std::path` gives them on a Unix system.
//!
//! A path is a `String` here. Its components are the runs between `/`
//! separators; empty runs and `.` runs are normalised away, except a `.` at the
//! very start. The file name is the last component, unless that is `..`.
use crate::textops::{chars_eq, chars_of, push_chars, push_str, slice_range, string_from_chars};
use vstd::prelude::*;

verus! {

/// Where the component that ends at `k` starts.
pub open spec fn comp_start(p: Seq<char>, k: int) -> int
    decreases k,
{
    if k <= 0 {
        0
    } else if p[k - 1] == '/' {
        k
    } else {
        comp_start(p, k - 1)
    }
}

/// The last named component at or before `k`, as a range: trailing
/// separators and `.` components skipped. `None` when only a root, a
/// leading `.` or nothing is left.
pub open spec fn last_comp(p: Seq<char>, k: int) -> Option<(int, int)>
    decreases k,
{
    if k <= 0 {
        None
    } else if p[k - 1] == '/' {
        last_comp(p, k - 1)
    } else if p[k - 1] == '.' && (k == 1 || p[k - 2] == '/') {
        if k == 1 {
            None
        } else {
            last_comp(p, k - 1)
        }
    } else {
        Some((comp_start(p, k), k))
    }
}

/// `Path::file_name`.
pub open spec fn file_name(p: Seq<char>) -> Option<Seq<char>> {
    match last_comp(p, p.len() as int) {
        None => None,
        Some((a, b)) => if p.subrange(a, b) == ".."@ {
            None
        } else {
            Some(p.subrange(a, b))
        },
    }
}

/// The last `.` in a name before `k`.
pub open spec fn last_dot(s: Seq<char>, k: int) -> Option<int>
    decreases k,
{
    if k <= 0 {
        None
    } else if s[k - 1] == '.' {
        Some(k - 1)
    } else {
        last_dot(s, k - 1)
    }
}

/// How long the stem of a file name is: up to its last `.`, unless that dot
/// opens the name.
pub open spec fn stem_len(name: Seq<char>) -> int {
    match last_dot(name, name.len() as int) {
        None => name.len() as int,
        Some(i) => if i == 0 {
            name.len() as int
        } else {
            i
        },
    }
}

/// `Path::file_stem`.
pub open spec fn file_stem(p: Seq<char>) -> Option<Seq<char>> {
    match file_name(p) {
        None => None,
        Some(n) => Some(n.take(stem_len(n))),
    }
}

/// `Path::extension`.
pub open spec fn extension(p: Seq<char>) -> Option<Seq<char>> {
    match file_name(p) {
        None => None,
        Some(n) => if stem_len(n) < n.len() {
            Some(n.skip(stem_len(n) + 1))
        } else {
            None
        },
    }
}

/// `Path::with_extension`: everything after the stem of the file name is
/// replaced by `.ext`, or by nothing for an empty `ext`. A path without a
/// file name is left as it is.
pub open spec fn with_extension(p: Seq<char>, ext: Seq<char>) -> Seq<char> {
    match last_comp(p, p.len() as int) {
        None => p,
        Some((a, b)) => if p.subrange(a, b) == ".."@ {
            p
        } else {
            let head = p.take(a + stem_len(p.subrange(a, b)));
            if ext.len() == 0 {
                head
            } else {
                head + "."@ + ext
            }
        },
    }
}

/// `Path::join`: an absolute `rel` replaces the base; otherwise a separator
/// goes between them when the base does not already end with one.
pub open spec fn join(base: Seq<char>, rel: Seq<char>) -> Seq<char> {
    if rel.len() > 0 && rel[0] == '/' {
        rel
    } else if base.len() > 0 && base.last() != '/' {
        base + "/"@ + rel
    } else {
        base + rel
    }
}

/// The path before position `k`, without trailing separators or `.`
/// components, keeping a root and a leading `.`.
pub open spec fn trim_tail(p: Seq<char>, k: int) -> Seq<char>
    decreases k,
{
    if k <= 1 {
        p.take(if k < 0 {
            0
        } else {
            k
        })
    } else if p[k - 1] == '/' {
        trim_tail(p, k - 1)
    } else if p[k - 1] == '.' && p[k - 2] == '/' {
        trim_tail(p, k - 1)
    } else {
        p.take(k)
    }
}

/// `Path::parent` of a path with a named last component. A path with none
/// (empty, a root, or a lone `.`) is given no parent.
pub open spec fn parent(p: Seq<char>) -> Option<Seq<char>> {
    match last_comp(p, p.len() as int) {
        None => None,
        Some((a, b)) => Some(trim_tail(p, a)),
    }
}

pub proof fn lemma_comp_start(p: Seq<char>, k: int)
    requires
        0 <= k <= p.len(),
    ensures
        0 <= comp_start(p, k) <= k,
        forall|i: int| comp_start(p, k) <= i < k ==> p[i] != '/',
        comp_start(p, k) > 0 ==> p[comp_start(p, k) - 1] == '/',
    decreases k,
{
    if k > 0 && p[k - 1] != '/' {
        lemma_comp_start(p, k - 1);
    }
}

pub proof fn lemma_last_comp(p: Seq<char>, k: int)
    requires
        0 <= k <= p.len(),
    ensures
        match last_comp(p, k) {
            Some((a, b)) => 0 <= a < b <= k && a == comp_start(p, b),
            None => true,
        },
    decreases k,
{
    if k > 0 {
        if p[k - 1] == '/' || (p[k - 1] == '.' && (k == 1 || p[k - 2] == '/')) {
            lemma_last_comp(p, k - 1);
        } else {
            lemma_comp_start(p, k);
        }
    }
}

fn comp_start_of(p: &[char], k: usize) -> (a: usize)
    requires
        k <= p@.len(),
    ensures
        a == comp_start(p@, k as int),
{
    let mut a = k;
    while a > 0 && p[a - 1] != '/'
        invariant
            a <= k <= p@.len(),
            comp_start(p@, k as int) == comp_start(p@, a as int),
        decreases a,
    {
        a -= 1;
    }
    a
}

/// The range of the last named component.
pub fn last_comp_range(p: &[char]) -> (r: Option<(usize, usize)>)
    ensures
        match r {
            Some((a, b)) => last_comp(p@, p@.len() as int) == Some((a as int, b as int)) && a < b
                <= p@.len(),
            None => last_comp(p@, p@.len() as int) is None,
        },
{
    let mut k: usize = p.len();
    loop
        invariant
            k <= p@.len(),
            last_comp(p@, p@.len() as int) == last_comp(p@, k as int),
        decreases k,
    {
        if k == 0 {
            return None;
        }
        if p[k - 1] == '/' {
            k -= 1;
        } else if p[k - 1] == '.' && (k == 1 || p[k - 2] == '/') {
            if k == 1 {
                return None;
            }
            k -= 1;
        } else {
            let a = comp_start_of(p, k);
            proof {
                lemma_last_comp(p@, k as int);
            }
            return Some((a, k));
        }
    }
}

fn is_dotdot(s: &[char]) -> (r: bool)
    ensures
        r == (s@ == ".."@),
{
    let d = chars_of("..");
    chars_eq(s, d.as_slice())
}

/// The file name, as a range of the path.
fn file_name_range(p: &[char]) -> (r: Option<(usize, usize)>)
    ensures
        match r {
            Some((a, b)) => a <= b <= p@.len() && file_name(p@) == Some(p@.subrange(
                a as int,
                b as int,
            )) && last_comp(p@, p@.len() as int) == Some((a as int, b as int)),
            None => file_name(p@) is None,
        },
{
    match last_comp_range(p) {
        None => None,
        Some((a, b)) => if is_dotdot(slice_range(p, a, b)) {
            None
        } else {
            Some((a, b))
        },
    }
}

/// `Path::file_name`.
pub fn file_name_of(p: &str) -> (r: Option<String>)
    ensures
        match r {
            Some(n) => file_name(p@) == Some(n@),
            None => file_name(p@) is None,
        },
{
    let c = chars_of(p);
    match file_name_range(c.as_slice()) {
        Some((a, b)) => Some(string_from_chars(slice_range(c.as_slice(), a, b))),
        None => None,
    }
}

fn stem_length(name: &[char]) -> (n: usize)
    ensures
        n == stem_len(name@),
        n <= name@.len(),
{
    let mut k: usize = name.len();
    while k > 0 && name[k - 1] != '.'
        invariant
            k <= name@.len(),
            last_dot(name@, name@.len() as int) == last_dot(name@, k as int),
        decreases k,
    {
        k -= 1;
    }
    if k <= 1 {
        name.len()
    } else {
        k - 1
    }
}

/// `Path::file_stem`.
pub fn file_stem_of(p: &str) -> (r: Option<String>)
    ensures
        match r {
            Some(n) => file_stem(p@) == Some(n@),
            None => file_stem(p@) is None,
        },
{
    let c = chars_of(p);
    match file_name_range(c.as_slice()) {
        Some((a, b)) => {
            let name = slice_range(c.as_slice(), a, b);
            let n = stem_length(name);
            Some(string_from_chars(slice_range(name, 0, n)))
        },
        None => None,
    }
}

/// `Path::extension`.
pub fn extension_of(p: &str) -> (r: Option<String>)
    ensures
        match r {
            Some(n) => extension(p@) == Some(n@),
            None => extension(p@) is None,
        },
{
    let c = chars_of(p);
    match file_name_range(c.as_slice()) {
        Some((a, b)) => {
            let name = slice_range(c.as_slice(), a, b);
            let n = stem_length(name);
            if n < name.len() {
                Some(string_from_chars(slice_range(name, n + 1, name.len())))
            } else {
                None
            }
        },
        None => None,
    }
}

/// `Path::with_extension`.
pub fn with_extension_of(p: &str, ext: &str) -> (r: String)
    ensures
        r@ == with_extension(p@, ext@),
{
    let c = chars_of(p);
    match last_comp_range(c.as_slice()) {
        None => string_from_chars(c.as_slice()),
        Some((a, b)) => {
            let comp = slice_range(c.as_slice(), a, b);
            if is_dotdot(comp) {
                return string_from_chars(c.as_slice());
            }
            let n = stem_length(comp);
            let mut v: Vec<char> = Vec::new();
            push_chars(&mut v, slice_range(c.as_slice(), 0, a + n));
            let e = chars_of(ext);
            if e.len() > 0 {
                push_str(&mut v, ".");
                push_chars(&mut v, e.as_slice());
            }
            string_from_chars(v.as_slice())
        },
    }
}

/// `Path::join`.
pub fn join_of(base: &str, rel: &str) -> (r: String)
    ensures
        r@ == join(base@, rel@),
{
    let b = chars_of(base);
    let r = chars_of(rel);
    if r.len() > 0 && r[0] == '/' {
        return string_from_chars(r.as_slice());
    }
    let mut v: Vec<char> = Vec::new();
    push_chars(&mut v, b.as_slice());
    if b.len() > 0 && b[b.len() - 1] != '/' {
        push_str(&mut v, "/");
    }
    push_chars(&mut v, r.as_slice());
    string_from_chars(v.as_slice())
}

/// `Path::parent`, for a path with a named last component.
pub fn parent_of(p: &str) -> (r: Option<String>)
    ensures
        match r {
            Some(s) => parent(p@) == Some(s@),
            None => parent(p@) is None,
        },
{
    let c = chars_of(p);
    match last_comp_range(c.as_slice()) {
        None => None,
        Some((a, _)) => {
            let mut k = a;
            while k > 1 && (c[k - 1] == '/' || (c[k - 1] == '.' && c[k - 2] == '/'))
                invariant
                    k <= a <= c@.len(),
                    trim_tail(c@, a as int) == trim_tail(c@, k as int),
                decreases k,
            {
                k -= 1;
            }
            Some(string_from_chars(slice_range(c.as_slice(), 0, k)))
        },
    }
}


// ------------------------------------------------------------------ components

/// The runs of a path between `/` separators, read left to right: the runs
/// finished so far and the one being read.
pub open spec fn seg_fold(p: Seq<char>) -> (Seq<Seq<char>>, Seq<char>)
    decreases p.len(),
{
    if p.len() == 0 {
        (Seq::empty(), Seq::empty())
    } else {
        let (done, cur) = seg_fold(p.drop_last());
        if p.last() == '/' {
            (done.push(cur), Seq::empty())
        } else {
            (done, cur.push(p.last()))
        }
    }
}

/// Every run between separators, empty runs included; never none.
pub open spec fn segments(p: Seq<char>) -> Seq<Seq<char>> {
    seg_fold(p).0.push(seg_fold(p).1)
}

/// `std::path::Component`, on Unix.
pub enum Comp {
    Root,
    Cur,
    Parent,
    Normal(Seq<char>),
}

/// What one run contributes: nothing for an empty run or `.`.
pub open spec fn comp_of(x: Seq<char>) -> Seq<Comp> {
    if x.len() == 0 || x == seq!['.'] {
        Seq::empty()
    } else if x == seq!['.', '.'] {
        seq![Comp::Parent]
    } else {
        seq![Comp::Normal(x)]
    }
}

pub open spec fn named(parts: Seq<Seq<char>>) -> Seq<Comp>
    decreases parts.len(),
{
    if parts.len() == 0 {
        Seq::empty()
    } else {
        named(parts.drop_last()) + comp_of(parts.last())
    }
}

/// `Path::components`: a root for a leading `/`, a `.` only at the very start
/// of a relative path, then the named runs and `..`.
pub open spec fn components(p: Seq<char>) -> Seq<Comp> {
    let lead = if p.len() > 0 && p[0] == '/' {
        seq![Comp::Root]
    } else if segments(p)[0] == seq!['.'] {
        seq![Comp::Cur]
    } else {
        Seq::empty()
    };
    lead + named(segments(p))
}

/// `Path::starts_with`: `base`'s components open `p`'s.
pub open spec fn path_starts(p: Seq<char>, base: Seq<char>) -> bool {
    let a = components(base);
    let b = components(p);
    a.len() <= b.len() && b.take(a.len() as int) == a
}

/// Reading `a`, a separator, then `b`: the runs of `a`, then those of `b`.
pub proof fn lemma_seg_fold_join(a: Seq<char>, b: Seq<char>)
    ensures
        seg_fold(a + seq!['/'] + b) == (segments(a) + seg_fold(b).0, seg_fold(b).1),
    decreases b.len(),
{
    if b.len() == 0 {
        assert(a + seq!['/'] + b =~= a.push('/'));
        assert((a.push('/')).drop_last() =~= a);
        assert(segments(a) + seg_fold(b).0 =~= segments(a));
    } else {
        let b2 = b.drop_last();
        lemma_seg_fold_join(a, b2);
        assert((a + seq!['/'] + b).drop_last() =~= a + seq!['/'] + b2);
        let f = seg_fold(b2);
        if b.last() == '/' {
            assert(segments(a) + f.0.push(f.1) =~= (segments(a) + f.0).push(f.1));
        }
    }
}

pub proof fn lemma_segments_join(a: Seq<char>, b: Seq<char>)
    ensures
        segments(a + seq!['/'] + b) == segments(a) + segments(b),
{
    lemma_seg_fold_join(a, b);
    assert(segments(a) + seg_fold(b).0.push(seg_fold(b).1) =~= (segments(a) + seg_fold(b).0).push(
        seg_fold(b).1,
    ));
}

pub proof fn lemma_named_concat(x: Seq<Seq<char>>, y: Seq<Seq<char>>)
    ensures
        named(x + y) == named(x) + named(y),
    decreases y.len(),
{
    if y.len() == 0 {
        assert(x + y =~= x);
        assert(named(x) + named(y) =~= named(x));
    } else {
        lemma_named_concat(x, y.drop_last());
        assert((x + y).drop_last() =~= x + y.drop_last());
        assert(named(x) + (named(y.drop_last()) + comp_of(y.last())) =~= (named(x) + named(
            y.drop_last(),
        )) + comp_of(y.last()));
    }
}

/// The components of `a`, a separator and `b`: those of `a`, then the named
/// runs of `b`.
proof fn lemma_components_join(a: Seq<char>, b: Seq<char>)
    requires
        a.len() > 0,
    ensures
        components(a + seq!['/'] + b) == components(a) + named(segments(b)),
{
    lemma_segments_join(a, b);
    lemma_named_concat(segments(a), segments(b));
    let p = a + seq!['/'] + b;
    assert(p[0] == a[0]);
    assert(segments(p)[0] == segments(a)[0]);
    let lead = if a.len() > 0 && a[0] == '/' {
        seq![Comp::Root]
    } else if segments(a)[0] == seq!['.'] {
        seq![Comp::Cur]
    } else {
        Seq::empty()
    };
    assert(components(p) =~= lead + (named(segments(a)) + named(segments(b))));
    assert(components(a) + named(segments(b)) =~= lead + named(segments(a)) + named(segments(b)));
}

/// Joining a relative path onto a directory gives a path inside it: the
/// directory's components open the result's. (An absolute one replaces the
/// directory instead.)
pub proof fn law_a_joined_path_stays_under_its_base(base: Seq<char>, x: Seq<char>)
    requires
        base.len() > 0,
        !(x.len() > 0 && x[0] == '/'),
    ensures
        path_starts(join(base, x), base),
{
    reveal_strlit("/");
    if base.last() != '/' {
        assert(join(base, x) =~= base + seq!['/'] + x);
        lemma_components_join(base, x);
    } else {
        let r = base.drop_last();
        if r.len() == 0 {
            // The base is the root alone.
            assert(base =~= seq!['/']);
            assert(join(base, x) =~= seq!['/'] + x);
            assert(components(base) =~= seq![Comp::Root] + named(segments(base)));
            lemma_segments_join(Seq::<char>::empty(), x);
            lemma_segments_join(Seq::<char>::empty(), Seq::<char>::empty());
            assert(Seq::<char>::empty() + seq!['/'] + x =~= seq!['/'] + x);
            assert(Seq::<char>::empty() + seq!['/'] + Seq::<char>::empty() =~= seq!['/']);
            assert(segments(Seq::<char>::empty()) =~= seq![Seq::<char>::empty()]);
            lemma_named_concat(segments(Seq::<char>::empty()), segments(x));
            lemma_named_concat(segments(Seq::<char>::empty()), segments(Seq::<char>::empty()));
            lemma_named_of_one_empty();
            let c = components(join(base, x));
            assert(c =~= seq![Comp::Root] + named(segments(x)));
            assert(components(base) =~= seq![Comp::Root]);
            assert(c.take(1) =~= seq![Comp::Root]);
        } else {
            assert(base =~= r + seq!['/'] + Seq::<char>::empty());
            assert(join(base, x) =~= r + seq!['/'] + x);
            lemma_components_join(r, x);
            lemma_components_join(r, Seq::<char>::empty());
            assert(segments(Seq::<char>::empty()) =~= seq![Seq::<char>::empty()]);
            lemma_named_of_one_empty();
            assert(components(base) =~= components(r));
        }
    }
    let a = components(base);
    let b = components(join(base, x));
    assert(b.take(a.len() as int) =~= a);
}

proof fn lemma_named_of_one_empty()
    ensures
        named(seq![Seq::<char>::empty()]) == Seq::<Comp>::empty(),
{
    let parts = seq![Seq::<char>::empty()];
    assert(parts.drop_last() =~= Seq::<Seq<char>>::empty());
    assert(named(parts.drop_last()) == Seq::<Comp>::empty());
    assert(parts.last() == Seq::<char>::empty());
    assert(comp_of(parts.last()) == Seq::<Comp>::empty());
    assert(named(parts) =~= Seq::<Comp>::empty());
}

/// A component prefix of a component prefix is one.
pub proof fn lemma_path_starts_trans(p: Seq<char>, q: Seq<char>, base: Seq<char>)
    requires
        path_starts(p, q),
        path_starts(q, base),
    ensures
        path_starts(p, base),
{
    let a = components(base);
    let b = components(q);
    let c = components(p);
    assert(c.take(b.len() as int) == b);
    assert(c.take(a.len() as int) =~= c.take(b.len() as int).take(a.len() as int));
    assert(b.take(a.len() as int) == a);
}

/// A path being built by pushing components: whether it has a root, and its
/// names. A root resets it; `..` drops the last name, if any.
pub open spec fn norm(cs: Seq<Comp>) -> (bool, Seq<Seq<char>>)
    decreases cs.len(),
{
    if cs.len() == 0 {
        (false, Seq::empty())
    } else {
        let (abs, names) = norm(cs.drop_last());
        match cs.last() {
            Comp::Root => (true, Seq::empty()),
            Comp::Cur => (abs, names),
            Comp::Parent => (abs, if names.len() > 0 {
                names.drop_last()
            } else {
                names
            }),
            Comp::Normal(x) => (abs, names.push(x)),
        }
    }
}

pub open spec fn join_names(ns: Seq<Seq<char>>) -> Seq<char>
    decreases ns.len(),
{
    if ns.len() == 0 {
        Seq::empty()
    } else if ns.len() == 1 {
        ns[0]
    } else {
        join_names(ns.drop_last()) + seq!['/'] + ns.last()
    }
}

/// The text of a built path.
pub open spec fn render(m: (bool, Seq<Seq<char>>)) -> Seq<char> {
    (if m.0 {
        seq!['/']
    } else {
        Seq::empty()
    }) + join_names(m.1)
}

/// `.` and `..` resolved without looking at the filesystem.
pub open spec fn spec_lexical_normalize(p: Seq<char>) -> Seq<char> {
    render(norm(components(p)))
}

#[derive(Debug, Clone, PartialEq, Eq)]
pub enum Component {
    Root,
    Cur,
    Parent,
    Normal(String),
}

pub open spec fn comp_view(c: Component) -> Comp {
    match c {
        Component::Root => Comp::Root,
        Component::Cur => Comp::Cur,
        Component::Parent => Comp::Parent,
        Component::Normal(s) => Comp::Normal(s@),
    }
}

impl Component {
    /// A copy that means the same component.
    pub fn duplicate(&self) -> (r: Component)
        ensures
            comp_view(r) == comp_view(*self),
    {
        match self {
            Component::Root => Component::Root,
            Component::Cur => Component::Cur,
            Component::Parent => Component::Parent,
            Component::Normal(s) => Component::Normal(s.clone()),
        }
    }
}

pub open spec fn comps_view(v: Seq<Component>) -> Seq<Comp> {
    v.map_values(|c: Component| comp_view(c))
}

pub open spec fn seg_views(v: Seq<Vec<char>>) -> Seq<Seq<char>> {
    v.map_values(|s: Vec<char>| s@)
}

fn segments_of(p: &[char]) -> (r: Vec<Vec<char>>)
    ensures
        seg_views(r@) == segments(p@),
{
    let mut done: Vec<Vec<char>> = Vec::new();
    let mut cur: Vec<char> = Vec::new();
    for i in 0..p.len()
        invariant
            seg_fold(p@.take(i as int)) == (seg_views(done@), cur@),
    {
        assert(p@.take(i + 1).drop_last() =~= p@.take(i as int));
        if p[i] == '/' {
            let ghost before = done@;
            done.push(cur);
            cur = Vec::new();
            assert(seg_views(done@) =~= seg_views(before).push(seg_fold(p@.take(i as int)).1));
        } else {
            cur.push(p[i]);
        }
    }
    assert(p@.take(p@.len() as int) =~= p@);
    let ghost before = done@;
    done.push(cur);
    assert(seg_views(done@) =~= seg_views(before).push(seg_fold(p@).1));
    done
}

fn comp_of_exec(x: &Vec<char>) -> (r: Option<Component>)
    ensures
        match r {
            Some(c) => comp_of(x@) == seq![comp_view(c)],
            None => comp_of(x@) == Seq::<Comp>::empty(),
        },
{
    if x.len() == 0 || (x.len() == 1 && x[0] == '.') {
        assert(x@.len() == 1 ==> x@ =~= seq!['.']);
        None
    } else if x.len() == 2 && x[0] == '.' && x[1] == '.' {
        assert(x@ =~= seq!['.', '.']);
        Some(Component::Parent)
    } else {
        assert(x@ != seq!['.']);
        assert(x@ != seq!['.', '.']);
        Some(Component::Normal(string_from_chars(x.as_slice())))
    }
}

/// `Path::components`.
pub fn components_of(p: &str) -> (v: Vec<Component>)
    ensures
        comps_view(v@) == components(p@),
{
    let c = chars_of(p);
    let segs = segments_of(c.as_slice());
    let mut v: Vec<Component> = Vec::new();
    assert(seg_views(segs@).len() == segs@.len());
    if c.len() > 0 && c[0] == '/' {
        v.push(Component::Root);
    } else if segs[0].len() == 1 && segs[0][0] == '.' {
        assert(seg_views(segs@)[0] =~= seq!['.']);
        v.push(Component::Cur);
    } else {
        assert(seg_views(segs@)[0] != seq!['.']);
    }
    let ghost lead = comps_view(v@);
    assert(lead + named(seg_views(segs@).take(0)) =~= lead);
    for i in 0..segs.len()
        invariant
            comps_view(v@) == lead + named(seg_views(segs@).take(i as int)),
    {
        assert(seg_views(segs@).take(i + 1).drop_last() =~= seg_views(segs@).take(i as int));
        let ghost before = v@;
        match comp_of_exec(&segs[i]) {
            Some(x) => {
                v.push(x);
                assert(comps_view(v@) =~= comps_view(before) + seq![comp_view(x)]);
            },
            None => {},
        }
    }
    assert(seg_views(segs@).take(segs@.len() as int) =~= seg_views(segs@));
    v
}

/// `Path::starts_with`.
pub fn path_starts_with(p: &str, base: &str) -> (r: bool)
    ensures
        r == path_starts(p@, base@),
{
    let a = components_of(base);
    let b = components_of(p);
    if a.len() > b.len() {
        return false;
    }
    for i in 0..a.len()
        invariant
            a@.len() <= b@.len(),
            comps_view(a@) == components(base@),
            comps_view(b@) == components(p@),
            forall|k: int| 0 <= k < i ==> comp_view(#[trigger] a@[k]) == comp_view(b@[k]),
    {
        let same = match (&a[i], &b[i]) {
            (Component::Root, Component::Root) => true,
            (Component::Cur, Component::Cur) => true,
            (Component::Parent, Component::Parent) => true,
            (Component::Normal(x), Component::Normal(y)) => {
                let xc = chars_of(x.as_str());
                let yc = chars_of(y.as_str());
                chars_eq(xc.as_slice(), yc.as_slice())
            },
            _ => false,
        };
        if !same {
            assert(comps_view(b@).take(a@.len() as int)[i as int] != comps_view(a@)[i as int]);
            assert(comps_view(b@).take(a@.len() as int) != comps_view(a@));
            return false;
        }
    }
    assert(comps_view(b@).take(a@.len() as int) =~= comps_view(a@));
    true
}

/// `.` and `..` resolved, as the components are pushed onto an empty path.
pub fn lexical_normalize(p: &str) -> (r: String)
    ensures
        r@ == spec_lexical_normalize(p@),
{
    let cs = components_of(p);
    render_components(&cs)
}

/// The text of the path built by pushing these components onto an empty one:
/// a root resets it, `.` does nothing, `..` takes the last name off.
pub fn render_components(cs: &Vec<Component>) -> (r: String)
    ensures
        r@ == render(norm(comps_view(cs@))),
{
    let mut abs = false;
    let mut names: Vec<String> = Vec::new();
    for i in 0..cs.len()
        invariant
            norm(comps_view(cs@).take(i as int)) == (abs, crate::textops::views(names@)),
    {
        assert(comps_view(cs@).take(i + 1).drop_last() =~= comps_view(cs@).take(i as int));
        let ghost before = names@;
        match &cs[i] {
            Component::Root => {
                abs = true;
                names = Vec::new();
                assert(crate::textops::views(names@) =~= Seq::<Seq<char>>::empty());
            },
            Component::Cur => {},
            Component::Parent => {
                if names.len() > 0 {
                    names.pop();
                    assert(crate::textops::views(names@) =~= crate::textops::views(before).drop_last());
                }
            },
            Component::Normal(x) => {
                names.push(x.clone());
                assert(crate::textops::views(names@) =~= crate::textops::views(before).push(x@));
            },
        }
    }
    assert(comps_view(cs@).take(cs@.len() as int) =~= comps_view(cs@));
    let mut out: Vec<char> = Vec::new();
    if abs {
        out.push('/');
    }
    let ghost lead = out@;
    for i in 0..names.len()
        invariant
            out@ == lead + join_names(crate::textops::views(names@).take(i as int)),
    {
        assert(crate::textops::views(names@).take(i + 1).drop_last() =~= crate::textops::views(
            names@,
        ).take(i as int));
        let ghost before = out@;
        if i > 0 {
            out.push('/');
        }
        push_str(&mut out, names[i].as_str());
        assert(out@ =~= lead + join_names(crate::textops::views(names@).take(i + 1)));
    }
    assert(crate::textops::views(names@).take(names@.len() as int) =~= crate::textops::views(
        names@,
    ));
    proof {
        assert(render(norm(comps_view(cs@))) =~= out@);
    }
    string_from_chars(out.as_slice())
}

} // verus!
