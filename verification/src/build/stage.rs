//! Copy the user's sources into the work tree under normalised names.
//!
//! This one step solves three problems at once:
//!
//! 1. **The `.FOR` trap.** gcc's suffix matching is case-sensitive: `.for` is
//!    fixed-form, but `.FOR` runs the C preprocessor, which then chokes on
//!    apostrophes in comments and on `#` in column 1.
//! 2. **Non-ASCII argv.** A MinGW-built `gfortran.exe` receives argv converted
//!    through the process ANSI codepage; `Chương trình.for` can arrive mangled.
//!    We control the staged names, so we make them boring.
//! 3. **The read-only guarantee.** The compiler only ever sees our copy.
use crate::build::objfmt::{
    assess, is_library_extension, library_extension, sniff, spec_assess, spec_sniff, Expect,
    Reason,
};
use crate::build::sourcefmt::{check, spec_check, NotSourceSpec};
use crate::error::EfError;
use crate::fs_guard::MAX_TOTAL_SOURCE_BYTES;
use crate::i18n::Catalogs;
use crate::pathops::{file_name, join, join_of, path_starts};
use crate::paths::WorkLayout;
use crate::project::{
    distinct_parents, path_problem, source_paths, validate_user_path, Program, SourceRef,
};
use crate::text::{display_file_name, nfc_form};
use crate::pathops::{extension, extension_of, file_stem, file_stem_of};
use crate::project::Preprocess;
use crate::textops::{
    char_suffix_len, chars_of, owned, contains_string, decimal, decimal_of, is_ascii_alnum, is_ascii_alpha,
    lemma_decimal, lemma_decimal_injective, lower, lower_chars, lower_seq, push_chars, push_str,
    slice_range, string_from_chars, trim_char, trim_char_bounds, views,
};
use vstd::prelude::*;

verus! {

pub struct StagedSource {
    /// The user's file, exactly as the user chose it. Only ever read.
    pub original: String,
    /// Our copy, inside the work tree.
    pub staged: String,
    /// The bare staged file name, e.g. `solver.f`.
    pub staged_name: String,
    /// What to show the user, and what to substitute back into compiler messages.
    pub display_name: String,
    /// Object file this source compiles to.
    pub obj: String,
}

/// One of the user's pre-compiled libraries, copied into the work tree under a
/// boring ASCII name. The bytes are identical.
pub struct StagedLibrary {
    pub original: String,
    pub staged: String,
    pub display_name: String,
}

pub struct Staging {
    pub sources: Vec<StagedSource>,
    /// In the order the user arranged them, which is link order.
    pub libraries: Vec<StagedLibrary>,
    /// Every distinct directory holding one of the user's sources.
    pub include_dirs: Vec<String>,
}

// ------------------------------------------------------------ names

/// A character as a staged name keeps it: lowercase ASCII letters, digits and
/// `_`; anything else becomes `_`.
pub open spec fn boring_char(c: char) -> char {
    let l = lower(c);
    if is_ascii_alnum(l) || l == '_' {
        l
    } else {
        '_'
    }
}

/// The longest stem a staged name keeps.
pub const MAX_STEM: usize = 48;

/// A name reduced to something no toolchain and no shell can misread:
/// lowercase ASCII letters, digits and `_`, never empty, never starting with
/// anything but a letter or `_`. `fallback` names what it becomes when nothing
/// usable survives or a digit would lead.
pub open spec fn boring_stem(s: Seq<char>, fallback: Seq<char>) -> Seq<char> {
    let base = trim_char(s.map_values(|c: char| boring_char(c)), '_');
    let base2 = if base.len() == 0 || !(is_ascii_alpha(base[0]) || base[0] == '_') {
        let b = fallback + "_"@ + base;
        b.take(b.len() - char_suffix_len(b, '_'))
    } else {
        base
    };
    if base2.len() > MAX_STEM {
        base2.take(MAX_STEM as int)
    } else {
        base2
    }
}

/// The extension appended, disambiguated by sequence number after the first.
pub open spec fn seq_name(base: Seq<char>, ext: Seq<char>, seq: nat) -> Seq<char> {
    if seq == 0 {
        base + "."@ + ext
    } else {
        base + "__"@ + decimal(seq + 1) + "."@ + ext
    }
}

pub open spec fn source_ext(p: Preprocess) -> Seq<char> {
    match p {
        Preprocess::Always => "F"@,
        Preprocess::Never => "f"@,
    }
}

/// The staged name of a source whose stem is `stem`.
pub open spec fn spec_staged_name(stem: Seq<char>, p: Preprocess, seq: nat) -> Seq<char> {
    seq_name(boring_stem(stem, "src"@), source_ext(p), seq)
}

/// The extension a staged library keeps: its own when the linker knows it,
/// otherwise the platform's.
pub open spec fn library_ext(name: Seq<char>, coff: bool) -> Seq<char> {
    match extension(name) {
        Some(e) if is_library_extension(lower_seq(e)) => lower_seq(e),
        _ => if coff {
            "lib"@
        } else {
            "a"@
        },
    }
}

pub open spec fn spec_staged_library_name(name: Seq<char>, coff: bool, seq: nat) -> Seq<char> {
    let stem = match file_stem(name) {
        Some(s) => s,
        None => Seq::empty(),
    };
    seq_name(boring_stem(stem, "lib"@), library_ext(name, coff), seq)
}

pub open spec fn is_ascii(c: char) -> bool {
    (c as u32) < 128
}

/// Lowercase ASCII letters, digits and `_`.
pub open spec fn is_stem_char(c: char) -> bool {
    ('a' <= c && c <= 'z') || ('0' <= c && c <= '9') || c == '_'
}

/// A fallback a stem may become: lowercase, and opening with a letter.
pub open spec fn good_fallback(f: Seq<char>) -> bool {
    &&& f.len() > 0
    &&& 'a' <= f[0] && f[0] <= 'z'
    &&& forall|i: int| 0 <= i < f.len() ==> is_stem_char(#[trigger] f[i])
}

proof fn lemma_boring_char(c: char)
    ensures
        is_stem_char(boring_char(c)),
{
}

/// What `boring_stem` promises: never empty, made of stem characters only,
/// and led by a letter or `_`.
pub proof fn lemma_boring_stem(s: Seq<char>, fallback: Seq<char>)
    requires
        good_fallback(fallback),
    ensures
        boring_stem(s, fallback).len() > 0,
        forall|i: int|
            0 <= i < boring_stem(s, fallback).len() ==> is_stem_char(
                #[trigger] boring_stem(s, fallback)[i],
            ),
        is_ascii_alpha(boring_stem(s, fallback)[0]) || boring_stem(s, fallback)[0] == '_',
{
    reveal_strlit("_");
    let m = s.map_values(|c: char| boring_char(c));
    assert forall|i: int| 0 <= i < m.len() implies is_stem_char(#[trigger] m[i]) by {
        lemma_boring_char(s[i]);
    }
    let base = trim_char(m, '_');
    let pre = crate::textops::char_prefix_len(m, '_');
    crate::textops::lemma_char_prefix_bound(m, '_');
    let a = m.skip(pre as int);
    crate::textops::lemma_char_suffix_bound(a, '_');
    assert forall|i: int| 0 <= i < base.len() implies is_stem_char(#[trigger] base[i]) by {
        assert(base[i] == m[i + pre]);
    }
    if base.len() == 0 || !(is_ascii_alpha(base[0]) || base[0] == '_') {
        let b = fallback + "_"@ + base;
        crate::textops::lemma_char_suffix_bound(b, '_');
        assert(b[0] == fallback[0]);
        assert forall|i: int| 0 <= i < b.len() implies is_stem_char(#[trigger] b[i]) by {
            if i < fallback.len() {
                assert(b[i] == fallback[i]);
            } else if i == fallback.len() {
                assert(b[i] == '_');
            } else {
                assert(b[i] == base[i - fallback.len() - 1]);
            }
        }
        assert(char_suffix_len(b, '_') < b.len()) by {
            crate::textops::lemma_char_suffix_not_all(b, '_');
        }
    }
}

/// Every file a build writes lies in its work tree: a staged copy under
/// `src`, an object under `obj`, a library's copy under `lib`, the program
/// under `out`. The names given to them never begin with `/` (they open with a
/// letter or `_`), and a relative name joined under the root stays under it.
pub proof fn law_staged_files_stay_in_the_work_tree(root: Seq<char>, dir: Seq<char>, name: Seq<char>)
    requires
        root.len() > 0,
        dir == "src"@ || dir == "obj"@ || dir == "lib"@ || dir == "out"@,
        !(name.len() > 0 && name[0] == '/'),
    ensures
        path_starts(join(join(root, dir), name), root),
{
    reveal_strlit("src");
    reveal_strlit("obj");
    reveal_strlit("lib");
    reveal_strlit("out");
    reveal_strlit("/");
    assert(dir.len() == 3 && dir[0] != '/');
    crate::pathops::law_a_joined_path_stays_under_its_base(root, dir);
    let d = join(root, dir);
    assert(d.len() > 0);
    crate::pathops::law_a_joined_path_stays_under_its_base(d, name);
    crate::pathops::lemma_path_starts_trans(join(d, name), d, root);
}

/// Staged source names are plain ASCII and open with a letter or `_`, so no
/// compiler can read one as an option and no codepage can mangle one.
pub proof fn law_staged_names_are_boring(stem: Seq<char>, p: Preprocess, seq: nat)
    ensures
        forall|i: int|
            0 <= i < spec_staged_name(stem, p, seq).len() ==> is_ascii(
                #[trigger] spec_staged_name(stem, p, seq)[i],
            ),
        is_ascii_alpha(spec_staged_name(stem, p, seq)[0]) || spec_staged_name(stem, p, seq)[0]
            == '_',
{
    reveal_strlit("src");
    reveal_strlit(".");
    reveal_strlit("__");
    reveal_strlit("F");
    reveal_strlit("f");
    lemma_boring_stem(stem, "src"@);
    lemma_decimal(seq + 1);
    let b = boring_stem(stem, "src"@);
    let n = spec_staged_name(stem, p, seq);
    assert(n[0] == b[0]);
    assert forall|i: int| 0 <= i < n.len() implies is_ascii(#[trigger] n[i]) by {
        if i < b.len() {
            assert(n[i] == b[i]);
            assert(is_stem_char(b[i]));
        }
    }
}

/// Staged library names are plain ASCII and never open with a dash.
pub proof fn law_staged_library_names_are_boring(name: Seq<char>, coff: bool, seq: nat)
    ensures
        forall|i: int|
            0 <= i < spec_staged_library_name(name, coff, seq).len() ==> is_ascii(
                #[trigger] spec_staged_library_name(name, coff, seq)[i],
            ) || i >= boring_stem(
                match file_stem(name) {
                    Some(s) => s,
                    None => Seq::empty(),
                },
                "lib"@,
            ).len(),
        spec_staged_library_name(name, coff, seq)[0] != '-',
        spec_staged_library_name(name, coff, seq).len() > 0,
{
    reveal_strlit("lib");
    let stem = match file_stem(name) {
        Some(s) => s,
        None => Seq::empty(),
    };
    lemma_boring_stem(stem, "lib"@);
    let b = boring_stem(stem, "lib"@);
    let n = spec_staged_library_name(name, coff, seq);
    assert(n[0] == b[0]);
    assert forall|i: int| 0 <= i < b.len() implies is_ascii(#[trigger] n[i]) by {
        assert(n[i] == b[i]);
        assert(is_stem_char(b[i]));
    }
}

/// Different sequence numbers never give the same name, so asking for the
/// next one always makes progress.
pub proof fn law_seq_names_differ(base: Seq<char>, ext: Seq<char>, a: nat, b: nat)
    requires
        a != b,
    ensures
        seq_name(base, ext, a) != seq_name(base, ext, b),
{
    reveal_strlit(".");
    reveal_strlit("__");
    let na = seq_name(base, ext, a);
    let nb = seq_name(base, ext, b);
    lemma_decimal(a + 1);
    lemma_decimal(b + 1);
    if a == 0 || b == 0 {
        assert(na[base.len() as int] != nb[base.len() as int]);
    } else {
        let da = decimal(a + 1);
        let db = decimal(b + 1);
        let k: int = base.len() as int + 2;
        if da.len() == db.len() {
            if forall|j: int| 0 <= j < da.len() ==> da[j] == db[j] {
                assert(da =~= db);
                lemma_decimal_injective(a + 1, b + 1);
            }
            let j = choose|j: int| 0 <= j < da.len() && da[j] != db[j];
            assert(na[k + j] == da[j]);
            assert(nb[k + j] == db[j]);
        } else if da.len() < db.len() {
            assert(na[k + da.len() as int] == '.');
            assert(nb[k + da.len() as int] == db[da.len() as int]);
            assert(crate::textops::is_digit(db[da.len() as int]));
        } else {
            assert(nb[k + db.len() as int] == '.');
            assert(na[k + db.len() as int] == da[db.len() as int]);
            assert(crate::textops::is_digit(da[db.len() as int]));
        }
    }
}

fn boring_ascii_stem(s: &str, fallback: &str) -> (r: Vec<char>)
    requires
        good_fallback(fallback@),
    ensures
        r@ == boring_stem(s@, fallback@),
{
    let sc = chars_of(s);
    let mut m: Vec<char> = Vec::new();
    for i in 0..sc.len()
        invariant
            m@ == sc@.take(i as int).map_values(|c: char| boring_char(c)),
    {
        let l = crate::textops::to_lower(sc[i]);
        let c = if ('a' <= l && l <= 'z') || ('0' <= l && l <= '9') || ('A' <= l && l <= 'Z')
            || l == '_' {
            l
        } else {
            '_'
        };
        m.push(c);
        assert(sc@.take(i + 1).map_values(|c: char| boring_char(c)) =~= sc@.take(
            i as int,
        ).map_values(|c: char| boring_char(c)).push(boring_char(sc@[i as int])));
    }
    assert(sc@.take(sc@.len() as int) =~= sc@);
    let (a, b) = trim_char_bounds(m.as_slice(), '_');
    let base = slice_range(m.as_slice(), a, b);
    let mut out: Vec<char> = Vec::new();
    if base.len() == 0 || !(('a' <= base[0] && base[0] <= 'z') || ('A' <= base[0] && base[0]
        <= 'Z') || base[0] == '_') {
        push_str(&mut out, fallback);
        push_str(&mut out, "_");
        push_chars(&mut out, base);
        let ghost full = out@;
        while out.len() > 0 && out[out.len() - 1] == '_'
            invariant
                out@ == full.take(out@.len() as int),
                out@.len() <= full.len(),
                char_suffix_len(full, '_') == (full.len() - out@.len()) + char_suffix_len(
                    out@,
                    '_',
                ),
            decreases out.len(),
        {
            let ghost before = out@;
            out.pop();
            assert(before.drop_last() =~= out@);
            assert(out@ =~= full.take(out@.len() as int));
        }
    } else {
        push_chars(&mut out, base);
    }
    if out.len() > MAX_STEM {
        out.truncate(MAX_STEM);
    }
    out
}

fn with_seq(base: &[char], ext: &[char], seq: usize) -> (r: String)
    requires
        seq < usize::MAX,
    ensures
        r@ == seq_name(base@, ext@, seq as nat),
{
    let mut v: Vec<char> = Vec::new();
    push_chars(&mut v, base);
    if seq == 0 {
        push_str(&mut v, ".");
    } else {
        push_str(&mut v, "__");
        let d = decimal_of((seq + 1) as u64);
        push_chars(&mut v, d.as_slice());
        push_str(&mut v, ".");
    }
    push_chars(&mut v, ext);
    string_from_chars(v.as_slice())
}

/// Normalise a source file name to something no toolchain can misread:
/// lowercase ASCII `[a-z0-9_]`, and an extension that forces fixed form.
pub fn staged_name_for(original_stem: &str, preprocess: Preprocess, seq: usize) -> (r: String)
    requires
        seq < usize::MAX,
    ensures
        r@ == spec_staged_name(original_stem@, preprocess, seq as nat),
{
    proof {
        reveal_strlit("src");
    }
    let ext = match preprocess {
        Preprocess::Always => chars_of("F"),
        Preprocess::Never => chars_of("f"),
    };
    let base = boring_ascii_stem(original_stem, "src");
    with_seq(base.as_slice(), ext.as_slice(), seq)
}

/// Normalise a library file name, keeping an extension the linker recognises.
pub fn staged_library_name_for(original_name: &str, coff: bool, seq: usize) -> (r: String)
    requires
        seq < usize::MAX,
    ensures
        r@ == spec_staged_library_name(original_name@, coff, seq as nat),
{
    proof {
        reveal_strlit("lib");
    }
    let stem = match file_stem_of(original_name) {
        Some(s) => s,
        None => String::new(),
    };
    let ext: Vec<char> = match extension_of(original_name) {
        Some(e) => {
            let l = lower_chars(chars_of(e.as_str()).as_slice());
            if library_extension(l.as_slice()) {
                l
            } else if coff {
                chars_of("lib")
            } else {
                chars_of("a")
            }
        },
        None => if coff {
            chars_of("lib")
        } else {
            chars_of("a")
        },
    };
    let base = boring_ascii_stem(stem.as_str(), "lib");
    with_seq(base.as_slice(), ext.as_slice(), seq)
}

/// `name` is the first name of the sequence that `used` does not hold.
pub open spec fn first_free(used: Seq<Seq<char>>, base: Seq<char>, ext: Seq<char>, name: Seq<char>) -> bool {
    exists|k: nat|
        name == seq_name(base, ext, k) && forall|i: nat|
            i < k ==> used.contains(#[trigger] seq_name(base, ext, i))
}

/// Candidates from `seq` on that someone already took, counted.
pub open spec fn later_taken(used: Seq<Seq<char>>, base: Seq<char>, ext: Seq<char>, seq: nat) -> nat
    decreases used.len(),
{
    if used.len() == 0 {
        0
    } else {
        later_taken(used.drop_last(), base, ext, seq) + if exists|i: nat|
            i >= seq && #[trigger] seq_name(base, ext, i) == used.last() {
            1nat
        } else {
            0nat
        }
    }
}

proof fn lemma_later_taken(used: Seq<Seq<char>>, base: Seq<char>, ext: Seq<char>, seq: nat)
    ensures
        later_taken(used, base, ext, seq + 1) <= later_taken(used, base, ext, seq),
        later_taken(used, base, ext, seq) <= used.len(),
        used.contains(seq_name(base, ext, seq)) ==> later_taken(used, base, ext, seq + 1)
            < later_taken(used, base, ext, seq),
    decreases used.len(),
{
    if used.len() > 0 {
        let rest = used.drop_last();
        lemma_later_taken(rest, base, ext, seq);
        let x = used.last();
        if exists|i: nat| i >= seq + 1 && #[trigger] seq_name(base, ext, i) == x {
            let i = choose|i: nat| i >= seq + 1 && #[trigger] seq_name(base, ext, i) == x;
            assert(i >= seq && seq_name(base, ext, i) == x);
        }
        if x == seq_name(base, ext, seq) {
            assert(exists|i: nat| i >= seq && #[trigger] seq_name(base, ext, i) == x);
            if exists|i: nat| i >= seq + 1 && #[trigger] seq_name(base, ext, i) == x {
                let i = choose|i: nat| i >= seq + 1 && #[trigger] seq_name(base, ext, i) == x;
                law_seq_names_differ(base, ext, i, seq);
            }
        }
        if used.contains(seq_name(base, ext, seq)) && x != seq_name(base, ext, seq) {
            let j = choose|j: int| 0 <= j < used.len() && used[j] == seq_name(base, ext, seq);
            assert(rest[j] == used[j]);
        }
    }
}

/// The first name the sequence produces that is not already taken; it is
/// taken from then on.
fn unique_name(used: &mut Vec<String>, base: &[char], ext: &[char]) -> (r: String)
    requires
        old(used)@.len() < usize::MAX,
    ensures
        !views(old(used)@).contains(r@),
        views(final(used)@) == views(old(used)@).push(r@),
        exists|s: nat|
            r@ == seq_name(base@, ext@, s) && forall|i: nat|
                i < s ==> views(old(used)@).contains(#[trigger] seq_name(base@, ext@, i)),
{
    let ghost u = views(used@);
    let mut seq: usize = 0;
    proof {
        lemma_later_taken(u, base@, ext@, 0);
    }
    loop
        invariant
            u == views(used@),
            u == views(old(used)@),
            used@ == old(used)@,
            u.len() < usize::MAX,
            seq + later_taken(u, base@, ext@, seq as nat) <= u.len(),
            forall|i: nat| i < seq ==> u.contains(#[trigger] seq_name(base@, ext@, i)),
        decreases later_taken(u, base@, ext@, seq as nat),
    {
        let cand = with_seq(base, ext, seq);
        if !contains_string(used, &cand) {
            let keep = cand.clone();
            used.push(keep);
            assert(views(used@) =~= u.push(cand@));
            return cand;
        }
        proof {
            lemma_later_taken(u, base@, ext@, seq as nat);
        }
        seq += 1;
    }
}

// ------------------------------------------------------------ staging

impl StagedSource {
    /// A copy with the same contents.
    pub fn duplicate(&self) -> (s: StagedSource)
        ensures
            s == *self,
    {
        StagedSource {
            original: self.original.clone(),
            staged: self.staged.clone(),
            staged_name: self.staged_name.clone(),
            display_name: self.display_name.clone(),
            obj: self.obj.clone(),
        }
    }
}

impl StagedLibrary {
    /// A copy with the same contents.
    pub fn duplicate(&self) -> (s: StagedLibrary)
        ensures
            s == *self,
    {
        StagedLibrary {
            original: self.original.clone(),
            staged: self.staged.clone(),
            display_name: self.display_name.clone(),
        }
    }
}

pub open spec fn final_sources_ok(now: Seq<StagedSource>, before: Seq<StagedSource>, s: StagedSource) -> bool {
    now == before.push(s)
}

/// The object a staged source compiles to: its stem with `.o`.
pub open spec fn obj_name(staged_name: Seq<char>) -> Seq<char> {
    (match file_stem(staged_name) {
        Some(s) => s,
        None => staged_name,
    }) + ".o"@
}

/// The stem of the user's file, or nothing.
pub open spec fn stem_or_empty(path: Seq<char>) -> Seq<char> {
    match file_stem(path) {
        Some(s) => s,
        None => Seq::empty(),
    }
}

/// Staging in progress: the user's files are read by the application, and
/// each is judged, named and placed here before it is written.
pub struct Stager {
    layout: WorkLayout,
    preprocess: Preprocess,
    expect: Expect,
    staging: Staging,
    used: Vec<String>,
    used_libs: Vec<String>,
    total: u64,
}

impl Stager {
    pub closed spec fn wf(&self) -> bool {
        &&& self.total <= MAX_TOTAL_SOURCE_BYTES
        &&& self.used@.len() <= self.total
        &&& self.used_libs@.len() == self.staging.libraries@.len()
    }

    /// The names taken so far by sources.
    pub closed spec fn used_names(&self) -> Seq<Seq<char>> {
        views(self.used@)
    }

    pub closed spec fn used_library_names(&self) -> Seq<Seq<char>> {
        views(self.used_libs@)
    }

    pub closed spec fn root(&self) -> Seq<char> {
        self.layout.root@
    }

    pub closed spec fn bytes_so_far(&self) -> nat {
        self.total as nat
    }

    /// The directories the sources' `INCLUDE`s are looked up in.
    pub closed spec fn include_dirs(&self) -> Seq<Seq<char>> {
        views(self.staging.include_dirs@)
    }

    pub closed spec fn sources_so_far(&self) -> Seq<StagedSource> {
        self.staging.sources@
    }

    pub closed spec fn libraries_so_far(&self) -> Seq<StagedLibrary> {
        self.staging.libraries@
    }

    pub closed spec fn source_ext(&self) -> Seq<char> {
        source_ext(self.preprocess)
    }

    pub closed spec fn coff(&self) -> bool {
        self.expect.coff
    }

    pub closed spec fn expect(&self) -> Expect {
        self.expect
    }

    /// Start staging a program: refused when it has no sources.
    pub fn new(program: &Program, layout: WorkLayout, expect: Expect) -> (r: Result<Stager, EfError>)
        ensures
            program.sources@.len() == 0 <==> r matches Err(EfError::NoSources),
            r matches Ok(st) ==> st.wf() && st.root() == layout.root@ && st.bytes_so_far() == 0
                && st.used_names().len() == 0 && st.used_library_names().len() == 0
                && st.sources_so_far().len() == 0 && st.libraries_so_far().len() == 0
                && st.include_dirs() == distinct_parents(
                source_paths(program.sources@),
                program.sources@.len() as int,
            )
                && st.source_ext() == source_ext(program.options.preprocess) && st.expect()
                == expect,
    {
        if program.sources.len() == 0 {
            return Err(EfError::NoSources);
        }
        let st = Stager {
            layout,
            preprocess: program.options.preprocess,
            expect,
            staging: Staging {
                sources: Vec::new(),
                libraries: Vec::new(),
                include_dirs: program.include_dirs(),
            },
            used: Vec::new(),
            used_libs: Vec::new(),
            total: 0,
        };
        assert(views(st.used@) =~= Seq::<Seq<char>>::empty());
        assert(views(st.used_libs@) =~= Seq::<Seq<char>>::empty());
        Ok(st)
    }

    /// The directories of the work tree, to be created before anything is written.
    pub fn dirs(&self) -> (v: Vec<String>)
        ensures
            views(v@) == seq![
                join(self.root(), "src"@),
                join(self.root(), "obj"@),
                join(self.root(), "mod"@),
                join(self.root(), "tmp"@),
                join(self.root(), "out"@),
                join(self.root(), "lib"@),
            ],
    {
        self.layout.all_dirs()
    }

    /// How many libraries have been staged.
    pub fn library_count(&self) -> (n: usize)
        ensures
            n == self.libraries_so_far().len(),
    {
        self.staging.libraries.len()
    }

    /// One of the user's sources, read byte for byte from `path`. Refused when
    /// it is not Fortran source or when the sources together grow too large;
    /// otherwise named, placed, and returned so the bytes can be written to
    /// `staged`.
    pub fn add_source(&mut self, path: &str, bytes: &[u8], cats: &Catalogs) -> (r: Result<
        StagedSource,
        EfError,
    >)
        requires
            old(self).wf(),
            bytes@.len() <= isize::MAX,
        ensures
            final(self).wf(),
            final(self).include_dirs() == old(self).include_dirs(),
            final(self).root() == old(self).root(),
            final(self).source_ext() == old(self).source_ext(),
            final(self).expect() == old(self).expect(),
            final(self).libraries_so_far() == old(self).libraries_so_far(),
            final(self).used_library_names() == old(self).used_library_names(),
            match spec_check(bytes@) {
                Err(ns) => r matches Err(EfError::UnusableFile { problem, english }) && problem.reason_key@
                    == crate::build::sourcefmt::spec_key(ns) && english@
                    == crate::build::sourcefmt::spec_english(ns, *cats) && (file_name(path@) is Some
                    ==> problem.name@ == nfc_form(file_name(path@).unwrap())),
                Ok(()) => if old(self).bytes_so_far() + bytes@.len() > MAX_TOTAL_SOURCE_BYTES {
                    r matches Err(EfError::SourceTooLarge { len, limit }) && len
                        == old(self).bytes_so_far() + bytes@.len() && limit
                        == MAX_TOTAL_SOURCE_BYTES
                } else {
                    r matches Ok(s) && {
                        &&& s.original@ == path@
                        &&& !old(self).used_names().contains(s.staged_name@)
                        &&& final(self).used_names() == old(self).used_names().push(s.staged_name@)
                        &&& exists|k: nat|
                            s.staged_name@ == seq_name(
                                boring_stem(stem_or_empty(path@), "src"@),
                                old(self).source_ext(),
                                k,
                            ) && forall|i: nat|
                                i < k ==> old(self).used_names().contains(
                                    #[trigger] seq_name(
                                        boring_stem(stem_or_empty(path@), "src"@),
                                        old(self).source_ext(),
                                        i,
                                    ),
                                )
                        &&& s.staged@ == join(join(old(self).root(), "src"@), s.staged_name@)
                        &&& s.obj@ == join(join(old(self).root(), "obj"@), obj_name(s.staged_name@))
                        &&& file_name(path@) is Some ==> s.display_name@ == nfc_form(
                            file_name(path@).unwrap(),
                        )
                        &&& final(self).sources_so_far() == old(self).sources_so_far().push(s)
                        &&& final(self).bytes_so_far() == old(self).bytes_so_far() + bytes@.len()
                    }
                },
            },
            r is Err ==> final(self).used_names() == old(self).used_names()
                && final(self).sources_so_far() == old(self).sources_so_far()
                && final(self).bytes_so_far() == old(self).bytes_so_far(),
    {
        if let Err(problem) = check(bytes) {
            let name = display_file_name(path);
            return Err(
                EfError::UnusableFile {
                    problem: Box::new(problem.problem(name)),
                    english: problem.english(cats),
                },
            );
        }
        let len = bytes.len() as u64;
        if len > MAX_TOTAL_SOURCE_BYTES - self.total {
            return Err(EfError::SourceTooLarge { len: self.total + len, limit: MAX_TOTAL_SOURCE_BYTES });
        }
        proof {
            reveal_strlit("src");
            assert(bytes@.len() > 0);
        }
        let stem = match file_stem_of(path) {
            Some(s) => s,
            None => String::new(),
        };
        let base = boring_ascii_stem(stem.as_str(), "src");
        let ext = match self.preprocess {
            Preprocess::Always => chars_of("F"),
            Preprocess::Never => chars_of("f"),
        };
        let staged_name = unique_name(&mut self.used, base.as_slice(), ext.as_slice());
        self.total = self.total + len;
        let srcdir = self.layout.src();
        let objdir = self.layout.obj();
        let staged = join_of(srcdir.as_str(), staged_name.as_str());
        let stem_only = match file_stem_of(staged_name.as_str()) {
            Some(s) => s,
            None => staged_name.clone(),
        };
        let mut on: Vec<char> = Vec::new();
        push_str(&mut on, stem_only.as_str());
        push_str(&mut on, ".o");
        let objname = string_from_chars(on.as_slice());
        let obj = join_of(objdir.as_str(), objname.as_str());
        let s = StagedSource {
            original: owned(path),
            staged,
            staged_name,
            display_name: display_file_name(path),
            obj,
        };
        let keep = s.duplicate();
        self.staging.sources.push(keep);
        assert(views(self.used@).len() == self.used@.len());
        assert(views(old(self).used@).len() == old(self).used@.len());
        assert(self.used@.len() <= self.total);
        assert(self.total <= MAX_TOTAL_SOURCE_BYTES);
        assert(self.used_libs@.len() == self.staging.libraries@.len());
        assert(s.staged@ == join(join(old(self).root(), "src"@), s.staged_name@));
        assert(s.obj@ == join(join(old(self).root(), "obj"@), obj_name(s.staged_name@)));
        assert(final_sources_ok(self.staging.sources@, old(self).staging.sources@, s));
        assert(stem@ == stem_or_empty(path@));
        assert(base@ == boring_stem(stem_or_empty(path@), "src"@));
        assert(ext@ == old(self).source_ext());
        assert(s.original@ == path@);
        assert(!old(self).used_names().contains(s.staged_name@));
        assert(self.used_names() == old(self).used_names().push(s.staged_name@));
        assert(self.bytes_so_far() == old(self).bytes_so_far() + bytes@.len());
        Ok(s)
    }

    /// One of the user's libraries, read byte for byte. Refused, with the
    /// reason, when the linker could not use it; otherwise named and placed.
    pub fn add_library(&mut self, path: &str, bytes: &[u8], cats: &Catalogs) -> (r: Result<
        StagedLibrary,
        EfError,
    >)
        requires
            old(self).wf(),
            bytes@.len() < usize::MAX,
            old(self).libraries_so_far().len() < usize::MAX,
        ensures
            final(self).wf(),
            final(self).include_dirs() == old(self).include_dirs(),
            final(self).root() == old(self).root(),
            final(self).expect() == old(self).expect(),
            final(self).source_ext() == old(self).source_ext(),
            final(self).sources_so_far() == old(self).sources_so_far(),
            final(self).used_names() == old(self).used_names(),
            final(self).bytes_so_far() == old(self).bytes_so_far(),
            match spec_assess(spec_sniff(bytes@), old(self).expect()) {
                Err(reason) => r matches Err(EfError::UnusableFile { problem, english })
                    && problem.reason_key@ == crate::build::objfmt::spec_key(reason) && english@
                    == crate::build::objfmt::spec_english(reason) && (file_name(path@) is Some
                    ==> problem.name@ == nfc_form(file_name(path@).unwrap()))
                    && final(self).libraries_so_far() == old(self).libraries_so_far(),
                Ok(()) => r matches Ok(l) && {
                    &&& l.original@ == path@
                    &&& final(self).used_library_names() == old(self).used_library_names().push(
                        final(self).used_library_names().last(),
                    )
                    &&& !old(self).used_library_names().contains(
                        final(self).used_library_names().last(),
                    )
                    &&& l.staged@ == join(
                        join(old(self).root(), "lib"@),
                        final(self).used_library_names().last(),
                    )
                    &&& first_free(
                        old(self).used_library_names(),
                        boring_stem(stem_or_empty(l.display_name@), "lib"@),
                        library_ext(l.display_name@, old(self).coff()),
                        final(self).used_library_names().last(),
                    )
                    &&& final(self).libraries_so_far() == old(self).libraries_so_far().push(l)
                    &&& file_name(path@) is Some ==> l.display_name@ == nfc_form(
                        file_name(path@).unwrap(),
                    )
                },
            },
    {
        let display_name = display_file_name(path);
        let format = sniff(bytes);
        if let Err(reason) = assess(&format, self.expect) {
            return Err(
                EfError::UnusableFile {
                    problem: Box::new(reason.problem(display_name)),
                    english: reason.english(),
                },
            );
        }
        proof {
            reveal_strlit("lib");
        }
        let stem = match file_stem_of(display_name.as_str()) {
            Some(s) => s,
            None => String::new(),
        };
        let base = boring_ascii_stem(stem.as_str(), "lib");
        let ext: Vec<char> = match extension_of(display_name.as_str()) {
            Some(e) => {
                let l = lower_chars(chars_of(e.as_str()).as_slice());
                if library_extension(l.as_slice()) {
                    l
                } else if self.expect.coff {
                    chars_of("lib")
                } else {
                    chars_of("a")
                }
            },
            None => if self.expect.coff {
                chars_of("lib")
            } else {
                chars_of("a")
            },
        };
        let ghost used_before = views(self.used_libs@);
        let staged_name = unique_name(&mut self.used_libs, base.as_slice(), ext.as_slice());
        let libdir = self.layout.lib();
        let staged = join_of(libdir.as_str(), staged_name.as_str());
        let ghost dn = display_name@;
        assert(stem@ == stem_or_empty(dn));
        assert(base@ == boring_stem(stem_or_empty(dn), "lib"@));
        assert(ext@ == library_ext(dn, self.expect.coff));
        let l = StagedLibrary { original: owned(path), staged, display_name };
        let ghost kk: nat = choose|k: nat|
            staged_name@ == seq_name(base@, ext@, k) && forall|i: nat|
                i < k ==> used_before.contains(#[trigger] seq_name(base@, ext@, i));
        proof {
            let name = staged_name@;
            let k = kk;
            assert(l.staged@ == join(join(old(self).root(), "lib"@), name));
            assert(name == seq_name(
                boring_stem(stem_or_empty(l.display_name@), "lib"@),
                library_ext(l.display_name@, old(self).coff()),
                k,
            ));
            assert forall|i: nat| i < k implies old(self).used_library_names().contains(
                #[trigger] seq_name(
                    boring_stem(stem_or_empty(l.display_name@), "lib"@),
                    library_ext(l.display_name@, old(self).coff()),
                    i,
                ),
            ) by {
                assert(used_before.contains(seq_name(base@, ext@, i)));
            }
        }
        let keep = l.duplicate();
        self.staging.libraries.push(keep);
        assert(views(self.used_libs@).len() == self.used_libs@.len());
        assert(views(old(self).used_libs@).len() == old(self).used_libs@.len());
        assert(self.staging.libraries@ == old(self).staging.libraries@.push(l));
        assert(l.original@ == path@);
        assert(file_name(path@) is Some ==> l.display_name@ == nfc_form(file_name(path@).unwrap()));
        assert(self.used_library_names() == old(self).used_library_names().push(staged_name@));
        assert(!old(self).used_library_names().contains(staged_name@));
        assert(self.used_library_names().last() == staged_name@);
        assert(self.used_library_names().last() == seq_name(
            boring_stem(stem_or_empty(l.display_name@), "lib"@),
            library_ext(l.display_name@, old(self).coff()),
            kk,
        ));
        assert(self.used_library_names() == old(self).used_library_names().push(
            self.used_library_names().last(),
        ));
        assert(l.staged@ == join(join(old(self).root(), "lib"@), self.used_library_names().last()));
        assert(first_free(
            old(self).used_library_names(),
            boring_stem(stem_or_empty(l.display_name@), "lib"@),
            library_ext(l.display_name@, old(self).coff()),
            self.used_library_names().last(),
        ));
        assert(exists|k: nat|
            self.used_library_names().last() == seq_name(
                boring_stem(stem_or_empty(l.display_name@), "lib"@),
                library_ext(l.display_name@, old(self).coff()),
                k,
            ) && forall|i: nat|
                i < k ==> old(self).used_library_names().contains(
                    #[trigger] seq_name(
                        boring_stem(stem_or_empty(l.display_name@), "lib"@),
                        library_ext(l.display_name@, old(self).coff()),
                        i,
                    ),
                ));
        assert(spec_assess(spec_sniff(bytes@), old(self).expect()) is Ok);
        assert(self.libraries_so_far() == old(self).libraries_so_far().push(l));
        assert(!old(self).used_library_names().contains(self.used_library_names().last()));
        Ok(l)
    }

    /// Everything staged, in the order it was added.
    pub fn finish(self) -> (s: Staging)
        ensures
            s.sources@ == self.sources_so_far(),
            s.libraries@ == self.libraries_so_far(),
            views(s.include_dirs@) == self.include_dirs(),
    {
        self.staging
    }
}

} // verus!
