//! Turning a pinned toolchain recipe into a bundle, and gathering the source
//! the bundle's licence obliges us to offer: the decisions and the documents.
//!
//! Downloading, reading archives, unpacking and copying are the caller's.
//! What a package's URL is, whether an archive matches the SHA-256 its recipe
//! pins and what follows when it does not, which files a prune keeps, whether
//! an output directory may be emptied, which compiler a bundle names, and what
//! SOURCES.md, THIRD-PARTY.md and the manifest say, are decided here.
use crate::glob::{glob, glob_from};
use crate::paths::{hex_bytes, hex_of, sha256, sha256_of};
use crate::textops::{
    chars_end_with, chars_eq, chars_of, char_suffix_len, decimal, find_from, lines, lines_of, owned,
    push_chars, push_str, slice_range, starts_with, string_from_chars, strs, trim, trim_char,
    trim_char_bounds, trim_bounds, trim_start, trim_start_index, views,
};
use vstd::prelude::*;

verus! {

/// One package of a recipe: a conda archive, pinned by hash.
#[derive(Debug, Clone, PartialEq, Eq)]
pub struct Package {
    pub name: String,
    pub version: String,
    pub subdir: String,
    pub file: String,
    pub sha256: String,
    pub size: u64,
}

/// One entry of the Corresponding Source.
#[derive(Debug, Clone, PartialEq, Eq)]
pub struct Source {
    pub component: String,
    pub version: String,
    pub url: String,
    pub sha256: Option<String>,
    pub license: String,
    pub covers: Vec<String>,
    pub note: Option<String>,
}

/// Which extracted files a bundle keeps: a drop rule wins over a keep rule.
#[derive(Debug, Clone, PartialEq, Eq)]
pub struct Prune {
    pub keep: Vec<String>,
    pub drop: Vec<String>,
}

/// A target's recipe.
#[derive(Debug, Clone, PartialEq, Eq)]
pub struct Recipe {
    pub target: String,
    pub triplet: String,
    pub gcc_version: String,
    pub channel: String,
    pub bundle_template: String,
    pub packages: Vec<Package>,
    pub prune: Prune,
    pub sources: Vec<Source>,
}

/// `str::trim_end_matches('/')`.
pub open spec fn trim_end_slashes(s: Seq<char>) -> Seq<char> {
    s.take(s.len() - char_suffix_len(s, '/'))
}

fn trim_end_slashes_exec(s: &[char]) -> (r: &[char])
    ensures
        r@ == trim_end_slashes(s@),
{
    let mut j = s.len();
    while j > 0 && s[j - 1] == '/'
        invariant
            j <= s@.len(),
            forall|k: int| j <= k < s@.len() ==> #[trigger] s@[k] == '/',
        decreases j,
    {
        j -= 1;
    }
    proof {
        crate::textops::lemma_char_suffix_len(s@, '/', j as int);
    }
    slice_range(s, 0, j)
}

impl Package {
    /// Where the package is downloaded from: derived from the channel, so a
    /// mirror change is one edit and no entry can drift out of step.
    pub fn url(&self, channel: &str) -> (s: String)
        ensures
            s@ == trim_end_slashes(channel@) + "/"@ + self.subdir@ + "/"@ + self.file@,
    {
        let c = chars_of(channel);
        let t = trim_end_slashes_exec(c.as_slice());
        let mut v: Vec<char> = Vec::new();
        push_chars(&mut v, t);
        push_str(&mut v, "/");
        push_str(&mut v, self.subdir.as_str());
        push_str(&mut v, "/");
        push_str(&mut v, self.file.as_str());
        string_from_chars(v.as_slice())
    }
}

pub open spec fn any_matches(pats: Seq<Seq<char>>, rel: Seq<char>) -> bool {
    exists|i: int| 0 <= i < pats.len() && glob_from(#[trigger] pats[i], rel, 0, 0)
}

/// A file is kept when some keep rule names it and no drop rule does.
pub open spec fn spec_keeps(keep: Seq<Seq<char>>, drop: Seq<Seq<char>>, rel: Seq<char>) -> bool {
    !any_matches(drop, rel) && any_matches(keep, rel)
}

fn any_match(pats: &Vec<String>, rel: &str) -> (r: bool)
    ensures
        r == any_matches(views(pats@), rel@),
{
    for i in 0..pats.len()
        invariant
            forall|k: int| 0 <= k < i ==> !glob_from(#[trigger] views(pats@)[k], rel@, 0, 0),
    {
        assert(views(pats@)[i as int] == pats@[i as int]@);
        if crate::glob::matches(pats[i].as_str(), rel) {
            return true;
        }
    }
    false
}

impl Prune {
    /// Whether the prune keeps the file at `rel` (a `/`-separated path
    /// inside the extracted tree).
    pub fn keeps(&self, rel: &str) -> (r: bool)
        ensures
            r == spec_keeps(views(self.keep@), views(self.drop@), rel@),
    {
        if any_match(&self.drop, rel) {
            return false;
        }
        any_match(&self.keep, rel)
    }
}

/// What to do with an output directory before filling it.
#[derive(Debug, Clone, PartialEq, Eq)]
pub enum ClearOutput {
    /// It does not exist: create it.
    Create,
    /// Empty, or a previous bundle: remove it and create it afresh.
    Replace,
    /// Refuse, with the reason.
    Refuse(String),
}

/// A directory a human typed is only emptied when it is empty or a previous
/// bundle (it has a `bundle.toml`); anything else is left alone, because the
/// alternative is a recursive delete of whatever was typed.
pub fn clear_output(dir: &str, exists: bool, is_dir: bool, has_descriptor: bool, empty: bool) -> (r: ClearOutput)
    ensures
        !exists ==> r == ClearOutput::Create,
        exists && !is_dir ==> (r matches ClearOutput::Refuse(m) && m@ == dir@ + " exists and is not a directory"@),
        exists && is_dir && !has_descriptor && !empty ==> (r matches ClearOutput::Refuse(m) && m@
            == dir@ + " is not empty and does not look like a previous bundle (no bundle.toml). Refusing to delete it; remove it yourself or choose another --out."@),
        exists && is_dir && (has_descriptor || empty) ==> r == ClearOutput::Replace,
{
    if !exists {
        return ClearOutput::Create;
    }
    let mut m: Vec<char> = Vec::new();
    if !is_dir {
        push_str(&mut m, dir);
        push_str(&mut m, " exists and is not a directory");
        return ClearOutput::Refuse(string_from_chars(m.as_slice()));
    }
    if !has_descriptor && !empty {
        push_str(&mut m, dir);
        push_str(&mut m, " is not empty and does not look like a previous bundle (no bundle.toml). Refusing to delete it; remove it yourself or choose another --out.");
        return ClearOutput::Refuse(string_from_chars(m.as_slice()));
    }
    ClearOutput::Replace
}

/// The first line of the template whose text, leading blanks aside, starts
/// with `gfortran`.
pub open spec fn first_gfortran_line(ls: Seq<Seq<char>>, k: int) -> Option<int>
    decreases ls.len() - k,
{
    if k < 0 || k >= ls.len() {
        None
    } else if starts_with(trim_start(ls[k]), "gfortran"@) {
        Some(k)
    } else {
        first_gfortran_line(ls, k + 1)
    }
}

/// What follows the first `=` of the line, up to the next `=` if any.
pub open spec fn second_field(l: Seq<char>) -> Option<Seq<char>> {
    match find_from(l, seq!['='], 0) {
        None => None,
        Some(i) => {
            let rest = l.skip(i + 1);
            match find_from(rest, seq!['='], 0) {
                None => Some(rest),
                Some(j) => Some(rest.take(j)),
            }
        },
    }
}

/// The driver a bundle template names, as a path inside the bundle, or why
/// it cannot be read. `template` names the file in messages.
pub open spec fn spec_template_driver(template: Seq<char>, text: Seq<char>) -> Result<Seq<char>, Seq<char>> {
    match first_gfortran_line(lines(text), 0) {
        None => Err(template + " does not name a `gfortran`"@),
        Some(k) => match second_field(lines(text)[k]) {
            None => Err(template + ": could not read the `gfortran` entry"@),
            Some(f) => Ok(trim_char(trim(f), '"')),
        },
    }
}

fn eq_char_at(s: &[char], c: char) -> (r: Option<usize>)
    ensures
        match r {
            Some(i) => find_from(s@, seq![c], 0) == Some(i as int) && i < s@.len(),
            None => find_from(s@, seq![c], 0) is None,
        },
{
    let mut p: Vec<char> = Vec::new();
    p.push(c);
    assert(p@ =~= seq![c]);
    let r = crate::textops::find_chars(s, p.as_slice());
    proof {
        crate::textops::lemma_find_from(s@, seq![c], 0);
    }
    r
}

pub fn template_driver(template: &str, text: &str) -> (r: Result<String, String>)
    ensures
        match spec_template_driver(template@, text@) {
            Ok(d) => r matches Ok(s) && s@ == d,
            Err(e) => r matches Err(m) && m@ == e,
        },
{
    proof {
        reveal_strlit("gfortran");
    }
    let ls = lines_of(text);
    let key = chars_of("gfortran");
    let mut k: usize = 0;
    while k < ls.len()
        invariant
            k <= ls@.len(),
            strs(ls@) == lines(text@),
            key@ == "gfortran"@,
            first_gfortran_line(lines(text@), 0) == first_gfortran_line(lines(text@), k as int),
        decreases ls@.len() - k,
    {
        assert(strs(ls@)[k as int] == ls@[k as int]@);
        let c = chars_of(ls[k]);
        let a = trim_start_index(c.as_slice());
        let t = crate::textops::slice_from(c.as_slice(), a);
        if crate::textops::chars_start_with(t, key.as_slice()) {
            let i = match eq_char_at(c.as_slice(), '=') {
                None => {
                    let mut m: Vec<char> = Vec::new();
                    push_str(&mut m, template);
                    push_str(&mut m, ": could not read the `gfortran` entry");
                    return Err(string_from_chars(m.as_slice()));
                },
                Some(i) => i,
            };
            let n = c.len();
            assert(i < n);
            let rest = crate::textops::slice_from(c.as_slice(), i + 1);
            let field = match eq_char_at(rest, '=') {
                None => rest,
                Some(j) => slice_range(rest, 0, j),
            };
            let (x, y) = trim_bounds(field);
            let tf = slice_range(field, x, y);
            let (p, q) = trim_char_bounds(tf, '"');
            return Ok(string_from_chars(slice_range(tf, p, q)));
        }
        k += 1;
    }
    let mut m: Vec<char> = Vec::new();
    push_str(&mut m, template);
    push_str(&mut m, " does not name a `gfortran`");
    Err(string_from_chars(m.as_slice()))
}

/// The manifest's text: a two-line header, then `hash  path` per file, in
/// the order given (the caller gives them sorted by path).
pub open spec fn manifest_header() -> Seq<char> {
    "# Generated by `cargo xtask fetch-toolchain`. Embedded in the application,\n# so a bundled file that goes missing or changes is detected rather than used.\n"@
}

pub open spec fn manifest_lines(entries: Seq<(Seq<char>, Seq<char>)>) -> Seq<char>
    decreases entries.len(),
{
    if entries.len() == 0 {
        Seq::empty()
    } else {
        manifest_lines(entries.drop_last()) + entries.last().1 + "  "@ + entries.last().0 + "\n"@
    }
}

pub open spec fn pair_views(v: Seq<(String, String)>) -> Seq<(Seq<char>, Seq<char>)> {
    v.map_values(|p: (String, String)| (p.0@, p.1@))
}

/// The manifest of a bundle from its `(path, sha256)` entries.
pub fn manifest_text(entries: &[(String, String)]) -> (s: String)
    ensures
        s@ == manifest_header() + manifest_lines(pair_views(entries@)),
{
    let mut v: Vec<char> = Vec::new();
    push_str(&mut v, "# Generated by `cargo xtask fetch-toolchain`. Embedded in the application,\n# so a bundled file that goes missing or changes is detected rather than used.\n");
    let ghost head = v@;
    let ghost ev = pair_views(entries@);
    assert(ev.take(0) =~= Seq::<(Seq<char>, Seq<char>)>::empty());
    for i in 0..entries.len()
        invariant
            ev == pair_views(entries@),
            v@ == head + manifest_lines(ev.take(i as int)),
    {
        assert(ev.take(i + 1).drop_last() =~= ev.take(i as int));
        assert(ev.take(i + 1).last() == (entries@[i as int].0@, entries@[i as int].1@));
        let ghost before = v@;
        push_str(&mut v, entries[i].1.as_str());
        push_str(&mut v, "  ");
        push_str(&mut v, entries[i].0.as_str());
        push_str(&mut v, "\n");
        assert(v@ =~= head + manifest_lines(ev.take(i + 1)));
    }
    assert(ev.take(entries@.len() as int) =~= ev);
    string_from_chars(v.as_slice())
}

// ------------------------------------------------------------ sources

/// The last `/`-separated piece of a URL: the file it names.
pub open spec fn last_segment(url: Seq<char>) -> Seq<char> {
    url.skip(url.len() - char_suffix_len_not_slash(url))
}

/// How many characters end the URL without a `/` among them.
pub open spec fn char_suffix_len_not_slash(s: Seq<char>) -> nat
    decreases s.len(),
{
    if s.len() > 0 && s.last() != '/' {
        1 + char_suffix_len_not_slash(s.drop_last())
    } else {
        0
    }
}

proof fn lemma_not_slash_bound(s: Seq<char>)
    ensures
        char_suffix_len_not_slash(s) <= s.len(),
    decreases s.len(),
{
    if s.len() > 0 && s.last() != '/' {
        lemma_not_slash_bound(s.drop_last());
    }
}

proof fn lemma_not_slash_len(s: Seq<char>, i: int)
    requires
        0 <= i <= s.len(),
        forall|k: int| i <= k < s.len() ==> #[trigger] s[k] != '/',
        i == 0 || s[i - 1] == '/',
    ensures
        char_suffix_len_not_slash(s) == s.len() - i,
    decreases s.len() - i,
{
    if i < s.len() {
        lemma_not_slash_len(s.drop_last(), i);
    }
}

pub fn source_file_name(url: &str) -> (s: String)
    ensures
        s@ == last_segment(url@),
{
    let c = chars_of(url);
    let mut j = c.len();
    while j > 0 && c[j - 1] != '/'
        invariant
            j <= c@.len(),
            forall|k: int| j <= k < c@.len() ==> #[trigger] c@[k] != '/',
        decreases j,
    {
        j -= 1;
    }
    proof {
        lemma_not_slash_len(c@, j as int);
    }
    string_from_chars(crate::textops::slice_from(c.as_slice(), j))
}

/// A source whose URL names a file (it has a `.`) and not just a project
/// page ending in the component's name is downloaded; others are listed.
pub open spec fn spec_looks_like_a_file(file: Seq<char>, url: Seq<char>, component: Seq<char>) -> bool {
    file.contains('.') && !crate::textops::ends_with(trim_end_slashes(url), component)
}

pub fn looks_like_a_file(file: &str, url: &str, component: &str) -> (r: bool)
    ensures
        r == spec_looks_like_a_file(file@, url@, component@),
{
    let f = chars_of(file);
    let mut dot = false;
    for i in 0..f.len()
        invariant
            dot == exists|k: int| 0 <= k < i && f@[k] == '.',
    {
        if f[i] == '.' {
            dot = true;
        }
    }
    proof {
        if dot {
            let k = choose|k: int| 0 <= k < f@.len() && f@[k] == '.';
            assert(f@.contains('.'));
        } else {
            assert(!f@.contains('.'));
        }
    }
    let u = chars_of(url);
    let t = trim_end_slashes_exec(u.as_slice());
    let c = chars_of(component);
    dot && !chars_end_with(t, c.as_slice())
}

/// `{:<n}`: padded with spaces to `n` characters.
pub open spec fn pad(s: Seq<char>, n: nat) -> Seq<char> {
    if s.len() >= n {
        s
    } else {
        s + Seq::new((n - s.len()) as nat, |i: int| ' ')
    }
}

fn push_padded(v: &mut Vec<char>, s: &str, n: usize)
    ensures
        final(v)@ == old(v)@ + pad(s@, n as nat),
{
    let c = chars_of(s);
    push_chars(v, c.as_slice());
    let ghost mid = v@;
    let mut k = c.len();
    while k < n
        invariant
            c@ == s@,
            c@.len() <= k <= n || (k == c@.len() && k > n),
            v@ == mid + Seq::new((k - c@.len()) as nat, |i: int| ' '),
        decreases n - k,
    {
        v.push(' ');
        k += 1;
        assert(v@ =~= mid + Seq::new((k - c@.len()) as nat, |i: int| ' '));
    }
    proof {
        if c@.len() >= n {
            assert(Seq::new((k - c@.len()) as nat, |i: int| ' ') =~= Seq::<char>::empty());
        }
        assert(v@ =~= old(v)@ + pad(s@, n as nat));
    }
}

/// The line `--list` prints for a source: component, version, URL.
pub fn listing_line(component: &str, version: &str, url: &str) -> (s: String)
    ensures
        s@ == "  "@ + pad(component@, 28) + " "@ + pad(version@, 24) + " "@ + url@,
{
    let mut v: Vec<char> = Vec::new();
    push_str(&mut v, "  ");
    push_padded(&mut v, component, 28);
    push_str(&mut v, " ");
    push_padded(&mut v, version, 24);
    push_str(&mut v, " ");
    push_str(&mut v, url);
    string_from_chars(v.as_slice())
}

pub const SOURCES_INTRO: &'static str = "The binaries shipped with this application include GCC and GNU binutils, which are\nlicensed under the GNU General Public License version 3. GPLv3 section 6 requires\nthat the source be available from the same place as the binaries, for as long as\nthe binaries are distributed.\n\nThis directory is that source. Each entry below names what it covers.\n\nNote that GPLv3 section 1 counts the build scripts as part of the Corresponding\nSource, which is why the conda-forge recipes and their patches are listed: the\nbinaries are built from patched GCC, so the upstream tarball alone is not enough.\n\n";

/// `", "` between the items.
pub open spec fn joined(ns: Seq<Seq<char>>) -> Seq<char>
    decreases ns.len(),
{
    if ns.len() == 0 {
        Seq::empty()
    } else if ns.len() == 1 {
        ns[0]
    } else {
        joined(ns.drop_last()) + ", "@ + ns.last()
    }
}

/// What a source covers, in words.
pub open spec fn covers_text(covers: Seq<Seq<char>>) -> Seq<char> {
    if covers.contains("all"@) {
        "everything in the bundle"@
    } else {
        joined(covers)
    }
}

/// A row of SOURCES.md: a source, its file name, and whether it was fetched.
pub open spec fn row_view(s: Source, file: Seq<char>, fetched: bool) -> Seq<char> {
    "| "@ + s.component@ + " | "@ + s.version@ + " | "@ + s.license@ + " | "@ + covers_text(
        views(s.covers@),
    ) + " | "@ + (if fetched {
        "`"@ + file + "`"@
    } else {
        "<"@ + s.url@ + ">"@
    }) + " |\n"@
}

pub open spec fn checksum_view(s: Source, file: Seq<char>, fetched: bool) -> Seq<char> {
    if fetched && s.sha256 is Some {
        "- `"@ + file + "`\n  - sha256 `"@ + s.sha256.unwrap()@ + "`\n  - from <"@ + s.url@ + ">\n"@
    } else {
        Seq::empty()
    }
}

pub open spec fn note_view(s: Source) -> Seq<char> {
    match s.note {
        Some(n) => "- **"@ + s.component@ + "**: "@ + n@ + "\n"@,
        None => Seq::empty(),
    }
}

/// A row: the index of its source in the recipe, the file name, fetched.
pub type Row = (usize, String, bool);

pub open spec fn rows_ok(rows: Seq<Row>, sources: Seq<Source>) -> bool {
    forall|i: int| 0 <= i < rows.len() ==> (#[trigger] rows[i]).0 < sources.len()
}

pub open spec fn table_rows(rows: Seq<Row>, sources: Seq<Source>) -> Seq<char>
    decreases rows.len(),
{
    if rows.len() == 0 {
        Seq::empty()
    } else {
        table_rows(rows.drop_last(), sources) + row_view(
            sources[rows.last().0 as int],
            rows.last().1@,
            rows.last().2,
        )
    }
}

pub open spec fn checksum_rows(rows: Seq<Row>, sources: Seq<Source>) -> Seq<char>
    decreases rows.len(),
{
    if rows.len() == 0 {
        Seq::empty()
    } else {
        checksum_rows(rows.drop_last(), sources) + checksum_view(
            sources[rows.last().0 as int],
            rows.last().1@,
            rows.last().2,
        )
    }
}

pub open spec fn note_rows(rows: Seq<Row>, sources: Seq<Source>) -> Seq<char>
    decreases rows.len(),
{
    if rows.len() == 0 {
        Seq::empty()
    } else {
        note_rows(rows.drop_last(), sources) + note_view(sources[rows.last().0 as int])
    }
}

pub open spec fn any_note(rows: Seq<Row>, sources: Seq<Source>) -> bool {
    exists|i: int| 0 <= i < rows.len() && (#[trigger] sources[rows[i].0 as int]).note is Some
}

/// SOURCES.md: what the Corresponding Source directory holds and covers.
pub open spec fn spec_sources_md(r: Recipe, rows: Seq<Row>) -> Seq<char> {
    "# Corresponding Source\n\n"@ + SOURCES_INTRO@ + "Toolchain: "@ + r.target@ + " ("@ + r.triplet@
        + "), GCC "@ + r.gcc_version@ + ".\n\n"@
        + "| Component | Version | Licence | Covers | File or location |\n"@
        + "|---|---|---|---|---|\n"@ + table_rows(rows, r.sources@) + "\n## Checksums\n\n"@
        + checksum_rows(rows, r.sources@) + (if any_note(rows, r.sources@) {
        "\n## Notes\n\n"@ + note_rows(rows, r.sources@)
    } else {
        Seq::empty()
    })
}

fn push_joined(v: &mut Vec<char>, ns: &Vec<String>)
    ensures
        final(v)@ == old(v)@ + joined(views(ns@)),
{
    let ghost start = v@;
    assert(views(ns@).take(0) =~= Seq::<Seq<char>>::empty());
    for i in 0..ns.len()
        invariant
            v@ == start + joined(views(ns@).take(i as int)),
    {
        assert(views(ns@).take(i + 1).drop_last() =~= views(ns@).take(i as int));
        assert(views(ns@).take(i + 1).last() == ns@[i as int]@);
        let ghost before = v@;
        if i > 0 {
            push_str(v, ", ");
        }
        push_str(v, ns[i].as_str());
        assert(v@ =~= start + joined(views(ns@).take(i + 1)));
    }
    assert(views(ns@).take(ns@.len() as int) =~= views(ns@));
}

fn covers_all(covers: &Vec<String>) -> (r: bool)
    ensures
        r == views(covers@).contains("all"@),
{
    for i in 0..covers.len()
        invariant
            forall|k: int| 0 <= k < i ==> views(covers@)[k] != "all"@,
    {
        assert(views(covers@)[i as int] == covers@[i as int]@);
        let c = chars_of(covers[i].as_str());
        let a = chars_of("all");
        if crate::textops::chars_eq(c.as_slice(), a.as_slice()) {
            assert(views(covers@)[i as int] == "all"@);
            return true;
        }
    }
    false
}

fn push_row(v: &mut Vec<char>, s: &Source, file: &str, fetched: bool)
    ensures
        final(v)@ == old(v)@ + row_view(*s, file@, fetched),
{
    push_str(v, "| ");
    push_str(v, s.component.as_str());
    push_str(v, " | ");
    push_str(v, s.version.as_str());
    push_str(v, " | ");
    push_str(v, s.license.as_str());
    push_str(v, " | ");
    if covers_all(&s.covers) {
        push_str(v, "everything in the bundle");
    } else {
        push_joined(v, &s.covers);
    }
    push_str(v, " | ");
    if fetched {
        push_str(v, "`");
        push_str(v, file);
        push_str(v, "`");
    } else {
        push_str(v, "<");
        push_str(v, s.url.as_str());
        push_str(v, ">");
    }
    push_str(v, " |\n");
    assert(final(v)@ =~= old(v)@ + row_view(*s, file@, fetched));
}

fn push_checksum(v: &mut Vec<char>, s: &Source, file: &str, fetched: bool)
    ensures
        final(v)@ == old(v)@ + checksum_view(*s, file@, fetched),
{
    if fetched {
        match &s.sha256 {
            Some(h) => {
                push_str(v, "- `");
                push_str(v, file);
                push_str(v, "`\n  - sha256 `");
                push_str(v, h.as_str());
                push_str(v, "`\n  - from <");
                push_str(v, s.url.as_str());
                push_str(v, ">\n");
                assert(final(v)@ =~= old(v)@ + checksum_view(*s, file@, fetched));
                return;
            },
            None => {},
        }
    }
    assert(final(v)@ =~= old(v)@ + checksum_view(*s, file@, fetched));
}

fn push_note(v: &mut Vec<char>, s: &Source)
    ensures
        final(v)@ == old(v)@ + note_view(*s),
{
    match &s.note {
        Some(n) => {
            push_str(v, "- **");
            push_str(v, s.component.as_str());
            push_str(v, "**: ");
            push_str(v, n.as_str());
            push_str(v, "\n");
        },
        None => {},
    }
    assert(final(v)@ =~= old(v)@ + note_view(*s));
}

/// SOURCES.md for the recipe, from the rows gathered.
pub fn sources_md(r: &Recipe, rows: &[Row]) -> (s: String)
    requires
        rows_ok(rows@, r.sources@),
    ensures
        s@ == spec_sources_md(*r, rows@),
{
    let mut v: Vec<char> = Vec::new();
    push_str(&mut v, "# Corresponding Source\n\n");
    push_str(&mut v, SOURCES_INTRO);
    push_str(&mut v, "Toolchain: ");
    push_str(&mut v, r.target.as_str());
    push_str(&mut v, " (");
    push_str(&mut v, r.triplet.as_str());
    push_str(&mut v, "), GCC ");
    push_str(&mut v, r.gcc_version.as_str());
    push_str(&mut v, ".\n\n");
    push_str(&mut v, "| Component | Version | Licence | Covers | File or location |\n");
    push_str(&mut v, "|---|---|---|---|---|\n");
    let ghost head = v@;
    assert(rows@.take(0) =~= Seq::<Row>::empty());
    for i in 0..rows.len()
        invariant
            rows_ok(rows@, r.sources@),
            v@ == head + table_rows(rows@.take(i as int), r.sources@),
    {
        assert(rows@.take(i + 1).drop_last() =~= rows@.take(i as int));
        assert(rows@.take(i + 1).last() == rows@[i as int]);
        let (k, file, fetched) = (rows[i].0, &rows[i].1, rows[i].2);
        assert(rows@[i as int].0 < r.sources@.len());
        push_row(&mut v, &r.sources[k], file.as_str(), fetched);
    }
    assert(rows@.take(rows@.len() as int) =~= rows@);
    let ghost t = v@;
    push_str(&mut v, "\n## Checksums\n\n");
    let ghost c0 = v@;
    for i in 0..rows.len()
        invariant
            rows_ok(rows@, r.sources@),
            v@ == c0 + checksum_rows(rows@.take(i as int), r.sources@),
    {
        assert(rows@.take(i + 1).drop_last() =~= rows@.take(i as int));
        assert(rows@.take(i + 1).last() == rows@[i as int]);
        assert(rows@[i as int].0 < r.sources@.len());
        push_checksum(&mut v, &r.sources[rows[i].0], rows[i].1.as_str(), rows[i].2);
    }
    assert(rows@.take(rows@.len() as int) =~= rows@);
    let ghost c1 = v@;
    let mut has_note = false;
    for i in 0..rows.len()
        invariant
            rows_ok(rows@, r.sources@),
            has_note == exists|k: int| 0 <= k < i && (#[trigger] r.sources@[rows@[k].0 as int]).note is Some,
    {
        assert(rows@[i as int].0 < r.sources@.len());
        if r.sources[rows[i].0].note.is_some() {
            has_note = true;
        }
    }
    if has_note {
        push_str(&mut v, "\n## Notes\n\n");
        let ghost n0 = v@;
        for i in 0..rows.len()
            invariant
                rows_ok(rows@, r.sources@),
                v@ == n0 + note_rows(rows@.take(i as int), r.sources@),
        {
            assert(rows@.take(i + 1).drop_last() =~= rows@.take(i as int));
            assert(rows@.take(i + 1).last() == rows@[i as int]);
            assert(rows@[i as int].0 < r.sources@.len());
            push_note(&mut v, &r.sources[rows[i].0]);
        }
        assert(rows@.take(rows@.len() as int) =~= rows@);
    }
    assert(v@ =~= spec_sources_md(*r, rows@));
    string_from_chars(v.as_slice())
}

// ------------------------------------------------------------ licences

pub const LICENCE_INTRO: &'static str = "Easy Fortran 77 itself is licensed MIT OR Apache-2.0 (`LICENSE-MIT`,\n`LICENSE-APACHE`). It is deliberately permissive, so that its own terms cannot\nrestrict anyone's rights over the GNU toolchain shipped alongside it.\n\n## The bundled compiler\n\nThe `toolchain/` directory is the GNU Compiler Collection and GNU Binutils,\nlicensed under the GNU General Public License version 3 (`gpl-3.0.txt`).\n\nEasy Fortran 77 runs the compiler as a separate program, communicating through\ncommand-line arguments and pipes. Under GPLv3 section 5 that is an aggregate,\nnot a combined work.\n\n**Programs you compile are yours.** The parts of the compiler's runtime that end\nup inside your program carry the GCC Runtime Library Exception\n(`gcc-runtime-library-exception-3.1.txt`), which places no licensing requirement\non what you build, static linking included.\n\n## Components\n\n";

pub const SOURCE_OFFER: &'static str = "GPLv3 section 6 entitles you to the source for the binaries above. It is\npublished alongside this download, on the same page, for as long as this\nrelease is available. If you cannot find it there, ask and we will send it.\n\n";

pub const SCRIPTS_NOTE: &'static str = "\nThe build scripts count too: GPLv3 section 1 includes \"scripts to control\nthose activities\", and the compiler is built from patched sources, so the\nconda-forge recipes are part of the Corresponding Source rather than a\ncourtesy.\n";

pub const FONTS_NOTE: &'static str = "\n## Fonts\n\nNone are bundled. The interface uses a font already on the machine.\n";

/// The licence files shipped beside the binaries, by name.
pub fn licence_files() -> (v: Vec<&'static str>)
    ensures
        strs(v@) == seq!["LICENSE-MIT"@, "LICENSE-APACHE"@, "gpl-3.0.txt"@, "gcc-runtime-library-exception-3.1.txt"@],
{
    let mut v: Vec<&'static str> = Vec::new();
    v.push("LICENSE-MIT");
    v.push("LICENSE-APACHE");
    v.push("gpl-3.0.txt");
    v.push("gcc-runtime-library-exception-3.1.txt");
    assert(strs(v@) =~= seq!["LICENSE-MIT"@, "LICENSE-APACHE"@, "gpl-3.0.txt"@, "gcc-runtime-library-exception-3.1.txt"@]);
    v
}

pub open spec fn package_rows(ps: Seq<Package>) -> Seq<char>
    decreases ps.len(),
{
    if ps.len() == 0 {
        Seq::empty()
    } else {
        package_rows(ps.drop_last()) + "| "@ + ps.last().name@ + " | "@ + ps.last().version@ + " |\n"@
    }
}

pub open spec fn source_rows(ss: Seq<Source>) -> Seq<char>
    decreases ss.len(),
{
    if ss.len() == 0 {
        Seq::empty()
    } else {
        source_rows(ss.drop_last()) + "| "@ + ss.last().component@ + " | "@ + ss.last().version@
            + " | "@ + ss.last().license@ + " | <"@ + ss.last().url@ + "> |\n"@
    }
}

/// THIRD-PARTY.md: what is shipped, under which licences, and where the
/// source is.
pub open spec fn spec_third_party_md(version: Seq<char>, r: Recipe) -> Seq<char> {
    "# Third-party software in Easy Fortran 77 "@ + version + "\n\n"@ + LICENCE_INTRO@
        + "| Package | Version |\n|---|---|\n"@ + package_rows(r.packages@)
        + "\n## Source code\n\n"@ + SOURCE_OFFER@ + (if r.sources@.len() == 0 {
        "_No source entries are recorded for this target yet._\n"@
    } else {
        "| Component | Version | Licence | Where |\n|---|---|---|---|\n"@ + source_rows(r.sources@)
            + SCRIPTS_NOTE@
    }) + FONTS_NOTE@
}

pub fn third_party_md(version: &str, r: &Recipe) -> (s: String)
    ensures
        s@ == spec_third_party_md(version@, *r),
{
    let mut v: Vec<char> = Vec::new();
    push_str(&mut v, "# Third-party software in Easy Fortran 77 ");
    push_str(&mut v, version);
    push_str(&mut v, "\n\n");
    push_str(&mut v, LICENCE_INTRO);
    push_str(&mut v, "| Package | Version |\n|---|---|\n");
    let ghost h = v@;
    assert(r.packages@.take(0) =~= Seq::<Package>::empty());
    for i in 0..r.packages.len()
        invariant
            v@ == h + package_rows(r.packages@.take(i as int)),
    {
        assert(r.packages@.take(i + 1).drop_last() =~= r.packages@.take(i as int));
        assert(r.packages@.take(i + 1).last() == r.packages@[i as int]);
        let ghost before = v@;
        push_str(&mut v, "| ");
        push_str(&mut v, r.packages[i].name.as_str());
        push_str(&mut v, " | ");
        push_str(&mut v, r.packages[i].version.as_str());
        push_str(&mut v, " |\n");
        assert(v@ =~= h + package_rows(r.packages@.take(i + 1)));
    }
    assert(r.packages@.take(r.packages@.len() as int) =~= r.packages@);
    push_str(&mut v, "\n## Source code\n\n");
    push_str(&mut v, SOURCE_OFFER);
    let ghost m = v@;
    if r.sources.len() == 0 {
        push_str(&mut v, "_No source entries are recorded for this target yet._\n");
    } else {
        push_str(&mut v, "| Component | Version | Licence | Where |\n|---|---|---|---|\n");
        let ghost h2 = v@;
        assert(r.sources@.take(0) =~= Seq::<Source>::empty());
        for i in 0..r.sources.len()
            invariant
                v@ == h2 + source_rows(r.sources@.take(i as int)),
        {
            assert(r.sources@.take(i + 1).drop_last() =~= r.sources@.take(i as int));
            assert(r.sources@.take(i + 1).last() == r.sources@[i as int]);
            let s = &r.sources[i];
            push_str(&mut v, "| ");
            push_str(&mut v, s.component.as_str());
            push_str(&mut v, " | ");
            push_str(&mut v, s.version.as_str());
            push_str(&mut v, " | ");
            push_str(&mut v, s.license.as_str());
            push_str(&mut v, " | <");
            push_str(&mut v, s.url.as_str());
            push_str(&mut v, "> |\n");
            assert(v@ =~= h2 + source_rows(r.sources@.take(i + 1)));
        }
        assert(r.sources@.take(r.sources@.len() as int) =~= r.sources@);
        push_str(&mut v, SCRIPTS_NOTE);
    }
    push_str(&mut v, FONTS_NOTE);
    assert(v@ =~= spec_third_party_md(version@, *r));
    string_from_chars(v.as_slice())
}


// ------------------------------------------------------------ arguments

/// What `fetch-toolchain` or `fetch-sources` was asked to do: the target,
/// where to write, and the task's own switch (`--offline` or `--list`).
#[derive(Debug, Clone, PartialEq, Eq)]
pub struct FetchArgs {
    pub target: String,
    pub out: Option<String>,
    pub switch: bool,
}

/// The arguments from `k` on, read onto what was read before.
pub open spec fn read_fetch(args: Seq<Seq<char>>, k: int, switch_name: Seq<char>, usage: Seq<char>, target: Seq<char>, out: Option<Seq<char>>, switch: bool) -> Result<(Seq<char>, Option<Seq<char>>, bool), Seq<char>>
    decreases args.len() - k,
{
    if k < 0 || k >= args.len() {
        Ok((target, out, switch))
    } else if args[k] == "--target"@ {
        if k + 1 >= args.len() {
            Err("--target needs a value"@)
        } else {
            read_fetch(args, k + 2, switch_name, usage, args[k + 1], out, switch)
        }
    } else if args[k] == "--out"@ {
        if k + 1 >= args.len() {
            Err("--out needs a path"@)
        } else {
            read_fetch(args, k + 2, switch_name, usage, target, Some(args[k + 1]), switch)
        }
    } else if args[k] == switch_name {
        read_fetch(args, k + 1, switch_name, usage, target, out, true)
    } else {
        Err("unknown option `"@ + args[k] + "`\n\n"@ + usage)
    }
}

fn same(a: &String, b: &str) -> (r: bool)
    ensures
        r == (a@ == b@),
{
    let ac = chars_of(a.as_str());
    let bc = chars_of(b);
    crate::textops::chars_eq(ac.as_slice(), bc.as_slice())
}

/// Read the arguments of a fetch task whose own switch is `switch_name`; the
/// target is `linux-x86_64` unless named.
pub fn parse_fetch_args(args: &[String], switch_name: &str, usage: &str) -> (r: Result<FetchArgs, String>)
    ensures
        match read_fetch(views(args@), 0, switch_name@, usage@, "linux-x86_64"@, None, false) {
            Ok((t, o, sw)) => r matches Ok(x) && x.target@ == t && x.switch == sw && match o {
                Some(p) => x.out matches Some(q) && q@ == p,
                None => x.out is None,
            },
            Err(e) => r matches Err(m) && m@ == e,
        },
{
    let ghost a = views(args@);
    let mut target = owned("linux-x86_64");
    let mut out: Option<String> = None;
    let mut switch = false;
    let mut k: usize = 0;
    while k < args.len()
        invariant
            k <= args@.len(),
            a == views(args@),
            read_fetch(a, 0, switch_name@, usage@, "linux-x86_64"@, None, false) == read_fetch(
                a,
                k as int,
                switch_name@,
                usage@,
                target@,
                match out {
                    Some(p) => Some(p@),
                    None => None,
                },
                switch,
            ),
        decreases args@.len() - k,
    {
        let x = &args[k];
        assert(a[k as int] == x@);
        if same(x, "--target") {
            if k + 1 >= args.len() {
                return Err(owned("--target needs a value"));
            }
            target = args[k + 1].clone();
            k += 2;
        } else if same(x, "--out") {
            if k + 1 >= args.len() {
                return Err(owned("--out needs a path"));
            }
            out = Some(args[k + 1].clone());
            k += 2;
        } else if same(x, switch_name) {
            switch = true;
            k += 1;
        } else {
            let mut m: Vec<char> = Vec::new();
            push_str(&mut m, "unknown option `");
            push_str(&mut m, x.as_str());
            push_str(&mut m, "`\n\n");
            push_str(&mut m, usage);
            return Err(string_from_chars(m.as_slice()));
        }
    }
    Ok(FetchArgs { target, out, switch })
}

/// The usage line of `fetch-toolchain`.
pub const TOOLCHAIN_USAGE: &'static str = "USAGE: cargo xtask fetch-toolchain [--target <name>] [--out <dir>] [--offline]";

/// The usage line of `fetch-sources`.
pub const SOURCES_USAGE: &'static str = "USAGE: cargo xtask fetch-sources [--target <name>] [--out <dir>] [--list]";

/// The SHA-256 of some bytes, as the lowercase hexadecimal a recipe pins.
pub fn sha256_hex(bytes: &[u8]) -> (r: String)
    ensures
        r@ == hex_bytes(sha256_of(bytes@)),
{
    let digest = sha256(bytes);
    let hex = hex_of(digest.as_slice());
    string_from_chars(hex.as_slice())
}

/// Does an archive on hand match its pin? No archive (`None`: nothing there,
/// or not a file) never does.
pub fn archive_verified(bytes: Option<&[u8]>, want: &str) -> (r: bool)
    ensures
        r == (bytes matches Some(b) && hex_bytes(sha256_of(b@)) == want@),
{
    match bytes {
        None => false,
        Some(b) => {
            let got = sha256_hex(b);
            let gc = chars_of(got.as_str());
            let wc = chars_of(want);
            chars_eq(gc.as_slice(), wc.as_slice())
        },
    }
}

/// What to do with one package before extracting it: `Ok(false)` uses the
/// verified archive on hand, `Ok(true)` downloads it, and offline mode refuses
/// a missing or failing archive by naming the file.
pub fn package_step(have: bool, offline: bool, file: &str) -> (r: Result<bool, String>)
    ensures
        have ==> r == Ok::<bool, String>(false),
        !have && offline ==> (r matches Err(m) && m@ == file@
            + " is missing or fails its checksum, and --offline was given"@),
        !have && !offline ==> r == Ok::<bool, String>(true),
{
    if have {
        Ok(false)
    } else if offline {
        let mut m: Vec<char> = Vec::new();
        push_str(&mut m, file);
        push_str(&mut m, " is missing or fails its checksum, and --offline was given");
        Err(string_from_chars(m.as_slice()))
    } else {
        Ok(true)
    }
}

/// The check after a download: the digest of what arrived against the pin.
pub fn after_download(got: &str, want: &str, file: &str) -> (r: Result<(), String>)
    ensures
        r is Ok <==> got@ == want@,
        r matches Err(m) ==> m@ == "checksum mismatch for "@ + file@ + "\n  expected "@ + want@
            + "\n  got      "@ + got@,
{
    let gc = chars_of(got);
    let wc = chars_of(want);
    if chars_eq(gc.as_slice(), wc.as_slice()) {
        Ok(())
    } else {
        let mut m: Vec<char> = Vec::new();
        push_str(&mut m, "checksum mismatch for ");
        push_str(&mut m, file);
        push_str(&mut m, "\n  expected ");
        push_str(&mut m, want);
        push_str(&mut m, "\n  got      ");
        push_str(&mut m, got);
        Err(string_from_chars(m.as_slice()))
    }
}

} // verus!
