//! The rules every touch of the filesystem must pass.
//!
//! The application never modifies the user's source files. Two rules make that
//! structural: the user's files are only opened for reading, and every write,
//! create or delete is aimed inside one of the application's own write roots.
//! The reading and writing are the caller's; what is decided about a path, a
//! size or a destination is decided here.
use crate::error::EfError;
use crate::pathops::{components, extension, extension_of, norm, path_starts, path_starts_with, render};
use crate::textops::{
    chars_of, eq_ignore_ascii_case, lower_seq, owned, push_str, str_eq_ignore_ascii_case,
    string_from_chars, strs, views,
};
use vstd::prelude::*;

verus! {

/// A single source file may not exceed this. Guards against a mis-selected DVD image.
pub const MAX_SOURCE_BYTES: u64 = 8388608;

/// All staged sources together may not exceed this.
pub const MAX_TOTAL_SOURCE_BYTES: u64 = 67108864;

/// A single library may not exceed this: a static archive full of debug
/// information legitimately is larger than any source.
pub const MAX_LIBRARY_BYTES: u64 = 268435456;

/// Extensions a Fortran source file carries. One list: the export check uses
/// it to refuse writing over something that looks like the user's source, and
/// the file dialog to offer the right files.
pub open spec fn fortran_extension_list() -> Seq<Seq<char>> {
    seq!["f"@, "for"@, "f77"@, "ftn"@, "fi"@, "inc"@, "f90"@, "f95"@, "fpp"@]
}

pub fn fortran_extensions() -> (v: Vec<&'static str>)
    ensures
        strs(v@) == fortran_extension_list(),
{
    let mut v: Vec<&'static str> = Vec::new();
    v.push("f");
    v.push("for");
    v.push("f77");
    v.push("ftn");
    v.push("fi");
    v.push("inc");
    v.push("f90");
    v.push("f95");
    v.push("fpp");
    assert(strs(v@) =~= fortran_extension_list());
    v
}

/// The path's extension, in any case, is a Fortran one.
pub open spec fn spec_is_fortran_source(p: Seq<char>) -> bool {
    match extension(p) {
        Some(e) => fortran_extension_list().contains(lower_seq(e)),
        None => false,
    }
}

pub fn is_fortran_source(p: &str) -> (r: bool)
    ensures
        r == spec_is_fortran_source(p@),
{
    let e = match extension_of(p) {
        Some(e) => e,
        None => return false,
    };
    let low = crate::textops::lower_chars(chars_of(e.as_str()).as_slice());
    let list = fortran_extensions();
    for i in 0..list.len()
        invariant
            strs(list@) == fortran_extension_list(),
            low@ == lower_seq(e@),
            extension(p@) == Some(e@),
            forall|k: int| 0 <= k < i ==> fortran_extension_list()[k] != lower_seq(e@),
    {
        assert(strs(list@)[i as int] == list@[i as int]@);
        let c = chars_of(list[i]);
        if crate::textops::chars_eq(c.as_slice(), low.as_slice()) {
            assert(fortran_extension_list()[i as int] == lower_seq(e@));
            assert(fortran_extension_list().contains(lower_seq(e@)));
            return true;
        }
    }
    proof {
        if fortran_extension_list().contains(lower_seq(e@)) {
            let k = choose|k: int|
                0 <= k < fortran_extension_list().len() && fortran_extension_list()[k]
                    == lower_seq(e@);
            assert(fortran_extension_list()[k] != lower_seq(e@));
        }
    }
    false
}

/// The path with `suffix` added to its text, file name and all.
pub fn with_suffix(path: &str, suffix: &str) -> (r: String)
    ensures
        r@ == path@ + suffix@,
{
    let mut v: Vec<char> = Vec::new();
    push_str(&mut v, path);
    push_str(&mut v, suffix);
    string_from_chars(v.as_slice())
}

/// Where an atomic write rotates the previous contents, and where loading
/// looks for them when the live file will not parse.
pub fn backup_path(path: &str) -> (r: String)
    ensures
        r@ == path@ + ".bak"@,
{
    with_suffix(path, ".bak")
}

/// Where an atomic write puts the new contents before renaming them into place.
pub fn staging_path(path: &str) -> (r: String)
    ensures
        r@ == path@ + ".new"@,
{
    with_suffix(path, ".new")
}

/// A file of the user's that is too big to read: `len` against `limit`.
pub open spec fn too_large(len: u64, limit: u64) -> bool {
    len > limit
}

/// Why a user source of `len` bytes will not be read, if it will not.
pub fn source_size_refusal(len: u64) -> (r: Option<EfError>)
    ensures
        len > MAX_SOURCE_BYTES ==> r == Some(EfError::SourceTooLarge { len, limit: MAX_SOURCE_BYTES }),
        len <= MAX_SOURCE_BYTES ==> r is None,
{
    if len > MAX_SOURCE_BYTES {
        Some(EfError::SourceTooLarge { len, limit: MAX_SOURCE_BYTES })
    } else {
        None
    }
}

/// Why a user library of `len` bytes will not be read, if it will not.
pub fn library_size_refusal(len: u64) -> (r: Option<EfError>)
    ensures
        len > MAX_LIBRARY_BYTES ==> r == Some(EfError::LibraryTooLarge { len, limit: MAX_LIBRARY_BYTES }),
        len <= MAX_LIBRARY_BYTES ==> r is None,
{
    if len > MAX_LIBRARY_BYTES {
        Some(EfError::LibraryTooLarge { len, limit: MAX_LIBRARY_BYTES })
    } else {
        None
    }
}

/// The path a containment check judges: the part of the target that exists,
/// as the filesystem resolved it (`base`), with the rest (`tail`) added
/// component by component, `.` skipped and `..` taking one off. A symlinked
/// parent cannot step outside a root, and neither can `..` in a part that does
/// not exist yet.
pub open spec fn spec_resolve_for_check(base: Seq<char>, tail: Seq<char>) -> Seq<char> {
    render(norm(components(base) + components(tail)))
}

pub fn resolve_for_check(base: &str, tail: &str) -> (r: String)
    ensures
        r@ == spec_resolve_for_check(base@, tail@),
{
    let mut all = crate::pathops::components_of(base);
    let t = crate::pathops::components_of(tail);
    let ghost a = crate::pathops::comps_view(all@);
    for i in 0..t.len()
        invariant
            crate::pathops::comps_view(all@) == a + crate::pathops::comps_view(t@).take(i as int),
    {
        let ghost before = all@;
        let c = t[i].duplicate();
        all.push(c);
        assert(crate::pathops::comps_view(all@) =~= crate::pathops::comps_view(before).push(
            crate::pathops::comp_view(c),
        ));
        assert(crate::pathops::comps_view(t@)[i as int] == crate::pathops::comp_view(t@[i as int]));
        assert(crate::pathops::comps_view(all@) =~= a + crate::pathops::comps_view(t@).take(i + 1));
    }
    assert(crate::pathops::comps_view(t@).take(t@.len() as int) =~= crate::pathops::comps_view(t@));
    crate::pathops::render_components(&all)
}

/// The write roots, created and resolved to real paths by the caller.
#[derive(Debug, Clone)]
pub struct FsGuard {
    write_roots: Vec<String>,
}

/// The resolved path lies inside some root, as `Path::starts_with` judges.
pub open spec fn inside_some(resolved: Seq<char>, roots: Seq<Seq<char>>) -> bool {
    exists|i: int| 0 <= i < roots.len() && path_starts(resolved, #[trigger] roots[i])
}

/// The resolved path is one of the roots itself.
pub open spec fn is_a_root(resolved: Seq<char>, roots: Seq<Seq<char>>) -> bool {
    exists|i: int| 0 <= i < roots.len() && components(resolved) == components(#[trigger] roots[i])
}

impl View for FsGuard {
    type V = Seq<Seq<char>>;

    closed spec fn view(&self) -> Seq<Seq<char>> {
        views(self.write_roots@)
    }
}

impl FsGuard {
    pub fn new(write_roots: Vec<String>) -> (g: FsGuard)
        ensures
            g@ == views(write_roots@),
    {
        FsGuard { write_roots }
    }

    pub fn write_roots(&self) -> (r: &[String])
        ensures
            views(r@) == self@,
    {
        self.write_roots.as_slice()
    }

    /// The check behind every write: `resolved` (the target as the filesystem
    /// resolves it) must lie inside a write root. The refusal names the path as
    /// the caller gave it.
    pub fn assert_under_write_root(&self, path: &str, resolved: &str) -> (r: Result<(), EfError>)
        ensures
            inside_some(resolved@, self@) ==> r is Ok,
            !inside_some(resolved@, self@) ==> (r matches Err(EfError::EscapesWriteRoot { path: p })
                && p@ == path@),
    {
        for i in 0..self.write_roots.len()
            invariant
                forall|k: int| 0 <= k < i ==> !path_starts(resolved@, #[trigger] self@[k]),
        {
            assert(self@[i as int] == self.write_roots@[i as int]@);
            if path_starts_with(resolved, self.write_roots[i].as_str()) {
                return Ok(());
            }
        }
        Err(EfError::EscapesWriteRoot { path: owned(path) })
    }

    /// A recursive delete: inside a root, and never a root itself.
    pub fn check_remove_dir_all(&self, path: &str, resolved: &str) -> (r: Result<(), EfError>)
        ensures
            inside_some(resolved@, self@) && !is_a_root(resolved@, self@) ==> r is Ok,
            !(inside_some(resolved@, self@) && !is_a_root(resolved@, self@)) ==> (r matches Err(
                EfError::EscapesWriteRoot { path: p },
            ) && p@ == path@),
    {
        let inside = self.assert_under_write_root(path, resolved);
        if inside.is_err() {
            return inside;
        }
        let rc = crate::pathops::components_of(resolved);
        for i in 0..self.write_roots.len()
            invariant
                crate::pathops::comps_view(rc@) == components(resolved@),
                forall|k: int| 0 <= k < i ==> components(resolved@) != components(#[trigger] self@[k]),
        {
            assert(self@[i as int] == self.write_roots@[i as int]@);
            let a = path_starts_with(resolved, self.write_roots[i].as_str());
            let b = path_starts_with(self.write_roots[i].as_str(), resolved);
            proof {
                let x = components(resolved@);
                let y = components(self@[i as int]);
                if a && b {
                    assert(x =~= y);
                }
                if x == y {
                    assert(x.take(x.len() as int) =~= x);
                }
            }
            if a && b {
                return Err(EfError::EscapesWriteRoot { path: owned(path) });
            }
        }
        Ok(())
    }
}

/// Why a save may not land at `to`, if it may not: a folder, a link (a copy
/// would follow it, past the extension check), or something that looks like
/// source.
pub open spec fn spec_export_refusal(to: Seq<char>, is_dir: bool, is_symlink: bool) -> Option<Seq<char>> {
    if is_dir {
        Some(to + " is a folder, not a file name"@)
    } else if is_symlink {
        Some("refusing to write through a link: "@ + to)
    } else if spec_is_fortran_source(to) {
        Some("refusing to write over what looks like a source file: "@ + to)
    } else {
        None
    }
}

/// The rules a destination outside the data root must pass, given what the
/// filesystem says is there now.
pub fn export_refusal(to: &str, is_dir: bool, is_symlink: bool) -> (r: Option<EfError>)
    ensures
        match spec_export_refusal(to@, is_dir, is_symlink) {
            Some(m) => r matches Some(EfError::Other(x)) && x@ == m,
            None => r is None,
        },
{
    let mut v: Vec<char> = Vec::new();
    if is_dir {
        push_str(&mut v, to);
        push_str(&mut v, " is a folder, not a file name");
    } else if is_symlink {
        push_str(&mut v, "refusing to write through a link: ");
        push_str(&mut v, to);
    } else if is_fortran_source(to) {
        push_str(&mut v, "refusing to write over what looks like a source file: ");
        push_str(&mut v, to);
    } else {
        return None;
    }
    Some(EfError::Other(string_from_chars(v.as_slice())))
}

/// One directory under the work root, as the sweep sees it.
#[derive(Debug, Clone, PartialEq, Eq)]
pub struct SessionDir {
    pub name: String,
    /// Whether it is a directory, a link not followed.
    pub is_dir: bool,
    /// How long ago it was last modified, when that could be told.
    pub age_nanos: Option<u128>,
}

/// A session tree to delete: not ours, a real directory, and older than the
/// limit. Age is the only evidence that no running copy owns it.
pub open spec fn is_stale(e: SessionDir, keep: Seq<char>, older_than_nanos: u128) -> bool {
    &&& e.name@ != keep
    &&& e.is_dir
    &&& e.age_nanos matches Some(a) && a > older_than_nanos
}

/// Which of the directories under the work root to sweep, in order.
pub fn stale_sessions(entries: &[SessionDir], keep: &str, older_than_nanos: u128) -> (r: Vec<usize>)
    ensures
        forall|k: int| 0 <= k < r@.len() ==> (r@[k] as int) < entries@.len() && is_stale(
            #[trigger] entries@[r@[k] as int],
            keep@,
            older_than_nanos,
        ),
        forall|i: int|
            0 <= i < entries@.len() && is_stale(#[trigger] entries@[i], keep@, older_than_nanos)
                ==> r@.contains(i as usize),
        forall|a: int, b: int| 0 <= a < b < r@.len() ==> r@[a] < r@[b],
{
    let kc = chars_of(keep);
    let mut r: Vec<usize> = Vec::new();
    let mut i: usize = 0;
    while i < entries.len()
        invariant
            i <= entries@.len(),
            kc@ == keep@,
            forall|k: int| 0 <= k < r@.len() ==> (r@[k] as int) < i,
            forall|k: int|
                0 <= k < r@.len() ==> is_stale(#[trigger] entries@[r@[k] as int], keep@, older_than_nanos),
            forall|j: int|
                0 <= j < i && is_stale(#[trigger] entries@[j], keep@, older_than_nanos) ==> r@.contains(
                    j as usize,
                ),
            forall|a: int, b: int| 0 <= a < b < r@.len() ==> r@[a] < r@[b],
        decreases entries@.len() - i,
    {
        let e = &entries[i];
        let nc = chars_of(e.name.as_str());
        let ours = crate::textops::chars_eq(nc.as_slice(), kc.as_slice());
        let old_enough = match e.age_nanos {
            Some(a) => a > older_than_nanos,
            None => false,
        };
        let ghost before = r@;
        if !ours && e.is_dir && old_enough {
            r.push(i);
            assert(is_stale(entries@[i as int], keep@, older_than_nanos));
            assert forall|k: int| 0 <= k < r@.len() implies is_stale(
                #[trigger] entries@[r@[k] as int],
                keep@,
                older_than_nanos,
            ) by {
                if k < before.len() {
                    assert(r@[k] == before[k]);
                }
            }
            assert forall|j: int|
                0 <= j <= i && is_stale(#[trigger] entries@[j], keep@, older_than_nanos) implies r@.contains(
                j as usize,
            ) by {
                if j < i {
                    assert(before.contains(j as usize));
                    let w = choose|w: int| 0 <= w < before.len() && before[w] == j as usize;
                    assert(r@[w] == j as usize);
                } else {
                    assert(r@[r@.len() - 1] == i);
                }
            }
        } else {
            assert(!is_stale(entries@[i as int], keep@, older_than_nanos));
        }
        i += 1;
    }
    r
}

} // verus!
