//! How to drive a bundled toolchain.
//!
//! A relocatable compiler has to be told where its own sysroot and startup
//! files are, or it silently falls back to the host's. Each bundle ships a
//! `bundle.toml` saying how to drive it; `${ROOT}` in it stands for wherever
//! the bundle was installed. A descriptor is data, and it must never be able to
//! aim the bundled toolchain at anything outside the bundle.
use crate::error::EfError;
use crate::pathops::{join, join_of, lexical_normalize, path_starts, path_starts_with, spec_lexical_normalize};
use crate::textops::{
    chars_of, owned, push_str, replace_all, replace_from, string_from_chars, trim, trim_bounds,
    views,
};
use vstd::prelude::*;

verus! {

/// The file a bundle ships beside its `bin/` directory.
pub const BUNDLE_FILE: &'static str = "bundle.toml";

/// Stands for the bundle's absolute root, substituted when it is loaded.
pub const ROOT_TOKEN: &'static str = "${ROOT}";

/// What `bundle.toml` says, as read.
#[derive(Debug, Clone, PartialEq, Eq)]
pub struct BundleDescriptor {
    /// Stable identity of this toolchain, e.g. `winlibs-gcc-16.2.0-ucrt`.
    pub id: String,
    pub version: String,
    /// Path to the driver, relative to the bundle root.
    pub gfortran: String,
    /// Put before every compile invocation.
    pub compile_flags: Vec<String>,
    /// Put before every link invocation.
    pub link_flags: Vec<String>,
    /// Extra environment for the child, in key order, each key once.
    pub env: Vec<(String, String)>,
    /// Directories put on the child's PATH, relative to the bundle root.
    pub path_dirs: Vec<String>,
    /// Suffix the bundle's *target* gives executables, e.g. `.exe`.
    pub exe_suffix: Option<String>,
    /// Program used to run the bundle's binaries, e.g. `wine`.
    pub launcher: Option<String>,
}

/// `bin/gfortran` with the host's executable suffix.
pub fn default_gfortran_path(host_exe_suffix: &str) -> (s: String)
    ensures
        s@ == "bin/gfortran"@ + host_exe_suffix@,
{
    let mut v: Vec<char> = Vec::new();
    push_str(&mut v, "bin/gfortran");
    push_str(&mut v, host_exe_suffix);
    string_from_chars(v.as_slice())
}

impl BundleDescriptor {
    /// What a bundle with no descriptor, or a descriptor that leaves a field
    /// out, gets: the driver at `bin/gfortran`, and `bin` on the PATH.
    pub fn defaults(host_exe_suffix: &str) -> (d: BundleDescriptor)
        ensures
            d.id@.len() == 0,
            d.version@.len() == 0,
            d.gfortran@ == "bin/gfortran"@ + host_exe_suffix@,
            d.compile_flags@.len() == 0,
            d.link_flags@.len() == 0,
            d.env@.len() == 0,
            views(d.path_dirs@) == seq!["bin"@],
            d.exe_suffix is None,
            d.launcher is None,
    {
        let mut dirs: Vec<String> = Vec::new();
        dirs.push(owned("bin"));
        assert(views(dirs@) =~= seq!["bin"@]);
        BundleDescriptor {
            id: String::new(),
            version: String::new(),
            gfortran: default_gfortran_path(host_exe_suffix),
            compile_flags: Vec::new(),
            link_flags: Vec::new(),
            env: Vec::new(),
            path_dirs: dirs,
            exe_suffix: None,
            launcher: None,
        }
    }
}

/// A descriptor with every `${ROOT}` resolved against a real directory.
#[derive(Debug, Clone, PartialEq, Eq)]
pub struct Bundle {
    pub root: String,
    pub id: String,
    pub version: String,
    pub gfortran: String,
    pub compile_flags: Vec<String>,
    pub link_flags: Vec<String>,
    pub env: Vec<(String, String)>,
    pub path_dirs: Vec<String>,
    pub exe_suffix: Option<String>,
    pub launcher: Option<String>,
}

/// Every `${ROOT}` in `s` replaced by the root.
pub open spec fn with_root(s: Seq<char>, root: Seq<char>) -> Seq<char> {
    replace_from(s, ROOT_TOKEN@, root, 0)
}

pub open spec fn with_roots(v: Seq<Seq<char>>, root: Seq<char>) -> Seq<Seq<char>> {
    v.map_values(|s: Seq<char>| with_root(s, root))
}

pub open spec fn pair_views(v: Seq<(String, String)>) -> Seq<(Seq<char>, Seq<char>)> {
    v.map_values(|p: (String, String)| (p.0@, p.1@))
}

pub open spec fn sub_values(v: Seq<(Seq<char>, Seq<char>)>, root: Seq<char>) -> Seq<(Seq<char>, Seq<char>)> {
    v.map_values(|p: (Seq<char>, Seq<char>)| (p.0, with_root(p.1, root)))
}

/// Why a descriptor path was refused: the field and what is wrong with it.
pub open spec fn refusal(field: Seq<char>, why: Seq<char>) -> Seq<char> {
    "bundle.toml: `"@ + field + "` "@ + why
}

/// A descriptor path resolved against the root, `.` and `..` worked out on
/// the text, and refused unless the result is still inside the root. The
/// reason comes back when it is refused.
pub open spec fn spec_join_inside(root: Seq<char>, resolved: Seq<char>, field: Seq<char>) -> Result<Seq<char>, Seq<char>> {
    if trim(resolved).len() == 0 {
        Err(refusal(field, "is empty"@))
    } else {
        let norm = spec_lexical_normalize(join(root, resolved));
        if !path_starts(norm, root) {
            Err(refusal(field, "must stay inside the bundle, got `"@ + resolved + "`"@))
        } else {
            Ok(norm)
        }
    }
}

fn invalid(root: &str, field: &str, why: &str, got: Option<&str>) -> (e: EfError)
    ensures
        e matches EfError::ToolchainInvalid { path, reason } && path@ == root@ && reason@
            == refusal(
            field@,
            match got {
                Some(g) => why@ + g@ + "`"@,
                None => why@,
            },
        ),
{
    let mut v: Vec<char> = Vec::new();
    push_str(&mut v, "bundle.toml: `");
    push_str(&mut v, field);
    push_str(&mut v, "` ");
    push_str(&mut v, why);
    match got {
        Some(g) => {
            push_str(&mut v, g);
            push_str(&mut v, "`");
        },
        None => {},
    }
    proof {
        let w = match got {
            Some(g) => why@ + g@ + "`"@,
            None => why@,
        };
        assert(v@ =~= refusal(field@, w));
    }
    EfError::ToolchainInvalid { path: owned(root), reason: string_from_chars(v.as_slice()) }
}

/// Resolve a descriptor-supplied path against the bundle root, refusing
/// anything that ends up outside it. The check is on the resolved path, not on
/// how it was written: `${ROOT}/bin` is fine, `/usr/bin` and `../../usr/bin`
/// are not.
pub fn join_inside(root: &str, resolved: &str, field: &str) -> (r: Result<String, EfError>)
    ensures
        match spec_join_inside(root@, resolved@, field@) {
            Ok(p) => r matches Ok(s) && s@ == p,
            Err(why) => r matches Err(EfError::ToolchainInvalid { path, reason }) && path@ == root@
                && reason@ == why,
        },
        r matches Ok(s) ==> path_starts(s@, root@),
{
    proof {
        reveal_strlit("is empty");
        reveal_strlit("must stay inside the bundle, got `");
    }
    let rc = chars_of(resolved);
    let (a, b) = trim_bounds(rc.as_slice());
    if a == b {
        let e = invalid(root, field, "is empty", None);
        return Err(e);
    }
    let joined = join_of(root, resolved);
    let norm = lexical_normalize(joined.as_str());
    if !path_starts_with(norm.as_str(), root) {
        let e = invalid(root, field, "must stay inside the bundle, got `", Some(resolved));
        proof {
            assert("must stay inside the bundle, got `"@ + resolved@ + "`"@ =~= ("must stay inside the bundle, got `"@ + resolved@) + "`"@);
        }
        return Err(e);
    }
    Ok(norm)
}

/// Every `${ROOT}` in `s` replaced by `root`.
fn substitute_root(s: &str, root: &str) -> (r: String)
    ensures
        r@ == with_root(s@, root@),
{
    proof {
        reveal_strlit("${ROOT}");
    }
    let sc = chars_of(s);
    let tok = chars_of(ROOT_TOKEN);
    let rc = chars_of(root);
    let out = replace_all(sc.as_slice(), tok.as_slice(), rc.as_slice());
    string_from_chars(out.as_slice())
}

fn substitute_all(v: &Vec<String>, root: &str) -> (r: Vec<String>)
    ensures
        views(r@) == with_roots(views(v@), root@),
{
    let mut r: Vec<String> = Vec::new();
    for i in 0..v.len()
        invariant
            views(r@) == with_roots(views(v@), root@).take(i as int),
    {
        let ghost before = r@;
        let x = substitute_root(v[i].as_str(), root);
        r.push(x);
        proof {
            crate::textops::lemma_views_push(before, x);
            assert(views(v@)[i as int] == v@[i as int]@);
        }
        assert(views(r@) =~= with_roots(views(v@), root@).take(i + 1));
    }
    assert(with_roots(views(v@), root@).take(v@.len() as int) =~= with_roots(views(v@), root@));
    r
}

/// The directories, each resolved inside the root, in order; the first
/// refusal stops them.
pub open spec fn resolved_dirs(root: Seq<char>, dirs: Seq<Seq<char>>) -> Result<Seq<Seq<char>>, Seq<char>>
    decreases dirs.len(),
{
    if dirs.len() == 0 {
        Ok(Seq::empty())
    } else {
        match resolved_dirs(root, dirs.drop_last()) {
            Err(e) => Err(e),
            Ok(v) => match spec_join_inside(root, with_root(dirs.last(), root), "path_dirs"@) {
                Err(e) => Err(e),
                Ok(p) => Ok(v.push(p)),
            },
        }
    }
}

/// A path that needs no searching.
pub open spec fn is_absolute(p: Seq<char>) -> bool {
    p.len() > 0 && p[0] == '/'
}

/// `which::which`: where a program of that name is found on this process's
/// PATH. What it finds depends on the environment and the disk, so nothing is
/// said of it.
#[verifier::external_body]
fn which_on_path(name: &str) -> (r: Option<String>) {
    which::which(name).ok().map(|p| p.to_string_lossy().into_owned())
}

/// Find a launcher on the *parent's* PATH, keeping the name when it cannot be
/// found so that the failure names the program the descriptor asked for. The
/// child's PATH is scrubbed down to the bundle, where a bare `wine` would not
/// be found.
pub fn resolve_launcher(name: &str) -> (r: String)
    ensures
        is_absolute(name@) ==> r@ == name@,
{
    let c = chars_of(name);
    if c.len() > 0 && c[0] == '/' {
        return owned(name);
    }
    match which_on_path(name) {
        Some(p) => p,
        None => owned(name),
    }
}

pub open spec fn opt_view(o: Option<String>) -> Option<Seq<char>> {
    match o {
        Some(s) => Some(s@),
        None => None,
    }
}

/// What resolving a descriptor gives: everything `${ROOT}`-substituted, the
/// driver and the PATH directories confined to the root.
pub open spec fn resolved_as(b: Bundle, root: Seq<char>, d: BundleDescriptor, g: Seq<char>, dirs: Seq<Seq<char>>) -> bool {
    &&& b.root@ == root
    &&& b.id == d.id
    &&& b.version == d.version
    &&& b.gfortran@ == g
    &&& views(b.path_dirs@) == dirs
    &&& views(b.compile_flags@) == with_roots(views(d.compile_flags@), root)
    &&& views(b.link_flags@) == with_roots(views(d.link_flags@), root)
    &&& pair_views(b.env@) == sub_values(pair_views(d.env@), root)
    &&& b.exe_suffix == d.exe_suffix
    &&& (d.launcher is None <==> b.launcher is None)
    &&& (d.launcher is Some && is_absolute(d.launcher->0@) ==> opt_view(b.launcher) == opt_view(d.launcher))
}

impl Bundle {
    /// Resolve a descriptor against the bundle's root, which the caller has
    /// made absolute: flags and paths are handed to a child whose working
    /// directory is the build tree.
    pub fn resolve(root: &str, d: BundleDescriptor) -> (r: Result<Bundle, EfError>)
        ensures
            match spec_join_inside(root@, with_root(d.gfortran@, root@), "gfortran"@) {
                Err(why) => r matches Err(EfError::ToolchainInvalid { path, reason }) && path@
                    == root@ && reason@ == why,
                Ok(g) => match resolved_dirs(root@, views(d.path_dirs@)) {
                    Err(why) => r matches Err(EfError::ToolchainInvalid { path, reason }) && path@
                        == root@ && reason@ == why,
                    Ok(dirs) => r matches Ok(b) && resolved_as(b, root@, d, g, dirs),
                },
            },
            r matches Ok(b) ==> path_starts(b.gfortran@, root@) && forall|i: int|
                0 <= i < b.path_dirs@.len() ==> path_starts(#[trigger] b.path_dirs@[i]@, root@),
    {
        proof {
            reveal_strlit("gfortran");
            reveal_strlit("path_dirs");
        }
        let g = substitute_root(d.gfortran.as_str(), root);
        let gfortran = match join_inside(root, g.as_str(), "gfortran") {
            Ok(x) => x,
            Err(e) => return Err(e),
        };
        let mut path_dirs: Vec<String> = Vec::new();
        let ghost dv = views(d.path_dirs@);
        assert(dv.take(0) =~= Seq::<Seq<char>>::empty());
        assert(views(path_dirs@) =~= Seq::<Seq<char>>::empty());
        for i in 0..d.path_dirs.len()
            invariant
                dv == views(d.path_dirs@),
                spec_join_inside(root@, with_root(d.gfortran@, root@), "gfortran"@) == Ok::<
                    Seq<char>,
                    Seq<char>,
                >(gfortran@),
                resolved_dirs(root@, dv.take(i as int)) == Ok::<Seq<Seq<char>>, Seq<char>>(
                    views(path_dirs@),
                ),
                forall|k: int|
                    0 <= k < path_dirs@.len() ==> path_starts(#[trigger] path_dirs@[k]@, root@),
        {
            assert(dv.take(i + 1).drop_last() =~= dv.take(i as int));
            assert(dv[i as int] == d.path_dirs@[i as int]@);
            let p = substitute_root(d.path_dirs[i].as_str(), root);
            let joined = match join_inside(root, p.as_str(), "path_dirs") {
                Ok(j) => j,
                Err(e) => {
                    proof {
                        lemma_resolved_dirs_stop(root@, dv, i as int);
                    }
                    return Err(e);
                },
            };
            let ghost before = path_dirs@;
            path_dirs.push(joined);
            assert(views(path_dirs@) =~= views(before).push(joined@));
        }
        assert(dv.take(d.path_dirs@.len() as int) =~= dv);
        let compile_flags = substitute_all(&d.compile_flags, root);
        let link_flags = substitute_all(&d.link_flags, root);
        let mut env: Vec<(String, String)> = Vec::new();
        for i in 0..d.env.len()
            invariant
                pair_views(env@) == sub_values(pair_views(d.env@), root@).take(i as int),
        {
            let k = d.env[i].0.clone();
            let v = substitute_root(d.env[i].1.as_str(), root);
            let ghost before = env@;
            env.push((k, v));
            assert(pair_views(env@) =~= pair_views(before).push((k@, v@)));
            assert(pair_views(d.env@)[i as int] == (d.env@[i as int].0@, d.env@[i as int].1@));
            assert(pair_views(env@) =~= sub_values(pair_views(d.env@), root@).take(i + 1));
        }
        assert(sub_values(pair_views(d.env@), root@).take(d.env@.len() as int) =~= sub_values(
            pair_views(d.env@),
            root@,
        ));
        let launcher = match &d.launcher {
            Some(l) => Some(resolve_launcher(l.as_str())),
            None => None,
        };
        Ok(
            Bundle {
                root: owned(root),
                id: d.id,
                version: d.version,
                gfortran,
                compile_flags,
                link_flags,
                env,
                path_dirs,
                exe_suffix: d.exe_suffix,
                launcher,
            },
        )
    }

    /// Load a bundle from what reading its descriptor gave: nothing when there
    /// is no descriptor, which is fine for a plain `bin/gfortran` bundle; the
    /// parser's complaint when the text is not a valid descriptor; otherwise
    /// the resolved bundle. `file` is the descriptor's path, named in errors.
    pub fn load(root: &str, file: &str, read: Option<Result<BundleDescriptor, String>>) -> (r: Result<Option<Bundle>, EfError>)
        ensures
            match read {
                None => r == Ok::<Option<Bundle>, EfError>(None),
                Some(Err(m)) => r matches Err(EfError::ToolchainInvalid { path, reason }) && path@
                    == file@ && reason@ == "bundle.toml is malformed: "@ + m@,
                Some(Ok(d)) => match spec_join_inside(root@, with_root(d.gfortran@, root@), "gfortran"@) {
                    Err(why) => r matches Err(EfError::ToolchainInvalid { path, reason }) && path@
                        == root@ && reason@ == why,
                    Ok(g) => match resolved_dirs(root@, views(d.path_dirs@)) {
                        Err(why) => r matches Err(EfError::ToolchainInvalid { path, reason })
                            && path@ == root@ && reason@ == why,
                        Ok(dirs) => r matches Ok(Some(b)) && resolved_as(b, root@, d, g, dirs),
                    },
                },
            },
    {
        match read {
            None => Ok(None),
            Some(Err(m)) => {
                let mut v: Vec<char> = Vec::new();
                push_str(&mut v, "bundle.toml is malformed: ");
                push_str(&mut v, m.as_str());
                Err(EfError::ToolchainInvalid { path: owned(file), reason: string_from_chars(v.as_slice()) })
            },
            Some(Ok(d)) => match Bundle::resolve(root, d) {
                Ok(b) => Ok(Some(b)),
                Err(e) => Err(e),
            },
        }
    }
}

proof fn lemma_resolved_dirs_stop(root: Seq<char>, dv: Seq<Seq<char>>, i: int)
    requires
        0 <= i < dv.len(),
        resolved_dirs(root, dv.take(i)) is Ok,
        spec_join_inside(root, with_root(dv[i], root), "path_dirs"@) is Err,
    ensures
        resolved_dirs(root, dv) == Err::<Seq<Seq<char>>, Seq<char>>(
            spec_join_inside(root, with_root(dv[i], root), "path_dirs"@)->Err_0,
        ),
    decreases dv.len() - i,
{
    assert(dv.take(i + 1).drop_last() =~= dv.take(i));
    assert(dv.take(i + 1).last() == dv[i]);
    if i + 1 == dv.len() {
        assert(dv.take(i + 1) =~= dv);
    } else {
        lemma_resolved_dirs_err_stays(root, dv, i + 1);
    }
}

proof fn lemma_resolved_dirs_err_stays(root: Seq<char>, dv: Seq<Seq<char>>, j: int)
    requires
        0 < j <= dv.len(),
        resolved_dirs(root, dv.take(j)) is Err,
    ensures
        resolved_dirs(root, dv) == resolved_dirs(root, dv.take(j)),
    decreases dv.len() - j,
{
    if j == dv.len() {
        assert(dv.take(j) =~= dv);
    } else {
        assert(dv.take(j + 1).drop_last() =~= dv.take(j));
        lemma_resolved_dirs_err_stays(root, dv, j + 1);
    }
}

} // verus!
