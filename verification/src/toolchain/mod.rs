//! Finding and describing the Fortran compiler.
//!
//! One code path serves a bundled compiler and a system one. Which flags work
//! is found out by probing, so there are no per-platform flag tables here; what
//! differs per platform is handed in as plain values (`HostEnv`).
use crate::error::EfError;
use crate::pathops::{components, join_of, parent, parent_of};
use crate::paths::WorkLayout;
use crate::text::{display_path, nfc_form};
use crate::textops::{
    chars_eq, chars_of, decode_lossy, eq_ignore_ascii_case, lower_seq, owned, push_str,
    str_eq_ignore_ascii_case, string_from_chars, trim, trim_bounds, utf8_lossy, views,
};
use bundle::{pair_views, Bundle};
use probe::FlagCapabilities;
use vstd::prelude::*;

pub mod bundle;
pub mod probe;

verus! {

#[derive(Debug, Clone, Copy, PartialEq, Eq, Structural)]
pub enum ToolchainKind {
    /// Shipped inside our own installation directory.
    Bundled,
    /// Found on PATH. Development and testing.
    System,
    /// Pointed at explicitly by settings or `EF77_TOOLCHAIN`.
    UserSpecified,
}

#[derive(Debug, Clone, PartialEq, Eq)]
pub struct ToolchainId {
    pub kind: ToolchainKind,
    pub version: String,
    pub path: String,
}

impl ToolchainId {
    /// A short label for the interface: "gfortran 16.2.0", or the driver's
    /// path when its version is not known.
    pub fn display(&self) -> (s: String)
        ensures
            self.version@.len() > 0 ==> s@ == "gfortran "@ + self.version@,
            self.version@.len() == 0 ==> (s@ == nfc_form(self.path@) || (self.path@.len() >= 4
                && s@ == nfc_form(self.path@.skip(4)))),
    {
        let v = chars_of(self.version.as_str());
        if v.len() == 0 {
            display_path(self.path.as_str())
        } else {
            let mut m: Vec<char> = Vec::new();
            push_str(&mut m, "gfortran ");
            push_str(&mut m, self.version.as_str());
            string_from_chars(m.as_slice())
        }
    }
}

/// What the compiler's environment is built from that only the host knows.
#[derive(Debug, Clone, PartialEq, Eq)]
pub struct HostEnv {
    /// The host is Windows: `;` between PATH entries, and the Windows
    /// variables a child needs.
    pub windows: bool,
    /// `%SystemRoot%`, on Windows.
    pub system_root: Option<String>,
    /// `$HOME`, elsewhere.
    pub home: Option<String>,
}

/// Variables that must never reach the compiler, because they inject search
/// paths into a build.
pub open spec fn banned_names() -> Seq<Seq<char>> {
    seq![
        "LIBRARY_PATH"@,
        "CPATH"@,
        "C_INCLUDE_PATH"@,
        "CPLUS_INCLUDE_PATH"@,
        "OBJC_INCLUDE_PATH"@,
        "FPATH"@,
        "LD_LIBRARY_PATH"@,
        "LD_PRELOAD"@,
        "GFORTRAN_STDIN_UNIT"@,
        "GFORTRAN_STDOUT_UNIT"@,
        "GFORTRAN_STDERR_UNIT"@,
    ]
}

pub open spec fn is_banned(name: Seq<char>) -> bool {
    exists|i: int| 0 <= i < banned_names().len() && eq_ignore_ascii_case(name, #[trigger] banned_names()[i])
}

pub fn banned_env() -> (v: Vec<&'static str>)
    ensures
        crate::textops::strs(v@) == banned_names(),
{
    let mut v: Vec<&'static str> = Vec::new();
    v.push("LIBRARY_PATH");
    v.push("CPATH");
    v.push("C_INCLUDE_PATH");
    v.push("CPLUS_INCLUDE_PATH");
    v.push("OBJC_INCLUDE_PATH");
    v.push("FPATH");
    v.push("LD_LIBRARY_PATH");
    v.push("LD_PRELOAD");
    v.push("GFORTRAN_STDIN_UNIT");
    v.push("GFORTRAN_STDOUT_UNIT");
    v.push("GFORTRAN_STDERR_UNIT");
    assert(crate::textops::strs(v@) =~= banned_names());
    v
}

fn banned(name: &str) -> (r: bool)
    ensures
        r == is_banned(name@),
{
    let list = banned_env();
    for i in 0..list.len()
        invariant
            crate::textops::strs(list@) == banned_names(),
            forall|k: int| 0 <= k < i ==> !eq_ignore_ascii_case(name@, #[trigger] banned_names()[k]),
    {
        assert(crate::textops::strs(list@)[i as int] == list@[i as int]@);
        if str_eq_ignore_ascii_case(name, list[i]) {
            return true;
        }
    }
    false
}

pub open spec fn path_sep(windows: bool) -> Seq<char> {
    if windows {
        seq![';']
    } else {
        seq![':']
    }
}

/// Two directories name the same place as `Path` compares them: component by
/// component.
pub open spec fn same_dir(d: Seq<char>, p: Option<Seq<char>>) -> bool {
    match p {
        Some(pd) => components(d) == components(pd),
        None => false,
    }
}

/// The bundle's PATH directories, each followed by the separator, leaving out
/// the driver's own directory, which is already first.
pub open spec fn extra_dirs(dirs: Seq<Seq<char>>, driver_dir: Option<Seq<char>>, windows: bool) -> Seq<char>
    decreases dirs.len(),
{
    if dirs.len() == 0 {
        Seq::empty()
    } else {
        extra_dirs(dirs.drop_last(), driver_dir, windows) + if same_dir(dirs.last(), driver_dir) {
            Seq::empty()
        } else {
            dirs.last() + path_sep(windows)
        }
    }
}

/// `%SystemRoot%`, or where Windows normally is.
pub open spec fn system_root(h: HostEnv) -> Seq<char> {
    match h.system_root {
        Some(s) => s@,
        None => "C:\\Windows"@,
    }
}

/// `System32` under the system root, joined as Windows joins.
pub open spec fn system32(root: Seq<char>) -> Seq<char> {
    if root.len() > 0 && (root.last() == '\\' || root.last() == '/') {
        root + "System32"@
    } else {
        root + "\\System32"@
    }
}

/// The compiler's PATH: its own directory first, then the bundle's others,
/// then, on Windows, `System32`.
pub open spec fn spec_path(gfortran: Seq<char>, dirs: Seq<Seq<char>>, h: HostEnv) -> Seq<char> {
    (match parent(gfortran) {
        Some(d) => d + path_sep(h.windows),
        None => Seq::empty(),
    }) + extra_dirs(dirs, parent(gfortran), h.windows) + if h.windows {
        system32(system_root(h))
    } else {
        Seq::empty()
    }
}

/// The variables set for every compiler run, before any the bundle adds.
pub open spec fn our_env(gfortran: Seq<char>, dirs: Seq<Seq<char>>, tmp: Seq<char>, h: HostEnv) -> Seq<(Seq<char>, Seq<char>)> {
    (if h.windows {
        seq![
            ("SystemRoot"@, system_root(h)),
            ("windir"@, system_root(h)),
            ("TMP"@, tmp),
            ("TEMP"@, tmp),
        ]
    } else {
        seq![("LANG"@, "C.UTF-8"@), ("LC_ALL"@, "C.UTF-8"@)] + match h.home {
            Some(home) => seq![("HOME"@, home@)],
            None => Seq::empty(),
        }
    }) + seq![("PATH"@, spec_path(gfortran, dirs, h)), ("TMPDIR"@, tmp)]
}

pub open spec fn is_ours(name: Seq<char>, ours: Seq<(Seq<char>, Seq<char>)>) -> bool {
    exists|i: int| 0 <= i < ours.len() && eq_ignore_ascii_case(#[trigger] ours[i].0, name)
}

/// The bundle's variables that it may set: none banned, none of ours.
pub open spec fn kept(env: Seq<(Seq<char>, Seq<char>)>, ours: Seq<(Seq<char>, Seq<char>)>) -> Seq<(Seq<char>, Seq<char>)>
    decreases env.len(),
{
    if env.len() == 0 {
        Seq::empty()
    } else {
        kept(env.drop_last(), ours) + if is_banned(env.last().0) || is_ours(env.last().0, ours) {
            Seq::empty()
        } else {
            seq![env.last()]
        }
    }
}

pub open spec fn bundle_dirs(b: Option<Bundle>) -> Seq<Seq<char>> {
    match b {
        Some(b) => views(b.path_dirs@),
        None => Seq::empty(),
    }
}

pub open spec fn bundle_env(b: Option<Bundle>) -> Seq<(Seq<char>, Seq<char>)> {
    match b {
        Some(b) => pair_views(b.env@),
        None => Seq::empty(),
    }
}

/// The compiler's whole environment: ours, then what the bundle may add.
pub open spec fn spec_scrubbed_env(gfortran: Seq<char>, b: Option<Bundle>, tmp: Seq<char>, h: HostEnv) -> Seq<(Seq<char>, Seq<char>)> {
    let ours = our_env(gfortran, bundle_dirs(b), tmp, h);
    ours + kept(bundle_env(b), ours)
}

fn push_pair(env: &mut Vec<(String, String)>, k: &str, v: &str)
    ensures
        pair_views(final(env)@) == pair_views(old(env)@).push((k@, v@)),
{
    let ghost before = env@;
    env.push((owned(k), owned(v)));
    assert(pair_views(env@) =~= pair_views(before).push((k@, v@)));
}

fn dir_components_eq(a: &str, b: &str) -> (r: bool)
    ensures
        r == (components(a@) == components(b@)),
{
    let x = crate::pathops::path_starts_with(a, b);
    let y = crate::pathops::path_starts_with(b, a);
    proof {
        if x && y {
            assert(components(a@) =~= components(b@));
        }
        if components(a@) == components(b@) {
            assert(components(a@).take(components(a@).len() as int) =~= components(a@));
        }
    }
    x && y
}

fn copy_pairs(v: &Vec<(String, String)>) -> (r: Vec<(String, String)>)
    ensures
        pair_views(r@) == pair_views(v@),
{
    let mut r: Vec<(String, String)> = Vec::new();
    for i in 0..v.len()
        invariant
            pair_views(r@) == pair_views(v@).take(i as int),
    {
        let ghost before = r@;
        let a = v[i].0.clone();
        let b = v[i].1.clone();
        r.push((a, b));
        assert(pair_views(r@) =~= pair_views(before).push((a@, b@)));
        assert(pair_views(v@)[i as int] == (v@[i as int].0@, v@[i as int].1@));
        assert(pair_views(r@) =~= pair_views(v@).take(i + 1));
    }
    assert(pair_views(v@).take(v@.len() as int) =~= pair_views(v@));
    r
}

fn path_value(gfortran: &str, dirs: &[String], h: &HostEnv) -> (r: String)
    ensures
        r@ == spec_path(gfortran@, views(dirs@), *h),
{
    let sep = if h.windows {
        ";"
    } else {
        ":"
    };
    assert(sep@ == path_sep(h.windows)) by {
        reveal_strlit(";");
        reveal_strlit(":");
    }
    let mut p: Vec<char> = Vec::new();
    let driver_dir = parent_of(gfortran);
    match &driver_dir {
        Some(d) => {
            push_str(&mut p, d.as_str());
            push_str(&mut p, sep);
        },
        None => {},
    }
    let ghost dd: Option<Seq<char>> = parent(gfortran@);
    let ghost lead = p@;
    assert(views(dirs@).take(0) =~= Seq::<Seq<char>>::empty());
    for i in 0..dirs.len()
        invariant
            sep@ == path_sep(h.windows),
            dd == parent(gfortran@),
            match driver_dir {
                Some(d) => dd == Some(d@),
                None => dd is None,
            },
            p@ == lead + extra_dirs(views(dirs@).take(i as int), dd, h.windows),
    {
        assert(views(dirs@).take(i + 1).drop_last() =~= views(dirs@).take(i as int));
        assert(views(dirs@).take(i + 1).last() == dirs@[i as int]@);
        let same = match &driver_dir {
            Some(d) => dir_components_eq(dirs[i].as_str(), d.as_str()),
            None => false,
        };
        let ghost before = p@;
        if !same {
            push_str(&mut p, dirs[i].as_str());
            push_str(&mut p, sep);
        }
        assert(p@ =~= lead + extra_dirs(views(dirs@).take(i + 1), dd, h.windows));
    }
    assert(views(dirs@).take(dirs@.len() as int) =~= views(dirs@));
    if h.windows {
        let root: String = match &h.system_root {
            Some(s) => s.clone(),
            None => owned("C:\\Windows"),
        };
        let rc = chars_of(root.as_str());
        push_str(&mut p, root.as_str());
        if !(rc.len() > 0 && (rc[rc.len() - 1] == '\\' || rc[rc.len() - 1] == '/')) {
            push_str(&mut p, "\\");
        }
        push_str(&mut p, "System32");
        proof {
            reveal_strlit("\\");
            reveal_strlit("System32");
            reveal_strlit("\\System32");
            assert(p@ =~= spec_path(gfortran@, views(dirs@), *h));
        }
    } else {
        assert(p@ =~= spec_path(gfortran@, views(dirs@), *h));
    }
    string_from_chars(p.as_slice())
}

fn ours_has(ours: &Vec<(String, String)>, name: &str) -> (r: bool)
    ensures
        r == is_ours(name@, pair_views(ours@)),
{
    for i in 0..ours.len()
        invariant
            forall|k: int|
                0 <= k < i ==> !eq_ignore_ascii_case(#[trigger] pair_views(ours@)[k].0, name@),
    {
        assert(pair_views(ours@)[i as int].0 == ours@[i as int].0@);
        if str_eq_ignore_ascii_case(ours[i].0.as_str(), name) {
            return true;
        }
    }
    false
}

/// Build the compiler's environment from nothing: the driver's directory
/// first on PATH, temporary files inside the build tree, and whatever the
/// bundle adds that is neither banned nor already ours. One function, so real
/// builds and the capability probe see the same environment.
pub fn scrubbed_env(gfortran: &str, bundle: Option<&Bundle>, tmp: &str, h: &HostEnv) -> (env: Vec<(String, String)>)
    ensures
        pair_views(env@) == spec_scrubbed_env(gfortran@, match bundle {
            Some(b) => Some(*b),
            None => None,
        }, tmp@, *h),
{
    let ghost b: Option<Bundle> = match bundle {
        Some(b) => Some(*b),
        None => None,
    };
    let empty: Vec<String> = Vec::new();
    let dirs: &[String] = match bundle {
        Some(bb) => bb.path_dirs.as_slice(),
        None => empty.as_slice(),
    };
    assert(views(dirs@) == bundle_dirs(b)) by {
        if bundle is None {
            assert(views(dirs@) =~= Seq::<Seq<char>>::empty());
        }
    }
    let path = path_value(gfortran, dirs, h);
    let mut env: Vec<(String, String)> = Vec::new();
    if h.windows {
        let root: String = match &h.system_root {
            Some(s) => s.clone(),
            None => owned("C:\\Windows"),
        };
        push_pair(&mut env, "SystemRoot", root.as_str());
        push_pair(&mut env, "windir", root.as_str());
        push_pair(&mut env, "TMP", tmp);
        push_pair(&mut env, "TEMP", tmp);
    } else {
        push_pair(&mut env, "LANG", "C.UTF-8");
        push_pair(&mut env, "LC_ALL", "C.UTF-8");
        match &h.home {
            Some(home) => push_pair(&mut env, "HOME", home.as_str()),
            None => {},
        }
    }
    push_pair(&mut env, "PATH", path.as_str());
    push_pair(&mut env, "TMPDIR", tmp);
    let ghost ours = our_env(gfortran@, bundle_dirs(b), tmp@, *h);
    assert(pair_views(env@) =~= ours);
    match bundle {
        None => {
            assert(kept(Seq::empty(), ours) =~= Seq::<(Seq<char>, Seq<char>)>::empty());
            assert(pair_views(env@) =~= ours + kept(bundle_env(b), ours));
        },
        Some(bb) => {
            let ours_v = copy_pairs(&env);
            let ghost be = pair_views(bb.env@);
            assert(be.take(0) =~= Seq::<(Seq<char>, Seq<char>)>::empty());
            for i in 0..bb.env.len()
                invariant
                    be == pair_views(bb.env@),
                    pair_views(ours_v@) == ours,
                    pair_views(env@) == ours + kept(be.take(i as int), ours),
            {
                assert(be.take(i + 1).drop_last() =~= be.take(i as int));
                assert(be.take(i + 1).last() == (bb.env@[i as int].0@, bb.env@[i as int].1@));
                let k = bb.env[i].0.as_str();
                let v = bb.env[i].1.as_str();
                let ghost before = env@;
                if !banned(k) && !ours_has(&ours_v, k) {
                    push_pair(&mut env, k, v);
                }
                assert(pair_views(env@) =~= ours + kept(be.take(i + 1), ours));
            }
            assert(be.take(bb.env@.len() as int) =~= be);
        },
    }
    env
}

proof fn lemma_banned_lengths()
    ensures
        forall|j: int|
            0 <= j < banned_names().len() ==> {
                let n = #[trigger] banned_names()[j].len();
                n == 5 || n == 10 || n == 12 || n == 14 || n == 15 || n == 17 || n == 18 || n
                    == 19 || n == 20
            },
        forall|j: int|
            0 <= j < banned_names().len() && #[trigger] banned_names()[j].len() == 10 ==> j == 7,
        banned_names()[7][0] == 'L',
{
    reveal_strlit("LIBRARY_PATH");
    reveal_strlit("CPATH");
    reveal_strlit("C_INCLUDE_PATH");
    reveal_strlit("CPLUS_INCLUDE_PATH");
    reveal_strlit("OBJC_INCLUDE_PATH");
    reveal_strlit("FPATH");
    reveal_strlit("LD_LIBRARY_PATH");
    reveal_strlit("LD_PRELOAD");
    reveal_strlit("GFORTRAN_STDIN_UNIT");
    reveal_strlit("GFORTRAN_STDOUT_UNIT");
    reveal_strlit("GFORTRAN_STDERR_UNIT");
}

/// A name whose length no banned name has is not banned.
proof fn lemma_not_banned_by_length(k: Seq<char>)
    requires
        k.len() == 3 || k.len() == 4 || k.len() == 6,
    ensures
        !is_banned(k),
{
    lemma_banned_lengths();
    assert forall|j: int| 0 <= j < banned_names().len() implies !eq_ignore_ascii_case(
        k,
        #[trigger] banned_names()[j],
    ) by {
        assert(lower_seq(k).len() == k.len());
        assert(lower_seq(banned_names()[j]).len() == banned_names()[j].len());
    }
}

/// None of the variables set for every run is banned.
proof fn lemma_ours_not_banned(gfortran: Seq<char>, dirs: Seq<Seq<char>>, tmp: Seq<char>, h: HostEnv)
    ensures
        forall|i: int|
            0 <= i < our_env(gfortran, dirs, tmp, h).len() ==> !is_banned(
                #[trigger] our_env(gfortran, dirs, tmp, h)[i].0,
            ),
{
    reveal_strlit("SystemRoot");
    reveal_strlit("windir");
    reveal_strlit("TMP");
    reveal_strlit("TEMP");
    reveal_strlit("LANG");
    reveal_strlit("LC_ALL");
    reveal_strlit("HOME");
    reveal_strlit("PATH");
    reveal_strlit("TMPDIR");
    let ours = our_env(gfortran, dirs, tmp, h);
    assert forall|i: int| 0 <= i < ours.len() implies !is_banned(#[trigger] ours[i].0) by {
        let k = ours[i].0;
        if k == "SystemRoot"@ {
            lemma_banned_lengths();
            assert forall|j: int| 0 <= j < banned_names().len() implies !eq_ignore_ascii_case(
                k,
                #[trigger] banned_names()[j],
            ) by {
                assert(lower_seq(k).len() == k.len());
                assert(lower_seq(banned_names()[j]).len() == banned_names()[j].len());
                if banned_names()[j].len() == 10 {
                    assert(j == 7);
                    assert(k[0] == 'S');
                    assert(lower_seq(k)[0] == 's');
                    assert(lower_seq(banned_names()[j])[0] == 'l');
                }
            }
        } else {
            lemma_not_banned_by_length(k);
        }
    }
}

proof fn lemma_kept_not_banned(env: Seq<(Seq<char>, Seq<char>)>, ours: Seq<(Seq<char>, Seq<char>)>)
    ensures
        forall|i: int| 0 <= i < kept(env, ours).len() ==> !is_banned(#[trigger] kept(env, ours)[i].0),
        forall|i: int|
            0 <= i < kept(env, ours).len() ==> !is_ours(#[trigger] kept(env, ours)[i].0, ours),
    decreases env.len(),
{
    if env.len() > 0 {
        lemma_kept_not_banned(env.drop_last(), ours);
        let prev = kept(env.drop_last(), ours);
        let all = kept(env, ours);
        assert forall|i: int| 0 <= i < all.len() implies !is_banned(#[trigger] all[i].0) && !is_ours(
            all[i].0,
            ours,
        ) by {
            if i < prev.len() {
                assert(all[i] == prev[i]);
            } else {
                assert(all[i] == env.last());
            }
        }
    }
}

/// Nothing that injects a search path reaches the compiler: none of the
/// variables set for every run is on the banned list, and a bundle can neither
/// put a banned one back nor override one of ours.
pub proof fn law_no_banned_variable_reaches_the_compiler(gfortran: Seq<char>, b: Option<Bundle>, tmp: Seq<char>, h: HostEnv)
    ensures
        forall|i: int|
            0 <= i < spec_scrubbed_env(gfortran, b, tmp, h).len() ==> !is_banned(
                #[trigger] spec_scrubbed_env(gfortran, b, tmp, h)[i].0,
            ),
        forall|i: int|
            our_env(gfortran, bundle_dirs(b), tmp, h).len() <= i < spec_scrubbed_env(
                gfortran,
                b,
                tmp,
                h,
            ).len() ==> !is_ours(
                #[trigger] spec_scrubbed_env(gfortran, b, tmp, h)[i].0,
                our_env(gfortran, bundle_dirs(b), tmp, h),
            ),
{
    let ours = our_env(gfortran, bundle_dirs(b), tmp, h);
    lemma_ours_not_banned(gfortran, bundle_dirs(b), tmp, h);
    lemma_kept_not_banned(bundle_env(b), ours);
    let all = spec_scrubbed_env(gfortran, b, tmp, h);
    assert forall|i: int| 0 <= i < all.len() implies !is_banned(#[trigger] all[i].0) by {
        if i < ours.len() {
            assert(all[i] == ours[i]);
        } else {
            assert(all[i] == kept(bundle_env(b), ours)[i - ours.len()]);
        }
    }
    assert forall|i: int| ours.len() <= i < all.len() implies !is_ours(#[trigger] all[i].0, ours) by {
        assert(all[i] == kept(bundle_env(b), ours)[i - ours.len()]);
    }
}

/// A compiler that was found and probed.
#[derive(Debug, Clone)]
pub struct Toolchain {
    id: ToolchainId,
    gfortran: String,
    caps: FlagCapabilities,
    /// Present only for a bundled toolchain.
    bundle: Option<Bundle>,
}

impl Toolchain {
    pub closed spec fn spec_id(&self) -> ToolchainId {
        self.id
    }

    pub closed spec fn spec_gfortran(&self) -> Seq<char> {
        self.gfortran@
    }

    pub closed spec fn spec_caps(&self) -> FlagCapabilities {
        self.caps
    }

    pub closed spec fn spec_bundle(&self) -> Option<Bundle> {
        self.bundle
    }

    pub fn id(&self) -> (r: &ToolchainId)
        ensures
            *r == self.spec_id(),
    {
        &self.id
    }

    pub fn gfortran(&self) -> (r: &str)
        ensures
            r@ == self.spec_gfortran(),
    {
        self.gfortran.as_str()
    }

    pub fn capabilities(&self) -> (r: &FlagCapabilities)
        ensures
            *r == self.spec_caps(),
    {
        &self.caps
    }

    /// The suffix executables get for the bundle's *target*; the host's when
    /// the bundle does not say, or there is no bundle.
    pub fn exe_suffix<'a>(&'a self, host_exe_suffix: &'a str) -> (r: &'a str)
        ensures
            r@ == (match self.spec_bundle() {
                Some(b) => match b.exe_suffix {
                    Some(s) => s@,
                    None => host_exe_suffix@,
                },
                None => host_exe_suffix@,
            }),
    {
        match &self.bundle {
            Some(b) => match &b.exe_suffix {
                Some(s) => s.as_str(),
                None => host_exe_suffix,
            },
            None => host_exe_suffix,
        }
    }

    /// Program that runs the bundle's binaries, when they are not native.
    pub fn launcher(&self) -> (r: Option<&str>)
        ensures
            match self.spec_bundle() {
                Some(b) => match b.launcher {
                    Some(l) => r matches Some(x) && x@ == l@,
                    None => r is None,
                },
                None => r is None,
            },
    {
        match &self.bundle {
            Some(b) => match &b.launcher {
                Some(l) => Some(l.as_str()),
                None => None,
            },
            None => None,
        }
    }

    /// Flags the bundle requires on every compile, before anything else.
    pub fn compile_flags(&self) -> (r: &[String])
        ensures
            r@ == (match self.spec_bundle() {
                Some(b) => b.compile_flags@,
                None => Seq::empty(),
            }),
    {
        match &self.bundle {
            Some(b) => b.compile_flags.as_slice(),
            None => {
                let r: &[String] = &[];
                assert(r@ =~= Seq::<String>::empty());
                r
            },
        }
    }

    /// Flags the bundle requires on every link.
    pub fn link_flags(&self) -> (r: &[String])
        ensures
            r@ == (match self.spec_bundle() {
                Some(b) => b.link_flags@,
                None => Seq::empty(),
            }),
    {
        match &self.bundle {
            Some(b) => b.link_flags.as_slice(),
            None => {
                let r: &[String] = &[];
                assert(r@ =~= Seq::<String>::empty());
                r
            },
        }
    }

    /// The compiler's environment for a build laid out as `layout`.
    pub fn compile_env(&self, layout: &WorkLayout, h: &HostEnv) -> (env: Vec<(String, String)>)
        ensures
            pair_views(env@) == spec_scrubbed_env(
                self.spec_gfortran(),
                self.spec_bundle(),
                crate::pathops::join(layout.root@, "tmp"@),
                *h,
            ),
    {
        let tmp = layout.tmp();
        let b = match &self.bundle {
            Some(b) => Some(b),
            None => None,
        };
        scrubbed_env(self.gfortran.as_str(), b, tmp.as_str(), h)
    }

    /// A toolchain from a driver's path: refused when there is no file there.
    /// `version` is what the driver reported, `caps` what probing found.
    pub fn from_path(path: &str, kind: ToolchainKind, exists: bool, version: Option<String>, caps: FlagCapabilities) -> (r: Result<Toolchain, EfError>)
        ensures
            !exists ==> (r matches Err(EfError::ToolchainInvalid { path: p, reason }) && p@ == path@
                && reason@ == "the file does not exist"@),
            exists ==> (r matches Ok(t) && t.spec_id().kind == kind && t.spec_id().path@ == path@
                && t.spec_gfortran() == path@ && t.spec_caps() == caps && t.spec_bundle() is None
                && t.spec_id().version@ == (match version {
                Some(v) => v@,
                None => Seq::<char>::empty(),
            })),
    {
        if !exists {
            return Err(EfError::ToolchainInvalid { path: owned(path), reason: owned("the file does not exist") });
        }
        let v = match version {
            Some(v) => v,
            None => String::new(),
        };
        Ok(Toolchain { id: ToolchainId { kind, version: v, path: owned(path) }, gfortran: owned(path), caps, bundle: None })
    }

    /// A bundled toolchain: refused when its driver is not there (antivirus
    /// may have removed it). The bundle's declared version is used; the one
    /// the driver reported only when the bundle declares none.
    pub fn from_bundle(b: Bundle, driver_is_file: bool, reported_version: Option<String>, caps: FlagCapabilities) -> (r: Result<Toolchain, EfError>)
        ensures
            !driver_is_file ==> (r matches Err(EfError::ToolchainInvalid { path, reason }) && path@
                == b.gfortran@ && reason@
                == "the bundled compiler is missing (antivirus may have removed it)"@),
            driver_is_file ==> (r matches Ok(t) && t.spec_id().kind == ToolchainKind::Bundled
                && t.spec_id().path@ == b.gfortran@ && t.spec_gfortran() == b.gfortran@
                && t.spec_caps() == caps && t.spec_bundle() == Some(b) && t.spec_id().version@ == (
                if b.version@.len() > 0 {
                    b.version@
                } else {
                    match reported_version {
                        Some(v) => v@,
                        None => Seq::<char>::empty(),
                    }
                })),
    {
        if !driver_is_file {
            return Err(EfError::ToolchainInvalid { path: b.gfortran.clone(), reason: owned("the bundled compiler is missing (antivirus may have removed it)") });
        }
        let vc = chars_of(b.version.as_str());
        let version = if vc.len() > 0 {
            b.version.clone()
        } else {
            match reported_version {
                Some(v) => v,
                None => String::new(),
            }
        };
        let g = b.gfortran.clone();
        Ok(Toolchain { id: ToolchainId { kind: ToolchainKind::Bundled, version, path: b.gfortran.clone() }, gfortran: g, caps, bundle: Some(b) })
    }
}

/// What `gfortran -dumpversion` printed, read as a version: nothing when the
/// run failed or printed only whitespace.
pub open spec fn spec_version_from(success: bool, stdout: Seq<u8>) -> Option<Seq<char>> {
    if !success || trim(utf8_lossy(stdout)).len() == 0 {
        None
    } else {
        Some(trim(utf8_lossy(stdout)))
    }
}

pub fn version_from_output(success: bool, stdout: &[u8]) -> (r: Option<String>)
    ensures
        match spec_version_from(success, stdout@) {
            Some(v) => r matches Some(s) && s@ == v,
            None => r is None,
        },
{
    if !success {
        return None;
    }
    let c = decode_lossy(stdout);
    let (a, b) = trim_bounds(c.as_slice());
    if a == b {
        return None;
    }
    Some(string_from_chars(crate::textops::slice_range(c.as_slice(), a, b)))
}

/// Where discovery looks first, from what the caller found set.
#[derive(Debug, Clone, PartialEq, Eq)]
pub enum Source {
    /// An explicit override from settings: this driver and no other.
    Override(String),
    /// `EF77_TOOLCHAIN_BUNDLE`: a bundle root, for exercising the bundled path.
    BundleRoot(String),
    /// `EF77_TOOLCHAIN`: a bare driver, used by CI.
    Driver(String),
    /// Nothing explicit: the bundle beside the program, then the system;
    /// and the system only when no bundle was shipped (`after_bundles`).
    Search,
}

/// Discovery order, first that applies: the override; then the two
/// variables, each only when set to something non-empty; then the search.
pub fn discovery_source(override_path: Option<&str>, bundle_var: Option<&str>, driver_var: Option<&str>) -> (s: Source)
    ensures
        match override_path {
            Some(p) => s matches Source::Override(x) && x@ == p@,
            None => match bundle_var {
                Some(b) if b@.len() > 0 => s matches Source::BundleRoot(x) && x@ == b@,
                _ => match driver_var {
                    Some(d) if d@.len() > 0 => s matches Source::Driver(x) && x@ == d@,
                    _ => s == Source::Search,
                },
            },
        },
{
    if let Some(p) = override_path {
        return Source::Override(owned(p));
    }
    if let Some(b) = bundle_var {
        if chars_of(b).len() > 0 {
            return Source::BundleRoot(owned(b));
        }
    }
    if let Some(d) = driver_var {
        if chars_of(d).len() > 0 {
            return Source::Driver(owned(d));
        }
    }
    Source::Search
}

/// Driver names tried on the system PATH, in order.
pub fn system_driver_names() -> (v: Vec<&'static str>)
    ensures
        crate::textops::strs(v@) == seq!["gfortran"@, "gfortran-16"@, "gfortran-15"@, "gfortran-14"@, "gfortran-13"@],
{
    let mut v: Vec<&'static str> = Vec::new();
    v.push("gfortran");
    v.push("gfortran-16");
    v.push("gfortran-15");
    v.push("gfortran-14");
    v.push("gfortran-13");
    assert(crate::textops::strs(v@) =~= seq!["gfortran"@, "gfortran-16"@, "gfortran-15"@, "gfortran-14"@, "gfortran-13"@]);
    v
}

/// Where a bundled toolchain may live, most specific first: beside the
/// program, then the development layout two levels up.
pub fn bundled_roots(exe: &str) -> (v: Vec<String>)
    ensures
        match parent(exe@) {
            Some(dir) => views(v@) == seq![
                crate::pathops::join(dir, "toolchain"@),
                crate::pathops::join(crate::pathops::join(crate::pathops::join(dir, ".."@), ".."@), "toolchain"@),
            ],
            None => v@.len() == 0,
        },
{
    let mut v: Vec<String> = Vec::new();
    match parent_of(exe) {
        Some(dir) => {
            v.push(join_of(dir.as_str(), "toolchain"));
            let up = join_of(dir.as_str(), "..");
            let up2 = join_of(up.as_str(), "..");
            v.push(join_of(up2.as_str(), "toolchain"));
            assert(views(v@) =~= seq![
                crate::pathops::join(dir@, "toolchain"@),
                crate::pathops::join(crate::pathops::join(crate::pathops::join(dir@, ".."@), ".."@), "toolchain"@),
            ]);
        },
        None => {},
    }
    v
}

/// What the bundles beside the program decide.
#[derive(Debug)]
pub enum BundleOutcome {
    /// A bundle loaded: this is the compiler.
    Use(Toolchain),
    /// A bundle was shipped and none of it will load: the installation is
    /// damaged, and no system compiler may stand in for it.
    Damaged(EfError),
    /// No bundle was shipped: the system's compiler may be used.
    SearchSystem,
}

/// One root tried: whether it looks like a bundle, and what loading it gave,
/// if it was loaded.
pub type BundleTry = (bool, Option<Result<Toolchain, EfError>>);

pub open spec fn loaded_ok(t: BundleTry) -> bool {
    t.1 matches Some(Ok(_))
}

pub open spec fn loaded_err(t: BundleTry) -> bool {
    t.1 matches Some(Err(_))
}

/// Was a bundle shipped: does any root look like one?
pub open spec fn any_bundle(tried: Seq<BundleTry>) -> bool {
    exists|i: int| 0 <= i < tried.len() && (#[trigger] tried[i]).0
}

/// A damaged bundle is never replaced by a system compiler. Given the roots
/// tried in order, the first that loaded is used; when none loaded but one
/// looked like a bundle, the installation is damaged, reported by the first
/// load's error (or as a missing compiler, if no load was attempted); only
/// when no bundle was shipped at all may the system be searched.
pub fn after_bundles(tried: Vec<BundleTry>) -> (r: BundleOutcome)
    ensures
        (exists|i: int| 0 <= i < tried@.len() && loaded_ok(#[trigger] tried@[i])) ==> (
        r matches BundleOutcome::Use(tc) && exists|i: int|
            0 <= i < tried@.len() && (#[trigger] tried@[i]).1 == Some(Ok::<Toolchain, EfError>(tc))
                && forall|j: int| 0 <= j < i ==> !loaded_ok(#[trigger] tried@[j])),
        (forall|i: int| 0 <= i < tried@.len() ==> !loaded_ok(#[trigger] tried@[i])) && any_bundle(
            tried@,
        ) ==> (r matches BundleOutcome::Damaged(e) && ((exists|i: int|
            0 <= i < tried@.len() && (#[trigger] tried@[i]).1 == Some(Err::<Toolchain, EfError>(e))
                && forall|j: int| 0 <= j < i ==> !loaded_err(#[trigger] tried@[j])) || ((forall|
            i: int,
        | 0 <= i < tried@.len() ==> !loaded_err(#[trigger] tried@[i])) && e == EfError::ToolchainMissing))),
        (forall|i: int| 0 <= i < tried@.len() ==> !loaded_ok(#[trigger] tried@[i])) && !any_bundle(
            tried@,
        ) ==> r is SearchSystem,
{
    let ghost orig = tried@;
    let mut ts = tried;
    let n = ts.len();
    let mut i: usize = 0;
    let mut hit = false;
    while i < n && !hit
        invariant
            ts@ == orig,
            n == orig.len(),
            i <= n,
            hit ==> i < n && loaded_ok(orig[i as int]),
            forall|j: int| 0 <= j < i ==> !loaded_ok(#[trigger] orig[j]),
        decreases (n - i) * 2 + (if hit { 0int } else { 1int }),
    {
        let ok = match &ts[i].1 {
            Some(Ok(_)) => true,
            _ => false,
        };
        if ok {
            hit = true;
        } else {
            i += 1;
        }
    }
    if hit {
        let t = ts.remove(i);
        match t.1 {
            Some(Ok(tc)) => {
                return BundleOutcome::Use(tc);
            },
            _ => {
                assert(false);
                return BundleOutcome::SearchSystem;
            },
        }
    }
    let mut looks = false;
    let mut k: usize = 0;
    while k < n
        invariant
            ts@ == orig,
            n == orig.len(),
            k <= n,
            looks == exists|j: int| 0 <= j < k && (#[trigger] orig[j]).0,
        decreases n - k,
    {
        if ts[k].0 {
            looks = true;
        }
        k += 1;
    }
    assert(looks == any_bundle(orig));
    if !looks {
        return BundleOutcome::SearchSystem;
    }
    let mut i: usize = 0;
    let mut hit = false;
    while i < n && !hit
        invariant
            ts@ == orig,
            n == orig.len(),
            i <= n,
            hit ==> i < n && loaded_err(orig[i as int]),
            forall|j: int| 0 <= j < i ==> !loaded_err(#[trigger] orig[j]),
        decreases (n - i) * 2 + (if hit { 0int } else { 1int }),
    {
        let bad = match &ts[i].1 {
            Some(Err(_)) => true,
            _ => false,
        };
        if bad {
            hit = true;
        } else {
            i += 1;
        }
    }
    if hit {
        let t = ts.remove(i);
        match t.1 {
            Some(Err(e)) => {
                return BundleOutcome::Damaged(e);
            },
            _ => {
                assert(false);
                return BundleOutcome::SearchSystem;
            },
        }
    }
    BundleOutcome::Damaged(EfError::ToolchainMissing)
}

/// Was a toolchain bundle shipped beside this program? `looks[i]` says
/// whether the `i`th of the bundle roots looks like a bundle. A build that
/// shipped one and cannot load it is damaged; one that never had one needs
/// a system compiler.
pub fn bundle_was_shipped(looks: &[bool]) -> (r: bool)
    ensures
        r == exists|i: int| 0 <= i < looks@.len() && looks@[i],
{
    let mut k: usize = 0;
    while k < looks.len()
        invariant
            k <= looks@.len(),
            forall|j: int| 0 <= j < k ==> !looks@[j],
        decreases looks.len() - k,
    {
        if looks[k] {
            return true;
        }
        k += 1;
    }
    false
}

} // verus!
