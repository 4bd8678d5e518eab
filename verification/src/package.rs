//! Assembling a distributable: the decisions, with the copying and archiving
//! left to the caller.
//!
//! A release is the application, the compiler bundle beside it, the licences
//! and the examples. What is checked here is what must be right before any
//! of that is copied: that the bundle was meant for shipping, which target and
//! profile were asked for, and what the archive and the README say.
use crate::textops::{
    chars_of, chars_start_with, lines, lines_of, owned, push_str, slice_from, slice_range,
    starts_with, string_from_chars, strs, trim, trim_bounds, trim_char, trim_char_bounds,
};
use vstd::prelude::*;

verus! {

/// The line, trimmed, names a `launcher` and assigns it.
pub open spec fn launcher_line(l: Seq<char>) -> bool {
    starts_with(trim(l), "launcher"@) && trim(l).contains('=')
}

/// Some line of the bundle descriptor sets a `launcher`.
pub open spec fn has_launcher(text: Seq<char>) -> bool {
    exists|i: int| 0 <= i < lines(text).len() && #[trigger] launcher_line(lines(text)[i])
}

pub open spec fn cross_test_message() -> Seq<char> {
    "this bundle carries a `launcher`, so it was set up for cross-testing (verify-under-wine.sh appends one) and would ship a compiler that tries to run under wine on the user's machine.\n\nRebuild it first:  cargo xtask fetch-toolchain --target <target>"@
}

fn trimmed(l: &str) -> (r: Vec<char>)
    ensures
        r@ == trim(l@),
{
    let c = chars_of(l);
    let (a, b) = trim_bounds(c.as_slice());
    let t = slice_range(c.as_slice(), a, b);
    let mut r: Vec<char> = Vec::new();
    crate::textops::push_chars(&mut r, t);
    r
}

fn contains_char(s: &[char], x: char) -> (r: bool)
    ensures
        r == s@.contains(x),
{
    for i in 0..s.len()
        invariant
            forall|k: int| 0 <= k < i ==> s@[k] != x,
    {
        if s[i] == x {
            assert(s@[i as int] == x);
            return true;
        }
    }
    false
}

fn is_launcher_line(l: &str) -> (r: bool)
    ensures
        r == launcher_line(l@),
{
    proof {
        reveal_strlit("launcher");
    }
    let t = trimmed(l);
    let key = chars_of("launcher");
    chars_start_with(t.as_slice(), key.as_slice()) && contains_char(t.as_slice(), '=')
}

/// A bundle meant for shipping runs natively. A `launcher` means this one was
/// set up to be driven from another platform, and must not leave the machine.
pub fn refuse_cross_test_bundle(bundle_toml: &str) -> (r: Result<(), String>)
    ensures
        has_launcher(bundle_toml@) ==> (r matches Err(m) && m@ == cross_test_message()),
        !has_launcher(bundle_toml@) ==> r is Ok,
{
    let ls = lines_of(bundle_toml);
    for i in 0..ls.len()
        invariant
            strs(ls@) == lines(bundle_toml@),
            forall|k: int| 0 <= k < i ==> !launcher_line(#[trigger] lines(bundle_toml@)[k]),
    {
        if is_launcher_line(ls[i]) {
            assert(launcher_line(lines(bundle_toml@)[i as int]));
            return Err(owned("this bundle carries a `launcher`, so it was set up for cross-testing (verify-under-wine.sh appends one) and would ship a compiler that tries to run under wine on the user's machine.\n\nRebuild it first:  cargo xtask fetch-toolchain --target <target>"));
        }
        assert(!launcher_line(lines(bundle_toml@)[i as int]));
    }
    Ok(())
}

pub open spec fn version_key() -> Seq<char> {
    "version = "@
}

/// The version a `version = "x.y.z"` line carries, its quotes gone.
pub open spec fn version_in(l: Seq<char>) -> Seq<char> {
    trim_char(trim(trim(l).skip(10)), '"')
}

/// The first line of the manifest that sets `version`, counted from `k`.
pub open spec fn first_version_line(ls: Seq<Seq<char>>, k: int) -> Option<int>
    decreases ls.len() - k,
{
    if k < 0 || k >= ls.len() {
        None
    } else if starts_with(trim(ls[k]), version_key()) {
        Some(k)
    } else {
        first_version_line(ls, k + 1)
    }
}

pub open spec fn spec_workspace_version(text: Seq<char>) -> Option<Seq<char>> {
    match first_version_line(lines(text), 0) {
        Some(k) => Some(version_in(lines(text)[k])),
        None => None,
    }
}

/// The workspace version, read from the workspace manifest's text: the first
/// line that starts `version = `. The release is named after it.
pub fn workspace_version(manifest: &str) -> (r: Result<String, String>)
    ensures
        match spec_workspace_version(manifest@) {
            Some(v) => r matches Ok(s) && s@ == v,
            None => r matches Err(m) && m@
                == "could not read the workspace version from Cargo.toml"@,
        },
{
    proof {
        reveal_strlit("version = ");
    }
    let ls = lines_of(manifest);
    let key = chars_of("version = ");
    for i in 0..ls.len()
        invariant
            strs(ls@) == lines(manifest@),
            key@ == version_key(),
            key@.len() == 10,
            first_version_line(lines(manifest@), 0) == first_version_line(
                lines(manifest@),
                i as int,
            ),
    {
        let t = trimmed(ls[i]);
        if chars_start_with(t.as_slice(), key.as_slice()) {
            let rest = slice_from(t.as_slice(), 10);
            let (a, b) = trim_bounds(rest);
            let v = slice_range(rest, a, b);
            let (c, d) = trim_char_bounds(v, '"');
            let q = slice_range(v, c, d);
            return Ok(string_from_chars(q));
        }
    }
    Err(owned("could not read the workspace version from Cargo.toml"))
}

/// The target a package is built for when none is named.
pub fn default_target(windows: bool) -> (s: &'static str)
    ensures
        s@ == (if windows {
            "windows-x86_64"@
        } else {
            "linux-x86_64"@
        }),
{
    if windows {
        "windows-x86_64"
    } else {
        "linux-x86_64"
    }
}

/// What `package` was asked to do.
#[derive(Debug, Clone, PartialEq, Eq)]
pub struct PackageOptions {
    pub target: Option<String>,
    pub profile: String,
    pub archive: bool,
}

pub open spec fn usage() -> Seq<char> {
    "USAGE: cargo xtask package [--target <name>] [--profile <p>] [--no-archive]"@
}

/// The options, after reading `args[..k]`, or the message that stops them.
pub open spec fn read_options(args: Seq<Seq<char>>, k: int, target: Option<Seq<char>>, profile: Seq<char>, archive: bool) -> Result<(Option<Seq<char>>, Seq<char>, bool), Seq<char>>
    decreases args.len() - k,
{
    if k < 0 || k >= args.len() {
        Ok((target, profile, archive))
    } else if args[k] == "--target"@ {
        if k + 1 >= args.len() {
            Err("--target needs a value"@)
        } else {
            read_options(args, k + 2, Some(args[k + 1]), profile, archive)
        }
    } else if args[k] == "--profile"@ {
        if k + 1 >= args.len() {
            Err("--profile needs a value"@)
        } else {
            read_options(args, k + 2, target, args[k + 1], archive)
        }
    } else if args[k] == "--no-archive"@ {
        read_options(args, k + 1, target, profile, false)
    } else {
        Err("unknown option `"@ + args[k] + "`\n\n"@ + usage())
    }
}

pub open spec fn opt_seq(o: Option<String>) -> Option<Seq<char>> {
    match o {
        Some(s) => Some(s@),
        None => None,
    }
}

fn is(a: &String, b: &str) -> (r: bool)
    ensures
        r == (a@ == b@),
{
    let ac = chars_of(a.as_str());
    let bc = chars_of(b);
    crate::textops::chars_eq(ac.as_slice(), bc.as_slice())
}

/// Read `package`'s arguments: `--target <name>`, `--profile <p>` (release
/// unless named) and `--no-archive`, in any order, the last of each winning.
pub fn parse_args(args: &[String]) -> (r: Result<PackageOptions, String>)
    ensures
        match read_options(crate::textops::views(args@), 0, None, "release"@, true) {
            Ok((t, p, a)) => r matches Ok(o) && opt_seq(o.target) == t && o.profile@ == p
                && o.archive == a,
            Err(m) => r matches Err(e) && e@ == m,
        },
{
    proof {
        reveal_strlit("release");
        reveal_strlit("--target");
        reveal_strlit("--profile");
        reveal_strlit("--no-archive");
    }
    let ghost a = crate::textops::views(args@);
    let mut target: Option<String> = None;
    let mut profile = owned("release");
    let mut archive = true;
    let mut k: usize = 0;
    while k < args.len()
        invariant
            k <= args@.len(),
            a == crate::textops::views(args@),
            read_options(a, 0, None, "release"@, true) == read_options(
                a,
                k as int,
                opt_seq(target),
                profile@,
                archive,
            ),
        decreases args.len() - k,
    {
        let arg = &args[k];
        assert(a[k as int] == arg@);
        if is(arg, "--target") {
            if k + 1 >= args.len() {
                return Err(owned("--target needs a value"));
            }
            target = Some(args[k + 1].clone());
            k = k + 2;
        } else if is(arg, "--profile") {
            if k + 1 >= args.len() {
                return Err(owned("--profile needs a value"));
            }
            profile = args[k + 1].clone();
            k = k + 2;
        } else if is(arg, "--no-archive") {
            archive = false;
            k = k + 1;
        } else {
            let mut m: Vec<char> = Vec::new();
            push_str(&mut m, "unknown option `");
            push_str(&mut m, arg.as_str());
            push_str(&mut m, "`\n\n");
            push_str(&mut m, "USAGE: cargo xtask package [--target <name>] [--profile <p>] [--no-archive]");
            return Err(string_from_chars(m.as_slice()));
        }
    }
    Ok(PackageOptions { target, profile, archive })
}

/// The name of the staged directory and of the archive, before its extension.
pub fn stem(version: &str, target: &str) -> (s: String)
    ensures
        s@ == "EasyFortran77-"@ + version@ + "-"@ + target@,
{
    let mut m: Vec<char> = Vec::new();
    push_str(&mut m, "EasyFortran77-");
    push_str(&mut m, version);
    push_str(&mut m, "-");
    push_str(&mut m, target);
    string_from_chars(m.as_slice())
}

/// The application's file name on the target.
pub fn exe_name(windows: bool) -> (s: &'static str)
    ensures
        s@ == (if windows {
            "easy-fortran-77.exe"@
        } else {
            "easy-fortran-77"@
        }),
{
    if windows {
        "easy-fortran-77.exe"
    } else {
        "easy-fortran-77"
    }
}

pub open spec fn run_line(windows: bool) -> Seq<char> {
    if windows {
        "Bấm đúp vào easy-fortran-77.exe.\n\nDouble-click easy-fortran-77.exe."@
    } else {
        "Chạy ./easy-fortran-77\n\nRun ./easy-fortran-77"@
    }
}

pub open spec fn readme_tail() -> Seq<char> {
    "\n\nThư mục toolchain chứa trình biên dịch. Đừng xoá hoặc di chuyển nó:\nứng dụng kiểm tra và sẽ từ chối chạy nếu thiếu tệp.\n\nThe toolchain folder is the compiler. Do not delete or move it: the\napplication checks it and refuses to build if anything is missing.\n\nGiấy phép và mã nguồn: xem thư mục LICENSES.\nLicensing and source code: see the LICENSES folder.\n"@
}

/// The README.txt that ships beside the application, in both languages.
pub fn readme_text(windows: bool) -> (s: String)
    ensures
        s@ == "Easy Fortran 77\n===============\n\n"@ + run_line(windows) + readme_tail(),
{
    let mut m: Vec<char> = Vec::new();
    push_str(&mut m, "Easy Fortran 77\n===============\n\n");
    if windows {
        push_str(&mut m, "Bấm đúp vào easy-fortran-77.exe.\n\nDouble-click easy-fortran-77.exe.");
    } else {
        push_str(&mut m, "Chạy ./easy-fortran-77\n\nRun ./easy-fortran-77");
    }
    push_str(&mut m, "\n\nThư mục toolchain chứa trình biên dịch. Đừng xoá hoặc di chuyển nó:\nứng dụng kiểm tra và sẽ từ chối chạy nếu thiếu tệp.\n\nThe toolchain folder is the compiler. Do not delete or move it: the\napplication checks it and refuses to build if anything is missing.\n\nGiấy phép và mã nguồn: xem thư mục LICENSES.\nLicensing and source code: see the LICENSES folder.\n");
    string_from_chars(m.as_slice())
}

} // verus!
