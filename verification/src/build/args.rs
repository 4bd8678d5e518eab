//! Building the compiler's argument vector.
//!
//! Every flag choice here has a reason recorded against it. Paths are relative
//! to the build directory (the child's working directory) wherever possible,
//! which keeps the user's possibly non-ASCII work path out of argv entirely.
use crate::build::stage::{StagedLibrary, StagedSource};
use crate::paths::WorkLayout;
use crate::pathops::join;
use crate::project::{line_length_flag, opt_level_flag, BuildOptions, Dialect, Preprocess};
use crate::textops::{
    chars_of, eq_ignore_ascii_case, owned, push_chars, push_str, push_string, push_strings,
    slice_from, starts_with, str_eq_ignore_ascii_case, string_from_chars, trim, trim_bounds,
    views, lemma_views_push,
};
use crate::toolchain::probe::FlagCapabilities;
use vstd::prelude::*;

verus! {

/// A flag when the condition holds, nothing otherwise.
pub open spec fn when(b: bool, f: Seq<char>) -> Seq<Seq<char>> {
    if b {
        seq![f]
    } else {
        Seq::empty()
    }
}

/// The flags that make gfortran accept 1980s code, as far as this compiler can.
pub open spec fn spec_dialect_flags(o: BuildOptions, c: FlagCapabilities) -> Seq<Seq<char>> {
    (match o.dialect {
        Dialect::Legacy => when(c.std_legacy, "-std=legacy"@),
        Dialect::Standard => seq!["-std=f95"@],
    }).push("-ffixed-form"@).push(line_length_flag(o.line_length)) + when(
        o.dec_extensions && c.dec,
        "-fdec"@,
    ) + when(o.static_storage && c.no_automatic, "-fno-automatic"@) + when(
        o.static_storage && c.init_local_zero,
        "-finit-local-zero"@,
    ) + when(o.d_lines_as_code && c.d_lines_as_code, "-fd-lines-as-code"@) + when(
        o.default_real8 && c.default_real8,
        "-fdefault-real-8"@,
    ) + when(c.no_range_check, "-fno-range-check"@) + when(
        c.allow_invalid_boz,
        "-fallow-invalid-boz"@,
    ) + when(o.big_stack && c.max_stack_var_size, "-fmax-stack-var-size=0"@) + when(
        o.check_bounds && c.check_bounds,
        "-fcheck=bounds"@,
    )
}

/// Warnings always asked for. Shown, never fatal: `-Werror` on a novice's 1985
/// code would make the tool unusable.
pub open spec fn warnings() -> Seq<Seq<char>> {
    seq!["-Wall"@, "-Wsurprising"@, "-Wtabs"@, "-Wextra"@]
}

pub open spec fn language_name(p: Preprocess) -> Seq<char> {
    match p {
        Preprocess::Never => "f77"@,
        Preprocess::Always => "f77-cpp-input"@,
    }
}

/// What is left of `p` below the build directory `root`, if it is below it.
/// Paths handed out by the work layout have no `.` components or doubled
/// separators, and for those this is `Path::strip_prefix`.
pub open spec fn below_root(p: Seq<char>, root: Seq<char>) -> Option<Seq<char>> {
    if p == root {
        Some(Seq::empty())
    } else if root.len() > 0 && root.last() != '/' && starts_with(p, root + "/"@) {
        Some(p.skip(root.len() as int + 1))
    } else if root.len() > 0 && root.last() == '/' && starts_with(p, root) {
        Some(p.skip(root.len() as int))
    } else {
        None
    }
}

/// A path inside the work tree written relative to the build directory, with
/// an explicit `./` so it can never be mistaken for an option.
pub open spec fn rel(root: Seq<char>, p: Seq<char>) -> Seq<char> {
    match below_root(p, root) {
        Some(r) => "./"@ + r,
        None => p,
    }
}

/// The user's extra flags, blank ones dropped.
pub open spec fn nonblank(v: Seq<Seq<char>>) -> Seq<Seq<char>>
    decreases v.len(),
{
    if v.len() == 0 {
        Seq::empty()
    } else {
        nonblank(v.drop_last()) + if trim(v.last()).len() > 0 {
            seq![v.last()]
        } else {
            Seq::empty()
        }
    }
}

pub open spec fn include_flags(dirs: Seq<Seq<char>>) -> Seq<Seq<char>> {
    dirs.map_values(|d: Seq<char>| "-I"@ + d)
}

/// The whole compile line for one staged source.
pub open spec fn spec_compile_args(
    c: FlagCapabilities,
    bundle: Seq<Seq<char>>,
    o: BuildOptions,
    staged: Seq<char>,
    obj: Seq<char>,
    root: Seq<char>,
    includes: Seq<Seq<char>>,
) -> Seq<Seq<char>> {
    ((((bundle.push("-c"@) + spec_dialect_flags(o, c)).push(opt_level_flag(o.opt_level)) + when(
        c.max_errors,
        "-fmax-errors=25"@,
    ) + when(c.diagnostics_plain, "-fdiagnostics-color=never"@)).push("-Wall"@).push(
        "-Wsurprising"@,
    ).push("-Wtabs"@).push("-Wextra"@).push("-J"@).push(rel(root, join(root, "mod"@)))
        + include_flags(includes)) + nonblank(views(o.extra_flags@))).push("-x"@).push(
        language_name(o.preprocess),
    ).push(rel(root, staged)).push("-x"@).push("none"@).push("-o"@).push(rel(root, obj))
}

fn push_if(v: &mut Vec<String>, b: bool, f: &str)
    ensures
        views(final(v)@) == views(old(v)@) + when(b, f@),
{
    if b {
        push_string(v, f);
    }
    assert(views(v@) =~= views(old(v)@) + when(b, f@));
}

fn push_seq(v: &mut Vec<String>, f: &str)
    ensures
        views(final(v)@) == views(old(v)@).push(f@),
{
    push_string(v, f);
}

fn push_owned_seq(v: &mut Vec<String>, s: String)
    ensures
        views(final(v)@) == views(old(v)@).push(s@),
{
    let ghost before = v@;
    v.push(s);
    proof {
        lemma_views_push(before, s);
    }
}

fn dialect_flags(opts: &BuildOptions, caps: &FlagCapabilities) -> (out: Vec<String>)
    ensures
        views(out@) == spec_dialect_flags(*opts, *caps),
{
    let mut out: Vec<String> = Vec::new();
    match opts.dialect {
        Dialect::Legacy => push_if(&mut out, caps.std_legacy, "-std=legacy"),
        Dialect::Standard => push_seq(&mut out, "-std=f95"),
    }
    assert(views(out@) =~= (match opts.dialect {
        Dialect::Legacy => when(caps.std_legacy, "-std=legacy"@),
        Dialect::Standard => seq!["-std=f95"@],
    }));
    push_seq(&mut out, "-ffixed-form");
    push_seq(&mut out, opts.line_length.flag());
    push_if(&mut out, opts.dec_extensions && caps.dec, "-fdec");
    push_if(&mut out, opts.static_storage && caps.no_automatic, "-fno-automatic");
    push_if(&mut out, opts.static_storage && caps.init_local_zero, "-finit-local-zero");
    push_if(&mut out, opts.d_lines_as_code && caps.d_lines_as_code, "-fd-lines-as-code");
    push_if(&mut out, opts.default_real8 && caps.default_real8, "-fdefault-real-8");
    push_if(&mut out, caps.no_range_check, "-fno-range-check");
    push_if(&mut out, caps.allow_invalid_boz, "-fallow-invalid-boz");
    push_if(&mut out, opts.big_stack && caps.max_stack_var_size, "-fmax-stack-var-size=0");
    push_if(&mut out, opts.check_bounds && caps.check_bounds, "-fcheck=bounds");
    out
}

fn rel_of(root: &str, p: &str) -> (r: String)
    ensures
        r@ == rel(root@, p@),
{
    let rc = chars_of(root);
    let pc = chars_of(p);
    let mut v: Vec<char> = Vec::new();
    proof {
        reveal_strlit("/");
        reveal_strlit("./");
    }
    if crate::textops::chars_eq(pc.as_slice(), rc.as_slice()) {
        push_str(&mut v, "./");
        return string_from_chars(v.as_slice());
    }
    let n = rc.len();
    if n > 0 && rc[n - 1] != '/' {
        let mut rs = rc.clone();
        rs.push('/');
        assert(rs@ == rc@ + "/"@);
        if crate::textops::chars_start_with(pc.as_slice(), rs.as_slice()) {
            push_str(&mut v, "./");
            push_chars(&mut v, slice_from(pc.as_slice(), rs.len()));
            return string_from_chars(v.as_slice());
        }
    } else if n > 0 {
        if crate::textops::chars_start_with(pc.as_slice(), rc.as_slice()) {
            push_str(&mut v, "./");
            push_chars(&mut v, slice_from(pc.as_slice(), n));
            return string_from_chars(v.as_slice());
        }
    }
    owned(p)
}

fn push_nonblank(v: &mut Vec<String>, flags: &Vec<String>)
    ensures
        views(final(v)@) == views(old(v)@) + nonblank(views(flags@)),
{
    for i in 0..flags.len()
        invariant
            views(v@) == views(old(v)@) + nonblank(views(flags@.take(i as int))),
    {
        let fc = chars_of(flags[i].as_str());
        let (a, b) = trim_bounds(fc.as_slice());
        let ghost before = views(v@);
        assert(views(flags@.take(i + 1)).drop_last() =~= views(flags@.take(i as int)));
        if a < b {
            push_owned_seq(v, flags[i].clone());
        }
        assert(views(v@) =~= views(old(v)@) + nonblank(views(flags@.take(i + 1))));
    }
    assert(flags@.take(flags@.len() as int) =~= flags@);
}

fn push_includes(v: &mut Vec<String>, dirs: &[String])
    ensures
        views(final(v)@) == views(old(v)@) + include_flags(views(dirs@)),
{
    for i in 0..dirs.len()
        invariant
            views(v@) == views(old(v)@) + include_flags(views(dirs@.take(i as int))),
    {
        let mut c: Vec<char> = Vec::new();
        push_str(&mut c, "-I");
        push_str(&mut c, dirs[i].as_str());
        push_owned_seq(v, string_from_chars(c.as_slice()));
        assert(include_flags(views(dirs@.take(i + 1))) =~= include_flags(
            views(dirs@.take(i as int)),
        ).push("-I"@ + dirs@[i as int]@));
        assert(views(v@) =~= views(old(v)@) + include_flags(views(dirs@.take(i + 1))));
    }
    assert(dirs@.take(dirs@.len() as int) =~= dirs@);
}

/// Arguments to compile one staged source to one object file.
///
/// `bundle_flags` come from the toolchain's own descriptor and go first, so
/// nothing can precede them.
pub fn compile_args(
    caps: &FlagCapabilities,
    bundle_flags: &[String],
    opts: &BuildOptions,
    src: &StagedSource,
    layout: &WorkLayout,
    include_dirs: &[String],
) -> (a: Vec<String>)
    ensures
        views(a@) == spec_compile_args(
            *caps,
            views(bundle_flags@),
            *opts,
            src.staged@,
            src.obj@,
            layout.root@,
            views(include_dirs@),
        ),
{
    let root = layout.root.as_str();
    let mut a: Vec<String> = Vec::new();
    push_strings(&mut a, bundle_flags);
    assert(views(a@) =~= views(bundle_flags@));
    push_seq(&mut a, "-c");
    let d = dialect_flags(opts, caps);
    push_strings(&mut a, d.as_slice());
    push_seq(&mut a, opts.opt_level.flag());
    push_if(&mut a, caps.max_errors, "-fmax-errors=25");
    push_if(&mut a, caps.diagnostics_plain, "-fdiagnostics-color=never");
    push_seq(&mut a, "-Wall");
    push_seq(&mut a, "-Wsurprising");
    push_seq(&mut a, "-Wtabs");
    push_seq(&mut a, "-Wextra");
    push_seq(&mut a, "-J");
    let m = layout.module();
    push_owned_seq(&mut a, rel_of(root, m.as_str()));
    push_includes(&mut a, include_dirs);
    push_nonblank(&mut a, &opts.extra_flags);
    push_seq(&mut a, "-x");
    push_seq(
        &mut a,
        match opts.preprocess {
            Preprocess::Never => "f77",
            Preprocess::Always => "f77-cpp-input",
        },
    );
    push_owned_seq(&mut a, rel_of(root, src.staged.as_str()));
    push_seq(&mut a, "-x");
    push_seq(&mut a, "none");
    push_seq(&mut a, "-o");
    push_owned_seq(&mut a, rel_of(root, src.obj.as_str()));
    a
}

/// The pause shim's compile line. Not `compile_args`: the shim is ours, in
/// free-form modern Fortran, and must not inherit the legacy dialect flags.
pub open spec fn spec_shim_compile_args(
    bundle: Seq<Seq<char>>,
    src: Seq<char>,
    obj: Seq<char>,
    root: Seq<char>,
) -> Seq<Seq<char>> {
    bundle.push("-c"@).push("-ffree-form"@).push("-O1"@).push("-fdiagnostics-color=never"@).push(
        "-J"@,
    ).push(rel(root, join(root, "mod"@))).push(rel(root, src)).push("-o"@).push(rel(root, obj))
}

pub fn shim_compile_args(bundle_flags: &[String], src: &str, obj: &str, layout: &WorkLayout) -> (a:
    Vec<String>)
    ensures
        views(a@) == spec_shim_compile_args(views(bundle_flags@), src@, obj@, layout.root@),
{
    let root = layout.root.as_str();
    let mut a: Vec<String> = Vec::new();
    push_strings(&mut a, bundle_flags);
    assert(views(a@) =~= views(bundle_flags@));
    push_seq(&mut a, "-c");
    push_seq(&mut a, "-ffree-form");
    push_seq(&mut a, "-O1");
    push_seq(&mut a, "-fdiagnostics-color=never");
    push_seq(&mut a, "-J");
    let m = layout.module();
    push_owned_seq(&mut a, rel_of(root, m.as_str()));
    push_owned_seq(&mut a, rel_of(root, src));
    push_seq(&mut a, "-o");
    push_owned_seq(&mut a, rel_of(root, obj));
    a
}

pub open spec fn rel_all(root: Seq<char>, ps: Seq<Seq<char>>) -> Seq<Seq<char>> {
    ps.map_values(|p: Seq<char>| rel(root, p))
}

pub open spec fn staged_library_paths(libs: Seq<StagedLibrary>) -> Seq<Seq<char>> {
    libs.map_values(|l: StagedLibrary| l.staged@)
}

/// The link line. The user's libraries go after every object file: a static
/// archive only contributes members that resolve symbols referenced by
/// something earlier on the line.
pub open spec fn spec_link_args(
    c: FlagCapabilities,
    bundle: Seq<Seq<char>>,
    o: BuildOptions,
    objs: Seq<Seq<char>>,
    libs: Seq<Seq<char>>,
    root: Seq<char>,
    exe_suffix: Seq<char>,
) -> Seq<Seq<char>> {
    (bundle + rel_all(root, objs) + rel_all(root, libs)).push("-o"@).push(
        rel(root, join(join(root, "out"@), "program"@ + exe_suffix)),
    ) + when(c.static_runtime, "-static-libgfortran"@) + when(c.static_runtime, "-static-libgcc"@)
        + when(c.static_full, "-static"@) + when(o.big_stack, "-Wl,--stack,16777216"@) + when(
        o.keep_window_open && eq_ignore_ascii_case(exe_suffix, ".exe"@),
        "-Wl,--wrap=exit"@,
    ) + when(o.strip_symbols && c.strip, "-s"@) + when(
        c.diagnostics_plain,
        "-fdiagnostics-color=never"@,
    )
}

fn push_rel_all(v: &mut Vec<String>, root: &str, ps: &[String])
    ensures
        views(final(v)@) == views(old(v)@) + rel_all(root@, views(ps@)),
{
    for i in 0..ps.len()
        invariant
            views(v@) == views(old(v)@) + rel_all(root@, views(ps@.take(i as int))),
    {
        push_owned_seq(v, rel_of(root, ps[i].as_str()));
        assert(rel_all(root@, views(ps@.take(i + 1))) =~= rel_all(root@, views(ps@.take(i as int)))
            .push(rel(root@, ps@[i as int]@)));
        assert(views(v@) =~= views(old(v)@) + rel_all(root@, views(ps@.take(i + 1))));
    }
    assert(ps@.take(ps@.len() as int) =~= ps@);
}

/// Arguments to link the objects and the user's libraries into the program.
pub fn link_args(
    caps: &FlagCapabilities,
    bundle_flags: &[String],
    opts: &BuildOptions,
    objs: &[String],
    libs: &[StagedLibrary],
    layout: &WorkLayout,
    exe_suffix: &str,
) -> (a: Vec<String>)
    ensures
        views(a@) == spec_link_args(
            *caps,
            views(bundle_flags@),
            *opts,
            views(objs@),
            staged_library_paths(libs@),
            layout.root@,
            exe_suffix@,
        ),
{
    let root = layout.root.as_str();
    let mut a: Vec<String> = Vec::new();
    push_strings(&mut a, bundle_flags);
    assert(views(a@) =~= views(bundle_flags@));
    push_rel_all(&mut a, root, objs);
    let mut lp: Vec<String> = Vec::new();
    for i in 0..libs.len()
        invariant
            views(lp@) == staged_library_paths(libs@.take(i as int)),
    {
        push_owned_seq(&mut lp, libs[i].staged.clone());
        assert(staged_library_paths(libs@.take(i + 1)) =~= staged_library_paths(
            libs@.take(i as int),
        ).push(libs@[i as int].staged@));
    }
    assert(libs@.take(libs@.len() as int) =~= libs@);
    push_rel_all(&mut a, root, lp.as_slice());
    push_seq(&mut a, "-o");
    let exe = layout.exe_with_suffix(exe_suffix);
    push_owned_seq(&mut a, rel_of(root, exe.as_str()));
    push_if(&mut a, caps.static_runtime, "-static-libgfortran");
    push_if(&mut a, caps.static_runtime, "-static-libgcc");
    push_if(&mut a, caps.static_full, "-static");
    push_if(&mut a, opts.big_stack, "-Wl,--stack,16777216");
    push_if(
        &mut a,
        opts.keep_window_open && str_eq_ignore_ascii_case(exe_suffix, ".exe"),
        "-Wl,--wrap=exit",
    );
    push_if(&mut a, opts.strip_symbols && caps.strip, "-s");
    push_if(&mut a, caps.diagnostics_plain, "-fdiagnostics-color=never");
    a
}

/// Flags the application never chooses: `-Werror` would make a novice's
/// warnings fatal, `-ffast-math` changes what arithmetic means, and
/// `-save-temps` writes files beside the source.
pub open spec fn never_chosen(f: Seq<char>) -> bool {
    f == "-Werror"@ || f == "-ffast-math"@ || f == "-save-temps"@
}

/// What a flag the application never chooses looks like: seven characters
/// with `-W` in front, or eleven with `-f` or `-s`.
proof fn lemma_never_chosen_shape(f: Seq<char>)
    ensures
        never_chosen(f) ==> (f.len() == 7 && f[0] == '-' && f[1] == 'W' && f[2] == 'e' && f[3] == 'r')
            || (f.len() == 11 && f[0] == '-' && ((f[1] == 'f' && f[2] == 'f') || (f[1] == 's'
            && f[2] == 'a'))),
{
    reveal_strlit("-Werror");
    reveal_strlit("-ffast-math");
    reveal_strlit("-save-temps");
}

/// No element of the list is a flag the application never chooses.
#[verifier::opaque]
pub open spec fn all_chosen(s: Seq<Seq<char>>) -> bool {
    forall|i: int| 0 <= i < s.len() ==> !never_chosen(#[trigger] s[i])
}

proof fn lemma_all_chosen_concat(a: Seq<Seq<char>>, b: Seq<Seq<char>>)
    requires
        all_chosen(a),
        all_chosen(b),
    ensures
        all_chosen(a + b),
{
    reveal(all_chosen);
    assert forall|i: int| 0 <= i < (a + b).len() implies !never_chosen(#[trigger] (a + b)[i]) by {
        if i < a.len() {
            assert((a + b)[i] == a[i]);
        } else {
            assert((a + b)[i] == b[i - a.len()]);
        }
    }
}

proof fn lemma_all_chosen_push(a: Seq<Seq<char>>, x: Seq<char>)
    requires
        all_chosen(a),
        !never_chosen(x),
    ensures
        all_chosen(a.push(x)),
{
    reveal(all_chosen);
    assert forall|i: int| 0 <= i < a.push(x).len() implies !never_chosen(#[trigger] a.push(x)[i]) by {
        if i < a.len() {
            assert(a.push(x)[i] == a[i]);
        }
    }
}

proof fn lemma_all_chosen_when(b: bool, f: Seq<char>)
    requires
        !never_chosen(f),
    ensures
        all_chosen(when(b, f)),
{
    reveal(all_chosen);
}

proof fn lemma_all_chosen_add_when(a: Seq<Seq<char>>, b: bool, f: Seq<char>)
    requires
        all_chosen(a),
        !never_chosen(f),
    ensures
        all_chosen(a + when(b, f)),
{
    lemma_all_chosen_when(b, f);
    lemma_all_chosen_concat(a, when(b, f));
}

proof fn lemma_chosen_prefix_i(d: Seq<char>)
    ensures
        !never_chosen("-I"@ + d),
{
    reveal_strlit("-I");
    lemma_never_chosen_shape("-I"@ + d);
    assert(("-I"@ + d)[1] == 'I');
}

proof fn lemma_chosen_std()
    ensures
        !never_chosen("-std=legacy"@),
        !never_chosen("-std=f95"@),
        !never_chosen("-ffixed-form"@),
        !never_chosen("-ffixed-line-length-72"@),
        !never_chosen("-ffixed-line-length-132"@),
        !never_chosen("-ffixed-line-length-none"@),
{
    reveal_strlit("-std=legacy");
    reveal_strlit("-std=f95");
    reveal_strlit("-ffixed-form");
    reveal_strlit("-ffixed-line-length-72");
    reveal_strlit("-ffixed-line-length-132");
    reveal_strlit("-ffixed-line-length-none");
    lemma_never_chosen_shape("-std=legacy"@);
    lemma_never_chosen_shape("-std=f95"@);
    lemma_never_chosen_shape("-ffixed-form"@);
    lemma_never_chosen_shape("-ffixed-line-length-72"@);
    lemma_never_chosen_shape("-ffixed-line-length-132"@);
    lemma_never_chosen_shape("-ffixed-line-length-none"@);
}

proof fn lemma_chosen_dialect_lits()
    ensures
        !never_chosen("-fdec"@),
        !never_chosen("-fno-automatic"@),
        !never_chosen("-finit-local-zero"@),
        !never_chosen("-fd-lines-as-code"@),
        !never_chosen("-fdefault-real-8"@),
        !never_chosen("-fno-range-check"@),
        !never_chosen("-fallow-invalid-boz"@),
        !never_chosen("-fmax-stack-var-size=0"@),
        !never_chosen("-fcheck=bounds"@),
{
    reveal_strlit("-fdec");
    reveal_strlit("-fno-automatic");
    reveal_strlit("-finit-local-zero");
    reveal_strlit("-fd-lines-as-code");
    reveal_strlit("-fdefault-real-8");
    reveal_strlit("-fno-range-check");
    reveal_strlit("-fallow-invalid-boz");
    reveal_strlit("-fmax-stack-var-size=0");
    reveal_strlit("-fcheck=bounds");
    lemma_never_chosen_shape("-fcheck=bounds"@);
    lemma_never_chosen_shape("-fdec"@);
    lemma_never_chosen_shape("-fno-automatic"@);
    lemma_never_chosen_shape("-finit-local-zero"@);
    lemma_never_chosen_shape("-fd-lines-as-code"@);
    lemma_never_chosen_shape("-fdefault-real-8"@);
    lemma_never_chosen_shape("-fno-range-check"@);
    lemma_never_chosen_shape("-fallow-invalid-boz"@);
    lemma_never_chosen_shape("-fmax-stack-var-size=0"@);
}

proof fn lemma_chosen_line_lits()
    ensures
        !never_chosen("-c"@),
        !never_chosen("-O0"@),
        !never_chosen("-O1"@),
        !never_chosen("-O2"@),
        !never_chosen("-fmax-errors=25"@),
        !never_chosen("-fdiagnostics-color=never"@),
        !never_chosen("-Wall"@),
        !never_chosen("-Wsurprising"@),
        !never_chosen("-Wtabs"@),
        !never_chosen("-Wextra"@),
{
    reveal_strlit("-c");
    reveal_strlit("-O0");
    reveal_strlit("-O1");
    reveal_strlit("-O2");
    reveal_strlit("-fmax-errors=25");
    reveal_strlit("-fdiagnostics-color=never");
    reveal_strlit("-Wall");
    reveal_strlit("-Wsurprising");
    reveal_strlit("-Wtabs");
    reveal_strlit("-Wextra");
    lemma_never_chosen_shape("-c"@);
    lemma_never_chosen_shape("-O0"@);
    lemma_never_chosen_shape("-O1"@);
    lemma_never_chosen_shape("-O2"@);
    lemma_never_chosen_shape("-fmax-errors=25"@);
    lemma_never_chosen_shape("-fdiagnostics-color=never"@);
    lemma_never_chosen_shape("-Wall"@);
    lemma_never_chosen_shape("-Wsurprising"@);
    lemma_never_chosen_shape("-Wtabs"@);
    lemma_never_chosen_shape("-Wextra"@);
}

proof fn lemma_chosen_tail_lits()
    ensures
        !never_chosen("-J"@),
        !never_chosen("-x"@),
        !never_chosen("f77"@),
        !never_chosen("f77-cpp-input"@),
        !never_chosen("none"@),
        !never_chosen("-o"@),
{
    reveal_strlit("-J");
    reveal_strlit("-x");
    reveal_strlit("f77");
    reveal_strlit("f77-cpp-input");
    reveal_strlit("none");
    reveal_strlit("-o");
    lemma_never_chosen_shape("-J"@);
    lemma_never_chosen_shape("-x"@);
    lemma_never_chosen_shape("f77"@);
    lemma_never_chosen_shape("f77-cpp-input"@);
    lemma_never_chosen_shape("none"@);
    lemma_never_chosen_shape("-o"@);
}

proof fn lemma_dialect_flags_are_chosen(o: BuildOptions, c: FlagCapabilities)
    ensures
        all_chosen(spec_dialect_flags(o, c)),
{
    lemma_chosen_std();
    lemma_chosen_dialect_lits();
    let std = match o.dialect {
        Dialect::Legacy => when(c.std_legacy, "-std=legacy"@),
        Dialect::Standard => seq!["-std=f95"@],
    };
    assert(all_chosen(std)) by {
        reveal(all_chosen);
    }
    lemma_all_chosen_push(std, "-ffixed-form"@);
    let a0 = std.push("-ffixed-form"@);
    lemma_all_chosen_push(a0, line_length_flag(o.line_length));
    let a1 = a0.push(line_length_flag(o.line_length));
    lemma_all_chosen_add_when(a1, o.dec_extensions && c.dec, "-fdec"@);
    let a2 = a1 + when(o.dec_extensions && c.dec, "-fdec"@);
    lemma_all_chosen_add_when(a2, o.static_storage && c.no_automatic, "-fno-automatic"@);
    let a3 = a2 + when(o.static_storage && c.no_automatic, "-fno-automatic"@);
    lemma_all_chosen_add_when(a3, o.static_storage && c.init_local_zero, "-finit-local-zero"@);
    let a4 = a3 + when(o.static_storage && c.init_local_zero, "-finit-local-zero"@);
    lemma_all_chosen_add_when(a4, o.d_lines_as_code && c.d_lines_as_code, "-fd-lines-as-code"@);
    let a5 = a4 + when(o.d_lines_as_code && c.d_lines_as_code, "-fd-lines-as-code"@);
    lemma_all_chosen_add_when(a5, o.default_real8 && c.default_real8, "-fdefault-real-8"@);
    let a6 = a5 + when(o.default_real8 && c.default_real8, "-fdefault-real-8"@);
    lemma_all_chosen_add_when(a6, c.no_range_check, "-fno-range-check"@);
    let a7 = a6 + when(c.no_range_check, "-fno-range-check"@);
    lemma_all_chosen_add_when(a7, c.allow_invalid_boz, "-fallow-invalid-boz"@);
    let a8 = a7 + when(c.allow_invalid_boz, "-fallow-invalid-boz"@);
    lemma_all_chosen_add_when(a8, o.big_stack && c.max_stack_var_size, "-fmax-stack-var-size=0"@);
    let a9 = a8 + when(o.big_stack && c.max_stack_var_size, "-fmax-stack-var-size=0"@);
    lemma_all_chosen_add_when(a9, o.check_bounds && c.check_bounds, "-fcheck=bounds"@);
}

/// Every flag of the list that the application never chooses is one that
/// `allowed` accounts for.
pub open spec fn accounted(s: Seq<Seq<char>>, allowed: spec_fn(Seq<char>) -> bool) -> bool {
    forall|i: int| 0 <= i < s.len() && never_chosen(#[trigger] s[i]) ==> allowed(s[i])
}

proof fn lemma_accounted_concat(a: Seq<Seq<char>>, b: Seq<Seq<char>>, allowed: spec_fn(Seq<char>) -> bool)
    requires
        accounted(a, allowed),
        accounted(b, allowed),
    ensures
        accounted(a + b, allowed),
{
    assert forall|i: int| 0 <= i < (a + b).len() && never_chosen(#[trigger] (a + b)[i]) implies allowed((a + b)[i]) by {
        if i < a.len() {
            assert((a + b)[i] == a[i]);
        } else {
            assert((a + b)[i] == b[i - a.len()]);
        }
    }
}

proof fn lemma_accounted_push(a: Seq<Seq<char>>, x: Seq<char>, allowed: spec_fn(Seq<char>) -> bool)
    requires
        accounted(a, allowed),
        never_chosen(x) ==> allowed(x),
    ensures
        accounted(a.push(x), allowed),
{
    assert forall|i: int| 0 <= i < a.push(x).len() && never_chosen(#[trigger] a.push(x)[i]) implies allowed(a.push(x)[i]) by {
        if i < a.len() {
            assert(a.push(x)[i] == a[i]);
        }
    }
}

/// A flag that would make warnings fatal, change what arithmetic means, or
/// write files beside the source is never of the application's choosing: on a
/// compile line it can only be one of the toolchain descriptor's own flags, one
/// of the user's extra flags, or a path.
pub proof fn law_no_fatal_warnings_fast_math_or_temps(
    c: FlagCapabilities,
    bundle: Seq<Seq<char>>,
    o: BuildOptions,
    staged: Seq<char>,
    obj: Seq<char>,
    root: Seq<char>,
    includes: Seq<Seq<char>>,
)
    ensures
        ({
            let a = spec_compile_args(c, bundle, o, staged, obj, root, includes);
            forall|i: int|
                0 <= i < a.len() && never_chosen(#[trigger] a[i]) ==> bundle.contains(a[i])
                    || nonblank(views(o.extra_flags@)).contains(a[i]) || a[i] == rel(root, staged)
                    || a[i] == rel(root, obj) || a[i] == rel(root, join(root, "mod"@))
        }),
{
    lemma_chosen_line_lits();
    lemma_chosen_tail_lits();
    lemma_dialect_flags_are_chosen(o, c);
    let extra = nonblank(views(o.extra_flags@));
    let rs = rel(root, staged);
    let ro = rel(root, obj);
    let mark = rel(root, join(root, "mod"@));
    let allowed = |x: Seq<char>| bundle.contains(x) || extra.contains(x) || x == rs || x == ro || x == mark;
    assert(accounted(bundle, allowed)) by {
        assert forall|i: int| 0 <= i < bundle.len() && never_chosen(#[trigger] bundle[i]) implies allowed(bundle[i]) by {
            assert(bundle.contains(bundle[i]));
        }
    }
    assert(accounted(extra, allowed)) by {
        assert forall|i: int| 0 <= i < extra.len() && never_chosen(#[trigger] extra[i]) implies allowed(extra[i]) by {
            assert(extra.contains(extra[i]));
        }
    }
    let d = spec_dialect_flags(o, c);
    assert(accounted(d, allowed)) by {
        reveal(all_chosen);
    }
    let w1 = when(c.max_errors, "-fmax-errors=25"@);
    let w2 = when(c.diagnostics_plain, "-fdiagnostics-color=never"@);
    assert(accounted(w1, allowed));
    assert(accounted(w2, allowed));
    let inc = include_flags(includes);
    assert(accounted(inc, allowed)) by {
        assert forall|k: int| 0 <= k < inc.len() && never_chosen(#[trigger] inc[k]) implies allowed(inc[k]) by {
            lemma_chosen_prefix_i(includes[k]);
        }
    }
    lemma_accounted_push(bundle, "-c"@, allowed);
    let t = bundle.push("-c"@);
    lemma_accounted_concat(t, d, allowed);
    let t = t + d;
    lemma_accounted_push(t, opt_level_flag(o.opt_level), allowed);
    let t = t.push(opt_level_flag(o.opt_level));
    lemma_accounted_concat(t, w1, allowed);
    let t = t + w1;
    lemma_accounted_concat(t, w2, allowed);
    let t = t + w2;
    lemma_accounted_push(t, "-Wall"@, allowed);
    let t = t.push("-Wall"@);
    lemma_accounted_push(t, "-Wsurprising"@, allowed);
    let t = t.push("-Wsurprising"@);
    lemma_accounted_push(t, "-Wtabs"@, allowed);
    let t = t.push("-Wtabs"@);
    lemma_accounted_push(t, "-Wextra"@, allowed);
    let t = t.push("-Wextra"@);
    lemma_accounted_push(t, "-J"@, allowed);
    let t = t.push("-J"@);
    lemma_accounted_push(t, mark, allowed);
    let t = t.push(mark);
    lemma_accounted_concat(t, inc, allowed);
    let t = t + inc;
    lemma_accounted_concat(t, extra, allowed);
    let t = t + extra;
    lemma_accounted_push(t, "-x"@, allowed);
    let t = t.push("-x"@);
    lemma_accounted_push(t, language_name(o.preprocess), allowed);
    let t = t.push(language_name(o.preprocess));
    lemma_accounted_push(t, rs, allowed);
    let t = t.push(rs);
    lemma_accounted_push(t, "-x"@, allowed);
    let t = t.push("-x"@);
    lemma_accounted_push(t, "none"@, allowed);
    let t = t.push("none"@);
    lemma_accounted_push(t, "-o"@, allowed);
    let t = t.push("-o"@);
    lemma_accounted_push(t, ro, allowed);
    let t = t.push(ro);
    assert(t == spec_compile_args(c, bundle, o, staged, obj, root, includes));
}

/// The user's libraries come after every object file on the link line, and
/// the toolchain's own flags come before everything.
pub proof fn law_link_order(
    c: FlagCapabilities,
    bundle: Seq<Seq<char>>,
    o: BuildOptions,
    objs: Seq<Seq<char>>,
    libs: Seq<Seq<char>>,
    root: Seq<char>,
    exe_suffix: Seq<char>,
)
    ensures
        ({
            let a = spec_link_args(c, bundle, o, objs, libs, root, exe_suffix);
            let b = bundle.len() as int;
            let n = objs.len() as int;
            let l = libs.len() as int;
            &&& a.take(b) == bundle
            &&& a.subrange(b, b + n) == rel_all(root, objs)
            &&& a.subrange(b + n, b + n + l) == rel_all(root, libs)
        }),
{
    let a = spec_link_args(c, bundle, o, objs, libs, root, exe_suffix);
    let b = bundle.len() as int;
    let n = objs.len() as int;
    let l = libs.len() as int;
    assert(a.take(b) =~= bundle);
    assert(a.subrange(b, b + n) =~= rel_all(root, objs));
    assert(a.subrange(b + n, b + n + l) =~= rel_all(root, libs));
}

} // verus!
