use ef_core::build::args::{compile_args, link_args, shim_compile_args};
use ef_core::build::stage::{StagedLibrary, StagedSource};
use ef_core::paths::WorkLayout;
use ef_core::project::{BuildOptions, LineLength, OptLevel, Preprocess};
use ef_core::toolchain::probe::FlagCapabilities;

fn fixture() -> (WorkLayout, StagedSource) {
    let layout = WorkLayout::new("/work/build-1".to_string());
    let src = StagedSource {
        original: "/home/user/SOLVER.FOR".to_string(),
        staged: format!("{}/solver.f", layout.src()),
        staged_name: "solver.f".to_string(),
        display_name: "SOLVER.FOR".to_string(),
        obj: format!("{}/solver.o", layout.obj()),
    };
    (layout, src)
}

fn s(v: &[&str]) -> Vec<String> {
    v.iter().map(|x| x.to_string()).collect()
}

#[test]
fn default_compile_line_is_maximally_permissive() {
    let (layout, src) = fixture();
    let a = compile_args(
        &FlagCapabilities::optimistic(),
        &[],
        &BuildOptions::default(),
        &src,
        &layout,
        &s(&["/home/user"]),
    );
    for expected in [
        "-c",
        "-std=legacy",
        "-ffixed-form",
        "-ffixed-line-length-72",
        "-fdec",
        "-fno-automatic",
        "-finit-local-zero",
        "-fno-range-check",
        "-fallow-invalid-boz",
        "-fmax-errors=25",
        "-O1",
        "-I/home/user",
    ] {
        assert!(a.contains(&expected.to_string()), "missing {expected} in {a:?}");
    }
    assert!(!a.iter().any(|s| s == "-Werror"), "never -Werror");
    assert!(!a.iter().any(|s| s == "-save-temps"), "never -save-temps");
}

#[test]
fn the_language_is_forced_to_fixed_form_f77_around_the_file_only() {
    let (layout, src) = fixture();
    let a = compile_args(&FlagCapabilities::optimistic(), &[], &BuildOptions::default(), &src, &layout, &[]);
    let i = a.iter().position(|s| s == "-x").unwrap();
    assert_eq!(a[i + 1], "f77");
    assert!(a[i + 2].ends_with("solver.f"));
    assert_eq!(a[i + 3], "-x");
    assert_eq!(a[i + 4], "none");
}

#[test]
fn preprocessing_is_only_requested_when_asked_for() {
    let (layout, src) = fixture();
    let mut o = BuildOptions::default();
    assert!(!compile_args(&FlagCapabilities::optimistic(), &[], &o, &src, &layout, &[])
        .contains(&"f77-cpp-input".to_string()));
    o.preprocess = Preprocess::Always;
    assert!(compile_args(&FlagCapabilities::optimistic(), &[], &o, &src, &layout, &[])
        .contains(&"f77-cpp-input".to_string()));
}

#[test]
fn line_length_never_silently_becomes_unlimited() {
    let (layout, src) = fixture();
    let mut o = BuildOptions::default();
    let a = compile_args(&FlagCapabilities::optimistic(), &[], &o, &src, &layout, &[]);
    assert!(a.contains(&"-ffixed-line-length-72".to_string()));
    o.line_length = LineLength::Col132;
    let a = compile_args(&FlagCapabilities::optimistic(), &[], &o, &src, &layout, &[]);
    assert!(a.contains(&"-ffixed-line-length-132".to_string()));
    assert!(!a.contains(&"-ffixed-line-length-72".to_string()));
}

#[test]
fn unavailable_flags_are_dropped_rather_than_failing_the_build() {
    let (layout, src) = fixture();
    let caps = FlagCapabilities::conservative();
    let a = compile_args(&caps, &[], &BuildOptions::default(), &src, &layout, &[]);
    assert!(!a.contains(&"-fdec".to_string()));
    assert!(!a.contains(&"-std=legacy".to_string()));
    // but the mandatory parts survive
    assert!(a.contains(&"-c".to_string()));
    assert!(a.contains(&"-ffixed-form".to_string()));
}

#[test]
fn outputs_stay_inside_the_work_tree() {
    let (layout, src) = fixture();
    let a = compile_args(
        &FlagCapabilities::optimistic(),
        &[],
        &BuildOptions::default(),
        &src,
        &layout,
        &s(&["/home/user"]),
    );
    let o = a.iter().position(|s| s == "-o").unwrap();
    assert!(a[o + 1].contains("obj"), "{:?}", a[o + 1]);
    let j = a.iter().position(|s| s == "-J").unwrap();
    assert!(a[j + 1].contains("mod"));
    // the only absolute path is the read-only include dir
    let abs: Vec<_> = a.iter().filter(|s| s.starts_with('/')).collect();
    assert!(abs.is_empty(), "unexpected absolute paths: {abs:?}");
}

#[test]
fn link_line_statically_links_the_fortran_runtime() {
    let layout = WorkLayout::new("/work/build-1".to_string());
    let objs = vec![format!("{}/a.o", layout.obj()), format!("{}/b.o", layout.obj())];
    let a = link_args(&FlagCapabilities::optimistic(), &[], &BuildOptions::default(), &objs, &[], &layout, "");
    assert!(a.contains(&"-static-libgfortran".to_string()));
    assert!(a.contains(&"-static-libgcc".to_string()));
    let o = a.iter().position(|s| s == "-o").unwrap();
    assert!(a[o + 1].contains("out"));
    // link order is the order the user arranged
    let ia = a.iter().position(|s| s.ends_with("a.o")).unwrap();
    let ib = a.iter().position(|s| s.ends_with("b.o")).unwrap();
    assert!(ia < ib);
}

fn staged_lib(layout: &WorkLayout, name: &str) -> StagedLibrary {
    StagedLibrary {
        original: format!("/home/user/{name}"),
        staged: format!("{}/{}", layout.lib(), name.to_ascii_lowercase()),
        display_name: name.to_string(),
    }
}

#[test]
fn libraries_come_after_every_object_file() {
    let layout = WorkLayout::new("/work/build-1".to_string());
    let objs = vec![format!("{}/a.o", layout.obj()), format!("{}/b.o", layout.obj())];
    let libs = vec![staged_lib(&layout, "mathlib.a")];
    let a = link_args(&FlagCapabilities::optimistic(), &[], &BuildOptions::default(), &objs, &libs, &layout, "");
    let last_obj = a.iter().rposition(|s| s.ends_with(".o")).unwrap();
    let lib = a.iter().position(|s| s.ends_with("mathlib.a")).unwrap();
    assert!(lib > last_obj, "library must follow the objects, got {a:?}");
}

#[test]
fn libraries_keep_the_order_he_arranged() {
    let layout = WorkLayout::new("/work/build-1".to_string());
    let libs = vec![staged_lib(&layout, "first.a"), staged_lib(&layout, "second.a")];
    let a = link_args(&FlagCapabilities::optimistic(), &[], &BuildOptions::default(), &[], &libs, &layout, "");
    let i = a.iter().position(|s| s.ends_with("first.a")).unwrap();
    let j = a.iter().position(|s| s.ends_with("second.a")).unwrap();
    assert!(i < j);
}

#[test]
fn libraries_are_named_relatively_so_his_path_stays_out_of_argv() {
    let layout = WorkLayout::new("/work/build-1".to_string());
    let libs = vec![staged_lib(&layout, "mathlib.a")];
    let a = link_args(&FlagCapabilities::optimistic(), &[], &BuildOptions::default(), &[], &libs, &layout, "");
    assert!(a.iter().all(|s| !s.starts_with('/')), "no absolute paths on the link line: {a:?}");
}

#[test]
fn no_libraries_adds_nothing_at_all_to_the_link_line() {
    let layout = WorkLayout::new("/work/build-1".to_string());
    let objs = vec![format!("{}/a.o", layout.obj())];
    let a = link_args(&FlagCapabilities::optimistic(), &[], &BuildOptions::default(), &objs, &[], &layout, "");
    assert!(
        !a.iter().any(|s| s.contains("lib") && s.starts_with('.')),
        "nothing from the lib directory should appear: {a:?}"
    );
}

#[test]
fn asking_for_it_wraps_exit_on_windows_only() {
    let layout = WorkLayout::new("/work/build-1".to_string());
    let o = BuildOptions {
        keep_window_open: true,
        ..Default::default()
    };
    let win = link_args(&FlagCapabilities::optimistic(), &[], &o, &[], &[], &layout, ".exe");
    assert!(win.contains(&"-Wl,--wrap=exit".to_string()), "{win:?}");
    let nix = link_args(&FlagCapabilities::optimistic(), &[], &o, &[], &[], &layout, "");
    assert!(!nix.iter().any(|s| s.contains("--wrap")), "{nix:?}");
}

#[test]
fn the_shim_is_compiled_with_its_own_dialect_not_theirs() {
    let layout = WorkLayout::new("/work/build-1".to_string());
    let a = shim_compile_args(
        &[],
        &format!("{}/shim.f90", layout.src()),
        &format!("{}/shim.o", layout.obj()),
        &layout,
    );
    assert!(a.contains(&"-ffree-form".to_string()));
    for theirs in ["-std=legacy", "-ffixed-form", "-fdec", "-ffixed-line-length-72"] {
        assert!(!a.contains(&theirs.to_string()), "{theirs} leaked into the shim");
    }
}

#[test]
fn stripping_is_off_unless_asked_for() {
    let layout = WorkLayout::new("/work/build-1".to_string());
    let a = link_args(&FlagCapabilities::optimistic(), &[], &BuildOptions::default(), &[], &[], &layout, "");
    assert!(!a.contains(&"-s".to_string()));
}

#[test]
fn stripping_is_requested_when_asked_for_and_available() {
    let layout = WorkLayout::new("/work/build-1".to_string());
    let o = BuildOptions {
        strip_symbols: true,
        ..Default::default()
    };
    let a = link_args(&FlagCapabilities::optimistic(), &[], &o, &[], &[], &layout, "");
    assert!(a.contains(&"-s".to_string()));
    // and dropped, rather than failing the build, where the linker has no -s
    let mut caps = FlagCapabilities::optimistic();
    caps.strip = false;
    let a = link_args(&caps, &[], &o, &[], &[], &layout, "");
    assert!(!a.contains(&"-s".to_string()));
}

#[test]
fn stripping_is_a_link_time_choice_only() {
    let (layout, src) = fixture();
    let o = BuildOptions {
        strip_symbols: true,
        ..Default::default()
    };
    let a = compile_args(&FlagCapabilities::optimistic(), &[], &o, &src, &layout, &[]);
    assert!(!a.contains(&"-s".to_string()));
}

#[test]
fn the_output_name_uses_the_targets_suffix_not_the_hosts() {
    let layout = WorkLayout::new("/work/build-1".to_string());
    let a = link_args(&FlagCapabilities::optimistic(), &[], &BuildOptions::default(), &[], &[], &layout, ".exe");
    let o = a.iter().position(|s| s == "-o").unwrap();
    assert!(a[o + 1].ends_with("program.exe"), "got {:?}", a[o + 1]);
}

#[test]
fn big_stack_raises_the_windows_stack_reservation() {
    let layout = WorkLayout::new("/work/build-1".to_string());
    let o = BuildOptions {
        big_stack: true,
        ..Default::default()
    };
    let a = link_args(&FlagCapabilities::optimistic(), &[], &o, &[], &[], &layout, "");
    assert!(a.contains(&"-Wl,--stack,16777216".to_string()));
}

#[test]
fn a_static_link_is_skipped_when_the_platform_cannot_do_it() {
    let layout = WorkLayout::new("/work/build-1".to_string());
    let mut caps = FlagCapabilities::optimistic();
    caps.static_full = false; // typical Linux: no static glibc
    let a = link_args(&caps, &[], &BuildOptions::default(), &[], &[], &layout, "");
    assert!(!a.contains(&"-static".to_string()));
    assert!(a.contains(&"-static-libgfortran".to_string()));
}

#[test]
fn extra_flags_are_passed_through_but_blanks_are_not() {
    let (layout, src) = fixture();
    let o = BuildOptions {
        extra_flags: vec!["-ffpe-trap=invalid".into(), "   ".into()],
        ..Default::default()
    };
    let a = compile_args(&FlagCapabilities::optimistic(), &[], &o, &src, &layout, &[]);
    assert!(a.contains(&"-ffpe-trap=invalid".to_string()));
    assert!(!a.iter().any(|s| s.trim().is_empty()));
}

#[test]
fn bundle_flags_come_first_on_both_lines() {
    let (layout, src) = fixture();
    let bf = s(&["--sysroot=/opt/t/sysroot", "-B/opt/t/lib"]);
    let a = compile_args(&FlagCapabilities::optimistic(), &bf, &BuildOptions::default(), &src, &layout, &[]);
    assert_eq!(a[0], "--sysroot=/opt/t/sysroot");
    assert_eq!(a[1], "-B/opt/t/lib");
    assert_eq!(a[2], "-c");
    let l = link_args(
        &FlagCapabilities::optimistic(),
        &bf,
        &BuildOptions::default(),
        &[format!("{}/a.o", layout.obj())],
        &[],
        &layout,
        "",
    );
    assert_eq!(l[0], "--sysroot=/opt/t/sysroot");
    assert!(l.iter().any(|s| s.ends_with("a.o")));
}

#[test]
fn no_bundle_means_no_extra_flags_at_all() {
    let (layout, src) = fixture();
    let a = compile_args(&FlagCapabilities::optimistic(), &[], &BuildOptions::default(), &src, &layout, &[]);
    assert_eq!(a[0], "-c");
}

#[test]
fn optimisation_level_is_honoured() {
    let (layout, src) = fixture();
    let o = BuildOptions {
        opt_level: OptLevel::O2,
        ..Default::default()
    };
    let a = compile_args(&FlagCapabilities::optimistic(), &[], &o, &src, &layout, &[]);
    assert!(a.contains(&"-O2".to_string()));
    assert!(!a.contains(&"-O1".to_string()));
}

#[test]
fn bounds_checking_is_asked_for_by_default_and_only_where_the_compiler_has_it() {
    let (layout, src) = fixture();
    let a = compile_args(&FlagCapabilities::optimistic(), &[], &BuildOptions::default(), &src, &layout, &[]);
    assert!(a.contains(&"-fcheck=bounds".to_string()));
    let o = BuildOptions {
        check_bounds: false,
        ..Default::default()
    };
    let a = compile_args(&FlagCapabilities::optimistic(), &[], &o, &src, &layout, &[]);
    assert!(!a.contains(&"-fcheck=bounds".to_string()));
    let a = compile_args(&FlagCapabilities::conservative(), &[], &BuildOptions::default(), &src, &layout, &[]);
    assert!(!a.contains(&"-fcheck=bounds".to_string()));
}

#[test]
fn the_application_never_asks_for_fatal_warnings_fast_math_or_temporaries() {
    let (layout, src) = fixture();
    let never = ["-Werror", "-ffast-math", "-save-temps"];
    let a = compile_args(&FlagCapabilities::optimistic(), &[], &BuildOptions::default(), &src, &layout, &s(&["/home/user"]));
    assert!(a.iter().all(|f| !never.contains(&f.as_str())));
    // Only the user's own extra flags can bring one in.
    let o = BuildOptions {
        extra_flags: vec!["-Werror".into()],
        ..Default::default()
    };
    let a = compile_args(&FlagCapabilities::optimistic(), &[], &o, &src, &layout, &[]);
    assert!(a.contains(&"-Werror".to_string()));
}
