use ef_core::build::objfmt::Expect;
use ef_core::build::stage::{staged_library_name_for, staged_name_for, Stager};
use ef_core::error::EfError;
use ef_core::i18n::{Catalog, Catalogs};
use ef_core::paths::WorkLayout;
use ef_core::project::{Preprocess, Program};

#[test]
fn uppercase_for_becomes_lowercase_f_so_cpp_never_runs() {
    assert_eq!(staged_name_for("SOLVER", Preprocess::Never, 0), "solver.f");
}

#[test]
fn the_f77_suffix_problem_disappears() {
    let n = staged_name_for("model", Preprocess::Never, 0);
    assert!(n.ends_with(".f"));
}

#[test]
fn vietnamese_names_become_ascii() {
    let n = staged_name_for("Chương trình", Preprocess::Never, 0);
    assert!(n.bytes().all(|b| b.is_ascii()), "staged name must be pure ASCII, got {n:?}");
    assert!(n.ends_with(".f"));
}

#[test]
fn names_never_start_with_a_dash_or_a_digit() {
    for input in ["-lkernel32", "123", "---", "  ", "", "9lives"] {
        let n = staged_name_for(input, Preprocess::Never, 0);
        assert!(!n.starts_with('-'), "{input:?} -> {n:?}");
        assert!(
            n.starts_with(|c: char| c.is_ascii_alphabetic() || c == '_'),
            "{input:?} -> {n:?}"
        );
    }
}

#[test]
fn collisions_get_distinct_names() {
    let a = staged_name_for("Solver", Preprocess::Never, 0);
    let b = staged_name_for("SOLVER", Preprocess::Never, 1);
    assert_ne!(a, b);
}

#[test]
fn preprocessing_is_opt_in_only() {
    assert!(staged_name_for("x", Preprocess::Never, 0).ends_with(".f"));
    assert!(staged_name_for("x", Preprocess::Always, 0).ends_with(".F"));
}

#[test]
fn the_extension_is_kept_when_it_is_one_the_linker_knows() {
    assert_eq!(staged_library_name_for("MATH.LIB", true, 0), "math.lib");
    assert_eq!(staged_library_name_for("libmath.a", false, 0), "libmath.a");
    assert_eq!(staged_library_name_for("SUB.OBJ", true, 0), "sub.obj");
    assert!(staged_library_name_for("MATH.XYZ", true, 0).ends_with(".lib"));
    assert!(staged_library_name_for("MATH.XYZ", false, 0).ends_with(".a"));
}

#[test]
fn a_library_name_can_never_look_like_a_compiler_flag() {
    for awkward in ["-lkernel32.a", "--version.a", "-.a", "___.a"] {
        let n = staged_library_name_for(awkward, false, 0);
        assert!(!n.starts_with('-'), "{awkward} -> {n}");
        assert!(!n.is_empty());
    }
}

#[test]
fn a_later_sequence_number_is_appended_to_the_stem() {
    assert_eq!(staged_name_for("solver", Preprocess::Never, 2), "solver__3.f");
    assert_eq!(staged_library_name_for("math.lib", true, 3), "math__4.lib");
}

#[test]
fn a_program_with_no_sources_is_refused() {
    let layout = WorkLayout::new("/work/build-1".to_string());
    let err = Stager::new(&Program::new("empty"), layout, Expect::for_exe_suffix("")).err().unwrap();
    assert!(matches!(err, EfError::NoSources));
}

#[test]
fn a_library_that_is_really_fortran_source_is_named_as_such() {
    let cats = Catalogs {
        vi: Catalog::parse("").unwrap(),
        en: Catalog::parse("").unwrap(),
    };
    let mut p = Program::new("with-a-library");
    p.add_source("/home/user/MAIN.FOR").unwrap();
    let layout = WorkLayout::new("/work/build-93".to_string());
    let mut st = Stager::new(&p, layout, Expect::for_exe_suffix("")).unwrap();
    st.add_source("/home/user/MAIN.FOR", b"      PROGRAM MAIN\n      CALL HELPER\n      END\n", &cats).unwrap();
    // Picking a .FOR in the library dialog is an easy mistake to make.
    let err = st
        .add_library("/home/user/HELPER.FOR", b"      SUBROUTINE HELPER\n      END\n", &cats)
        .err()
        .unwrap();
    match err {
        EfError::UnusableFile { problem, .. } => assert_eq!(problem.reason_key, "lib.reject.not_a_library"),
        _ => panic!("expected a library problem"),
    }
}

#[test]
fn the_staging_looks_for_includes_where_the_sources_are() {
    let cats = Catalogs {
        vi: Catalog::parse("").unwrap(),
        en: Catalog::parse("").unwrap(),
    };
    let mut p = Program::new("includes");
    for f in ["/home/user/a/MAIN.FOR", "/home/user/b/SUB.FOR", "/home/user/a/MORE.FOR"] {
        p.add_source(f).unwrap();
    }
    let layout = WorkLayout::new("/work/build-1".to_string());
    let mut st = Stager::new(&p, layout, Expect::for_exe_suffix("")).unwrap();
    for f in ["/home/user/a/MAIN.FOR", "/home/user/b/SUB.FOR", "/home/user/a/MORE.FOR"] {
        st.add_source(f, b"      END\n", &cats).unwrap();
    }
    let s = st.finish();
    assert_eq!(s.include_dirs, p.include_dirs());
    assert_eq!(s.include_dirs, vec!["/home/user/a".to_string(), "/home/user/b".to_string()]);
    assert_eq!(s.sources.len(), 3);
}
