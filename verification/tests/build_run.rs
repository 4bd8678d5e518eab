use ef_core::build::objfmt::Expect;
use ef_core::build::stage::Stager;
use ef_core::build::{BuildAction, BuildEvent, BuildOutcome, BuildPhase, BuildPlan, BuildRun, FailedAt, Ran};
use ef_core::error::EfError;
use ef_core::i18n::{Catalog, Catalogs};
use ef_core::paths::WorkLayout;
use ef_core::project::Program;
use ef_core::toolchain::probe::FlagCapabilities;

const SOURCE: &[u8] = b"      PROGRAM A\n      END\n";

fn cats() -> Catalogs {
    Catalogs {
        vi: Catalog::parse("").unwrap(),
        en: Catalog::parse("").unwrap(),
    }
}

fn plan(files: &[&str], keep_open: bool, suffix: &str) -> BuildPlan {
    let mut p = Program::new("t");
    for f in files {
        p.add_source(f).unwrap();
    }
    p.options.keep_window_open = keep_open;
    let layout = WorkLayout::new("/work/b1".to_string());
    let mut st = Stager::new(&p, layout.clone(), Expect::for_exe_suffix(suffix)).unwrap();
    for f in files {
        st.add_source(f, SOURCE, &cats()).unwrap();
    }
    BuildPlan {
        staging: st.finish(),
        options: p.options.clone(),
        caps: FlagCapabilities::optimistic(),
        compile_flags: Vec::new(),
        link_flags: Vec::new(),
        layout,
        exe_suffix: suffix.to_string(),
    }
}

fn exited(code: i32, output: &str, produced: bool) -> Option<Ran> {
    Some(Ran::Exited {
        code: Some(code),
        output: output.to_string(),
        produced,
    })
}

fn finished(a: BuildAction) -> BuildOutcome {
    match a {
        BuildAction::Finish(o) => o,
        _ => panic!("the build should have finished"),
    }
}

fn is_run(a: &BuildAction) -> bool {
    matches!(a, BuildAction::Run(_))
}

const ERROR_IN_A: &str = "a.f:3:1:\n\nError: Unclassifiable statement at (1)\n";

#[test]
fn every_file_is_compiled_even_after_one_fails_and_then_nothing_is_linked() {
    let mut run = BuildRun::new(plan(&["/src/A.FOR", "/src/b.f"], false, ""));
    let (ev, act) = run.next(false, None);
    assert!(is_run(&act));
    assert!(matches!(&ev[..], [BuildEvent::Phase(BuildPhase::Compiling { done: 0, total: 2, .. })]));

    // The first file fails; the second is compiled all the same.
    let (ev, act) = run.next(false, exited(1, ERROR_IN_A, false));
    assert!(is_run(&act));
    assert_eq!(ev.len(), 2);
    match &ev[0] {
        BuildEvent::Diagnostics(d) => {
            assert_eq!(d.len(), 1);
            // Named as the user named the file, not as it was staged.
            assert_eq!(d[0].file.as_deref(), Some("A.FOR"));
        }
        _ => panic!("the diagnostics come first"),
    }
    assert!(matches!(&ev[1], BuildEvent::Phase(BuildPhase::Compiling { done: 1, total: 2, .. })));

    // Then the build stops short of the link, as a compile failure.
    let (_, act) = run.next(false, exited(0, "", true));
    let o = finished(act);
    assert!(!o.success);
    assert_eq!(o.failed_at, Some(FailedAt::Compile));
    assert_eq!(o.errors, 1);
    assert!(o.raw.contains("Unclassifiable statement"));
}

#[test]
fn a_clean_build_links_and_names_the_program() {
    let mut run = BuildRun::new(plan(&["/src/a.f"], false, ".exe"));
    let (_, act) = run.next(false, None);
    assert!(is_run(&act));
    let (ev, act) = run.next(false, exited(0, "", true));
    assert!(matches!(&ev[..], [BuildEvent::Phase(BuildPhase::Linking)]));
    match &act {
        BuildAction::Run(args) => {
            let o = args.iter().position(|a| a == "-o").unwrap();
            assert_eq!(args[o + 1], "./out/program.exe");
        }
        _ => panic!("the link comes next"),
    }
    let o = finished(run.next(false, exited(0, "", true)).1);
    assert!(o.success);
    assert_eq!(o.exe.as_deref(), Some("/work/b1/out/program.exe"));
    assert_eq!(o.errors, 0);
}

#[test]
fn a_link_that_makes_no_program_is_a_link_failure() {
    let mut run = BuildRun::new(plan(&["/src/a.f"], false, ""));
    run.next(false, None);
    run.next(false, exited(0, "", true));
    let o = finished(run.next(false, exited(0, "", false)).1);
    assert!(!o.success);
    assert_eq!(o.failed_at, Some(FailedAt::Link));
}

#[test]
fn stopping_reports_a_cancelled_build_with_what_was_gathered() {
    let mut run = BuildRun::new(plan(&["/src/a.f", "/src/b.f"], false, ""));
    run.next(false, None);
    let o = finished(run.next(true, exited(1, ERROR_IN_A, false)).1);
    assert!(o.cancelled);
    assert!(!o.success);
    assert_eq!(o.failed_at, None);
    assert_eq!(o.errors, 1);

    let mut run = BuildRun::new(plan(&["/src/a.f"], false, ""));
    let o = finished(run.next(true, None).1);
    assert!(o.cancelled);
    assert!(o.diagnostics.is_empty());
}

#[test]
fn a_compiler_that_cannot_be_run_ends_the_build_with_the_reason() {
    let mut run = BuildRun::new(plan(&["/src/a.f"], false, ""));
    run.next(false, None);
    let o = finished(run.next(false, Some(Ran::Failed(EfError::Other("no such program".to_string())))).1);
    assert!(!o.success);
    assert_eq!(o.failed_at, Some(FailedAt::Preflight));
    assert_eq!(o.internal_error.as_deref(), Some("no such program"));
}

#[test]
fn keeping_the_window_open_compiles_the_shim_before_the_link() {
    let mut run = BuildRun::new(plan(&["/src/a.f"], true, ".exe"));
    run.next(false, None);
    let (_, act) = run.next(false, exited(0, "", true));
    match act {
        BuildAction::CompileShim { src, obj, .. } => {
            assert_eq!(src, "/work/b1/src/ef77_pause_shim.f90");
            assert_eq!(obj, "/work/b1/obj/ef77_pause_shim.o");
        }
        _ => panic!("the shim comes before the link"),
    }
    // A shim that does not build fails the build and says which part.
    let o = finished(run.next(false, exited(1, "", false)).1);
    assert!(!o.success);
    assert_eq!(o.failed_at, Some(FailedAt::Compile));
    assert_eq!(
        o.internal_error.as_deref(),
        Some("could not build the part that keeps the window open")
    );

    // Without the `.exe` suffix there is no console window to keep.
    let mut run = BuildRun::new(plan(&["/src/a.f"], true, ""));
    run.next(false, None);
    assert!(is_run(&run.next(false, exited(0, "", true)).1));
}
