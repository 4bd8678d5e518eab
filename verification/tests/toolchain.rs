use ef_core::error::EfError;
use ef_core::paths::WorkLayout;
use ef_core::toolchain::bundle::{default_gfortran_path, join_inside, Bundle, BundleDescriptor, ROOT_TOKEN};
use ef_core::toolchain::probe::FlagCapabilities;
use ef_core::toolchain::{
    after_bundles, banned_env, bundle_was_shipped, bundled_roots, BundleOutcome, discovery_source, scrubbed_env, version_from_output, HostEnv,
    Source, Toolchain, ToolchainId, ToolchainKind,
};

fn unix_host() -> HostEnv {
    HostEnv { windows: false, system_root: None, home: Some("/home/u".to_string()) }
}

fn dummy() -> Toolchain {
    Toolchain::from_path("/usr/bin/gfortran", ToolchainKind::System, true, Some("16.2.0".into()), FlagCapabilities::optimistic())
        .unwrap()
}

fn bundled(desc: BundleDescriptor, root: &str) -> Toolchain {
    let b = Bundle::resolve(root, desc).unwrap();
    Toolchain::from_bundle(b, true, None, FlagCapabilities::optimistic()).unwrap()
}

fn descriptor() -> BundleDescriptor {
    BundleDescriptor::defaults("")
}

#[test]
fn root_is_substituted_everywhere_it_appears() {
    let root = "/opt/ef/toolchain";
    let mut d = descriptor();
    d.id = "linux-gcc-16-sysroot".into();
    d.version = "16.2.0".into();
    d.gfortran = "bin/gfortran".into();
    d.compile_flags = vec!["--sysroot=${ROOT}/sysroot".into()];
    d.link_flags = vec!["--sysroot=${ROOT}/sysroot".into(), "-B${ROOT}/lib/gcc/x86_64/16".into()];
    d.path_dirs = vec!["bin".into(), "libexec".into()];
    d.env = vec![("GCC_EXEC_PREFIX".into(), "${ROOT}/lib/gcc/".into())];
    let b = Bundle::resolve(root, d).unwrap();
    assert_eq!(b.id, "linux-gcc-16-sysroot");
    assert_eq!(b.gfortran, "/opt/ef/toolchain/bin/gfortran");
    assert_eq!(b.compile_flags[0], "--sysroot=/opt/ef/toolchain/sysroot");
    assert_eq!(b.link_flags[1], "-B/opt/ef/toolchain/lib/gcc/x86_64/16");
    assert_eq!(b.env[0].1, "/opt/ef/toolchain/lib/gcc/");
    assert_eq!(b.path_dirs, vec!["/opt/ef/toolchain/bin".to_string(), "/opt/ef/toolchain/libexec".to_string()]);
    for f in b.compile_flags.iter().chain(b.link_flags.iter()) {
        assert!(!f.contains(ROOT_TOKEN));
    }
}

#[test]
fn a_bundle_is_relocatable_because_flags_resolve_at_load_time() {
    let mut d = descriptor();
    d.id = "x".into();
    d.compile_flags = vec!["--sysroot=${ROOT}/sysroot".into()];
    let (ra, rb) = ("/opt/a", "/home/user/.local/b");
    let a = Bundle::resolve(ra, d.clone()).unwrap();
    let b = Bundle::resolve(rb, d).unwrap();
    assert_ne!(a.compile_flags, b.compile_flags);
    for (bundle, root) in [(&a, ra), (&b, rb)] {
        let want = format!("--sysroot={root}");
        assert!(bundle.compile_flags[0].starts_with(&want));
    }
}

#[test]
fn a_windows_style_bundle_needs_no_flags_at_all() {
    let mut d = BundleDescriptor::defaults(".exe");
    d.id = "winlibs-gcc-16.2.0-ucrt".into();
    d.version = "16.2.0".into();
    let b = Bundle::resolve("/opt/w", d).unwrap();
    assert!(b.compile_flags.is_empty());
    assert!(b.link_flags.is_empty());
    assert_eq!(b.path_dirs, vec!["/opt/w/bin".to_string()]);
    assert!(b.gfortran.ends_with(&default_gfortran_path(".exe")));
}

#[test]
fn the_root_token_is_substituted_in_paths_too_not_only_flags() {
    let mut d = descriptor();
    d.path_dirs = vec!["${ROOT}/bin".into()];
    let b = Bundle::resolve("/opt/t", d).unwrap();
    assert_eq!(b.path_dirs, vec!["/opt/t/bin".to_string()]);
    assert!(!b.path_dirs[0].contains(ROOT_TOKEN));
}

#[test]
fn a_descriptor_cannot_point_outside_the_bundle() {
    let bad: Vec<(Option<&str>, Option<&str>)> = vec![
        (Some("/usr/bin/gfortran"), None),
        (Some("../../../usr/bin/gfortran"), None),
        (None, Some("/usr/bin")),
        (None, Some("../../usr/bin")),
        (Some(""), None),
    ];
    for (g, p) in bad {
        let mut d = descriptor();
        if let Some(g) = g {
            d.gfortran = g.into();
        }
        if let Some(p) = p {
            d.path_dirs = vec![p.into()];
        }
        let err = Bundle::resolve("/opt/t/toolchain", d).unwrap_err();
        assert!(matches!(err, EfError::ToolchainInvalid { .. }), "{g:?} {p:?} should have been refused");
    }
}

#[test]
fn dot_dot_that_stays_inside_is_resolved_not_refused() {
    assert_eq!(join_inside("/opt/t", "bin/../libexec/./x", "f").unwrap(), "/opt/t/libexec/x");
    assert_eq!(join_inside("/opt/t", "../u/x", "f").unwrap_err(), EfError::ToolchainInvalid {
        path: "/opt/t".into(),
        reason: "bundle.toml: `f` must stay inside the bundle, got `../u/x`".into(),
    });
    assert_eq!(join_inside("/opt/t", "  ", "gfortran").unwrap_err(), EfError::ToolchainInvalid {
        path: "/opt/t".into(),
        reason: "bundle.toml: `gfortran` is empty".into(),
    });
    assert_eq!(join_inside("/opt/t/", "/opt/t//bin/", "f").unwrap(), "/opt/t/bin");
}

#[test]
fn a_bundle_may_declare_its_targets_suffix_and_a_launcher() {
    let mut d = descriptor();
    d.exe_suffix = Some(".exe".into());
    d.launcher = Some("/usr/bin/wine".into());
    let b = Bundle::resolve("/opt/t", d).unwrap();
    assert_eq!(b.exe_suffix.as_deref(), Some(".exe"));
    assert_eq!(b.launcher.as_deref(), Some("/usr/bin/wine"));
}

#[test]
fn an_unfindable_launcher_keeps_its_name_so_the_error_says_what_was_wanted() {
    let mut d = descriptor();
    d.launcher = Some("definitely-not-installed-xyz".into());
    let b = Bundle::resolve("/opt/t", d).unwrap();
    assert_eq!(b.launcher.as_deref(), Some("definitely-not-installed-xyz"));
}

#[test]
fn a_bundle_without_them_falls_back_to_the_host() {
    let b = Bundle::resolve("/opt/t", descriptor()).unwrap();
    assert!(b.exe_suffix.is_none());
    assert!(b.launcher.is_none());
    let tc = bundled(descriptor(), "/opt/t");
    assert_eq!(tc.exe_suffix(".exe"), ".exe");
}

#[test]
fn a_missing_descriptor_is_not_an_error_and_a_malformed_one_is() {
    assert_eq!(Bundle::load("/opt/t", "/opt/t/bundle.toml", None).unwrap(), None);
    let err = Bundle::load("/opt/t", "/opt/t/bundle.toml", Some(Err("expected `=`".into()))).unwrap_err();
    assert_eq!(err, EfError::ToolchainInvalid {
        path: "/opt/t/bundle.toml".into(),
        reason: "bundle.toml is malformed: expected `=`".into(),
    });
    assert!(Bundle::load("/opt/t", "/opt/t/bundle.toml", Some(Ok(descriptor()))).unwrap().is_some());
}

#[test]
fn the_child_environment_contains_no_injectable_search_paths() {
    let layout = WorkLayout::new("/tmp/work".to_string());
    let env = dummy().compile_env(&layout, &unix_host());
    let mut banned = banned_env();
    banned.extend(["GCC_EXEC_PREFIX", "COMPILER_PATH"]);
    for (k, _) in &env {
        assert!(!banned.contains(&k.as_str()), "`{k}` must not be passed to the compiler");
    }
}

#[test]
fn the_child_environment_redirects_temporary_files_into_the_work_tree() {
    let layout = WorkLayout::new("/tmp/work".to_string());
    let env = dummy().compile_env(&layout, &unix_host());
    let tmpdir = env.iter().find(|(k, _)| k == "TMPDIR").map(|(_, v)| v.clone());
    assert_eq!(tmpdir, Some(layout.tmp()));
}

#[test]
fn a_bundle_contributes_its_sysroot_flags_and_path_directories() {
    let mut d = descriptor();
    d.id = "linux-relocatable".into();
    d.compile_flags = vec!["--sysroot=${ROOT}/sysroot".into()];
    d.link_flags = vec!["--sysroot=${ROOT}/sysroot".into(), "-B${ROOT}/lib".into()];
    d.path_dirs = vec!["bin".into(), "libexec".into()];
    let tc = bundled(d, "/opt/ef77/toolchain");
    assert_eq!(tc.compile_flags(), ["--sysroot=/opt/ef77/toolchain/sysroot".to_string()]);
    assert_eq!(tc.link_flags().len(), 2);

    let layout = WorkLayout::new("/tmp/work".to_string());
    let env = tc.compile_env(&layout, &unix_host());
    let path = env.iter().find(|(k, _)| k == "PATH").unwrap().1.clone();
    assert!(path.contains("/opt/ef77/toolchain/bin"));
    assert!(path.contains("/opt/ef77/toolchain/libexec"));
    assert_eq!(path, "/opt/ef77/toolchain/bin:/opt/ef77/toolchain/libexec:");
}

#[test]
fn a_system_toolchain_contributes_no_extra_flags() {
    let tc = dummy();
    assert!(tc.compile_flags().is_empty());
    assert!(tc.link_flags().is_empty());
}

#[test]
fn a_bundle_cannot_reintroduce_a_banned_search_path() {
    let mut d = descriptor();
    d.env = vec![
        ("GCC_EXEC_PREFIX".to_string(), "${ROOT}/lib/gcc/".to_string()),
        ("LIBRARY_PATH".to_string(), "/evil".to_string()),
        ("path".to_string(), "/evil".to_string()),
    ];
    let tc = bundled(d, "/opt/t");
    let layout = WorkLayout::new("/tmp/work".to_string());
    let env = tc.compile_env(&layout, &unix_host());
    let names: Vec<String> = env.iter().map(|(k, _)| k.clone()).collect();
    assert!(!names.contains(&"LIBRARY_PATH".to_string()), "got {names:?}");
    assert!(names.contains(&"GCC_EXEC_PREFIX".to_string()));
    assert!(!env.iter().any(|(_, v)| v == "/evil"));
}

#[test]
fn a_windows_host_gets_its_own_variables_and_separator() {
    let h = HostEnv { windows: true, system_root: None, home: None };
    let env = scrubbed_env("C:/tc/bin/gfortran.exe", None, "C:/work/tmp", &h);
    let names: Vec<&str> = env.iter().map(|(k, _)| k.as_str()).collect();
    assert_eq!(names, vec!["SystemRoot", "windir", "TMP", "TEMP", "PATH", "TMPDIR"]);
    assert_eq!(env[4].1, "C:/tc/bin;C:\\Windows\\System32");
}

#[test]
fn a_missing_compiler_is_reported_not_panicked() {
    let err = Toolchain::from_path("/nonexistent/gfortran", ToolchainKind::System, false, None, FlagCapabilities::conservative())
        .unwrap_err();
    assert!(matches!(err, EfError::ToolchainInvalid { .. }));
}

#[test]
fn a_bundle_missing_its_driver_is_refused() {
    let b = Bundle::resolve("/opt/t", descriptor()).unwrap();
    let err = Toolchain::from_bundle(b, false, None, FlagCapabilities::optimistic()).unwrap_err();
    assert_eq!(err, EfError::ToolchainInvalid {
        path: "/opt/t/bin/gfortran".into(),
        reason: "the bundled compiler is missing (antivirus may have removed it)".into(),
    });
}

#[test]
fn the_label_names_the_version_when_it_is_known() {
    let id = ToolchainId { kind: ToolchainKind::System, version: "16.2.0".into(), path: "/usr/bin/gfortran".into() };
    assert_eq!(id.display(), "gfortran 16.2.0");
    let id = ToolchainId { kind: ToolchainKind::System, version: String::new(), path: "/usr/bin/gfortran".into() };
    assert_eq!(id.display(), "/usr/bin/gfortran");
    let b = Bundle::resolve("/opt/t", descriptor()).unwrap();
    let tc = Toolchain::from_bundle(b, true, Some("15.1".into()), FlagCapabilities::optimistic()).unwrap();
    assert_eq!(tc.id().version, "15.1");
}

#[test]
fn the_reported_version_is_trimmed_and_a_failed_run_reports_none() {
    assert_eq!(version_from_output(true, b"16.2.0\n"), Some("16.2.0".to_string()));
    assert_eq!(version_from_output(false, b"16.2.0\n"), None);
    assert_eq!(version_from_output(true, b"  \n"), None);
}

#[test]
fn discovery_goes_override_then_variables_then_search() {
    assert_eq!(discovery_source(Some("/x/gf"), Some("/b"), Some("/d")), Source::Override("/x/gf".into()));
    assert_eq!(discovery_source(None, Some(""), Some("/d")), Source::Driver("/d".into()));
    assert_eq!(discovery_source(None, Some("/b"), Some("/d")), Source::BundleRoot("/b".into()));
    assert_eq!(discovery_source(None, None, Some("")), Source::Search);
}

#[test]
fn bundles_are_looked_for_beside_the_program_and_in_the_development_tree() {
    assert_eq!(
        bundled_roots("/app/target/debug/easy-fortran-77"),
        vec!["/app/target/debug/toolchain".to_string(), "/app/target/debug/../../toolchain".to_string()]
    );
}

#[test]
fn a_missing_descriptor_is_not_an_error() {
    assert_eq!(Bundle::load("/opt/ef77/toolchain", "/opt/ef77/toolchain/bundle.toml", None), Ok(None));
}

fn broken() -> EfError {
    EfError::ToolchainInvalid { path: "/opt/ef/toolchain".into(), reason: "bundle.toml is unreadable".into() }
}

#[test]
fn a_damaged_bundle_is_never_replaced_by_a_system_compiler() {
    let r = after_bundles(vec![(true, Some(Err(broken()))), (false, None)]);
    assert!(matches!(r, BundleOutcome::Damaged(e) if e == broken()));
    // Looking like a bundle without being loaded is still a shipped bundle.
    let r = after_bundles(vec![(false, None), (true, None)]);
    assert!(matches!(r, BundleOutcome::Damaged(EfError::ToolchainMissing)));
}

#[test]
fn the_first_bundle_that_loads_is_used() {
    let r = after_bundles(vec![(true, Some(Err(broken()))), (true, Some(Ok(dummy())))]);
    match r {
        BundleOutcome::Use(tc) => assert_eq!(tc.gfortran(), "/usr/bin/gfortran"),
        other => panic!("expected a toolchain, got {other:?}"),
    }
}

#[test]
fn only_without_any_bundle_is_the_system_searched() {
    assert!(matches!(after_bundles(vec![]), BundleOutcome::SearchSystem));
    assert!(matches!(after_bundles(vec![(false, None), (false, None)]), BundleOutcome::SearchSystem));
    assert!(bundle_was_shipped(&[false, true]));
    assert!(!bundle_was_shipped(&[false, false]));
    assert!(!bundle_was_shipped(&[]));
}
