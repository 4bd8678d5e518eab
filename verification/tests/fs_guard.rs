use ef_core::error::EfError;
use ef_core::fs_guard::{
    backup_path, export_refusal, is_fortran_source, library_size_refusal, resolve_for_check,
    source_size_refusal, stale_sessions, staging_path, with_suffix, FsGuard, SessionDir,
    MAX_LIBRARY_BYTES, MAX_SOURCE_BYTES,
};

fn guard() -> FsGuard {
    FsGuard::new(vec!["/t/data".to_string()])
}

#[test]
fn writes_inside_the_root_are_allowed() {
    let g = guard();
    let p = "/t/data/a/b.txt";
    assert!(g.assert_under_write_root(p, &resolve_for_check("/t/data", "a/b.txt")).is_ok());
}

#[test]
fn writes_outside_the_root_are_refused() {
    let g = guard();
    let p = "/t/user-documents/SOLVER.FOR";
    let err = g.assert_under_write_root(p, &resolve_for_check("/t/user-documents/SOLVER.FOR", "")).unwrap_err();
    assert_eq!(err, EfError::EscapesWriteRoot { path: p.into() });
}

#[test]
fn dotdot_cannot_escape_the_root() {
    let g = guard();
    let sneaky = "/t/data/../user-documents/x.f";
    let resolved = resolve_for_check("/t", "data/../user-documents/x.f");
    assert_eq!(resolved, "/t/user-documents/x.f");
    let err = g.assert_under_write_root(sneaky, &resolved).unwrap_err();
    assert!(matches!(err, EfError::EscapesWriteRoot { .. }));
}

#[test]
fn a_sibling_with_a_longer_name_is_not_inside() {
    let g = guard();
    assert!(g.assert_under_write_root("/t/database/x", "/t/database/x").is_err());
}

#[test]
fn remove_dir_all_refuses_the_root_itself() {
    let g = guard();
    let err = g.check_remove_dir_all("/t/data", "/t/data/").unwrap_err();
    assert!(matches!(err, EfError::EscapesWriteRoot { .. }));
    assert!(g.check_remove_dir_all("/t/data/work/s1", "/t/data/work/s1").is_ok());
}

#[test]
fn atomic_write_names() {
    assert_eq!(backup_path("/t/data/programs.toml"), "/t/data/programs.toml.bak");
    assert_eq!(staging_path("/t/data/programs.toml"), "/t/data/programs.toml.new");
    assert_eq!(with_suffix("/a/b", ".x"), "/a/b.x");
}

#[test]
fn export_refuses_to_overwrite_a_source_file() {
    let e = export_refusal("/home/u/SOLVER.FOR", false, false).unwrap();
    assert_eq!(e, EfError::Other("refusing to write over what looks like a source file: /home/u/SOLVER.FOR".into()));
    assert!(export_refusal("/home/u/TinhDam.exe", false, false).is_none());
}

#[test]
fn export_refuses_to_write_through_a_symlink_or_onto_a_folder() {
    assert_eq!(
        export_refusal("/home/u/innocent.exe", false, true),
        Some(EfError::Other("refusing to write through a link: /home/u/innocent.exe".into()))
    );
    assert_eq!(
        export_refusal("/home/u", true, false),
        Some(EfError::Other("/home/u is a folder, not a file name".into()))
    );
}

#[test]
fn fortran_extensions_are_recognised_in_any_case() {
    for p in ["a.f", "A.FOR", "x/y.F77", "m.inc", "z.Fpp"] {
        assert!(is_fortran_source(p), "{p}");
    }
    for p in ["a.exe", "README", "a.c", ".f"] {
        assert!(!is_fortran_source(p), "{p}");
    }
}

#[test]
fn oversize_sources_are_refused() {
    assert_eq!(
        source_size_refusal(MAX_SOURCE_BYTES + 1),
        Some(EfError::SourceTooLarge { len: MAX_SOURCE_BYTES + 1, limit: MAX_SOURCE_BYTES })
    );
    assert_eq!(source_size_refusal(MAX_SOURCE_BYTES), None);
    assert!(library_size_refusal(MAX_SOURCE_BYTES + 1).is_none());
    assert!(library_size_refusal(MAX_LIBRARY_BYTES + 1).is_some());
}

#[test]
fn the_sweep_spares_our_own_session_and_anything_recent() {
    let d = |name: &str, is_dir: bool, age: Option<u128>| SessionDir { name: name.into(), is_dir, age_nanos: age };
    let entries = vec![
        d("mine", true, Some(10_000)),
        d("older", true, Some(10_000)),
        d("recent", true, Some(5)),
        d("file", false, Some(10_000)),
        d("unknown", true, None),
        d("other", true, Some(10_000)),
    ];
    assert_eq!(stale_sessions(&entries, "mine", 100), vec![1, 5]);
    assert_eq!(stale_sessions(&entries, "mine", 1_000_000), Vec::<usize>::new());
    assert_eq!(stale_sessions(&entries, "mine", 0), vec![1, 2, 5]);
}
