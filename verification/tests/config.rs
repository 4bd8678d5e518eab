use ef_core::config::{
    after_backup, after_reading, check_schema, migrate_programs, schema_found, with_stamp,
    FirstRead, LoadNote, ProgramsFile, Store, PROGRAMS_SCHEMA, SETTINGS_SCHEMA,
};
use ef_core::error::EfError;
use ef_core::fs_guard::FsGuard;
use ef_core::paths::AppPaths;
use ef_core::project::Program;

#[test]
fn first_run_is_fresh_and_empty() {
    match after_reading::<ProgramsFile>(None) {
        FirstRead::Done(None, LoadNote::Fresh) => {}
        other => panic!("{other:?}"),
    }
    assert_eq!(ProgramsFile::default().schema_version, PROGRAMS_SCHEMA);
    assert!(ProgramsFile::default().programs.is_empty());
}

#[test]
fn schema_1_gets_the_window_kept_open_but_a_later_choice_is_kept() {
    let mut p = Program::new("X");
    p.options.keep_window_open = false;
    let f = ProgramsFile { schema_version: 1, programs: vec![p.clone()] };
    let back = migrate_programs(f, 1);
    assert!(back.programs[0].options.keep_window_open);
    assert_eq!(back.schema_version, 2);

    let f = ProgramsFile { schema_version: 2, programs: vec![p] };
    let back = migrate_programs(f, 2);
    assert!(!back.programs[0].options.keep_window_open);
}

#[test]
fn a_newer_schema_is_reported_and_never_overwritten() {
    assert_eq!(schema_found(Some(99), PROGRAMS_SCHEMA), 99);
    assert_eq!(schema_found(None, SETTINGS_SCHEMA), 1);
    assert_eq!(schema_found(Some(-1), 2), u32::MAX);
    let err = check_schema("/c/programs.toml", 99, PROGRAMS_SCHEMA).unwrap_err();
    assert_eq!(err, EfError::ConfigTooNew { path: "/c/programs.toml".into(), found: 99, supported: 2 });
    assert!(check_schema("/c/programs.toml", 2, PROGRAMS_SCHEMA).is_ok());

    match after_reading::<ProgramsFile>(Some(Err(err))) {
        FirstRead::Done(None, LoadNote::TooNew { found: 99 }) => {}
        other => panic!("{other:?}"),
    }
    let paths = AppPaths::under("/tmp/ef-cfg", None);
    let guard = FsGuard::new(paths.write_roots().to_vec());
    let mut s = Store::new(paths, guard);
    assert!(s.may_save_programs());
    s.programs_loaded(&LoadNote::TooNew { found: 99 });
    assert!(s.programs_readonly());
    assert!(!s.may_save_programs());
    assert!(s.may_save_settings());
}

#[test]
fn a_corrupt_file_is_moved_aside_and_the_backup_is_used() {
    let bad: Option<Result<ProgramsFile, EfError>> = Some(Err(EfError::ConfigParse { path: "p".into(), message: "x".into() }));
    assert!(matches!(after_reading(bad), FirstRead::MoveAsideAndTryBackup));
    let stamped = with_stamp("/c/programs.toml", "corrupt", "2024-05-06T07:08:09Z");
    assert_eq!(stamped, "/c/programs.toml.corrupt-20240506T070809Z");
    let good = ProgramsFile { schema_version: 2, programs: vec![Program::new("good")] };
    let (v, note) = after_backup(stamped.clone(), Some(Ok(good)));
    assert_eq!(v.unwrap().programs[0].name, "good");
    assert_eq!(note, LoadNote::RecoveredFromBackup { corrupt_saved_to: stamped.clone() });
    let (v, note) = after_backup::<ProgramsFile>(stamped.clone(), None);
    assert!(v.is_none());
    assert_eq!(note, LoadNote::StartedEmpty { corrupt_saved_to: stamped });
}

fn store() -> Store {
    let paths = AppPaths::under("/tmp/ef-load", None);
    let guard = FsGuard::new(paths.write_roots().to_vec());
    Store::new(paths, guard)
}

#[test]
fn loading_the_program_list_says_what_happened() {
    let mut s = store();
    let (ps, note) = s.programs_from_file(None).unwrap();
    assert!(ps.is_empty());
    assert_eq!(note, LoadNote::Fresh);
    assert!(s.may_save_programs());

    let f = ProgramsFile { schema_version: 2, programs: vec![Program::new("a"), Program::new("b")] };
    let (ps, note) = s.programs_from_file(Some(Ok(f))).unwrap();
    assert_eq!(ps.iter().map(|p| p.name.as_str()).collect::<Vec<_>>(), vec!["a", "b"]);
    assert_eq!(note, LoadNote::Loaded);

    let too_new = EfError::ConfigTooNew { path: "/c/programs.toml".into(), found: 99, supported: 2 };
    let (ps, note) = s.programs_from_file(Some(Err(too_new))).unwrap();
    assert!(ps.is_empty());
    assert_eq!(note, LoadNote::TooNew { found: 99 });
    assert!(s.programs_readonly());
    assert!(!s.may_save_programs());
}

#[test]
fn an_unreadable_program_list_falls_back_to_its_backup() {
    let mut s = store();
    let bad = EfError::ConfigParse { path: "p".into(), message: "x".into() };
    assert!(s.programs_from_file(Some(Err(bad))).is_none());
    let good = ProgramsFile { schema_version: 2, programs: vec![Program::new("good")] };
    let (ps, note) = s.programs_from_backup("/c/p.corrupt-1".into(), Some(Ok(good)));
    assert_eq!(ps[0].name, "good");
    assert_eq!(note, LoadNote::RecoveredFromBackup { corrupt_saved_to: "/c/p.corrupt-1".into() });
    let (ps, note) = s.programs_from_backup("/c/p.corrupt-2".into(), None);
    assert!(ps.is_empty());
    assert_eq!(note, LoadNote::StartedEmpty { corrupt_saved_to: "/c/p.corrupt-2".into() });
    assert!(s.may_save_programs());
}
