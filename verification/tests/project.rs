use ef_core::error::EfError;
use ef_core::project::{
    suggested_program_file_name, validate_user_path, BuildOptions, Dialect, LibraryRef, LineLength,
    Preprocess, Program, SourceRef,
};

#[test]
fn dash_prefixed_names_are_refused() {
    let err = validate_user_path("/tmp/-lkernel32.f").unwrap_err();
    assert!(matches!(err, EfError::UnsafeSourceName { .. }));
}

#[test]
fn ordinary_and_vietnamese_names_are_accepted() {
    validate_user_path("/tmp/SOLVER.FOR").unwrap();
    validate_user_path("/tmp/Chương trình.for").unwrap();
}

#[test]
fn include_dirs_are_deduped_in_order() {
    let mut p = Program::new("t");
    p.sources = vec![
        SourceRef::new("/a/one.f"),
        SourceRef::new("/b/two.f"),
        SourceRef::new("/a/three.f"),
    ];
    assert_eq!(p.include_dirs(), vec!["/a".to_string(), "/b".to_string()]);
}

#[test]
fn relocating_a_file_is_validated_like_adding_one() {
    let mut p = Program::new("t");
    p.sources = vec![SourceRef::new("/a/1.f")];
    p.libraries = vec![LibraryRef::new("/a/lib.a")];

    assert!(p.relocate_source(0, "/tmp/-lkernel32.f").is_err());
    assert_eq!(p.sources[0].path, "/a/1.f", "left unchanged");

    assert!(p.relocate_library(0, "/tmp/-lkernel32.a").is_err());
    assert_eq!(p.libraries[0].path, "/a/lib.a");

    p.relocate_source(0, "/tmp/SOLVER.FOR").unwrap();
    assert!(p.sources[0].path.ends_with("SOLVER.FOR"));
}

#[test]
fn an_out_of_range_relocate_changes_nothing() {
    let mut p = Program::new("t");
    p.relocate_source(7, "/tmp/x.f").unwrap();
    p.relocate_library(7, "/tmp/x.a").unwrap();
    assert!(p.sources.is_empty() && p.libraries.is_empty());
}

#[test]
fn source_order_is_preserved_and_movable() {
    let mut p = Program::new("t");
    p.sources = vec![SourceRef::new("/a/1.f"), SourceRef::new("/a/2.f")];
    p.move_source(0, 1);
    assert_eq!(p.sources[0].path, "/a/2.f");
    p.move_source(0, -1);
    assert_eq!(p.sources[0].path, "/a/2.f");
}

#[test]
fn a_suggested_file_name_keeps_his_words_but_drops_illegal_characters() {
    let n = suggested_program_file_name("Tính dầm bê tông", ".exe");
    assert!(n.starts_with("Tính dầm bê tông"), "got {n}");
    assert!(n.ends_with(".exe"));

    let n = suggested_program_file_name("a/b:c*d?", "");
    assert!(!n.contains('/') && !n.contains(':') && !n.contains('*') && !n.contains('?'));
}

#[test]
fn an_unnamed_program_still_gets_a_usable_file_name() {
    for input in ["", "   ", "...", "///"] {
        let n = suggested_program_file_name(input, ".exe");
        assert!(!n.is_empty());
        assert!(n.starts_with("program") || n.starts_with('_'), "{input:?} -> {n:?}");
        assert!(n.ends_with(".exe"));
    }
}

#[test]
fn defaults_are_permissive_for_legacy_code() {
    let o = BuildOptions::default();
    assert_eq!(o.dialect, Dialect::Legacy);
    assert_eq!(o.line_length, LineLength::Col72, "never default to `none`");
    assert!(o.dec_extensions);
    assert!(o.static_storage);
    assert_eq!(o.preprocess, Preprocess::Never);
    assert!(!o.strip_symbols);
}

#[test]
fn adding_a_file_twice_keeps_one_entry() {
    let mut p = Program::new("t");
    p.add_source("/a/x.f").unwrap();
    p.add_source("/a/x.f").unwrap();
    assert_eq!(p.sources.len(), 1);
    assert!(p.add_source("/a/-x.f").is_err());
    assert_eq!(p.sources.len(), 1);
}

#[test]
fn a_new_program_has_a_fresh_id_and_a_composed_name() {
    let a = Program::new("Cho\u{302}n");
    let b = Program::new("x");
    assert_eq!(a.id.len(), 32);
    assert_ne!(a.id, b.id);
    assert_eq!(a.name, "Chôn");
}

#[test]
fn removing_and_moving_libraries_keeps_link_order() {
    let mut p = Program::new("t");
    p.libraries = vec![LibraryRef::new("/a/1.a"), LibraryRef::new("/a/2.a"), LibraryRef::new("/a/3.a")];
    p.move_library(2, -2);
    assert_eq!(p.libraries[0].path, "/a/3.a");
    p.remove_library(1);
    assert_eq!(p.libraries.len(), 2);
    assert_eq!(p.libraries[1].path, "/a/1.a");
    p.remove_library(9);
    assert_eq!(p.libraries.len(), 2);
}

#[test]
fn moving_a_file_back_restores_the_order() {
    let mut p = Program::new("order");
    for f in ["/home/user/A.FOR", "/home/user/B.FOR", "/home/user/C.FOR"] {
        p.add_source(f).unwrap();
    }
    let before: Vec<String> = p.sources.iter().map(|s| s.path.clone()).collect();
    p.move_source(0, 2);
    let moved: Vec<String> = p.sources.iter().map(|s| s.path.clone()).collect();
    assert_eq!(moved, vec!["/home/user/C.FOR", "/home/user/B.FOR", "/home/user/A.FOR"]);
    p.move_source(2, -2);
    let after: Vec<String> = p.sources.iter().map(|s| s.path.clone()).collect();
    assert_eq!(before, after);
    // A move past either end changes nothing.
    p.move_source(0, -1);
    p.move_source(2, 1);
    let same: Vec<String> = p.sources.iter().map(|s| s.path.clone()).collect();
    assert_eq!(before, same);
}

#[test]
fn touching_a_program_stamps_it_with_a_utc_time() {
    let mut p = Program::new("stamp");
    p.modified = String::from("not a time");
    p.touch();
    let m: Vec<char> = p.modified.chars().collect();
    assert!(m.len() >= 20);
    assert_eq!((m[4], m[7], m[10], m[13], m[16]), ('-', '-', 'T', ':', ':'));
    assert_eq!(m[m.len() - 1], 'Z');
    assert_eq!(p.name, "stamp");
    let now = ef_core::project::now_rfc3339();
    assert!(now.ends_with('Z') && now.as_bytes()[10] == b'T');
}

#[test]
fn an_edit_keeps_the_programs_name_identity_and_creation() {
    let mut p = Program::new("keep");
    assert_eq!(p.id.len(), 32);
    assert!(p.id.chars().all(|c| c.is_ascii_digit() || ('a'..='f').contains(&c)));
    let (id, name, created) = (p.id.clone(), p.name.clone(), p.created.clone());
    p.add_source("/home/user/A.FOR").unwrap();
    p.add_source("/home/user/B.FOR").unwrap();
    p.add_library("/home/user/M.LIB").unwrap();
    p.move_source(0, 1);
    p.relocate_source(0, "/home/user/C.FOR").unwrap();
    p.remove_source(1);
    p.remove_library(0);
    assert_eq!((p.id.clone(), p.name.clone(), p.created.clone()), (id, name, created));
    assert!(p.modified.ends_with('Z'));
}
