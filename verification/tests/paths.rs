use ef_core::pathops::{components_of, join_of, lexical_normalize, path_starts_with, Component};
use ef_core::paths::{choose_work_root, AppPaths, WorkLayout};

const ASCII_BASE: &str = "/ProgramData";

#[test]
fn an_ascii_data_directory_keeps_its_work_tree_where_it_is() {
    let d = "/home/user/.local/share/easyfortran77";
    assert_eq!(choose_work_root(d, Some(ASCII_BASE)), format!("{d}/work"));
}

#[test]
fn a_non_ascii_data_directory_moves_its_work_tree_somewhere_ascii() {
    let d = r"C:\Users\Nguyễn Văn A\AppData\Local\easyfortran77";
    let w = choose_work_root(d, Some(ASCII_BASE));
    assert!(w.is_ascii(), "the whole scratch path must survive the codepage, got {w}");
    assert!(!w.starts_with(d), "it has to leave the profile entirely");
    assert!(w.starts_with(ASCII_BASE));
}

#[test]
fn two_accounts_on_one_machine_do_not_share_a_scratch_tree() {
    let a = choose_work_root(r"C:\Users\Nguyễn Văn A\AppData\Local\ef", Some(ASCII_BASE));
    let b = choose_work_root(r"C:\Users\Trần Thị B\AppData\Local\ef", Some(ASCII_BASE));
    assert_ne!(a, b);
}

#[test]
fn the_same_account_gets_the_same_scratch_tree_every_time() {
    let d = r"C:\Users\Nguyễn Văn A\AppData\Local\ef";
    assert_eq!(choose_work_root(d, Some(ASCII_BASE)), choose_work_root(d, Some(ASCII_BASE)));
}

#[test]
fn with_nowhere_ascii_to_go_it_stays_put() {
    let d = "/home/Nguyễn Văn A/.local/share/ef";
    assert_eq!(choose_work_root(d, None), format!("{d}/work"));
}

#[test]
fn the_work_root_is_writable_by_the_guard() {
    let p = AppPaths::under("/tmp/ef-test", None);
    assert!(
        p.write_roots().iter().any(|r| p.work_root().starts_with(r.as_str())),
        "work root {} is not under any write root {:?}",
        p.work_root(),
        p.write_roots()
    );
}

#[test]
fn the_moved_tree_is_named_by_sixteen_hex_digits() {
    let w = choose_work_root("/home/Nguyễn/ef", Some("/base"));
    let tail = w.strip_prefix("/base/EasyFortran77/work/").unwrap();
    assert_eq!(tail.len(), 16);
    assert!(tail.chars().all(|c| c.is_ascii_hexdigit() && !c.is_ascii_uppercase()));
}

#[test]
fn files_and_build_dirs_sit_where_they_should() {
    let p = AppPaths::under("/tmp/ef", None);
    assert_eq!(p.programs_file(), format!("{}/programs.toml", p.config_dir()));
    assert_eq!(p.settings_file(), format!("{}/settings.toml", p.config_dir()));
    assert_eq!(p.log_dir(), format!("{}/logs", p.data_dir()));
    assert_eq!(p.build_dir(3), format!("{}/{}/build-3", p.work_root(), p.session_id()));
    assert_eq!(p.session_id().len(), 32);
}

#[test]
fn the_work_layout_names_its_directories() {
    let l = WorkLayout::new("/w".to_string());
    assert_eq!(l.src(), "/w/src");
    assert_eq!(l.exe_with_suffix(".exe"), "/w/out/program.exe");
    assert_eq!(l.all_dirs().len(), 6);
}

#[test]
fn components_and_lexical_normalisation_follow_std_path() {
    assert_eq!(
        components_of("/a//b/./c/"),
        vec![Component::Root, Component::Normal("a".into()), Component::Normal("b".into()), Component::Normal("c".into())]
    );
    assert_eq!(components_of("./a/.."), vec![Component::Cur, Component::Normal("a".into()), Component::Parent]);
    assert_eq!(components_of(""), vec![]);
    assert_eq!(lexical_normalize("/a/b/../../../c"), "/c");
    assert_eq!(lexical_normalize("a/./b/.."), "a");
    assert_eq!(lexical_normalize("../x"), "x");
    assert!(path_starts_with("/a/b/c", "/a/b/"));
    assert!(!path_starts_with("/a/bc", "/a/b"));
}

#[test]
fn every_build_directory_and_what_is_staged_in_it_lie_under_the_work_root() {
    let p = AppPaths::under("/home/user/.ef77", None);
    let root = p.build_dir(7);
    assert!(path_starts_with(&root, &p.work_root()));
    assert!(p.write_roots().contains(&p.work_root()));
    let layout = WorkLayout::new(root.clone());
    for staged in [join_of(&layout.src(), "solver.f"), join_of(&layout.obj(), "solver.o"), layout.exe_with_suffix(".exe")] {
        assert!(path_starts_with(&staged, &root), "{staged} is outside {root}");
        assert!(path_starts_with(&staged, &p.work_root()));
    }
    // An absolute name replaces the directory rather than landing in it.
    assert!(!path_starts_with(&join_of(&root, "/etc/passwd"), &root));
}

#[test]
fn distinct_builds_get_distinct_directories() {
    let p = AppPaths::under("/tmp/ef", None);
    let dirs: Vec<String> = [0u64, 1, 2, 10, 11, 100, u64::MAX].iter().map(|n| p.build_dir(*n)).collect();
    for (i, a) in dirs.iter().enumerate() {
        for b in &dirs[i + 1..] {
            assert_ne!(a, b);
        }
    }
    assert!(p.build_dir(11).ends_with("/build-11"));
}

#[test]
fn every_named_file_lies_under_a_write_root() {
    let p = AppPaths::under("/tmp/ef-roots", None);
    let roots = p.write_roots().to_vec();
    assert_eq!(roots, vec![p.config_dir().to_string(), p.data_dir().to_string(), p.cache_dir().to_string(), p.work_root()]);
    for f in [p.programs_file(), p.settings_file(), p.log_dir(), p.build_dir(3)] {
        assert!(roots.iter().any(|r| path_starts_with(&f, r)), "{f} is under no write root");
    }
}
