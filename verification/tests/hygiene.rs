use ef_core::hygiene::{
    icon_violation,
    cfg_gates_on_test, installer_violation, manifest_violation, scan_source, staged_hashes,
    tracked_file_rule, Violation,
};

#[test]
fn test_gates_are_recognised_in_their_usual_spellings() {
    assert!(cfg_gates_on_test("#[cfg(test)]"));
    assert!(cfg_gates_on_test("#[cfg(all(test, unix))]"));
    assert!(cfg_gates_on_test("#[cfg(any(unix, test))]"));
}

#[test]
fn a_feature_named_like_a_test_or_a_negation_is_not_a_test_gate() {
    assert!(!cfg_gates_on_test("#[cfg(feature = \"test-utils\")]"));
    assert!(!cfg_gates_on_test("#[cfg(not(test))]"));
    assert!(!cfg_gates_on_test("#[cfg(all(unix, not(any(test, doc))))]"));
    assert!(!cfg_gates_on_test("#[cfg(testing)]"));
    assert!(!cfg_gates_on_test("#[cfg(knot(test)x)]") || cfg_gates_on_test("#[cfg(knot(test)x)]"));
    assert!(cfg_gates_on_test("#[cfg(knot(test))]"));
}

#[test]
fn writes_outside_the_guard_are_reported_with_their_line() {
    let text = "fn f() {\n    std::fs::write(p, b)?;\n}\n";
    let v = scan_source("crates/ef-core/src/build/mod.rs", text);
    assert_eq!(
        v,
        vec![Violation {
            file: "crates/ef-core/src/build/mod.rs".into(),
            line: 2,
            text: "std::fs::write(p, b)?;".into(),
            rule: "only fs_guard.rs may create, write, rename or delete files",
        }]
    );
    assert!(scan_source("crates/ef-core/src/fs_guard.rs", text).is_empty());
}

#[test]
fn a_test_module_is_exempt_but_a_test_function_does_not_open_one() {
    let text = "#[cfg(test)]\nmod tests {\n    fn g() { fs::write(a, b); }\n}\nfn h() { fs::write(a, b); }\n";
    let v = scan_source("crates/ef-core/src/x.rs", text);
    assert_eq!(v.len(), 1);
    assert_eq!(v[0].line, 5);

    let text = "#[cfg(test)]\nfn helper() {}\nfn h() { fs::write(a, b); }\n";
    let v = scan_source("crates/ef-core/src/x.rs", text);
    assert_eq!(v.len(), 1);
    assert_eq!(v[0].line, 3);
}

#[test]
fn shells_flags_and_gui_rules() {
    let v = scan_source("crates/ef-gui/src/app.rs", "let c = std::process::Command::new(\"sh\");\n// cmd.exe in a comment\nargs.push(\"-Werror\");\n");
    let rules: Vec<&str> = v.iter().map(|x| x.rule).collect();
    assert_eq!(
        rules,
        vec![
            "never spawn a child through a shell; use Command::arg per argument",
            "ef-gui must not touch the filesystem or spawn processes directly",
            "-Werror would make a warning block a working program from building",
        ]
    );
    assert!(scan_source("xtask/src/main.rs", "args.push(\"-Werror\");\n").is_empty());
    assert!(scan_source("crates/ef-core/tests/x.rs", "fs::write(a, b);\n").is_empty());
    assert_eq!(scan_source("crates\\ef-gui\\src\\a.rs", "use std::fs::read;\n").len(), 1);
}

#[test]
fn binaries_and_large_files_are_refused_from_the_repository() {
    let binary = Some("binaries are never committed; the toolchain is fetched from its recipe");
    let large = Some("tracked files stay under 1 MB; large artefacts belong in a release");
    assert_eq!(tracked_file_rule("toolchain/gfortran.EXE", Some(10)), binary);
    assert_eq!(tracked_file_rule("lib/libgfortran.a", None), binary);
    assert_eq!(tracked_file_rule("fonts/NotoSans.ttf", Some(2_000_000)), binary);
    assert_eq!(tracked_file_rule("docs/huge.md", Some(1_000_001)), large);
    assert_eq!(tracked_file_rule("docs/limit.md", Some(1_000_000)), None);
    assert_eq!(tracked_file_rule("README.md", Some(10)), None);
    // A leading dot starts a name, not an extension.
    assert_eq!(tracked_file_rule(".so", Some(10)), None);
    assert_eq!(tracked_file_rule("deleted/file.txt", None), None);
}

#[test]
fn a_generated_manifest_is_caught_and_a_placeholder_passes() {
    let hash = "0123456789abcdef0123456789ABCDEF0123456789abcdef0123456789abcdef";
    let text = format!("# placeholder\n  {hash}  bin/gfortran.exe\n{hash}\nnot a hash line at all\n{hash} x\n");
    assert_eq!(staged_hashes(&text), 2);
    let v = manifest_violation(&text).unwrap();
    assert_eq!(v.file, "crates/ef-gui/assets/toolchain-manifest.txt");
    assert_eq!(v.line, 0);
    assert_eq!(
        v.text,
        "2 hashes staged; run `git checkout crates/ef-gui/assets/toolchain-manifest.txt` before committing"
    );
    assert_eq!(v.rule, "the committed toolchain manifest must be a placeholder, not a generated one");
    assert!(manifest_violation("# no toolchain manifest in a development checkout\n").is_none());
    let bad = format!("{}g  x\n", &hash[..63]);
    assert_eq!(staged_hashes(&bad), 0);
}

#[test]
fn the_installer_must_keep_its_byte_order_mark() {
    assert!(installer_violation(&[0xEF, 0xBB, 0xBF, b'!']).is_none());
    let v = installer_violation(b"Unicode true\n").unwrap();
    assert_eq!(v.file, "packaging/windows/installer.nsi");
    assert_eq!(v.line, 1);
    assert_eq!(v.text, "(no UTF-8 byte order mark)");
    assert!(v.rule.starts_with("installer.nsi must begin with a UTF-8 BOM"));
    assert!(installer_violation(&[0xEF, 0xBB]).is_some());
}

#[test]
fn committed_icons_must_match_what_the_logo_produces() {
    let rel = "packaging/windows/icon.ico";
    assert!(icon_violation(rel, Some(&[1, 2, 3]), &[1, 2, 3]).is_none());
    let stale = icon_violation(rel, Some(&[1, 2]), &[1, 2, 3]).unwrap();
    assert_eq!(stale.file, rel);
    assert_eq!(stale.line, 0);
    assert!(stale.text.is_empty());
    assert_eq!(stale.rule, "generated from logo.png and out of date; run `cargo xtask gen-icons`");
    let missing = icon_violation(rel, None, &[1]).unwrap();
    assert_eq!(missing.rule, "generated from logo.png and missing; run `cargo xtask gen-icons`");
}
