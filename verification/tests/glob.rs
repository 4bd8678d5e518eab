use ef_core::glob;

#[test]
fn literal_paths_match_exactly() {
    assert!(glob::matches("bundle.toml", "bundle.toml"));
    assert!(!glob::matches("bundle.toml", "bundle.tom"));
    assert!(!glob::matches("bundle.toml", "xbundle.toml"));
}

#[test]
fn a_star_crosses_directory_separators() {
    assert!(glob::matches("*/sysroot/usr/lib64/*", "x86_64-conda/sysroot/usr/lib64/libc.a"));
    assert!(glob::matches(
        "*/sysroot/usr/lib64/*",
        "x86_64-conda/sysroot/usr/lib64/nested/deep/thing.o"
    ));
    assert!(glob::matches("lib/gcc/*/*/finclude/*", "lib/gcc/trip/16.2.0/finclude/omp_lib.mod"));
}

#[test]
fn prefix_and_suffix_stars_work() {
    assert!(glob::matches("bin/*-gfortran", "bin/x86_64-conda-linux-gnu-gfortran"));
    assert!(glob::matches("lib/libzstd.so*", "lib/libzstd.so.1"));
    assert!(glob::matches("lib/libzstd.so*", "lib/libzstd.so"));
    assert!(!glob::matches("bin/*-gfortran", "bin/gfortran-wrapper"));
}

#[test]
fn the_rules_that_were_validated_still_select_what_they_did() {
    let keep = ["libexec/gcc/*/*/f951", "lib/gcc/*/*/*.o", "*/lib/ldscripts/*"];
    let kept = |f: &str| keep.iter().any(|p| glob::matches(p, f));
    assert!(kept("libexec/gcc/trip/16.2.0/f951"));
    assert!(kept("lib/gcc/trip/16.2.0/crtbegin.o"));
    assert!(kept("trip/lib/ldscripts/elf_x86_64.x"));
    assert!(!kept("libexec/gcc/trip/16.2.0/cc1"));
    assert!(!kept("libexec/gcc/trip/16.2.0/lto1"));
    assert!(!kept("lib/gcc/trip/16.2.0/libasan.a"));
}

#[test]
fn a_lone_star_matches_everything_and_empty_matches_only_empty() {
    assert!(glob::matches("*", "anything/at/all"));
    assert!(glob::matches("", ""));
    assert!(!glob::matches("", "x"));
    assert!(glob::matches("**", "anything"));
}

#[test]
fn backtracking_terminates_on_pathological_input() {
    let text = "a".repeat(64);
    assert!(!glob::matches("*a*a*a*a*a*a*a*b", &text));
}

#[test]
fn non_ascii_text_is_matched_by_character() {
    assert!(glob::matches("Chương*.f", "Chương trình.f"));
    assert!(!glob::matches("Chuong*", "Chương"));
}
