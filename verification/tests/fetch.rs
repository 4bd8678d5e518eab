use ef_core::fetch::{
    after_download, archive_verified, package_step, sha256_hex, clear_output, listing_line, looks_like_a_file, manifest_text, parse_fetch_args, source_file_name,
    sources_md, template_driver, third_party_md, ClearOutput, Package, Prune, Recipe, Source,
    SOURCES_USAGE, TOOLCHAIN_USAGE,
};

fn s(v: &[&str]) -> Vec<String> {
    v.iter().map(|x| x.to_string()).collect()
}

fn source(component: &str, url: &str, sha: Option<&str>, covers: &[&str], note: Option<&str>) -> Source {
    Source {
        component: component.into(),
        version: "1.0".into(),
        url: url.into(),
        sha256: sha.map(|x| x.into()),
        license: "GPL-3.0".into(),
        covers: s(covers),
        note: note.map(|x| x.into()),
    }
}

fn recipe(sources: Vec<Source>) -> Recipe {
    Recipe {
        target: "linux-x86_64".into(),
        triplet: "x86_64-conda-linux-gnu".into(),
        gcc_version: "16.2.0".into(),
        channel: "https://conda.anaconda.org/conda-forge/".into(),
        bundle_template: "linux.bundle.toml".into(),
        packages: vec![Package {
            name: "gfortran_impl".into(),
            version: "16.2.0".into(),
            subdir: "linux-64".into(),
            file: "gfortran-16.conda".into(),
            sha256: "ab".into(),
            size: 10,
        }],
        prune: Prune { keep: s(&["bin/*", "lib/*"]), drop: s(&["lib/*.a"]) },
        sources,
    }
}

#[test]
fn a_package_url_comes_from_the_channel() {
    let r = recipe(vec![]);
    assert_eq!(
        r.packages[0].url(&r.channel),
        "https://conda.anaconda.org/conda-forge/linux-64/gfortran-16.conda"
    );
}

#[test]
fn a_drop_rule_wins_over_a_keep_rule() {
    let p = recipe(vec![]).prune;
    assert!(p.keeps("bin/gfortran"));
    assert!(p.keeps("lib/libgfortran.so.5"));
    assert!(!p.keeps("lib/libasan.a"));
    assert!(!p.keeps("share/doc/x"));
}

#[test]
fn only_an_empty_or_previous_bundle_directory_is_emptied() {
    assert_eq!(clear_output("/o", false, false, false, false), ClearOutput::Create);
    assert_eq!(clear_output("/o", true, true, true, false), ClearOutput::Replace);
    assert_eq!(clear_output("/o", true, true, false, true), ClearOutput::Replace);
    assert!(matches!(clear_output("/home/u", true, true, false, false), ClearOutput::Refuse(m) if m.starts_with("/home/u is not empty")));
    assert_eq!(clear_output("/f", true, false, false, false), ClearOutput::Refuse("/f exists and is not a directory".into()));
}

#[test]
fn the_template_names_its_driver() {
    assert_eq!(template_driver("t.toml", "id = \"x\"\n  gfortran = \"bin/gfortran\"\n").unwrap(), "bin/gfortran");
    assert_eq!(template_driver("t.toml", "id = \"x\"\n").unwrap_err(), "t.toml does not name a `gfortran`");
    assert_eq!(template_driver("t.toml", "gfortran\n").unwrap_err(), "t.toml: could not read the `gfortran` entry");
}

#[test]
fn the_manifest_lists_hash_then_path() {
    let m = manifest_text(&[("bin/gfortran".into(), "aa".into()), ("lib/x".into(), "bb".into())]);
    assert!(m.starts_with("# Generated by `cargo xtask fetch-toolchain`."));
    assert!(m.ends_with("aa  bin/gfortran\nbb  lib/x\n"));
}

#[test]
fn sources_are_named_by_their_urls() {
    assert_eq!(source_file_name("https://ftp.gnu.org/gnu/gcc/gcc-16.2.0.tar.xz"), "gcc-16.2.0.tar.xz");
    assert!(looks_like_a_file("gcc-16.2.0.tar.xz", "https://ftp.gnu.org/gnu/gcc/gcc-16.2.0.tar.xz", "gcc"));
    assert!(!looks_like_a_file("gcc-feedstock", "https://github.com/conda-forge/gcc-feedstock/", "gcc-feedstock"));
    assert_eq!(
        listing_line("gcc", "16.2.0", "u"),
        format!("  {:<28} {:<24} {}", "gcc", "16.2.0", "u")
    );
}

#[test]
fn sources_md_lists_every_source_and_the_checksums_of_those_fetched() {
    let r = recipe(vec![
        source("gcc", "https://x/gcc.tar.xz", Some("h1"), &["all"], None),
        source("feedstock", "https://github.com/c/feedstock", None, &["gcc", "gfortran"], Some("patched")),
    ]);
    let rows = vec![(0usize, "gcc.tar.xz".to_string(), true), (1usize, "feedstock".to_string(), false)];
    let md = sources_md(&r, &rows);
    assert!(md.starts_with("# Corresponding Source\n\nThe binaries shipped"));
    assert!(md.contains("Toolchain: linux-x86_64 (x86_64-conda-linux-gnu), GCC 16.2.0.\n\n"));
    assert!(md.contains("| gcc | 1.0 | GPL-3.0 | everything in the bundle | `gcc.tar.xz` |\n"));
    assert!(md.contains("| feedstock | 1.0 | GPL-3.0 | gcc, gfortran | <https://github.com/c/feedstock> |\n"));
    assert!(md.contains("\n## Checksums\n\n- `gcc.tar.xz`\n  - sha256 `h1`\n  - from <https://x/gcc.tar.xz>\n"));
    assert!(md.ends_with("\n## Notes\n\n- **feedstock**: patched\n"));
}

#[test]
fn third_party_md_says_what_ships_and_where_the_source_is() {
    let md = third_party_md("0.3.1", &recipe(vec![]));
    assert!(md.starts_with("# Third-party software in Easy Fortran 77 0.3.1\n\n"));
    assert!(md.contains("| gfortran_impl | 16.2.0 |\n"));
    assert!(md.contains("_No source entries are recorded for this target yet._\n"));
    assert!(md.ends_with("None are bundled. The interface uses a font already on the machine.\n"));
    let md = third_party_md("0.3.1", &recipe(vec![source("gcc", "https://x", None, &[], None)]));
    assert!(md.contains("| gcc | 1.0 | GPL-3.0 | <https://x> |\n"));
    assert!(md.contains("conda-forge recipes are part of the Corresponding Source"));
}

#[test]
fn fetch_arguments() {
    let a = parse_fetch_args(&s(&["--offline", "--target", "windows-x86_64"]), "--offline", TOOLCHAIN_USAGE).unwrap();
    assert_eq!(a.target, "windows-x86_64");
    assert!(a.switch && a.out.is_none());
    let a = parse_fetch_args(&s(&[]), "--list", SOURCES_USAGE).unwrap();
    assert_eq!(a.target, "linux-x86_64");
    assert_eq!(parse_fetch_args(&s(&["--out"]), "--list", SOURCES_USAGE).unwrap_err(), "--out needs a path");
    assert_eq!(
        parse_fetch_args(&s(&["--list"]), "--offline", TOOLCHAIN_USAGE).unwrap_err(),
        format!("unknown option `--list`\n\n{TOOLCHAIN_USAGE}")
    );
}

#[test]
fn sha256_of_abc_is_the_published_digest() {
    assert_eq!(
        sha256_hex(b"abc"),
        "ba7816bf8f01cfea414140de5dae2223b00361a396177a9cb410ff61f20015ad"
    );
    assert_eq!(
        sha256_hex(b""),
        "e3b0c44298fc1c149afbf4c8996fb92427ae41e4649b934ca495991b7852b855"
    );
}

#[test]
fn an_archive_passes_only_against_its_own_digest() {
    let want = "ba7816bf8f01cfea414140de5dae2223b00361a396177a9cb410ff61f20015ad";
    assert!(archive_verified(Some(&b"abc"[..]), want));
    assert!(!archive_verified(Some(&b"abd"[..]), want));
    assert!(!archive_verified(None, want));
    assert!(!archive_verified(Some(&b"abc"[..]), &want.to_uppercase()));
}

#[test]
fn a_cached_archive_is_used_and_offline_refuses_a_missing_one() {
    assert_eq!(package_step(true, true, "gcc.conda"), Ok(false));
    assert_eq!(package_step(true, false, "gcc.conda"), Ok(false));
    assert_eq!(package_step(false, false, "gcc.conda"), Ok(true));
    assert_eq!(
        package_step(false, true, "gcc.conda"),
        Err("gcc.conda is missing or fails its checksum, and --offline was given".to_string())
    );
}

#[test]
fn a_download_that_fails_its_checksum_names_both_digests() {
    assert_eq!(after_download("aa", "aa", "x.conda"), Ok(()));
    assert_eq!(
        after_download("bb", "aa", "x.conda"),
        Err("checksum mismatch for x.conda\n  expected aa\n  got      bb".to_string())
    );
}
