use ef_core::package::{
    default_target, exe_name, parse_args, readme_text, refuse_cross_test_bundle, stem,
    workspace_version, PackageOptions,
};

#[test]
fn a_shipping_bundle_is_accepted() {
    let toml = "id = \"x\"\nversion = \"16.2.0\"\ngfortran = \"bin/gfortran.exe\"\n\
                exe_suffix = \".exe\"\npath_dirs = [\"bin\"]\n";
    assert!(refuse_cross_test_bundle(toml).is_ok());
}

#[test]
fn a_cross_testing_bundle_is_refused() {
    let toml = "id = \"x\"\ngfortran = \"bin/gfortran.exe\"\n\n\
                launcher = \"wine\"\n\n[env]\nWINEPREFIX = \"/tmp/scratch/wineprefix\"\n";
    let err = refuse_cross_test_bundle(toml).unwrap_err().to_string();
    assert!(err.contains("launcher"), "{err}");
    assert!(err.contains("fetch-toolchain"), "the error must say how to fix it");
}

#[test]
fn a_commented_out_launcher_is_not_a_launcher() {
    let toml = "id = \"x\"\n# launcher = \"wine\" -- only for cross-testing\n";
    assert!(refuse_cross_test_bundle(toml).is_ok());
}

#[test]
fn an_env_block_alone_is_fine() {
    let toml = "id = \"x\"\n[env]\nGCC_EXEC_PREFIX = \"${ROOT}/lib/gcc/\"\n";
    assert!(refuse_cross_test_bundle(toml).is_ok());
}

#[test]
fn an_indented_launcher_under_crlf_is_still_found() {
    assert!(refuse_cross_test_bundle("id = \"x\"\r\n   launcher=\"wine\"\r\n").is_err());
    assert!(refuse_cross_test_bundle("launch = \"wine\"\nlauncher\n").is_ok());
}

#[test]
fn the_workspace_version_is_the_first_version_line() {
    let m = "[workspace]\nmembers = []\n\n[workspace.package]\n  version = \"0.3.1\"  \nversion = \"9\"\n";
    assert_eq!(workspace_version(m).unwrap(), "0.3.1");
    assert_eq!(
        workspace_version("[package]\nname = \"x\"\n").unwrap_err(),
        "could not read the workspace version from Cargo.toml"
    );
}

#[test]
fn package_arguments_are_read_in_any_order() {
    let a: Vec<String> = ["--no-archive", "--target", "windows-x86_64"].iter().map(|s| s.to_string()).collect();
    assert_eq!(
        parse_args(&a).unwrap(),
        PackageOptions { target: Some("windows-x86_64".into()), profile: "release".into(), archive: false }
    );
    let b: Vec<String> = vec!["--profile".into()];
    assert_eq!(parse_args(&b).unwrap_err(), "--profile needs a value");
    let c: Vec<String> = vec!["--fast".into()];
    assert!(parse_args(&c).unwrap_err().starts_with("unknown option `--fast`\n\nUSAGE:"));
}

#[test]
fn names_and_readme() {
    assert_eq!(stem("0.3.1", "linux-x86_64"), "EasyFortran77-0.3.1-linux-x86_64");
    assert_eq!(exe_name(true), "easy-fortran-77.exe");
    assert_eq!(default_target(false), "linux-x86_64");
    let r = readme_text(true);
    assert!(r.starts_with("Easy Fortran 77\n===============\n\nBấm đúp"));
    assert!(r.contains("LICENSES folder"));
}
