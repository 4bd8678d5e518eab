use ef_core::error::EfError;
use ef_core::update::{check, is_newer, releases_page, tag_from_url, Status};

#[test]
fn a_higher_version_is_newer() {
    assert!(is_newer("0.1.2", "0.1.1"));
    assert!(is_newer("0.2.0", "0.1.9"));
    assert!(is_newer("1.0.0", "0.9.9"));
}

#[test]
fn the_same_version_is_not_an_update() {
    assert!(!is_newer("0.1.1", "0.1.1"));
    assert!(!is_newer("v0.1.1", "0.1.1"), "a leading v is not a difference");
}

#[test]
fn an_older_version_is_never_offered() {
    assert!(!is_newer("0.1.0", "0.1.1"));
    assert!(!is_newer("0.9.9", "1.0.0"));
}

#[test]
fn components_compare_as_numbers_not_as_text() {
    assert!(is_newer("0.10.0", "0.9.0"));
    assert!(!is_newer("0.9.0", "0.10.0"));
    assert!(is_newer("0.1.10", "0.1.9"));
}

#[test]
fn nothing_we_cannot_read_is_offered_as_an_update() {
    for odd in ["", "latest", "0.1.1-rc1", "nightly", "v", "1.2.x", "..", "0.1.1 "] {
        assert!(!is_newer(odd, "0.1.1"), "{odd:?} must not count as newer");
    }
    assert!(!is_newer("9.9.9", "not-a-version"));
}

#[test]
fn the_tag_comes_out_of_the_url_it_landed_on() {
    assert_eq!(
        tag_from_url("https://github.com/o/r/releases/tag/v1.2.3").as_deref(),
        Some("1.2.3")
    );
    assert_eq!(
        tag_from_url("https://github.com/o/r/releases/tag/0.1.1/").as_deref(),
        Some("0.1.1")
    );
}

#[test]
fn a_redirect_that_is_not_a_release_yields_nothing() {
    assert_eq!(tag_from_url("https://github.com/o/r/releases"), None);
    assert_eq!(tag_from_url("https://github.com/o/r/releases/latest"), None);
}

#[test]
fn a_newer_release_is_offered_with_its_version() {
    let r = check("0.1.1", Ok("https://github.com/o/r/releases/tag/v0.2.0".to_string()));
    assert_eq!(r.unwrap(), Status::Available { version: "0.2.0".to_string() });
}

#[test]
fn the_running_release_is_up_to_date() {
    let r = check("0.2.0", Ok("https://github.com/o/r/releases/tag/v0.2.0".to_string()));
    assert_eq!(r.unwrap(), Status::UpToDate);
}

#[test]
fn an_unreachable_github_or_an_unreadable_url_is_an_error() {
    match check("0.1.0", Err("timed out".to_string())) {
        Err(EfError::Other(m)) => assert_eq!(m, "could not reach GitHub: timed out"),
        other => panic!("{other:?}"),
    }
    match check("0.1.0", Ok("https://github.com/o/r/releases".to_string())) {
        Err(EfError::Other(m)) => {
            assert_eq!(m, "could not read a version from https://github.com/o/r/releases")
        }
        other => panic!("{other:?}"),
    }
}

#[test]
fn the_releases_page_is_the_latest_release() {
    assert_eq!(
        releases_page(),
        "https://github.com/ltran1612/easy-gui-fortran77/releases/latest"
    );
}
