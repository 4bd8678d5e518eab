use ef_core::text::{display_file_name, display_path, nfc};

#[test]
fn nfd_vietnamese_is_composed() {
    let recomposed = nfc("Chương");
    assert_eq!(nfc(&recomposed), recomposed, "nfc is idempotent");
    let d = "e\u{0302}\u{0301}";
    assert_eq!(nfc(d), "ế");
    assert_eq!(nfc(d).chars().count(), 1);
}

#[test]
fn display_path_strips_verbatim_prefix() {
    let p = "/tmp/ví dụ/SOLVER.FOR";
    assert!(display_path(p).ends_with("SOLVER.FOR"));
}

#[test]
fn the_file_name_is_shown_composed() {
    assert_eq!(display_file_name("/tmp/Cho\u{302}n.f"), "Chôn.f");
}
