use ef_core::fonts::{covers, first_usable, monospace, proportional, required_chars};

#[test]
fn the_required_set_is_the_vietnamese_one() {
    let r = required_chars();
    for c in ['ạ', 'ế', 'ệ', 'ớ', 'ụ', 'ự', 'ả', 'ậ', 'ơ', 'ư', 'đ'] {
        assert!(r.contains(&c), "{c:?} must be required");
    }
}

#[test]
fn a_font_without_the_glyphs_is_rejected() {
    assert!(!covers(b"not a font at all", 0, &required_chars()));
}

#[test]
fn candidate_lists_are_ordinary_fonts_and_not_empty() {
    for os in ["windows", "macos", "linux", "freebsd"] {
        let p = proportional(os);
        let m = monospace(os);
        assert!(!p.is_empty());
        assert!(!m.is_empty());
        for n in p.iter().chain(m.iter()) {
            assert!(!n.is_empty());
        }
    }
    assert_eq!(proportional("windows")[0], "Segoe UI");
    assert_eq!(monospace("linux")[0], "Noto Sans Mono");
}

#[test]
fn what_is_not_a_font_covers_nothing_even_when_nothing_is_needed() {
    assert!(!covers(b"", 0, &[]));
}

#[test]
fn a_missing_or_unreadable_candidate_is_passed_over() {
    let found = vec![None, Some((b"junk".to_vec(), 0)), None];
    assert_eq!(first_usable(&found, &required_chars()), None);
    assert_eq!(first_usable(&[], &required_chars()), None);
}
