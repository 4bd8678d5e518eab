use ef_core::build::sourcefmt::{check, NotSource};
use ef_core::i18n::{Catalog, Catalogs};

fn no_catalogs() -> Catalogs {
    Catalogs { vi: Catalog::empty(), en: Catalog::empty() }
}

#[test]
fn ordinary_fixed_form_source_is_accepted() {
    assert_eq!(check(b"      PROGRAM MAIN\n      END\n"), Ok(()));
}

#[test]
fn the_things_old_fortran_is_full_of_are_not_binary() {
    assert_eq!(check(b"      PROGRAM MAIN\n\x0c      END\n"), Ok(()));
    assert_eq!(check(b"      END\n\x1a"), Ok(()));
    assert_eq!(check(b"\tPROGRAM MAIN\n\tEND\n"), Ok(()));
    assert_eq!(check(b"      PROGRAM MAIN\r\n      END\r\n"), Ok(()));
    assert_eq!(check(b"      PROGRAM MAIN\r      END\r"), Ok(()));
    assert_eq!(check(b"\xef\xbb\xbf      END\n"), Ok(()));
}

#[test]
fn a_vietnamese_codepage_is_text_however_high_its_bytes() {
    let mut src = b"C T\xednh d\xe2\xf9 b\xea t\xf4ng\n      END\n".to_vec();
    assert_eq!(check(&src), Ok(()));
    src.insert(0, 0xF0);
    assert_eq!(check(&src), Ok(()));
}

#[test]
fn a_fas4_file_is_named_rather_than_parsed_as_fortran() {
    let b = b"\r\n FAS4-FILE ; Do not change it!\r\n1295\r\n108 $\x14\x01\x01\x01\x00";
    assert_eq!(check(b), Err(NotSource::Known("src.what.fas4")));
}

#[test]
fn a_file_saved_as_unicode_gets_advice_he_can_act_on() {
    let mut b = vec![0xFF, 0xFE];
    for c in "      END\n".bytes() {
        b.push(c);
        b.push(0);
    }
    assert_eq!(check(&b), Err(NotSource::Utf16));
    assert_ne!(check(&b), Err(NotSource::Binary));
}

#[test]
fn documents_chosen_by_mistake_are_named() {
    assert_eq!(check(b"%PDF-1.4\n"), Err(NotSource::Known("src.what.pdf")));
    assert_eq!(check(b"PK\x03\x04\x14\x00"), Err(NotSource::Known("src.what.zip")));
    assert_eq!(
        check(b"\xd0\xcf\x11\xe0\xa1\xb1\x1a\xe1"),
        Err(NotSource::Known("src.what.office"))
    );
    assert_eq!(check(b"MZ\x90\x00"), Err(NotSource::Known("src.what.windows_program")));
}

#[test]
fn a_library_added_to_the_wrong_list_is_sent_to_the_right_one() {
    assert_eq!(check(b"!<arch>\n"), Err(NotSource::LibraryFile));
    assert_eq!(NotSource::LibraryFile.key(), "src.reject.library");
    let mut omf = vec![0xF0u8, 0x0D, 0x00];
    omf.extend_from_slice(&1024u32.to_le_bytes());
    omf.extend_from_slice(&2u16.to_le_bytes());
    omf.push(0x00);
    omf.resize(64, 0);
    assert_eq!(check(&omf), Err(NotSource::LibraryFile));
}

#[test]
fn a_nul_byte_settles_it() {
    assert_eq!(check(b"      PROG\x00RAM\n"), Err(NotSource::Binary));
}

#[test]
fn an_empty_file_says_so_rather_than_failing_obscurely() {
    assert_eq!(check(b""), Err(NotSource::Empty));
}

#[test]
fn every_rejection_carries_a_key_and_plain_english() {
    let cats = no_catalogs();
    for p in [
        NotSource::Empty,
        NotSource::Utf16,
        NotSource::Known("src.what.pdf"),
        NotSource::LibraryFile,
        NotSource::Binary,
    ] {
        assert!(p.key().starts_with("src.reject."));
        assert!(!p.english(&cats).is_empty());
    }
}

#[test]
fn sourcefmt_arbitrary_bytes_never_panic() {
    let mut seed = 0x5bf03635u32;
    for _ in 0..3000 {
        let mut b = Vec::new();
        for _ in 0..48 {
            seed = seed.wrapping_mul(1103515245).wrapping_add(12345);
            b.push((seed >> 16) as u8);
        }
        let _ = check(&b);
    }
}

// ------------------------------------------------------------ of our own

#[test]
fn rtf_and_programs_for_linux_are_named_too() {
    assert_eq!(check(b"{\\rtf1\\ansi"), Err(NotSource::Known("src.what.rtf")));
    assert_eq!(check(b"\x7fELF\x02\x01"), Err(NotSource::Known("src.what.linux_program")));
}

#[test]
fn a_nul_past_the_window_does_not_count() {
    let mut b = vec![b' '; 8192];
    b.push(0);
    assert_eq!(check(&b), Ok(()));
    let mut c = vec![b' '; 8191];
    c.push(0);
    assert_eq!(check(&c), Err(NotSource::Binary));
}

#[test]
fn a_known_format_is_named_in_english_from_the_catalog() {
    let cats = Catalogs {
        vi: Catalog::empty(),
        en: Catalog::parse("\"src.what.pdf\" = \"PDF document\"\n").unwrap(),
    };
    assert_eq!(
        NotSource::Known("src.what.pdf").english(&cats),
        "a PDF document, not Fortran source text."
    );
    // and with no entry, the key itself shows, which is obvious in review
    assert_eq!(
        NotSource::Known("src.what.pdf").english(&no_catalogs()),
        "a src.what.pdf, not Fortran source text."
    );
}

#[test]
fn a_known_format_reaches_the_problem_as_a_key_to_translate() {
    let p = NotSource::Known("src.what.zip").problem("X.FOR".to_string());
    assert_eq!(p.name, "X.FOR");
    assert_eq!(p.title_key, "src.unusable_title");
    assert_eq!(p.reason_key, "src.reject.known");
    assert_eq!(p.args.len(), 1);
    assert_eq!(p.args[0].0, "what");
    assert_eq!(p.args[0].1, ef_core::error::ProblemArg::Key("src.what.zip"));
    assert!(NotSource::Binary.problem("Y".to_string()).args.is_empty());
}
