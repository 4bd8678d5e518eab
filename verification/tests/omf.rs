use ef_core::build::omf::{read_library, read_object, LIBEND, LIBHDR, MODEND, PUBDEF, PUBDEF32, THEADR};

/// Build one OMF record: type, length, payload, checksum.
fn record(kind: u8, payload: &[u8]) -> Vec<u8> {
    let mut v = vec![kind];
    v.extend_from_slice(&((payload.len() + 1) as u16).to_le_bytes());
    v.extend_from_slice(payload);
    v.push(0);
    v
}

fn counted(s: &str) -> Vec<u8> {
    let mut v = vec![s.len() as u8];
    v.extend_from_slice(s.as_bytes());
    v
}

fn theadr(name: &str) -> Vec<u8> {
    record(THEADR, &counted(name))
}

/// A PUBDEF with no base group or segment, so a two-byte frame follows.
fn pubdef(names: &[&str], wide: bool) -> Vec<u8> {
    let mut p = vec![0x00, 0x00, 0x00, 0x00];
    for n in names {
        p.extend_from_slice(&counted(n));
        p.extend_from_slice(if wide { &[0, 0, 0, 0] } else { &[0, 0] });
        p.push(0x00);
    }
    record(if wide { PUBDEF32 } else { PUBDEF }, &p)
}

fn modend() -> Vec<u8> {
    record(MODEND, &[0x00])
}

fn module(name: &str, publics: &[&str], wide: bool) -> Vec<u8> {
    let mut v = theadr(name);
    v.extend_from_slice(&pubdef(publics, wide));
    v.extend_from_slice(&modend());
    v
}

const PAGE: usize = 16;

fn library(mods: &[(&str, &[&str])], wide: bool) -> Vec<u8> {
    let mut v = record(LIBHDR, &[0u8; PAGE - 4]);
    assert_eq!(v.len(), PAGE, "header must fill exactly one page");
    for (name, publics) in mods {
        let m = module(name, publics, wide);
        v.extend_from_slice(&m);
        while v.len() % PAGE != 0 {
            v.push(0);
        }
    }
    v.push(LIBEND);
    v
}

#[test]
fn a_library_yields_its_modules_and_their_routines() {
    let b = library(&[("SOLVER.FOR", &["INVERT", "MATMUL"]), ("IO.FOR", &["READIN"])], false);
    let lib = read_library(&b).expect("should parse");
    assert_eq!(lib.page_size, PAGE);
    assert!(!lib.truncated);
    assert_eq!(lib.modules.len(), 2);
    assert_eq!(lib.modules[0].name, "SOLVER.FOR");
    assert_eq!(lib.modules[0].publics, vec!["INVERT", "MATMUL"]);
    assert_eq!(lib.modules[1].name, "IO.FOR");
    assert_eq!(lib.all_publics(), vec!["INVERT", "MATMUL", "READIN"]);
}

#[test]
fn sixteen_and_thirty_two_bit_modules_are_told_apart() {
    let narrow = read_library(&library(&[("A.FOR", &["X"])], false)).unwrap();
    assert!(!narrow.any_32_bit(), "plain PUBDEF means 16-bit");
    let wide = read_library(&library(&[("A.FOR", &["X"])], true)).unwrap();
    assert!(wide.any_32_bit(), "PUBDEF32 means 32-bit");
}

#[test]
fn a_compiler_runtime_is_told_apart_from_the_users_own_code() {
    let own_code =
        read_library(&library(&[("SOLVER.FOR", &["INVERT", "MATMUL", "SOLVE"])], false)).unwrap();
    assert!(!own_code.looks_like_compiler_runtime());
    let runtime = read_library(&library(&[("crt0dat", &["BEGXQQ"])], false)).unwrap();
    assert!(runtime.looks_like_compiler_runtime());
    let qq = read_library(&library(
        &[(
            "entx",
            &["AGCXQQ", "BEGXQQ", "CESXQQ", "CLNEQQ", "ENDXQQ", "HDRFQQ", "PNUXQQ", "RETLQQ"],
        )],
        false,
    ))
    .unwrap();
    assert!(qq.looks_like_compiler_runtime());
}

#[test]
fn a_lone_object_module_reads_too() {
    let b = module("SOLVER.FOR", &["INVERT"], false);
    let m = read_object(&b).expect("should parse");
    assert_eq!(m.name, "SOLVER.FOR");
    assert_eq!(m.publics, vec!["INVERT"]);
}

#[test]
fn what_is_not_omf_is_refused_rather_than_guessed_at() {
    assert!(read_library(b"!<arch>\n").is_none());
    assert!(read_library(b"").is_none());
    assert!(read_object(b"      PROGRAM MAIN\n").is_none());
    assert!(read_library(&[0xF0, 0x01, 0x00, 0x00]).is_none());
}

#[test]
fn a_truncated_library_returns_what_it_read_and_says_so() {
    let full = library(&[("A.FOR", &["X"]), ("B.FOR", &["Y"])], false);
    for n in 0..full.len() {
        if let Some(lib) = read_library(&full[..n]) {
            assert!(lib.modules.len() <= 2);
        }
    }
}

#[test]
fn arbitrary_bytes_after_a_library_header_never_panic() {
    let mut seed = 0x9E3779B9u32;
    for _ in 0..2000 {
        let mut b = record(LIBHDR, &[0u8; PAGE - 4]);
        for _ in 0..128 {
            seed = seed.wrapping_mul(1103515245).wrapping_add(12345);
            b.push((seed >> 16) as u8);
        }
        let _ = read_library(&b);
    }
}

// ------------------------------------------------------------ of our own

#[test]
fn a_lone_object_is_a_library_of_one_module() {
    let b = module("SOLVER.FOR", &["INVERT"], false);
    let m = read_object(&b).unwrap();
    let lib = ef_core::build::omf::Library::of_object(m);
    assert_eq!(lib.page_size, 0);
    assert_eq!(lib.modules.len(), 1);
    assert_eq!(lib.all_publics(), vec!["INVERT"]);
}

#[test]
fn a_module_cut_short_is_kept_and_the_library_says_it_is_truncated() {
    let mut b = vec![0xF0, 0x0D, 0x00];
    b.extend_from_slice(&[0u8; 13]);
    b.extend_from_slice(&[0x80, 0x07, 0x00, 0x05]);
    b.extend_from_slice(b"A.FOR");
    b.push(0x00);
    let lib = read_library(&b).unwrap();
    assert_eq!(lib.modules.len(), 1);
    assert_eq!(lib.modules[0].name, "A.FOR");
    assert!(lib.truncated);

    // Cut inside the second module: the first is whole, the second is kept as
    // far as it goes, and the library says it was cut.
    let full = library(&[("A.FOR", &["X"]), ("B.FOR", &["Y"])], false);
    let whole = read_library(&full).unwrap();
    assert!(!whole.truncated);
    let second = full.windows(5).position(|w| w == b"B.FOR").unwrap();
    let lib = read_library(&full[..second + 8]).unwrap();
    assert_eq!(lib.modules.len(), 2);
    assert_eq!(lib.modules[1].name, "B.FOR");
    assert!(lib.truncated);
}
