use ef_core::build::objfmt::{assess, sniff, Expect, Format, Machine, Reason};

fn win() -> Expect {
    Expect::for_exe_suffix(".exe")
}
fn nix() -> Expect {
    Expect::for_exe_suffix("")
}

/// A Microsoft/Borland OMF library begins with a LIBHDR record.
fn omf_library() -> Vec<u8> {
    let mut v = vec![0xF0, 0x0D, 0x00];
    v.extend_from_slice(&1024u32.to_le_bytes());
    v.extend_from_slice(&2u16.to_le_bytes());
    v.push(0x00);
    v.resize(64, 0);
    v
}

/// A loose DOS `.OBJ`: a THEADR record naming the source module.
fn omf_object() -> Vec<u8> {
    let name = b"SOLVER.FOR";
    let mut v = vec![0x80, (name.len() + 2) as u8, 0x00, name.len() as u8];
    v.extend_from_slice(name);
    v.push(0x00);
    v
}

fn ar_member(name: &str, data: &[u8]) -> Vec<u8> {
    let mut v = Vec::new();
    v.extend_from_slice(format!("{name:<16}").as_bytes());
    v.extend_from_slice(b"0           ");
    v.extend_from_slice(b"0     ");
    v.extend_from_slice(b"0     ");
    v.extend_from_slice(b"100644  ");
    v.extend_from_slice(format!("{:<10}", data.len()).as_bytes());
    v.extend_from_slice(b"`\n");
    v.extend_from_slice(data);
    if data.len() % 2 == 1 {
        v.push(b'\n');
    }
    v
}

fn coff_obj(machine: u16) -> Vec<u8> {
    let mut v = machine.to_le_bytes().to_vec();
    v.resize(40, 0);
    v
}

fn elf_obj(machine: u16) -> Vec<u8> {
    let mut v = vec![0x7f, b'E', b'L', b'F', 2, 1, 1, 0];
    v.resize(18, 0);
    v.extend_from_slice(&machine.to_le_bytes());
    v.resize(64, 0);
    v
}

fn archive(members: &[(&str, Vec<u8>)]) -> Vec<u8> {
    let mut v = b"!<arch>\n".to_vec();
    for (n, d) in members {
        v.extend_from_slice(&ar_member(n, d));
    }
    v
}

#[test]
fn a_dos_era_lib_is_recognised_and_refused() {
    let f = sniff(&omf_library());
    assert_eq!(f, Format::OmfLibrary { runtime: false });
    assert_eq!(assess(&f, win()), Err(Reason::DosEraFormat));
    assert_eq!(assess(&f, nix()), Err(Reason::DosEraFormat));
}

#[test]
fn a_dos_era_obj_is_recognised_and_refused() {
    assert_eq!(sniff(&omf_object()), Format::OmfObject);
    assert_eq!(assess(&sniff(&omf_object()), win()), Err(Reason::DosEraFormat));
    let mut lheadr = omf_object();
    lheadr[0] = 0x82;
    assert_eq!(sniff(&lheadr), Format::OmfObject);
}

#[test]
fn the_dos_reason_carries_a_translatable_key() {
    assert_eq!(Reason::DosEraFormat.key(), "lib.reject.dos_era");
}

#[test]
fn a_mingw_archive_is_accepted_on_windows() {
    let a = archive(&[("/", vec![0; 8]), ("solver.o", coff_obj(0x8664))]);
    assert_eq!(sniff(&a), Format::CoffArchive { machine: Some(Machine::Amd64) });
    assert_eq!(assess(&sniff(&a), win()), Ok(()));
}

#[test]
fn a_unix_archive_is_accepted_on_linux() {
    let a = archive(&[("/", vec![0; 8]), ("solver.o", elf_obj(0x3e))]);
    assert_eq!(sniff(&a), Format::ElfArchive { machine: Some(Machine::Amd64) });
    assert_eq!(assess(&sniff(&a), nix()), Ok(()));
}

#[test]
fn the_symbol_table_is_skipped_rather_than_read_as_an_object() {
    let a = archive(&[
        ("/", vec![0xAA; 12]),
        ("//", vec![0xBB; 7]),
        ("solver.o", coff_obj(0x014c)),
    ]);
    assert_eq!(sniff(&a), Format::CoffArchive { machine: Some(Machine::I386) });
}

#[test]
fn an_odd_sized_member_does_not_desynchronise_the_walk() {
    let a = archive(&[("/", vec![0xAA; 7]), ("solver.o", coff_obj(0x8664))]);
    assert_eq!(sniff(&a), Format::CoffArchive { machine: Some(Machine::Amd64) });
}

#[test]
fn a_32_bit_library_is_refused_with_both_machines_named() {
    let a = archive(&[("solver.o", coff_obj(0x014c))]);
    assert_eq!(
        assess(&sniff(&a), win()),
        Err(Reason::WrongMachine { found: Machine::I386, want: Machine::Amd64 })
    );
}

#[test]
fn an_elf_archive_is_refused_for_a_windows_build_and_the_reverse() {
    let elf = archive(&[("s.o", elf_obj(0x3e))]);
    let coff = archive(&[("s.o", coff_obj(0x8664))]);
    assert_eq!(assess(&sniff(&elf), win()), Err(Reason::WrongPlatform));
    assert_eq!(assess(&sniff(&coff), nix()), Err(Reason::WrongPlatform));
}

#[test]
fn an_import_stub_reports_the_machine_behind_its_sentinel() {
    let mut m = vec![0x00, 0x00, 0xFF, 0xFF];
    m.extend_from_slice(&0x8664u16.to_le_bytes());
    m.resize(20, 0);
    let a = archive(&[("k.o", m)]);
    assert_eq!(sniff(&a), Format::CoffArchive { machine: Some(Machine::Amd64) });
}

#[test]
fn ordinary_files_are_refused_without_pretending_to_know_what_they_are() {
    assert_eq!(sniff(b""), Format::Empty);
    assert_eq!(assess(&Format::Empty, win()), Err(Reason::Empty));
    let src = b"      PROGRAM MAIN\n      END\n";
    assert_eq!(sniff(src), Format::Unknown);
    assert_eq!(assess(&sniff(src), win()), Err(Reason::NotALibrary));
}

#[test]
fn a_long_member_name_is_not_mistaken_for_the_symbol_table() {
    let a = archive(&[
        ("/", vec![0xAA; 12]),
        ("//", b"libgfortran_5_dll_d001740.o/\n".to_vec()),
        ("/0", coff_obj(0x8664)),
    ]);
    assert_eq!(sniff(&a), Format::CoffArchive { machine: Some(Machine::Amd64) });
}

#[test]
fn a_bsd_long_name_is_skipped_before_reading_the_object() {
    let mut data = b"solver_with_a_long_name.o\0\0\0".to_vec();
    let namelen = data.len();
    data.extend_from_slice(&coff_obj(0x8664));
    let a = archive(&[(&format!("#1/{namelen}"), data)]);
    assert_eq!(sniff(&a), Format::CoffArchive { machine: Some(Machine::Amd64) });
}

#[test]
fn a_truncated_archive_never_panics() {
    let full = archive(&[("/", vec![0; 8]), ("solver.o", coff_obj(0x8664))]);
    for n in 0..full.len() {
        let _ = assess(&sniff(&full[..n]), win());
    }
}

#[test]
fn objfmt_arbitrary_bytes_never_panic() {
    let mut seed = 0x12345678u32;
    for _ in 0..2000 {
        let mut buf = Vec::new();
        for _ in 0..64 {
            seed = seed.wrapping_mul(1103515245).wrapping_add(12345);
            buf.push((seed >> 16) as u8);
        }
        let _ = assess(&sniff(&buf), win());
    }
}

#[test]
fn an_empty_stub_archive_is_accepted_rather_than_called_unreadable() {
    assert_eq!(sniff(b"!<arch>\n"), Format::EmptyArchive);
    assert_eq!(assess(&Format::EmptyArchive, Expect::for_exe_suffix(".exe")), Ok(()));
    assert_eq!(assess(&Format::EmptyArchive, Expect::for_exe_suffix("")), Ok(()));
}

// ------------------------------------------------------------ of our own

#[test]
fn a_lone_elf_object_reports_its_machine() {
    assert_eq!(sniff(&elf_obj(0xb7)), Format::ElfObject(Machine::Arm64));
    assert_eq!(assess(&sniff(&elf_obj(0x3e)), nix()), Ok(()));
}

#[test]
fn a_lone_coff_object_reports_its_machine() {
    assert_eq!(sniff(&coff_obj(0x8664)), Format::CoffObject(Machine::Amd64));
    assert_eq!(
        assess(&sniff(&coff_obj(0xaa64)), win()),
        Err(Reason::WrongMachine { found: Machine::Arm64, want: Machine::Amd64 })
    );
}

#[test]
fn llvm_bitcode_is_not_a_library() {
    let b = [0x42u8, 0x43, 0xc0, 0xde, 1, 2, 3, 4];
    assert_eq!(sniff(&b), Format::Bitcode);
    assert_eq!(assess(&Format::Bitcode, win()), Err(Reason::NotALibrary));
}

#[test]
fn an_unknown_machine_is_labelled_by_its_number() {
    assert_eq!(Machine::Other(0x1234).label(), "0x1234");
    assert_eq!(Machine::Other(0xbeef).label(), "0xbeef");
    assert_eq!(Machine::Amd64.label(), "64-bit x86");
}

#[test]
fn a_dos_runtime_library_has_its_own_reason() {
    assert_eq!(
        assess(&Format::OmfLibrary { runtime: true }, win()),
        Err(Reason::DosEraRuntime)
    );
    assert_eq!(Reason::DosEraRuntime.key(), "lib.reject.dos_era_runtime");
}

#[test]
fn a_wrong_machine_problem_names_both_machines() {
    let p = Reason::WrongMachine { found: Machine::I386, want: Machine::Amd64 }.problem("M.LIB".to_string());
    assert_eq!(p.name, "M.LIB");
    assert_eq!(p.title_key, "libs.unusable_title");
    assert_eq!(p.reason_key, "lib.reject.wrong_machine");
    assert_eq!(p.args.len(), 2);
}
