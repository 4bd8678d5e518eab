use ef_core::launcher::beside;

#[test]
fn the_launcher_sits_beside_the_program_with_the_same_name() {
    let (p, _) = beside("/home/u/Tinh dam.exe", true).unwrap();
    assert_eq!(p, "/home/u/Tinh dam.bat");

    let (p, _) = beside("/home/u/tinhdam", false).unwrap();
    assert_eq!(p, "/home/u/tinhdam.sh");
}

#[test]
fn the_script_never_spells_the_program_name() {
    let (_, bat) = beside("/home/u/Tính dầm bê tông.exe", true).unwrap();
    assert!(!bat.contains("dầm"), "the name leaked into the script");
    assert!(bat.contains("%~dpn0.exe"), "it must find its sibling by its own name");

    let (_, sh) = beside("/home/u/Tính dầm", false).unwrap();
    assert!(!sh.contains("dầm"));
    assert!(sh.contains("basename"));
}

#[test]
fn it_would_never_overwrite_the_program_it_launches() {
    assert!(beside("/home/u/run.bat", true).is_none());
    assert!(beside("/home/u/run.sh", false).is_none());
    assert!(beside("/", true).is_none());
}

#[test]
fn the_batch_file_waits_and_uses_crlf() {
    let (_, bat) = beside("x.exe", true).unwrap();
    assert!(bat.contains("pause"), "without this the window still vanishes");
    assert!(bat.contains("cd /d"), "data files live beside the program");
    assert!(bat.contains("\r\n"));
    assert!(!bat.replace("\r\n", "").contains('\n'), "no bare LF");
}

#[test]
fn the_shell_script_waits_too_and_has_a_shebang() {
    let (_, sh) = beside("x", false).unwrap();
    assert!(sh.starts_with("#!/bin/sh\n"));
    assert!(sh.contains("read -r _"), "without this it closes immediately");
    assert!(!sh.contains('\r'), "a CR would break the shebang line");
}

#[test]
fn only_the_last_extension_is_replaced() {
    let (p, _) = beside("a/b.c.exe", true).unwrap();
    assert_eq!(p, "a/b.c.bat");
}
