use ef_core::build::diagnostics::{count_errors, count_warnings, parse, rewrite_names, Severity};
use ef_core::build::stage::StagedSource;

#[test]
fn parses_a_modern_multi_line_error() {
    let out = "\
./src/solver.f:12:24:

   12 |       IF (X .EQ. 1) GOTO 100
      |                        1
Error: Symbol 'x' at (1) has no IMPLICIT type
";
    let d = parse(out);
    assert_eq!(d.len(), 1);
    assert_eq!(d[0].severity, Severity::Error);
    assert_eq!(d[0].file.as_deref(), Some("./src/solver.f"));
    assert_eq!(d[0].line, Some(12));
    assert_eq!(d[0].col, Some(24));
    assert!(d[0].message.contains("has no IMPLICIT type"));
    assert_eq!(d[0].snippet.len(), 2);
}

#[test]
fn a_windows_drive_letter_does_not_confuse_the_split() {
    let out = "C:\\work\\build-1\\src\\solver.f:7:3:\n\nError: Something went wrong\n";
    let d = parse(out);
    assert_eq!(d.len(), 1);
    assert_eq!(d[0].file.as_deref(), Some("C:\\work\\build-1\\src\\solver.f"));
    assert_eq!(d[0].line, Some(7));
    assert_eq!(d[0].col, Some(3));
}

#[test]
fn parses_warnings_and_counts_separately() {
    let out = "\
./src/a.f:5:73:

    5 |       X = 1
Warning: Line truncated at (1) [-Wline-truncation]
./src/a.f:9:1:

Error: Unterminated character constant at (1)
";
    let d = parse(out);
    assert_eq!(count_errors(&d), 1);
    assert_eq!(count_warnings(&d), 1);
}

#[test]
fn parses_a_driver_level_fatal_error_with_no_location() {
    let out = "f951: Fatal Error: solver.f: No such file or directory\ncompilation terminated.\n";
    let d = parse(out);
    assert_eq!(d.len(), 1);
    assert_eq!(d[0].severity, Severity::Error);
    assert!(d[0].file.is_none());
    assert!(d[0].message.contains("No such file"));
}

#[test]
fn parses_an_undefined_reference_and_extracts_the_symbol() {
    let out = "\
/usr/bin/ld: ./obj/main.o: in function `MAIN__':
main.f:(.text+0x1a): undefined reference to `mysub_'
collect2: error: ld returned 1 exit status
";
    let d = parse(out);
    let undef: Vec<_> = d.iter().filter(|x| x.undefined_symbol.is_some()).collect();
    assert_eq!(undef.len(), 1);
    assert_eq!(undef[0].undefined_symbol.as_deref(), Some("mysub_"));
    assert_eq!(undef[0].severity, Severity::Error);
}

#[test]
fn staged_names_are_rewritten_back_to_the_original_names() {
    let mut d = parse("./src/solver.f:1:1:\n\nError: boom\n");
    let staged = vec![StagedSource {
        original: "/home/user/SOLVER.FOR".to_string(),
        staged: "/work/src/solver.f".to_string(),
        staged_name: "solver.f".into(),
        display_name: "SOLVER.FOR".into(),
        obj: "/work/obj/solver.o".to_string(),
    }];
    rewrite_names(&mut d, &staged);
    assert_eq!(d[0].file.as_deref(), Some("SOLVER.FOR"));
}

#[test]
fn empty_and_noise_output_yields_nothing() {
    assert!(parse("").is_empty());
    assert!(parse("\n\n   \n").is_empty());
    assert!(parse("just some text that is not a diagnostic\n").is_empty());
}

#[test]
fn a_bare_colon_line_is_not_mistaken_for_a_location() {
    assert!(parse(":\n").is_empty());
    assert!(parse("::\n").is_empty());
    assert!(parse("a:b:c:\n").is_empty());
}

#[test]
fn crlf_output_parses_identically() {
    let unix = parse("./src/a.f:1:2:\n\nError: boom\n");
    let dos = parse("./src/a.f:1:2:\r\n\r\nError: boom\r\n");
    assert_eq!(unix, dos);
}

// ------------------------------------------------------------ of our own

#[test]
fn a_last_line_without_a_newline_still_counts() {
    let d = parse("Warning: no newline at the end");
    assert_eq!(d.len(), 1);
    assert_eq!(d[0].severity, Severity::Warning);
    assert_eq!(d[0].message, "no newline at the end");
}

#[test]
fn notes_are_neither_errors_nor_warnings() {
    let d = parse("note: something to know\n");
    assert_eq!(d.len(), 1);
    assert_eq!(d[0].severity, Severity::Note);
    assert!(!d[0].severity.is_error());
    assert_eq!(count_errors(&d), 0);
    assert_eq!(count_warnings(&d), 0);
}

#[test]
fn an_undefined_reference_is_worded_for_the_user() {
    let d = parse("x.f:(.text+0x1): undefined reference to 'foo_'\n");
    assert_eq!(d[0].message, "undefined reference to `foo_'");
}

#[test]
fn a_name_that_was_not_staged_is_left_alone() {
    let mut d = parse("./src/other.f:1:1:\n\nError: boom\n");
    rewrite_names(&mut d, &[]);
    assert_eq!(d[0].file.as_deref(), Some("./src/other.f"));
}

#[test]
fn crlf_everywhere_reads_as_lf() {
    let lf = "./src/a.f:3:7:\n\n    3 |       X = Y\n      |       1\nError: Symbol 'y' at (1) has no IMPLICIT type\nWarning: something else\n";
    let crlf = lf.replace('\n', "\r\n");
    let a = parse(lf);
    let b = parse(&crlf);
    assert_eq!(a.len(), b.len());
    for (x, y) in a.iter().zip(b.iter()) {
        assert_eq!((&x.file, x.line, x.col, &x.message, &x.snippet), (&y.file, y.line, y.col, &y.message, &y.snippet));
    }
}
