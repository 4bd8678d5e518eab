use ef_core::build::diagnostics::{Diagnostic, Severity};
use ef_core::build::objfmt::{Format, Machine, Reason};
use ef_core::build::BuildOutcome;
use ef_core::cli::{
    capability_lines, command_of, describe_format, kind_name, parse, program_from, report_build,
    unknown_command, verdict_lines, Command, USAGE,
};
use ef_core::project::{LineLength, Preprocess};
use ef_core::toolchain::probe::FlagCapabilities;
use ef_core::toolchain::ToolchainKind;

fn s(v: &[&str]) -> Vec<String> {
    v.iter().map(|x| x.to_string()).collect()
}

fn outcome(success: bool, diags: Vec<Diagnostic>) -> BuildOutcome {
    BuildOutcome {
        success,
        exe: if success { Some("/w/out/program".into()) } else { None },
        errors: diags.iter().filter(|d| d.severity == Severity::Error).count(),
        warnings: diags.iter().filter(|d| d.severity == Severity::Warning).count(),
        diagnostics: diags,
        raw: String::new(),
        failed_at: None,
        cancelled: false,
        internal_error: None,
        file_problem: None,
    }
}

fn diag(sev: Severity, file: Option<&str>, line: Option<u32>, col: Option<u32>, msg: &str) -> Diagnostic {
    Diagnostic {
        severity: sev,
        file: file.map(|f| f.to_string()),
        line,
        col,
        message: msg.to_string(),
        snippet: vec![],
        undefined_symbol: None,
    }
}

#[test]
fn commands_are_recognised() {
    assert_eq!(command_of(&[]), Command::Usage);
    assert_eq!(command_of(&s(&["doctor"])), Command::Doctor);
    assert_eq!(command_of(&s(&["build", "a.f"])), Command::Build(s(&["a.f"])));
    assert_eq!(command_of(&s(&["inspect-library", "x.lib", "y.a"])), Command::InspectLibrary(s(&["x.lib", "y.a"])));
    assert_eq!(command_of(&s(&["--help"])), Command::Help);
    assert_eq!(command_of(&s(&["frobnicate"])), Command::Unknown("frobnicate".into()));
    assert!(unknown_command("x").starts_with("unknown command `x`\n\nEasy Fortran 77"));
}

#[test]
fn build_options_are_read_and_files_kept_in_order() {
    let o = parse(&s(&["b.f", "--132", "--lib", "m.a", "a.f", "--json", "--out", "p.exe", "--no-dec"])).unwrap();
    assert_eq!(o.files, s(&["b.f", "a.f"]));
    assert_eq!(o.libs, s(&["m.a"]));
    assert!(o.json && o.col132 && o.no_dec && !o.no_static);
    assert_eq!(o.out.as_deref(), Some("p.exe"));
    assert_eq!(parse(&s(&["a.f", "--out"])).unwrap_err(), "--out needs a path");
    assert_eq!(parse(&s(&["a.f", "--fast"])).unwrap_err(), "unknown option `--fast`");
    assert_eq!(parse(&s(&["--json"])).unwrap_err(), format!("no source files given\n\n{USAGE}"));
}

#[test]
fn the_program_follows_the_flags() {
    let o = parse(&s(&["/a/x.f", "--132", "--no-static", "--preprocess", "--strip", "--keep-open", "--lib", "/a/m.a"])).unwrap();
    let p = program_from(&o).unwrap();
    assert_eq!(p.sources.len(), 1);
    assert_eq!(p.libraries.len(), 1);
    assert_eq!(p.options.line_length, LineLength::Col132);
    assert!(p.options.dec_extensions && !p.options.static_storage);
    assert_eq!(p.options.preprocess, Preprocess::Always);
    assert!(p.options.strip_symbols && p.options.keep_window_open);
    let bad = parse(&s(&["/a/-x.f"])).unwrap();
    assert!(program_from(&bad).is_err());
}

#[test]
fn the_text_report_names_file_line_and_column() {
    let o = outcome(false, vec![
        diag(Severity::Error, Some("solver.f"), Some(12), Some(24), "Symbol 'x' has no IMPLICIT type"),
        diag(Severity::Warning, None, None, None, "something odd"),
    ]);
    assert_eq!(
        report_build(false, &o),
        "solver.f:12:24: error: Symbol 'x' has no IMPLICIT type\nwarning: something odd\nFAILED: 1 errors, 1 warnings\n"
    );
}

#[test]
fn the_json_report_is_machine_readable() {
    let o = outcome(true, vec![diag(Severity::Warning, Some("a \"b\".f"), Some(3), None, "w")]);
    assert_eq!(
        report_build(true, &o),
        "{\n  \"success\": true,\n  \"errors\": 0,\n  \"warnings\": 1,\n  \"exe\": \"/w/out/program\",\n  \"diagnostics\": [\n    {\"severity\": \"warning\", \"file\": \"a \\\"b\\\".f\", \"line\": 3, \"col\": null, \"message\": \"w\"}\n  ]\n}\n"
    );
    let mut e = outcome(false, vec![]);
    e.internal_error = Some("boom".into());
    let j = report_build(true, &e);
    assert!(j.contains("  \"exe\": null,\n  \"internal_error\": \"boom\",\n  \"diagnostics\": [\n  ]\n}\n"));
    assert!(report_build(false, &e).starts_with("internal error: boom\nFAILED"));
}

#[test]
fn library_verdicts_are_spelled_out() {
    assert_eq!(describe_format(&Format::OmfLibrary { runtime: true }), "OMF library (DOS-era), the old compiler's own runtime");
    assert_eq!(describe_format(&Format::CoffArchive { machine: None }), "COFF/PE archive");
    assert!(describe_format(&Format::ElfObject(Machine::Amd64)).starts_with("ELF object for "));
    let ok = verdict_lines("m.a", &Format::EmptyArchive, &Ok(()));
    assert_eq!(ok, s(&["m.a", "    empty archive (a stub, links to nothing)", "    usable: yes"]));
    let no = verdict_lines("OLD.LIB", &Format::OmfLibrary { runtime: false }, &Err(Reason::DosEraFormat));
    assert_eq!(no.len(), 4);
    assert_eq!(no[2], "    usable: NO");
    assert!(no[3].starts_with("    why:    "));
}

#[test]
fn doctor_lists_every_capability_aligned() {
    let lines = capability_lines(&FlagCapabilities::conservative());
    assert_eq!(lines.len(), 13);
    assert_eq!(lines[0], "  -std=legacy            no");
    assert_eq!(lines[12], "  -s (strip)             no");
    assert_eq!(capability_lines(&FlagCapabilities::optimistic())[1], "  -fdec                  yes");
    assert_eq!(kind_name(ToolchainKind::UserSpecified), "UserSpecified");
}

#[test]
fn each_file_is_kept_once_and_the_first_bad_name_is_the_one_refused() {
    let o = parse(&s(&["/a/x.f", "/a/y.f", "/a/x.f", "--lib", "/a/m.a", "--lib", "/a/m.a"])).unwrap();
    let p = program_from(&o).unwrap();
    let srcs: Vec<&str> = p.sources.iter().map(|f| f.path.as_str()).collect();
    assert_eq!(srcs, vec!["/a/x.f", "/a/y.f"]);
    assert_eq!(p.libraries.len(), 1);
    assert_eq!(p.name, "cli");

    let bad = parse(&s(&["/a/ok.f", "/a/-first.f", "/a/-second.f", "--lib", "/a/-lib.a"])).unwrap();
    match program_from(&bad) {
        Err(ef_core::error::EfError::UnsafeSourceName { reason }) => assert!(reason.contains("-first.f"), "{reason}"),
        _ => panic!("the first bad file should be refused"),
    }
    let bad_lib = parse(&s(&["/a/ok.f", "--lib", "/a/-lib.a"])).unwrap();
    match program_from(&bad_lib) {
        Err(ef_core::error::EfError::UnsafeSourceName { reason }) => assert!(reason.contains("-lib.a"), "{reason}"),
        _ => panic!("the bad library should be refused"),
    }
}
