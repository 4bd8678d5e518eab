//! The headless driver's decisions and the text it prints.
//!
//! Two jobs: it is how the whole build pipeline is exercised without a window,
//! and how an installation is diagnosed over the phone ("run this one command
//! and read me what it says"). Reading files, running the build and printing
//! are the caller's; which command was asked for, what the options mean and
//! every line of output are decided here.
use crate::build::diagnostics::{Diagnostic, Severity};
use crate::build::objfmt::{spec_label, Format, Machine, Reason};
use crate::build::omf::{Library, Module};
use crate::build::BuildOutcome;
use crate::error::EfError;
use crate::project::{
    entry_paths, path_problem, BuildOptions, Dialect, LineLength, OptLevel, Preprocess, Program,
};
use crate::text::nfc_form;
use crate::textops::{
    chars_of, chars_start_with, decimal, decimal_of, owned, push_chars, push_str, starts_with,
    string_from_chars, views,
};
use crate::toolchain::probe::FlagCapabilities;
use crate::toolchain::ToolchainKind;
use vstd::prelude::*;

verus! {

pub const USAGE: &'static str = "Easy Fortran 77 — headless driver\n\nUSAGE:\n    ef-cli doctor\n    ef-cli build <file.f>... [--lib <file>]... [--out <path>] [--json]\n                             [--132] [--no-dec] [--no-static] [--preprocess]\n    ef-cli inspect-library <file>...\n\nOPTIONS:\n    --lib P          link against the pre-compiled library P\n    --out P          save the built program to P\n    --json           machine-readable result on stdout\n    --132            treat source as 132-column instead of 72\n    --no-dec         disable DEC/Microsoft extensions\n    --no-static      disable static local storage and zero-init\n    --preprocess     run the C preprocessor (rarely wanted)\n    --strip          strip the saved program (smaller file, no debug info)\n    --keep-open      wait for a key before the program exits (Windows only)\n";

/// What was asked for on the command line.
#[derive(Debug, Clone, PartialEq, Eq)]
pub enum Command {
    /// Nothing: print the usage and fail.
    Usage,
    Doctor,
    InspectLibrary(Vec<String>),
    Build(Vec<String>),
    Help,
    Unknown(String),
}

pub open spec fn spec_command(args: Seq<Seq<char>>) -> (Option<Seq<char>>, Seq<Seq<char>>) {
    if args.len() == 0 {
        (None, Seq::empty())
    } else {
        (Some(args[0]), args.drop_first())
    }
}

fn same(a: &String, b: &str) -> (r: bool)
    ensures
        r == (a@ == b@),
{
    let ac = chars_of(a.as_str());
    let bc = chars_of(b);
    crate::textops::chars_eq(ac.as_slice(), bc.as_slice())
}

fn rest_of(args: &[String]) -> (v: Vec<String>)
    requires
        args@.len() > 0,
    ensures
        views(v@) == views(args@).drop_first(),
{
    let mut v: Vec<String> = Vec::new();
    let mut i: usize = 1;
    while i < args.len()
        invariant
            1 <= i <= args@.len(),
            views(v@) == views(args@).subrange(1, i as int),
        decreases args@.len() - i,
    {
        let ghost before = v@;
        let x = args[i].clone();
        v.push(x);
        proof {
            crate::textops::lemma_views_push(before, x);
        }
        assert(views(v@) =~= views(args@).subrange(1, i + 1));
        i += 1;
    }
    assert(views(args@).subrange(1, args@.len() as int) =~= views(args@).drop_first());
    v
}

/// The command and its arguments, from everything after the program name.
pub fn command_of(args: &[String]) -> (c: Command)
    ensures
        args@.len() == 0 ==> c == Command::Usage,
        args@.len() > 0 ==> {
            let (cmd, rest) = (args@[0]@, views(args@).drop_first());
            if cmd == "doctor"@ {
                c == Command::Doctor
            } else if cmd == "inspect-library"@ {
                c matches Command::InspectLibrary(v) && views(v@) == rest
            } else if cmd == "build"@ {
                c matches Command::Build(v) && views(v@) == rest
            } else if cmd == "-h"@ || cmd == "--help"@ || cmd == "help"@ {
                c == Command::Help
            } else {
                c matches Command::Unknown(x) && x@ == cmd
            }
        },
{
    if args.len() == 0 {
        return Command::Usage;
    }
    let cmd = &args[0];
    if same(cmd, "doctor") {
        Command::Doctor
    } else if same(cmd, "inspect-library") {
        Command::InspectLibrary(rest_of(args))
    } else if same(cmd, "build") {
        Command::Build(rest_of(args))
    } else if same(cmd, "-h") || same(cmd, "--help") || same(cmd, "help") {
        Command::Help
    } else {
        Command::Unknown(cmd.clone())
    }
}

/// What is said about a command nobody knows.
pub fn unknown_command(cmd: &str) -> (s: String)
    ensures
        s@ == "unknown command `"@ + cmd@ + "`\n\n"@ + USAGE@,
{
    let mut v: Vec<char> = Vec::new();
    push_str(&mut v, "unknown command `");
    push_str(&mut v, cmd);
    push_str(&mut v, "`\n\n");
    push_str(&mut v, USAGE);
    string_from_chars(v.as_slice())
}

/// The options of `build`.
#[derive(Debug, Clone, PartialEq, Eq)]
pub struct Opts {
    pub files: Vec<String>,
    pub json: bool,
    pub out: Option<String>,
    pub col132: bool,
    pub no_dec: bool,
    pub no_static: bool,
    pub preprocess: bool,
    pub strip: bool,
    pub keep_open: bool,
    pub libs: Vec<String>,
}

pub struct OptsSpec {
    pub files: Seq<Seq<char>>,
    pub json: bool,
    pub out: Option<Seq<char>>,
    pub col132: bool,
    pub no_dec: bool,
    pub no_static: bool,
    pub preprocess: bool,
    pub strip: bool,
    pub keep_open: bool,
    pub libs: Seq<Seq<char>>,
}

pub open spec fn opts_view(o: Opts) -> OptsSpec {
    OptsSpec {
        files: views(o.files@),
        json: o.json,
        out: match o.out {
            Some(s) => Some(s@),
            None => None,
        },
        col132: o.col132,
        no_dec: o.no_dec,
        no_static: o.no_static,
        preprocess: o.preprocess,
        strip: o.strip,
        keep_open: o.keep_open,
        libs: views(o.libs@),
    }
}

pub open spec fn no_opts() -> OptsSpec {
    OptsSpec {
        files: Seq::empty(),
        json: false,
        out: None,
        col132: false,
        no_dec: false,
        no_static: false,
        preprocess: false,
        strip: false,
        keep_open: false,
        libs: Seq::empty(),
    }
}

/// The options after reading `args[k..]` on top of `o`, or what stops them.
pub open spec fn read_opts(args: Seq<Seq<char>>, k: int, o: OptsSpec) -> Result<OptsSpec, Seq<char>>
    decreases args.len() - k,
{
    if k < 0 || k >= args.len() {
        Ok(o)
    } else {
        let a = args[k];
        if a == "--json"@ {
            read_opts(args, k + 1, OptsSpec { json: true, ..o })
        } else if a == "--132"@ {
            read_opts(args, k + 1, OptsSpec { col132: true, ..o })
        } else if a == "--no-dec"@ {
            read_opts(args, k + 1, OptsSpec { no_dec: true, ..o })
        } else if a == "--no-static"@ {
            read_opts(args, k + 1, OptsSpec { no_static: true, ..o })
        } else if a == "--preprocess"@ {
            read_opts(args, k + 1, OptsSpec { preprocess: true, ..o })
        } else if a == "--strip"@ {
            read_opts(args, k + 1, OptsSpec { strip: true, ..o })
        } else if a == "--keep-open"@ {
            read_opts(args, k + 1, OptsSpec { keep_open: true, ..o })
        } else if a == "--out"@ {
            if k + 1 >= args.len() {
                Err("--out needs a path"@)
            } else {
                read_opts(args, k + 2, OptsSpec { out: Some(args[k + 1]), ..o })
            }
        } else if a == "--lib"@ {
            if k + 1 >= args.len() {
                Err("--lib needs a path"@)
            } else {
                read_opts(args, k + 2, OptsSpec { libs: o.libs.push(args[k + 1]), ..o })
            }
        } else if starts_with(a, "--"@) {
            Err("unknown option `"@ + a + "`"@)
        } else {
            read_opts(args, k + 1, OptsSpec { files: o.files.push(a), ..o })
        }
    }
}

/// `build`'s options, or why they cannot be read; at least one source file
/// is needed.
pub open spec fn spec_parse(args: Seq<Seq<char>>) -> Result<OptsSpec, Seq<char>> {
    match read_opts(args, 0, no_opts()) {
        Err(e) => Err(e),
        Ok(o) => if o.files.len() == 0 {
            Err("no source files given\n\n"@ + USAGE@)
        } else {
            Ok(o)
        },
    }
}

/// Read `build`'s options.
pub fn parse(args: &[String]) -> (r: Result<Opts, String>)
    ensures
        match spec_parse(views(args@)) {
            Ok(o) => r matches Ok(x) && opts_view(x) == o,
            Err(e) => r matches Err(m) && m@ == e,
        },
{
    let ghost a = views(args@);
    let mut o = Opts {
        files: Vec::new(),
        json: false,
        out: None,
        col132: false,
        no_dec: false,
        no_static: false,
        preprocess: false,
        strip: false,
        keep_open: false,
        libs: Vec::new(),
    };
    assert(views(o.files@) =~= Seq::<Seq<char>>::empty());
    assert(views(o.libs@) =~= Seq::<Seq<char>>::empty());
    assert(opts_view(o) == no_opts());
    let mut k: usize = 0;
    while k < args.len()
        invariant
            k <= args@.len(),
            a == views(args@),
            read_opts(a, 0, no_opts()) == read_opts(a, k as int, opts_view(o)),
        decreases args@.len() - k,
    {
        let x = &args[k];
        assert(a[k as int] == x@);
        let ghost before = opts_view(o);
        if same(x, "--json") {
            o.json = true;
            k += 1;
        } else if same(x, "--132") {
            o.col132 = true;
            k += 1;
        } else if same(x, "--no-dec") {
            o.no_dec = true;
            k += 1;
        } else if same(x, "--no-static") {
            o.no_static = true;
            k += 1;
        } else if same(x, "--preprocess") {
            o.preprocess = true;
            k += 1;
        } else if same(x, "--strip") {
            o.strip = true;
            k += 1;
        } else if same(x, "--keep-open") {
            o.keep_open = true;
            k += 1;
        } else if same(x, "--out") {
            if k + 1 >= args.len() {
                return Err(owned("--out needs a path"));
            }
            o.out = Some(args[k + 1].clone());
            k += 2;
        } else if same(x, "--lib") {
            if k + 1 >= args.len() {
                return Err(owned("--lib needs a path"));
            }
            let ghost lb = o.libs@;
            o.libs.push(args[k + 1].clone());
            assert(views(o.libs@) =~= views(lb).push(args@[k + 1]@));
            k += 2;
        } else if chars_start_with(chars_of(x.as_str()).as_slice(), chars_of("--").as_slice()) {
            let mut m: Vec<char> = Vec::new();
            push_str(&mut m, "unknown option `");
            push_str(&mut m, x.as_str());
            push_str(&mut m, "`");
            return Err(string_from_chars(m.as_slice()));
        } else {
            let ghost fb = o.files@;
            o.files.push(x.clone());
            assert(views(o.files@) =~= views(fb).push(x@));
            k += 1;
        }
        assert(read_opts(a, 0, no_opts()) == read_opts(a, k as int, opts_view(o)));
    }
    if o.files.len() == 0 {
        let mut m: Vec<char> = Vec::new();
        push_str(&mut m, "no source files given\n\n");
        push_str(&mut m, USAGE);
        return Err(string_from_chars(m.as_slice()));
    }
    Ok(o)
}

/// The paths in order, each kept once, where it first appears.
pub open spec fn first_each(ps: Seq<Seq<char>>) -> Seq<Seq<char>>
    decreases ps.len(),
{
    if ps.len() == 0 {
        Seq::empty()
    } else {
        let sub = first_each(ps.drop_last());
        if sub.contains(ps.last()) {
            sub
        } else {
            sub.push(ps.last())
        }
    }
}

/// Why the first unusable path of the list is refused, if one is.
pub open spec fn first_refusal(ps: Seq<Seq<char>>) -> Option<Seq<char>>
    decreases ps.len(),
{
    if ps.len() == 0 {
        None
    } else {
        match first_refusal(ps.drop_last()) {
            Some(r) => Some(r),
            None => path_problem(ps.last()),
        }
    }
}

/// A refusal found in a prefix is the refusal of the whole list.
pub proof fn lemma_first_refusal_prefix(ps: Seq<Seq<char>>, k: int)
    requires
        0 <= k <= ps.len(),
        first_refusal(ps.take(k)) is Some,
    ensures
        first_refusal(ps) == first_refusal(ps.take(k)),
    decreases ps.len() - k,
{
    if k == ps.len() {
        assert(ps.take(k) =~= ps);
    } else {
        let d = ps.drop_last();
        assert(d.take(k) =~= ps.take(k));
        lemma_first_refusal_prefix(d, k);
    }
}

/// The options `build`'s flags ask for: the defaults, but for the six the
/// flags set.
pub open spec fn options_asked(o: Opts, b: BuildOptions) -> bool {
    &&& b.dialect == Dialect::Legacy
    &&& b.line_length == (if o.col132 {
        LineLength::Col132
    } else {
        LineLength::Col72
    })
    &&& b.dec_extensions == !o.no_dec
    &&& b.static_storage == !o.no_static
    &&& !b.d_lines_as_code
    &&& !b.default_real8
    &&& !b.big_stack
    &&& b.check_bounds
    &&& b.strip_symbols == o.strip
    &&& b.keep_window_open == o.keep_open
    &&& b.opt_level == OptLevel::O1
    &&& b.preprocess == (if o.preprocess {
        Preprocess::Always
    } else {
        Preprocess::Never
    })
    &&& b.extra_flags@.len() == 0
}

/// The program `build` builds, named `cli`: the files in order, the
/// libraries in order, each kept once, and the options the flags ask for.
/// Refused, with the reason, at the first file and then the first library
/// whose name is unusable.
pub fn program_from(o: &Opts) -> (r: Result<Program, EfError>)
    ensures
        match first_refusal(views(o.files@)) {
            Some(why) => r matches Err(EfError::UnsafeSourceName { reason }) && reason@ == why,
            None => match first_refusal(views(o.libs@)) {
                Some(why) => r matches Err(EfError::UnsafeSourceName { reason }) && reason@ == why,
                None => r matches Ok(p) && {
                    &&& p.name@ == nfc_form("cli"@)
                    &&& entry_paths(p.sources@) == first_each(views(o.files@))
                    &&& entry_paths(p.libraries@) == first_each(views(o.libs@))
                    &&& options_asked(*o, p.options)
                },
            },
        },
{
    let mut p = Program::new("cli");
    let ghost files = views(o.files@);
    let ghost libs = views(o.libs@);
    assert(entry_paths(p.sources@) =~= first_each(files.take(0)));
    for i in 0..o.files.len()
        invariant
            files == views(o.files@),
            p.name@ == nfc_form("cli"@),
            crate::project::is_default_options(p.options),
            p.libraries@.len() == 0,
            entry_paths(p.sources@) == first_each(files.take(i as int)),
            first_refusal(files.take(i as int)) is None,
    {
        assert(files.take(i + 1).drop_last() =~= files.take(i as int));
        assert(files.take(i + 1).last() == o.files@[i as int]@);
        match p.add_source(o.files[i].as_str()) {
            Ok(()) => {},
            Err(e) => {
                proof {
                    lemma_first_refusal_prefix(files, i + 1);
                }
                return Err(e);
            },
        }
    }
    assert(files.take(o.files@.len() as int) =~= files);
    if o.col132 {
        p.options.line_length = LineLength::Col132;
    }
    if o.no_dec {
        p.options.dec_extensions = false;
    }
    if o.no_static {
        p.options.static_storage = false;
    }
    if o.preprocess {
        p.options.preprocess = Preprocess::Always;
    }
    p.options.strip_symbols = o.strip;
    p.options.keep_window_open = o.keep_open;
    let ghost opts = p.options;
    assert(options_asked(*o, opts));
    assert(entry_paths(p.libraries@) =~= first_each(libs.take(0)));
    for i in 0..o.libs.len()
        invariant
            files == views(o.files@),
            libs == views(o.libs@),
            first_refusal(files) is None,
            p.name@ == nfc_form("cli"@),
            p.options == opts,
            options_asked(*o, opts),
            entry_paths(p.sources@) == first_each(files),
            entry_paths(p.libraries@) == first_each(libs.take(i as int)),
            first_refusal(libs.take(i as int)) is None,
    {
        assert(libs.take(i + 1).drop_last() =~= libs.take(i as int));
        assert(libs.take(i + 1).last() == o.libs@[i as int]@);
        match p.add_library(o.libs[i].as_str()) {
            Ok(()) => {},
            Err(e) => {
                proof {
                    lemma_first_refusal_prefix(libs, i + 1);
                }
                return Err(e);
            },
        }
    }
    assert(libs.take(o.libs@.len() as int) =~= libs);
    Ok(p)
}

// ------------------------------------------------------------ reporting

/// What `{:?}` prints for a string: quoted, with quotes, backslashes and
/// unprintable characters escaped.
pub uninterp spec fn debug_quoted(s: Seq<char>) -> Seq<char>;

/// `format!("{:?}", s)` for a string. What it prints is named.
#[verifier::external_body]
fn debug_str(s: &str) -> (r: String)
    ensures
        r@ == debug_quoted(s@),
{
    format!("{:?}", s)
}

pub open spec fn severity_word(s: Severity) -> Seq<char> {
    match s {
        Severity::Error => "error"@,
        Severity::Warning => "warning"@,
        Severity::Note => "note"@,
    }
}

fn severity_str(s: Severity) -> (r: &'static str)
    ensures
        r@ == severity_word(s),
{
    match s {
        Severity::Error => "error",
        Severity::Warning => "warning",
        Severity::Note => "note",
    }
}

pub open spec fn opt_num(n: Option<u32>) -> Seq<char> {
    match n {
        Some(x) => decimal(x as nat),
        None => "null"@,
    }
}

/// One diagnostic as a line of the JSON array.
pub open spec fn json_diag(d: Diagnostic, last: bool) -> Seq<char> {
    "    {\"severity\": "@ + debug_quoted(severity_word(d.severity)) + ", \"file\": "@ + (match d.file {
        Some(f) => debug_quoted(f@),
        None => "null"@,
    }) + ", \"line\": "@ + opt_num(d.line) + ", \"col\": "@ + opt_num(d.col) + ", \"message\": "@
        + debug_quoted(d.message@) + "}"@ + (if last {
        ""@
    } else {
        ","@
    }) + "\n"@
}

pub open spec fn json_diags(ds: Seq<Diagnostic>, n: int) -> Seq<char>
    decreases n,
{
    if n <= 0 {
        Seq::empty()
    } else {
        json_diags(ds, n - 1) + json_diag(ds[n - 1], n == ds.len())
    }
}

pub open spec fn bool_word(b: bool) -> Seq<char> {
    if b {
        "true"@
    } else {
        "false"@
    }
}

pub open spec fn exe_field(o: BuildOutcome) -> Seq<char> {
    match o.exe {
        Some(p) => debug_quoted(p@),
        None => "null"@,
    }
}

pub open spec fn internal_error_field(o: BuildOutcome) -> Seq<char> {
    match o.internal_error {
        Some(ie) => "  \"internal_error\": "@ + debug_quoted(ie@) + ",\n"@,
        None => ""@,
    }
}

/// The opening of the machine-readable report, up to its list of diagnostics.
pub open spec fn json_head(o: BuildOutcome) -> Seq<char> {
    "{\n"@ + "  \"success\": "@ + bool_word(o.success) + ",\n"@ + "  \"errors\": "@ + decimal(
        o.errors as nat,
    ) + ",\n"@ + "  \"warnings\": "@ + decimal(o.warnings as nat) + ",\n"@ + "  \"exe\": "@
        + exe_field(o) + ",\n"@ + internal_error_field(o) + "  \"diagnostics\": [\n"@
}

/// The machine-readable report.
pub open spec fn spec_json_report(o: BuildOutcome) -> Seq<char> {
    json_head(o) + json_diags(o.diagnostics@, o.diagnostics@.len() as int) + "  ]\n}\n"@
}

/// One diagnostic as the human-readable report prints it.
pub open spec fn text_diag(d: Diagnostic) -> Seq<char> {
    match (d.file, d.line, d.col) {
        (Some(f), Some(l), Some(c)) => f@ + ":"@ + decimal(l as nat) + ":"@ + decimal(c as nat)
            + ": "@ + severity_word(d.severity) + ": "@ + d.message@ + "\n"@,
        _ => severity_word(d.severity) + ": "@ + d.message@ + "\n"@,
    }
}

pub open spec fn text_diags(ds: Seq<Diagnostic>) -> Seq<char>
    decreases ds.len(),
{
    if ds.len() == 0 {
        Seq::empty()
    } else {
        text_diags(ds.drop_last()) + text_diag(ds.last())
    }
}

/// The end of the human-readable report: an internal error if there was one,
/// and the summary line.
pub open spec fn internal_error_line(o: BuildOutcome) -> Seq<char> {
    match o.internal_error {
        Some(ie) => "internal error: "@ + ie@ + "\n"@,
        None => ""@,
    }
}

pub open spec fn text_tail(o: BuildOutcome) -> Seq<char> {
    internal_error_line(o) + (if o.success {
        "ok"@
    } else {
        "FAILED"@
    }) + ": "@ + decimal(o.errors as nat) + " errors, "@ + decimal(o.warnings as nat)
        + " warnings\n"@
}

/// The human-readable report: each diagnostic, then the end.
pub open spec fn spec_text_report(o: BuildOutcome) -> Seq<char> {
    text_diags(o.diagnostics@) + text_tail(o)
}

fn push_dec(v: &mut Vec<char>, n: u64)
    ensures
        final(v)@ == old(v)@ + decimal(n as nat),
{
    let d = decimal_of(n);
    push_chars(v, d.as_slice());
}

fn push_opt_num(v: &mut Vec<char>, n: Option<u32>)
    ensures
        final(v)@ == old(v)@ + opt_num(n),
{
    match n {
        Some(x) => push_dec(v, x as u64),
        None => push_str(v, "null"),
    }
}

fn exe_text(o: &BuildOutcome) -> (v: Vec<char>)
    ensures
        v@ == exe_field(*o),
{
    match &o.exe {
        Some(p) => chars_of(debug_str(p.as_str()).as_str()),
        None => chars_of("null"),
    }
}

fn internal_error_text(o: &BuildOutcome) -> (v: Vec<char>)
    ensures
        v@ == internal_error_field(*o),
{
    let mut v: Vec<char> = Vec::new();
    match &o.internal_error {
        Some(ie) => {
            push_str(&mut v, "  \"internal_error\": ");
            let q = debug_str(ie.as_str());
            push_str(&mut v, q.as_str());
            push_str(&mut v, ",\n");
        },
        None => {},
    }
    proof {
        reveal_strlit("");
    }
    assert(v@ =~= internal_error_field(*o));
    v
}

fn internal_error_line_text(o: &BuildOutcome) -> (v: Vec<char>)
    ensures
        v@ == internal_error_line(*o),
{
    let mut v: Vec<char> = Vec::new();
    match &o.internal_error {
        Some(ie) => {
            push_str(&mut v, "internal error: ");
            push_str(&mut v, ie.as_str());
            push_str(&mut v, "\n");
        },
        None => {},
    }
    proof {
        reveal_strlit("");
    }
    assert(v@ =~= internal_error_line(*o));
    v
}

fn json_diag_text(d: &Diagnostic, last: bool) -> (v: Vec<char>)
    ensures
        v@ == json_diag(*d, last),
{
    let mut v: Vec<char> = Vec::new();
    push_str(&mut v, "    {\"severity\": ");
    let q = debug_str(severity_str(d.severity));
    push_str(&mut v, q.as_str());
    push_str(&mut v, ", \"file\": ");
    match &d.file {
        Some(f) => {
            let q = debug_str(f.as_str());
            push_str(&mut v, q.as_str());
        },
        None => push_str(&mut v, "null"),
    }
    push_str(&mut v, ", \"line\": ");
    push_opt_num(&mut v, d.line);
    push_str(&mut v, ", \"col\": ");
    push_opt_num(&mut v, d.col);
    push_str(&mut v, ", \"message\": ");
    let q = debug_str(d.message.as_str());
    push_str(&mut v, q.as_str());
    push_str(&mut v, "}");
    push_str(&mut v, if last {
        ""
    } else {
        ","
    });
    push_str(&mut v, "\n");
    assert(v@ =~= json_diag(*d, last));
    v
}

/// What `build` prints about a finished build, as JSON when asked.
pub fn report_build(json: bool, outcome: &BuildOutcome) -> (s: String)
    ensures
        json ==> s@ == spec_json_report(*outcome),
        !json ==> s@ == spec_text_report(*outcome),
{
    let mut v: Vec<char> = Vec::new();
    if json {
        push_str(&mut v, "{\n");
        push_str(&mut v, "  \"success\": ");
        push_str(&mut v, if outcome.success {
            "true"
        } else {
            "false"
        });
        push_str(&mut v, ",\n");
        push_str(&mut v, "  \"errors\": ");
        push_dec(&mut v, outcome.errors as u64);
        push_str(&mut v, ",\n");
        push_str(&mut v, "  \"warnings\": ");
        push_dec(&mut v, outcome.warnings as u64);
        push_str(&mut v, ",\n");
        push_str(&mut v, "  \"exe\": ");
        let ef = exe_text(outcome);
        push_chars(&mut v, ef.as_slice());
        push_str(&mut v, ",\n");
        let ie = internal_error_text(outcome);
        push_chars(&mut v, ie.as_slice());
        push_str(&mut v, "  \"diagnostics\": [\n");
        assert(v@ =~= json_head(*outcome));
        let ghost head = v@;
        let n = outcome.diagnostics.len();
        for i in 0..n
            invariant
                n == outcome.diagnostics@.len(),
                v@ == head + json_diags(outcome.diagnostics@, i as int),
        {
            let d = &outcome.diagnostics[i];
            let ghost before = v@;
            let line = json_diag_text(d, i + 1 == n);
            push_chars(&mut v, line.as_slice());
            assert(v@ =~= before + json_diag(outcome.diagnostics@[i as int], i + 1 == n));
        }
        let ghost body = v@;
        push_str(&mut v, "  ]\n}\n");
        assert(v@ =~= body + "  ]\n}\n"@);
    } else {
        let n = outcome.diagnostics.len();
        assert(outcome.diagnostics@.take(0) =~= Seq::<Diagnostic>::empty());
        for i in 0..n
            invariant
                n == outcome.diagnostics@.len(),
                v@ == text_diags(outcome.diagnostics@.take(i as int)),
        {
            assert(outcome.diagnostics@.take(i + 1).drop_last() =~= outcome.diagnostics@.take(
                i as int,
            ));
            let d = &outcome.diagnostics[i];
            let ghost before = v@;
            match (&d.file, d.line, d.col) {
                (Some(f), Some(l), Some(c)) => {
                    push_str(&mut v, f.as_str());
                    push_str(&mut v, ":");
                    push_dec(&mut v, l as u64);
                    push_str(&mut v, ":");
                    push_dec(&mut v, c as u64);
                    push_str(&mut v, ": ");
                    push_str(&mut v, severity_str(d.severity));
                    push_str(&mut v, ": ");
                    push_str(&mut v, d.message.as_str());
                    push_str(&mut v, "\n");
                },
                _ => {
                    push_str(&mut v, severity_str(d.severity));
                    push_str(&mut v, ": ");
                    push_str(&mut v, d.message.as_str());
                    push_str(&mut v, "\n");
                },
            }
            assert(v@ =~= before + text_diag(*d));
        }
        assert(outcome.diagnostics@.take(n as int) =~= outcome.diagnostics@);
        let ghost diags = v@;
        let il = internal_error_line_text(outcome);
        push_chars(&mut v, il.as_slice());
        push_str(&mut v, if outcome.success {
            "ok"
        } else {
            "FAILED"
        });
        push_str(&mut v, ": ");
        push_dec(&mut v, outcome.errors as u64);
        push_str(&mut v, " errors, ");
        push_dec(&mut v, outcome.warnings as u64);
        push_str(&mut v, " warnings\n");
        assert(v@ =~= diags + text_tail(*outcome));
    }
    string_from_chars(v.as_slice())
}

// ------------------------------------------------------------ libraries

/// What a library file is, in a phrase.
pub open spec fn spec_describe_format(f: Format) -> Seq<char> {
    match f {
        Format::OmfLibrary { runtime: true } => "OMF library (DOS-era), the old compiler's own runtime"@,
        Format::OmfLibrary { runtime: false } => "OMF library (DOS-era)"@,
        Format::OmfObject => "OMF object (DOS-era)"@,
        Format::CoffArchive { machine } => match machine {
            Some(m) => "COFF/PE archive for "@ + spec_label(m),
            None => "COFF/PE archive"@,
        },
        Format::ElfArchive { machine } => match machine {
            Some(m) => "ELF archive for "@ + spec_label(m),
            None => "ELF archive"@,
        },
        Format::CoffObject(m) => "COFF/PE object for "@ + spec_label(m),
        Format::ElfObject(m) => "ELF object for "@ + spec_label(m),
        Format::EmptyArchive => "empty archive (a stub, links to nothing)"@,
        Format::Bitcode => "LLVM bitcode"@,
        Format::Empty => "empty file"@,
        Format::Unknown => "not an object file"@,
    }
}

fn with_label(head: &str, m: Machine) -> (s: String)
    ensures
        s@ == head@ + spec_label(m),
{
    let mut v: Vec<char> = Vec::new();
    push_str(&mut v, head);
    let l = m.label();
    push_str(&mut v, l.as_str());
    string_from_chars(v.as_slice())
}

pub fn describe_format(f: &Format) -> (s: String)
    ensures
        s@ == spec_describe_format(*f),
{
    match f {
        Format::OmfLibrary { runtime: true } => owned("OMF library (DOS-era), the old compiler's own runtime"),
        Format::OmfLibrary { runtime: false } => owned("OMF library (DOS-era)"),
        Format::OmfObject => owned("OMF object (DOS-era)"),
        Format::CoffArchive { machine } => match machine {
            Some(m) => with_label("COFF/PE archive for ", *m),
            None => owned("COFF/PE archive"),
        },
        Format::ElfArchive { machine } => match machine {
            Some(m) => with_label("ELF archive for ", *m),
            None => owned("ELF archive"),
        },
        Format::CoffObject(m) => with_label("COFF/PE object for ", *m),
        Format::ElfObject(m) => with_label("ELF object for ", *m),
        Format::EmptyArchive => owned("empty archive (a stub, links to nothing)"),
        Format::Bitcode => owned("LLVM bitcode"),
        Format::Empty => owned("empty file"),
        Format::Unknown => owned("not an object file"),
    }
}

/// What `inspect-library` prints for one file: its path, what it is, and
/// whether it is usable, with the reason when it is not.
pub open spec fn spec_verdict_lines(path: Seq<char>, f: Format, verdict: Result<(), Reason>) -> Seq<Seq<char>> {
    seq![path, "    "@ + spec_describe_format(f)] + match verdict {
        Ok(()) => seq!["    usable: yes"@],
        Err(r) => seq!["    usable: NO"@, "    why:    "@ + crate::build::objfmt::spec_english(r)],
    }
}

fn line_of(head: &str, tail: &str) -> (s: String)
    ensures
        s@ == head@ + tail@,
{
    let mut v: Vec<char> = Vec::new();
    push_str(&mut v, head);
    push_str(&mut v, tail);
    string_from_chars(v.as_slice())
}

pub fn verdict_lines(path: &str, f: &Format, verdict: &Result<(), Reason>) -> (v: Vec<String>)
    ensures
        views(v@) == spec_verdict_lines(path@, *f, *verdict),
{
    let mut v: Vec<String> = Vec::new();
    v.push(owned(path));
    let what = describe_format(f);
    v.push(line_of("    ", what.as_str()));
    match verdict {
        Ok(()) => v.push(owned("    usable: yes")),
        Err(r) => {
            v.push(owned("    usable: NO"));
            let e = r.english();
            v.push(line_of("    why:    ", e.as_str()));
        },
    }
    assert(views(v@) =~= spec_verdict_lines(path@, *f, *verdict));
    v
}

pub open spec fn first_translator(ms: Seq<Module>, k: int) -> Option<Seq<char>>
    decreases ms.len() - k,
{
    if k < 0 || k >= ms.len() {
        None
    } else {
        match ms[k].translator {
            Some(t) => Some(t@),
            None => first_translator(ms, k + 1),
        }
    }
}

/// `", "` between the names.
pub open spec fn joined(ns: Seq<Seq<char>>) -> Seq<char>
    decreases ns.len(),
{
    if ns.len() == 0 {
        Seq::empty()
    } else if ns.len() == 1 {
        ns[0]
    } else {
        joined(ns.drop_last()) + ", "@ + ns.last()
    }
}

pub open spec fn module_lines(m: Module) -> Seq<Seq<char>> {
    seq!["      "@ + (if m.name@.len() == 0 {
        "?"@
    } else {
        m.name@
    })] + if m.publics@.len() == 0 {
        Seq::empty()
    } else {
        seq!["          defines: "@ + joined(views(m.publics@))]
    }
}

pub open spec fn all_module_lines(ms: Seq<Module>) -> Seq<Seq<char>>
    decreases ms.len(),
{
    if ms.len() == 0 {
        Seq::empty()
    } else {
        all_module_lines(ms.drop_last()) + module_lines(ms.last())
    }
}

pub open spec fn any_32(ms: Seq<Module>) -> bool {
    exists|i: int| 0 <= i < ms.len() && (#[trigger] ms[i]).bits32
}

/// What is inside an OMF file: how many modules and of which width, who
/// built them, and each module with the routines it defines.
pub open spec fn spec_library_lines(l: Library) -> Seq<Seq<char>> {
    seq![
        "    inside: "@ + decimal(l.modules@.len()) + " module(s), "@ + (if any_32(l.modules@) {
            "32"@
        } else {
            "16"@
        }) + "-bit"@ + (if l.truncated {
            " (stopped early: the record stream did not parse to the end)"@
        } else {
            ""@
        }),
    ] + (match first_translator(l.modules@, 0) {
        Some(t) => seq!["    built by: "@ + t],
        None => Seq::empty(),
    }) + all_module_lines(l.modules@)
}

fn join_names(ns: &Vec<String>) -> (s: String)
    ensures
        s@ == joined(views(ns@)),
{
    let mut v: Vec<char> = Vec::new();
    assert(views(ns@).take(0) =~= Seq::<Seq<char>>::empty());
    for i in 0..ns.len()
        invariant
            v@ == joined(views(ns@).take(i as int)),
    {
        assert(views(ns@).take(i + 1).drop_last() =~= views(ns@).take(i as int));
        assert(views(ns@).take(i + 1).last() == ns@[i as int]@);
        if i > 0 {
            push_str(&mut v, ", ");
        }
        push_str(&mut v, ns[i].as_str());
        assert(v@ =~= joined(views(ns@).take(i + 1)));
    }
    assert(views(ns@).take(ns@.len() as int) =~= views(ns@));
    string_from_chars(v.as_slice())
}

fn first_translator_of(ms: &Vec<Module>) -> (r: Option<String>)
    ensures
        match first_translator(ms@, 0) {
            Some(t) => r matches Some(x) && x@ == t,
            None => r is None,
        },
{
    let mut k: usize = 0;
    while k < ms.len()
        invariant
            k <= ms@.len(),
            first_translator(ms@, 0) == first_translator(ms@, k as int),
        decreases ms@.len() - k,
    {
        match &ms[k].translator {
            Some(t) => {
                return Some(t.clone());
            },
            None => {},
        }
        k += 1;
    }
    None
}

pub fn library_lines(l: &Library) -> (v: Vec<String>)
    ensures
        views(v@) == spec_library_lines(*l),
{
    let mut head: Vec<char> = Vec::new();
    push_str(&mut head, "    inside: ");
    push_dec(&mut head, l.modules.len() as u64);
    push_str(&mut head, " module(s), ");
    let mut wide = false;
    for i in 0..l.modules.len()
        invariant
            wide == exists|k: int| 0 <= k < i && (#[trigger] l.modules@[k]).bits32,
    {
        if l.modules[i].bits32 {
            assert(l.modules@[i as int].bits32);
            wide = true;
        }
    }
    push_str(&mut head, if wide {
        "32"
    } else {
        "16"
    });
    push_str(&mut head, "-bit");
    if l.truncated {
        push_str(&mut head, " (stopped early: the record stream did not parse to the end)");
    }
    let mut v: Vec<String> = Vec::new();
    assert(wide == any_32(l.modules@));
    proof {
        reveal_strlit("");
        assert(head@ =~= spec_library_lines(*l)[0]);
    }
    let h = string_from_chars(head.as_slice());
    assert(h@ == spec_library_lines(*l)[0]);
    v.push(h);
    let found = first_translator_of(&l.modules);
    let ghost lead = views(v@);
    match &found {
        Some(t) => {
            let mut x: Vec<char> = Vec::new();
            push_str(&mut x, "    built by: ");
            push_str(&mut x, t.as_str());
            v.push(string_from_chars(x.as_slice()));
        },
        None => {},
    }
    let ghost mid = views(v@);
    assert(mid =~= seq![spec_library_lines(*l)[0]] + (match first_translator(l.modules@, 0) {
        Some(t) => seq!["    built by: "@ + t],
        None => Seq::<Seq<char>>::empty(),
    }));
    assert(l.modules@.take(0) =~= Seq::<Module>::empty());
    for i in 0..l.modules.len()
        invariant
            views(v@) == mid + all_module_lines(l.modules@.take(i as int)),
    {
        assert(l.modules@.take(i + 1).drop_last() =~= l.modules@.take(i as int));
        let m = &l.modules[i];
        let ghost before = views(v@);
        let nc = chars_of(m.name.as_str());
        let mut x: Vec<char> = Vec::new();
        push_str(&mut x, "      ");
        if nc.len() == 0 {
            push_str(&mut x, "?");
        } else {
            push_str(&mut x, m.name.as_str());
        }
        v.push(string_from_chars(x.as_slice()));
        if m.publics.len() > 0 {
            let j = join_names(&m.publics);
            let mut y: Vec<char> = Vec::new();
            push_str(&mut y, "          defines: ");
            push_str(&mut y, j.as_str());
            v.push(string_from_chars(y.as_slice()));
        }
        assert(views(v@) =~= before + module_lines(*m));
    }
    assert(l.modules@.take(l.modules@.len() as int) =~= l.modules@);
    assert(views(v@) =~= spec_library_lines(*l));
    v
}

// ------------------------------------------------------------ doctor

/// How `{:?}` names a toolchain kind.
pub fn kind_name(k: ToolchainKind) -> (s: &'static str)
    ensures
        s@ == (match k {
            ToolchainKind::Bundled => "Bundled"@,
            ToolchainKind::System => "System"@,
            ToolchainKind::UserSpecified => "UserSpecified"@,
        }),
{
    match k {
        ToolchainKind::Bundled => "Bundled",
        ToolchainKind::System => "System",
        ToolchainKind::UserSpecified => "UserSpecified",
    }
}

/// The flags `doctor` reports on, with whether this compiler takes each.
pub open spec fn capability_table(c: FlagCapabilities) -> Seq<(Seq<char>, bool)> {
    seq![
        ("-std=legacy"@, c.std_legacy),
        ("-fdec"@, c.dec),
        ("-fno-automatic"@, c.no_automatic),
        ("-finit-local-zero"@, c.init_local_zero),
        ("-fno-range-check"@, c.no_range_check),
        ("-fallow-invalid-boz"@, c.allow_invalid_boz),
        ("-fd-lines-as-code"@, c.d_lines_as_code),
        ("-fmax-errors"@, c.max_errors),
        ("-fmax-stack-var-size"@, c.max_stack_var_size),
        ("-fdefault-real-8"@, c.default_real8),
        ("-static-libgfortran"@, c.static_runtime),
        ("-static"@, c.static_full),
        ("-s (strip)"@, c.strip),
    ]
}

/// `{:<22}`: padded with spaces to 22 characters.
pub open spec fn pad22(s: Seq<char>) -> Seq<char> {
    if s.len() >= 22 {
        s
    } else {
        s + Seq::new((22 - s.len()) as nat, |i: int| ' ')
    }
}

pub open spec fn capability_line(e: (Seq<char>, bool)) -> Seq<char> {
    "  "@ + pad22(e.0) + " "@ + if e.1 {
        "yes"@
    } else {
        "no"@
    }
}

fn capability_row(name: &str, on: bool) -> (s: String)
    ensures
        s@ == capability_line((name@, on)),
{
    let mut v: Vec<char> = Vec::new();
    push_str(&mut v, "  ");
    push_str(&mut v, name);
    let n = chars_of(name).len();
    let mut k = n;
    while k < 22
        invariant
            n <= 22 ==> n <= k <= 22,
            n > 22 ==> k == n,
            v@ == "  "@ + name@ + Seq::new((k - n) as nat, |i: int| ' '),
        decreases 22 - k,
    {
        v.push(' ');
        k += 1;
        assert(v@ =~= "  "@ + name@ + Seq::new((k - n) as nat, |i: int| ' '));
    }
    proof {
        if n >= 22 {
            assert(Seq::new((k - n) as nat, |i: int| ' ') =~= Seq::<char>::empty());
        }
    }
    push_str(&mut v, " ");
    push_str(&mut v, if on {
        "yes"
    } else {
        "no"
    });
    assert(v@ =~= capability_line((name@, on)));
    string_from_chars(v.as_slice())
}

pub open spec fn table_view(t: Seq<(&str, bool)>) -> Seq<(Seq<char>, bool)> {
    t.map_values(|e: (&str, bool)| (e.0@, e.1))
}

fn table(c: &FlagCapabilities) -> (t: Vec<(&'static str, bool)>)
    ensures
        table_view(t@) == capability_table(*c),
{
    let mut t: Vec<(&'static str, bool)> = Vec::new();
    t.push(("-std=legacy", c.std_legacy));
    t.push(("-fdec", c.dec));
    t.push(("-fno-automatic", c.no_automatic));
    t.push(("-finit-local-zero", c.init_local_zero));
    t.push(("-fno-range-check", c.no_range_check));
    t.push(("-fallow-invalid-boz", c.allow_invalid_boz));
    t.push(("-fd-lines-as-code", c.d_lines_as_code));
    t.push(("-fmax-errors", c.max_errors));
    t.push(("-fmax-stack-var-size", c.max_stack_var_size));
    t.push(("-fdefault-real-8", c.default_real8));
    t.push(("-static-libgfortran", c.static_runtime));
    t.push(("-static", c.static_full));
    t.push(("-s (strip)", c.strip));
    assert(table_view(t@) =~= capability_table(*c));
    t
}

/// The capability lines of `doctor`'s report, in its order.
pub fn capability_lines(c: &FlagCapabilities) -> (v: Vec<String>)
    ensures
        views(v@) == capability_table(*c).map_values(|e: (Seq<char>, bool)| capability_line(e)),
{
    let t = table(c);
    let ghost tv = table_view(t@);
    let mut v: Vec<String> = Vec::new();
    for i in 0..t.len()
        invariant
            tv == table_view(t@),
            views(v@) == tv.take(i as int).map_values(|e: (Seq<char>, bool)| capability_line(e)),
    {
        let ghost before = v@;
        let x = capability_row(t[i].0, t[i].1);
        v.push(x);
        proof {
            crate::textops::lemma_views_push(before, x);
            assert(tv[i as int] == (t@[i as int].0@, t@[i as int].1));
        }
        assert(views(v@) =~= tv.take(i + 1).map_values(|e: (Seq<char>, bool)| capability_line(e)));
    }
    assert(tv.take(t@.len() as int) =~= tv);
    v
}

} // verus!
