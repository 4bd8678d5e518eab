//! Parsing gfortran's output.
//!
//! A pure text-to-diagnostics function with no I/O, so it can be checked against
//! captured output on a machine with no gfortran installed.
//!
//! Modern gfortran puts the location on its own line and the severity *after* the
//! source snippet:
//!
//! ```text
//! ./src/solver.f:12:24:
//!
//!    12 |       IF (X .EQ. 1) GOTO 100
//!       |                        1
//! Error: Symbol 'x' at (1) has no IMPLICIT type
//! ```
//!
//! The specification below reads the output one character at a time: a line
//! ends at `\n`, trailing `\r` are dropped, and each line moves a small state
//! (the diagnostics so far and the location header waiting for its severity).
use crate::build::stage::StagedSource;
use crate::textops::{
    chars_eq, chars_of, decimal, is_ws, ws_prefix_len, find_chars, find_from, chars_start_with, opt_view, parse_unsigned, parse_unsigned_exec, push_chars,
    push_str, slice_from, slice_range, starts_with, string_from_chars, trim, trim_bounds,
    trim_start, trim_start_index, views,
};
use vstd::prelude::*;

verus! {

#[derive(Debug, Clone, Copy, PartialEq, Eq, Structural)]
pub enum Severity {
    Error,
    Warning,
    Note,
}

impl Severity {
    pub fn is_error(self) -> (r: bool)
        ensures
            r == (self == Severity::Error),
    {
        match self {
            Severity::Error => true,
            _ => false,
        }
    }
}

#[derive(Debug, Clone, PartialEq, Eq)]
pub struct Diagnostic {
    pub severity: Severity,
    /// The file as the compiler named it: a staged name until `rewrite_names` runs.
    pub file: Option<String>,
    pub line: Option<u32>,
    pub col: Option<u32>,
    pub message: String,
    pub snippet: Vec<String>,
    /// Set for `undefined reference to 'foo_'`, which usually means a file is
    /// missing from the program rather than that the code is wrong.
    pub undefined_symbol: Option<String>,
}

/// A diagnostic as plain values.
pub struct DiagnosticSpec {
    pub severity: Severity,
    pub file: Option<Seq<char>>,
    pub line: Option<u32>,
    pub col: Option<u32>,
    pub message: Seq<char>,
    pub snippet: Seq<Seq<char>>,
    pub undefined_symbol: Option<Seq<char>>,
}

impl View for Diagnostic {
    type V = DiagnosticSpec;

    open spec fn view(&self) -> DiagnosticSpec {
        DiagnosticSpec {
            severity: self.severity,
            file: opt_view(self.file),
            line: self.line,
            col: self.col,
            message: self.message@,
            snippet: views(self.snippet@),
            undefined_symbol: opt_view(self.undefined_symbol),
        }
    }
}

pub open spec fn diag_views(v: Seq<Diagnostic>) -> Seq<DiagnosticSpec> {
    v.map_values(|d: Diagnostic| d@)
}

/// A diagnostic with a severity and a message and nothing else.
pub open spec fn diag_new(severity: Severity, message: Seq<char>) -> DiagnosticSpec {
    DiagnosticSpec {
        severity,
        file: None,
        line: None,
        col: None,
        message,
        snippet: Seq::empty(),
        undefined_symbol: None,
    }
}

impl Diagnostic {
    /// A copy with the same contents.
    pub fn duplicate(&self) -> (d: Diagnostic)
        ensures
            d@ == self@,
    {
        Diagnostic {
            severity: self.severity,
            file: clone_opt(&self.file),
            line: self.line,
            col: self.col,
            message: self.message.clone(),
            snippet: clone_strings(&self.snippet),
            undefined_symbol: clone_opt(&self.undefined_symbol),
        }
    }

    fn new(severity: Severity, message: String) -> (d: Self)
        ensures
            d@ == diag_new(severity, message@),
    {
        let d = Diagnostic {
            severity,
            file: None,
            line: None,
            col: None,
            message,
            snippet: Vec::new(),
            undefined_symbol: None,
        };
        assert(views(d.snippet@) =~= Seq::<Seq<char>>::empty());
        d
    }
}

/// A location header seen, waiting for the severity line that ends it.
struct Pending {
    file: String,
    line: u32,
    col: u32,
    snippet: Vec<String>,
}

pub struct PendingSpec {
    pub file: Seq<char>,
    pub line: u32,
    pub col: u32,
    pub snippet: Seq<Seq<char>>,
}

impl View for Pending {
    type V = PendingSpec;

    closed spec fn view(&self) -> PendingSpec {
        PendingSpec {
            file: self.file@,
            line: self.line,
            col: self.col,
            snippet: views(self.snippet@),
        }
    }
}

spec fn pending_view(p: Option<Pending>) -> Option<PendingSpec> {
    match p {
        Some(x) => Some(x@),
        None => None,
    }
}

// ------------------------------------------------------------ the grammar

/// How many `\r` end the line.
pub open spec fn cr_suffix_len(s: Seq<char>) -> nat
    decreases s.len(),
{
    if s.len() > 0 && s.last() == '\r' {
        1 + cr_suffix_len(s.drop_last())
    } else {
        0
    }
}

/// The line with its trailing carriage returns removed.
pub open spec fn strip_cr(s: Seq<char>) -> Seq<char> {
    s.take(s.len() - cr_suffix_len(s))
}

/// The position of the last `c` before position `k`.
pub open spec fn last_before(s: Seq<char>, c: char, k: int) -> Option<int>
    decreases k,
{
    if k <= 0 {
        None
    } else if s[k - 1] == c {
        Some(k - 1)
    } else {
        last_before(s, c, k - 1)
    }
}

/// `str::rsplit_once(c)`.
pub open spec fn rsplit_once(s: Seq<char>, c: char) -> Option<(Seq<char>, Seq<char>)> {
    match last_before(s, c, s.len() as int) {
        Some(i) => Some((s.take(i), s.skip(i + 1))),
        None => None,
    }
}

/// A `u32` written in the field, with blanks around it allowed.
pub open spec fn field_u32(s: Seq<char>) -> Option<u32> {
    match parse_unsigned(trim(s), u32::MAX as nat) {
        Some(n) => Some(n as u32),
        None => None,
    }
}

/// `path:line:col:` and nothing else on the line. Split from the right, so a
/// Windows drive letter stays part of the path.
pub open spec fn spec_location(line: Seq<char>) -> Option<PendingSpec> {
    if line.len() == 0 || line.last() != ':' {
        None
    } else {
        let body = line.drop_last();
        if body.len() == 0 {
            None
        } else {
            match rsplit_once(body, ':') {
                None => None,
                Some((rest, col)) => match rsplit_once(rest, ':') {
                    None => None,
                    Some((file, lineno)) => match (field_u32(col), field_u32(lineno)) {
                        (Some(c), Some(l)) => if trim(file).len() == 0 {
                            None
                        } else {
                            Some(PendingSpec { file: trim(file), line: l, col: c, snippet: Seq::empty() })
                        },
                        _ => None,
                    },
                },
            }
        }
    }
}

/// `str::strip_prefix`.
pub open spec fn strip_prefix(s: Seq<char>, p: Seq<char>) -> Option<Seq<char>> {
    if starts_with(s, p) {
        Some(s.skip(p.len() as int))
    } else {
        None
    }
}

pub open spec fn sev_after(line: Seq<char>, p: Seq<char>, sev: Severity) -> Option<(Severity, Seq<char>)> {
    match strip_prefix(line, p) {
        Some(rest) => Some((sev, trim(rest))),
        None => None,
    }
}

/// `Error: ...`, `Warning: ...` and the other severity lines, tried in order.
pub open spec fn spec_severity(line: Seq<char>) -> Option<(Severity, Seq<char>)> {
    if starts_with(line, "Fatal Error:"@) {
        sev_after(line, "Fatal Error:"@, Severity::Error)
    } else if starts_with(line, "Internal Error:"@) {
        sev_after(line, "Internal Error:"@, Severity::Error)
    } else if starts_with(line, "Error:"@) {
        sev_after(line, "Error:"@, Severity::Error)
    } else if starts_with(line, "error:"@) {
        sev_after(line, "error:"@, Severity::Error)
    } else if starts_with(line, "Warning:"@) {
        sev_after(line, "Warning:"@, Severity::Warning)
    } else if starts_with(line, "warning:"@) {
        sev_after(line, "warning:"@, Severity::Warning)
    } else if starts_with(line, "Note:"@) {
        sev_after(line, "Note:"@, Severity::Note)
    } else {
        sev_after(line, "note:"@, Severity::Note)
    }
}

pub open spec fn tool_after(line: Seq<char>, p: Seq<char>) -> Option<Seq<char>> {
    match strip_prefix(line, p) {
        Some(rest) => Some(trim_start(rest)),
        None => None,
    }
}

/// `f951: `, `gfortran: `, `collect2: ` and friends, removed.
pub open spec fn spec_tool(line: Seq<char>) -> Option<Seq<char>> {
    if starts_with(line, "f951:"@) {
        tool_after(line, "f951:"@)
    } else if starts_with(line, "gfortran:"@) {
        tool_after(line, "gfortran:"@)
    } else if starts_with(line, "collect2:"@) {
        tool_after(line, "collect2:"@)
    } else if starts_with(line, "cc1:"@) {
        tool_after(line, "cc1:"@)
    } else {
        tool_after(line, "as:"@)
    }
}

pub open spec fn is_quote(c: char) -> bool {
    c == '`' || c == '\'' || c == '"'
}

/// Past the run of quotes that starts at `k`.
pub open spec fn skip_quotes(s: Seq<char>, k: int) -> int
    decreases s.len() - k,
{
    if 0 <= k < s.len() && is_quote(s[k]) {
        skip_quotes(s, k + 1)
    } else {
        k
    }
}

/// The first quote at or after `k`, or the end.
pub open spec fn next_quote(s: Seq<char>, k: int) -> int
    decreases s.len() - k,
{
    if k < 0 || k >= s.len() {
        s.len() as int
    } else if is_quote(s[k]) {
        k
    } else {
        next_quote(s, k + 1)
    }
}

pub open spec fn undef_marker() -> Seq<char> {
    "undefined reference to "@
}

/// The symbol a linker line says is undefined.
pub open spec fn spec_undefined(line: Seq<char>) -> Option<Seq<char>> {
    match find_from(line, undef_marker(), 0) {
        None => None,
        Some(i) => {
            let rest = line.skip(i + undef_marker().len());
            let rest = rest.skip(skip_quotes(rest, 0));
            let sym = trim(rest.take(next_quote(rest, 0)));
            if sym.len() == 0 {
                None
            } else {
                Some(sym)
            }
        },
    }
}

/// The message shown for an undefined symbol.
pub open spec fn undefined_message(sym: Seq<char>) -> Seq<char> {
    "undefined reference to `"@ + sym + "'"@
}

pub open spec fn with_pending(d: DiagnosticSpec, p: Option<PendingSpec>) -> DiagnosticSpec {
    match p {
        Some(p) => DiagnosticSpec {
            file: Some(p.file),
            line: Some(p.line),
            col: Some(p.col),
            snippet: p.snippet,
            ..d
        },
        None => d,
    }
}

/// One line (carriage returns already dropped) applied to the state.
pub open spec fn step_line(
    out: Seq<DiagnosticSpec>,
    pending: Option<PendingSpec>,
    line: Seq<char>,
) -> (Seq<DiagnosticSpec>, Option<PendingSpec>) {
    match spec_location(line) {
        Some(p) => (out, Some(p)),
        None => match spec_severity(line) {
            Some((sev, msg)) => (out.push(with_pending(diag_new(sev, msg), pending)), None),
            None => {
                let tool = match spec_tool(line) {
                    Some(rest) => spec_severity(rest),
                    None => None,
                };
                match tool {
                    Some((sev, msg)) => (out.push(diag_new(sev, msg)), pending),
                    None => match spec_undefined(line) {
                        Some(sym) => (
                            out.push(
                                DiagnosticSpec {
                                    undefined_symbol: Some(sym),
                                    ..diag_new(Severity::Error, undefined_message(sym))
                                },
                            ),
                            pending,
                        ),
                        None => match pending {
                            Some(p) => if trim(line).len() > 0 {
                                (out, Some(PendingSpec { snippet: p.snippet.push(line), ..p }))
                            } else {
                                (out, pending)
                            },
                            None => (out, pending),
                        },
                    },
                }
            },
        },
    }
}

/// The state after reading `s`: diagnostics, the pending header, and the
/// characters of the line not yet ended.
pub open spec fn scan(s: Seq<char>) -> (Seq<DiagnosticSpec>, Option<PendingSpec>, Seq<char>)
    decreases s.len(),
{
    if s.len() == 0 {
        (Seq::empty(), None, Seq::empty())
    } else {
        let (out, pending, cur) = scan(s.drop_last());
        if s.last() == '\n' {
            let (o, p) = step_line(out, pending, strip_cr(cur));
            (o, p, Seq::empty())
        } else {
            (out, pending, cur.push(s.last()))
        }
    }
}

/// Every diagnostic in the output, in order. A last line without a newline
/// still counts.
pub open spec fn spec_parse(s: Seq<char>) -> Seq<DiagnosticSpec> {
    let (out, pending, cur) = scan(s);
    if cur.len() > 0 {
        step_line(out, pending, strip_cr(cur)).0
    } else {
        out
    }
}

/// The text with every line ending written as `\r\n`, as Windows tools print.
pub open spec fn with_crlf(s: Seq<char>) -> Seq<char>
    decreases s.len(),
{
    if s.len() == 0 {
        Seq::empty()
    } else if s.last() == '\n' {
        with_crlf(s.drop_last()) + seq!['\r', '\n']
    } else {
        with_crlf(s.drop_last()).push(s.last())
    }
}

proof fn lemma_cr_suffix_bound(s: Seq<char>)
    ensures
        cr_suffix_len(s) <= s.len(),
    decreases s.len(),
{
    if s.len() > 0 && s.last() == '\r' {
        lemma_cr_suffix_bound(s.drop_last());
    }
}

proof fn lemma_strip_cr_push(cur: Seq<char>)
    ensures
        strip_cr(cur.push('\r')) == strip_cr(cur),
{
    lemma_cr_suffix_bound(cur);
    assert(cur.push('\r').drop_last() =~= cur);
    assert(cur.push('\r').take(cur.len() - cr_suffix_len(cur)) =~= cur.take(
        cur.len() - cr_suffix_len(cur),
    ));
}

proof fn lemma_scan_crlf(s: Seq<char>)
    ensures
        scan(with_crlf(s)) == scan(s),
    decreases s.len(),
{
    if s.len() > 0 {
        let p = s.drop_last();
        lemma_scan_crlf(p);
        let c = with_crlf(p);
        let (out, pending, cur) = scan(p);
        if s.last() == '\n' {
            let t = c + seq!['\r', '\n'];
            assert(with_crlf(s) == t);
            assert(t.drop_last() =~= c.push('\r'));
            assert(c.push('\r').drop_last() =~= c);
            assert(scan(c.push('\r')) == (out, pending, cur.push('\r')));
            lemma_strip_cr_push(cur);
            assert(scan(t) == scan(s));
        } else {
            assert(with_crlf(s) == c.push(s.last()));
            assert(c.push(s.last()).drop_last() =~= c);
        }
    }
}

/// Output whose lines end in `\r\n` reads exactly as the same output with
/// plain `\n`.
pub proof fn law_crlf_output_parses_identically(s: Seq<char>)
    ensures
        spec_parse(with_crlf(s)) == spec_parse(s),
{
    lemma_scan_crlf(s);
}

/// Text on one line: no line break and no carriage return in it.
pub open spec fn one_line(m: Seq<char>) -> bool {
    forall|i: int| 0 <= i < m.len() ==> m[i] != '\n' && m[i] != '\r'
}

/// The prefixes that mark an error.
pub open spec fn error_prefix(p: Seq<char>) -> bool {
    p == "Error:"@ || p == "error:"@ || p == "Fatal Error:"@ || p == "Internal Error:"@
}

/// The prefixes that mark a warning.
pub open spec fn warning_prefix(p: Seq<char>) -> bool {
    p == "Warning:"@ || p == "warning:"@
}

/// The prefixes that mark a note.
pub open spec fn note_prefix(p: Seq<char>) -> bool {
    p == "Note:"@ || p == "note:"@
}

/// What may stand before a severity on a line: nothing, or the name of the
/// tool that printed it.
pub open spec fn tool_lead(t: Seq<char>) -> bool {
    t == ""@ || t == "f951: "@ || t == "gfortran: "@ || t == "collect2: "@ || t == "cc1: "@ || t
        == "as: "@
}

proof fn lemma_scan_one_line(s: Seq<char>)
    requires
        forall|i: int| 0 <= i < s.len() ==> s[i] != '\n',
    ensures
        scan(s) == (Seq::<DiagnosticSpec>::empty(), None::<PendingSpec>, s),
    decreases s.len(),
{
    if s.len() > 0 {
        lemma_scan_one_line(s.drop_last());
        assert(s.drop_last().push(s.last()) =~= s);
    }
}

proof fn lemma_parse_one_line(l: Seq<char>)
    requires
        one_line(l),
    ensures
        spec_parse(l + "\n"@) == step_line(Seq::empty(), None, l).0,
{
    reveal_strlit("\n");
    let s = l + "\n"@;
    assert(s.drop_last() =~= l);
    lemma_scan_one_line(l);
    assert(cr_suffix_len(l) == 0);
    assert(l.take(l.len() as int) =~= l);
}

proof fn lemma_not_starting(s: Seq<char>, p: Seq<char>, k: int)
    requires
        0 <= k < s.len(),
        k < p.len(),
        s[k] != p[k],
    ensures
        !starts_with(s, p),
{
    if starts_with(s, p) {
        assert(s.take(p.len() as int)[k] == p[k]);
    }
}

proof fn lemma_starting(p: Seq<char>, rest: Seq<char>)
    ensures
        starts_with(p + rest, p),
        (p + rest).skip(p.len() as int) == rest,
{
    assert((p + rest).take(p.len() as int) =~= p);
    assert((p + rest).skip(p.len() as int) =~= rest);
}

/// What a line that begins with a severity prefix says.
proof fn lemma_severity_prefix(p: Seq<char>, m: Seq<char>)
    requires
        error_prefix(p) || warning_prefix(p) || note_prefix(p),
    ensures
        error_prefix(p) ==> spec_severity(p + m) == Some((Severity::Error, trim(m))),
        warning_prefix(p) ==> spec_severity(p + m) == Some((Severity::Warning, trim(m))),
        note_prefix(p) ==> spec_severity(p + m) == Some((Severity::Note, trim(m))),
{
    reveal_strlit("Fatal Error:");
    reveal_strlit("Internal Error:");
    reveal_strlit("Error:");
    reveal_strlit("error:");
    reveal_strlit("Warning:");
    reveal_strlit("warning:");
    reveal_strlit("Note:");
    reveal_strlit("note:");
    let l = p + m;
    lemma_starting(p, m);
    assert(l[0] == p[0]);
    let firsts = seq!["Fatal Error:"@, "Internal Error:"@, "Error:"@, "error:"@, "Warning:"@, "warning:"@, "Note:"@];
    assert forall|i: int| 0 <= i < firsts.len() && firsts[i] != p implies !starts_with(l, #[trigger] firsts[i]) by {
        lemma_not_starting(l, firsts[i], 0);
    }
    assert(firsts[0] == "Fatal Error:"@);
    assert(firsts[1] == "Internal Error:"@);
    assert(firsts[2] == "Error:"@);
    assert(firsts[3] == "error:"@);
    assert(firsts[4] == "Warning:"@);
    assert(firsts[5] == "warning:"@);
    assert(firsts[6] == "Note:"@);
}

/// A line that begins with a tool's name has no severity of its own.
proof fn lemma_tool_line(t: Seq<char>, rest: Seq<char>)
    requires
        tool_lead(t),
        t.len() > 0,
        rest.len() > 0,
        !is_ws(rest[0]),
    ensures
        spec_severity(t + rest) is None,
        spec_tool(t + rest) == Some(rest),
{
    reveal_strlit("Fatal Error:");
    reveal_strlit("Internal Error:");
    reveal_strlit("Error:");
    reveal_strlit("error:");
    reveal_strlit("Warning:");
    reveal_strlit("warning:");
    reveal_strlit("Note:");
    reveal_strlit("note:");
    reveal_strlit("");
    reveal_strlit("f951: ");
    reveal_strlit("gfortran: ");
    reveal_strlit("collect2: ");
    reveal_strlit("cc1: ");
    reveal_strlit("as: ");
    reveal_strlit("f951:");
    reveal_strlit("gfortran:");
    reveal_strlit("collect2:");
    reveal_strlit("cc1:");
    reveal_strlit("as:");
    let l = t + rest;
    assert(l[0] == t[0]);
    assert(l[1] == t[1]);
    let sevs = seq!["Fatal Error:"@, "Internal Error:"@, "Error:"@, "error:"@, "Warning:"@, "warning:"@, "Note:"@, "note:"@];
    assert forall|i: int| 0 <= i < sevs.len() implies !starts_with(l, #[trigger] sevs[i]) by {
        lemma_not_starting(l, sevs[i], 0);
    }
    assert(sevs[0] == "Fatal Error:"@);
    assert(sevs[1] == "Internal Error:"@);
    assert(sevs[2] == "Error:"@);
    assert(sevs[3] == "error:"@);
    assert(sevs[4] == "Warning:"@);
    assert(sevs[5] == "warning:"@);
    assert(sevs[6] == "Note:"@);
    assert(sevs[7] == "note:"@);
    reveal_strlit(" ");
    let tool = t.drop_last();
    assert(t.last() == ' ') by {
        if t == "f951: "@ {
        } else if t == "gfortran: "@ {
        } else if t == "collect2: "@ {
        } else if t == "cc1: "@ {
        } else {
        }
    }
    assert(t =~= tool + " "@);
    assert(l =~= tool + (" "@ + rest));
    lemma_starting(tool, " "@ + rest);
    let after = " "@ + rest;
    assert(ws_prefix_len(after.drop_first()) == 0) by {
        assert(after.drop_first() =~= rest);
    }
    assert(ws_prefix_len(after) == 1);
    assert(trim_start(after) =~= rest);
    if t == "f951: "@ {
        assert(tool =~= "f951:"@);
    } else if t == "gfortran: "@ {
        assert(tool =~= "gfortran:"@);
        lemma_not_starting(l, "f951:"@, 0);
    } else if t == "collect2: "@ {
        assert(tool =~= "collect2:"@);
        lemma_not_starting(l, "f951:"@, 0);
        lemma_not_starting(l, "gfortran:"@, 0);
    } else if t == "cc1: "@ {
        assert(tool =~= "cc1:"@);
        lemma_not_starting(l, "f951:"@, 0);
        lemma_not_starting(l, "gfortran:"@, 0);
        lemma_not_starting(l, "collect2:"@, 1);
    } else {
        assert(tool =~= "as:"@);
        lemma_not_starting(l, "f951:"@, 0);
        lemma_not_starting(l, "gfortran:"@, 0);
        lemma_not_starting(l, "collect2:"@, 0);
        lemma_not_starting(l, "cc1:"@, 0);
    }
}

proof fn lemma_severity_line(lead: Seq<char>, p: Seq<char>, m: Seq<char>)
    requires
        tool_lead(lead),
        error_prefix(p) || warning_prefix(p) || note_prefix(p),
        one_line(m),
        m.len() > 0,
        m.last() != ':',
    ensures
        spec_parse(lead + p + m + "\n"@).len() == 1,
        spec_parse(lead + p + m + "\n"@)[0] == diag_new(spec_severity(p + m).unwrap().0, trim(m)),
{
    reveal_strlit("Fatal Error:");
    reveal_strlit("Internal Error:");
    reveal_strlit("Error:");
    reveal_strlit("error:");
    reveal_strlit("Warning:");
    reveal_strlit("warning:");
    reveal_strlit("Note:");
    reveal_strlit("note:");
    reveal_strlit("");
    reveal_strlit("f951: ");
    reveal_strlit("gfortran: ");
    reveal_strlit("collect2: ");
    reveal_strlit("cc1: ");
    reveal_strlit("as: ");
    let l = lead + p + m;
    assert(one_line(l)) by {
        assert forall|i: int| 0 <= i < l.len() implies l[i] != '\n' && l[i] != '\r' by {
            if i >= lead.len() + p.len() {
                assert(l[i] == m[i - lead.len() - p.len()]);
            }
        }
    }
    lemma_parse_one_line(l);
    assert(l.last() == m.last());
    assert(spec_location(l) is None);
    lemma_severity_prefix(p, m);
    if lead.len() == 0 {
        assert(l =~= p + m);
    } else {
        assert(l =~= lead + (p + m));
        assert((p + m)[0] == p[0]);
        lemma_tool_line(lead, p + m);
    }
}

/// A line that says `error:` (or `Error:`, `Fatal Error:`, `Internal
/// Error:`), on its own or after the name of the tool that printed it, such
/// as the linker's `collect2: error: ld returned 1 exit status`, is read as
/// exactly one diagnostic: an error, with the rest of the line as its message.
pub proof fn law_an_error_line_is_an_error(lead: Seq<char>, p: Seq<char>, m: Seq<char>)
    requires
        tool_lead(lead),
        error_prefix(p),
        one_line(m),
        m.len() > 0,
        m.last() != ':',
    ensures
        spec_parse(lead + p + m + "\n"@).len() == 1,
        spec_parse(lead + p + m + "\n"@)[0].severity == Severity::Error,
        spec_parse(lead + p + m + "\n"@)[0].message == trim(m),
{
    lemma_severity_prefix(p, m);
    lemma_severity_line(lead, p, m);
}

/// Likewise a `warning:` or `Warning:` line is exactly one warning.
pub proof fn law_a_warning_line_is_a_warning(lead: Seq<char>, p: Seq<char>, m: Seq<char>)
    requires
        tool_lead(lead),
        warning_prefix(p),
        one_line(m),
        m.len() > 0,
        m.last() != ':',
    ensures
        spec_parse(lead + p + m + "\n"@).len() == 1,
        spec_parse(lead + p + m + "\n"@)[0].severity == Severity::Warning,
        spec_parse(lead + p + m + "\n"@)[0].message == trim(m),
{
    lemma_severity_prefix(p, m);
    lemma_severity_line(lead, p, m);
}

/// And a `note:` or `Note:` line is exactly one note.
pub proof fn law_a_note_line_is_a_note(lead: Seq<char>, p: Seq<char>, m: Seq<char>)
    requires
        tool_lead(lead),
        note_prefix(p),
        one_line(m),
        m.len() > 0,
        m.last() != ':',
    ensures
        spec_parse(lead + p + m + "\n"@).len() == 1,
        spec_parse(lead + p + m + "\n"@)[0].severity == Severity::Note,
        spec_parse(lead + p + m + "\n"@)[0].message == trim(m),
{
    lemma_severity_prefix(p, m);
    lemma_severity_line(lead, p, m);
}

/// A linker symbol as it is quoted: not empty, no quote, no blank at either
/// end, on one line.
pub open spec fn plain_symbol(sym: Seq<char>) -> bool {
    &&& sym.len() > 0
    &&& one_line(sym)
    &&& forall|i: int| 0 <= i < sym.len() ==> !is_quote(#[trigger] sym[i])
    &&& !is_ws(sym[0])
    &&& !is_ws(sym.last())
}

proof fn lemma_next_quote_at_end(sym: Seq<char>, k: int)
    requires
        forall|i: int| 0 <= i < sym.len() ==> !is_quote(#[trigger] sym[i]),
        0 <= k <= sym.len(),
    ensures
        next_quote(sym + seq!['\''], k) == sym.len(),
    decreases sym.len() - k,
{
    let s = sym + seq!['\''];
    if k < sym.len() {
        assert(s[k] == sym[k]);
        lemma_next_quote_at_end(sym, k + 1);
    } else {
        assert(s[k] == '\'');
    }
}

proof fn lemma_trim_plain(sym: Seq<char>)
    requires
        sym.len() > 0,
        !is_ws(sym[0]),
        !is_ws(sym.last()),
    ensures
        trim(sym) == sym,
{
    assert(ws_prefix_len(sym) == 0);
    assert(sym.skip(0) =~= sym);
    assert(crate::textops::ws_suffix_len(sym) == 0);
    assert(sym.take(sym.len() as int) =~= sym);
}

/// The linker's `undefined reference to `sym'` is read as one error that
/// names the symbol, whatever the symbol.
pub proof fn law_an_undefined_reference_is_an_error_naming_its_symbol(sym: Seq<char>)
    requires
        plain_symbol(sym),
    ensures
        spec_parse(undef_marker() + seq!['`'] + sym + seq!['\''] + "\n"@).len() == 1,
        spec_parse(undef_marker() + seq!['`'] + sym + seq!['\''] + "\n"@)[0].severity == Severity::Error,
        spec_parse(undef_marker() + seq!['`'] + sym + seq!['\''] + "\n"@)[0].undefined_symbol == Some(sym),
        spec_parse(undef_marker() + seq!['`'] + sym + seq!['\''] + "\n"@)[0].message == undefined_message(sym),
{
    reveal_strlit("undefined reference to ");
    reveal_strlit("Fatal Error:");
    reveal_strlit("Internal Error:");
    reveal_strlit("Error:");
    reveal_strlit("error:");
    reveal_strlit("Warning:");
    reveal_strlit("warning:");
    reveal_strlit("Note:");
    reveal_strlit("note:");
    reveal_strlit("f951:");
    reveal_strlit("gfortran:");
    reveal_strlit("collect2:");
    reveal_strlit("cc1:");
    reveal_strlit("as:");
    let m = undef_marker();
    let l = m + seq!['`'] + sym + seq!['\''];
    assert(one_line(l)) by {
        assert forall|i: int| 0 <= i < l.len() implies l[i] != '\n' && l[i] != '\r' by {
            if m.len() + 1 <= i < m.len() + 1 + sym.len() {
                assert(l[i] == sym[i - m.len() - 1]);
            }
        }
    }
    lemma_parse_one_line(l);
    assert(l.last() == '\'');
    assert(spec_location(l) is None);
    assert(l[0] == 'u');
    let heads = seq!["Fatal Error:"@, "Internal Error:"@, "Error:"@, "error:"@, "Warning:"@, "warning:"@, "Note:"@, "note:"@, "f951:"@, "gfortran:"@, "collect2:"@, "cc1:"@, "as:"@];
    assert forall|i: int| 0 <= i < heads.len() implies !starts_with(l, #[trigger] heads[i]) by {
        lemma_not_starting(l, heads[i], 0);
    }
    assert(heads[0] == "Fatal Error:"@);
    assert(heads[1] == "Internal Error:"@);
    assert(heads[2] == "Error:"@);
    assert(heads[3] == "error:"@);
    assert(heads[4] == "Warning:"@);
    assert(heads[5] == "warning:"@);
    assert(heads[6] == "Note:"@);
    assert(heads[7] == "note:"@);
    assert(heads[8] == "f951:"@);
    assert(heads[9] == "gfortran:"@);
    assert(heads[10] == "collect2:"@);
    assert(heads[11] == "cc1:"@);
    assert(heads[12] == "as:"@);
    assert(spec_severity(l) is None);
    assert(spec_tool(l) is None);
    assert(l.subrange(0, m.len() as int) =~= m);
    assert(find_from(l, m, 0) == Some(0int));
    let rest = l.skip(m.len() as int);
    assert(rest =~= seq!['`'] + (sym + seq!['\'']));
    assert(is_quote(rest[0]));
    assert(rest[1] == sym[0]);
    assert(!is_quote(sym[0]));
    assert(skip_quotes(rest, 1) == 1);
    assert(skip_quotes(rest, 0) == 1);
    let r2 = rest.skip(1);
    assert(r2 =~= sym + seq!['\'']);
    lemma_next_quote_at_end(sym, 0);
    assert(r2.take(sym.len() as int) =~= sym);
    lemma_trim_plain(sym);
    assert(spec_undefined(l) == Some(sym));
}

proof fn lemma_scan_extend(s: Seq<char>, t: Seq<char>)
    requires
        forall|i: int| 0 <= i < t.len() ==> t[i] != '\n',
    ensures
        scan(s + t) == (scan(s).0, scan(s).1, scan(s).2 + t),
    decreases t.len(),
{
    if t.len() == 0 {
        assert(s + t =~= s);
        assert(scan(s).2 + t =~= scan(s).2);
    } else {
        let t0 = t.drop_last();
        lemma_scan_extend(s, t0);
        assert((s + t).drop_last() =~= s + t0);
        assert(scan(s).2 + t0.push(t.last()) =~= scan(s).2 + t);
        assert(t0.push(t.last()) =~= t);
    }
}

proof fn lemma_parse_two_lines(l1: Seq<char>, l2: Seq<char>)
    requires
        one_line(l1),
        one_line(l2),
    ensures
        spec_parse(l1 + "\n"@ + l2 + "\n"@) == step_line(
            step_line(Seq::empty(), None, l1).0,
            step_line(Seq::empty(), None, l1).1,
            l2,
        ).0,
{
    reveal_strlit("\n");
    let s1 = l1 + "\n"@;
    assert(s1.drop_last() =~= l1);
    lemma_scan_one_line(l1);
    assert(l1.take(l1.len() as int) =~= l1);
    assert(cr_suffix_len(l1) == 0);
    let st = step_line(Seq::empty(), None, l1);
    assert(scan(s1) == (st.0, st.1, Seq::<char>::empty()));
    lemma_scan_extend(s1, l2);
    assert(Seq::<char>::empty() + l2 =~= l2);
    let s2 = s1 + l2 + "\n"@;
    assert(s2.drop_last() =~= s1 + l2);
    assert(cr_suffix_len(l2) == 0);
    assert(l2.take(l2.len() as int) =~= l2);
    assert(l1 + "\n"@ + l2 + "\n"@ =~= s2);
}

proof fn lemma_last_before(a: Seq<char>, b: Seq<char>, c: char, k: int)
    requires
        forall|i: int| 0 <= i < b.len() ==> b[i] != c,
        a.len() < k <= a.len() + 1 + b.len(),
    ensures
        last_before(a + seq![c] + b, c, k) == Some(a.len() as int),
    decreases k,
{
    let s = a + seq![c] + b;
    if k - 1 > a.len() {
        assert(s[k - 1] == b[k - 1 - a.len() - 1]);
        lemma_last_before(a, b, c, k - 1);
    } else {
        assert(s[k - 1] == c);
    }
}

proof fn lemma_field_decimal(n: nat)
    requires
        n <= u32::MAX,
    ensures
        field_u32(decimal(n)) == Some(n as u32),
{
    crate::textops::lemma_decimal(n);
    let d = decimal(n);
    assert(!is_ws(d[0]));
    assert(!is_ws(d.last()));
    lemma_trim_plain(d);
    assert(d[0] != '+');
}

/// A `file:line:col:` header names where the diagnostic that follows it is:
/// an error after it carries that file, line and column, whatever they are.
pub proof fn law_a_location_header_places_the_next_diagnostic(file: Seq<char>, line: nat, col: nat, m: Seq<char>)
    requires
        one_line(file),
        trim(file).len() > 0,
        line <= u32::MAX,
        col <= u32::MAX,
        one_line(m),
        m.len() > 0,
        m.last() != ':',
    ensures
        ({
            let out = spec_parse(file + ":"@ + decimal(line) + ":"@ + decimal(col) + ":"@ + "\n"@ + "Error:"@ + m + "\n"@);
            &&& out.len() == 1
            &&& out[0].severity == Severity::Error
            &&& out[0].file == Some(trim(file))
            &&& out[0].line == Some(line as u32)
            &&& out[0].col == Some(col as u32)
            &&& out[0].message == trim(m)
        }),
{
    reveal_strlit(":");
    reveal_strlit("\n");
    reveal_strlit("Error:");
    let dl = decimal(line);
    let dc = decimal(col);
    crate::textops::lemma_decimal(line);
    crate::textops::lemma_decimal(col);
    let l1 = file + ":"@ + dl + ":"@ + dc + ":"@;
    let l2 = "Error:"@ + m;
    assert(one_line(l1)) by {
        assert forall|i: int| 0 <= i < l1.len() implies l1[i] != '\n' && l1[i] != '\r' by {
            if i < file.len() {
                assert(l1[i] == file[i]);
            } else if file.len() + 1 <= i < file.len() + 1 + dl.len() {
                assert(l1[i] == dl[i - file.len() - 1]);
                assert(crate::textops::is_digit(dl[i - file.len() - 1]));
            } else if file.len() + 2 + dl.len() <= i < file.len() + 2 + dl.len() + dc.len() {
                assert(l1[i] == dc[i - file.len() - 2 - dl.len()]);
                assert(crate::textops::is_digit(dc[i - file.len() - 2 - dl.len()]));
            }
        }
    }
    assert(one_line(l2)) by {
        assert forall|i: int| 0 <= i < l2.len() implies l2[i] != '\n' && l2[i] != '\r' by {
            if i >= 6 {
                assert(l2[i] == m[i - 6]);
            }
        }
    }
    lemma_parse_two_lines(l1, l2);
    assert(l1 + "\n"@ + l2 + "\n"@ =~= file + ":"@ + dl + ":"@ + dc + ":"@ + "\n"@ + "Error:"@ + m + "\n"@);
    // the header
    let body = l1.drop_last();
    assert(body =~= (file + ":"@ + dl) + seq![':'] + dc);
    assert forall|i: int| 0 <= i < dc.len() implies dc[i] != ':' by {
        assert(crate::textops::is_digit(dc[i]));
    }
    lemma_last_before(file + ":"@ + dl, dc, ':', body.len() as int);
    assert(body.take((file + ":"@ + dl).len() as int) =~= file + ":"@ + dl);
    assert(body.skip((file + ":"@ + dl).len() as int + 1) =~= dc);
    let rest = file + ":"@ + dl;
    assert(rest =~= file + seq![':'] + dl);
    assert forall|i: int| 0 <= i < dl.len() implies dl[i] != ':' by {
        assert(crate::textops::is_digit(dl[i]));
    }
    lemma_last_before(file, dl, ':', rest.len() as int);
    assert(rest.take(file.len() as int) =~= file);
    assert(rest.skip(file.len() as int + 1) =~= dl);
    lemma_field_decimal(line);
    lemma_field_decimal(col);
    assert(spec_location(l1) == Some(PendingSpec { file: trim(file), line: line as u32, col: col as u32, snippet: Seq::empty() }));
    // the error line
    lemma_severity_prefix("Error:"@, m);
    assert(error_prefix("Error:"@));
    assert(l2.last() == m.last());
}

// ------------------------------------------------------------ the readers

fn cr_stripped(s: &[char]) -> (r: &[char])
    ensures
        r@ == strip_cr(s@),
{
    let mut k: usize = s.len();
    assert(s@.take(s@.len() as int) =~= s@);
    while k > 0 && s[k - 1] == '\r'
        invariant
            k <= s@.len(),
            cr_suffix_len(s@) == (s@.len() - k) + cr_suffix_len(s@.take(k as int)),
        decreases k,
    {
        assert(s@.take(k as int).drop_last() =~= s@.take(k - 1));
        k -= 1;
    }
    assert(cr_suffix_len(s@.take(k as int)) == 0);
    slice_range(s, 0, k)
}

fn last_index(s: &[char], c: char) -> (r: Option<usize>)
    ensures
        match r {
            Some(i) => i < s@.len(),
            None => true,
        },
        match r {
            Some(i) => last_before(s@, c, s@.len() as int) == Some(i as int),
            None => last_before(s@, c, s@.len() as int) is None,
        },
{
    let mut k: usize = s.len();
    while k > 0
        invariant
            k <= s@.len(),
            last_before(s@, c, s@.len() as int) == last_before(s@, c, k as int),
        decreases k,
    {
        if s[k - 1] == c {
            return Some(k - 1);
        }
        k -= 1;
    }
    None
}

fn read_u32(s: &[char]) -> (r: Option<u32>)
    ensures
        r == field_u32(s@),
{
    let (a, z) = trim_bounds(s);
    match parse_unsigned_exec(slice_range(s, a, z), u32::MAX as u64) {
        Some(n) => Some(n as u32),
        None => None,
    }
}

fn location(line: &[char]) -> (r: Option<Pending>)
    ensures
        pending_view(r) == spec_location(line@),
{
    let n = line.len();
    if n == 0 || line[n - 1] != ':' {
        return None;
    }
    let body = slice_range(line, 0, n - 1);
    assert(body@ == line@.drop_last());
    if body.len() == 0 {
        return None;
    }
    let i = match last_index(body, ':') {
        Some(i) => i,
        None => return None,
    };
    let rest = slice_range(body, 0, i);
    let col = slice_from(body, i + 1);
    assert(rest@ =~= body@.take(i as int));
    assert(rsplit_once(body@, ':') == Some((rest@, col@)));
    let j = match last_index(rest, ':') {
        Some(j) => j,
        None => {
            assert(rsplit_once(rest@, ':') is None);
            assert(spec_location(line@) is None);
            return None;
        },
    };
    let file = slice_range(rest, 0, j);
    let lineno = slice_from(rest, j + 1);
    assert(file@ =~= rest@.take(j as int));
    let c = read_u32(col);
    let l = read_u32(lineno);
    if c.is_none() || l.is_none() {
        return None;
    }
    let (a, z) = trim_bounds(file);
    if a == z {
        return None;
    }
    let p = Pending {
        file: string_from_chars(slice_range(file, a, z)),
        line: l.unwrap(),
        col: c.unwrap(),
        snippet: Vec::new(),
    };
    assert(views(p.snippet@) =~= Seq::<Seq<char>>::empty());
    Some(p)
}

fn after_prefix<'a>(s: &'a [char], lit: &str) -> (r: Option<&'a [char]>)
    ensures
        match strip_prefix(s@, lit@) {
            Some(t) => r is Some && r.unwrap()@ == t,
            None => r is None,
        },
{
    let p = chars_of(lit);
    if chars_start_with(s, p.as_slice()) {
        Some(slice_from(s, p.len()))
    } else {
        None
    }
}

fn trimmed_string(s: &[char]) -> (r: String)
    ensures
        r@ == trim(s@),
{
    let (a, z) = trim_bounds(s);
    string_from_chars(slice_range(s, a, z))
}

fn severity_after(line: &[char], lit: &str, sev: Severity) -> (r: Option<(Severity, String)>)
    ensures
        match sev_after(line@, lit@, sev) {
            Some((v, m)) => r is Some && r.unwrap().0 == v && r.unwrap().1@ == m,
            None => r is None,
        },
{
    match after_prefix(line, lit) {
        Some(rest) => Some((sev, trimmed_string(rest))),
        None => None,
    }
}

fn severity(line: &[char]) -> (r: Option<(Severity, String)>)
    ensures
        match spec_severity(line@) {
            Some((v, m)) => r is Some && r.unwrap().0 == v && r.unwrap().1@ == m,
            None => r is None,
        },
{
    if let Some(r) = severity_after(line, "Fatal Error:", Severity::Error) {
        return Some(r);
    }
    if let Some(r) = severity_after(line, "Internal Error:", Severity::Error) {
        return Some(r);
    }
    if let Some(r) = severity_after(line, "Error:", Severity::Error) {
        return Some(r);
    }
    if let Some(r) = severity_after(line, "error:", Severity::Error) {
        return Some(r);
    }
    if let Some(r) = severity_after(line, "Warning:", Severity::Warning) {
        return Some(r);
    }
    if let Some(r) = severity_after(line, "warning:", Severity::Warning) {
        return Some(r);
    }
    if let Some(r) = severity_after(line, "Note:", Severity::Note) {
        return Some(r);
    }
    severity_after(line, "note:", Severity::Note)
}

fn tool_rest<'a>(line: &'a [char], lit: &str) -> (r: Option<&'a [char]>)
    ensures
        match tool_after(line@, lit@) {
            Some(t) => r is Some && r.unwrap()@ == t,
            None => r is None,
        },
{
    match after_prefix(line, lit) {
        Some(rest) => {
            let a = trim_start_index(rest);
            Some(slice_from(rest, a))
        },
        None => None,
    }
}

fn strip_tool_prefix<'a>(line: &'a [char]) -> (r: Option<&'a [char]>)
    ensures
        match spec_tool(line@) {
            Some(t) => r is Some && r.unwrap()@ == t,
            None => r is None,
        },
{
    if let Some(r) = tool_rest(line, "f951:") {
        return Some(r);
    }
    if let Some(r) = tool_rest(line, "gfortran:") {
        return Some(r);
    }
    if let Some(r) = tool_rest(line, "collect2:") {
        return Some(r);
    }
    if let Some(r) = tool_rest(line, "cc1:") {
        return Some(r);
    }
    tool_rest(line, "as:")
}

fn is_quote_char(c: char) -> (r: bool)
    ensures
        r == is_quote(c),
{
    c == '`' || c == '\'' || c == '"'
}

fn undefined_symbol(line: &[char]) -> (r: Option<String>)
    ensures
        opt_view(r) == spec_undefined(line@),
{
    let marker = chars_of("undefined reference to ");
    let i = match find_chars(line, marker.as_slice()) {
        Some(i) => i,
        None => return None,
    };
    let total = line.len();
    assert(i + marker@.len() <= total);
    let rest = slice_from(line, i + marker.len());
    let mut q: usize = 0;
    while q < rest.len() && is_quote_char(rest[q])
        invariant
            q <= rest@.len(),
            skip_quotes(rest@, 0) == skip_quotes(rest@, q as int),
        decreases rest.len() - q,
    {
        q += 1;
    }
    let rest2 = slice_from(rest, q);
    let mut e: usize = 0;
    while e < rest2.len() && !is_quote_char(rest2[e])
        invariant
            e <= rest2@.len(),
            next_quote(rest2@, 0) == next_quote(rest2@, e as int),
        decreases rest2.len() - e,
    {
        e += 1;
    }
    let sym = slice_range(rest2, 0, e);
    assert(skip_quotes(rest@, q as int) == q);
    assert(next_quote(rest2@, e as int) == e);
    assert(sym@ =~= rest2@.take(e as int));
    let (a, z) = trim_bounds(sym);
    if a == z {
        None
    } else {
        Some(string_from_chars(slice_range(sym, a, z)))
    }
}

fn line_string(line: &[char]) -> (r: String)
    ensures
        r@ == line@,
{
    string_from_chars(line)
}

/// One line applied to the state, as `step_line` says.
fn take_line(out: &mut Vec<Diagnostic>, pending: &mut Option<Pending>, line: &[char])
    ensures
        (diag_views(final(out)@), pending_view(*final(pending))) == step_line(
            diag_views(old(out)@),
            pending_view(*old(pending)),
            line@,
        ),
{
    if let Some(p) = location(line) {
        *pending = Some(p);
        return ;
    }
    if let Some((sev, msg)) = severity(line) {
        let mut d = Diagnostic::new(sev, msg);
        let taken = pending.take();
        if let Some(p) = taken {
            d = Diagnostic {
                severity: d.severity,
                file: Some(p.file),
                line: Some(p.line),
                col: Some(p.col),
                message: d.message,
                snippet: p.snippet,
                undefined_symbol: None,
            };
        }
        out.push(d);
        assert(diag_views(out@) =~= diag_views(old(out)@).push(d@));
        return ;
    }
    let tool = match strip_tool_prefix(line) {
        Some(rest) => severity(rest),
        None => None,
    };
    if let Some((sev, msg)) = tool {
        let d = Diagnostic::new(sev, msg);
        out.push(d);
        assert(diag_views(out@) =~= diag_views(old(out)@).push(d@));
        return ;
    }
    if let Some(sym) = undefined_symbol(line) {
        let mut m: Vec<char> = Vec::new();
        push_str(&mut m, "undefined reference to `");
        let sc = chars_of(sym.as_str());
        push_chars(&mut m, sc.as_slice());
        push_str(&mut m, "'");
        let d = Diagnostic {
            severity: Severity::Error,
            file: None,
            line: None,
            col: None,
            message: string_from_chars(m.as_slice()),
            snippet: Vec::new(),
            undefined_symbol: Some(sym),
        };
        assert(views(d.snippet@) =~= Seq::<Seq<char>>::empty());
        out.push(d);
        assert(diag_views(out@) =~= diag_views(old(out)@).push(d@));
        return ;
    }
    let (a, z) = trim_bounds(line);
    if a < z {
        if let Some(p) = pending {
            let ghost before = p.snippet@;
            p.snippet.push(line_string(line));
            assert(views(p.snippet@) =~= views(before).push(line@));
        }
    }
}

/// A copy of a list of diagnostics.
pub fn duplicate_all(v: &Vec<Diagnostic>) -> (r: Vec<Diagnostic>)
    ensures
        diag_views(r@) == diag_views(v@),
{
    let mut r: Vec<Diagnostic> = Vec::new();
    for i in 0..v.len()
        invariant
            diag_views(r@) == diag_views(v@.take(i as int)),
    {
        let d = v[i].duplicate();
        let ghost before = r@;
        r.push(d);
        assert(diag_views(r@) =~= diag_views(before).push(d@));
        assert(diag_views(v@.take(i + 1)) =~= diag_views(v@.take(i as int)).push(v@[i as int]@));
    }
    assert(v@.take(v@.len() as int) =~= v@);
    r
}

/// Every diagnostic in gfortran's output, in the order it printed them.
pub fn parse(output: &str) -> (r: Vec<Diagnostic>)
    ensures
        diag_views(r@) == spec_parse(output@),
{
    let cs = chars_of(output);
    let mut out: Vec<Diagnostic> = Vec::new();
    let mut pending: Option<Pending> = None;
    let mut start: usize = 0;
    let mut i: usize = 0;
    assert(diag_views(out@) =~= Seq::<DiagnosticSpec>::empty());
    while i < cs.len()
        invariant
            start <= i <= cs@.len(),
            cs@ == output@,
            scan(cs@.take(i as int)) == (
                diag_views(out@),
                pending_view(pending),
                cs@.subrange(start as int, i as int),
            ),
        decreases cs.len() - i,
    {
        assert(cs@.take(i + 1).drop_last() =~= cs@.take(i as int));
        if cs[i] == '\n' {
            let line = cr_stripped(slice_range(cs.as_slice(), start, i));
            take_line(&mut out, &mut pending, line);
            start = i + 1;
            assert(cs@.subrange(start as int, i + 1) =~= Seq::<char>::empty());
        } else {
            assert(cs@.subrange(start as int, i + 1) =~= cs@.subrange(start as int, i as int).push(
                cs@[i as int],
            ));
        }
        i += 1;
    }
    assert(cs@.take(i as int) =~= cs@);
    if start < cs.len() {
        let line = cr_stripped(slice_range(cs.as_slice(), start, cs.len()));
        take_line(&mut out, &mut pending, line);
    }
    out
}

// ------------------------------------------------------------ after the build

/// The file name after the last `/` or `\`.
pub open spec fn last_sep(s: Seq<char>, k: int) -> int
    decreases k,
{
    if k <= 0 {
        -1
    } else if s[k - 1] == '/' || s[k - 1] == '\\' {
        k - 1
    } else {
        last_sep(s, k - 1)
    }
}

pub open spec fn base_name(s: Seq<char>) -> Seq<char> {
    s.skip(last_sep(s, s.len() as int) + 1)
}

/// The first staged source, at or after `k`, staged under `name`.
pub open spec fn find_staged(staged: Seq<StagedSource>, name: Seq<char>, k: int) -> Option<int>
    decreases staged.len() - k,
{
    if k < 0 || k >= staged.len() {
        None
    } else if staged[k].staged_name@ == name {
        Some(k)
    } else {
        find_staged(staged, name, k + 1)
    }
}

/// The diagnostic with its staged file name replaced by the user's.
pub open spec fn renamed(d: DiagnosticSpec, staged: Seq<StagedSource>) -> DiagnosticSpec {
    match d.file {
        None => d,
        Some(f) => match find_staged(staged, base_name(f), 0) {
            None => d,
            Some(k) => DiagnosticSpec { file: Some(staged[k].display_name@), ..d },
        },
    }
}

fn base_name_of(s: &[char]) -> (r: &[char])
    ensures
        r@ == base_name(s@),
{
    let mut k: usize = s.len();
    while k > 0 && s[k - 1] != '/' && s[k - 1] != '\\'
        invariant
            k <= s@.len(),
            last_sep(s@, s@.len() as int) == last_sep(s@, k as int),
        decreases k,
    {
        k -= 1;
    }
    slice_from(s, k)
}

fn find_staged_exec(staged: &[StagedSource], name: &[char]) -> (r: Option<usize>)
    ensures
        match r {
            Some(k) => find_staged(staged@, name@, 0) == Some(k as int),
            None => find_staged(staged@, name@, 0) is None,
        },
        match r {
            Some(k) => k < staged@.len(),
            None => true,
        },
{
    for k in 0..staged.len()
        invariant
            find_staged(staged@, name@, 0) == find_staged(staged@, name@, k as int),
    {
        let sn = chars_of(staged[k].staged_name.as_str());
        if chars_eq(sn.as_slice(), name) {
            return Some(k);
        }
    }
    None
}

fn clone_strings(v: &Vec<String>) -> (r: Vec<String>)
    ensures
        views(r@) == views(v@),
{
    let mut r: Vec<String> = Vec::new();
    for i in 0..v.len()
        invariant
            views(r@) == views(v@.take(i as int)),
    {
        let c = v[i].clone();
        let ghost before = r@;
        r.push(c);
        assert(v@.take(i + 1) =~= v@.take(i as int).push(v@[i as int]));
        assert(views(r@) =~= views(before).push(c@));
        assert(views(v@.take(i + 1)) =~= views(v@.take(i as int)).push(v@[i as int]@));
    }
    assert(v@.take(v@.len() as int) =~= v@);
    r
}

fn clone_opt(o: &Option<String>) -> (r: Option<String>)
    ensures
        opt_view(r) == opt_view(*o),
{
    match o {
        Some(s) => Some(s.clone()),
        None => None,
    }
}

/// Replace staged file names with the names the user actually recognises.
///
/// The compiler only ever sees `solver.f`; the user only ever saw `SOLVER.FOR`.
pub fn rewrite_names(diags: &mut [Diagnostic], staged: &[StagedSource])
    ensures
        final(diags)@.len() == old(diags)@.len(),
        forall|i: int|
            0 <= i < old(diags)@.len() ==> #[trigger] final(diags)@[i]@ == renamed(
                old(diags)@[i]@,
                staged@,
            ),
{
    let n = diags.len();
    for i in 0..n
        invariant
            n == old(diags)@.len(),
            diags@.len() == n,
            forall|j: int| 0 <= j < i ==> #[trigger] diags@[j]@ == renamed(old(diags)@[j]@, staged@),
            forall|j: int| i <= j < n ==> #[trigger] diags@[j] == old(diags)@[j],
    {
        let found: Option<usize> = match &diags[i].file {
            None => None,
            Some(f) => {
                let fc = chars_of(f.as_str());
                find_staged_exec(staged, base_name_of(fc.as_slice()))
            },
        };
        if let Some(k) = found {
            let d = &diags[i];
            let nd = Diagnostic {
                severity: d.severity,
                file: Some(staged[k].display_name.clone()),
                line: d.line,
                col: d.col,
                message: d.message.clone(),
                snippet: clone_strings(&d.snippet),
                undefined_symbol: clone_opt(&d.undefined_symbol),
            };
            assert(nd@ == renamed(old(diags)@[i as int]@, staged@));
            diags[i] = nd;
        } else {
            assert(diags@[i as int]@ == renamed(old(diags)@[i as int]@, staged@));
        }
    }
}

/// How many diagnostics are errors.
pub open spec fn error_count(d: Seq<DiagnosticSpec>) -> nat
    decreases d.len(),
{
    if d.len() == 0 {
        0
    } else {
        error_count(d.drop_last()) + if d.last().severity == Severity::Error {
            1nat
        } else {
            0nat
        }
    }
}

/// How many diagnostics are warnings.
pub open spec fn warning_count(d: Seq<DiagnosticSpec>) -> nat
    decreases d.len(),
{
    if d.len() == 0 {
        0
    } else {
        warning_count(d.drop_last()) + if d.last().severity == Severity::Warning {
            1nat
        } else {
            0nat
        }
    }
}

pub fn count_errors(diags: &[Diagnostic]) -> (n: usize)
    ensures
        n == error_count(diag_views(diags@)),
{
    let mut n: usize = 0;
    for i in 0..diags.len()
        invariant
            n == error_count(diag_views(diags@.take(i as int))),
            n <= i,
    {
        assert(diag_views(diags@.take(i + 1)).drop_last() =~= diag_views(diags@.take(i as int)));
        if diags[i].severity.is_error() {
            n += 1;
        }
    }
    assert(diags@.take(diags@.len() as int) =~= diags@);
    n
}

pub fn count_warnings(diags: &[Diagnostic]) -> (n: usize)
    ensures
        n == warning_count(diag_views(diags@)),
{
    let mut n: usize = 0;
    for i in 0..diags.len()
        invariant
            n == warning_count(diag_views(diags@.take(i as int))),
            n <= i,
    {
        assert(diag_views(diags@.take(i + 1)).drop_last() =~= diag_views(diags@.take(i as int)));
        if diags[i].severity == Severity::Warning {
            n += 1;
        }
    }
    assert(diags@.take(diags@.len() as int) =~= diags@);
    n
}

} // verus!
