//! The build state machine.
//!
//! Each source is compiled separately and then the objects are linked. A single
//! multi-file gfortran command aborts at the first file that fails, so the user
//! would see errors in one file and nothing about the other six; compiling per
//! file collects every error in one pass.
//!
//! Running the compiler is the application's part. Everything it decides (what
//! to run next, when to stop, what the outcome is) is `BuildRun::next`, whose
//! contract is the transition function `spec_next`.
use crate::build::args::{
    compile_args, link_args, shim_compile_args, spec_compile_args, spec_link_args,
    spec_shim_compile_args, staged_library_paths,
};
use crate::build::diagnostics::{
    count_errors, count_warnings, diag_views, duplicate_all, error_count, parse, renamed,
    rewrite_names, spec_parse, warning_count, Diagnostic, DiagnosticSpec,
};
use crate::build::stage::{StagedLibrary, StagedSource, Staging};
use crate::error::{spec_describe, EfError, FileProblem, FileProblemSpec};
use crate::pathops::{join, join_of};
use crate::paths::WorkLayout;
use crate::project::BuildOptions;
use crate::textops::{
    chars_of, eq_ignore_ascii_case, owned, push_chars, push_str, string_from_chars, utf8_len,
    char_utf8_len, lemma_utf8_len_prefix, views, lemma_views_push, push_string,
};
use crate::toolchain::probe::FlagCapabilities;
use vstd::prelude::*;

pub mod args;
pub mod diagnostics;
pub mod exec;
pub mod flag_laws;
pub mod objfmt;
pub mod omf;
pub mod sourcefmt;
pub mod stage;

verus! {

/// The source of the part that keeps a Windows console window open after the
/// program ends, when the program owns that window. Free-form Fortran, compiled
/// on its own line (`shim_compile_args`) and reached through `-Wl,--wrap=exit`:
/// it binds `__wrap_exit`, calls on through `__real_exit`, and asks
/// `GetConsoleProcessList` whether any other process shares the console.
pub const PAUSE_SHIM: &'static str = "! Keeps the console window open when the program ends, but only when the\n! program owns that window: started by a double click, not from a prompt.\n! Linked with -Wl,--wrap=exit, so every exit of the program comes here first.\nmodule ef77_pause_shim\n  use, intrinsic :: iso_c_binding, only: c_int, c_int32_t\n  implicit none\n  private\n  public :: ef77_wrap_exit\n\n  interface\n    function get_console_process_list(list, count) &\n        bind(C, name=\"GetConsoleProcessList\") result(n)\n      import :: c_int32_t\n      integer(c_int32_t), intent(out) :: list(*)\n      integer(c_int32_t), value :: count\n      integer(c_int32_t) :: n\n    end function get_console_process_list\n\n    subroutine ef77_real_exit(code) bind(C, name=\"__real_exit\")\n      import :: c_int\n      integer(c_int), value :: code\n    end subroutine ef77_real_exit\n  end interface\n\ncontains\n\n  subroutine ef77_wrap_exit(code) bind(C, name=\"__wrap_exit\")\n    integer(c_int), value :: code\n    integer(c_int32_t) :: pids(2)\n    character(len=1) :: key\n    integer :: ios\n\n    ! One process on the console means nobody else will keep it open.\n    if (get_console_process_list(pids, 2_c_int32_t) == 1_c_int32_t) then\n      write (*, '(a)', advance='no') 'Press Enter to close this window . . . '\n      read (*, '(a)', iostat=ios) key\n    end if\n    call ef77_real_exit(code)\n  end subroutine ef77_wrap_exit\n\nend module ef77_pause_shim\n";

/// A runaway error cascade can emit hundreds of megabytes; the build keeps this much.
pub const COMPILER_OUTPUT_CAP: usize = 2097152;

#[derive(Debug, Clone, PartialEq, Eq)]
pub enum BuildPhase {
    Preflight,
    Staging,
    Compiling { done: usize, total: usize, file: String },
    Linking,
}

#[derive(Debug, Clone, Copy, PartialEq, Eq, Structural)]
pub enum FailedAt {
    Preflight,
    Staging,
    Compile,
    Link,
}

#[derive(Debug, Clone)]
pub struct BuildOutcome {
    pub success: bool,
    pub exe: Option<String>,
    pub diagnostics: Vec<Diagnostic>,
    /// Everything the compiler printed, for the technical-details pane.
    pub raw: String,
    pub errors: usize,
    pub warnings: usize,
    pub failed_at: Option<FailedAt>,
    pub cancelled: bool,
    /// Set when the failure was ours rather than the user's code's.
    pub internal_error: Option<String>,
    /// Set when the build stopped because one of the user's files cannot be
    /// used, kept structured so it can be explained in the user's language.
    pub file_problem: Option<FileProblem>,
}

#[derive(Debug, Clone)]
pub enum BuildEvent {
    Phase(BuildPhase),
    /// Streamed as each file finishes, so errors appear while the build continues.
    Diagnostics(Vec<Diagnostic>),
    Finished(Box<BuildOutcome>),
}

// ------------------------------------------------------------ views

pub enum PhaseSpec {
    Preflight,
    Staging,
    Compiling { done: usize, total: usize, file: Seq<char> },
    Linking,
}

pub open spec fn phase_view(p: BuildPhase) -> PhaseSpec {
    match p {
        BuildPhase::Preflight => PhaseSpec::Preflight,
        BuildPhase::Staging => PhaseSpec::Staging,
        BuildPhase::Compiling { done, total, file } => PhaseSpec::Compiling { done, total, file: file@ },
        BuildPhase::Linking => PhaseSpec::Linking,
    }
}

pub struct OutcomeSpec {
    pub success: bool,
    pub exe: Option<Seq<char>>,
    pub diagnostics: Seq<DiagnosticSpec>,
    pub raw: Seq<char>,
    pub errors: nat,
    pub warnings: nat,
    pub failed_at: Option<FailedAt>,
    pub cancelled: bool,
    pub internal_error: Option<Seq<char>>,
    pub file_problem: Option<FileProblemSpec>,
}

pub open spec fn str_opt(o: Option<String>) -> Option<Seq<char>> {
    match o {
        Some(s) => Some(s@),
        None => None,
    }
}

pub open spec fn problem_opt(o: Option<FileProblem>) -> Option<FileProblemSpec> {
    match o {
        Some(p) => Some(p@),
        None => None,
    }
}

impl View for BuildOutcome {
    type V = OutcomeSpec;

    open spec fn view(&self) -> OutcomeSpec {
        OutcomeSpec {
            success: self.success,
            exe: str_opt(self.exe),
            diagnostics: diag_views(self.diagnostics@),
            raw: self.raw@,
            errors: self.errors as nat,
            warnings: self.warnings as nat,
            failed_at: self.failed_at,
            cancelled: self.cancelled,
            internal_error: str_opt(self.internal_error),
            file_problem: problem_opt(self.file_problem),
        }
    }
}

pub enum EventSpec {
    Phase(PhaseSpec),
    Diagnostics(Seq<DiagnosticSpec>),
    Finished(OutcomeSpec),
}

pub open spec fn event_view(e: BuildEvent) -> EventSpec {
    match e {
        BuildEvent::Phase(p) => EventSpec::Phase(phase_view(p)),
        BuildEvent::Diagnostics(d) => EventSpec::Diagnostics(diag_views(d@)),
        BuildEvent::Finished(o) => EventSpec::Finished(o@),
    }
}

pub open spec fn event_views(v: Seq<BuildEvent>) -> Seq<EventSpec> {
    v.map_values(|e: BuildEvent| event_view(e))
}

// ------------------------------------------------------------ outcomes

/// A build that failed at `at`, with what the compiler said so far.
pub open spec fn failure_outcome(at: FailedAt, d: Seq<DiagnosticSpec>, raw: Seq<char>) -> OutcomeSpec {
    OutcomeSpec {
        success: false,
        exe: None,
        diagnostics: d,
        raw,
        errors: error_count(d),
        warnings: warning_count(d),
        failed_at: Some(at),
        cancelled: false,
        internal_error: None,
        file_problem: None,
    }
}

/// A build stopped on request.
pub open spec fn cancelled_outcome(d: Seq<DiagnosticSpec>, raw: Seq<char>) -> OutcomeSpec {
    OutcomeSpec {
        success: false,
        exe: None,
        diagnostics: d,
        raw,
        errors: error_count(d),
        warnings: warning_count(d),
        failed_at: None,
        cancelled: true,
        internal_error: None,
        file_problem: None,
    }
}

/// A build that could not go on because of an error of ours or of one of the
/// user's files; the file's problem is kept so it can be explained.
pub open spec fn error_outcome(e: EfError) -> OutcomeSpec {
    OutcomeSpec {
        internal_error: Some(spec_describe(e)),
        file_problem: match e {
            EfError::UnusableFile { problem, .. } => Some((*problem)@),
            _ => None,
        },
        ..failure_outcome(FailedAt::Preflight, Seq::empty(), Seq::empty())
    }
}

pub open spec fn success_outcome(exe: Seq<char>, d: Seq<DiagnosticSpec>, raw: Seq<char>) -> OutcomeSpec {
    OutcomeSpec {
        success: true,
        exe: Some(exe),
        diagnostics: d,
        raw,
        errors: error_count(d),
        warnings: warning_count(d),
        failed_at: None,
        cancelled: false,
        internal_error: None,
        file_problem: None,
    }
}

fn make_outcome(
    success: bool,
    exe: Option<String>,
    diagnostics: Vec<Diagnostic>,
    raw: &Vec<char>,
    failed_at: Option<FailedAt>,
    cancelled: bool,
) -> (o: BuildOutcome)
    ensures
        o@ == (OutcomeSpec {
            success,
            exe: str_opt(exe),
            diagnostics: diag_views(diagnostics@),
            raw: raw@,
            errors: error_count(diag_views(diagnostics@)),
            warnings: warning_count(diag_views(diagnostics@)),
            failed_at,
            cancelled,
            internal_error: None,
            file_problem: None,
        }),
{
    let errors = count_errors(diagnostics.as_slice());
    let warnings = count_warnings(diagnostics.as_slice());
    BuildOutcome {
        success,
        exe,
        diagnostics,
        raw: string_from_chars(raw.as_slice()),
        errors,
        warnings,
        failed_at,
        cancelled,
        internal_error: None,
        file_problem: None,
    }
}

impl BuildOutcome {
    /// A build that failed at `at`.
    fn failure(at: FailedAt, diagnostics: Vec<Diagnostic>, raw: &Vec<char>) -> (o: Self)
        ensures
            o@ == failure_outcome(at, diag_views(diagnostics@), raw@),
    {
        make_outcome(false, None, diagnostics, raw, Some(at), false)
    }

    /// What a build that could not start, or stopped on an error of ours,
    /// reports: nothing compiled, and the reason.
    pub fn from_error(e: &EfError) -> (o: Self)
        ensures
            o@ == error_outcome(*e),
    {
        let empty: Vec<char> = Vec::new();
        let mut o = make_outcome(false, None, Vec::new(), &empty, Some(FailedAt::Preflight), false);
        proof {
            assert(diag_views(Seq::<Diagnostic>::empty()) =~= Seq::<DiagnosticSpec>::empty());
        }
        if let EfError::UnusableFile { problem, .. } = e {
            o.file_problem = Some(problem.duplicate());
        }
        o.internal_error = Some(e.describe());
        o
    }
}

fn cancelled(diagnostics: Vec<Diagnostic>, raw: &Vec<char>) -> (o: BuildOutcome)
    ensures
        o@ == cancelled_outcome(diag_views(diagnostics@), raw@),
{
    make_outcome(false, None, diagnostics, raw, None, true)
}

// ------------------------------------------------------------ the log

/// The notice that replaces whatever did not fit.
pub open spec fn omitted_notice() -> Seq<char> {
    "\n… (rest of the compiler output omitted)\n"@
}

/// The longest prefix of `text`, from `k` characters on, whose UTF-8 form
/// fits in `room` bytes.
pub open spec fn fit_from(text: Seq<char>, room: int, k: int) -> int
    decreases text.len() - k,
{
    if 0 <= k < text.len() && utf8_len(text.take(k + 1)) <= room {
        fit_from(text, room, k + 1)
    } else {
        k
    }
}

/// Compiler output added to the build's log, bounded. Each file is parsed in
/// full; only the kept log is trimmed, at a character boundary, once, with one
/// notice.
pub open spec fn capped(raw: Seq<char>, text: Seq<char>, full: bool) -> (Seq<char>, bool) {
    if full {
        (raw, true)
    } else {
        let room = if utf8_len(raw) >= COMPILER_OUTPUT_CAP {
            0
        } else {
            COMPILER_OUTPUT_CAP - utf8_len(raw)
        };
        if utf8_len(text) <= room {
            (raw + text, false)
        } else {
            (raw + text.take(fit_from(text, room, 0)) + omitted_notice(), true)
        }
    }
}

fn char_width(c: char) -> (w: usize)
    ensures
        w == char_utf8_len(c),
{
    if (c as u32) < 0x80 {
        1
    } else if (c as u32) < 0x800 {
        2
    } else if (c as u32) < 0x10000 {
        3
    } else {
        4
    }
}

fn append_capped(raw: &mut Vec<char>, raw_bytes: &mut usize, text: &[char], full: &mut bool)
    requires
        *old(raw_bytes) == utf8_len(old(raw)@),
        *old(raw_bytes) <= COMPILER_OUTPUT_CAP + 256,
        !*old(full) ==> *old(raw_bytes) <= COMPILER_OUTPUT_CAP,
    ensures
        (final(raw)@, *final(full)) == capped(old(raw)@, text@, *old(full)),
        *final(raw_bytes) == utf8_len(final(raw)@),
        *final(raw_bytes) <= COMPILER_OUTPUT_CAP + 256,
        !*final(full) ==> *final(raw_bytes) <= COMPILER_OUTPUT_CAP,
{
    if *full {
        return ;
    }
    let room: usize = if *raw_bytes >= COMPILER_OUTPUT_CAP {
        0
    } else {
        COMPILER_OUTPUT_CAP - *raw_bytes
    };
    let mut used: usize = 0;
    let mut k: usize = 0;
    while k < text.len() && char_width(text[k]) <= room - used
        invariant
            k <= text@.len(),
            used == utf8_len(text@.take(k as int)),
            used <= room,
            fit_from(text@, room as int, 0) == fit_from(text@, room as int, k as int),
        decreases text.len() - k,
    {
        assert(text@.take(k + 1).drop_last() =~= text@.take(k as int));
        used += char_width(text[k]);
        k += 1;
    }
    if k < text.len() {
        assert(text@.take(k + 1).drop_last() =~= text@.take(k as int));
        proof {
            lemma_utf8_len_prefix(text@, k + 1);
        }
    } else {
        assert(text@.take(k as int) =~= text@);
    }
    let ghost before = raw@;
    let mut i: usize = 0;
    while i < k
        invariant
            i <= k <= text@.len(),
            raw@ == before + text@.take(i as int),
        decreases k - i,
    {
        raw.push(text[i]);
        i += 1;
        assert(raw@ =~= before + text@.take(i as int));
    }
    proof {
        lemma_utf8_len_concat(before, text@.take(k as int));
    }
    *raw_bytes = *raw_bytes + used;
    if k < text.len() {
        let notice = chars_of("\n… (rest of the compiler output omitted)\n");
        proof {
            reveal_strlit("\n… (rest of the compiler output omitted)\n");
            lemma_utf8_len_concat(raw@, notice@);
        }
        let w = notice_width();
        push_chars(raw, notice.as_slice());
        *raw_bytes = *raw_bytes + w;
        *full = true;
    }
}

fn notice_width() -> (w: usize)
    ensures
        w == utf8_len(omitted_notice()),
        w <= 168,
{
    let n = chars_of("\n… (rest of the compiler output omitted)\n");
    let mut w: usize = 0;
    let mut i: usize = 0;
    proof {
        reveal_strlit("\n… (rest of the compiler output omitted)\n");
    }
    while i < n.len()
        invariant
            i <= n@.len(),
            n@ == omitted_notice(),
            n@.len() == 41,
            w == utf8_len(n@.take(i as int)),
            w <= 4 * i,
        decreases n.len() - i,
    {
        assert(n@.take(i + 1).drop_last() =~= n@.take(i as int));
        w += char_width(n[i]);
        i += 1;
    }
    assert(n@.take(n@.len() as int) =~= n@);
    w
}

pub proof fn lemma_utf8_len_concat(a: Seq<char>, b: Seq<char>)
    ensures
        utf8_len(a + b) == utf8_len(a) + utf8_len(b),
    decreases b.len(),
{
    if b.len() > 0 {
        lemma_utf8_len_concat(a, b.drop_last());
        assert((a + b).drop_last() =~= a + b.drop_last());
    } else {
        assert(a + b =~= a);
    }
}

// ------------------------------------------------------------ the machine

/// What the build works from once the sources are staged.
pub struct BuildPlan {
    pub staging: Staging,
    pub options: BuildOptions,
    pub caps: FlagCapabilities,
    /// The toolchain's own flags for compiling and for linking.
    pub compile_flags: Vec<String>,
    pub link_flags: Vec<String>,
    pub layout: WorkLayout,
    /// The target's executable suffix, from the toolchain rather than the host.
    pub exe_suffix: String,
}

/// Where a build is.
#[derive(Debug, Clone, Copy, PartialEq, Eq, Structural)]
pub enum RunStage {
    /// Nothing run yet.
    Start,
    /// Source `i` is being compiled.
    AwaitCompile(usize),
    /// The pause shim is being compiled.
    AwaitShim,
    /// The link is running.
    AwaitLink,
    /// The outcome has been given.
    Finished,
}

/// What came back from running something.
pub enum Ran {
    /// It ran. `produced` says whether the file it was to make exists.
    Exited { code: Option<i32>, output: String, produced: bool },
    /// It could not be run, or its files could not be written.
    Failed(EfError),
}

/// What to do next.
pub enum BuildAction {
    /// Run the compiler with these arguments, in the build directory.
    Run(Vec<String>),
    /// Write the pause shim's source to `src` and run the compiler with `args`.
    CompileShim { src: String, obj: String, args: Vec<String> },
    /// Done: this is the outcome.
    Finish(BuildOutcome),
}

pub enum ActionSpec {
    Run(Seq<Seq<char>>),
    CompileShim { src: Seq<char>, obj: Seq<char>, args: Seq<Seq<char>> },
    Finish(OutcomeSpec),
}

pub open spec fn action_view(a: BuildAction) -> ActionSpec {
    match a {
        BuildAction::Run(v) => ActionSpec::Run(views(v@)),
        BuildAction::CompileShim { src, obj, args } => ActionSpec::CompileShim {
            src: src@,
            obj: obj@,
            args: views(args@),
        },
        BuildAction::Finish(o) => ActionSpec::Finish(o@),
    }
}

pub enum RanSpec {
    Exited { code: Option<i32>, output: Seq<char>, produced: bool },
    Failed(EfError),
}

pub open spec fn ran_view(r: Ran) -> RanSpec {
    match r {
        Ran::Exited { code, output, produced } => RanSpec::Exited { code, output: output@, produced },
        Ran::Failed(e) => RanSpec::Failed(e),
    }
}

/// The state of a build, as plain values.
pub struct RunState {
    pub stage: RunStage,
    pub diags: Seq<DiagnosticSpec>,
    pub raw: Seq<char>,
    pub full: bool,
    pub failed: bool,
    pub objs: Seq<Seq<char>>,
}

pub open spec fn shim_src(root: Seq<char>) -> Seq<char> {
    join(join(root, "src"@), "ef77_pause_shim.f90"@)
}

pub open spec fn shim_obj(root: Seq<char>) -> Seq<char> {
    join(join(root, "obj"@), "ef77_pause_shim.o"@)
}

pub open spec fn wants_shim(plan: BuildPlan) -> bool {
    plan.options.keep_window_open && eq_ignore_ascii_case(plan.exe_suffix@, ".exe"@)
}

pub open spec fn source_objs(s: Seq<StagedSource>) -> Seq<Seq<char>> {
    s.map_values(|x: StagedSource| x.obj@)
}

pub open spec fn renamed_all(d: Seq<DiagnosticSpec>, staged: Seq<StagedSource>) -> Seq<DiagnosticSpec> {
    d.map_values(|x: DiagnosticSpec| renamed(x, staged))
}

/// The link, asked for.
pub open spec fn spec_start_link(plan: BuildPlan, st: RunState) -> (RunState, Seq<EventSpec>, ActionSpec) {
    (
        RunState { stage: RunStage::AwaitLink, ..st },
        seq![EventSpec::Phase(PhaseSpec::Linking)],
        ActionSpec::Run(
            spec_link_args(
                plan.caps,
                views(plan.link_flags@),
                plan.options,
                st.objs,
                staged_library_paths(plan.staging.libraries@),
                plan.layout.root@,
                plan.exe_suffix@,
            ),
        ),
    )
}

/// Source `k` is next, unless the build was stopped or every source is done.
pub open spec fn spec_compile_next(plan: BuildPlan, st: RunState, k: int, cancelled: bool) -> (
    RunState,
    Seq<EventSpec>,
    ActionSpec,
) {
    let n = plan.staging.sources@.len();
    let root = plan.layout.root@;
    if cancelled {
        (
            RunState { stage: RunStage::Finished, ..st },
            Seq::empty(),
            ActionSpec::Finish(cancelled_outcome(st.diags, st.raw)),
        )
    } else if k < n {
        let src = plan.staging.sources@[k];
        (
            RunState { stage: RunStage::AwaitCompile(k as usize), ..st },
            seq![
                EventSpec::Phase(
                    PhaseSpec::Compiling { done: k as usize, total: n as usize, file: src.display_name@ },
                ),
            ],
            ActionSpec::Run(
                spec_compile_args(
                    plan.caps,
                    views(plan.compile_flags@),
                    plan.options,
                    src.staged@,
                    src.obj@,
                    root,
                    views(plan.staging.include_dirs@),
                ),
            ),
        )
    } else if st.failed {
        (
            RunState { stage: RunStage::Finished, ..st },
            Seq::empty(),
            ActionSpec::Finish(failure_outcome(FailedAt::Compile, st.diags, st.raw)),
        )
    } else {
        let st2 = RunState { objs: source_objs(plan.staging.sources@), ..st };
        if wants_shim(plan) {
            (
                RunState { stage: RunStage::AwaitShim, ..st2 },
                Seq::empty(),
                ActionSpec::CompileShim {
                    src: shim_src(root),
                    obj: shim_obj(root),
                    args: spec_shim_compile_args(
                        views(plan.compile_flags@),
                        shim_src(root),
                        shim_obj(root),
                        root,
                    ),
                },
            )
        } else {
            spec_start_link(plan, st2)
        }
    }
}

/// What the compiler's output adds: its diagnostics, named as the user named
/// the files, and, when there are any, an event carrying them.
pub open spec fn new_diags(plan: BuildPlan, output: Seq<char>) -> Seq<DiagnosticSpec> {
    renamed_all(spec_parse(output), plan.staging.sources@)
}

pub open spec fn diag_event(d: Seq<DiagnosticSpec>) -> Seq<EventSpec> {
    if d.len() > 0 {
        seq![EventSpec::Diagnostics(d)]
    } else {
        Seq::empty()
    }
}

pub open spec fn not_ok(code: Option<i32>) -> bool {
    code != Some(0i32)
}

/// One step of the build: from the state, whether the user has asked it to
/// stop, and what the last thing run came back with, to the next state, the
/// events to report and the next thing to do.
pub open spec fn spec_next(plan: BuildPlan, st: RunState, cancelled: bool, ran: Option<RanSpec>) -> (
    RunState,
    Seq<EventSpec>,
    ActionSpec,
) {
    let finished = RunState { stage: RunStage::Finished, ..st };
    match st.stage {
        RunStage::Start => spec_compile_next(plan, st, 0, cancelled),
        RunStage::AwaitCompile(i) => match ran {
            Some(RanSpec::Exited { code, output, produced }) => {
                let (raw, full) = capped(st.raw, output, st.full);
                let d = new_diags(plan, output);
                let st2 = RunState {
                    raw,
                    full,
                    diags: st.diags + d,
                    failed: st.failed || not_ok(code),
                    ..st
                };
                let (st3, ev, act) = spec_compile_next(plan, st2, i + 1, cancelled);
                (st3, diag_event(d) + ev, act)
            },
            Some(RanSpec::Failed(e)) => (finished, Seq::empty(), ActionSpec::Finish(error_outcome(e))),
            None => (st, Seq::empty(), ActionSpec::Finish(cancelled_outcome(st.diags, st.raw))),
        },
        RunStage::AwaitShim => match ran {
            Some(RanSpec::Exited { code, output, produced }) => {
                let (raw, full) = capped(st.raw, output, st.full);
                let logged = RunState { stage: RunStage::Finished, raw, full, ..st };
                if cancelled {
                    (logged, Seq::empty(), ActionSpec::Finish(cancelled_outcome(st.diags, raw)))
                } else if not_ok(code) || !produced {
                    (
                        logged,
                        Seq::empty(),
                        ActionSpec::Finish(
                            OutcomeSpec {
                                internal_error: Some(shim_failed_message()),
                                ..failure_outcome(FailedAt::Compile, st.diags, raw)
                            },
                        ),
                    )
                } else {
                    spec_start_link(
                        plan,
                        RunState { raw, full, objs: st.objs.push(shim_obj(plan.layout.root@)), ..st },
                    )
                }
            },
            Some(RanSpec::Failed(e)) => if cancelled {
                (finished, Seq::empty(), ActionSpec::Finish(cancelled_outcome(st.diags, st.raw)))
            } else {
                (finished, Seq::empty(), ActionSpec::Finish(error_outcome(e)))
            },
            None => (st, Seq::empty(), ActionSpec::Finish(cancelled_outcome(st.diags, st.raw))),
        },
        RunStage::AwaitLink => match ran {
            Some(RanSpec::Exited { code, output, produced }) => {
                let (raw, full) = capped(st.raw, output, st.full);
                if cancelled {
                    (
                        RunState { stage: RunStage::Finished, raw, full, ..st },
                        Seq::empty(),
                        ActionSpec::Finish(cancelled_outcome(st.diags, raw)),
                    )
                } else {
                    let d = new_diags(plan, output);
                    let all = st.diags + d;
                    let done = RunState { stage: RunStage::Finished, raw, full, diags: all, ..st };
                    if not_ok(code) || !produced {
                        (done, diag_event(d), ActionSpec::Finish(failure_outcome(FailedAt::Link, all, raw)))
                    } else {
                        (
                            done,
                            diag_event(d),
                            ActionSpec::Finish(
                                success_outcome(
                                    join(join(plan.layout.root@, "out"@), "program"@ + plan.exe_suffix@),
                                    all,
                                    raw,
                                ),
                            ),
                        )
                    }
                }
            },
            Some(RanSpec::Failed(e)) => (finished, Seq::empty(), ActionSpec::Finish(error_outcome(e))),
            None => (st, Seq::empty(), ActionSpec::Finish(cancelled_outcome(st.diags, st.raw))),
        },
        RunStage::Finished => (st, Seq::empty(), ActionSpec::Finish(cancelled_outcome(st.diags, st.raw))),
    }
}

pub open spec fn shim_failed_message() -> Seq<char> {
    "could not build the part that keeps the window open"@
}

/// A build in progress.
pub struct BuildRun {
    plan: BuildPlan,
    stage: RunStage,
    diags: Vec<Diagnostic>,
    raw: Vec<char>,
    raw_bytes: usize,
    full: bool,
    failed: bool,
    objs: Vec<String>,
}

impl View for BuildRun {
    type V = RunState;

    closed spec fn view(&self) -> RunState {
        RunState {
            stage: self.stage,
            diags: diag_views(self.diags@),
            raw: self.raw@,
            full: self.full,
            failed: self.failed,
            objs: views(self.objs@),
        }
    }
}

fn some_code_not_zero(code: Option<i32>) -> (r: bool)
    ensures
        r == not_ok(code),
{
    match code {
        Some(c) => c != 0,
        None => true,
    }
}

impl BuildRun {
    /// What the build works from.
    pub closed spec fn the_plan(&self) -> BuildPlan {
        self.plan
    }

    /// What the build works from.
    pub fn plan(&self) -> (p: &BuildPlan)
        ensures
            *p == self.the_plan(),
    {
        &self.plan
    }

    /// The log's byte count is kept alongside it and stays bounded.
    pub closed spec fn wf(&self) -> bool {
        &&& self.raw_bytes == utf8_len(self.raw@)
        &&& self.raw_bytes <= COMPILER_OUTPUT_CAP + 256
        &&& !self.full ==> self.raw_bytes <= COMPILER_OUTPUT_CAP
    }

    /// A build of staged sources, before anything has run.
    pub fn new(plan: BuildPlan) -> (r: BuildRun)
        ensures
            r.wf(),
            r.the_plan() == plan,
            r@.stage == RunStage::Start,
            r@.diags.len() == 0,
            r@.raw.len() == 0,
            !r@.full,
            !r@.failed,
            r@.objs.len() == 0,
    {
        let r = BuildRun {
            plan,
            stage: RunStage::Start,
            diags: Vec::new(),
            raw: Vec::new(),
            raw_bytes: 0,
            full: false,
            failed: false,
            objs: Vec::new(),
        };
        assert(utf8_len(r.raw@) == 0);
        r
    }

    fn start_link(&mut self) -> (r: (Vec<BuildEvent>, BuildAction))
        requires
            old(self).wf(),
        ensures
            final(self).wf(),
            final(self).the_plan() == old(self).the_plan(),
            (final(self)@, event_views(r.0@), action_view(r.1)) == spec_start_link(
                old(self).the_plan(),
                old(self)@,
            ),
    {
        self.stage = RunStage::AwaitLink;
        let mut events: Vec<BuildEvent> = Vec::new();
        events.push(BuildEvent::Phase(BuildPhase::Linking));
        assert(event_views(events@) =~= seq![EventSpec::Phase(PhaseSpec::Linking)]);
        let args = link_args(
            &self.plan.caps,
            self.plan.link_flags.as_slice(),
            &self.plan.options,
            self.objs.as_slice(),
            self.plan.staging.libraries.as_slice(),
            &self.plan.layout,
            self.plan.exe_suffix.as_str(),
        );
        (events, BuildAction::Run(args))
    }

    fn compile_next(&mut self, k: usize, stop: bool) -> (r: (Vec<BuildEvent>, BuildAction))
        requires
            old(self).wf(),
            k <= old(self).the_plan().staging.sources@.len(),
        ensures
            final(self).wf(),
            final(self).the_plan() == old(self).the_plan(),
            (final(self)@, event_views(r.0@), action_view(r.1)) == spec_compile_next(
                old(self).the_plan(),
                old(self)@,
                k as int,
                stop,
            ),
    {
        let n = self.plan.staging.sources.len();
        if stop {
            self.stage = RunStage::Finished;
            let d = duplicate_all(&self.diags);
            let o = cancelled(d, &self.raw);
            let ev: Vec<BuildEvent> = Vec::new();
            assert(event_views(ev@) =~= Seq::<EventSpec>::empty());
            return (ev, BuildAction::Finish(o));
        }
        if k < n {
            self.stage = RunStage::AwaitCompile(k);
            let src = &self.plan.staging.sources[k];
            let mut ev: Vec<BuildEvent> = Vec::new();
            ev.push(
                BuildEvent::Phase(
                    BuildPhase::Compiling { done: k, total: n, file: src.display_name.clone() },
                ),
            );
            assert(event_views(ev@) =~= seq![
                EventSpec::Phase(
                    PhaseSpec::Compiling { done: k, total: n, file: src.display_name@ },
                ),
            ]);
            let args = compile_args(
                &self.plan.caps,
                self.plan.compile_flags.as_slice(),
                &self.plan.options,
                src,
                &self.plan.layout,
                self.plan.staging.include_dirs.as_slice(),
            );
            return (ev, BuildAction::Run(args));
        }
        if self.failed {
            self.stage = RunStage::Finished;
            let d = duplicate_all(&self.diags);
            let o = BuildOutcome::failure(FailedAt::Compile, d, &self.raw);
            let ev: Vec<BuildEvent> = Vec::new();
            assert(event_views(ev@) =~= Seq::<EventSpec>::empty());
            return (ev, BuildAction::Finish(o));
        }
        let mut objs: Vec<String> = Vec::new();
        for i in 0..n
            invariant
                n == self.plan.staging.sources@.len(),
                views(objs@) == source_objs(self.plan.staging.sources@.take(i as int)),
        {
            let o = self.plan.staging.sources[i].obj.clone();
            let ghost before = objs@;
            objs.push(o);
            proof {
                lemma_views_push(before, o);
            }
            assert(source_objs(self.plan.staging.sources@.take(i + 1)) =~= source_objs(
                self.plan.staging.sources@.take(i as int),
            ).push(self.plan.staging.sources@[i as int].obj@));
        }
        assert(self.plan.staging.sources@.take(n as int) =~= self.plan.staging.sources@);
        self.objs = objs;
        if self.plan.options.wants_pause_shim(self.plan.exe_suffix.as_str()) {
            self.stage = RunStage::AwaitShim;
            let srcdir = self.plan.layout.src();
            let objdir = self.plan.layout.obj();
            let src = join_of(srcdir.as_str(), "ef77_pause_shim.f90");
            let obj = join_of(objdir.as_str(), "ef77_pause_shim.o");
            let args = shim_compile_args(
                self.plan.compile_flags.as_slice(),
                src.as_str(),
                obj.as_str(),
                &self.plan.layout,
            );
            let ev: Vec<BuildEvent> = Vec::new();
            assert(event_views(ev@) =~= Seq::<EventSpec>::empty());
            return (ev, BuildAction::CompileShim { src, obj, args });
        }
        self.start_link()
    }

    /// Take the output of a compile or link into the log and, for those, into
    /// the diagnostics. Returns the events to report.
    fn take_output(&mut self, output: &String, parse_it: bool) -> (ev: Vec<BuildEvent>)
        requires
            old(self).wf(),
        ensures
            final(self).wf(),
            final(self).the_plan() == old(self).the_plan(),
            final(self).stage == old(self).stage,
            final(self).failed == old(self).failed,
            final(self).objs == old(self).objs,
            (final(self)@.raw, final(self)@.full) == capped(old(self)@.raw, output@, old(self)@.full),
            parse_it ==> final(self)@.diags == old(self)@.diags + new_diags(old(self).the_plan(), output@),
            parse_it ==> event_views(ev@) == diag_event(new_diags(old(self).the_plan(), output@)),
            !parse_it ==> final(self)@.diags == old(self)@.diags,
    {
        let oc = chars_of(output.as_str());
        append_capped(&mut self.raw, &mut self.raw_bytes, oc.as_slice(), &mut self.full);
        let mut ev: Vec<BuildEvent> = Vec::new();
        if parse_it {
            let mut d = parse(output.as_str());
            let ghost parsed = diag_views(d@);
            rewrite_names(d.as_mut_slice(), self.plan.staging.sources.as_slice());
            assert(diag_views(d@) =~= renamed_all(parsed, self.plan.staging.sources@));
            if d.len() > 0 {
                ev.push(BuildEvent::Diagnostics(duplicate_all(&d)));
                assert(event_views(ev@) =~= diag_event(diag_views(d@)));
            } else {
                assert(event_views(ev@) =~= diag_event(diag_views(d@)));
            }
            let ghost before = self.diags@;
            self.diags.append(&mut d);
            assert(diag_views(self.diags@) =~= diag_views(before) + renamed_all(
                parsed,
                self.plan.staging.sources@,
            ));
        }
        ev
    }

    fn finish_with(&mut self, o: BuildOutcome) -> (r: (Vec<BuildEvent>, BuildAction))
        requires
            old(self).wf(),
        ensures
            final(self).wf(),
            final(self).the_plan() == old(self).the_plan(),
            final(self)@ == (RunState { stage: RunStage::Finished, ..old(self)@ }),
            event_views(r.0@) == Seq::<EventSpec>::empty(),
            action_view(r.1) == ActionSpec::Finish(o@),
    {
        self.stage = RunStage::Finished;
        let ev: Vec<BuildEvent> = Vec::new();
        assert(event_views(ev@) =~= Seq::<EventSpec>::empty());
        (ev, BuildAction::Finish(o))
    }

    /// One step of the build, as `spec_next` says. The first call reports
    /// nothing; every later one reports what the last action came back with.
    pub fn next(&mut self, stop: bool, ran: Option<Ran>) -> (r: (Vec<BuildEvent>, BuildAction))
        requires
            old(self).wf(),
            old(self)@.stage != RunStage::Finished,
            old(self)@.stage != RunStage::Start ==> ran is Some,
            old(self)@.stage is AwaitCompile ==> old(self)@.stage->0 < old(self).the_plan().staging.sources@.len(),
        ensures
            final(self).wf(),
            final(self).the_plan() == old(self).the_plan(),
            (final(self)@, event_views(r.0@), action_view(r.1)) == spec_next(
                old(self).the_plan(),
                old(self)@,
                stop,
                match ran {
                    Some(x) => Some(ran_view(x)),
                    None => None,
                },
            ),
    {
        match self.stage {
            RunStage::Start => self.compile_next(0, stop),
            RunStage::AwaitCompile(i) => match ran {
                Some(Ran::Exited { code, output, produced: _ }) => {
                    let _n = self.plan.staging.sources.len();
                    let mut ev = self.take_output(&output, true);
                    if some_code_not_zero(code) {
                        self.failed = true;
                    }
                    let (mut ev2, act) = self.compile_next(i + 1, stop);
                    let ghost e1 = event_views(ev@);
                    let ghost a = ev@;
                    let ghost b = ev2@;
                    ev.append(&mut ev2);
                    assert(event_views(ev@) =~= event_views(a) + event_views(b));
                    (ev, act)
                },
                Some(Ran::Failed(e)) => self.finish_with(BuildOutcome::from_error(&e)),
                None => self.finish_with(cancelled(duplicate_all(&self.diags), &self.raw)),
            },
            RunStage::AwaitShim => match ran {
                Some(Ran::Exited { code, output, produced }) => {
                    let _ = self.take_output(&output, false);
                    if stop {
                        let d = duplicate_all(&self.diags);
                        let o = cancelled(d, &self.raw);
                        return self.finish_with(o);
                    }
                    if some_code_not_zero(code) || !produced {
                        let d = duplicate_all(&self.diags);
                        let mut o = BuildOutcome::failure(FailedAt::Compile, d, &self.raw);
                        o.internal_error = Some(
                            owned("could not build the part that keeps the window open"),
                        );
                        return self.finish_with(o);
                    }
                    let objdir = self.plan.layout.obj();
                    let obj = join_of(objdir.as_str(), "ef77_pause_shim.o");
                    let ghost before = self.objs@;
                    self.objs.push(obj);
                    proof {
                        lemma_views_push(before, obj);
                    }
                    self.start_link()
                },
                Some(Ran::Failed(e)) => {
                    if stop {
                        let d = duplicate_all(&self.diags);
                        let o = cancelled(d, &self.raw);
                        self.finish_with(o)
                    } else {
                        self.finish_with(BuildOutcome::from_error(&e))
                    }
                },
                None => self.finish_with(cancelled(duplicate_all(&self.diags), &self.raw)),
            },
            RunStage::AwaitLink => match ran {
                Some(Ran::Exited { code, output, produced }) => {
                    if stop {
                        let _ = self.take_output(&output, false);
                        let d = duplicate_all(&self.diags);
                        let o = cancelled(d, &self.raw);
                        return self.finish_with(o);
                    }
                    let ev = self.take_output(&output, true);
                    self.stage = RunStage::Finished;
                    let d = duplicate_all(&self.diags);
                    if some_code_not_zero(code) || !produced {
                        let o = BuildOutcome::failure(FailedAt::Link, d, &self.raw);
                        return (ev, BuildAction::Finish(o));
                    }
                    let exe = self.plan.layout.exe_with_suffix(self.plan.exe_suffix.as_str());
                    let o = make_outcome(true, Some(exe), d, &self.raw, None, false);
                    (ev, BuildAction::Finish(o))
                },
                Some(Ran::Failed(e)) => self.finish_with(BuildOutcome::from_error(&e)),
                None => self.finish_with(cancelled(duplicate_all(&self.diags), &self.raw)),
            },
            RunStage::Finished => self.finish_with(cancelled(duplicate_all(&self.diags), &self.raw)),
        }
    }
}

/// A build asked to stop finishes at once and says it was cancelled, never
/// failed and never succeeded: before anything has run, and whenever the
/// compiler it was waiting on has come back.
pub proof fn law_a_stopped_build_reports_itself_cancelled(
    plan: BuildPlan,
    st: RunState,
    ran: Option<RanSpec>,
)
    requires
        st.stage is Start || (st.stage !is Finished && ran matches Some(RanSpec::Exited { .. })),
    ensures
        spec_next(plan, st, true, ran).2 matches ActionSpec::Finish(o) && o.cancelled && !o.success
            && o.failed_at is None,
{
}

/// One file failing to compile does not stop the build: unless it was asked
/// to stop, the next file is compiled, and the failure is remembered along
/// with every diagnostic so far.
pub proof fn law_a_failed_compile_does_not_stop_the_others(
    plan: BuildPlan,
    st: RunState,
    i: usize,
    code: Option<i32>,
    output: Seq<char>,
    produced: bool,
)
    requires
        st.stage == RunStage::AwaitCompile(i),
        i + 1 < plan.staging.sources@.len(),
    ensures
        ({
            let (st2, _, act) = spec_next(plan, st, false, Some(RanSpec::Exited { code, output, produced }));
            &&& st2.stage == RunStage::AwaitCompile((i + 1) as usize)
            &&& st2.failed == (st.failed || not_ok(code))
            &&& st2.diags == st.diags + new_diags(plan, output)
            &&& act is Run
        }),
{
}

/// Nothing is linked after a failed compile: once the last file is done, a
/// build in which any file failed finishes as a compile failure, with every
/// diagnostic the files produced.
pub proof fn law_no_link_after_a_failed_compile(
    plan: BuildPlan,
    st: RunState,
    i: usize,
    code: Option<i32>,
    output: Seq<char>,
    produced: bool,
)
    requires
        st.stage == RunStage::AwaitCompile(i),
        i + 1 == plan.staging.sources@.len(),
        st.failed || not_ok(code),
    ensures
        spec_next(plan, st, false, Some(RanSpec::Exited { code, output, produced })).2 matches ActionSpec::Finish(o)
            && o.failed_at == Some(FailedAt::Compile) && !o.success
            && o.diagnostics == st.diags + new_diags(plan, output),
{
}

} // verus!
