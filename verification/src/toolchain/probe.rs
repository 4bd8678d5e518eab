//! Discover which optional flags this particular gfortran accepts.
//!
//! This is what lets one flag table serve GCC 8 through 16, and Windows through
//! Linux: `-static` fails on most Linux boxes for want of a static glibc, so the
//! probe notices and the build simply proceeds without it.
//!
//! Running the compiler is the application's part. Which compiler run to ask
//! for next, and what the answers add up to, is decided here: the whole
//! protocol is a function of the answers received so far (`probe_plan`).
use crate::textops::{lemma_views_push, owned, push_string, push_strings, views};
use vstd::prelude::*;

verus! {

/// Optional flags, each independently verified. Mandatory behaviour (fixed form,
/// `-c`, `-o`, `-J`, `-I`) is not probed: without it there is no build at all.
#[derive(Debug, Clone, Copy, PartialEq, Eq, Structural)]
pub struct FlagCapabilities {
    pub std_legacy: bool,
    pub dec: bool,
    pub no_range_check: bool,
    pub allow_invalid_boz: bool,
    pub init_local_zero: bool,
    pub no_automatic: bool,
    pub d_lines_as_code: bool,
    /// `-fcheck=bounds`: stop when an array index is outside its bounds.
    pub check_bounds: bool,
    pub max_errors: bool,
    pub diagnostics_plain: bool,
    pub max_stack_var_size: bool,
    pub default_real8: bool,
    /// `-static`: fully static link. Usually unavailable on Linux.
    pub static_full: bool,
    /// `-static-libgfortran -static-libgcc`: the runtime only. Usually available.
    pub static_runtime: bool,
    /// `-s`: strip the linked program.
    pub strip: bool,
    /// Set when the compiler could not be run at all.
    pub probe_failed: bool,
}

pub open spec fn all_caps(v: bool, failed: bool) -> FlagCapabilities {
    FlagCapabilities {
        std_legacy: v,
        dec: v,
        no_range_check: v,
        allow_invalid_boz: v,
        init_local_zero: v,
        no_automatic: v,
        d_lines_as_code: v,
        check_bounds: v,
        max_errors: v,
        diagnostics_plain: v,
        max_stack_var_size: v,
        default_real8: v,
        static_full: v,
        static_runtime: v,
        strip: v,
        probe_failed: failed,
    }
}

impl FlagCapabilities {
    /// Everything available. Used where no compiler is run.
    pub fn optimistic() -> (c: Self)
        ensures
            c == all_caps(true, false),
    {
        FlagCapabilities {
            std_legacy: true,
            dec: true,
            no_range_check: true,
            allow_invalid_boz: true,
            init_local_zero: true,
            no_automatic: true,
            check_bounds: true,
            d_lines_as_code: true,
            max_errors: true,
            diagnostics_plain: true,
            max_stack_var_size: true,
            default_real8: true,
            static_full: true,
            static_runtime: true,
            strip: true,
            probe_failed: false,
        }
    }

    /// Nothing optional. The build still works, just less forgivingly.
    pub fn conservative() -> (c: Self)
        ensures
            c == all_caps(false, true),
    {
        FlagCapabilities {
            std_legacy: false,
            dec: false,
            no_range_check: false,
            allow_invalid_boz: false,
            init_local_zero: false,
            no_automatic: false,
            check_bounds: false,
            d_lines_as_code: false,
            max_errors: false,
            diagnostics_plain: false,
            max_stack_var_size: false,
            default_real8: false,
            static_full: false,
            static_runtime: false,
            strip: false,
            probe_failed: true,
        }
    }
}

/// How many syntax flags are probed.
pub const SYNTAX_FLAG_COUNT: usize = 12;

/// The syntax flags, in the order they are probed.
pub open spec fn syntax_flag(i: int) -> Seq<char> {
    if i == 0 {
        "-std=legacy"@
    } else if i == 1 {
        "-fdec"@
    } else if i == 2 {
        "-fno-range-check"@
    } else if i == 3 {
        "-fallow-invalid-boz"@
    } else if i == 4 {
        "-finit-local-zero"@
    } else if i == 5 {
        "-fno-automatic"@
    } else if i == 6 {
        "-fd-lines-as-code"@
    } else if i == 7 {
        "-fcheck=bounds"@
    } else if i == 8 {
        "-fmax-errors=25"@
    } else if i == 9 {
        "-fdiagnostics-color=never"@
    } else if i == 10 {
        "-fmax-stack-var-size=0"@
    } else {
        "-fdefault-real-8"@
    }
}

pub open spec fn all_syntax_flags() -> Seq<Seq<char>> {
    Seq::new(SYNTAX_FLAG_COUNT as nat, |i: int| syntax_flag(i))
}

/// What a compiler run established: which syntax flag was accepted, given
/// one answer per flag in probe order.
pub open spec fn syntax_caps(ok: Seq<bool>) -> FlagCapabilities {
    FlagCapabilities {
        std_legacy: ok[0],
        dec: ok[1],
        no_range_check: ok[2],
        allow_invalid_boz: ok[3],
        init_local_zero: ok[4],
        no_automatic: ok[5],
        d_lines_as_code: ok[6],
        check_bounds: ok[7],
        max_errors: ok[8],
        diagnostics_plain: ok[9],
        max_stack_var_size: ok[10],
        default_real8: ok[11],
        static_full: false,
        static_runtime: false,
        strip: false,
        probe_failed: false,
    }
}

/// What to ask the compiler next, or what the answers add up to.
pub enum ProbeRequest {
    /// Run `-fsyntax-only` with these flags; report whether it succeeded.
    Syntax(Vec<String>),
    /// Link with these flags; report whether it succeeded.
    Link(Vec<String>),
    /// Finished.
    Done(FlagCapabilities),
}

pub enum PlanSpec {
    Syntax(Seq<Seq<char>>),
    Link(Seq<Seq<char>>),
    Done(FlagCapabilities),
}

pub open spec fn request_view(r: ProbeRequest) -> PlanSpec {
    match r {
        ProbeRequest::Syntax(v) => PlanSpec::Syntax(views(v@)),
        ProbeRequest::Link(v) => PlanSpec::Link(views(v@)),
        ProbeRequest::Done(c) => PlanSpec::Done(c),
    }
}

pub open spec fn runtime_flags() -> Seq<Seq<char>> {
    seq!["-static-libgfortran"@, "-static-libgcc"@]
}

pub open spec fn full_static_flags() -> Seq<Seq<char>> {
    seq!["-static-libgfortran"@, "-static-libgcc"@, "-static"@]
}

/// The three link probes, starting at answer `k`, on top of `caps`.
pub open spec fn link_plan(a: Seq<bool>, k: int, caps: FlagCapabilities) -> PlanSpec {
    if a.len() == k {
        PlanSpec::Link(runtime_flags())
    } else if a.len() == k + 1 {
        PlanSpec::Link(full_static_flags())
    } else if a.len() == k + 2 {
        PlanSpec::Link(seq!["-s"@])
    } else {
        PlanSpec::Done(
            FlagCapabilities { static_runtime: a[k], static_full: a[k + 1], strip: a[k + 2], ..caps },
        )
    }
}

/// The probe, as a function of the answers so far: first whether the compiler
/// runs at all (if not, nothing optional is assumed), then every syntax flag at
/// once, then, only if that failed, each flag on its own; then three links.
pub open spec fn probe_plan(a: Seq<bool>) -> PlanSpec {
    let n = SYNTAX_FLAG_COUNT as int;
    if a.len() == 0 {
        PlanSpec::Syntax(Seq::empty())
    } else if !a[0] {
        PlanSpec::Done(all_caps(false, true))
    } else if a.len() == 1 {
        PlanSpec::Syntax(all_syntax_flags())
    } else if a[1] {
        link_plan(a, 2, all_caps(true, false))
    } else if a.len() < 2 + n {
        PlanSpec::Syntax(seq![syntax_flag(a.len() - 2)])
    } else {
        link_plan(a, 2 + n, syntax_caps(a.subrange(2, 2 + n)))
    }
}

fn flag_at(i: usize) -> (s: String)
    requires
        i < SYNTAX_FLAG_COUNT,
    ensures
        s@ == syntax_flag(i as int),
{
    let f = if i == 0 {
        "-std=legacy"
    } else if i == 1 {
        "-fdec"
    } else if i == 2 {
        "-fno-range-check"
    } else if i == 3 {
        "-fallow-invalid-boz"
    } else if i == 4 {
        "-finit-local-zero"
    } else if i == 5 {
        "-fno-automatic"
    } else if i == 6 {
        "-fd-lines-as-code"
    } else if i == 7 {
        "-fcheck=bounds"
    } else if i == 8 {
        "-fmax-errors=25"
    } else if i == 9 {
        "-fdiagnostics-color=never"
    } else if i == 10 {
        "-fmax-stack-var-size=0"
    } else {
        "-fdefault-real-8"
    };
    owned(f)
}

fn link_request(a: &Vec<bool>, k: usize, caps: FlagCapabilities) -> (r: ProbeRequest)
    requires
        k <= a@.len(),
    ensures
        request_view(r) == link_plan(a@, k as int, caps),
{
    let n = a.len();
    if n == k {
        let mut v: Vec<String> = Vec::new();
        push_string(&mut v, "-static-libgfortran");
        push_string(&mut v, "-static-libgcc");
        assert(views(v@) =~= runtime_flags());
        ProbeRequest::Link(v)
    } else if n - k == 1 {
        let mut v: Vec<String> = Vec::new();
        push_string(&mut v, "-static-libgfortran");
        push_string(&mut v, "-static-libgcc");
        push_string(&mut v, "-static");
        assert(views(v@) =~= full_static_flags());
        ProbeRequest::Link(v)
    } else if n - k == 2 {
        let mut v: Vec<String> = Vec::new();
        push_string(&mut v, "-s");
        assert(views(v@) =~= seq!["-s"@]);
        ProbeRequest::Link(v)
    } else {
        ProbeRequest::Done(
            FlagCapabilities {
                static_runtime: a[k],
                static_full: a[k + 1],
                strip: a[k + 2],
                ..caps
            },
        )
    }
}

/// The next request for a history of answers.
pub fn plan_of(a: &Vec<bool>) -> (r: ProbeRequest)
    ensures
        request_view(r) == probe_plan(a@),
{
    let n = a.len();
    if n == 0 {
        let v: Vec<String> = Vec::new();
        assert(views(v@) =~= Seq::<Seq<char>>::empty());
        return ProbeRequest::Syntax(v);
    }
    if !a[0] {
        return ProbeRequest::Done(FlagCapabilities::conservative());
    }
    if n == 1 {
        let mut v: Vec<String> = Vec::new();
        for i in 0..SYNTAX_FLAG_COUNT
            invariant
                views(v@) == all_syntax_flags().take(i as int),
        {
            let f = flag_at(i);
            let ghost before = v@;
            v.push(f);
            proof {
                lemma_views_push(before, f);
            }
            assert(views(v@) =~= all_syntax_flags().take(i + 1));
        }
        assert(all_syntax_flags().take(SYNTAX_FLAG_COUNT as int) =~= all_syntax_flags());
        return ProbeRequest::Syntax(v);
    }
    if a[1] {
        return link_request(a, 2, FlagCapabilities::optimistic());
    }
    if n < 2 + SYNTAX_FLAG_COUNT {
        let mut v: Vec<String> = Vec::new();
        let f = flag_at(n - 2);
        v.push(f);
        proof {
            lemma_views_push(Seq::empty(), f);
        }
        assert(views(v@) =~= seq![syntax_flag(n - 2)]);
        return ProbeRequest::Syntax(v);
    }
    let caps = FlagCapabilities {
        std_legacy: a[2],
        dec: a[3],
        no_range_check: a[4],
        allow_invalid_boz: a[5],
        init_local_zero: a[6],
        no_automatic: a[7],
        d_lines_as_code: a[8],
        check_bounds: a[9],
        max_errors: a[10],
        diagnostics_plain: a[11],
        max_stack_var_size: a[12],
        default_real8: a[13],
        static_full: false,
        static_runtime: false,
        strip: false,
        probe_failed: false,
    };
    assert(caps == syntax_caps(a@.subrange(2, 2 + SYNTAX_FLAG_COUNT as int)));
    link_request(a, 2 + SYNTAX_FLAG_COUNT, caps)
}

/// A probe in progress: the answers the compiler has given so far.
pub struct Prober {
    answers: Vec<bool>,
}

impl View for Prober {
    type V = Seq<bool>;

    closed spec fn view(&self) -> Seq<bool> {
        self.answers@
    }
}

impl Prober {
    /// A new probe and its first request.
    pub fn new() -> (r: (Prober, ProbeRequest))
        ensures
            r.0@ == Seq::<bool>::empty(),
            request_view(r.1) == probe_plan(Seq::empty()),
    {
        let p = Prober { answers: Vec::new() };
        let first = plan_of(&p.answers);
        (p, first)
    }

    /// Record whether the last request succeeded, and say what to do next.
    pub fn report(&mut self, ok: bool) -> (r: ProbeRequest)
        ensures
            final(self)@ == old(self)@.push(ok),
            request_view(r) == probe_plan(old(self)@.push(ok)),
    {
        self.answers.push(ok);
        plan_of(&self.answers)
    }
}

/// A probe that could not run the compiler assumes nothing optional.
pub proof fn law_a_compiler_that_does_not_run_is_conservative(rest: Seq<bool>)
    ensures
        probe_plan(seq![false] + rest) == PlanSpec::Done(all_caps(false, true)),
{
    assert((seq![false] + rest)[0] == false);
}

/// The probe always finishes: after at most seventeen answers it is done.
pub proof fn law_the_probe_ends(a: Seq<bool>)
    requires
        a.len() >= 2 + SYNTAX_FLAG_COUNT + 3,
    ensures
        probe_plan(a) is Done,
{
}

/// Where the link probes start in the answers: after the one syntax probe of
/// every flag when it passed, after the flag-by-flag probes when it did not.
pub open spec fn link_start(a: Seq<bool>) -> int {
    if a[1] {
        2
    } else {
        2 + SYNTAX_FLAG_COUNT as int
    }
}

/// Which request the `i`th answer replied to, for the three link probes.
proof fn lemma_link_asked_at(a: Seq<bool>, i: int)
    requires
        a.len() >= 2,
        a[0],
        0 <= i <= a.len(),
    ensures
        (probe_plan(a.take(i)) == PlanSpec::Link(runtime_flags())) == (i == link_start(a)),
        (probe_plan(a.take(i)) == PlanSpec::Link(full_static_flags())) == (i == link_start(a) + 1),
        (probe_plan(a.take(i)) == PlanSpec::Link(seq!["-s"@])) == (i == link_start(a) + 2),
{
    let t = a.take(i);
    assert(runtime_flags().len() == 2);
    assert(full_static_flags().len() == 3);
    assert(seq!["-s"@].len() == 1);
    if i >= 2 {
        assert(t[0] == a[0]);
        assert(t[1] == a[1]);
        assert(t.len() == i);
    } else if i == 1 {
        assert(t[0] == a[0]);
    }
}

/// Each link probe decides its own capability and nothing else: the answer to
/// the runtime-only static link is whether the runtime may be linked
/// statically, the answer to the fully static link is whether `-static` may be
/// used, and the answer to the stripped link is whether `-s` may be. A
/// compiler that does not run is granted none of them.
pub proof fn law_each_link_probe_decides_its_own_capability(a: Seq<bool>, c: FlagCapabilities)
    requires
        probe_plan(a) == PlanSpec::Done(c),
    ensures
        forall|i: int|
            0 <= i < a.len() && #[trigger] probe_plan(a.take(i)) == PlanSpec::Link(runtime_flags())
                ==> c.static_runtime == a[i],
        forall|i: int|
            0 <= i < a.len() && #[trigger] probe_plan(a.take(i)) == PlanSpec::Link(full_static_flags())
                ==> c.static_full == a[i],
        forall|i: int|
            0 <= i < a.len() && #[trigger] probe_plan(a.take(i)) == PlanSpec::Link(seq!["-s"@])
                ==> c.strip == a[i],
        a[0] ==> (exists|i: int|
            0 <= i < a.len() && #[trigger] probe_plan(a.take(i)) == PlanSpec::Link(runtime_flags())),
        a[0] ==> (exists|i: int|
            0 <= i < a.len() && #[trigger] probe_plan(a.take(i)) == PlanSpec::Link(full_static_flags())),
        a[0] ==> (exists|i: int|
            0 <= i < a.len() && #[trigger] probe_plan(a.take(i)) == PlanSpec::Link(seq!["-s"@])),
        !a[0] ==> !c.static_runtime && !c.static_full && !c.strip,
{
    if a[0] {
        assert(a.len() >= 2);
        let k = link_start(a);
        assert(a.len() >= k + 3);
        assert forall|i: int| 0 <= i < a.len() implies (#[trigger] probe_plan(a.take(i))
            == PlanSpec::Link(runtime_flags()) ==> c.static_runtime == a[i]) && (probe_plan(a.take(i))
            == PlanSpec::Link(full_static_flags()) ==> c.static_full == a[i]) && (probe_plan(a.take(i))
            == PlanSpec::Link(seq!["-s"@]) ==> c.strip == a[i]) by {
            lemma_link_asked_at(a, i);
        }
        lemma_link_asked_at(a, k);
        lemma_link_asked_at(a, k + 1);
        lemma_link_asked_at(a, k + 2);
    } else {
        assert forall|i: int| 0 <= i < a.len() implies !(#[trigger] probe_plan(a.take(i)) is Link) by {
            if i > 0 {
                assert(a.take(i)[0] == a[0]);
            }
        }
    }
}

/// What a compiler that accepts the flag `f` is granted: the capability of
/// that name.
pub open spec fn grants(c: FlagCapabilities, f: Seq<char>) -> bool {
    if f == "-std=legacy"@ {
        c.std_legacy
    } else if f == "-fdec"@ {
        c.dec
    } else if f == "-fno-range-check"@ {
        c.no_range_check
    } else if f == "-fallow-invalid-boz"@ {
        c.allow_invalid_boz
    } else if f == "-finit-local-zero"@ {
        c.init_local_zero
    } else if f == "-fno-automatic"@ {
        c.no_automatic
    } else if f == "-fd-lines-as-code"@ {
        c.d_lines_as_code
    } else if f == "-fcheck=bounds"@ {
        c.check_bounds
    } else if f == "-fmax-errors=25"@ {
        c.max_errors
    } else if f == "-fdiagnostics-color=never"@ {
        c.diagnostics_plain
    } else if f == "-fmax-stack-var-size=0"@ {
        c.max_stack_var_size
    } else if f == "-fdefault-real-8"@ {
        c.default_real8
    } else {
        false
    }
}

proof fn lemma_syntax_flags_distinct()
    ensures
        forall|i: int, j: int| 0 <= i < j < SYNTAX_FLAG_COUNT ==> syntax_flag(i) != syntax_flag(j),
{
    reveal_strlit("-std=legacy");
    reveal_strlit("-fdec");
    reveal_strlit("-fno-range-check");
    reveal_strlit("-fallow-invalid-boz");
    reveal_strlit("-finit-local-zero");
    reveal_strlit("-fno-automatic");
    reveal_strlit("-fd-lines-as-code");
    reveal_strlit("-fcheck=bounds");
    reveal_strlit("-fmax-errors=25");
    reveal_strlit("-fdiagnostics-color=never");
    reveal_strlit("-fmax-stack-var-size=0");
    reveal_strlit("-fdefault-real-8");
    assert("-std=legacy"@.len() != "-fdec"@.len());
    assert("-std=legacy"@.len() != "-fno-range-check"@.len());
    assert("-std=legacy"@.len() != "-fallow-invalid-boz"@.len());
    assert("-std=legacy"@.len() != "-finit-local-zero"@.len());
    assert("-std=legacy"@.len() != "-fno-automatic"@.len());
    assert("-std=legacy"@.len() != "-fd-lines-as-code"@.len());
    assert("-std=legacy"@.len() != "-fcheck=bounds"@.len());
    assert("-std=legacy"@.len() != "-fmax-errors=25"@.len());
    assert("-std=legacy"@.len() != "-fdiagnostics-color=never"@.len());
    assert("-std=legacy"@.len() != "-fmax-stack-var-size=0"@.len());
    assert("-std=legacy"@.len() != "-fdefault-real-8"@.len());
    assert("-fdec"@.len() != "-fno-range-check"@.len());
    assert("-fdec"@.len() != "-fallow-invalid-boz"@.len());
    assert("-fdec"@.len() != "-finit-local-zero"@.len());
    assert("-fdec"@.len() != "-fno-automatic"@.len());
    assert("-fdec"@.len() != "-fd-lines-as-code"@.len());
    assert("-fdec"@.len() != "-fcheck=bounds"@.len());
    assert("-fdec"@.len() != "-fmax-errors=25"@.len());
    assert("-fdec"@.len() != "-fdiagnostics-color=never"@.len());
    assert("-fdec"@.len() != "-fmax-stack-var-size=0"@.len());
    assert("-fdec"@.len() != "-fdefault-real-8"@.len());
    assert("-fno-range-check"@.len() != "-fallow-invalid-boz"@.len());
    assert("-fno-range-check"@.len() != "-finit-local-zero"@.len());
    assert("-fno-range-check"@.len() != "-fno-automatic"@.len());
    assert("-fno-range-check"@.len() != "-fd-lines-as-code"@.len());
    assert("-fno-range-check"@.len() != "-fcheck=bounds"@.len());
    assert("-fno-range-check"@.len() != "-fmax-errors=25"@.len());
    assert("-fno-range-check"@.len() != "-fdiagnostics-color=never"@.len());
    assert("-fno-range-check"@.len() != "-fmax-stack-var-size=0"@.len());
    assert("-fno-range-check"@[2] != "-fdefault-real-8"@[2]);
    assert("-fallow-invalid-boz"@.len() != "-finit-local-zero"@.len());
    assert("-fallow-invalid-boz"@.len() != "-fno-automatic"@.len());
    assert("-fallow-invalid-boz"@.len() != "-fd-lines-as-code"@.len());
    assert("-fallow-invalid-boz"@.len() != "-fcheck=bounds"@.len());
    assert("-fallow-invalid-boz"@.len() != "-fmax-errors=25"@.len());
    assert("-fallow-invalid-boz"@.len() != "-fdiagnostics-color=never"@.len());
    assert("-fallow-invalid-boz"@.len() != "-fmax-stack-var-size=0"@.len());
    assert("-fallow-invalid-boz"@.len() != "-fdefault-real-8"@.len());
    assert("-finit-local-zero"@.len() != "-fno-automatic"@.len());
    assert("-finit-local-zero"@[2] != "-fd-lines-as-code"@[2]);
    assert("-finit-local-zero"@.len() != "-fcheck=bounds"@.len());
    assert("-finit-local-zero"@.len() != "-fmax-errors=25"@.len());
    assert("-finit-local-zero"@.len() != "-fdiagnostics-color=never"@.len());
    assert("-finit-local-zero"@.len() != "-fmax-stack-var-size=0"@.len());
    assert("-finit-local-zero"@.len() != "-fdefault-real-8"@.len());
    assert("-fno-automatic"@.len() != "-fd-lines-as-code"@.len());
    assert("-fno-automatic"@[2] != "-fcheck=bounds"@[2]);
    assert("-fno-automatic"@.len() != "-fmax-errors=25"@.len());
    assert("-fno-automatic"@.len() != "-fdiagnostics-color=never"@.len());
    assert("-fno-automatic"@.len() != "-fmax-stack-var-size=0"@.len());
    assert("-fno-automatic"@.len() != "-fdefault-real-8"@.len());
    assert("-fd-lines-as-code"@.len() != "-fcheck=bounds"@.len());
    assert("-fd-lines-as-code"@.len() != "-fmax-errors=25"@.len());
    assert("-fd-lines-as-code"@.len() != "-fdiagnostics-color=never"@.len());
    assert("-fd-lines-as-code"@.len() != "-fmax-stack-var-size=0"@.len());
    assert("-fd-lines-as-code"@.len() != "-fdefault-real-8"@.len());
    assert("-fcheck=bounds"@.len() != "-fmax-errors=25"@.len());
    assert("-fcheck=bounds"@.len() != "-fdiagnostics-color=never"@.len());
    assert("-fcheck=bounds"@.len() != "-fmax-stack-var-size=0"@.len());
    assert("-fcheck=bounds"@.len() != "-fdefault-real-8"@.len());
    assert("-fmax-errors=25"@.len() != "-fdiagnostics-color=never"@.len());
    assert("-fmax-errors=25"@.len() != "-fmax-stack-var-size=0"@.len());
    assert("-fmax-errors=25"@.len() != "-fdefault-real-8"@.len());
    assert("-fdiagnostics-color=never"@.len() != "-fmax-stack-var-size=0"@.len());
    assert("-fdiagnostics-color=never"@.len() != "-fdefault-real-8"@.len());
    assert("-fmax-stack-var-size=0"@.len() != "-fdefault-real-8"@.len());
    assert forall|i: int, j: int| 0 <= i < j < SYNTAX_FLAG_COUNT implies syntax_flag(i) != syntax_flag(j) by {
        if i == 0 {
            if j == 1 { assert(syntax_flag(i) == "-std=legacy"@); assert(syntax_flag(j) == "-fdec"@); }
            if j == 2 { assert(syntax_flag(i) == "-std=legacy"@); assert(syntax_flag(j) == "-fno-range-check"@); }
            if j == 3 { assert(syntax_flag(i) == "-std=legacy"@); assert(syntax_flag(j) == "-fallow-invalid-boz"@); }
            if j == 4 { assert(syntax_flag(i) == "-std=legacy"@); assert(syntax_flag(j) == "-finit-local-zero"@); }
            if j == 5 { assert(syntax_flag(i) == "-std=legacy"@); assert(syntax_flag(j) == "-fno-automatic"@); }
            if j == 6 { assert(syntax_flag(i) == "-std=legacy"@); assert(syntax_flag(j) == "-fd-lines-as-code"@); }
            if j == 7 { assert(syntax_flag(i) == "-std=legacy"@); assert(syntax_flag(j) == "-fcheck=bounds"@); }
            if j == 8 { assert(syntax_flag(i) == "-std=legacy"@); assert(syntax_flag(j) == "-fmax-errors=25"@); }
            if j == 9 { assert(syntax_flag(i) == "-std=legacy"@); assert(syntax_flag(j) == "-fdiagnostics-color=never"@); }
            if j == 10 { assert(syntax_flag(i) == "-std=legacy"@); assert(syntax_flag(j) == "-fmax-stack-var-size=0"@); }
            if j == 11 { assert(syntax_flag(i) == "-std=legacy"@); assert(syntax_flag(j) == "-fdefault-real-8"@); }
        } else if i == 1 {
            if j == 2 { assert(syntax_flag(i) == "-fdec"@); assert(syntax_flag(j) == "-fno-range-check"@); }
            if j == 3 { assert(syntax_flag(i) == "-fdec"@); assert(syntax_flag(j) == "-fallow-invalid-boz"@); }
            if j == 4 { assert(syntax_flag(i) == "-fdec"@); assert(syntax_flag(j) == "-finit-local-zero"@); }
            if j == 5 { assert(syntax_flag(i) == "-fdec"@); assert(syntax_flag(j) == "-fno-automatic"@); }
            if j == 6 { assert(syntax_flag(i) == "-fdec"@); assert(syntax_flag(j) == "-fd-lines-as-code"@); }
            if j == 7 { assert(syntax_flag(i) == "-fdec"@); assert(syntax_flag(j) == "-fcheck=bounds"@); }
            if j == 8 { assert(syntax_flag(i) == "-fdec"@); assert(syntax_flag(j) == "-fmax-errors=25"@); }
            if j == 9 { assert(syntax_flag(i) == "-fdec"@); assert(syntax_flag(j) == "-fdiagnostics-color=never"@); }
            if j == 10 { assert(syntax_flag(i) == "-fdec"@); assert(syntax_flag(j) == "-fmax-stack-var-size=0"@); }
            if j == 11 { assert(syntax_flag(i) == "-fdec"@); assert(syntax_flag(j) == "-fdefault-real-8"@); }
        } else if i == 2 {
            if j == 3 { assert(syntax_flag(i) == "-fno-range-check"@); assert(syntax_flag(j) == "-fallow-invalid-boz"@); }
            if j == 4 { assert(syntax_flag(i) == "-fno-range-check"@); assert(syntax_flag(j) == "-finit-local-zero"@); }
            if j == 5 { assert(syntax_flag(i) == "-fno-range-check"@); assert(syntax_flag(j) == "-fno-automatic"@); }
            if j == 6 { assert(syntax_flag(i) == "-fno-range-check"@); assert(syntax_flag(j) == "-fd-lines-as-code"@); }
            if j == 7 { assert(syntax_flag(i) == "-fno-range-check"@); assert(syntax_flag(j) == "-fcheck=bounds"@); }
            if j == 8 { assert(syntax_flag(i) == "-fno-range-check"@); assert(syntax_flag(j) == "-fmax-errors=25"@); }
            if j == 9 { assert(syntax_flag(i) == "-fno-range-check"@); assert(syntax_flag(j) == "-fdiagnostics-color=never"@); }
            if j == 10 { assert(syntax_flag(i) == "-fno-range-check"@); assert(syntax_flag(j) == "-fmax-stack-var-size=0"@); }
            if j == 11 { assert(syntax_flag(i) == "-fno-range-check"@); assert(syntax_flag(j) == "-fdefault-real-8"@); }
        } else if i == 3 {
            if j == 4 { assert(syntax_flag(i) == "-fallow-invalid-boz"@); assert(syntax_flag(j) == "-finit-local-zero"@); }
            if j == 5 { assert(syntax_flag(i) == "-fallow-invalid-boz"@); assert(syntax_flag(j) == "-fno-automatic"@); }
            if j == 6 { assert(syntax_flag(i) == "-fallow-invalid-boz"@); assert(syntax_flag(j) == "-fd-lines-as-code"@); }
            if j == 7 { assert(syntax_flag(i) == "-fallow-invalid-boz"@); assert(syntax_flag(j) == "-fcheck=bounds"@); }
            if j == 8 { assert(syntax_flag(i) == "-fallow-invalid-boz"@); assert(syntax_flag(j) == "-fmax-errors=25"@); }
            if j == 9 { assert(syntax_flag(i) == "-fallow-invalid-boz"@); assert(syntax_flag(j) == "-fdiagnostics-color=never"@); }
            if j == 10 { assert(syntax_flag(i) == "-fallow-invalid-boz"@); assert(syntax_flag(j) == "-fmax-stack-var-size=0"@); }
            if j == 11 { assert(syntax_flag(i) == "-fallow-invalid-boz"@); assert(syntax_flag(j) == "-fdefault-real-8"@); }
        } else if i == 4 {
            if j == 5 { assert(syntax_flag(i) == "-finit-local-zero"@); assert(syntax_flag(j) == "-fno-automatic"@); }
            if j == 6 { assert(syntax_flag(i) == "-finit-local-zero"@); assert(syntax_flag(j) == "-fd-lines-as-code"@); }
            if j == 7 { assert(syntax_flag(i) == "-finit-local-zero"@); assert(syntax_flag(j) == "-fcheck=bounds"@); }
            if j == 8 { assert(syntax_flag(i) == "-finit-local-zero"@); assert(syntax_flag(j) == "-fmax-errors=25"@); }
            if j == 9 { assert(syntax_flag(i) == "-finit-local-zero"@); assert(syntax_flag(j) == "-fdiagnostics-color=never"@); }
            if j == 10 { assert(syntax_flag(i) == "-finit-local-zero"@); assert(syntax_flag(j) == "-fmax-stack-var-size=0"@); }
            if j == 11 { assert(syntax_flag(i) == "-finit-local-zero"@); assert(syntax_flag(j) == "-fdefault-real-8"@); }
        } else if i == 5 {
            if j == 6 { assert(syntax_flag(i) == "-fno-automatic"@); assert(syntax_flag(j) == "-fd-lines-as-code"@); }
            if j == 7 { assert(syntax_flag(i) == "-fno-automatic"@); assert(syntax_flag(j) == "-fcheck=bounds"@); }
            if j == 8 { assert(syntax_flag(i) == "-fno-automatic"@); assert(syntax_flag(j) == "-fmax-errors=25"@); }
            if j == 9 { assert(syntax_flag(i) == "-fno-automatic"@); assert(syntax_flag(j) == "-fdiagnostics-color=never"@); }
            if j == 10 { assert(syntax_flag(i) == "-fno-automatic"@); assert(syntax_flag(j) == "-fmax-stack-var-size=0"@); }
            if j == 11 { assert(syntax_flag(i) == "-fno-automatic"@); assert(syntax_flag(j) == "-fdefault-real-8"@); }
        } else if i == 6 {
            if j == 7 { assert(syntax_flag(i) == "-fd-lines-as-code"@); assert(syntax_flag(j) == "-fcheck=bounds"@); }
            if j == 8 { assert(syntax_flag(i) == "-fd-lines-as-code"@); assert(syntax_flag(j) == "-fmax-errors=25"@); }
            if j == 9 { assert(syntax_flag(i) == "-fd-lines-as-code"@); assert(syntax_flag(j) == "-fdiagnostics-color=never"@); }
            if j == 10 { assert(syntax_flag(i) == "-fd-lines-as-code"@); assert(syntax_flag(j) == "-fmax-stack-var-size=0"@); }
            if j == 11 { assert(syntax_flag(i) == "-fd-lines-as-code"@); assert(syntax_flag(j) == "-fdefault-real-8"@); }
        } else if i == 7 {
            if j == 8 { assert(syntax_flag(i) == "-fcheck=bounds"@); assert(syntax_flag(j) == "-fmax-errors=25"@); }
            if j == 9 { assert(syntax_flag(i) == "-fcheck=bounds"@); assert(syntax_flag(j) == "-fdiagnostics-color=never"@); }
            if j == 10 { assert(syntax_flag(i) == "-fcheck=bounds"@); assert(syntax_flag(j) == "-fmax-stack-var-size=0"@); }
            if j == 11 { assert(syntax_flag(i) == "-fcheck=bounds"@); assert(syntax_flag(j) == "-fdefault-real-8"@); }
        } else if i == 8 {
            if j == 9 { assert(syntax_flag(i) == "-fmax-errors=25"@); assert(syntax_flag(j) == "-fdiagnostics-color=never"@); }
            if j == 10 { assert(syntax_flag(i) == "-fmax-errors=25"@); assert(syntax_flag(j) == "-fmax-stack-var-size=0"@); }
            if j == 11 { assert(syntax_flag(i) == "-fmax-errors=25"@); assert(syntax_flag(j) == "-fdefault-real-8"@); }
        } else if i == 9 {
            if j == 10 { assert(syntax_flag(i) == "-fdiagnostics-color=never"@); assert(syntax_flag(j) == "-fmax-stack-var-size=0"@); }
            if j == 11 { assert(syntax_flag(i) == "-fdiagnostics-color=never"@); assert(syntax_flag(j) == "-fdefault-real-8"@); }
        } else if i == 10 {
            if j == 11 { assert(syntax_flag(i) == "-fmax-stack-var-size=0"@); assert(syntax_flag(j) == "-fdefault-real-8"@); }
        } else if i == 11 {
        }
    }
}

proof fn lemma_grants_syntax_caps(ok: Seq<bool>, caps: FlagCapabilities, j: int)
    requires
        ok.len() == SYNTAX_FLAG_COUNT,
        0 <= j < SYNTAX_FLAG_COUNT,
        caps.std_legacy == syntax_caps(ok).std_legacy,
        caps.dec == syntax_caps(ok).dec,
        caps.no_range_check == syntax_caps(ok).no_range_check,
        caps.allow_invalid_boz == syntax_caps(ok).allow_invalid_boz,
        caps.init_local_zero == syntax_caps(ok).init_local_zero,
        caps.no_automatic == syntax_caps(ok).no_automatic,
        caps.d_lines_as_code == syntax_caps(ok).d_lines_as_code,
        caps.check_bounds == syntax_caps(ok).check_bounds,
        caps.max_errors == syntax_caps(ok).max_errors,
        caps.diagnostics_plain == syntax_caps(ok).diagnostics_plain,
        caps.max_stack_var_size == syntax_caps(ok).max_stack_var_size,
        caps.default_real8 == syntax_caps(ok).default_real8,
    ensures
        grants(caps, syntax_flag(j)) == ok[j],
{
    lemma_syntax_flags_distinct();
    reveal_strlit("-std=legacy");
    reveal_strlit("-fdec");
    reveal_strlit("-fno-range-check");
    reveal_strlit("-fallow-invalid-boz");
    reveal_strlit("-finit-local-zero");
    reveal_strlit("-fno-automatic");
    reveal_strlit("-fd-lines-as-code");
    reveal_strlit("-fcheck=bounds");
    reveal_strlit("-fmax-errors=25");
    reveal_strlit("-fdiagnostics-color=never");
    reveal_strlit("-fmax-stack-var-size=0");
    reveal_strlit("-fdefault-real-8");
    if j == 0 {
        assert(syntax_flag(j) == "-std=legacy"@);
    } else if j == 1 {
        assert(syntax_flag(j) == "-fdec"@);
        assert("-fdec"@.len() != "-std=legacy"@.len());
    } else if j == 2 {
        assert(syntax_flag(j) == "-fno-range-check"@);
        assert("-fno-range-check"@.len() != "-std=legacy"@.len());
        assert("-fno-range-check"@.len() != "-fdec"@.len());
    } else if j == 3 {
        assert(syntax_flag(j) == "-fallow-invalid-boz"@);
        assert("-fallow-invalid-boz"@.len() != "-std=legacy"@.len());
        assert("-fallow-invalid-boz"@.len() != "-fdec"@.len());
        assert("-fallow-invalid-boz"@.len() != "-fno-range-check"@.len());
    } else if j == 4 {
        assert(syntax_flag(j) == "-finit-local-zero"@);
        assert("-finit-local-zero"@.len() != "-std=legacy"@.len());
        assert("-finit-local-zero"@.len() != "-fdec"@.len());
        assert("-finit-local-zero"@.len() != "-fno-range-check"@.len());
        assert("-finit-local-zero"@.len() != "-fallow-invalid-boz"@.len());
    } else if j == 5 {
        assert(syntax_flag(j) == "-fno-automatic"@);
        assert("-fno-automatic"@.len() != "-std=legacy"@.len());
        assert("-fno-automatic"@.len() != "-fdec"@.len());
        assert("-fno-automatic"@.len() != "-fno-range-check"@.len());
        assert("-fno-automatic"@.len() != "-fallow-invalid-boz"@.len());
        assert("-fno-automatic"@.len() != "-finit-local-zero"@.len());
    } else if j == 6 {
        assert(syntax_flag(j) == "-fd-lines-as-code"@);
        assert("-fd-lines-as-code"@.len() != "-std=legacy"@.len());
        assert("-fd-lines-as-code"@.len() != "-fdec"@.len());
        assert("-fd-lines-as-code"@.len() != "-fno-range-check"@.len());
        assert("-fd-lines-as-code"@.len() != "-fallow-invalid-boz"@.len());
        assert("-fd-lines-as-code"@[2] != "-finit-local-zero"@[2]);
        assert("-fd-lines-as-code"@.len() != "-fno-automatic"@.len());
    } else if j == 7 {
        assert(syntax_flag(j) == "-fcheck=bounds"@);
        assert("-fcheck=bounds"@.len() != "-std=legacy"@.len());
        assert("-fcheck=bounds"@.len() != "-fdec"@.len());
        assert("-fcheck=bounds"@.len() != "-fno-range-check"@.len());
        assert("-fcheck=bounds"@.len() != "-fallow-invalid-boz"@.len());
        assert("-fcheck=bounds"@.len() != "-finit-local-zero"@.len());
        assert("-fcheck=bounds"@[2] != "-fno-automatic"@[2]);
        assert("-fcheck=bounds"@.len() != "-fd-lines-as-code"@.len());
    } else if j == 8 {
        assert(syntax_flag(j) == "-fmax-errors=25"@);
        assert("-fmax-errors=25"@.len() != "-std=legacy"@.len());
        assert("-fmax-errors=25"@.len() != "-fdec"@.len());
        assert("-fmax-errors=25"@.len() != "-fno-range-check"@.len());
        assert("-fmax-errors=25"@.len() != "-fallow-invalid-boz"@.len());
        assert("-fmax-errors=25"@.len() != "-finit-local-zero"@.len());
        assert("-fmax-errors=25"@.len() != "-fno-automatic"@.len());
        assert("-fmax-errors=25"@.len() != "-fd-lines-as-code"@.len());
        assert("-fmax-errors=25"@.len() != "-fcheck=bounds"@.len());
    } else if j == 9 {
        assert(syntax_flag(j) == "-fdiagnostics-color=never"@);
        assert("-fdiagnostics-color=never"@.len() != "-std=legacy"@.len());
        assert("-fdiagnostics-color=never"@.len() != "-fdec"@.len());
        assert("-fdiagnostics-color=never"@.len() != "-fno-range-check"@.len());
        assert("-fdiagnostics-color=never"@.len() != "-fallow-invalid-boz"@.len());
        assert("-fdiagnostics-color=never"@.len() != "-finit-local-zero"@.len());
        assert("-fdiagnostics-color=never"@.len() != "-fno-automatic"@.len());
        assert("-fdiagnostics-color=never"@.len() != "-fd-lines-as-code"@.len());
        assert("-fdiagnostics-color=never"@.len() != "-fcheck=bounds"@.len());
        assert("-fdiagnostics-color=never"@.len() != "-fmax-errors=25"@.len());
    } else if j == 10 {
        assert(syntax_flag(j) == "-fmax-stack-var-size=0"@);
        assert("-fmax-stack-var-size=0"@.len() != "-std=legacy"@.len());
        assert("-fmax-stack-var-size=0"@.len() != "-fdec"@.len());
        assert("-fmax-stack-var-size=0"@.len() != "-fno-range-check"@.len());
        assert("-fmax-stack-var-size=0"@.len() != "-fallow-invalid-boz"@.len());
        assert("-fmax-stack-var-size=0"@.len() != "-finit-local-zero"@.len());
        assert("-fmax-stack-var-size=0"@.len() != "-fno-automatic"@.len());
        assert("-fmax-stack-var-size=0"@.len() != "-fd-lines-as-code"@.len());
        assert("-fmax-stack-var-size=0"@.len() != "-fcheck=bounds"@.len());
        assert("-fmax-stack-var-size=0"@.len() != "-fmax-errors=25"@.len());
        assert("-fmax-stack-var-size=0"@.len() != "-fdiagnostics-color=never"@.len());
    } else if j == 11 {
        assert(syntax_flag(j) == "-fdefault-real-8"@);
        assert("-fdefault-real-8"@.len() != "-std=legacy"@.len());
        assert("-fdefault-real-8"@.len() != "-fdec"@.len());
        assert("-fdefault-real-8"@[2] != "-fno-range-check"@[2]);
        assert("-fdefault-real-8"@.len() != "-fallow-invalid-boz"@.len());
        assert("-fdefault-real-8"@.len() != "-finit-local-zero"@.len());
        assert("-fdefault-real-8"@.len() != "-fno-automatic"@.len());
        assert("-fdefault-real-8"@.len() != "-fd-lines-as-code"@.len());
        assert("-fdefault-real-8"@.len() != "-fcheck=bounds"@.len());
        assert("-fdefault-real-8"@.len() != "-fmax-errors=25"@.len());
        assert("-fdefault-real-8"@.len() != "-fdiagnostics-color=never"@.len());
        assert("-fdefault-real-8"@.len() != "-fmax-stack-var-size=0"@.len());
    }
}

/// Each syntax flag's answer decides its own capability: when every flag at
/// once is accepted, all are granted; when not, the answer to the probe that
/// tried a flag on its own is whether that flag's capability is granted. A
/// compiler that does not run is granted none of them.
pub proof fn law_each_syntax_probe_decides_its_own_flag(a: Seq<bool>, c: FlagCapabilities)
    requires
        probe_plan(a) == PlanSpec::Done(c),
    ensures
        forall|i: int, f: Seq<char>|
            0 <= i < a.len() && #[trigger] probe_plan(a.take(i)) == PlanSpec::Syntax(seq![f]) ==> #[trigger] grants(c, f) == a[i],
        forall|i: int, j: int|
            0 <= i < a.len() && a[i] && #[trigger] probe_plan(a.take(i)) == PlanSpec::Syntax(all_syntax_flags())
                && 0 <= j < SYNTAX_FLAG_COUNT ==> #[trigger] grants(c, syntax_flag(j)),
        !a[0] ==> forall|j: int| 0 <= j < SYNTAX_FLAG_COUNT ==> !#[trigger] grants(c, syntax_flag(j)),
{
    let n = SYNTAX_FLAG_COUNT as int;
    assert(all_syntax_flags().len() == n);
    if a[0] {
        assert(a.len() >= 2);
        assert forall|i: int, f: Seq<char>|
            0 <= i < a.len() && #[trigger] probe_plan(a.take(i)) == PlanSpec::Syntax(seq![f]) implies #[trigger] grants(c, f) == a[i] by {
            let t = a.take(i);
            if i >= 2 {
                assert(t[0] == a[0]);
                assert(t[1] == a[1]);
                if !a[1] && i < 2 + n {
                    assert(seq![f][0] == f);
                    assert(seq![syntax_flag(i - 2)][0] == syntax_flag(i - 2));
                    assert(f == syntax_flag(i - 2));
                    let ok = a.subrange(2, 2 + n);
                    assert(ok[i - 2] == a[i]);
                    lemma_grants_syntax_caps(ok, c, i - 2);
                }
            } else if i == 1 {
                assert(t[0] == a[0]);
                assert(seq![f].len() == 1);
            }
        }
        assert forall|i: int, j: int|
            0 <= i < a.len() && a[i] && #[trigger] probe_plan(a.take(i)) == PlanSpec::Syntax(all_syntax_flags())
                && 0 <= j < SYNTAX_FLAG_COUNT implies #[trigger] grants(c, syntax_flag(j)) by {
            let t = a.take(i);
            if i >= 2 {
                assert(t[0] == a[0]);
                assert(t[1] == a[1]);
                if !a[1] && i < 2 + n {
                    assert(seq![syntax_flag(i - 2)].len() == 1);
                }
            } else if i == 1 {
                lemma_grants_syntax_caps(Seq::new(n as nat, |k: int| true), c, j);
            }
        }
    } else {
        assert forall|i: int, f: Seq<char>|
            0 <= i < a.len() && #[trigger] probe_plan(a.take(i)) == PlanSpec::Syntax(seq![f]) implies #[trigger] grants(c, f) == a[i] by {
            if i > 0 {
                assert(a.take(i)[0] == a[0]);
            }
        }
        assert forall|j: int| 0 <= j < SYNTAX_FLAG_COUNT implies !#[trigger] grants(c, syntax_flag(j)) by {
            lemma_grants_syntax_caps(Seq::new(n as nat, |k: int| false), c, j);
        }
    }
}

/// Arguments of a syntax probe.
pub open spec fn spec_syntax_probe_args(
    required: Seq<Seq<char>>,
    flags: Seq<Seq<char>>,
    src: Seq<char>,
) -> Seq<Seq<char>> {
    seq!["-fsyntax-only"@] + required + flags + seq!["-x"@, "f77"@, src, "-x"@, "none"@]
}

/// Arguments of a link probe.
pub open spec fn spec_link_probe_args(
    required: Seq<Seq<char>>,
    flags: Seq<Seq<char>>,
    src: Seq<char>,
    out: Seq<char>,
) -> Seq<Seq<char>> {
    required + flags + seq!["-x"@, "f77"@, src, "-x"@, "none"@, "-o"@, out]
}

/// The command line of a syntax probe, after the compiler itself.
pub fn syntax_probe_args(required: &[String], flags: &[String], src: &str) -> (v: Vec<String>)
    ensures
        views(v@) == spec_syntax_probe_args(views(required@), views(flags@), src@),
{
    let mut v: Vec<String> = Vec::new();
    push_string(&mut v, "-fsyntax-only");
    push_strings(&mut v, required);
    push_strings(&mut v, flags);
    push_string(&mut v, "-x");
    push_string(&mut v, "f77");
    push_string(&mut v, src);
    push_string(&mut v, "-x");
    push_string(&mut v, "none");
    assert(views(v@) =~= spec_syntax_probe_args(views(required@), views(flags@), src@));
    v
}

/// The command line of a link probe, after the compiler itself.
pub fn link_probe_args(required: &[String], flags: &[String], src: &str, out: &str) -> (v: Vec<
    String,
>)
    ensures
        views(v@) == spec_link_probe_args(views(required@), views(flags@), src@, out@),
{
    let mut v: Vec<String> = Vec::new();
    push_strings(&mut v, required);
    push_strings(&mut v, flags);
    push_string(&mut v, "-x");
    push_string(&mut v, "f77");
    push_string(&mut v, src);
    push_string(&mut v, "-x");
    push_string(&mut v, "none");
    push_string(&mut v, "-o");
    push_string(&mut v, out);
    assert(views(v@) =~= spec_link_probe_args(views(required@), views(flags@), src@, out@));
    v
}

} // verus!
