//! What the compile line holds of the dialect flags, flag by flag.
use crate::build::args::{
    below_root, include_flags, language_name, nonblank, rel, spec_compile_args, spec_dialect_flags,
};
use crate::pathops::join;
use crate::project::{line_length_flag, opt_level_flag, BuildOptions, Dialect};
use crate::textops::{trim, views};
use crate::toolchain::probe::FlagCapabilities;
use vstd::prelude::*;

verus! {

/// The flags each of which one option and one probed capability decide.
pub open spec fn dialect_flag(f: Seq<char>) -> bool {
    f == "-fdec"@ || f == "-fno-automatic"@ || f == "-finit-local-zero"@ || f == "-fd-lines-as-code"@ || f == "-fdefault-real-8"@ || f == "-fno-range-check"@ || f == "-fallow-invalid-boz"@ || f == "-fmax-stack-var-size=0"@ || f == "-fcheck=bounds"@ || f == "-std=legacy"@
}

/// Two flags are the same flag.
spec fn same(a: Seq<char>, b: Seq<char>) -> bool {
    a == b
}

/// `s` holds `x`; opaque, so that long command lines are reasoned about one
/// piece at a time.
#[verifier::opaque]
spec fn lists(s: Seq<Seq<char>>, x: Seq<char>) -> bool {
    s.contains(x)
}

proof fn lemma_lists_add(a: Seq<Seq<char>>, b: Seq<Seq<char>>, x: Seq<char>)
    ensures
        lists(a + b, x) == (lists(a, x) || lists(b, x)),
{
    reveal(lists);
    lemma_contains_add(a, b, x);
}

proof fn lemma_lists_push(a: Seq<Seq<char>>, y: Seq<char>, x: Seq<char>)
    ensures
        lists(a.push(y), x) == (lists(a, x) || same(y, x)),
{
    reveal(lists);
    lemma_contains_push(a, y, x);
}

proof fn lemma_lists_when(b: bool, g: Seq<char>, x: Seq<char>)
    ensures
        lists(crate::build::args::when(b, g), x) == (b && same(g, x)),
{
    reveal(lists);
    lemma_when_contains(b, g, x);
}

proof fn lemma_contains_add(a: Seq<Seq<char>>, b: Seq<Seq<char>>, x: Seq<char>)
    ensures
        (a + b).contains(x) == (a.contains(x) || b.contains(x)),
{
    if (a + b).contains(x) {
        let i = choose|i: int| 0 <= i < (a + b).len() && (a + b)[i] == x;
        if i < a.len() {
            assert(a[i] == x);
        } else {
            assert(b[i - a.len()] == x);
        }
    }
    if a.contains(x) {
        let i = choose|i: int| 0 <= i < a.len() && a[i] == x;
        assert((a + b)[i] == x);
    }
    if b.contains(x) {
        let i = choose|i: int| 0 <= i < b.len() && b[i] == x;
        assert((a + b)[i + a.len()] == x);
    }
}

proof fn lemma_contains_push(a: Seq<Seq<char>>, y: Seq<char>, x: Seq<char>)
    ensures
        a.push(y).contains(x) == (a.contains(x) || y == x),
{
    assert(a.push(y) =~= a + seq![y]);
    lemma_contains_add(a, seq![y], x);
    if seq![y].contains(x) {
        let i = choose|i: int| 0 <= i < 1 && seq![y][i] == x;
    }
    if y == x {
        assert(seq![y][0] == x);
    }
}

proof fn lemma_when_contains(b: bool, g: Seq<char>, x: Seq<char>)
    ensures
        (crate::build::args::when(b, g)).contains(x) == (b && g == x),
{
    if b {
        assert(crate::build::args::when(b, g)[0] == g);
    }
}

proof fn lemma_nonblank_within(v: Seq<Seq<char>>, x: Seq<char>)
    ensures
        nonblank(v).contains(x) ==> v.contains(x),
    decreases v.len(),
{
    if v.len() > 0 {
        let t = if trim(v.last()).len() > 0 {
            seq![v.last()]
        } else {
            Seq::empty()
        };
        lemma_nonblank_within(v.drop_last(), x);
        lemma_contains_add(nonblank(v.drop_last()), t, x);
        assert(v =~= v.drop_last().push(v.last()));
        lemma_contains_push(v.drop_last(), v.last(), x);
        if t.contains(x) {
            let i = choose|i: int| 0 <= i < t.len() && t[i] == x;
        }
    }
}

proof fn lemma_no_include_is_a_dialect_flag(dirs: Seq<Seq<char>>, x: Seq<char>)
    requires
        x.len() >= 2,
        x[1] != 'I',
    ensures
        !include_flags(dirs).contains(x),
{
    reveal_strlit("-I");
    if include_flags(dirs).contains(x) {
        let i = choose|i: int| 0 <= i < include_flags(dirs).len() && include_flags(dirs)[i] == x;
        assert(include_flags(dirs)[i] == "-I"@ + dirs[i]);
        assert(("-I"@ + dirs[i])[1] == 'I');
    }
}

/// A path on the command line is never a flag that starts with `-`, unless
/// it was one already.
proof fn lemma_rel_is_the_path_or_dotted(root: Seq<char>, p: Seq<char>, x: Seq<char>)
    requires
        x.len() > 0,
        x[0] == '-',
        rel(root, p) == x,
    ensures
        p == x,
{
    reveal_strlit("./");
    match below_root(p, root) {
        Some(r) => {
            assert(("./"@ + r)[0] == '.');
        },
        None => {},
    }
}

proof fn lemma_module_dir_is_no_flag(root: Seq<char>, x: Seq<char>)
    requires
        x.len() > 0,
        x[0] == '-',
        x.last() != 'd',
    ensures
        rel(root, join(root, "mod"@)) != x,
{
    reveal_strlit("mod");
    reveal_strlit("/");
    let j = join(root, "mod"@);
    assert(j.last() == 'd');
    if rel(root, j) == x {
        lemma_rel_is_the_path_or_dotted(root, j, x);
    }
}

proof fn lemma_dialect_flag_shape(f: Seq<char>)
    requires
        dialect_flag(f),
    ensures
        f.len() >= 2,
        f[0] == '-',
        f[1] != 'I',
        f.last() != 'd',
        f != "-c"@ && f != "-std=f95"@ && f != "-ffixed-form"@ && f != "-ffixed-line-length-72"@,
        f != "-ffixed-line-length-132"@ && f != "-ffixed-line-length-none"@,
        f != "-O0"@ && f != "-O1"@ && f != "-O2"@ && f != "-fmax-errors=25"@,
        f != "-fdiagnostics-color=never"@ && f != "-Wall"@ && f != "-Wsurprising"@,
        f != "-Wtabs"@ && f != "-Wextra"@ && f != "-J"@ && f != "-x"@ && f != "f77"@,
        f != "f77-cpp-input"@ && f != "none"@ && f != "-o"@,
{
    reveal_strlit("-fdec");
    reveal_strlit("-fno-automatic");
    reveal_strlit("-finit-local-zero");
    reveal_strlit("-fd-lines-as-code");
    reveal_strlit("-fdefault-real-8");
    reveal_strlit("-fno-range-check");
    reveal_strlit("-fallow-invalid-boz");
    reveal_strlit("-fmax-stack-var-size=0");
    reveal_strlit("-fcheck=bounds");
    reveal_strlit("-std=legacy");
    reveal_strlit("-c");
    reveal_strlit("-std=f95");
    reveal_strlit("-ffixed-form");
    reveal_strlit("-ffixed-line-length-72");
    reveal_strlit("-ffixed-line-length-132");
    reveal_strlit("-ffixed-line-length-none");
    reveal_strlit("-O0");
    reveal_strlit("-O1");
    reveal_strlit("-O2");
    reveal_strlit("-fmax-errors=25");
    reveal_strlit("-fdiagnostics-color=never");
    reveal_strlit("-Wall");
    reveal_strlit("-Wsurprising");
    reveal_strlit("-Wtabs");
    reveal_strlit("-Wextra");
    reveal_strlit("-J");
    reveal_strlit("-x");
    reveal_strlit("f77");
    reveal_strlit("f77-cpp-input");
    reveal_strlit("none");
    reveal_strlit("-o");
    if f == "-fdec"@ {
        assert("-fdec"@.len() != "-c"@.len());
        assert("-fdec"@.len() != "-std=f95"@.len());
        assert("-fdec"@.len() != "-ffixed-form"@.len());
        assert("-fdec"@.len() != "-ffixed-line-length-72"@.len());
        assert("-fdec"@.len() != "-ffixed-line-length-132"@.len());
        assert("-fdec"@.len() != "-ffixed-line-length-none"@.len());
        assert("-fdec"@.len() != "-O0"@.len());
        assert("-fdec"@.len() != "-O1"@.len());
        assert("-fdec"@.len() != "-O2"@.len());
        assert("-fdec"@.len() != "-fmax-errors=25"@.len());
        assert("-fdec"@.len() != "-fdiagnostics-color=never"@.len());
        assert("-fdec"@[1] != "-Wall"@[1]);
        assert("-fdec"@.len() != "-Wsurprising"@.len());
        assert("-fdec"@.len() != "-Wtabs"@.len());
        assert("-fdec"@.len() != "-Wextra"@.len());
        assert("-fdec"@.len() != "-J"@.len());
        assert("-fdec"@.len() != "-x"@.len());
        assert("-fdec"@.len() != "f77"@.len());
        assert("-fdec"@.len() != "f77-cpp-input"@.len());
        assert("-fdec"@.len() != "none"@.len());
        assert("-fdec"@.len() != "-o"@.len());
    } else if f == "-fno-automatic"@ {
        assert("-fno-automatic"@.len() != "-c"@.len());
        assert("-fno-automatic"@.len() != "-std=f95"@.len());
        assert("-fno-automatic"@.len() != "-ffixed-form"@.len());
        assert("-fno-automatic"@.len() != "-ffixed-line-length-72"@.len());
        assert("-fno-automatic"@.len() != "-ffixed-line-length-132"@.len());
        assert("-fno-automatic"@.len() != "-ffixed-line-length-none"@.len());
        assert("-fno-automatic"@.len() != "-O0"@.len());
        assert("-fno-automatic"@.len() != "-O1"@.len());
        assert("-fno-automatic"@.len() != "-O2"@.len());
        assert("-fno-automatic"@.len() != "-fmax-errors=25"@.len());
        assert("-fno-automatic"@.len() != "-fdiagnostics-color=never"@.len());
        assert("-fno-automatic"@.len() != "-Wall"@.len());
        assert("-fno-automatic"@.len() != "-Wsurprising"@.len());
        assert("-fno-automatic"@.len() != "-Wtabs"@.len());
        assert("-fno-automatic"@.len() != "-Wextra"@.len());
        assert("-fno-automatic"@.len() != "-J"@.len());
        assert("-fno-automatic"@.len() != "-x"@.len());
        assert("-fno-automatic"@.len() != "f77"@.len());
        assert("-fno-automatic"@.len() != "f77-cpp-input"@.len());
        assert("-fno-automatic"@.len() != "none"@.len());
        assert("-fno-automatic"@.len() != "-o"@.len());
    } else if f == "-finit-local-zero"@ {
        assert("-finit-local-zero"@.len() != "-c"@.len());
        assert("-finit-local-zero"@.len() != "-std=f95"@.len());
        assert("-finit-local-zero"@.len() != "-ffixed-form"@.len());
        assert("-finit-local-zero"@.len() != "-ffixed-line-length-72"@.len());
        assert("-finit-local-zero"@.len() != "-ffixed-line-length-132"@.len());
        assert("-finit-local-zero"@.len() != "-ffixed-line-length-none"@.len());
        assert("-finit-local-zero"@.len() != "-O0"@.len());
        assert("-finit-local-zero"@.len() != "-O1"@.len());
        assert("-finit-local-zero"@.len() != "-O2"@.len());
        assert("-finit-local-zero"@.len() != "-fmax-errors=25"@.len());
        assert("-finit-local-zero"@.len() != "-fdiagnostics-color=never"@.len());
        assert("-finit-local-zero"@.len() != "-Wall"@.len());
        assert("-finit-local-zero"@.len() != "-Wsurprising"@.len());
        assert("-finit-local-zero"@.len() != "-Wtabs"@.len());
        assert("-finit-local-zero"@.len() != "-Wextra"@.len());
        assert("-finit-local-zero"@.len() != "-J"@.len());
        assert("-finit-local-zero"@.len() != "-x"@.len());
        assert("-finit-local-zero"@.len() != "f77"@.len());
        assert("-finit-local-zero"@.len() != "f77-cpp-input"@.len());
        assert("-finit-local-zero"@.len() != "none"@.len());
        assert("-finit-local-zero"@.len() != "-o"@.len());
    } else if f == "-fd-lines-as-code"@ {
        assert("-fd-lines-as-code"@.len() != "-c"@.len());
        assert("-fd-lines-as-code"@.len() != "-std=f95"@.len());
        assert("-fd-lines-as-code"@.len() != "-ffixed-form"@.len());
        assert("-fd-lines-as-code"@.len() != "-ffixed-line-length-72"@.len());
        assert("-fd-lines-as-code"@.len() != "-ffixed-line-length-132"@.len());
        assert("-fd-lines-as-code"@.len() != "-ffixed-line-length-none"@.len());
        assert("-fd-lines-as-code"@.len() != "-O0"@.len());
        assert("-fd-lines-as-code"@.len() != "-O1"@.len());
        assert("-fd-lines-as-code"@.len() != "-O2"@.len());
        assert("-fd-lines-as-code"@.len() != "-fmax-errors=25"@.len());
        assert("-fd-lines-as-code"@.len() != "-fdiagnostics-color=never"@.len());
        assert("-fd-lines-as-code"@.len() != "-Wall"@.len());
        assert("-fd-lines-as-code"@.len() != "-Wsurprising"@.len());
        assert("-fd-lines-as-code"@.len() != "-Wtabs"@.len());
        assert("-fd-lines-as-code"@.len() != "-Wextra"@.len());
        assert("-fd-lines-as-code"@.len() != "-J"@.len());
        assert("-fd-lines-as-code"@.len() != "-x"@.len());
        assert("-fd-lines-as-code"@.len() != "f77"@.len());
        assert("-fd-lines-as-code"@.len() != "f77-cpp-input"@.len());
        assert("-fd-lines-as-code"@.len() != "none"@.len());
        assert("-fd-lines-as-code"@.len() != "-o"@.len());
    } else if f == "-fdefault-real-8"@ {
        assert("-fdefault-real-8"@.len() != "-c"@.len());
        assert("-fdefault-real-8"@.len() != "-std=f95"@.len());
        assert("-fdefault-real-8"@.len() != "-ffixed-form"@.len());
        assert("-fdefault-real-8"@.len() != "-ffixed-line-length-72"@.len());
        assert("-fdefault-real-8"@.len() != "-ffixed-line-length-132"@.len());
        assert("-fdefault-real-8"@.len() != "-ffixed-line-length-none"@.len());
        assert("-fdefault-real-8"@.len() != "-O0"@.len());
        assert("-fdefault-real-8"@.len() != "-O1"@.len());
        assert("-fdefault-real-8"@.len() != "-O2"@.len());
        assert("-fdefault-real-8"@.len() != "-fmax-errors=25"@.len());
        assert("-fdefault-real-8"@.len() != "-fdiagnostics-color=never"@.len());
        assert("-fdefault-real-8"@.len() != "-Wall"@.len());
        assert("-fdefault-real-8"@.len() != "-Wsurprising"@.len());
        assert("-fdefault-real-8"@.len() != "-Wtabs"@.len());
        assert("-fdefault-real-8"@.len() != "-Wextra"@.len());
        assert("-fdefault-real-8"@.len() != "-J"@.len());
        assert("-fdefault-real-8"@.len() != "-x"@.len());
        assert("-fdefault-real-8"@.len() != "f77"@.len());
        assert("-fdefault-real-8"@.len() != "f77-cpp-input"@.len());
        assert("-fdefault-real-8"@.len() != "none"@.len());
        assert("-fdefault-real-8"@.len() != "-o"@.len());
    } else if f == "-fno-range-check"@ {
        assert("-fno-range-check"@.len() != "-c"@.len());
        assert("-fno-range-check"@.len() != "-std=f95"@.len());
        assert("-fno-range-check"@.len() != "-ffixed-form"@.len());
        assert("-fno-range-check"@.len() != "-ffixed-line-length-72"@.len());
        assert("-fno-range-check"@.len() != "-ffixed-line-length-132"@.len());
        assert("-fno-range-check"@.len() != "-ffixed-line-length-none"@.len());
        assert("-fno-range-check"@.len() != "-O0"@.len());
        assert("-fno-range-check"@.len() != "-O1"@.len());
        assert("-fno-range-check"@.len() != "-O2"@.len());
        assert("-fno-range-check"@.len() != "-fmax-errors=25"@.len());
        assert("-fno-range-check"@.len() != "-fdiagnostics-color=never"@.len());
        assert("-fno-range-check"@.len() != "-Wall"@.len());
        assert("-fno-range-check"@.len() != "-Wsurprising"@.len());
        assert("-fno-range-check"@.len() != "-Wtabs"@.len());
        assert("-fno-range-check"@.len() != "-Wextra"@.len());
        assert("-fno-range-check"@.len() != "-J"@.len());
        assert("-fno-range-check"@.len() != "-x"@.len());
        assert("-fno-range-check"@.len() != "f77"@.len());
        assert("-fno-range-check"@.len() != "f77-cpp-input"@.len());
        assert("-fno-range-check"@.len() != "none"@.len());
        assert("-fno-range-check"@.len() != "-o"@.len());
    } else if f == "-fallow-invalid-boz"@ {
        assert("-fallow-invalid-boz"@.len() != "-c"@.len());
        assert("-fallow-invalid-boz"@.len() != "-std=f95"@.len());
        assert("-fallow-invalid-boz"@.len() != "-ffixed-form"@.len());
        assert("-fallow-invalid-boz"@.len() != "-ffixed-line-length-72"@.len());
        assert("-fallow-invalid-boz"@.len() != "-ffixed-line-length-132"@.len());
        assert("-fallow-invalid-boz"@.len() != "-ffixed-line-length-none"@.len());
        assert("-fallow-invalid-boz"@.len() != "-O0"@.len());
        assert("-fallow-invalid-boz"@.len() != "-O1"@.len());
        assert("-fallow-invalid-boz"@.len() != "-O2"@.len());
        assert("-fallow-invalid-boz"@.len() != "-fmax-errors=25"@.len());
        assert("-fallow-invalid-boz"@.len() != "-fdiagnostics-color=never"@.len());
        assert("-fallow-invalid-boz"@.len() != "-Wall"@.len());
        assert("-fallow-invalid-boz"@.len() != "-Wsurprising"@.len());
        assert("-fallow-invalid-boz"@.len() != "-Wtabs"@.len());
        assert("-fallow-invalid-boz"@.len() != "-Wextra"@.len());
        assert("-fallow-invalid-boz"@.len() != "-J"@.len());
        assert("-fallow-invalid-boz"@.len() != "-x"@.len());
        assert("-fallow-invalid-boz"@.len() != "f77"@.len());
        assert("-fallow-invalid-boz"@.len() != "f77-cpp-input"@.len());
        assert("-fallow-invalid-boz"@.len() != "none"@.len());
        assert("-fallow-invalid-boz"@.len() != "-o"@.len());
    } else if f == "-fmax-stack-var-size=0"@ {
        assert("-fmax-stack-var-size=0"@.len() != "-c"@.len());
        assert("-fmax-stack-var-size=0"@.len() != "-std=f95"@.len());
        assert("-fmax-stack-var-size=0"@.len() != "-ffixed-form"@.len());
        assert("-fmax-stack-var-size=0"@[2] != "-ffixed-line-length-72"@[2]);
        assert("-fmax-stack-var-size=0"@.len() != "-ffixed-line-length-132"@.len());
        assert("-fmax-stack-var-size=0"@.len() != "-ffixed-line-length-none"@.len());
        assert("-fmax-stack-var-size=0"@.len() != "-O0"@.len());
        assert("-fmax-stack-var-size=0"@.len() != "-O1"@.len());
        assert("-fmax-stack-var-size=0"@.len() != "-O2"@.len());
        assert("-fmax-stack-var-size=0"@.len() != "-fmax-errors=25"@.len());
        assert("-fmax-stack-var-size=0"@.len() != "-fdiagnostics-color=never"@.len());
        assert("-fmax-stack-var-size=0"@.len() != "-Wall"@.len());
        assert("-fmax-stack-var-size=0"@.len() != "-Wsurprising"@.len());
        assert("-fmax-stack-var-size=0"@.len() != "-Wtabs"@.len());
        assert("-fmax-stack-var-size=0"@.len() != "-Wextra"@.len());
        assert("-fmax-stack-var-size=0"@.len() != "-J"@.len());
        assert("-fmax-stack-var-size=0"@.len() != "-x"@.len());
        assert("-fmax-stack-var-size=0"@.len() != "f77"@.len());
        assert("-fmax-stack-var-size=0"@.len() != "f77-cpp-input"@.len());
        assert("-fmax-stack-var-size=0"@.len() != "none"@.len());
        assert("-fmax-stack-var-size=0"@.len() != "-o"@.len());
    } else if f == "-fcheck=bounds"@ {
        assert("-fcheck=bounds"@.len() != "-c"@.len());
        assert("-fcheck=bounds"@.len() != "-std=f95"@.len());
        assert("-fcheck=bounds"@.len() != "-ffixed-form"@.len());
        assert("-fcheck=bounds"@.len() != "-ffixed-line-length-72"@.len());
        assert("-fcheck=bounds"@.len() != "-ffixed-line-length-132"@.len());
        assert("-fcheck=bounds"@.len() != "-ffixed-line-length-none"@.len());
        assert("-fcheck=bounds"@.len() != "-O0"@.len());
        assert("-fcheck=bounds"@.len() != "-O1"@.len());
        assert("-fcheck=bounds"@.len() != "-O2"@.len());
        assert("-fcheck=bounds"@.len() != "-fmax-errors=25"@.len());
        assert("-fcheck=bounds"@.len() != "-fdiagnostics-color=never"@.len());
        assert("-fcheck=bounds"@.len() != "-Wall"@.len());
        assert("-fcheck=bounds"@.len() != "-Wsurprising"@.len());
        assert("-fcheck=bounds"@.len() != "-Wtabs"@.len());
        assert("-fcheck=bounds"@.len() != "-Wextra"@.len());
        assert("-fcheck=bounds"@.len() != "-J"@.len());
        assert("-fcheck=bounds"@.len() != "-x"@.len());
        assert("-fcheck=bounds"@.len() != "f77"@.len());
        assert("-fcheck=bounds"@.len() != "f77-cpp-input"@.len());
        assert("-fcheck=bounds"@.len() != "none"@.len());
        assert("-fcheck=bounds"@.len() != "-o"@.len());
    } else if f == "-std=legacy"@ {
        assert("-std=legacy"@.len() != "-c"@.len());
        assert("-std=legacy"@.len() != "-std=f95"@.len());
        assert("-std=legacy"@.len() != "-ffixed-form"@.len());
        assert("-std=legacy"@.len() != "-ffixed-line-length-72"@.len());
        assert("-std=legacy"@.len() != "-ffixed-line-length-132"@.len());
        assert("-std=legacy"@.len() != "-ffixed-line-length-none"@.len());
        assert("-std=legacy"@.len() != "-O0"@.len());
        assert("-std=legacy"@.len() != "-O1"@.len());
        assert("-std=legacy"@.len() != "-O2"@.len());
        assert("-std=legacy"@.len() != "-fmax-errors=25"@.len());
        assert("-std=legacy"@.len() != "-fdiagnostics-color=never"@.len());
        assert("-std=legacy"@.len() != "-Wall"@.len());
        assert("-std=legacy"@.len() != "-Wsurprising"@.len());
        assert("-std=legacy"@.len() != "-Wtabs"@.len());
        assert("-std=legacy"@.len() != "-Wextra"@.len());
        assert("-std=legacy"@.len() != "-J"@.len());
        assert("-std=legacy"@.len() != "-x"@.len());
        assert("-std=legacy"@.len() != "f77"@.len());
        assert("-std=legacy"@.len() != "f77-cpp-input"@.len());
        assert("-std=legacy"@.len() != "none"@.len());
        assert("-std=legacy"@.len() != "-o"@.len());
    }
}

/// Outside the dialect flags, the compile line holds none of them.
proof fn lemma_compile_line_dialect_part(
    c: FlagCapabilities,
    bundle: Seq<Seq<char>>,
    o: BuildOptions,
    staged: Seq<char>,
    obj: Seq<char>,
    root: Seq<char>,
    includes: Seq<Seq<char>>,
    f: Seq<char>,
)
    requires
        dialect_flag(f),
        !bundle.contains(f),
        !views(o.extra_flags@).contains(f),
        staged != f,
        obj != f,
    ensures
        lists(spec_compile_args(c, bundle, o, staged, obj, root, includes), f) == lists(
            spec_dialect_flags(o, c),
            f,
        ),
{
    lemma_dialect_flag_shape(f);
    assert(!lists(bundle, f) && !lists(views(o.extra_flags@), f)) by {
        reveal(lists);
    }
    reveal_strlit("-c");
    reveal_strlit("-fmax-errors=25");
    reveal_strlit("-fdiagnostics-color=never");
    reveal_strlit("-Wall");
    reveal_strlit("-Wsurprising");
    reveal_strlit("-Wtabs");
    reveal_strlit("-Wextra");
    reveal_strlit("-J");
    reveal_strlit("-x");
    reveal_strlit("none");
    reveal_strlit("-o");
    let d = spec_dialect_flags(o, c);
    let b0 = bundle.push("-c"@);
    lemma_lists_push(bundle, "-c"@, f);
    lemma_lists_add(b0, d, f);
    let opt = opt_level_flag(o.opt_level);
    assert(opt != f);
    let a1 = (b0 + d).push(opt);
    lemma_lists_push(b0 + d, opt, f);
    let e1 = crate::build::args::when(c.max_errors, "-fmax-errors=25"@);
    lemma_lists_when(c.max_errors, "-fmax-errors=25"@, f);
    lemma_lists_add(a1, e1, f);
    let a2 = a1 + e1;
    let e2 = crate::build::args::when(c.diagnostics_plain, "-fdiagnostics-color=never"@);
    lemma_lists_when(c.diagnostics_plain, "-fdiagnostics-color=never"@, f);
    lemma_lists_add(a2, e2, f);
    let a3 = a2 + e2;
    let m = rel(root, join(root, "mod"@));
    lemma_module_dir_is_no_flag(root, f);
    lemma_lists_push(a3, "-Wall"@, f);
    lemma_lists_push(a3.push("-Wall"@), "-Wsurprising"@, f);
    lemma_lists_push(a3.push("-Wall"@).push("-Wsurprising"@), "-Wtabs"@, f);
    lemma_lists_push(a3.push("-Wall"@).push("-Wsurprising"@).push("-Wtabs"@), "-Wextra"@, f);
    let a4 = a3.push("-Wall"@).push("-Wsurprising"@).push("-Wtabs"@).push("-Wextra"@);
    lemma_lists_push(a4, "-J"@, f);
    lemma_lists_push(a4.push("-J"@), m, f);
    let a5 = a4.push("-J"@).push(m);
    lemma_no_include_is_a_dialect_flag(includes, f);
    assert(!lists(include_flags(includes), f)) by {
        reveal(lists);
    }
    lemma_lists_add(a5, include_flags(includes), f);
    let a6 = a5 + include_flags(includes);
    let extra = nonblank(views(o.extra_flags@));
    lemma_nonblank_within(views(o.extra_flags@), f);
    assert(lists(extra, f) ==> lists(views(o.extra_flags@), f)) by {
        reveal(lists);
    }
    lemma_lists_add(a6, extra, f);
    let a7 = a6 + extra;
    assert(spec_compile_args(c, bundle, o, staged, obj, root, includes) === a7.push("-x"@).push(language_name(o.preprocess)).push(rel(root, staged)).push("-x"@).push("none"@).push("-o"@).push(rel(root, obj)));
    let lang = language_name(o.preprocess);
    assert(lang != f);
    if rel(root, staged) == f {
        lemma_rel_is_the_path_or_dotted(root, staged, f);
    }
    if rel(root, obj) == f {
        lemma_rel_is_the_path_or_dotted(root, obj, f);
    }
    lemma_lists_push(a7, "-x"@, f);
    lemma_lists_push(a7.push("-x"@), lang, f);
    lemma_lists_push(a7.push("-x"@).push(lang), rel(root, staged), f);
    let a8 = a7.push("-x"@).push(lang).push(rel(root, staged));
    lemma_lists_push(a8, "-x"@, f);
    lemma_lists_push(a8.push("-x"@), "none"@, f);
    lemma_lists_push(a8.push("-x"@).push("none"@), "-o"@, f);
    lemma_lists_push(a8.push("-x"@).push("none"@).push("-o"@), rel(root, obj), f);
}

proof fn lemma_dialect_flags_distinct()
    ensures
        "-fdec"@ != "-fno-automatic"@,
        "-fdec"@ != "-finit-local-zero"@,
        "-fdec"@ != "-fd-lines-as-code"@,
        "-fdec"@ != "-fdefault-real-8"@,
        "-fdec"@ != "-fno-range-check"@,
        "-fdec"@ != "-fallow-invalid-boz"@,
        "-fdec"@ != "-fmax-stack-var-size=0"@,
        "-fdec"@ != "-fcheck=bounds"@,
        "-fdec"@ != "-std=legacy"@,
        "-fno-automatic"@ != "-finit-local-zero"@,
        "-fno-automatic"@ != "-fd-lines-as-code"@,
        "-fno-automatic"@ != "-fdefault-real-8"@,
        "-fno-automatic"@ != "-fno-range-check"@,
        "-fno-automatic"@ != "-fallow-invalid-boz"@,
        "-fno-automatic"@ != "-fmax-stack-var-size=0"@,
        "-fno-automatic"@ != "-fcheck=bounds"@,
        "-fno-automatic"@ != "-std=legacy"@,
        "-finit-local-zero"@ != "-fd-lines-as-code"@,
        "-finit-local-zero"@ != "-fdefault-real-8"@,
        "-finit-local-zero"@ != "-fno-range-check"@,
        "-finit-local-zero"@ != "-fallow-invalid-boz"@,
        "-finit-local-zero"@ != "-fmax-stack-var-size=0"@,
        "-finit-local-zero"@ != "-fcheck=bounds"@,
        "-finit-local-zero"@ != "-std=legacy"@,
        "-fd-lines-as-code"@ != "-fdefault-real-8"@,
        "-fd-lines-as-code"@ != "-fno-range-check"@,
        "-fd-lines-as-code"@ != "-fallow-invalid-boz"@,
        "-fd-lines-as-code"@ != "-fmax-stack-var-size=0"@,
        "-fd-lines-as-code"@ != "-fcheck=bounds"@,
        "-fd-lines-as-code"@ != "-std=legacy"@,
        "-fdefault-real-8"@ != "-fno-range-check"@,
        "-fdefault-real-8"@ != "-fallow-invalid-boz"@,
        "-fdefault-real-8"@ != "-fmax-stack-var-size=0"@,
        "-fdefault-real-8"@ != "-fcheck=bounds"@,
        "-fdefault-real-8"@ != "-std=legacy"@,
        "-fno-range-check"@ != "-fallow-invalid-boz"@,
        "-fno-range-check"@ != "-fmax-stack-var-size=0"@,
        "-fno-range-check"@ != "-fcheck=bounds"@,
        "-fno-range-check"@ != "-std=legacy"@,
        "-fallow-invalid-boz"@ != "-fmax-stack-var-size=0"@,
        "-fallow-invalid-boz"@ != "-fcheck=bounds"@,
        "-fallow-invalid-boz"@ != "-std=legacy"@,
        "-fmax-stack-var-size=0"@ != "-fcheck=bounds"@,
        "-fmax-stack-var-size=0"@ != "-std=legacy"@,
        "-fcheck=bounds"@ != "-std=legacy"@,
{
    reveal_strlit("-fdec");
    reveal_strlit("-fno-automatic");
    reveal_strlit("-finit-local-zero");
    reveal_strlit("-fd-lines-as-code");
    reveal_strlit("-fdefault-real-8");
    reveal_strlit("-fno-range-check");
    reveal_strlit("-fallow-invalid-boz");
    reveal_strlit("-fmax-stack-var-size=0");
    reveal_strlit("-fcheck=bounds");
    reveal_strlit("-std=legacy");
    assert("-fdec"@.len() != "-fno-automatic"@.len());
    assert("-fdec"@.len() != "-finit-local-zero"@.len());
    assert("-fdec"@.len() != "-fd-lines-as-code"@.len());
    assert("-fdec"@.len() != "-fdefault-real-8"@.len());
    assert("-fdec"@.len() != "-fno-range-check"@.len());
    assert("-fdec"@.len() != "-fallow-invalid-boz"@.len());
    assert("-fdec"@.len() != "-fmax-stack-var-size=0"@.len());
    assert("-fdec"@.len() != "-fcheck=bounds"@.len());
    assert("-fdec"@.len() != "-std=legacy"@.len());
    assert("-fno-automatic"@.len() != "-finit-local-zero"@.len());
    assert("-fno-automatic"@.len() != "-fd-lines-as-code"@.len());
    assert("-fno-automatic"@.len() != "-fdefault-real-8"@.len());
    assert("-fno-automatic"@.len() != "-fno-range-check"@.len());
    assert("-fno-automatic"@.len() != "-fallow-invalid-boz"@.len());
    assert("-fno-automatic"@.len() != "-fmax-stack-var-size=0"@.len());
    assert("-fno-automatic"@[2] != "-fcheck=bounds"@[2]);
    assert("-fno-automatic"@.len() != "-std=legacy"@.len());
    assert("-finit-local-zero"@[2] != "-fd-lines-as-code"@[2]);
    assert("-finit-local-zero"@.len() != "-fdefault-real-8"@.len());
    assert("-finit-local-zero"@.len() != "-fno-range-check"@.len());
    assert("-finit-local-zero"@.len() != "-fallow-invalid-boz"@.len());
    assert("-finit-local-zero"@.len() != "-fmax-stack-var-size=0"@.len());
    assert("-finit-local-zero"@.len() != "-fcheck=bounds"@.len());
    assert("-finit-local-zero"@.len() != "-std=legacy"@.len());
    assert("-fd-lines-as-code"@.len() != "-fdefault-real-8"@.len());
    assert("-fd-lines-as-code"@.len() != "-fno-range-check"@.len());
    assert("-fd-lines-as-code"@.len() != "-fallow-invalid-boz"@.len());
    assert("-fd-lines-as-code"@.len() != "-fmax-stack-var-size=0"@.len());
    assert("-fd-lines-as-code"@.len() != "-fcheck=bounds"@.len());
    assert("-fd-lines-as-code"@.len() != "-std=legacy"@.len());
    assert("-fdefault-real-8"@[2] != "-fno-range-check"@[2]);
    assert("-fdefault-real-8"@.len() != "-fallow-invalid-boz"@.len());
    assert("-fdefault-real-8"@.len() != "-fmax-stack-var-size=0"@.len());
    assert("-fdefault-real-8"@.len() != "-fcheck=bounds"@.len());
    assert("-fdefault-real-8"@.len() != "-std=legacy"@.len());
    assert("-fno-range-check"@.len() != "-fallow-invalid-boz"@.len());
    assert("-fno-range-check"@.len() != "-fmax-stack-var-size=0"@.len());
    assert("-fno-range-check"@.len() != "-fcheck=bounds"@.len());
    assert("-fno-range-check"@.len() != "-std=legacy"@.len());
    assert("-fallow-invalid-boz"@.len() != "-fmax-stack-var-size=0"@.len());
    assert("-fallow-invalid-boz"@.len() != "-fcheck=bounds"@.len());
    assert("-fallow-invalid-boz"@.len() != "-std=legacy"@.len());
    assert("-fmax-stack-var-size=0"@.len() != "-fcheck=bounds"@.len());
    assert("-fmax-stack-var-size=0"@.len() != "-std=legacy"@.len());
    assert("-fcheck=bounds"@.len() != "-std=legacy"@.len());
}

spec fn dialect_hits(o: BuildOptions, c: FlagCapabilities, f: Seq<char>) -> bool {
    ||| (o.dialect == Dialect::Legacy && c.std_legacy && same("-std=legacy"@, f))
    ||| (o.dialect == Dialect::Standard && same("-std=f95"@, f))
    ||| same("-ffixed-form"@, f)
    ||| same(line_length_flag(o.line_length), f)
    ||| (o.dec_extensions && c.dec && same("-fdec"@, f))
    ||| (o.static_storage && c.no_automatic && same("-fno-automatic"@, f))
    ||| (o.static_storage && c.init_local_zero && same("-finit-local-zero"@, f))
    ||| (o.d_lines_as_code && c.d_lines_as_code && same("-fd-lines-as-code"@, f))
    ||| (o.default_real8 && c.default_real8 && same("-fdefault-real-8"@, f))
    ||| (c.no_range_check && same("-fno-range-check"@, f))
    ||| (c.allow_invalid_boz && same("-fallow-invalid-boz"@, f))
    ||| (o.big_stack && c.max_stack_var_size && same("-fmax-stack-var-size=0"@, f))
    ||| (o.check_bounds && c.check_bounds && same("-fcheck=bounds"@, f))
}

spec fn dialect_std(o: BuildOptions, c: FlagCapabilities) -> Seq<Seq<char>> {
    match o.dialect {
        Dialect::Legacy => crate::build::args::when(c.std_legacy, "-std=legacy"@),
        Dialect::Standard => seq!["-std=f95"@],
    }
}

proof fn lemma_dialect_pieces(o: BuildOptions, c: FlagCapabilities)
    ensures
        spec_dialect_flags(o, c) === dialect_std(o, c).push("-ffixed-form"@).push(line_length_flag(o.line_length)) + crate::build::args::when(o.dec_extensions && c.dec, "-fdec"@) + crate::build::args::when(o.static_storage && c.no_automatic, "-fno-automatic"@) + crate::build::args::when(o.static_storage && c.init_local_zero, "-finit-local-zero"@) + crate::build::args::when(o.d_lines_as_code && c.d_lines_as_code, "-fd-lines-as-code"@) + crate::build::args::when(o.default_real8 && c.default_real8, "-fdefault-real-8"@) + crate::build::args::when(c.no_range_check, "-fno-range-check"@) + crate::build::args::when(c.allow_invalid_boz, "-fallow-invalid-boz"@) + crate::build::args::when(o.big_stack && c.max_stack_var_size, "-fmax-stack-var-size=0"@) + crate::build::args::when(o.check_bounds && c.check_bounds, "-fcheck=bounds"@),
{
}

/// The dialect part holds a flag exactly when one of its pieces is that flag.
#[verifier::spinoff_prover]
#[verifier::rlimit(100)]
proof fn lemma_dialect_part(o: BuildOptions, c: FlagCapabilities, f: Seq<char>)
    ensures
        lists(spec_dialect_flags(o, c), f) == dialect_hits(o, c, f),
{
    let std = dialect_std(o, c);
    let ll = line_length_flag(o.line_length);
    let h_std = (o.dialect == Dialect::Legacy && c.std_legacy && same("-std=legacy"@, f)) || (o.dialect
        == Dialect::Standard && same("-std=f95"@, f));
    assert(lists(std, f) == h_std) by {
        match o.dialect {
            Dialect::Legacy => lemma_lists_when(c.std_legacy, "-std=legacy"@, f),
            Dialect::Standard => {
                assert(!lists(Seq::<Seq<char>>::empty(), f)) by {
                    reveal(lists);
                }
                lemma_lists_push(Seq::empty(), "-std=f95"@, f);
                assert(Seq::<Seq<char>>::empty().push("-std=f95"@) =~= seq!["-std=f95"@]);
            },
        }
    }
    let a0 = std.push("-ffixed-form"@).push(ll);
    let h0 = h_std || same("-ffixed-form"@, f) || same(ll, f);
    assert(lists(a0, f) == h0) by {
        lemma_lists_push(std, "-ffixed-form"@, f);
        lemma_lists_push(std.push("-ffixed-form"@), ll, f);
    }
    let a1 = a0 + crate::build::args::when(o.dec_extensions && c.dec, "-fdec"@);
    let h1 = h0 || (o.dec_extensions && c.dec && same("-fdec"@, f));
    assert(lists(a1, f) == h1) by {
        lemma_lists_when(o.dec_extensions && c.dec, "-fdec"@, f);
        lemma_lists_add(a0, crate::build::args::when(o.dec_extensions && c.dec, "-fdec"@), f);
    }
    let a2 = a1 + crate::build::args::when(o.static_storage && c.no_automatic, "-fno-automatic"@);
    let h2 = h1 || (o.static_storage && c.no_automatic && same("-fno-automatic"@, f));
    assert(lists(a2, f) == h2) by {
        lemma_lists_when(o.static_storage && c.no_automatic, "-fno-automatic"@, f);
        lemma_lists_add(a1, crate::build::args::when(o.static_storage && c.no_automatic, "-fno-automatic"@), f);
    }
    let a3 = a2 + crate::build::args::when(o.static_storage && c.init_local_zero, "-finit-local-zero"@);
    let h3 = h2 || (o.static_storage && c.init_local_zero && same("-finit-local-zero"@, f));
    assert(lists(a3, f) == h3) by {
        lemma_lists_when(o.static_storage && c.init_local_zero, "-finit-local-zero"@, f);
        lemma_lists_add(a2, crate::build::args::when(o.static_storage && c.init_local_zero, "-finit-local-zero"@), f);
    }
    let a4 = a3 + crate::build::args::when(o.d_lines_as_code && c.d_lines_as_code, "-fd-lines-as-code"@);
    let h4 = h3 || (o.d_lines_as_code && c.d_lines_as_code && same("-fd-lines-as-code"@, f));
    assert(lists(a4, f) == h4) by {
        lemma_lists_when(o.d_lines_as_code && c.d_lines_as_code, "-fd-lines-as-code"@, f);
        lemma_lists_add(a3, crate::build::args::when(o.d_lines_as_code && c.d_lines_as_code, "-fd-lines-as-code"@), f);
    }
    let a5 = a4 + crate::build::args::when(o.default_real8 && c.default_real8, "-fdefault-real-8"@);
    let h5 = h4 || (o.default_real8 && c.default_real8 && same("-fdefault-real-8"@, f));
    assert(lists(a5, f) == h5) by {
        lemma_lists_when(o.default_real8 && c.default_real8, "-fdefault-real-8"@, f);
        lemma_lists_add(a4, crate::build::args::when(o.default_real8 && c.default_real8, "-fdefault-real-8"@), f);
    }
    let a6 = a5 + crate::build::args::when(c.no_range_check, "-fno-range-check"@);
    let h6 = h5 || (c.no_range_check && same("-fno-range-check"@, f));
    assert(lists(a6, f) == h6) by {
        lemma_lists_when(c.no_range_check, "-fno-range-check"@, f);
        lemma_lists_add(a5, crate::build::args::when(c.no_range_check, "-fno-range-check"@), f);
    }
    let a7 = a6 + crate::build::args::when(c.allow_invalid_boz, "-fallow-invalid-boz"@);
    let h7 = h6 || (c.allow_invalid_boz && same("-fallow-invalid-boz"@, f));
    assert(lists(a7, f) == h7) by {
        lemma_lists_when(c.allow_invalid_boz, "-fallow-invalid-boz"@, f);
        lemma_lists_add(a6, crate::build::args::when(c.allow_invalid_boz, "-fallow-invalid-boz"@), f);
    }
    let a8 = a7 + crate::build::args::when(o.big_stack && c.max_stack_var_size, "-fmax-stack-var-size=0"@);
    let h8 = h7 || (o.big_stack && c.max_stack_var_size && same("-fmax-stack-var-size=0"@, f));
    assert(lists(a8, f) == h8) by {
        lemma_lists_when(o.big_stack && c.max_stack_var_size, "-fmax-stack-var-size=0"@, f);
        lemma_lists_add(a7, crate::build::args::when(o.big_stack && c.max_stack_var_size, "-fmax-stack-var-size=0"@), f);
    }
    let a9 = a8 + crate::build::args::when(o.check_bounds && c.check_bounds, "-fcheck=bounds"@);
    let h9 = h8 || (o.check_bounds && c.check_bounds && same("-fcheck=bounds"@, f));
    assert(lists(a9, f) == h9) by {
        lemma_lists_when(o.check_bounds && c.check_bounds, "-fcheck=bounds"@, f);
        lemma_lists_add(a8, crate::build::args::when(o.check_bounds && c.check_bounds, "-fcheck=bounds"@), f);
    }
    lemma_dialect_pieces(o, c);
}

proof fn lemma_dialect_fdec(o: BuildOptions, c: FlagCapabilities)
    ensures
        lists(spec_dialect_flags(o, c), "-fdec"@) <==> o.dec_extensions && c.dec,
{
    assert(dialect_flag("-fdec"@));
    lemma_dialect_flags_distinct();
    lemma_dialect_flag_shape("-fdec"@);
    lemma_dialect_part(o, c, "-fdec"@);
}

proof fn lemma_dialect_fno_automatic(o: BuildOptions, c: FlagCapabilities)
    ensures
        lists(spec_dialect_flags(o, c), "-fno-automatic"@) <==> o.static_storage && c.no_automatic,
{
    assert(dialect_flag("-fno-automatic"@));
    lemma_dialect_flags_distinct();
    lemma_dialect_flag_shape("-fno-automatic"@);
    lemma_dialect_part(o, c, "-fno-automatic"@);
}

proof fn lemma_dialect_finit_local_zero(o: BuildOptions, c: FlagCapabilities)
    ensures
        lists(spec_dialect_flags(o, c), "-finit-local-zero"@) <==> o.static_storage && c.init_local_zero,
{
    assert(dialect_flag("-finit-local-zero"@));
    lemma_dialect_flags_distinct();
    lemma_dialect_flag_shape("-finit-local-zero"@);
    lemma_dialect_part(o, c, "-finit-local-zero"@);
}

proof fn lemma_dialect_fd_lines_as_code(o: BuildOptions, c: FlagCapabilities)
    ensures
        lists(spec_dialect_flags(o, c), "-fd-lines-as-code"@) <==> o.d_lines_as_code && c.d_lines_as_code,
{
    assert(dialect_flag("-fd-lines-as-code"@));
    lemma_dialect_flags_distinct();
    lemma_dialect_flag_shape("-fd-lines-as-code"@);
    lemma_dialect_part(o, c, "-fd-lines-as-code"@);
}

proof fn lemma_dialect_fdefault_real_8(o: BuildOptions, c: FlagCapabilities)
    ensures
        lists(spec_dialect_flags(o, c), "-fdefault-real-8"@) <==> o.default_real8 && c.default_real8,
{
    assert(dialect_flag("-fdefault-real-8"@));
    lemma_dialect_flags_distinct();
    lemma_dialect_flag_shape("-fdefault-real-8"@);
    lemma_dialect_part(o, c, "-fdefault-real-8"@);
}

proof fn lemma_dialect_fno_range_check(o: BuildOptions, c: FlagCapabilities)
    ensures
        lists(spec_dialect_flags(o, c), "-fno-range-check"@) <==> c.no_range_check,
{
    assert(dialect_flag("-fno-range-check"@));
    lemma_dialect_flags_distinct();
    lemma_dialect_flag_shape("-fno-range-check"@);
    lemma_dialect_part(o, c, "-fno-range-check"@);
}

proof fn lemma_dialect_fallow_invalid_boz(o: BuildOptions, c: FlagCapabilities)
    ensures
        lists(spec_dialect_flags(o, c), "-fallow-invalid-boz"@) <==> c.allow_invalid_boz,
{
    assert(dialect_flag("-fallow-invalid-boz"@));
    lemma_dialect_flags_distinct();
    lemma_dialect_flag_shape("-fallow-invalid-boz"@);
    lemma_dialect_part(o, c, "-fallow-invalid-boz"@);
}

proof fn lemma_dialect_fmax_stack_var_size_0(o: BuildOptions, c: FlagCapabilities)
    ensures
        lists(spec_dialect_flags(o, c), "-fmax-stack-var-size=0"@) <==> o.big_stack && c.max_stack_var_size,
{
    assert(dialect_flag("-fmax-stack-var-size=0"@));
    lemma_dialect_flags_distinct();
    lemma_dialect_flag_shape("-fmax-stack-var-size=0"@);
    lemma_dialect_part(o, c, "-fmax-stack-var-size=0"@);
}

proof fn lemma_dialect_fcheck_bounds(o: BuildOptions, c: FlagCapabilities)
    ensures
        lists(spec_dialect_flags(o, c), "-fcheck=bounds"@) <==> o.check_bounds && c.check_bounds,
{
    assert(dialect_flag("-fcheck=bounds"@));
    lemma_dialect_flags_distinct();
    lemma_dialect_flag_shape("-fcheck=bounds"@);
    lemma_dialect_part(o, c, "-fcheck=bounds"@);
}

proof fn lemma_dialect_std_legacy(o: BuildOptions, c: FlagCapabilities)
    ensures
        lists(spec_dialect_flags(o, c), "-std=legacy"@) <==> o.dialect == Dialect::Legacy && c.std_legacy,
{
    assert(dialect_flag("-std=legacy"@));
    lemma_dialect_flags_distinct();
    lemma_dialect_flag_shape("-std=legacy"@);
    lemma_dialect_part(o, c, "-std=legacy"@);
}

/// Each dialect flag is on the compile line exactly when its own option asks
/// for it and the probe found that this compiler takes it (for the two that
/// no option governs, exactly when the compiler takes them); no other option
/// or capability turns one on or off. Asking for 8-byte `REAL` gives
/// `-fdefault-real-8` whenever the compiler accepts it, whatever else is set.
/// This holds for every line on which neither the bundle's flags, nor the
/// user's extra flags, nor the source or object path is itself such a flag.
pub proof fn law_each_dialect_flag_follows_its_own_option(
    c: FlagCapabilities,
    bundle: Seq<Seq<char>>,
    o: BuildOptions,
    staged: Seq<char>,
    obj: Seq<char>,
    root: Seq<char>,
    includes: Seq<Seq<char>>,
)
    requires
        forall|f: Seq<char>|
            #[trigger] dialect_flag(f) ==> !bundle.contains(f) && !views(o.extra_flags@).contains(f)
                && staged != f && obj != f,
    ensures
        ({
            let x = spec_compile_args(c, bundle, o, staged, obj, root, includes);
            &&& x.contains("-fdec"@) <==> o.dec_extensions && c.dec
            &&& x.contains("-fno-automatic"@) <==> o.static_storage && c.no_automatic
            &&& x.contains("-finit-local-zero"@) <==> o.static_storage && c.init_local_zero
            &&& x.contains("-fd-lines-as-code"@) <==> o.d_lines_as_code && c.d_lines_as_code
            &&& x.contains("-fdefault-real-8"@) <==> o.default_real8 && c.default_real8
            &&& x.contains("-fno-range-check"@) <==> c.no_range_check
            &&& x.contains("-fallow-invalid-boz"@) <==> c.allow_invalid_boz
            &&& x.contains("-fmax-stack-var-size=0"@) <==> o.big_stack && c.max_stack_var_size
            &&& x.contains("-fcheck=bounds"@) <==> o.check_bounds && c.check_bounds
            &&& x.contains("-std=legacy"@) <==> o.dialect == Dialect::Legacy && c.std_legacy
        }),
{
    reveal(lists);
    assert(dialect_flag("-fdec"@));
    lemma_compile_line_dialect_part(c, bundle, o, staged, obj, root, includes, "-fdec"@);
    lemma_dialect_fdec(o, c);
    assert(dialect_flag("-fno-automatic"@));
    lemma_compile_line_dialect_part(c, bundle, o, staged, obj, root, includes, "-fno-automatic"@);
    lemma_dialect_fno_automatic(o, c);
    assert(dialect_flag("-finit-local-zero"@));
    lemma_compile_line_dialect_part(c, bundle, o, staged, obj, root, includes, "-finit-local-zero"@);
    lemma_dialect_finit_local_zero(o, c);
    assert(dialect_flag("-fd-lines-as-code"@));
    lemma_compile_line_dialect_part(c, bundle, o, staged, obj, root, includes, "-fd-lines-as-code"@);
    lemma_dialect_fd_lines_as_code(o, c);
    assert(dialect_flag("-fdefault-real-8"@));
    lemma_compile_line_dialect_part(c, bundle, o, staged, obj, root, includes, "-fdefault-real-8"@);
    lemma_dialect_fdefault_real_8(o, c);
    assert(dialect_flag("-fno-range-check"@));
    lemma_compile_line_dialect_part(c, bundle, o, staged, obj, root, includes, "-fno-range-check"@);
    lemma_dialect_fno_range_check(o, c);
    assert(dialect_flag("-fallow-invalid-boz"@));
    lemma_compile_line_dialect_part(c, bundle, o, staged, obj, root, includes, "-fallow-invalid-boz"@);
    lemma_dialect_fallow_invalid_boz(o, c);
    assert(dialect_flag("-fmax-stack-var-size=0"@));
    lemma_compile_line_dialect_part(c, bundle, o, staged, obj, root, includes, "-fmax-stack-var-size=0"@);
    lemma_dialect_fmax_stack_var_size_0(o, c);
    assert(dialect_flag("-fcheck=bounds"@));
    lemma_compile_line_dialect_part(c, bundle, o, staged, obj, root, includes, "-fcheck=bounds"@);
    lemma_dialect_fcheck_bounds(o, c);
    assert(dialect_flag("-std=legacy"@));
    lemma_compile_line_dialect_part(c, bundle, o, staged, obj, root, includes, "-std=legacy"@);
    lemma_dialect_std_legacy(o, c);
}

} // verus!
