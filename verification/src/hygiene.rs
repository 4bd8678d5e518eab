//! The repository's structural rules, read off its source text.
//!
//! The project's safety rules are only worth something if they are checked:
//! only the filesystem guard may write, nothing spawns through a shell, the
//! GUI holds no logic, and no flag that breaks containment is passed. This
//! module reads one source file's text and says which lines break which rule,
//! with test code exempt.
use crate::pathops::{extension, extension_of};
use crate::textops::{
    lower_seq, utf8_len,
    chars_of, chars_start_with, find_chars, find_from, lines, lines_of, owned, starts_with,
    string_from_chars, strs, trim, trim_bounds,
};
use vstd::prelude::*;

verus! {

/// `char::is_alphanumeric`: alphabetic or numeric, in Unicode's sense.
pub uninterp spec fn unicode_alphanumeric(c: char) -> bool;

/// `char::is_alphanumeric`. What it says of a character is named; for ASCII
/// it is exactly the letters and the digits.
#[verifier::external_body]
fn is_alphanumeric(c: char) -> (r: bool)
    ensures
        r == unicode_alphanumeric(c),
        (c as u32) < 128 ==> r == crate::textops::is_ascii_alnum(c),
{
    c.is_alphanumeric()
}

/// A character that can be part of an identifier.
pub open spec fn is_word(c: char) -> bool {
    unicode_alphanumeric(c) || c == '_'
}

fn word_char(c: char) -> (r: bool)
    ensures
        r == is_word(c),
{
    c == '_' || is_alphanumeric(c)
}

/// The line with string literals taken out: every `"` flips in and out of a
/// string, and neither the quotes nor what is between them is kept.
pub open spec fn outside_strings(s: Seq<char>) -> (Seq<char>, bool)
    decreases s.len(),
{
    if s.len() == 0 {
        (Seq::empty(), false)
    } else {
        let (kept, in_string) = outside_strings(s.drop_last());
        if s.last() == '"' {
            (kept, !in_string)
        } else if in_string {
            (kept, in_string)
        } else {
            (kept.push(s.last()), in_string)
        }
    }
}

/// From a `not(` at `j`, the index of the `)` that closes it, or the end.
pub open spec fn group_end(s: Seq<char>, j: int, depth: int) -> int
    decreases s.len() - j,
{
    if j < 0 || j >= s.len() {
        s.len() as int
    } else if s[j] == '(' {
        group_end(s, j + 1, depth + 1)
    } else if s[j] == ')' {
        if depth - 1 == 0 {
            j
        } else {
            group_end(s, j + 1, depth - 1)
        }
    } else {
        group_end(s, j + 1, depth)
    }
}

/// A `not(` that starts a word at `i`.
pub open spec fn opens_not(s: Seq<char>, i: int) -> bool {
    &&& 0 <= i
    &&& i + 4 <= s.len()
    &&& s.subrange(i, i + 4) == seq!['n', 'o', 't', '(']
    &&& (i == 0 || !is_word(s[i - 1]))
}

/// What is left from `i` on when every `not(...)` group is cut out, nested
/// ones included.
pub open spec fn without_not_groups(s: Seq<char>, i: int) -> Seq<char>
    decreases s.len() - i,
{
    if i < 0 || i >= s.len() {
        Seq::empty()
    } else if opens_not(s, i) {
        let j = group_end(s, i + 3, 0);
        proof {
            lemma_group_end(s, i + 3, 0);
        }
        if j + 1 >= s.len() {
            Seq::empty()
        } else {
            without_not_groups(s, j + 1)
        }
    } else {
        seq![s[i]] + without_not_groups(s, i + 1)
    }
}

/// The word `test` stands alone at `k`.
pub open spec fn test_word_at(s: Seq<char>, k: int) -> bool {
    &&& 0 <= k
    &&& k + 4 <= s.len()
    &&& s.subrange(k, k + 4) == "test"@
    &&& (k == 0 || !is_word(s[k - 1]))
    &&& (k + 4 == s.len() || !is_word(s[k + 4]))
}

/// Does a `#[cfg(...)]` line gate on being built as a test? Not a feature
/// whose name reads like one (strings are removed first), and not
/// `not(test)`, which marks production code.
pub open spec fn spec_cfg_gates_on_test(line: Seq<char>) -> bool {
    let kept = without_not_groups(outside_strings(line).0, 0);
    exists|k: int| test_word_at(kept, k)
}

pub proof fn lemma_group_end(s: Seq<char>, j: int, depth: int)
    ensures
        j <= group_end(s, j, depth) || j < 0 || j >= s.len(),
        group_end(s, j, depth) <= s.len(),
    decreases s.len() - j,
{
    if j < 0 || j >= s.len() {
    } else if s[j] == '(' {
        lemma_group_end(s, j + 1, depth + 1);
    } else if s[j] == ')' {
        if depth - 1 != 0 {
            lemma_group_end(s, j + 1, depth - 1);
        }
    } else {
        lemma_group_end(s, j + 1, depth);
    }
}

fn strip_strings(line: &[char]) -> (r: Vec<char>)
    ensures
        r@ == outside_strings(line@).0,
{
    let mut kept: Vec<char> = Vec::new();
    let mut in_string = false;
    for i in 0..line.len()
        invariant
            outside_strings(line@.take(i as int)) == (kept@, in_string),
    {
        assert(line@.take(i + 1).drop_last() =~= line@.take(i as int));
        let c = line[i];
        if c == '"' {
            in_string = !in_string;
        } else if !in_string {
            kept.push(c);
        }
    }
    assert(line@.take(line@.len() as int) =~= line@);
    kept
}

fn find_group_end(s: &[char], start: usize) -> (j: usize)
    requires
        start < s@.len(),
        s@[start as int] == '(',
    ensures
        j as int == group_end(s@, start as int, 0),
        j <= s@.len(),
{
    let n = s.len();
    assert(start < n);
    let mut depth: usize = 1;
    let mut j = start + 1;
    while j < s.len()
        invariant
            start < j <= s@.len(),
            1 <= depth <= j - start,
            group_end(s@, start as int, 0) == group_end(s@, j as int, depth as int),
        decreases s@.len() - j,
    {
        if s[j] == '(' {
            depth += 1;
        } else if s[j] == ')' {
            if depth == 1 {
                return j;
            }
            depth -= 1;
        }
        j += 1;
    }
    j
}

fn remove_not_groups(s: &[char]) -> (r: Vec<char>)
    ensures
        r@ == without_not_groups(s@, 0),
{
    let mut kept: Vec<char> = Vec::new();
    let mut i: usize = 0;
    let n = s.len();
    while i < n
        invariant
            n == s@.len(),
            without_not_groups(s@, 0) == kept@ + without_not_groups(s@, i as int),
        decreases n - i,
    {
        let prev_word = i > 0 && word_char(s[i - 1]);
        let starts = n - i >= 4 && s[i] == 'n' && s[i + 1] == 'o' && s[i + 2] == 't' && s[i + 3]
            == '(';
        proof {
            if i + 4 <= n {
                assert(starts == (s@.subrange(i as int, i + 4) == seq!['n', 'o', 't', '('])) by {
                    if s@.subrange(i as int, i + 4) == seq!['n', 'o', 't', '('] {
                        assert(s@.subrange(i as int, i + 4)[0] == 'n');
                        assert(s@.subrange(i as int, i + 4)[1] == 'o');
                        assert(s@.subrange(i as int, i + 4)[2] == 't');
                        assert(s@.subrange(i as int, i + 4)[3] == '(');
                    }
                    if starts {
                        assert(s@.subrange(i as int, i + 4) =~= seq!['n', 'o', 't', '(']);
                    }
                }
            }
        }
        if starts && !prev_word {
            assert(opens_not(s@, i as int));
            let j = find_group_end(s, i + 3);
            proof {
                lemma_group_end(s@, i + 3, 0);
            }
            if j >= n - 1 {
                i = n;
                assert(without_not_groups(s@, i as int) =~= Seq::<char>::empty());
                assert(kept@ + without_not_groups(s@, i as int) =~= kept@);
            } else {
                i = j + 1;
            }
        } else {
            assert(!opens_not(s@, i as int));
            let ghost before = kept@;
            kept.push(s[i]);
            assert(before + (seq![s@[i as int]] + without_not_groups(s@, i + 1)) =~= kept@
                + without_not_groups(s@, i + 1));
            i += 1;
        }
    }
    assert(kept@ + without_not_groups(s@, n as int) =~= kept@);
    kept
}

/// Does a `#[cfg(...)]` line gate on code being built as a test?
pub fn cfg_gates_on_test(line: &str) -> (r: bool)
    ensures
        r == spec_cfg_gates_on_test(line@),
{
    proof {
        reveal_strlit("test");
    }
    let c = chars_of(line);
    let no_strings = strip_strings(c.as_slice());
    let kept = remove_not_groups(no_strings.as_slice());
    let n = kept.len();
    let mut k: usize = 0;
    while n >= 4 && k <= n - 4
        invariant
            n == kept@.len(),
            kept@ == without_not_groups(outside_strings(line@).0, 0),
            forall|m: int| 0 <= m < k ==> !test_word_at(kept@, m),
        decreases n - k,
    {
        let at = kept[k] == 't' && kept[k + 1] == 'e' && kept[k + 2] == 's' && kept[k + 3] == 't';
        let before_ok = k == 0 || !word_char(kept[k - 1]);
        let after_ok = k + 4 == n || !word_char(kept[k + 4]);
        proof {
            reveal_strlit("test");
            if kept@.subrange(k as int, k + 4) == "test"@ {
                assert(kept@.subrange(k as int, k + 4)[0] == 't');
                assert(kept@.subrange(k as int, k + 4)[1] == 'e');
                assert(kept@.subrange(k as int, k + 4)[2] == 's');
                assert(kept@.subrange(k as int, k + 4)[3] == 't');
            }
            if at {
                assert(kept@.subrange(k as int, k + 4) =~= "test"@);
            }
        }
        if at && before_ok && after_ok {
            assert(test_word_at(kept@, k as int));
            return true;
        }
        k += 1;
    }
    proof {
        reveal_strlit("test");
        assert forall|m: int| !test_word_at(kept@, m) by {
            if 0 <= m && m + 4 <= kept@.len() {
                assert(m < k);
            }
        }
    }
    false
}

// ------------------------------------------------------------------ the scan

/// One broken rule: where, what the line says, and which rule.
#[derive(Debug, Clone, PartialEq, Eq)]
pub struct Violation {
    pub file: String,
    pub line: usize,
    pub text: String,
    pub rule: &'static str,
}

pub open spec fn rule_fs() -> Seq<char> {
    "only fs_guard.rs may create, write, rename or delete files"@
}

pub open spec fn rule_shell() -> Seq<char> {
    "never spawn a child through a shell; use Command::arg per argument"@
}

pub open spec fn rule_gui() -> Seq<char> {
    "ef-gui must not touch the filesystem or spawn processes directly"@
}

pub open spec fn rule_save_temps() -> Seq<char> {
    "-save-temps writes intermediates beside the source"@
}

pub open spec fn rule_werror() -> Seq<char> {
    "-Werror would make a warning block a working program from building"@
}

/// Calls that create, write, rename or delete.
pub open spec fn fs_patterns() -> Seq<Seq<char>> {
    seq![
        "File::create("@,
        "fs::write("@,
        "fs::remove_file("@,
        "fs::remove_dir_all("@,
        "fs::rename("@,
        "fs::create_dir_all("@,
        "OpenOptions::new("@,
    ]
}

/// Ways of spawning through a shell.
pub open spec fn shell_patterns() -> Seq<Seq<char>> {
    seq!["cmd /c"@, "cmd.exe"@, "\"sh\""@, "sh -c"@, "/bin/sh"@]
}

/// What the GUI must not do itself.
pub open spec fn gui_patterns() -> Seq<Seq<char>> {
    seq!["std::process::Command"@, "std::fs::"@]
}

pub open spec fn contains_seq(s: Seq<char>, p: Seq<char>) -> bool {
    find_from(s, p, 0) is Some
}

/// A violation as plain values: the line number, the line, the rule.
pub open spec fn vview(v: Violation) -> (nat, Seq<char>, Seq<char>) {
    (v.line as nat, v.text@, v.rule@)
}

pub open spec fn vviews(v: Seq<Violation>) -> Seq<(nat, Seq<char>, Seq<char>)> {
    v.map_values(|x: Violation| vview(x))
}

/// One violation per pattern the line contains, in the patterns' order.
pub open spec fn hits(line: Seq<char>, pats: Seq<Seq<char>>, ln: nat, rule: Seq<char>) -> Seq<(nat, Seq<char>, Seq<char>)>
    decreases pats.len(),
{
    if pats.len() == 0 {
        Seq::empty()
    } else {
        hits(line, pats.drop_last(), ln, rule) + if contains_seq(line, pats.last()) {
            seq![(ln, line, rule)]
        } else {
            Seq::empty()
        }
    }
}

/// What the file's path says about it.
pub struct FileKind {
    pub is_fs_guard: bool,
    pub is_test: bool,
    pub is_gui: bool,
    pub is_xtask_main: bool,
}

/// The rules a (trimmed) line breaks, given what file it is in and whether it
/// is exempt as test code.
pub open spec fn line_violations(line: Seq<char>, ln: nat, k: FileKind, exempt: bool) -> Seq<(nat, Seq<char>, Seq<char>)> {
    (if !k.is_fs_guard && !exempt {
        hits(line, fs_patterns(), ln, rule_fs())
    } else {
        Seq::empty()
    }) + (if !exempt {
        hits(line, shell_patterns(), ln, rule_shell())
    } else {
        Seq::empty()
    }) + (if k.is_gui && !exempt {
        hits(line, gui_patterns(), ln, rule_gui())
    } else {
        Seq::empty()
    }) + (if !exempt && !k.is_xtask_main {
        hits(line, seq!["-save-temps"@], ln, rule_save_temps()) + hits(
            line,
            seq!["-Werror"@],
            ln,
            rule_werror(),
        )
    } else {
        Seq::empty()
    })
}

/// Where the scan is: inside a test module or not, a test attribute waiting
/// for its item, the brace depth the test module opened at, the depth now.
pub struct ScanState {
    pub in_test_mod: bool,
    pub pending: bool,
    pub depth_at_test: nat,
    pub depth: nat,
}

pub open spec fn count_of(s: Seq<char>, c: char) -> nat
    decreases s.len(),
{
    if s.len() == 0 {
        0
    } else {
        count_of(s.drop_last(), c) + if s.last() == c {
            1nat
        } else {
            0nat
        }
    }
}

/// The state after reading one raw line. Only a `mod` after a test attribute
/// opens the exempt region, and it closes on the line that brings the depth
/// back to where it opened. The depth counts braces, never below zero (and
/// never past the largest `usize`, which no file reaches).
pub open spec fn step(st: ScanState, raw: Seq<char>) -> ScanState {
    let line = trim(raw);
    let (pending, in_test, at) = if starts_with(line, "#[cfg("@) && spec_cfg_gates_on_test(line) {
        (true, st.in_test_mod, st.depth_at_test)
    } else if st.pending && line.len() > 0 && !starts_with(line, "#"@) {
        if starts_with(line, "mod "@) || starts_with(line, "pub mod "@) {
            (false, true, st.depth)
        } else {
            (false, st.in_test_mod, st.depth_at_test)
        }
    } else {
        (st.pending, st.in_test_mod, st.depth_at_test)
    };
    let opened = if st.depth + count_of(raw, '{') > usize::MAX {
        usize::MAX as nat
    } else {
        st.depth + count_of(raw, '{')
    };
    let depth: nat = if opened >= count_of(raw, '}') {
        (opened - count_of(raw, '}')) as nat
    } else {
        0
    };
    let in_test = if in_test && depth <= at && contains_seq(line, "}"@) {
        false
    } else {
        in_test
    };
    ScanState { in_test_mod: in_test, pending, depth_at_test: at, depth }
}

/// The state after the first `n` lines, and the violations found in them.
pub open spec fn scan_upto(ls: Seq<Seq<char>>, n: int, k: FileKind) -> (ScanState, Seq<(nat, Seq<char>, Seq<char>)>)
    decreases n,
{
    if n <= 0 {
        (ScanState { in_test_mod: false, pending: false, depth_at_test: 0, depth: 0 }, Seq::empty())
    } else {
        let (st, found) = scan_upto(ls, n - 1, k);
        let next = step(st, ls[n - 1]);
        let line = trim(ls[n - 1]);
        if starts_with(line, "//"@) {
            (next, found)
        } else {
            (next, found + line_violations(line, n as nat, k, k.is_test || next.in_test_mod))
        }
    }
}

/// The file's path, with `\` read as `/`.
pub open spec fn slashed(rel: Seq<char>) -> Seq<char> {
    rel.map_values(|c: char| if c == '\\' { '/' } else { c })
}

pub open spec fn kind_of(rel: Seq<char>) -> FileKind {
    let r = slashed(rel);
    FileKind {
        is_fs_guard: crate::textops::ends_with(r, "ef-core/src/fs_guard.rs"@),
        is_test: contains_seq(r, "/tests/"@) || contains_seq(r, "ef-testkit/"@) || contains_seq(
            r,
            "xtask/"@,
        ),
        is_gui: contains_seq(r, "ef-gui/src/"@),
        is_xtask_main: crate::textops::ends_with(r, "xtask/src/main.rs"@),
    }
}

/// Every rule every line of the file breaks, in order.
pub open spec fn spec_scan(rel: Seq<char>, text: Seq<char>) -> Seq<(nat, Seq<char>, Seq<char>)> {
    scan_upto(lines(text), lines(text).len() as int, kind_of(rel)).1
}

fn contains_str(s: &[char], p: &str) -> (r: bool)
    ensures
        r == contains_seq(s@, p@),
{
    let pc = chars_of(p);
    find_chars(s, pc.as_slice()).is_some()
}

fn count_char(s: &[char], c: char) -> (r: usize)
    ensures
        r as nat == count_of(s@, c),
        r <= s@.len(),
{
    let mut n: usize = 0;
    for i in 0..s.len()
        invariant
            n as nat == count_of(s@.take(i as int), c),
            n <= i,
    {
        assert(s@.take(i + 1).drop_last() =~= s@.take(i as int));
        if s[i] == c {
            n += 1;
        }
    }
    assert(s@.take(s@.len() as int) =~= s@);
    n
}

fn push_hits(out: &mut Vec<Violation>, file: &str, line: &[char], text: &str, ln: usize, pats: &Vec<&'static str>, rule: &'static str)
    requires
        text@ == line@,
        all_from(old(out)@, file@),
    ensures
        vviews(final(out)@) == vviews(old(out)@) + hits(line@, strs(pats@), ln as nat, rule@),
        all_from(final(out)@, file@),
{
    let ghost start = vviews(out@);
    assert(strs(pats@).take(0) =~= Seq::<Seq<char>>::empty());
    for i in 0..pats.len()
        invariant
            text@ == line@,
            all_from(out@, file@),
            vviews(out@) == start + hits(line@, strs(pats@).take(i as int), ln as nat, rule@),
    {
        assert(strs(pats@).take(i + 1).drop_last() =~= strs(pats@).take(i as int));
        assert(strs(pats@).take(i + 1).last() == pats@[i as int]@);
        let ghost before = out@;
        if contains_str(line, pats[i]) {
            out.push(Violation { file: owned(file), line: ln, text: owned(text), rule });
            assert(vviews(out@) =~= vviews(before).push((ln as nat, line@, rule@)));
        }
        assert(vviews(out@) =~= start + hits(line@, strs(pats@).take(i + 1), ln as nat, rule@));
    }
    assert(strs(pats@).take(pats@.len() as int) =~= strs(pats@));
}

fn fs_list() -> (v: Vec<&'static str>)
    ensures
        strs(v@) == fs_patterns(),
{
    let mut v: Vec<&'static str> = Vec::new();
    v.push("File::create(");
    v.push("fs::write(");
    v.push("fs::remove_file(");
    v.push("fs::remove_dir_all(");
    v.push("fs::rename(");
    v.push("fs::create_dir_all(");
    v.push("OpenOptions::new(");
    assert(strs(v@) =~= fs_patterns());
    v
}

fn shell_list() -> (v: Vec<&'static str>)
    ensures
        strs(v@) == shell_patterns(),
{
    let mut v: Vec<&'static str> = Vec::new();
    v.push("cmd /c");
    v.push("cmd.exe");
    v.push("\"sh\"");
    v.push("sh -c");
    v.push("/bin/sh");
    assert(strs(v@) =~= shell_patterns());
    v
}

fn gui_list() -> (v: Vec<&'static str>)
    ensures
        strs(v@) == gui_patterns(),
{
    let mut v: Vec<&'static str> = Vec::new();
    v.push("std::process::Command");
    v.push("std::fs::");
    assert(strs(v@) =~= gui_patterns());
    v
}

fn one(p: &'static str) -> (v: Vec<&'static str>)
    ensures
        strs(v@) == seq![p@],
{
    let mut v: Vec<&'static str> = Vec::new();
    v.push(p);
    assert(strs(v@) =~= seq![p@]);
    v
}

fn file_kind(rel: &str) -> (k: FileKind)
    ensures
        k == kind_of(rel@),
{
    let c = chars_of(rel);
    let mut r: Vec<char> = Vec::new();
    for i in 0..c.len()
        invariant
            r@ == slashed(c@.take(i as int)),
    {
        r.push(if c[i] == '\\' {
            '/'
        } else {
            c[i]
        });
        assert(r@ =~= slashed(c@.take(i + 1)));
    }
    assert(c@.take(c@.len() as int) =~= c@);
    let fsg = chars_of("ef-core/src/fs_guard.rs");
    let xm = chars_of("xtask/src/main.rs");
    FileKind {
        is_fs_guard: crate::textops::chars_end_with(r.as_slice(), fsg.as_slice()),
        is_test: contains_str(r.as_slice(), "/tests/") || contains_str(r.as_slice(), "ef-testkit/")
            || contains_str(r.as_slice(), "xtask/"),
        is_gui: contains_str(r.as_slice(), "ef-gui/src/"),
        is_xtask_main: crate::textops::chars_end_with(r.as_slice(), xm.as_slice()),
    }
}

fn starts_str(s: &[char], p: &str) -> (r: bool)
    ensures
        r == starts_with(s@, p@),
{
    let pc = chars_of(p);
    chars_start_with(s, pc.as_slice())
}

pub open spec fn all_from(v: Seq<Violation>, rel: Seq<char>) -> bool {
    forall|m: int| 0 <= m < v.len() ==> (#[trigger] v[m]).file@ == rel
}

/// The state after one line, computed.
fn next_state(raw: &[char], line: &[char], line_text: &str, st: (bool, bool, usize, usize)) -> (r: (bool, bool, usize, usize))
    requires
        line@ == trim(raw@),
        line_text@ == line@,
    ensures
        step(ScanState { in_test_mod: st.0, pending: st.1, depth_at_test: st.2 as nat, depth: st.3 as nat }, raw@)
            == (ScanState { in_test_mod: r.0, pending: r.1, depth_at_test: r.2 as nat, depth: r.3 as nat }),
{
    let (mut in_test_mod, mut pending, mut depth_at_test, mut depth) = st;
    if starts_str(line, "#[cfg(") && cfg_gates_on_test(line_text) {
        pending = true;
    } else if pending && line.len() > 0 && !starts_str(line, "#") {
        if starts_str(line, "mod ") || starts_str(line, "pub mod ") {
            in_test_mod = true;
            depth_at_test = depth;
        }
        pending = false;
    }
    let opens = count_char(raw, '{');
    let closes = count_char(raw, '}');
    depth = depth.saturating_add(opens);
    depth = if depth >= closes {
        depth - closes
    } else {
        0
    };
    if in_test_mod && depth <= depth_at_test && contains_str(line, "}") {
        in_test_mod = false;
    }
    (in_test_mod, pending, depth_at_test, depth)
}

/// The lists of patterns, once.
struct Patterns {
    fs: Vec<&'static str>,
    shell: Vec<&'static str>,
    gui: Vec<&'static str>,
    save_temps: Vec<&'static str>,
    werror: Vec<&'static str>,
}

spec fn patterns_ok(p: &Patterns) -> bool {
    &&& strs(p.fs@) == fs_patterns()
    &&& strs(p.shell@) == shell_patterns()
    &&& strs(p.gui@) == gui_patterns()
    &&& strs(p.save_temps@) == seq!["-save-temps"@]
    &&& strs(p.werror@) == seq!["-Werror"@]
}

fn line_checks(out: &mut Vec<Violation>, rel: &str, line: &[char], line_text: &str, ln: usize, k: &FileKind, exempt: bool, p: &Patterns)
    requires
        patterns_ok(p),
        line_text@ == line@,
        all_from(old(out)@, rel@),
    ensures
        vviews(final(out)@) == vviews(old(out)@) + line_violations(line@, ln as nat, *k, exempt),
        all_from(final(out)@, rel@),
{
    let ghost before = out@;
    if !k.is_fs_guard && !exempt {
        push_hits(out, rel, line, line_text, ln, &p.fs, "only fs_guard.rs may create, write, rename or delete files");
    }
    if !exempt {
        push_hits(out, rel, line, line_text, ln, &p.shell, "never spawn a child through a shell; use Command::arg per argument");
    }
    if k.is_gui && !exempt {
        push_hits(out, rel, line, line_text, ln, &p.gui, "ef-gui must not touch the filesystem or spawn processes directly");
    }
    if !exempt && !k.is_xtask_main {
        push_hits(out, rel, line, line_text, ln, &p.save_temps, "-save-temps writes intermediates beside the source");
        push_hits(out, rel, line, line_text, ln, &p.werror, "-Werror would make a warning block a working program from building");
    }
    proof {
        reveal_strlit("only fs_guard.rs may create, write, rename or delete files");
        reveal_strlit("never spawn a child through a shell; use Command::arg per argument");
        reveal_strlit("ef-gui must not touch the filesystem or spawn processes directly");
        reveal_strlit("-save-temps writes intermediates beside the source");
        reveal_strlit("-Werror would make a warning block a working program from building");
        assert(vviews(out@) =~= vviews(before) + line_violations(line@, ln as nat, *k, exempt));
    }
}

/// Which of the repository's rules each line of one source file breaks.
/// `rel` is the file's path from the repository root, which decides the
/// file's exemptions; a line's number counts from one.
pub fn scan_source(rel: &str, text: &str) -> (v: Vec<Violation>)
    ensures
        vviews(v@) == spec_scan(rel@, text@),
        forall|i: int| 0 <= i < v@.len() ==> (#[trigger] v@[i]).file@ == rel@,
{
    let k = file_kind(rel);
    let ls = lines_of(text);
    let p = Patterns { fs: fs_list(), shell: shell_list(), gui: gui_list(), save_temps: one("-save-temps"), werror: one("-Werror") };
    let mut out: Vec<Violation> = Vec::new();
    let mut st: (bool, bool, usize, usize) = (false, false, 0, 0);
    let mut i: usize = 0;
    while i < ls.len()
        invariant
            i <= ls@.len(),
            strs(ls@) == lines(text@),
            k == kind_of(rel@),
            patterns_ok(&p),
            scan_upto(strs(ls@), i as int, k) == (ScanState {
                in_test_mod: st.0,
                pending: st.1,
                depth_at_test: st.2 as nat,
                depth: st.3 as nat,
            }, vviews(out@)),
            all_from(out@, rel@),
        decreases ls@.len() - i,
    {
        assert(strs(ls@)[i as int] == ls@[i as int]@);
        let raw = chars_of(ls[i]);
        let (a, b) = trim_bounds(raw.as_slice());
        let line = crate::textops::slice_range(raw.as_slice(), a, b);
        let line_text = string_from_chars(line);
        st = next_state(raw.as_slice(), line, line_text.as_str(), st);
        let ln = i + 1;
        if !starts_str(line, "//") {
            let exempt = k.is_test || st.0;
            line_checks(&mut out, rel, line, line_text.as_str(), ln, &k, exempt, &p);
        }
        i += 1;
    }
    proof {
        assert(strs(ls@).len() == ls@.len());
    }
    out
}

// ------------------------------------------------------------ tracked files

/// The largest file the repository may track.
pub const MAX_TRACKED_BYTES: u64 = 1_000_000;

/// Extensions of files that are never committed.
pub open spec fn binary_extension_list() -> Seq<Seq<char>> {
    seq![
        "conda"@, "exe"@, "dll"@, "so"@, "a"@, "o"@, "obj"@, "lib"@, "dylib"@, "ttf"@, "otf"@,
        "rpm"@, "7z"@,
    ]
}

pub open spec fn rule_binary() -> Seq<char> {
    "binaries are never committed; the toolchain is fetched from its recipe"@
}

pub open spec fn rule_large() -> Seq<char> {
    "tracked files stay under 1 MB; large artefacts belong in a release"@
}

/// The rule a tracked file breaks, if any. A binary is known by its
/// extension, in any case, and breaks the first rule whatever its size; any
/// other file breaks the second when it is a regular file of more than
/// `MAX_TRACKED_BYTES`. `size` is the length of a regular file, `None` where
/// the path is no regular file or could not be read.
pub open spec fn spec_tracked_rule(name: Seq<char>, size: Option<u64>) -> Option<Seq<char>> {
    let ext = match extension(name) {
        Some(e) => lower_seq(e),
        None => Seq::empty(),
    };
    if binary_extension_list().contains(ext) {
        Some(rule_binary())
    } else {
        match size {
            Some(n) => if n > MAX_TRACKED_BYTES {
                Some(rule_large())
            } else {
                None
            },
            None => None,
        }
    }
}

fn binary_extensions() -> (v: Vec<&'static str>)
    ensures
        strs(v@) == binary_extension_list(),
{
    let v = vec!["conda", "exe", "dll", "so", "a", "o", "obj", "lib", "dylib", "ttf", "otf", "rpm", "7z"];
    assert(strs(v@) =~= binary_extension_list());
    v
}

/// Which rule a file that the repository tracks breaks, if any.
pub fn tracked_file_rule(name: &str, size: Option<u64>) -> (r: Option<&'static str>)
    ensures
        match r {
            Some(x) => spec_tracked_rule(name@, size) == Some(x@),
            None => spec_tracked_rule(name@, size) is None,
        },
{
    let low = match extension_of(name) {
        Some(e) => crate::textops::lower_chars(chars_of(e.as_str()).as_slice()),
        None => Vec::new(),
    };
    let ghost ext = match extension(name@) {
        Some(e) => lower_seq(e),
        None => Seq::<char>::empty(),
    };
    assert(low@ =~= ext);
    let list = binary_extensions();
    let mut binary = false;
    for i in 0..list.len()
        invariant
            strs(list@) == binary_extension_list(),
            low@ == ext,
            binary ==> binary_extension_list().contains(ext),
            !binary ==> forall|k: int| 0 <= k < i ==> binary_extension_list()[k] != ext,
    {
        assert(strs(list@)[i as int] == list@[i as int]@);
        let c = chars_of(list[i]);
        if crate::textops::chars_eq(c.as_slice(), low.as_slice()) {
            assert(binary_extension_list()[i as int] == ext);
            binary = true;
        }
    }
    proof {
        reveal_strlit("binaries are never committed; the toolchain is fetched from its recipe");
        reveal_strlit("tracked files stay under 1 MB; large artefacts belong in a release");
        if !binary && binary_extension_list().contains(ext) {
            let k = choose|k: int| 0 <= k < binary_extension_list().len() && binary_extension_list()[k] == ext;
            assert(binary_extension_list()[k] != ext);
        }
    }
    if binary {
        return Some("binaries are never committed; the toolchain is fetched from its recipe");
    }
    match size {
        Some(n) => if n > MAX_TRACKED_BYTES {
            Some("tracked files stay under 1 MB; large artefacts belong in a release")
        } else {
            None
        },
        None => None,
    }
}

// ------------------------------------------------------------ the manifest

/// `u8::is_ascii_hexdigit`, on a character.
pub open spec fn is_hex(c: char) -> bool {
    ('0' <= c && c <= '9') || ('a' <= c && c <= 'f') || ('A' <= c && c <= 'F')
}

/// A line a generated manifest holds: once trimmed, more than 64 characters,
/// the first 64 of them hex digits (a SHA-256, then the file's name).
pub open spec fn is_hash_line(l: Seq<char>) -> bool {
    let t = trim(l);
    t.len() > 64 && forall|i: int| 0 <= i < 64 ==> #[trigger] is_hex(t[i])
}

pub open spec fn hash_lines(ls: Seq<Seq<char>>) -> nat
    decreases ls.len(),
{
    if ls.len() == 0 {
        0
    } else {
        hash_lines(ls.drop_last()) + if is_hash_line(ls.last()) {
            1nat
        } else {
            0nat
        }
    }
}

/// Byte 64 of a trimmed line that is longer than 64 bytes falls between two
/// characters. The check reads a line's first 64 bytes as text, which is only
/// possible there; where the first 64 characters are hex digits they are the
/// first 64 bytes too, so counting characters gives the same answer.
pub open spec fn cut_at_64(t: Seq<char>) -> bool {
    utf8_len(t) <= 64 || exists|k: int| 0 <= k <= t.len() && #[trigger] utf8_len(t.take(k)) == 64
}

/// How many lines of a manifest's text are a file's hash.
pub fn staged_hashes(text: &str) -> (n: usize)
    requires
        forall|i: int| 0 <= i < lines(text@).len() ==> #[trigger] cut_at_64(trim(lines(text@)[i])),
    ensures
        n as nat == hash_lines(lines(text@)),
{
    let ls = lines_of(text);
    let mut n: usize = 0;
    for i in 0..ls.len()
        invariant
            strs(ls@) == lines(text@),
            n as nat == hash_lines(strs(ls@).take(i as int)),
            n <= i,
    {
        assert(strs(ls@)[i as int] == ls@[i as int]@);
        assert(strs(ls@).take(i + 1).drop_last() =~= strs(ls@).take(i as int));
        let raw = chars_of(ls[i]);
        let (a, b) = trim_bounds(raw.as_slice());
        let t = crate::textops::slice_range(raw.as_slice(), a, b);
        let mut hex = t.len() > 64;
        let mut k: usize = 0;
        while hex && k < 64
            invariant
                k <= 64,
                hex ==> t@.len() > 64,
                hex ==> forall|m: int| 0 <= m < k ==> #[trigger] is_hex(t@[m]),
                !hex ==> !is_hash_line(raw@),
                t@ == trim(raw@),
            decreases 64 - k,
        {
            let c = t[k];
            if !(('0' <= c && c <= '9') || ('a' <= c && c <= 'f') || ('A' <= c && c <= 'F')) {
                assert(!is_hex(t@[k as int]));
                assert(!is_hash_line(raw@));
                hex = false;
            }
            k += 1;
        }
        if hex {
            n += 1;
        }
    }
    assert(strs(ls@).take(ls@.len() as int) =~= strs(ls@));
    n
}

/// Where the manifest lives, from the repository root.
pub open spec fn manifest_rel() -> Seq<char> {
    "crates/ef-gui/assets/toolchain-manifest.txt"@
}

pub open spec fn rule_manifest() -> Seq<char> {
    "the committed toolchain manifest must be a placeholder, not a generated one"@
}

/// What the check says of a manifest's text: nothing while it holds no
/// hash; else, against the manifest, the count and how to undo it.
pub open spec fn spec_manifest_violation(text: Seq<char>) -> Option<(nat, Seq<char>, Seq<char>)> {
    let n = hash_lines(lines(text));
    if n == 0 {
        None
    } else {
        Some((0, crate::textops::decimal(n) + " hashes staged; run `git checkout "@ + manifest_rel()
            + "` before committing"@, rule_manifest()))
    }
}

/// The committed toolchain manifest must stay a placeholder: given the text
/// that would be committed, the violation it makes, if any.
pub fn manifest_violation(text: &str) -> (r: Option<Violation>)
    requires
        forall|i: int| 0 <= i < lines(text@).len() ==> #[trigger] cut_at_64(trim(lines(text@)[i])),
    ensures
        match r {
            Some(v) => spec_manifest_violation(text@) == Some(vview(v)) && v.file@ == manifest_rel(),
            None => spec_manifest_violation(text@) is None,
        },
{
    let n = staged_hashes(text);
    if n == 0 {
        return None;
    }
    let mut t = crate::textops::decimal_of(n as u64);
    crate::textops::push_str(&mut t, " hashes staged; run `git checkout ");
    crate::textops::push_str(&mut t, "crates/ef-gui/assets/toolchain-manifest.txt");
    crate::textops::push_str(&mut t, "` before committing");
    proof {
        reveal_strlit("crates/ef-gui/assets/toolchain-manifest.txt");
        reveal_strlit("the committed toolchain manifest must be a placeholder, not a generated one");
    }
    Some(Violation {
        file: owned("crates/ef-gui/assets/toolchain-manifest.txt"),
        line: 0,
        text: string_from_chars(t.as_slice()),
        rule: "the committed toolchain manifest must be a placeholder, not a generated one",
    })
}

// ------------------------------------------------------------ the installer

pub open spec fn installer_rel() -> Seq<char> {
    "packaging/windows/installer.nsi"@
}

pub open spec fn rule_bom() -> Seq<char> {
    "installer.nsi must begin with a UTF-8 BOM, or makensis reads it in the build machine's codepage and mangles every Vietnamese string"@
}

/// The installer script begins with the UTF-8 byte order mark.
pub open spec fn has_bom(b: Seq<u8>) -> bool {
    b.len() >= 3 && b[0] == 0xEFu8 && b[1] == 0xBBu8 && b[2] == 0xBFu8
}

/// The installer script must keep its byte order mark: given its bytes, the
/// violation, if it has lost it.
pub fn installer_violation(bytes: &[u8]) -> (r: Option<Violation>)
    ensures
        r is Some <==> !has_bom(bytes@),
        match r {
            Some(v) => v.file@ == installer_rel() && vview(v) == (1nat, "(no UTF-8 byte order mark)"@, rule_bom()),
            None => true,
        },
{
    if bytes.len() >= 3 && bytes[0] == 0xEF && bytes[1] == 0xBB && bytes[2] == 0xBF {
        return None;
    }
    Some(Violation {
        file: owned("packaging/windows/installer.nsi"),
        line: 1,
        text: owned("(no UTF-8 byte order mark)"),
        rule: "installer.nsi must begin with a UTF-8 BOM, or makensis reads it in the build machine's codepage and mangles every Vietnamese string",
    })
}

// ------------------------------------------------------------ generated icons

pub open spec fn rule_icon_stale() -> Seq<char> {
    "generated from logo.png and out of date; run `cargo xtask gen-icons`"@
}

pub open spec fn rule_icon_missing() -> Seq<char> {
    "generated from logo.png and missing; run `cargo xtask gen-icons`"@
}

/// The committed icons must be what `logo.png` produces today: given a
/// generated file's path, what is committed there (`None` when it cannot be
/// read) and what generating it gives now, the violation, if any.
pub fn icon_violation(rel: &str, have: Option<&[u8]>, want: &[u8]) -> (r: Option<Violation>)
    ensures
        match have {
            Some(h) => if h@ == want@ {
                r is None
            } else {
                r matches Some(v) && v.file@ == rel@ && vview(v) == (0nat, Seq::<char>::empty(), rule_icon_stale())
            },
            None => r matches Some(v) && v.file@ == rel@ && vview(v) == (0nat, Seq::<char>::empty(), rule_icon_missing()),
        },
{
    proof {
        reveal_strlit("");
    }
    match have {
        Some(h) => {
            if bytes_eq(h, want) {
                None
            } else {
                Some(Violation {
                    file: owned(rel),
                    line: 0,
                    text: owned(""),
                    rule: "generated from logo.png and out of date; run `cargo xtask gen-icons`",
                })
            }
        },
        None => Some(Violation {
            file: owned(rel),
            line: 0,
            text: owned(""),
            rule: "generated from logo.png and missing; run `cargo xtask gen-icons`",
        }),
    }
}

fn bytes_eq(a: &[u8], b: &[u8]) -> (r: bool)
    ensures
        r == (a@ == b@),
{
    if a.len() != b.len() {
        return false;
    }
    let mut i: usize = 0;
    while i < a.len()
        invariant
            i <= a@.len(),
            a@.len() == b@.len(),
            forall|k: int| 0 <= k < i ==> a@[k] == b@[k],
        decreases a.len() - i,
    {
        if a[i] != b[i] {
            return false;
        }
        i += 1;
    }
    assert(a@ =~= b@);
    true
}

} // verus!
