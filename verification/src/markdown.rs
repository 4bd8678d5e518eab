//! The Markdown subset the built-in guide is written in.
//!
//! Only what the guide uses: three heading levels, bullets, numbered items,
//! blank lines, and `**bold**`, `` `code` `` and `*italic*` runs inside a
//! paragraph. Drawing is the GUI's business; this module decides what each line
//! and each run is.
use crate::textops::{
    chars_of, chars_start_with, find_chars, find_from, lemma_find_from, parse_unsigned,
    parse_unsigned_exec, slice_from, slice_range, starts_with, trim, trim_bounds, trim_end,
    trim_end_index,
};
use vstd::prelude::*;

verus! {

/// How a run of text is drawn.
#[derive(Clone, Copy, PartialEq, Eq, Debug, Structural)]
pub enum Style {
    Plain,
    Bold,
    Code,
    Italic,
}

/// The delimiter that opens and closes a run of the given style.
pub open spec fn delim(st: Style) -> Seq<char> {
    match st {
        Style::Bold => seq!['*', '*'],
        Style::Code => seq!['`'],
        _ => seq!['*'],
    }
}

/// Keep the earlier candidate; at the same position the longer delimiter wins,
/// so `**` is bold rather than two italics.
pub open spec fn pick(best: Option<(int, Style)>, at: Option<int>, st: Style) -> Option<(int, Style)> {
    match at {
        None => best,
        Some(i) => match best {
            None => Some((i, st)),
            Some((j, s0)) => if i < j || (i == j && delim(st).len() > delim(s0).len()) {
                Some((i, st))
            } else {
                best
            },
        },
    }
}

/// The first delimiter in `rest`, and the style it opens.
pub open spec fn next_delim(rest: Seq<char>) -> Option<(int, Style)> {
    pick(
        pick(
            pick(None, find_from(rest, delim(Style::Bold), 0), Style::Bold),
            find_from(rest, delim(Style::Code), 0),
            Style::Code,
        ),
        find_from(rest, delim(Style::Italic), 0),
        Style::Italic,
    )
}

pub proof fn lemma_next_delim(rest: Seq<char>)
    ensures
        match next_delim(rest) {
            Some((i, st)) => 0 <= i && i + delim(st).len() <= rest.len() && rest.subrange(
                i,
                i + delim(st).len(),
            ) == delim(st),
            None => true,
        },
{
    lemma_find_from(rest, delim(Style::Bold), 0);
    lemma_find_from(rest, delim(Style::Code), 0);
    lemma_find_from(rest, delim(Style::Italic), 0);
}

/// A paragraph cut into styled runs. A delimiter with no partner after it is
/// literal text, and so is everything from there on; an empty styled run
/// (`****`) is dropped.
pub open spec fn runs(rest: Seq<char>) -> Seq<(Style, Seq<char>)>
    decreases rest.len(),
{
    if rest.len() == 0 {
        Seq::empty()
    } else {
        match next_delim(rest) {
            None => seq![(Style::Plain, rest)],
            Some((start, st)) => {
                let d = delim(st);
                let after = rest.skip(start + d.len());
                match find_from(after, d, 0) {
                    None => seq![(Style::Plain, rest)],
                    Some(end) => {
                        proof {
                            lemma_next_delim(rest);
                            lemma_find_from(after, d, 0);
                        }
                        let lead = if start > 0 {
                            seq![(Style::Plain, rest.take(start))]
                        } else {
                            Seq::empty()
                        };
                        let body = if end > 0 {
                            seq![(st, after.take(end))]
                        } else {
                            Seq::empty()
                        };
                        lead + body + runs(after.skip(end + d.len()))
                    },
                }
            },
        }
    }
}

/// No run is empty: the text a run carries is never blank.
pub proof fn law_no_run_is_empty(text: Seq<char>)
    ensures
        forall|i: int| 0 <= i < runs(text).len() ==> #[trigger] runs(text)[i].1.len() > 0,
    decreases text.len(),
{
    if text.len() > 0 {
        match next_delim(text) {
            None => {},
            Some((start, st)) => {
                let d = delim(st);
                let after = text.skip(start + d.len());
                match find_from(after, d, 0) {
                    None => {},
                    Some(end) => {
                        lemma_next_delim(text);
                        lemma_find_from(after, d, 0);
                        let tail = after.skip(end + d.len());
                        law_no_run_is_empty(tail);
                        let lead: Seq<(Style, Seq<char>)> = if start > 0 {
                            seq![(Style::Plain, text.take(start))]
                        } else {
                            Seq::empty()
                        };
                        let body: Seq<(Style, Seq<char>)> = if end > 0 {
                            seq![(st, after.take(end))]
                        } else {
                            Seq::empty()
                        };
                        assert(runs(text) == lead + body + runs(tail));
                        assert forall|i: int| 0 <= i < runs(text).len() implies #[trigger] runs(
                            text,
                        )[i].1.len() > 0 by {
                            if i < lead.len() + body.len() {
                            } else {
                                assert(runs(text)[i] == runs(tail)[i - lead.len() - body.len()]);
                            }
                        }
                    },
                }
            },
        }
    }
}

pub open spec fn run_views(v: Seq<(Style, &str)>) -> Seq<(Style, Seq<char>)> {
    v.map_values(|p: (Style, &str)| (p.0, p.1@))
}

proof fn lemma_run_views_push(v: Seq<(Style, &str)>, x: (Style, &str))
    ensures
        run_views(v.push(x)) == run_views(v).push((x.0, x.1@)),
{
    assert(run_views(v.push(x)) =~= run_views(v).push((x.0, x.1@)));
}

fn delim_chars(st: Style) -> (v: Vec<char>)
    ensures
        v@ == delim(st),
{
    let mut v: Vec<char> = Vec::new();
    match st {
        Style::Bold => {
            v.push('*');
            v.push('*');
        },
        Style::Code => v.push('`'),
        _ => v.push('*'),
    }
    assert(v@ =~= delim(st));
    v
}

pub open spec fn opt_pos(o: Option<(usize, Style)>) -> Option<(int, Style)> {
    match o {
        Some((j, s)) => Some((j as int, s)),
        None => None,
    }
}

pub open spec fn opt_idx(o: Option<usize>) -> Option<int> {
    match o {
        Some(i) => Some(i as int),
        None => None,
    }
}

fn pick_exec(best: Option<(usize, Style)>, at: Option<usize>, st: Style) -> (r: Option<(usize, Style)>)
    ensures
        opt_pos(r) == pick(opt_pos(best), opt_idx(at), st),
{
    match at {
        None => best,
        Some(i) => match best {
            None => Some((i, st)),
            Some((j, s0)) => {
                let longer = match (st, s0) {
                    (Style::Bold, Style::Bold) => false,
                    (Style::Bold, _) => true,
                    _ => false,
                };
                if i < j || (i == j && longer) {
                    Some((i, st))
                } else {
                    best
                }
            },
        },
    }
}

fn next_delim_exec(rest: &[char]) -> (r: Option<(usize, Style)>)
    ensures
        opt_pos(r) == next_delim(rest@),
{
    let b = delim_chars(Style::Bold);
    let c = delim_chars(Style::Code);
    let i = delim_chars(Style::Italic);
    let p1 = pick_exec(None, find_chars(rest, b.as_slice()), Style::Bold);
    let p2 = pick_exec(p1, find_chars(rest, c.as_slice()), Style::Code);
    pick_exec(p2, find_chars(rest, i.as_slice()), Style::Italic)
}

/// Split a paragraph into styled runs, in order. The runs are pieces of `text`.
pub fn split_inline<'a>(text: &'a str) -> (out: Vec<(Style, &'a str)>)
    ensures
        run_views(out@) == runs(text@),
{
    let tc = chars_of(text);
    let n = tc.len();
    let mut out: Vec<(Style, &'a str)> = Vec::new();
    let mut pos: usize = 0;
    assert(text@.skip(0) =~= text@);
    while pos < n
        invariant
            pos <= n,
            n == tc@.len(),
            tc@ == text@,
            runs(text@) == run_views(out@) + runs(text@.skip(pos as int)),
        decreases n - pos,
    {
        let rest = slice_from(tc.as_slice(), pos);
        let ghost r = rest@;
        assert(r == text@.skip(pos as int));
        proof {
            lemma_next_delim(r);
        }
        match next_delim_exec(rest) {
            None => {
                let piece = text.substring_char(pos, n);
                let ghost before = out@;
                out.push((Style::Plain, piece));
                proof {
                    lemma_run_views_push(before, (Style::Plain, piece));
                    assert(piece@ =~= r);
                    assert(text@.skip(n as int) =~= Seq::<char>::empty());
                    assert(run_views(out@) + runs(text@.skip(n as int)) =~= run_views(before)
                        + runs(r));
                }
                pos = n;
            },
            Some((start, st)) => {
                let d = delim_chars(st);
                let dl = d.len();
                let after = slice_from(rest, start + dl);
                match find_chars(after, d.as_slice()) {
                    None => {
                        let piece = text.substring_char(pos, n);
                        let ghost before = out@;
                        out.push((Style::Plain, piece));
                        proof {
                            lemma_run_views_push(before, (Style::Plain, piece));
                            assert(piece@ =~= r);
                            assert(text@.skip(n as int) =~= Seq::<char>::empty());
                            assert(run_views(out@) + runs(text@.skip(n as int)) =~= run_views(
                                before,
                            ) + runs(r));
                        }
                        pos = n;
                    },
                    Some(end) => {
                        let ghost before = out@;
                        let ghost lead: Seq<(Style, Seq<char>)> = if start > 0 {
                            seq![(Style::Plain, r.take(start as int))]
                        } else {
                            Seq::empty()
                        };
                        let ghost body: Seq<(Style, Seq<char>)> = if end > 0 {
                            seq![(st, after@.take(end as int))]
                        } else {
                            Seq::empty()
                        };
                        if start > 0 {
                            let piece = text.substring_char(pos, pos + start);
                            out.push((Style::Plain, piece));
                            proof {
                                lemma_run_views_push(before, (Style::Plain, piece));
                                assert(piece@ =~= r.take(start as int));
                            }
                        }
                        let ghost mid = out@;
                        assert(run_views(mid) == run_views(before) + lead);
                        let b = pos + start + dl;
                        if end > 0 {
                            let piece = text.substring_char(b, b + end);
                            out.push((st, piece));
                            proof {
                                lemma_run_views_push(mid, (st, piece));
                                assert(piece@ =~= after@.take(end as int));
                            }
                        }
                        assert(run_views(out@) == run_views(before) + lead + body);
                        let next = b + end + dl;
                        proof {
                            assert(after@.skip(end + dl) =~= text@.skip(next as int));
                            assert(runs(r) == lead + body + runs(after@.skip(end + dl)));
                            assert(run_views(before) + runs(r) =~= run_views(out@) + runs(
                                text@.skip(next as int),
                            ));
                        }
                        pos = next;
                    },
                }
            },
        }
    }
    out
}

/// A numbered list item, `12. text`: its number and its text.
pub open spec fn spec_numbered(line: Seq<char>) -> Option<(u32, Seq<char>)> {
    match find_from(line, seq!['.', ' '], 0) {
        None => None,
        Some(i) => match parse_unsigned(trim(line.take(i)), u32::MAX as nat) {
            None => None,
            Some(n) => Some((n as u32, line.skip(i + 2))),
        },
    }
}

pub fn numbered(line: &str) -> (r: Option<(u32, &str)>)
    ensures
        match spec_numbered(line@) {
            Some((n, rest)) => r matches Some((m, s)) && m == n && s@ == rest,
            None => r is None,
        },
{
    let lc = chars_of(line);
    let mut sep: Vec<char> = Vec::new();
    sep.push('.');
    sep.push(' ');
    assert(sep@ =~= seq!['.', ' ']);
    let i = match find_chars(lc.as_slice(), sep.as_slice()) {
        None => return None,
        Some(i) => i,
    };
    let head = slice_range(lc.as_slice(), 0, i);
    assert(head@ =~= line@.take(i as int));
    let (a, b) = trim_bounds(head);
    let digits = slice_range(head, a, b);
    match parse_unsigned_exec(digits, 4294967295u64) {
        None => None,
        Some(v) => {
            let n = v as u32;
            let rest = line.substring_char(i + 2, lc.len());
            assert(rest@ =~= line@.skip(i + 2));
            Some((n, rest))
        },
    }
}

/// What one line of the guide is.
#[derive(Clone, Copy, PartialEq, Eq, Debug)]
pub enum Block<'a> {
    /// `# `
    Title(&'a str),
    /// `## `
    Section(&'a str),
    /// `### `
    Subsection(&'a str),
    /// `- `
    Bullet(&'a str),
    Numbered(u32, &'a str),
    Blank,
    Paragraph(&'a str),
}

pub enum BlockSpec {
    Title(Seq<char>),
    Section(Seq<char>),
    Subsection(Seq<char>),
    Bullet(Seq<char>),
    Numbered(u32, Seq<char>),
    Blank,
    Paragraph(Seq<char>),
}

pub open spec fn block_view(b: Block) -> BlockSpec {
    match b {
        Block::Title(s) => BlockSpec::Title(s@),
        Block::Section(s) => BlockSpec::Section(s@),
        Block::Subsection(s) => BlockSpec::Subsection(s@),
        Block::Bullet(s) => BlockSpec::Bullet(s@),
        Block::Numbered(n, s) => BlockSpec::Numbered(n, s@),
        Block::Blank => BlockSpec::Blank,
        Block::Paragraph(s) => BlockSpec::Paragraph(s@),
    }
}

/// The line with trailing whitespace gone, read by its first characters; the
/// deepest heading marker is tried first.
pub open spec fn spec_classify(raw: Seq<char>) -> BlockSpec {
    let line = trim_end(raw);
    if starts_with(line, seq!['#', '#', '#', ' ']) {
        BlockSpec::Subsection(line.skip(4))
    } else if starts_with(line, seq!['#', '#', ' ']) {
        BlockSpec::Section(line.skip(3))
    } else if starts_with(line, seq!['#', ' ']) {
        BlockSpec::Title(line.skip(2))
    } else if starts_with(line, seq!['-', ' ']) {
        BlockSpec::Bullet(line.skip(2))
    } else if spec_numbered(line) is Some {
        BlockSpec::Numbered(spec_numbered(line).unwrap().0, spec_numbered(line).unwrap().1)
    } else if line.len() == 0 {
        BlockSpec::Blank
    } else {
        BlockSpec::Paragraph(line)
    }
}

fn marker(hashes: usize, dash: bool) -> (v: Vec<char>)
    requires
        hashes <= 3,
    ensures
        dash ==> v@ == seq!['-', ' '],
        !dash && hashes == 1 ==> v@ == seq!['#', ' '],
        !dash && hashes == 2 ==> v@ == seq!['#', '#', ' '],
        !dash && hashes == 3 ==> v@ == seq!['#', '#', '#', ' '],
{
    let mut v: Vec<char> = Vec::new();
    if dash {
        v.push('-');
    } else {
        let mut k: usize = 0;
        while k < hashes
            invariant
                k <= hashes <= 3,
                v@ == Seq::new(k as nat, |i: int| '#'),
            decreases hashes - k,
        {
            v.push('#');
            k += 1;
            assert(v@ =~= Seq::new(k as nat, |i: int| '#'));
        }
    }
    v.push(' ');
    assert(dash ==> v@ =~= seq!['-', ' ']);
    assert(!dash && hashes == 1 ==> v@ =~= seq!['#', ' ']);
    assert(!dash && hashes == 2 ==> v@ =~= seq!['#', '#', ' ']);
    assert(!dash && hashes == 3 ==> v@ =~= seq!['#', '#', '#', ' ']);
    v
}

/// Read one line of the guide.
pub fn classify(raw: &str) -> (b: Block)
    ensures
        block_view(b) == spec_classify(raw@),
{
    let rc = chars_of(raw);
    let e = trim_end_index(rc.as_slice());
    let lc = slice_range(rc.as_slice(), 0, e);
    let line = raw.substring_char(0, e);
    assert(line@ =~= trim_end(raw@));
    assert(lc@ =~= line@);
    let n = e;
    if chars_start_with(lc, marker(3, false).as_slice()) {
        let s = line.substring_char(4, n);
        assert(s@ =~= line@.skip(4));
        Block::Subsection(s)
    } else if chars_start_with(lc, marker(2, false).as_slice()) {
        let s = line.substring_char(3, n);
        assert(s@ =~= line@.skip(3));
        Block::Section(s)
    } else if chars_start_with(lc, marker(1, false).as_slice()) {
        let s = line.substring_char(2, n);
        assert(s@ =~= line@.skip(2));
        Block::Title(s)
    } else if chars_start_with(lc, marker(0, true).as_slice()) {
        let s = line.substring_char(2, n);
        assert(s@ =~= line@.skip(2));
        Block::Bullet(s)
    } else {
        match numbered(line) {
            Some((k, s)) => Block::Numbered(k, s),
            None => {
                if n == 0 {
                    Block::Blank
                } else {
                    Block::Paragraph(line)
                }
            },
        }
    }
}

} // verus!
