//! Choosing an interface font that can draw Vietnamese.
//!
//! A font's name is not evidence that it has the glyphs; the face itself is
//! asked. The candidates are ordinary fonts of each platform, most preferred
//! first, and the first one found that draws every required character wins.
use crate::textops::strs;
use vstd::prelude::*;

verus! {

/// The characters the interface and the guide cannot do without: a sample of
/// the Vietnamese precomposed range, the horn and stroke letters, and the
/// punctuation the interface draws.
pub open spec fn required_set() -> Seq<char> {
    seq![
        '\u{1EA1}', '\u{1EBF}', '\u{1EC7}', '\u{1EDB}', '\u{1EE5}', '\u{1EF1}', '\u{1EA3}',
        '\u{1EAD}', 'ơ', 'ư', 'đ', 'Ă', 'Â', 'Ê', 'Ô', '…', '“', '”', '—', '×', '•', '·',
    ]
}

pub fn required_chars() -> (v: Vec<char>)
    ensures
        v@ == required_set(),
{
    let mut v: Vec<char> = Vec::new();
    v.push('\u{1EA1}');
    v.push('\u{1EBF}');
    v.push('\u{1EC7}');
    v.push('\u{1EDB}');
    v.push('\u{1EE5}');
    v.push('\u{1EF1}');
    v.push('\u{1EA3}');
    v.push('\u{1EAD}');
    v.push('ơ');
    v.push('ư');
    v.push('đ');
    v.push('Ă');
    v.push('Â');
    v.push('Ê');
    v.push('Ô');
    v.push('…');
    v.push('“');
    v.push('”');
    v.push('—');
    v.push('×');
    v.push('•');
    v.push('·');
    assert(v@ =~= required_set());
    v
}

/// For the face at `index` in the font file `data`, whether it has a glyph for
/// each character of `needed`, in order; nothing when the bytes are not a
/// face that `ttf_parser` can read.
pub uninterp spec fn face_glyphs(data: Seq<u8>, index: u32, needed: Seq<char>) -> Option<Seq<bool>>;

/// `ttf_parser::Face::parse(data, index)`, then `glyph_index(c).is_some()` for
/// each character. The answer depends on the bytes, the index and the
/// characters alone and is named; one answer per character.
#[verifier::external_body]
fn glyph_presence(data: &[u8], index: u32, needed: &[char]) -> (r: Option<Vec<bool>>)
    ensures
        match r {
            Some(v) => face_glyphs(data@, index, needed@) == Some(v@) && v@.len() == needed@.len(),
            None => face_glyphs(data@, index, needed@) is None,
        },
{
    match ttf_parser::Face::parse(data, index) {
        Ok(face) => Some(needed.iter().map(|c| face.glyph_index(*c).is_some()).collect()),
        Err(_) => None,
    }
}

/// The face draws every needed character. What is not a font draws nothing,
/// even when nothing is needed.
pub open spec fn spec_covers(data: Seq<u8>, index: u32, needed: Seq<char>) -> bool {
    match face_glyphs(data, index, needed) {
        None => false,
        Some(v) => all_true(v),
    }
}

pub open spec fn all_true(v: Seq<bool>) -> bool {
    forall|i: int| 0 <= i < v.len() ==> #[trigger] v[i]
}

/// Does this face have a glyph for every character we need?
pub fn covers(data: &[u8], index: u32, needed: &[char]) -> (r: bool)
    ensures
        r == spec_covers(data@, index, needed@),
{
    let v = match glyph_presence(data, index, needed) {
        None => return false,
        Some(v) => v,
    };
    for i in 0..v.len()
        invariant
            face_glyphs(data@, index, needed@) == Some(v@),
            forall|k: int| 0 <= k < i ==> #[trigger] v@[k],
    {
        if !v[i] {
            assert(!v@[i as int]);
            assert(!all_true(v@));
            return false;
        }
    }
    true
}

/// A candidate that was looked for: its file and face index, if installed.
pub open spec fn usable(found: Option<(Seq<u8>, u32)>, needed: Seq<char>) -> bool {
    match found {
        Some((data, index)) => spec_covers(data, index, needed),
        None => false,
    }
}

pub open spec fn found_view(f: Option<(Vec<u8>, u32)>) -> Option<(Seq<u8>, u32)> {
    match f {
        Some((d, i)) => Some((d@, i)),
        None => None,
    }
}

/// The first candidate, in preference order, that is installed and draws
/// everything needed.
pub fn first_usable(found: &[Option<(Vec<u8>, u32)>], needed: &[char]) -> (r: Option<usize>)
    ensures
        match r {
            Some(i) => i < found@.len() && usable(found_view(found@[i as int]), needed@) && forall|
                k: int,
            |
                0 <= k < i ==> !usable(found_view(#[trigger] found@[k]), needed@),
            None => forall|k: int|
                0 <= k < found@.len() ==> !usable(found_view(#[trigger] found@[k]), needed@),
        },
{
    for i in 0..found.len()
        invariant
            forall|k: int| 0 <= k < i ==> !usable(found_view(#[trigger] found@[k]), needed@),
    {
        match &found[i] {
            Some((data, index)) => {
                if covers(data.as_slice(), *index, needed) {
                    return Some(i);
                }
            },
            None => {},
        }
    }
    None
}

/// Proportional candidates for a platform (`std::env::consts::OS`), most
/// preferred first.
pub open spec fn spec_proportional(os: Seq<char>) -> Seq<Seq<char>> {
    if os == "windows"@ {
        seq!["Segoe UI"@, "Tahoma"@, "Verdana"@, "Arial"@]
    } else if os == "macos"@ {
        seq!["SF Pro Text"@, "Helvetica Neue"@, "Helvetica"@, "Arial"@]
    } else {
        seq!["Noto Sans"@, "DejaVu Sans"@, "Liberation Sans"@, "Cantarell"@, "Ubuntu"@]
    }
}

/// Monospace candidates for a platform, most preferred first.
pub open spec fn spec_monospace(os: Seq<char>) -> Seq<Seq<char>> {
    if os == "windows"@ {
        seq!["Consolas"@, "Cascadia Mono"@, "Courier New"@]
    } else if os == "macos"@ {
        seq!["SF Mono"@, "Menlo"@, "Monaco"@, "Courier New"@]
    } else {
        seq!["Noto Sans Mono"@, "DejaVu Sans Mono"@, "Liberation Mono"@, "Ubuntu Mono"@]
    }
}

fn same_text(a: &str, b: &str) -> (r: bool)
    ensures
        r == (a@ == b@),
{
    let ac = crate::textops::chars_of(a);
    let bc = crate::textops::chars_of(b);
    crate::textops::chars_eq(ac.as_slice(), bc.as_slice())
}

pub fn proportional(os: &str) -> (v: Vec<&'static str>)
    ensures
        strs(v@) == spec_proportional(os@),
{
    let mut v: Vec<&'static str> = Vec::new();
    if same_text(os, "windows") {
        v.push("Segoe UI");
        v.push("Tahoma");
        v.push("Verdana");
        v.push("Arial");
    } else if same_text(os, "macos") {
        v.push("SF Pro Text");
        v.push("Helvetica Neue");
        v.push("Helvetica");
        v.push("Arial");
    } else {
        v.push("Noto Sans");
        v.push("DejaVu Sans");
        v.push("Liberation Sans");
        v.push("Cantarell");
        v.push("Ubuntu");
    }
    assert(strs(v@) =~= spec_proportional(os@));
    v
}

pub fn monospace(os: &str) -> (v: Vec<&'static str>)
    ensures
        strs(v@) == spec_monospace(os@),
{
    let mut v: Vec<&'static str> = Vec::new();
    if same_text(os, "windows") {
        v.push("Consolas");
        v.push("Cascadia Mono");
        v.push("Courier New");
    } else if same_text(os, "macos") {
        v.push("SF Mono");
        v.push("Menlo");
        v.push("Monaco");
        v.push("Courier New");
    } else {
        v.push("Noto Sans Mono");
        v.push("DejaVu Sans Mono");
        v.push("Liberation Mono");
        v.push("Ubuntu Mono");
    }
    assert(strs(v@) =~= spec_monospace(os@));
    v
}

/// What was chosen, by name, for logging.
#[derive(Debug, Clone, PartialEq, Eq)]
pub struct Chosen {
    pub proportional: Option<String>,
    pub monospace: Option<String>,
}

} // verus!
