//! Is this file actually Fortran source text?
//!
//! Handed a file that is not source at all, gfortran does not say so: it tries
//! to parse it and emits a cascade of `Invalid character 0x14` that never says
//! "this is not a Fortran program". One real example carried a `.FOR` name but
//! was a data file belonging to an application called FAS4.
//!
//! The checks are deliberately narrow. Old Fortran is full of things that look
//! wrong and are not: form feeds between listing pages, a Ctrl-Z end-of-file
//! marker from DOS, tabs, and high-bit bytes from a Vietnamese codepage. None of
//! those make a file binary, and flagging them would break real work.
use crate::build::omf::{read_library, read_object, spec_read_library, spec_read_object};
use crate::error::{FileProblem, ProblemArg};
use crate::i18n::{lookup, spec_lookup, Catalogs, Lang};
use crate::textops::{owned, push_str, slice_range, starts_with, string_from_chars};
use vstd::prelude::*;

verus! {

/// What a file turned out to be, when it is not Fortran source.
#[derive(Debug, Clone, PartialEq, Eq)]
pub enum NotSource {
    Empty,
    /// Saved as Unicode rather than plain text. Recoverable, and worth saying so.
    Utf16,
    /// A format we recognise well enough to name. Holds the catalog key for that name.
    Known(&'static str),
    /// A compiled library or object: "add it under Libraries instead".
    LibraryFile,
    /// Binary by content: a NUL byte, which no text file contains.
    Binary,
}

/// The same, with the format's key as plain characters.
pub enum NotSourceSpec {
    Empty,
    Utf16,
    Known(Seq<char>),
    LibraryFile,
    Binary,
}

impl View for NotSource {
    type V = NotSourceSpec;

    open spec fn view(&self) -> NotSourceSpec {
        match *self {
            NotSource::Empty => NotSourceSpec::Empty,
            NotSource::Utf16 => NotSourceSpec::Utf16,
            NotSource::Known(k) => NotSourceSpec::Known(k@),
            NotSource::LibraryFile => NotSourceSpec::LibraryFile,
            NotSource::Binary => NotSourceSpec::Binary,
        }
    }
}

pub open spec fn spec_key(n: NotSourceSpec) -> Seq<char> {
    match n {
        NotSourceSpec::Empty => "src.reject.empty"@,
        NotSourceSpec::Utf16 => "src.reject.utf16"@,
        NotSourceSpec::Known(_) => "src.reject.known"@,
        NotSourceSpec::LibraryFile => "src.reject.library"@,
        NotSourceSpec::Binary => "src.reject.binary"@,
    }
}

pub open spec fn spec_english(n: NotSourceSpec, cats: Catalogs) -> Seq<char> {
    match n {
        NotSourceSpec::Empty => "the file is empty."@,
        NotSourceSpec::Utf16 => "saved as Unicode (UTF-16) rather than plain text. Open it in Notepad and save it again with encoding set to ANSI or UTF-8."@,
        NotSourceSpec::Known(k) => "a "@ + spec_lookup(cats, Lang::En, k)
            + ", not Fortran source text."@,
        NotSourceSpec::LibraryFile => "a compiled library, not Fortran source text. Add it under Libraries rather than Source files."@,
        NotSourceSpec::Binary => "not a text file, so it cannot be Fortran source."@,
    }
}

impl NotSource {
    pub fn key(&self) -> (k: &'static str)
        ensures
            k@ == spec_key(self@),
    {
        match self {
            NotSource::Empty => "src.reject.empty",
            NotSource::Utf16 => "src.reject.utf16",
            NotSource::Known(_) => "src.reject.known",
            NotSource::LibraryFile => "src.reject.library",
            NotSource::Binary => "src.reject.binary",
        }
    }

    /// The finished, translatable description of this refusal. The name of a
    /// known format is itself prose, so it goes in as a key to translate.
    pub fn problem(&self, name: String) -> (p: FileProblem)
        ensures
            p.name == name,
            p.title_key@ == "src.unusable_title"@,
            p.reason_key@ == spec_key(self@),
            match *self {
                NotSource::Known(k) => {
                    &&& p.args@.len() == 1
                    &&& p.args@[0].0@ == "what"@
                    &&& p.args@[0].1 == ProblemArg::Key(k)
                },
                _ => p.args@.len() == 0,
            },
    {
        let args = match self {
            NotSource::Known(what_key) => {
                let mut a: Vec<(&'static str, ProblemArg)> = Vec::new();
                a.push(("what", ProblemArg::Key(what_key)));
                a
            },
            _ => Vec::new(),
        };
        FileProblem { name, title_key: "src.unusable_title", reason_key: self.key(), args }
    }

    /// Plain English, for logs and the command line. A known format's name is
    /// taken from the English catalog rather than kept twice.
    pub fn english(&self, cats: &Catalogs) -> (s: String)
        ensures
            s@ == spec_english(self@, *cats),
    {
        match self {
            NotSource::Empty => owned("the file is empty."),
            NotSource::Utf16 => owned("saved as Unicode (UTF-16) rather than plain text. Open it in Notepad and save it again with encoding set to ANSI or UTF-8."),
            NotSource::Known(k) => {
                let mut v: Vec<char> = Vec::new();
                push_str(&mut v, "a ");
                let name = lookup(cats, Lang::En, k);
                push_str(&mut v, name.as_str());
                push_str(&mut v, ", not Fortran source text.");
                string_from_chars(v.as_slice())
            },
            NotSource::LibraryFile => owned("a compiled library, not Fortran source text. Add it under Libraries rather than Source files."),
            NotSource::Binary => owned("not a text file, so it cannot be Fortran source."),
        }
    }
}

// ------------------------------------------------------------ the rules

pub open spec fn pdf_sig() -> Seq<u8> {
    seq![0x25u8, 0x50, 0x44, 0x46, 0x2d]
}

pub open spec fn rtf_sig() -> Seq<u8> {
    seq![0x7bu8, 0x5c, 0x72, 0x74, 0x66]
}

pub open spec fn zip_sig() -> Seq<u8> {
    seq![0x50u8, 0x4b, 0x03, 0x04]
}

pub open spec fn office_sig() -> Seq<u8> {
    seq![0xd0u8, 0xcf, 0x11, 0xe0, 0xa1, 0xb1, 0x1a, 0xe1]
}

pub open spec fn mz_sig() -> Seq<u8> {
    seq![0x4du8, 0x5a]
}

pub open spec fn elf_sig() -> Seq<u8> {
    seq![0x7fu8, 0x45, 0x4c, 0x46]
}

/// `FAS4-FILE`, which may follow a banner line.
pub open spec fn fas4_sig() -> Seq<u8> {
    seq![0x46u8, 0x41, 0x53, 0x34, 0x2d, 0x46, 0x49, 0x4c, 0x45]
}

pub open spec fn arch_sig() -> Seq<u8> {
    seq![0x21u8, 0x3c, 0x61, 0x72, 0x63, 0x68, 0x3e]
}

/// How far into the file the FAS4 banner may sit.
pub const FAS4_WITHIN: usize = 64;

/// How much of the file to judge by. A source file declares itself early.
pub const WINDOW: usize = 8192;

pub open spec fn prefix_upto(b: Seq<u8>, n: int) -> Seq<u8> {
    if b.len() <= n {
        b
    } else {
        b.take(n)
    }
}

/// Does `sig` occur anywhere in `w`?
pub open spec fn occurs(w: Seq<u8>, sig: Seq<u8>) -> bool {
    exists|i: int| 0 <= i && i + sig.len() <= w.len() && #[trigger] w.subrange(i, i + sig.len()) == sig
}

/// Why the bytes are not Fortran source, checked in this order; `Ok` when
/// nothing says so. A UTF-16 mark is looked for before the NUL scan, which
/// would otherwise call such a file merely binary.
pub open spec fn spec_check(b: Seq<u8>) -> Result<(), NotSourceSpec> {
    if b.len() == 0 {
        Err(NotSourceSpec::Empty)
    } else if starts_with(b, seq![0xffu8, 0xfe]) || starts_with(b, seq![0xfeu8, 0xff]) {
        Err(NotSourceSpec::Utf16)
    } else if starts_with(b, pdf_sig()) {
        Err(NotSourceSpec::Known("src.what.pdf"@))
    } else if starts_with(b, rtf_sig()) {
        Err(NotSourceSpec::Known("src.what.rtf"@))
    } else if starts_with(b, zip_sig()) {
        Err(NotSourceSpec::Known("src.what.zip"@))
    } else if starts_with(b, office_sig()) {
        Err(NotSourceSpec::Known("src.what.office"@))
    } else if starts_with(b, mz_sig()) {
        Err(NotSourceSpec::Known("src.what.windows_program"@))
    } else if starts_with(b, elf_sig()) {
        Err(NotSourceSpec::Known("src.what.linux_program"@))
    } else if occurs(prefix_upto(b, FAS4_WITHIN as int), fas4_sig()) {
        Err(NotSourceSpec::Known("src.what.fas4"@))
    } else if starts_with(b, arch_sig()) || spec_read_library(b) is Some || spec_read_object(
        b,
    ) is Some {
        Err(NotSourceSpec::LibraryFile)
    } else if prefix_upto(b, WINDOW as int).contains(0u8) {
        Err(NotSourceSpec::Binary)
    } else {
        Ok(())
    }
}

pub open spec fn check_view(r: Result<(), NotSource>) -> Result<(), NotSourceSpec> {
    match r {
        Ok(()) => Ok(()),
        Err(n) => Err(n@),
    }
}

fn starts(b: &[u8], sig: &[u8]) -> (r: bool)
    ensures
        r == starts_with(b@, sig@),
{
    if sig.len() > b.len() {
        return false;
    }
    let mut i: usize = 0;
    while i < sig.len()
        invariant
            i <= sig@.len() <= b@.len(),
            forall|j: int| 0 <= j < i ==> b@[j] == sig@[j],
        decreases sig.len() - i,
    {
        if b[i] != sig[i] {
            assert(b@.take(sig@.len() as int)[i as int] != sig@[i as int]);
            return false;
        }
        i += 1;
    }
    assert(b@.take(sig@.len() as int) =~= sig@);
    true
}

fn occurs_in(w: &[u8], sig: &[u8]) -> (r: bool)
    requires
        sig@.len() > 0,
    ensures
        r == occurs(w@, sig@),
{
    if sig.len() > w.len() {
        return false;
    }
    let last = w.len() - sig.len();
    let mut i: usize = 0;
    loop
        invariant
            i <= last,
            last + sig@.len() == w@.len(),
            forall|j: int| 0 <= j < i ==> #[trigger] w@.subrange(j, j + sig@.len()) != sig@,
        decreases last - i,
    {
        if starts(slice_range(w, i, w.len()), sig) {
            assert(w@.subrange(i as int, w@.len() as int).take(sig@.len() as int) =~= w@.subrange(
                i as int,
                i + sig@.len(),
            ));
            return true;
        }
        assert(w@.subrange(i as int, w@.len() as int).take(sig@.len() as int) =~= w@.subrange(
            i as int,
            i + sig@.len(),
        ));
        if i == last {
            return false;
        }
        i += 1;
    }
}

fn has_nul(w: &[u8]) -> (r: bool)
    ensures
        r == w@.contains(0u8),
{
    for i in 0..w.len()
        invariant
            forall|j: int| 0 <= j < i ==> w@[j] != 0u8,
    {
        if w[i] == 0 {
            return true;
        }
    }
    false
}

fn upto(b: &[u8], n: usize) -> (r: &[u8])
    ensures
        r@ == prefix_upto(b@, n as int),
{
    if b.len() <= n {
        b
    } else {
        slice_range(b, 0, n)
    }
}

/// Is this file Fortran source text, or, if not, what is it?
pub fn check(bytes: &[u8]) -> (r: Result<(), NotSource>)
    requires
        bytes@.len() < usize::MAX,
    ensures
        check_view(r) == spec_check(bytes@),
{
    if bytes.len() == 0 {
        return Err(NotSource::Empty);
    }
    let bom_le: [u8; 2] = [0xff, 0xfe];
    let bom_be: [u8; 2] = [0xfe, 0xff];
    assert(bom_le@ == seq![0xffu8, 0xfe]);
    assert(bom_be@ == seq![0xfeu8, 0xff]);
    if starts(bytes, &bom_le) || starts(bytes, &bom_be) {
        return Err(NotSource::Utf16);
    }
    let pdf: [u8; 5] = [0x25, 0x50, 0x44, 0x46, 0x2d];
    assert(pdf@ == pdf_sig());
    if starts(bytes, &pdf) {
        return Err(NotSource::Known("src.what.pdf"));
    }
    let rtf: [u8; 5] = [0x7b, 0x5c, 0x72, 0x74, 0x66];
    assert(rtf@ == rtf_sig());
    if starts(bytes, &rtf) {
        return Err(NotSource::Known("src.what.rtf"));
    }
    let zip: [u8; 4] = [0x50, 0x4b, 0x03, 0x04];
    assert(zip@ == zip_sig());
    if starts(bytes, &zip) {
        return Err(NotSource::Known("src.what.zip"));
    }
    let office: [u8; 8] = [0xd0, 0xcf, 0x11, 0xe0, 0xa1, 0xb1, 0x1a, 0xe1];
    assert(office@ == office_sig());
    if starts(bytes, &office) {
        return Err(NotSource::Known("src.what.office"));
    }
    let mz: [u8; 2] = [0x4d, 0x5a];
    assert(mz@ == mz_sig());
    if starts(bytes, &mz) {
        return Err(NotSource::Known("src.what.windows_program"));
    }
    let elf: [u8; 4] = [0x7f, 0x45, 0x4c, 0x46];
    assert(elf@ == elf_sig());
    if starts(bytes, &elf) {
        return Err(NotSource::Known("src.what.linux_program"));
    }
    let fas4: [u8; 9] = [0x46, 0x41, 0x53, 0x34, 0x2d, 0x46, 0x49, 0x4c, 0x45];
    assert(fas4@ == fas4_sig());
    if occurs_in(upto(bytes, FAS4_WITHIN), &fas4) {
        return Err(NotSource::Known("src.what.fas4"));
    }
    let arch: [u8; 7] = [0x21, 0x3c, 0x61, 0x72, 0x63, 0x68, 0x3e];
    assert(arch@ == arch_sig());
    if starts(bytes, &arch) || read_library(bytes).is_some() || read_object(bytes).is_some() {
        return Err(NotSource::LibraryFile);
    }
    if has_nul(upto(bytes, WINDOW)) {
        return Err(NotSource::Binary);
    }
    Ok(())
}

} // verus!
