//! What kind of binary is this library file, and can our linker use it?
//!
//! A legacy project often arrives with libraries from a DOS-era compiler, in
//! the OMF format that GNU ld has never read. Handed one, the linker says
//! "file format not recognized", which tells the user nothing. So the bytes are
//! identified here and the true thing is said instead.
//!
//! Pure functions over bytes: the specifications state, for every input, which
//! format is reported and whether the bundle's linker can take it.
use crate::build::omf::{read_library, read_object, spec_looks_like_runtime, spec_read_library, spec_read_object};
use crate::error::{FileProblem, ProblemArg};
use crate::textops::{
    chars_eq, chars_of, chars_start_with, decode_lossy, eq_ignore_ascii_case, owned, parse_unsigned,
    parse_unsigned_exec, push_chars, push_str, slice_from, slice_range, starts_with,
    str_eq_ignore_ascii_case, string_from_chars, trim, trim_bounds, trim_end, trim_end_index,
    utf8_lossy,
};
use vstd::prelude::*;

verus! {

/// Extensions a compiled library or object file carries.
pub open spec fn is_library_extension(ext: Seq<char>) -> bool {
    ext == "a"@ || ext == "lib"@ || ext == "o"@ || ext == "obj"@
}

/// Is `ext` one of the extensions a compiled library or object file carries?
pub fn library_extension(ext: &[char]) -> (r: bool)
    ensures
        r == is_library_extension(ext@),
{
    chars_eq(ext, chars_of("a").as_slice()) || chars_eq(ext, chars_of("lib").as_slice())
        || chars_eq(ext, chars_of("o").as_slice()) || chars_eq(ext, chars_of("obj").as_slice())
}

/// The machine a COFF or ELF object was compiled for.
#[derive(Debug, Clone, Copy, PartialEq, Eq, Structural)]
pub enum Machine {
    I386,
    Amd64,
    Arm64,
    Other(u16),
}

pub open spec fn spec_from_coff(w: u16) -> Machine {
    if w == 0x014c {
        Machine::I386
    } else if w == 0x8664 {
        Machine::Amd64
    } else if w == 0xaa64 {
        Machine::Arm64
    } else {
        Machine::Other(w)
    }
}

pub open spec fn spec_from_elf(w: u16) -> Machine {
    if w == 0x03 {
        Machine::I386
    } else if w == 0x3e {
        Machine::Amd64
    } else if w == 0xb7 {
        Machine::Arm64
    } else {
        Machine::Other(w)
    }
}

pub open spec fn hex_digit(d: nat) -> char {
    if d < 10 {
        (('0' as nat) + d) as char
    } else {
        (('a' as nat) + d - 10) as char
    }
}

/// `format!("0x{w:04x}")`.
pub open spec fn hex4(w: u16) -> Seq<char> {
    seq![
        '0',
        'x',
        hex_digit((w as nat / 4096) % 16),
        hex_digit((w as nat / 256) % 16),
        hex_digit((w as nat / 16) % 16),
        hex_digit(w as nat % 16),
    ]
}

pub open spec fn spec_label(m: Machine) -> Seq<char> {
    match m {
        Machine::I386 => "32-bit x86"@,
        Machine::Amd64 => "64-bit x86"@,
        Machine::Arm64 => "64-bit ARM"@,
        Machine::Other(w) => hex4(w),
    }
}

fn hex_char(d: u16) -> (c: char)
    requires
        d < 16,
    ensures
        c == hex_digit(d as nat),
{
    if d < 10 {
        let b = (0x30 + d) as u8;
        b as char
    } else {
        let b = (0x61 + d - 10) as u8;
        b as char
    }
}

impl Machine {
    pub fn from_coff(w: u16) -> (m: Machine)
        ensures
            m == spec_from_coff(w),
    {
        if w == 0x014c {
            Machine::I386
        } else if w == 0x8664 {
            Machine::Amd64
        } else if w == 0xaa64 {
            Machine::Arm64
        } else {
            Machine::Other(w)
        }
    }

    pub fn from_elf(w: u16) -> (m: Machine)
        ensures
            m == spec_from_elf(w),
    {
        if w == 0x03 {
            Machine::I386
        } else if w == 0x3e {
            Machine::Amd64
        } else if w == 0xb7 {
            Machine::Arm64
        } else {
            Machine::Other(w)
        }
    }

    /// A short label for the interface. Not translated: these are proper names.
    pub fn label(self) -> (s: String)
        ensures
            s@ == spec_label(self),
    {
        match self {
            Machine::I386 => owned("32-bit x86"),
            Machine::Amd64 => owned("64-bit x86"),
            Machine::Arm64 => owned("64-bit ARM"),
            Machine::Other(w) => {
                let mut v: Vec<char> = Vec::new();
                v.push('0');
                v.push('x');
                v.push(hex_char((w / 4096) % 16));
                v.push(hex_char((w / 256) % 16));
                v.push(hex_char((w / 16) % 16));
                v.push(hex_char(w % 16));
                assert(v@ =~= hex4(w));
                string_from_chars(v.as_slice())
            },
        }
    }
}

/// What the bytes turned out to be.
#[derive(Debug, Clone, PartialEq, Eq, Structural)]
pub enum Format {
    /// `!<arch>` holding COFF members: a MinGW `.a` or an MSVC `.lib`.
    CoffArchive { machine: Option<Machine> },
    /// `!<arch>` holding ELF members: a Unix `.a`.
    ElfArchive { machine: Option<Machine> },
    /// A well-formed archive with no object members at all, such as the stub
    /// libraries MinGW ships. The linker accepts them, so we do too.
    EmptyArchive,
    /// A bare `.obj`/`.o` in PE/COFF form.
    CoffObject(Machine),
    /// A bare `.o` in ELF form.
    ElfObject(Machine),
    /// The DOS-era `.LIB`; `runtime` when it is the old compiler's own runtime.
    OmfLibrary { runtime: bool },
    /// A DOS-era `.OBJ`.
    OmfObject,
    /// LLVM bitcode.
    Bitcode,
    /// Zero bytes.
    Empty,
    /// Anything else, including plain text.
    Unknown,
}

/// Why a library cannot be used, in terms that survive translation.
#[derive(Debug, Clone, PartialEq, Eq, Structural)]
pub enum Reason {
    /// OMF.
    DosEraFormat,
    /// OMF, and the old compiler's own runtime: the user does not need the file.
    DosEraRuntime,
    /// Readable, but built for a different processor.
    WrongMachine { found: Machine, want: Machine },
    /// Readable, but the wrong container for this platform's linker.
    WrongPlatform,
    /// Not an object file at all.
    NotALibrary,
    Empty,
}

pub open spec fn spec_key(r: Reason) -> Seq<char> {
    match r {
        Reason::DosEraFormat => "lib.reject.dos_era"@,
        Reason::DosEraRuntime => "lib.reject.dos_era_runtime"@,
        Reason::WrongMachine { .. } => "lib.reject.wrong_machine"@,
        Reason::WrongPlatform => "lib.reject.wrong_platform"@,
        Reason::NotALibrary => "lib.reject.not_a_library"@,
        Reason::Empty => "lib.reject.empty"@,
    }
}

pub open spec fn spec_english(r: Reason) -> Seq<char> {
    match r {
        Reason::DosEraRuntime => "the DOS-era compiler's own runtime library, in the OMF format. You do not need it: this application's compiler brings its own runtime, so remove it from the list and build with just your source files."@,
        Reason::DosEraFormat => "built by a DOS-era compiler, in the OMF format. GNU ld reads ELF and PE/COFF only and cannot be made to read OMF. You need the original Fortran source this was built from."@,
        Reason::WrongMachine { found, want } => "built for "@ + spec_label(found)
            + ", but programs here are built for "@ + spec_label(want) + "."@,
        Reason::WrongPlatform => "built for a different operating system."@,
        Reason::NotALibrary => "not a compiled library. If it is Fortran source, add it as a source file instead."@,
        Reason::Empty => "the file is empty."@,
    }
}

impl Reason {
    /// Plain English, for logs, the command line and a support transcript.
    pub fn english(&self) -> (s: String)
        ensures
            s@ == spec_english(*self),
    {
        match self {
            Reason::DosEraRuntime => owned(
                "the DOS-era compiler's own runtime library, in the OMF format. You do not need it: this application's compiler brings its own runtime, so remove it from the list and build with just your source files.",
            ),
            Reason::DosEraFormat => owned(
                "built by a DOS-era compiler, in the OMF format. GNU ld reads ELF and PE/COFF only and cannot be made to read OMF. You need the original Fortran source this was built from.",
            ),
            Reason::WrongMachine { found, want } => {
                let mut v: Vec<char> = Vec::new();
                push_str(&mut v, "built for ");
                let f = found.label();
                push_str(&mut v, f.as_str());
                push_str(&mut v, ", but programs here are built for ");
                let w = want.label();
                push_str(&mut v, w.as_str());
                push_str(&mut v, ".");
                string_from_chars(v.as_slice())
            },
            Reason::WrongPlatform => owned("built for a different operating system."),
            Reason::NotALibrary => owned(
                "not a compiled library. If it is Fortran source, add it as a source file instead.",
            ),
            Reason::Empty => owned("the file is empty."),
        }
    }

    /// The finished, translatable description of this refusal.
    pub fn problem(&self, name: String) -> (p: FileProblem)
        ensures
            p.name == name,
            p.title_key@ == "libs.unusable_title"@,
            p.reason_key@ == spec_key(*self),
            match *self {
                Reason::WrongMachine { found, want } => {
                    &&& p.args@.len() == 2
                    &&& p.args@[0].0@ == "found"@
                    &&& p.args@[0].1 matches ProblemArg::Text(t) && t@ == spec_label(found)
                    &&& p.args@[1].0@ == "want"@
                    &&& p.args@[1].1 matches ProblemArg::Text(t) && t@ == spec_label(want)
                },
                _ => p.args@.len() == 0,
            },
    {
        let args = match self {
            Reason::WrongMachine { found, want } => {
                let mut a: Vec<(&'static str, ProblemArg)> = Vec::new();
                a.push(("found", ProblemArg::text(found.label())));
                a.push(("want", ProblemArg::text(want.label())));
                a
            },
            _ => Vec::new(),
        };
        FileProblem { name, title_key: "libs.unusable_title", reason_key: self.key(), args }
    }

    /// The catalog key describing this to the user, so the message is bilingual.
    pub fn key(&self) -> (k: &'static str)
        ensures
            k@ == spec_key(*self),
    {
        match self {
            Reason::DosEraFormat => "lib.reject.dos_era",
            Reason::DosEraRuntime => "lib.reject.dos_era_runtime",
            Reason::WrongMachine { .. } => "lib.reject.wrong_machine",
            Reason::WrongPlatform => "lib.reject.wrong_platform",
            Reason::NotALibrary => "lib.reject.not_a_library",
            Reason::Empty => "lib.reject.empty",
        }
    }
}

/// What the linker in the bundle can consume.
#[derive(Debug, Clone, Copy, PartialEq, Eq, Structural)]
pub struct Expect {
    pub coff: bool,
    pub machine: Machine,
}

impl Expect {
    /// Derived from the bundle's executable suffix. Both bundles that ship are
    /// x86-64.
    pub fn for_exe_suffix(suffix: &str) -> (e: Expect)
        ensures
            e.coff == eq_ignore_ascii_case(suffix@, ".exe"@),
            e.machine == Machine::Amd64,
    {
        Expect { coff: str_eq_ignore_ascii_case(suffix, ".exe"), machine: Machine::Amd64 }
    }
}

// ------------------------------------------------------------ the grammar

pub open spec fn u16_le(lo: u8, hi: u8) -> u16 {
    (lo as nat + 256 * (hi as nat)) as u16
}

pub open spec fn u16_be(hi: u8, lo: u8) -> u16 {
    (lo as nat + 256 * (hi as nat)) as u16
}

/// A PE/COFF object begins with its machine word, unless it is an import
/// stub, which begins `0x0000 0xFFFF` and carries the machine two words later.
/// An unrecognised machine word is taken for an ordinary file.
pub open spec fn spec_coff_machine(b: Seq<u8>) -> Option<Machine> {
    if b.len() < 2 {
        None
    } else {
        let w = u16_le(b[0], b[1]);
        if w == 0 && b.len() < 4 {
            None
        } else if w == 0 && u16_le(b[2], b[3]) == 0xFFFF {
            if b.len() < 6 {
                None
            } else {
                Some(spec_from_coff(u16_le(b[4], b[5])))
            }
        } else {
            match spec_from_coff(w) {
                Machine::Other(_) => None,
                m => Some(m),
            }
        }
    }
}

/// `e_machine` sits at offset 18, in the byte order named at offset 5.
pub open spec fn spec_elf_machine(b: Seq<u8>) -> Option<Machine> {
    if b.len() < 20 {
        None
    } else if b[5] == 2 {
        Some(spec_from_elf(u16_be(b[18], b[19])))
    } else {
        Some(spec_from_elf(u16_le(b[18], b[19])))
    }
}

pub open spec fn ar_magic() -> Seq<u8> {
    seq![0x21u8, 0x3c, 0x61, 0x72, 0x63, 0x68, 0x3e, 0x0a]
}

pub open spec fn elf_magic() -> Seq<u8> {
    seq![0x7fu8, 0x45, 0x4c, 0x46]
}

pub open spec fn bitcode_magic() -> Seq<u8> {
    seq![0x42u8, 0x43, 0xc0, 0xde]
}

/// An archive member that is an index rather than an object: exactly `/` or
/// `//` or `/SYM64/`, or a BSD `__.SYMDEF`. `/123` is an ordinary member whose
/// name lives in the string table.
pub open spec fn is_index_name(name: Seq<char>) -> bool {
    name == "/"@ || name == "//"@ || name == "/SYM64/"@ || starts_with(name, "__.SYMDEF"@)
}

/// A BSD member declared `#1/n` keeps its name in the first `n` bytes of its data.
pub open spec fn bsd_name_len(name: Seq<char>) -> nat {
    if starts_with(name, "#1/"@) {
        match parse_unsigned(name.skip(3), usize::MAX as nat) {
            Some(n) => n,
            None => 0,
        }
    } else {
        0
    }
}

/// The name field of a member header, as `ar` pads it.
pub open spec fn member_name(hdr: Seq<u8>) -> Seq<char> {
    trim_end(utf8_lossy(hdr.take(16)))
}

/// The size field of a member header.
pub open spec fn member_size(hdr: Seq<u8>) -> Option<nat> {
    parse_unsigned(trim(utf8_lossy(hdr.subrange(48, 58))), usize::MAX as nat)
}

/// What the first object member of an archive says, from offset `off`, with
/// `fuel` members left to look at.
pub open spec fn archive_walk(b: Seq<u8>, off: int, fuel: nat) -> Format
    decreases fuel,
{
    if fuel == 0 || off + 60 > b.len() {
        Format::EmptyArchive
    } else {
        let hdr = b.subrange(off, off + 60);
        if hdr[58] != 0x60 || hdr[59] != 0x0a {
            Format::EmptyArchive
        } else {
            match member_size(hdr) {
                None => Format::EmptyArchive,
                Some(size) => {
                    let name = member_name(hdr);
                    let data = off + 60;
                    if is_index_name(name) {
                        archive_walk(b, data + size + size % 2, (fuel - 1) as nat)
                    } else {
                        let start = data + bsd_name_len(name);
                        let member = if start <= b.len() {
                            b.skip(start)
                        } else {
                            Seq::empty()
                        };
                        if starts_with(member, elf_magic()) {
                            Format::ElfArchive { machine: spec_elf_machine(member) }
                        } else {
                            Format::CoffArchive { machine: spec_coff_machine(member) }
                        }
                    }
                },
            }
        }
    }
}

/// Walk at most sixteen `ar` member headers to the first real member and
/// identify it. No object member at all is an empty (stub) archive.
pub open spec fn spec_archive(b: Seq<u8>) -> Format {
    archive_walk(b, 8, 16)
}

/// What `sniff` reports. OMF is parsed rather than recognised by its first
/// byte, because `0xF0` is also a letter in the Vietnamese codepage.
pub open spec fn spec_sniff(b: Seq<u8>) -> Format {
    if b.len() == 0 {
        Format::Empty
    } else if starts_with(b, ar_magic()) {
        spec_archive(b)
    } else if starts_with(b, elf_magic()) {
        match spec_elf_machine(b) {
            Some(m) => Format::ElfObject(m),
            None => Format::Unknown,
        }
    } else if starts_with(b, bitcode_magic()) {
        Format::Bitcode
    } else if spec_read_library(b) is Some {
        Format::OmfLibrary { runtime: spec_looks_like_runtime(spec_read_library(b).unwrap().modules) }
    } else if spec_read_object(b) is Some {
        Format::OmfObject
    } else {
        match spec_coff_machine(b) {
            Some(m) => Format::CoffObject(m),
            None => Format::Unknown,
        }
    }
}

pub open spec fn machine_check(m: Option<Machine>, want: Machine) -> Result<(), Reason> {
    match m {
        Some(found) => if found != want {
            Err(Reason::WrongMachine { found, want })
        } else {
            Ok(())
        },
        None => Ok(()),
    }
}

/// Can the bundle's linker consume this?
pub open spec fn spec_assess(fmt: Format, want: Expect) -> Result<(), Reason> {
    match fmt {
        Format::OmfLibrary { runtime } => if runtime {
            Err(Reason::DosEraRuntime)
        } else {
            Err(Reason::DosEraFormat)
        },
        Format::OmfObject => Err(Reason::DosEraFormat),
        Format::Empty => Err(Reason::Empty),
        Format::Unknown | Format::Bitcode => Err(Reason::NotALibrary),
        Format::EmptyArchive => Ok(()),
        Format::CoffArchive { machine } => if !want.coff {
            Err(Reason::WrongPlatform)
        } else {
            machine_check(machine, want.machine)
        },
        Format::CoffObject(m) => if !want.coff {
            Err(Reason::WrongPlatform)
        } else {
            machine_check(Some(m), want.machine)
        },
        Format::ElfArchive { machine } => if want.coff {
            Err(Reason::WrongPlatform)
        } else {
            machine_check(machine, want.machine)
        },
        Format::ElfObject(m) => if want.coff {
            Err(Reason::WrongPlatform)
        } else {
            machine_check(Some(m), want.machine)
        },
    }
}

// ------------------------------------------------------------ the readers

fn bytes_start_with(b: &[u8], p: &[u8]) -> (r: bool)
    ensures
        r == starts_with(b@, p@),
{
    if p.len() > b.len() {
        return false;
    }
    let mut i: usize = 0;
    while i < p.len()
        invariant
            i <= p@.len() <= b@.len(),
            forall|k: int| 0 <= k < i ==> b@[k] == p@[k],
        decreases p.len() - i,
    {
        if b[i] != p[i] {
            assert(b@.take(p@.len() as int)[i as int] != p@[i as int]);
            return false;
        }
        i += 1;
    }
    assert(b@.take(p@.len() as int) =~= p@);
    true
}

fn le16(lo: u8, hi: u8) -> (w: u16)
    ensures
        w == u16_le(lo, hi),
{
    (lo as u16) + 256 * (hi as u16)
}

pub fn coff_machine(b: &[u8]) -> (r: Option<Machine>)
    ensures
        r == spec_coff_machine(b@),
{
    if b.len() < 2 {
        return None;
    }
    let w = le16(b[0], b[1]);
    if w == 0 && b.len() < 4 {
        return None;
    }
    if w == 0 && le16(b[2], b[3]) == 0xFFFF {
        if b.len() < 6 {
            return None;
        }
        return Some(Machine::from_coff(le16(b[4], b[5])));
    }
    match Machine::from_coff(w) {
        Machine::Other(_) => None,
        m => Some(m),
    }
}

pub fn elf_machine(b: &[u8]) -> (r: Option<Machine>)
    ensures
        r == spec_elf_machine(b@),
{
    if b.len() < 20 {
        return None;
    }
    let w = if b[5] == 2 {
        le16(b[19], b[18])
    } else {
        le16(b[18], b[19])
    };
    Some(Machine::from_elf(w))
}

/// Is this archive member an index rather than an object?
pub fn is_index_member(name: &[char]) -> (r: bool)
    ensures
        r == is_index_name(name@),
{
    chars_eq(name, chars_of("/").as_slice()) || chars_eq(name, chars_of("//").as_slice())
        || chars_eq(name, chars_of("/SYM64/").as_slice()) || chars_start_with(
        name,
        chars_of("__.SYMDEF").as_slice(),
    )
}

/// How many bytes of member data a BSD long name occupies.
pub fn bsd_name_skip(name: &[char]) -> (r: usize)
    ensures
        r as nat == bsd_name_len(name@),
{
    let prefix = chars_of("#1/");
    proof {
        reveal_strlit("#1/");
    }
    if chars_start_with(name, prefix.as_slice()) {
        assert(name@.len() >= 3);
        match parse_unsigned_exec(slice_from(name, 3), usize::MAX as u64) {
            Some(n) => n as usize,
            None => 0,
        }
    } else {
        0
    }
}

/// The size field of a member header, read as `ar` writes it.
pub fn parse_member_size(field: &[char]) -> (r: Option<usize>)
    ensures
        match parse_unsigned(trim(field@), usize::MAX as nat) {
            Some(n) => r == Some(n as usize),
            None => r is None,
        },
{
    let (a, z) = trim_bounds(field);
    match parse_unsigned_exec(slice_range(field, a, z), usize::MAX as u64) {
        Some(n) => Some(n as usize),
        None => None,
    }
}

fn archive(b: &[u8]) -> (f: Format)
    requires
        starts_with(b@, ar_magic()),
    ensures
        f == spec_archive(b@),
{
    let mut off: usize = 8;
    let mut fuel: usize = 16;
    while fuel > 0
        invariant
            archive_walk(b@, off as int, fuel as nat) == spec_archive(b@),
            off <= b@.len(),
        decreases fuel,
    {
        if b.len() < 60 || off > b.len() - 60 {
            return Format::EmptyArchive;
        }
        let hdr = slice_range(b, off, off + 60);
        if hdr[58] != 0x60 || hdr[59] != 0x0a {
            return Format::EmptyArchive;
        }
        let size_field = decode_lossy(slice_range(hdr, 48, 58));
        let size = match parse_member_size(size_field.as_slice()) {
            Some(s) => s,
            None => return Format::EmptyArchive,
        };
        let raw = decode_lossy(slice_range(hdr, 0, 16));
        assert(hdr@.subrange(0, 16) == hdr@.take(16));
        let name = slice_range(raw.as_slice(), 0, trim_end_index(raw.as_slice()));
        assert(name@ == member_name(hdr@));
        let data = off + 60;
        if is_index_member(name) {
            if size > b.len() - data || size + size % 2 > b.len() - data || b.len() - data
                - size - size % 2 < 60 {
                proof {
                    let next: int = data + size + size % 2;
                    assert(hdr@ == b@.subrange(off as int, off + 60));
                    assert(member_size(hdr@) == Some(size as nat));
                    assert(next + 60 > b@.len());
                    assert(archive_walk(b@, next, (fuel - 1) as nat) == Format::EmptyArchive);
                    assert(archive_walk(b@, off as int, fuel as nat) == archive_walk(
                        b@,
                        next,
                        (fuel - 1) as nat,
                    ));
                }
                return Format::EmptyArchive;
            }
            off = data + size + size % 2;
            fuel -= 1;
        } else {
            let skip = bsd_name_skip(name);
            let member: &[u8] = if skip <= b.len() - data {
                slice_from(b, data + skip)
            } else {
                slice_from(b, b.len())
            };
            assert(member@ == (if data + bsd_name_len(name@) <= b@.len() {
                b@.skip(data + bsd_name_len(name@))
            } else {
                Seq::<u8>::empty()
            }));
            let elf: [u8; 4] = [0x7f, 0x45, 0x4c, 0x46];
            assert(elf@ == elf_magic());
            if bytes_start_with(member, &elf) {
                return Format::ElfArchive { machine: elf_machine(member) };
            }
            return Format::CoffArchive { machine: coff_machine(member) };
        }
    }
    Format::EmptyArchive
}

pub fn sniff(bytes: &[u8]) -> (f: Format)
    requires
        bytes@.len() < usize::MAX,
    ensures
        f == spec_sniff(bytes@),
{
    if bytes.len() == 0 {
        return Format::Empty;
    }
    let ar: [u8; 8] = [0x21, 0x3c, 0x61, 0x72, 0x63, 0x68, 0x3e, 0x0a];
    assert(ar@ == ar_magic());
    if bytes_start_with(bytes, &ar) {
        return archive(bytes);
    }
    let elf: [u8; 4] = [0x7f, 0x45, 0x4c, 0x46];
    assert(elf@ == elf_magic());
    if bytes_start_with(bytes, &elf) {
        return match elf_machine(bytes) {
            Some(m) => Format::ElfObject(m),
            None => Format::Unknown,
        };
    }
    let bc: [u8; 4] = [0x42, 0x43, 0xc0, 0xde];
    assert(bc@ == bitcode_magic());
    if bytes_start_with(bytes, &bc) {
        return Format::Bitcode;
    }
    if let Some(lib) = read_library(bytes) {
        return Format::OmfLibrary { runtime: lib.looks_like_compiler_runtime() };
    }
    if read_object(bytes).is_some() {
        return Format::OmfObject;
    }
    match coff_machine(bytes) {
        Some(m) => Format::CoffObject(m),
        None => Format::Unknown,
    }
}

fn machine_ok(m: Option<Machine>, want: Machine) -> (r: Result<(), Reason>)
    ensures
        r == machine_check(m, want),
{
    match m {
        Some(found) => if found != want {
            Err(Reason::WrongMachine { found, want })
        } else {
            Ok(())
        },
        None => Ok(()),
    }
}

/// Can the bundle's linker consume this?
pub fn assess(fmt: &Format, want: Expect) -> (r: Result<(), Reason>)
    ensures
        r == spec_assess(*fmt, want),
{
    match fmt {
        Format::OmfLibrary { runtime } => if *runtime {
            Err(Reason::DosEraRuntime)
        } else {
            Err(Reason::DosEraFormat)
        },
        Format::OmfObject => Err(Reason::DosEraFormat),
        Format::Empty => Err(Reason::Empty),
        Format::Unknown | Format::Bitcode => Err(Reason::NotALibrary),
        Format::EmptyArchive => Ok(()),
        Format::CoffArchive { machine } => if !want.coff {
            Err(Reason::WrongPlatform)
        } else {
            machine_ok(*machine, want.machine)
        },
        Format::CoffObject(m) => if !want.coff {
            Err(Reason::WrongPlatform)
        } else {
            machine_ok(Some(*m), want.machine)
        },
        Format::ElfArchive { machine } => if want.coff {
            Err(Reason::WrongPlatform)
        } else {
            machine_ok(*machine, want.machine)
        },
        Format::ElfObject(m) => if want.coff {
            Err(Reason::WrongPlatform)
        } else {
            machine_ok(Some(*m), want.machine)
        },
    }
}

/// The processor an archive or object file says it was built for, when it
/// says one.
pub open spec fn format_machine(fmt: Format) -> Option<Machine> {
    match fmt {
        Format::CoffArchive { machine } => machine,
        Format::ElfArchive { machine } => machine,
        Format::CoffObject(m) => Some(m),
        Format::ElfObject(m) => Some(m),
        _ => None,
    }
}

/// The container is the one the bundle's linker reads: COFF for a Windows
/// bundle, ELF otherwise.
pub open spec fn native_container(fmt: Format, want: Expect) -> bool {
    match fmt {
        Format::CoffArchive { .. } | Format::CoffObject(_) => want.coff,
        Format::ElfArchive { .. } | Format::ElfObject(_) => !want.coff,
        _ => false,
    }
}

/// A library built for another processor is refused, whatever holds it: for
/// an archive or object in the linker's own container that names its
/// processor, the file is accepted exactly when the processor is the one the
/// linker builds for, and otherwise refused as the wrong machine, naming both.
/// In the other container it is refused as the wrong platform.
pub proof fn law_a_library_for_another_processor_is_refused(fmt: Format, want: Expect)
    ensures
        native_container(fmt, want) ==> match format_machine(fmt) {
            Some(m) => (spec_assess(fmt, want) is Ok <==> m == want.machine) && (m != want.machine
                ==> spec_assess(fmt, want) == Err::<(), Reason>(
                Reason::WrongMachine { found: m, want: want.machine },
            )),
            None => spec_assess(fmt, want) is Ok,
        },
        format_machine(fmt) is Some && !native_container(fmt, want) ==> spec_assess(fmt, want)
            == Err::<(), Reason>(Reason::WrongPlatform),
{
}

/// What the linker accepts, and only that: an empty archive, or an archive
/// or object in its own container built for its processor (or naming none).
/// DOS-era files are refused as such, the compiler's own runtime said apart,
/// and anything that is no object file at all is refused as not a library.
pub proof fn law_what_the_linker_accepts(fmt: Format, want: Expect)
    ensures
        spec_assess(fmt, want) is Ok <==> (fmt == Format::EmptyArchive || (native_container(fmt, want)
            && (format_machine(fmt) is None || format_machine(fmt) == Some(want.machine)))),
        fmt == (Format::OmfLibrary { runtime: true }) ==> spec_assess(fmt, want) == Err::<(), Reason>(
            Reason::DosEraRuntime,
        ),
        fmt == (Format::OmfLibrary { runtime: false }) || fmt == Format::OmfObject ==> spec_assess(fmt, want)
            == Err::<(), Reason>(Reason::DosEraFormat),
        fmt == Format::Unknown || fmt == Format::Bitcode ==> spec_assess(fmt, want) == Err::<(), Reason>(
            Reason::NotALibrary,
        ),
        fmt == Format::Empty ==> spec_assess(fmt, want) == Err::<(), Reason>(Reason::Empty),
{
}

/// A bare ELF object names its processor in `e_machine`, in the byte order
/// its header declares; read back, it is judged by that processor: an x86-64
/// object passes on a Linux bundle, anything else is refused as the wrong
/// machine, and on a Windows bundle every ELF object is the wrong platform.
pub proof fn law_an_elf_object_is_judged_by_its_e_machine(b: Seq<u8>, want: Expect)
    requires
        b.len() >= 20,
        starts_with(b, elf_magic()),
    ensures
        ({
            let w = if b[5] == 2 {
                u16_be(b[18], b[19])
            } else {
                u16_le(b[18], b[19])
            };
            &&& spec_sniff(b) == Format::ElfObject(spec_from_elf(w))
            &&& w == 0xb7 && !want.coff && want.machine == Machine::Amd64 ==> spec_assess(spec_sniff(b), want)
                == Err::<(), Reason>(Reason::WrongMachine { found: Machine::Arm64, want: Machine::Amd64 })
            &&& w == 0x3e && !want.coff && want.machine == Machine::Amd64 ==> spec_assess(spec_sniff(b), want) is Ok
            &&& want.coff ==> spec_assess(spec_sniff(b), want) == Err::<(), Reason>(Reason::WrongPlatform)
        }),
{
    assert(b.take(8) != ar_magic()) by {
        assert(b.take(4) =~= elf_magic());
        assert(b.take(8)[1] == b[1]);
        assert(ar_magic()[1] == 0x3cu8);
        assert(elf_magic()[1] == 0x45u8);
    }
    assert(!starts_with(b, ar_magic()));
}

} // verus!
