//! Reading OMF: the object format of the DOS era.
//!
//! GNU ld cannot link OMF, but reading it tells the user what a library holds:
//! the list of modules (usually named after the source files they came from)
//! and the routines each one defines.
//!
//! Every record is `type:u8`, `length:u16le`, `length-1` bytes of payload, then
//! a checksum byte. The specifications below are that grammar, written over the
//! bytes; the readers are proved to follow it exactly and never to index out of
//! bounds, whatever the bytes are.
use crate::textops::{
    chars_end_with, chars_eq, chars_of, ends_with, is_control, is_control_char, latin1, lower_chars,
    lower_seq, opt_view, slice_range, contains_string, string_from_chars, trim, trim_bounds, utf8_len, utf8_len_is, views,
};
use vstd::prelude::*;

verus! {

pub const THEADR: u8 = 0x80;
pub const LHEADR: u8 = 0x82;
pub const COMENT: u8 = 0x88;
pub const PUBDEF: u8 = 0x90;
pub const PUBDEF32: u8 = 0x91;
pub const LPUBDEF: u8 = 0xB6;
pub const LPUBDEF32: u8 = 0xB7;
pub const MODEND: u8 = 0x8A;
pub const MODEND32: u8 = 0x8B;
pub const LIBHDR: u8 = 0xF0;
pub const LIBEND: u8 = 0xF1;

/// One object module inside a library, or a lone `.OBJ`.
#[derive(Debug, Clone, Default, PartialEq, Eq)]
pub struct Module {
    /// From the `THEADR` record. Usually the source file it was compiled from.
    pub name: String,
    /// Routines and COMMON blocks this module defines.
    pub publics: Vec<String>,
    /// Whoever wrote it said so in a translator comment.
    pub translator: Option<String>,
    /// True when any 32-bit record variant appears.
    pub bits32: bool,
}

/// A module as plain values.
pub struct ModuleSpec {
    pub name: Seq<char>,
    pub publics: Seq<Seq<char>>,
    pub translator: Option<Seq<char>>,
    pub bits32: bool,
}

impl View for Module {
    type V = ModuleSpec;

    open spec fn view(&self) -> ModuleSpec {
        ModuleSpec {
            name: self.name@,
            publics: views(self.publics@),
            translator: opt_view(self.translator),
            bits32: self.bits32,
        }
    }
}

#[derive(Debug, Clone, Default, PartialEq, Eq)]
pub struct Library {
    /// The page size the header record declared; zero for a lone object.
    pub page_size: usize,
    pub modules: Vec<Module>,
    /// Set when the record stream ran out or did not make sense; what was read
    /// before that point is still returned.
    pub truncated: bool,
}

pub struct LibrarySpec {
    pub page_size: nat,
    pub modules: Seq<ModuleSpec>,
    pub truncated: bool,
}

pub open spec fn module_views(v: Seq<Module>) -> Seq<ModuleSpec> {
    v.map_values(|m: Module| m@)
}

impl View for Library {
    type V = LibrarySpec;

    open spec fn view(&self) -> LibrarySpec {
        LibrarySpec {
            page_size: self.page_size as nat,
            modules: module_views(self.modules@),
            truncated: self.truncated,
        }
    }
}

// ------------------------------------------------------------ the grammar

pub open spec fn u16le(lo: u8, hi: u8) -> nat {
    lo as nat + 256 * (hi as nat)
}

/// An OMF index at `p`: one byte below 0x80, otherwise two with the top bit as
/// a flag. The value and the position just past it.
pub open spec fn spec_index(b: Seq<u8>, p: int) -> Option<(nat, int)> {
    if 0 <= p < b.len() {
        let x = b[p];
        if x < 0x80 {
            Some((x as nat, p + 1))
        } else if p + 1 < b.len() {
            Some((((x - 0x80) as nat) * 256 + b[p + 1] as nat, p + 2))
        } else {
            None
        }
    } else {
        None
    }
}

/// A counted string at `p`: one length byte, then that many characters.
pub open spec fn spec_counted(b: Seq<u8>, p: int) -> Option<(Seq<char>, int)> {
    if 0 <= p < b.len() {
        let n = b[p] as int;
        if p + 1 + n <= b.len() {
            Some((latin1(b.subrange(p + 1, p + 1 + n)), p + 1 + n))
        } else {
            None
        }
    } else {
        None
    }
}

/// The names of a `PUBDEF` body from position `p` on, after `acc`.
pub open spec fn pubdef_names(body: Seq<u8>, wide: bool, p: int, acc: Seq<Seq<char>>) -> Seq<
    Seq<char>,
>
    decreases body.len() - p,
{
    if 0 <= p < body.len() {
        match spec_counted(body, p) {
            None => acc,
            Some((name, p1)) => {
                let p2 = p1 + if wide {
                    4int
                } else {
                    2int
                };
                match spec_index(body, p2) {
                    None => acc,
                    Some((_, p3)) => pubdef_names(
                        body,
                        wide,
                        p3,
                        if name.len() > 0 {
                            acc.push(name)
                        } else {
                            acc
                        },
                    ),
                }
            },
        }
    } else {
        acc
    }
}

/// `PUBDEF`: a base group, a base segment, a frame when there is no segment,
/// then the names, each followed by its offset and a type index.
pub open spec fn spec_pubdef(body: Seq<u8>, wide: bool) -> Seq<Seq<char>> {
    match spec_index(body, 0) {
        None => Seq::empty(),
        Some((_, p1)) => match spec_index(body, p1) {
            None => Seq::empty(),
            Some((seg, p2)) => pubdef_names(
                body,
                wide,
                if seg == 0 {
                    p2 + 2
                } else {
                    p2
                },
                Seq::empty(),
            ),
        },
    }
}

/// An OMF index as a writer puts it: one byte below 0x80, otherwise two, the
/// first with its top bit set.
pub open spec fn omf_index(n: nat) -> Seq<u8> {
    if n < 0x80 {
        seq![n as u8]
    } else {
        seq![(0x80 + n / 256) as u8, (n % 256) as u8]
    }
}

/// The width of a public's offset: four bytes in the 32-bit record, two
/// otherwise.
pub open spec fn offset_width(wide: bool) -> nat {
    if wide {
        4
    } else {
        2
    }
}

/// One public as a `PUBDEF` record writes it: the name's length and bytes,
/// its offset, and its type index.
pub open spec fn pubdef_entry(name: Seq<u8>, offset: Seq<u8>, ty: nat) -> Seq<u8> {
    seq![name.len() as u8] + name + offset + omf_index(ty)
}

/// Publics written one after the other: names, offsets and type indices.
pub open spec fn pubdef_entries(names: Seq<Seq<u8>>, offsets: Seq<Seq<u8>>, types: Seq<nat>) -> Seq<u8>
    decreases names.len(),
{
    if names.len() == 0 || offsets.len() == 0 || types.len() == 0 {
        Seq::empty()
    } else {
        pubdef_entry(names[0], offsets[0], types[0]) + pubdef_entries(
            names.drop_first(),
            offsets.drop_first(),
            types.drop_first(),
        )
    }
}

/// The start of a `PUBDEF` body: a group index and a segment index, and a
/// two-byte frame when there is no segment.
pub open spec fn pubdef_header(group: nat, seg: nat, frame: Seq<u8>) -> Seq<u8> {
    if seg == 0 {
        omf_index(group) + omf_index(0) + frame
    } else {
        omf_index(group) + omf_index(seg)
    }
}

/// Publics a `PUBDEF` can hold as written: each name not empty and short
/// enough for its length byte, each offset as wide as the record says, each
/// index one that an OMF index can carry.
pub open spec fn writable_publics(names: Seq<Seq<u8>>, offsets: Seq<Seq<u8>>, types: Seq<nat>, wide: bool) -> bool {
    &&& offsets.len() == names.len()
    &&& types.len() == names.len()
    &&& forall|i: int| 0 <= i < names.len() ==> 0 < (#[trigger] names[i]).len() < 256
    &&& forall|i: int| 0 <= i < names.len() ==> (#[trigger] offsets[i]).len() == offset_width(wide)
    &&& forall|i: int| 0 <= i < names.len() ==> #[trigger] types[i] < 0x8000
}

pub open spec fn latin1_names(names: Seq<Seq<u8>>) -> Seq<Seq<char>> {
    names.map_values(|n: Seq<u8>| latin1(n))
}

/// An index written at `pre.len()` reads back as itself.
proof fn lemma_index_reads_back(pre: Seq<u8>, n: nat, post: Seq<u8>)
    requires
        n < 0x8000,
    ensures
        spec_index(pre + omf_index(n) + post, pre.len() as int) == Some((n, (pre.len() + omf_index(n).len()) as int)),
{
    let b = pre + omf_index(n) + post;
    let p = pre.len() as int;
    if n < 0x80 {
        assert(b[p] == n as u8);
    } else {
        assert(b[p] == (0x80 + n / 256) as u8);
        assert(b[p + 1] == (n % 256) as u8);
        assert(n / 256 < 0x80);
        assert((n / 256) * 256 + n % 256 == n) by (nonlinear_arith);
    }
}

proof fn lemma_pubdef_names_written(
    pre: Seq<u8>,
    names: Seq<Seq<u8>>,
    offsets: Seq<Seq<u8>>,
    types: Seq<nat>,
    wide: bool,
    acc: Seq<Seq<char>>,
)
    requires
        writable_publics(names, offsets, types, wide),
    ensures
        pubdef_names(pre + pubdef_entries(names, offsets, types), wide, pre.len() as int, acc) == acc
            + latin1_names(names),
    decreases names.len(),
{
    let body = pre + pubdef_entries(names, offsets, types);
    if names.len() == 0 {
        assert(body =~= pre);
        assert(acc + latin1_names(names) =~= acc);
    } else {
        let n = names[0];
        let off = offsets[0];
        let ty = types[0];
        assert(0 < n.len() < 256);
        assert(off.len() == offset_width(wide));
        assert(ty < 0x8000);
        let e = pubdef_entry(n, off, ty);
        let rest_n = names.drop_first();
        let rest_o = offsets.drop_first();
        let rest_t = types.drop_first();
        let tail = pubdef_entries(rest_n, rest_o, rest_t);
        let pre2 = pre + e;
        assert(body =~= pre2 + tail);
        let p = pre.len() as int;
        assert(body[p] == e[0]);
        assert((n.len() as u8) as int == n.len());
        assert(body.subrange(p + 1, p + 1 + n.len()) =~= n);
        let p1 = p + 1 + n.len();
        let p2 = p1 + offset_width(wide);
        let before = pre + (seq![n.len() as u8] + n + off);
        assert(before.len() == p2);
        assert(body =~= before + omf_index(ty) + tail);
        lemma_index_reads_back(before, ty, tail);
        assert(latin1(n).len() == n.len());
        assert(writable_publics(rest_n, rest_o, rest_t, wide)) by {
            assert forall|i: int| 0 <= i < rest_n.len() implies 0 < (#[trigger] rest_n[i]).len() < 256 by {
                assert(rest_n[i] == names[i + 1]);
            }
            assert forall|i: int| 0 <= i < rest_n.len() implies (#[trigger] rest_o[i]).len() == offset_width(wide) by {
                assert(rest_o[i] == offsets[i + 1]);
            }
            assert forall|i: int| 0 <= i < rest_n.len() implies #[trigger] rest_t[i] < 0x8000 by {
                assert(rest_t[i] == types[i + 1]);
            }
        }
        lemma_pubdef_names_written(pre2, rest_n, rest_o, rest_t, wide, acc.push(latin1(n)));
        assert(pre2.len() == p2 + omf_index(ty).len());
        assert(acc.push(latin1(n)) + latin1_names(rest_n) =~= acc + latin1_names(names));
    }
}

/// A `PUBDEF` body gives back exactly the names written into it, in order:
/// whatever their offsets (four bytes in the 32-bit record, two otherwise)
/// and type indices, whatever group and segment it names, and whether or
/// not it carries a frame.
pub proof fn law_a_pubdef_gives_back_the_names_written(
    group: nat,
    seg: nat,
    frame: Seq<u8>,
    names: Seq<Seq<u8>>,
    offsets: Seq<Seq<u8>>,
    types: Seq<nat>,
    wide: bool,
)
    requires
        group < 0x8000,
        seg < 0x8000,
        frame.len() == 2,
        writable_publics(names, offsets, types, wide),
    ensures
        spec_pubdef(pubdef_header(group, seg, frame) + pubdef_entries(names, offsets, types), wide)
            == latin1_names(names),
{
    let h = pubdef_header(group, seg, frame);
    let rest = pubdef_entries(names, offsets, types);
    let body = h + rest;
    let gi = omf_index(group);
    lemma_index_reads_back(Seq::empty(), group, h.skip(gi.len() as int) + rest);
    assert(Seq::<u8>::empty() + gi + (h.skip(gi.len() as int) + rest) =~= body);
    if seg == 0 {
        lemma_index_reads_back(gi, 0, frame + rest);
        assert(gi + omf_index(0) + (frame + rest) =~= body);
    } else {
        lemma_index_reads_back(gi, seg, rest);
        assert(gi + omf_index(seg) + rest =~= body);
    }
    lemma_pubdef_names_written(h, names, offsets, types, wide, Seq::empty());
    assert(Seq::<Seq<char>>::empty() + latin1_names(names) =~= latin1_names(names));
}

/// The bytes before the first NUL.
pub open spec fn nul_free_len(s: Seq<u8>) -> nat
    decreases s.len(),
{
    if s.len() == 0 || s[0] == 0 {
        0
    } else {
        1 + nul_free_len(s.drop_first())
    }
}

/// Each byte as a character, control characters dropped.
pub open spec fn printable(s: Seq<u8>) -> Seq<char>
    decreases s.len(),
{
    if s.len() == 0 {
        Seq::empty()
    } else {
        printable(s.drop_last()) + if is_control(s.last() as char) {
            Seq::<char>::empty()
        } else {
            seq![s.last() as char]
        }
    }
}

/// A class-0 `COMENT` names the translator that produced the module.
pub open spec fn spec_translator(body: Seq<u8>) -> Option<Seq<char>> {
    if body.len() < 3 || body[1] != 0 {
        None
    } else {
        let rest = body.skip(2);
        let text = trim(printable(rest.take(nul_free_len(rest) as int)));
        if text.len() > 0 {
            Some(text)
        } else {
            None
        }
    }
}

pub open spec fn is_32bit_record(kind: u8) -> bool {
    kind == PUBDEF32 || kind == LPUBDEF32 || kind == MODEND32 || kind == 0x99 || kind == 0x9D
        || kind == 0xA1
}

/// What one record does to the module being read.
pub open spec fn record_effect(kind: u8, body: Seq<u8>, m: ModuleSpec) -> ModuleSpec {
    if kind == THEADR || kind == LHEADR {
        ModuleSpec {
            name: match spec_counted(body, 0) {
                Some((n, _)) => n,
                None => Seq::empty(),
            },
            ..m
        }
    } else if kind == COMENT {
        match spec_translator(body) {
            Some(t) => ModuleSpec { translator: Some(t), ..m },
            None => m,
        }
    } else if kind == PUBDEF || kind == PUBDEF32 || kind == LPUBDEF || kind == LPUBDEF32 {
        ModuleSpec {
            publics: m.publics + spec_pubdef(body, kind == PUBDEF32 || kind == LPUBDEF32),
            ..m
        }
    } else {
        m
    }
}

pub open spec fn empty_module() -> ModuleSpec {
    ModuleSpec { name: Seq::empty(), publics: Seq::empty(), translator: None, bits32: false }
}

/// Walk the records of one module that began at `start`, from `off` on.
///
/// `MODEND` ends it, and the module is complete. A stream that runs out first
/// still yields what was read, provided at least one record was, marked as
/// incomplete; a record that claims more bytes than there are, or a zero
/// length, means this is not OMF at all. The result: the module, the offset
/// just past it, and whether `MODEND` was reached.
pub open spec fn module_walk(b: Seq<u8>, start: int, off: int, m: ModuleSpec) -> Option<
    (ModuleSpec, int, bool),
>
    decreases b.len() + 1 - off,
{
    if 0 <= off && off + 3 <= b.len() {
        let kind = b[off];
        let len = u16le(b[off + 1], b[off + 2]) as int;
        let body_end = off + 3 + (len - 1);
        if len == 0 || body_end > b.len() {
            None
        } else {
            let body = b.subrange(off + 3, body_end);
            let m1 = ModuleSpec { bits32: m.bits32 || is_32bit_record(kind), ..m };
            if kind == MODEND || kind == MODEND32 {
                Some((m1, body_end + 1, true))
            } else {
                module_walk(b, start, body_end + 1, record_effect(kind, body, m1))
            }
        }
    } else if off > start {
        Some((m, off, false))
    } else {
        None
    }
}

pub open spec fn spec_read_module(b: Seq<u8>, start: int) -> Option<(ModuleSpec, int, bool)> {
    module_walk(b, start, start, empty_module())
}

pub proof fn lemma_module_walk_advances(b: Seq<u8>, start: int, off: int, m: ModuleSpec)
    requires
        start <= off,
    ensures
        module_walk(b, start, off, m) matches Some((_, end, _)) ==> start < end,
    decreases b.len() + 1 - off,
{
    if 0 <= off && off + 3 <= b.len() {
        let kind = b[off];
        let len = u16le(b[off + 1], b[off + 2]) as int;
        let body_end = off + 3 + (len - 1);
        if len != 0 && body_end <= b.len() && kind != MODEND && kind != MODEND32 {
            let body = b.subrange(off + 3, body_end);
            let m1 = ModuleSpec { bits32: m.bits32 || is_32bit_record(kind), ..m };
            lemma_module_walk_advances(b, start, body_end + 1, record_effect(kind, body, m1));
        }
    }
}

pub open spec fn is_pow2(n: nat) -> bool
    decreases n,
{
    if n <= 1 {
        n == 1
    } else {
        n % 2 == 0 && is_pow2(n / 2)
    }
}

pub open spec fn ceil_to(end: int, ps: int) -> int {
    if end % ps == 0 {
        end
    } else {
        (end / ps + 1) * ps
    }
}

/// Modules from `off` on, each starting on a page boundary; the modules and
/// whether the stream ran out inside a module or stopped making sense. A
/// module cut short is kept, and ends the walk as truncated.
pub open spec fn library_walk(b: Seq<u8>, ps: int, off: int, mods: Seq<ModuleSpec>) -> (
    Seq<ModuleSpec>,
    bool,
)
    decreases b.len() - off,
{
    if off < 0 || off >= b.len() || ps <= 0 {
        (mods, false)
    } else if b[off] == LIBEND {
        (mods, false)
    } else if b[off] != THEADR && b[off] != LHEADR {
        (mods, true)
    } else {
        match spec_read_module(b, off) {
            None => (mods, true),
            Some((m, _, false)) => (mods.push(m), true),
            Some((m, end, true)) => {
                let next = ceil_to(end, ps);
                if next > usize::MAX || next <= end - 1 || next <= off || next >= b.len() {
                    (mods.push(m), false)
                } else {
                    library_walk(b, ps, next, mods.push(m))
                }
            },
        }
    }
}

/// What `read_library` returns: `None` when this is not an OMF library.
pub open spec fn spec_read_library(b: Seq<u8>) -> Option<LibrarySpec> {
    if b.len() < 3 || b[0] != LIBHDR {
        None
    } else {
        let ps = u16le(b[1], b[2]) + 3;
        if ps < 16 || !is_pow2(ps) {
            None
        } else {
            let (mods, tr) = library_walk(b, ps as int, ps as int, Seq::empty());
            Some(LibrarySpec { page_size: ps, modules: mods, truncated: tr })
        }
    }
}

/// What `read_object` returns: `None` when this is not a loose OMF module.
pub open spec fn spec_read_object(b: Seq<u8>) -> Option<ModuleSpec> {
    if b.len() == 0 || (b[0] != THEADR && b[0] != LHEADR) {
        None
    } else {
        match spec_read_module(b, 0) {
            Some((m, _, _)) => Some(m),
            None => None,
        }
    }
}

// ---------------------------------------------------------- the readers

fn index(b: &[u8], p: usize) -> (r: Option<(u16, usize)>)
    ensures
        match spec_index(b@, p as int) {
            Some((v, q)) => r matches Some((v2, q2)) && v2 as nat == v && q2 as int == q,
            None => r is None,
        },
{
    if p >= b.len() {
        return None;
    }
    let x = b[p];
    if x < 0x80 {
        return Some((x as u16, p + 1));
    }
    if p + 1 >= b.len() {
        return None;
    }
    let y = b[p + 1];
    Some((((x - 0x80) as u16) * 256 + y as u16, p + 2))
}

/// Each byte as the character with that code point.
fn latin1_string(b: &[u8]) -> (s: String)
    ensures
        s@ == latin1(b@),
{
    let mut v: Vec<char> = Vec::new();
    let mut i: usize = 0;
    while i < b.len()
        invariant
            i <= b@.len(),
            v@ == latin1(b@.take(i as int)),
        decreases b.len() - i,
    {
        v.push(b[i] as char);
        i += 1;
        assert(v@ =~= latin1(b@.take(i as int)));
    }
    assert(b@.take(b@.len() as int) =~= b@);
    string_from_chars(v.as_slice())
}

fn counted(b: &[u8], p: usize) -> (r: Option<(String, usize)>)
    ensures
        match spec_counted(b@, p as int) {
            Some((s, q)) => r matches Some((s2, q2)) && s2@ == s && q2 as int == q,
            None => r is None,
        },
{
    if p >= b.len() {
        return None;
    }
    let n = b[p] as usize;
    if n > b.len() - p - 1 {
        return None;
    }
    let s = latin1_string(slice_range(b, p + 1, p + 1 + n));
    Some((s, p + 1 + n))
}

/// Append the names of a `PUBDEF` body to `out`.
fn read_pubdef(body: &[u8], wide: bool, out: &mut Vec<String>)
    requires
        body@.len() < 0x10000,
    ensures
        views(final(out)@) == views(old(out)@) + spec_pubdef(body@, wide),
{
    let ghost start = views(old(out)@);
    let p1 = match index(body, 0) {
        Some((_, q)) => q,
        None => {
            assert(views(out@) =~= start + Seq::<Seq<char>>::empty());
            return ;
        },
    };
    let (seg, p2) = match index(body, p1) {
        Some(r) => r,
        None => {
            assert(views(out@) =~= start + Seq::<Seq<char>>::empty());
            return ;
        },
    };
    let mut p = if seg == 0 {
        p2 + 2
    } else {
        p2
    };
    let ghost mut acc: Seq<Seq<char>> = Seq::empty();
    assert(views(out@) =~= start + acc);
    while p < body.len()
        invariant
            body@.len() < 0x10000,
            p <= body@.len() + 2,
            spec_pubdef(body@, wide) == pubdef_names(body@, wide, p as int, acc),
            views(out@) == start + acc,
            start == views(old(out)@),
        decreases body.len() - p,
    {
        let (name, q1) = match counted(body, p) {
            Some(r) => r,
            None => {
                assert(pubdef_names(body@, wide, p as int, acc) == acc);
                return ;
            },
        };
        let q2 = q1 + if wide {
            4
        } else {
            2
        };
        let q3 = match index(body, q2) {
            Some((_, q)) => q,
            None => {
                assert(pubdef_names(body@, wide, p as int, acc) == acc);
                return ;
            },
        };
        assert(pubdef_names(body@, wide, p as int, acc) == pubdef_names(
            body@,
            wide,
            q3 as int,
            if name@.len() > 0 {
                acc.push(name@)
            } else {
                acc
            },
        ));
        if !name.as_str().is_empty() {
            let ghost nv = name@;
            let ghost before = out@;
            out.push(name);
            assert(out@ == before.push(out@.last()));
            assert(views(out@) =~= views(before).push(nv));
            proof {
                acc = acc.push(nv);
            }
            assert(views(out@) =~= start + acc);
        }
        p = q3;
    }
}

/// The bytes before the first NUL, each as a character, controls dropped,
/// trimmed: the text of a translator comment.
fn translator_comment(body: &[u8]) -> (r: Option<String>)
    ensures
        opt_view(r) == spec_translator(body@),
{
    if body.len() < 3 || body[1] != 0 {
        return None;
    }
    let rest = slice_range(body, 2, body.len());
    assert(rest@ == body@.skip(2));
    let mut v: Vec<char> = Vec::new();
    let mut i: usize = 0;
    while i < rest.len() && rest[i] != 0
        invariant
            i <= rest@.len(),
            forall|k: int| 0 <= k < i ==> rest@[k] != 0,
            v@ == printable(rest@.take(i as int)),
        decreases rest.len() - i,
    {
        let c = rest[i] as char;
        assert(rest@.take(i + 1).drop_last() =~= rest@.take(i as int));
        if !is_control_char(c) {
            v.push(c);
        }
        i += 1;
        assert(v@ =~= printable(rest@.take(i as int)));
    }
    proof {
        lemma_nul_free_len(rest@, i as int);
    }
    let (a, z) = trim_bounds(v.as_slice());
    if a == z {
        return None;
    }
    Some(string_from_chars(slice_range(v.as_slice(), a, z)))
}

proof fn lemma_nul_free_len(s: Seq<u8>, i: int)
    requires
        0 <= i <= s.len(),
        forall|k: int| 0 <= k < i ==> s[k] != 0,
        i == s.len() || s[i] == 0,
    ensures
        nul_free_len(s) == i,
    decreases i,
{
    if i > 0 {
        lemma_nul_free_len(s.drop_first(), i - 1);
    }
}

fn is_32bit_kind(kind: u8) -> (r: bool)
    ensures
        r == is_32bit_record(kind),
{
    kind == PUBDEF32 || kind == LPUBDEF32 || kind == MODEND32 || kind == 0x99 || kind == 0x9D
        || kind == 0xA1
}

/// Walk the records of one module, returning it, the offset just past its
/// end, and whether it ended with `MODEND`.
fn read_module(b: &[u8], start: usize) -> (r: Option<(Module, usize, bool)>)
    requires
        start <= b@.len() < usize::MAX,
    ensures
        match spec_read_module(b@, start as int) {
            Some((m, end, done)) => r matches Some((m2, e2, d2)) && m2@ == m && e2 as int == end
                && d2 == done,
            None => r is None,
        },
{
    let mut m = Module { name: String::new(), publics: Vec::new(), translator: None, bits32: false };
    let mut off = start;
    assert(m@ == empty_module()) by {
        assert(views(m.publics@) =~= Seq::<Seq<char>>::empty());
    }
    while b.len() >= 3 && off <= b.len() - 3
        invariant
            start <= off <= b@.len() + 1,
            b@.len() < usize::MAX,
            module_walk(b@, start as int, off as int, m@) == spec_read_module(b@, start as int),
        decreases b.len() + 1 - off,
    {
        let kind = b[off];
        let len = (b[off + 1] as usize) + 256 * (b[off + 2] as usize);
        if len == 0 {
            return None;
        }
        if len - 1 > b.len() - off - 3 {
            return None;
        }
        let body_end = off + 3 + (len - 1);
        let body = slice_range(b, off + 3, body_end);
        let ghost m1 = ModuleSpec { bits32: m@.bits32 || is_32bit_record(kind), ..m@ };
        if is_32bit_kind(kind) {
            m.bits32 = true;
        }
        assert(m@ == m1);
        if kind == MODEND || kind == MODEND32 {
            return Some((m, body_end + 1, true));
        }
        if kind == THEADR || kind == LHEADR {
            m.name = match counted(body, 0) {
                Some((n, _)) => n,
                None => String::new(),
            };
        } else if kind == COMENT {
            if let Some(t) = translator_comment(body) {
                m.translator = Some(t);
            }
        } else if kind == PUBDEF || kind == PUBDEF32 || kind == LPUBDEF || kind == LPUBDEF32 {
            read_pubdef(body, kind == PUBDEF32 || kind == LPUBDEF32, &mut m.publics);
        }
        assert(m@ == record_effect(kind, body@, m1)) by {
            if kind == PUBDEF || kind == PUBDEF32 || kind == LPUBDEF || kind == LPUBDEF32 {
            } else if kind == THEADR || kind == LHEADR {
            }
        }
        off = body_end + 1;
    }
    if off > start {
        Some((m, off, false))
    } else {
        None
    }
}

fn is_power_of_two(n: usize) -> (r: bool)
    ensures
        r == is_pow2(n as nat),
{
    let mut x = n;
    while x > 1 && x % 2 == 0
        invariant
            is_pow2(x as nat) == is_pow2(n as nat),
        decreases x,
    {
        x = x / 2;
    }
    x == 1
}

/// Read a `.LIB`. Returns `None` if this is not an OMF library at all.
pub fn read_library(b: &[u8]) -> (r: Option<Library>)
    requires
        b@.len() < usize::MAX,
    ensures
        match spec_read_library(b@) {
            Some(l) => r matches Some(l2) && l2@ == l,
            None => r is None,
        },
{
    if b.len() < 3 || b[0] != LIBHDR {
        return None;
    }
    let page_size = (b[1] as usize) + 256 * (b[2] as usize) + 3;
    if page_size < 16 || !is_power_of_two(page_size) {
        return None;
    }
    let mut lib = Library { page_size, modules: Vec::new(), truncated: false };
    let mut off = page_size;
    assert(module_views(lib.modules@) =~= Seq::<ModuleSpec>::empty());
    loop
        invariant_except_break
            b@.len() < usize::MAX,
            lib.page_size == page_size,
            page_size >= 16,
            !lib.truncated,
            library_walk(b@, page_size as int, off as int, module_views(lib.modules@))
                == library_walk(b@, page_size as int, page_size as int, Seq::empty()),
        ensures
            lib.page_size == page_size,
            (module_views(lib.modules@), lib.truncated) == library_walk(
                b@,
                page_size as int,
                page_size as int,
                Seq::empty(),
            ),
        decreases b.len() - off,
    {
        if off >= b.len() {
            break;
        }
        let k = b[off];
        if k == LIBEND {
            break;
        }
        if k != THEADR && k != LHEADR {
            lib.truncated = true;
            break;
        }
        match read_module(b, off) {
            Some((m, _, false)) => {
                let ghost before = module_views(lib.modules@);
                let ghost mv = m@;
                lib.modules.push(m);
                assert(module_views(lib.modules@) =~= before.push(mv));
                lib.truncated = true;
                break;
            },
            Some((m, end, true)) => {
                proof {
                    lemma_module_walk_advances(b@, off as int, off as int, empty_module());
                }
                let ghost before = module_views(lib.modules@);
                let ghost mv = m@;
                lib.modules.push(m);
                assert(module_views(lib.modules@) =~= before.push(mv));
                assert(end / page_size <= usize::MAX / 16) by (nonlinear_arith)
                    requires
                        page_size >= 16,
                        end <= usize::MAX,
                ;
                let q = end / page_size + if end % page_size == 0 {
                    0
                } else {
                    1
                };
                if q > usize::MAX / page_size {
                    assert(ceil_to(end as int, page_size as int) > usize::MAX) by (nonlinear_arith)
                        requires
                            q == end / page_size + if end % page_size == 0 {
                                0int
                            } else {
                                1
                            },
                            q > usize::MAX / page_size,
                            page_size > 0,
                    ;
                    break;
                }
                assert(q * page_size <= usize::MAX) by (nonlinear_arith)
                    requires
                        q <= usize::MAX / page_size,
                        page_size > 0,
                ;
                let next = q * page_size;
                assert(next as int == ceil_to(end as int, page_size as int)) by (nonlinear_arith)
                    requires
                        q == end / page_size + if end % page_size == 0 {
                            0int
                        } else {
                            1
                        },
                        next == q * page_size,
                        page_size > 0,
                ;
                if next <= end - 1 || next <= off || next >= b.len() {
                    break;
                }
                off = next;
            },
            None => {
                lib.truncated = true;
                break;
            },
        }
    }
    Some(lib)
}

/// Read a lone `.OBJ`.
pub fn read_object(b: &[u8]) -> (r: Option<Module>)
    requires
        b@.len() < usize::MAX,
    ensures
        match spec_read_object(b@) {
            Some(m) => r matches Some(m2) && m2@ == m,
            None => r is None,
        },
{
    if b.len() == 0 || (b[0] != THEADR && b[0] != LHEADR) {
        return None;
    }
    match read_module(b, 0) {
        Some((m, _, _)) => Some(m),
        None => None,
    }
}

// ---------------------------------------------------------- what it holds

/// `acc`, then each of `s` that is not already there, in order.
pub open spec fn add_unique(acc: Seq<Seq<char>>, s: Seq<Seq<char>>) -> Seq<Seq<char>>
    decreases s.len(),
{
    if s.len() == 0 {
        acc
    } else {
        let a = add_unique(acc, s.drop_last());
        if a.contains(s.last()) {
            a
        } else {
            a.push(s.last())
        }
    }
}

/// Every public name of the modules, each once, in first-seen order.
pub open spec fn gather_publics(mods: Seq<ModuleSpec>) -> Seq<Seq<char>>
    decreases mods.len(),
{
    if mods.len() == 0 {
        Seq::empty()
    } else {
        add_unique(gather_publics(mods.drop_last()), mods.last().publics)
    }
}

/// A C startup module: the company a compiler's runtime keeps.
pub open spec fn is_startup_name(lowered: Seq<char>) -> bool {
    lowered == "crt0"@ || lowered == "crt0dat"@ || lowered == "entx6l"@ || lowered
        == "stdargv"@ || lowered == "stdenvp"@ || lowered == "_exit"@
}

/// Microsoft's runtime naming: six bytes, ending in `QQ`.
pub open spec fn is_qq_name(p: Seq<char>) -> bool {
    utf8_len(p) == 6 && ends_with(p, "QQ"@)
}

pub open spec fn count_qq(s: Seq<Seq<char>>) -> nat
    decreases s.len(),
{
    if s.len() == 0 {
        0
    } else {
        count_qq(s.drop_last()) + if is_qq_name(s.last()) {
            1nat
        } else {
            0nat
        }
    }
}

/// Does a library look like a compiler's own runtime rather than the user's code?
pub open spec fn spec_looks_like_runtime(mods: Seq<ModuleSpec>) -> bool {
    (exists|i: int| 0 <= i < mods.len() && is_startup_name(lower_seq(#[trigger] mods[i].name)))
        || ({
        let p = gather_publics(mods);
        p.len() >= 8 && count_qq(p) * 4 >= p.len()
    })
}

fn is_startup(name: &String) -> (r: bool)
    ensures
        r == is_startup_name(lower_seq(name@)),
{
    let l = lower_chars(chars_of(name.as_str()).as_slice());
    let l = l.as_slice();
    chars_eq(l, chars_of("crt0").as_slice()) || chars_eq(l, chars_of("crt0dat").as_slice())
        || chars_eq(l, chars_of("entx6l").as_slice()) || chars_eq(
        l,
        chars_of("stdargv").as_slice(),
    ) || chars_eq(l, chars_of("stdenvp").as_slice()) || chars_eq(l, chars_of("_exit").as_slice())
}

fn qq_name(p: &String) -> (r: bool)
    ensures
        r == is_qq_name(p@),
{
    let c = chars_of(p.as_str());
    utf8_len_is(c.as_slice(), 6) && chars_end_with(c.as_slice(), chars_of("QQ").as_slice())
}

impl Library {
    /// Wrap one loose object module so it can be described like a library.
    pub fn of_object(module: Module) -> (r: Library)
        ensures
            r@.page_size == 0,
            r@.modules == seq![module@],
            !r@.truncated,
    {
        let ghost mv = module@;
        let lib = Library { page_size: 0, modules: vec![module], truncated: false };
        assert(module_views(lib.modules@) =~= seq![mv]);
        lib
    }

    /// Every public symbol in the library, deduplicated, in first-seen order.
    pub fn all_publics(&self) -> (r: Vec<String>)
        ensures
            views(r@) == gather_publics(self@.modules),
    {
        let mut out: Vec<String> = Vec::new();
        let mut i: usize = 0;
        assert(views(out@) =~= gather_publics(module_views(self.modules@).take(0)));
        while i < self.modules.len()
            invariant
                i <= self.modules@.len(),
                views(out@) == gather_publics(module_views(self.modules@).take(i as int)),
            decreases self.modules.len() - i,
        {
            let m = &self.modules[i];
            let ghost base = views(out@);
            let mut j: usize = 0;
            assert(views(out@) == add_unique(base, views(m.publics@).take(0)));
            while j < m.publics.len()
                invariant
                    j <= m.publics@.len(),
                    views(out@) == add_unique(base, views(m.publics@).take(j as int)),
                decreases m.publics.len() - j,
            {
                let p = &m.publics[j];
                assert(views(m.publics@).take(j + 1).drop_last() =~= views(m.publics@).take(
                    j as int,
                ));
                if !contains_string(&out, p) {
                    let ghost before = out@;
                    out.push(p.clone());
                    assert(views(out@) =~= views(before).push(p@));
                }
                j += 1;
            }
            assert(views(m.publics@).take(m.publics@.len() as int) =~= views(m.publics@));
            assert(module_views(self.modules@).take(i + 1).drop_last() =~= module_views(
                self.modules@,
            ).take(i as int));
            i += 1;
        }
        assert(module_views(self.modules@).take(i as int) =~= module_views(self.modules@));
        out
    }

    /// Does any module use a 32-bit record variant?
    pub fn any_32_bit(&self) -> (r: bool)
        ensures
            r == exists|i: int| 0 <= i < self@.modules.len() && (#[trigger] self@.modules[i]).bits32,
    {
        let mut i: usize = 0;
        while i < self.modules.len()
            invariant
                i <= self.modules@.len(),
                forall|k: int| 0 <= k < i ==> !self.modules@[k].bits32,
            decreases self.modules.len() - i,
        {
            if self.modules[i].bits32 {
                assert(self@.modules[i as int].bits32);
                return true;
            }
            i += 1;
        }
        assert(forall|k: int| 0 <= k < self@.modules.len() ==> !(#[trigger] self@.modules[k]).bits32);
        false
    }

    /// Does this look like a compiler's own runtime library rather than the user's code?
    ///
    /// The advice is opposite for the two: for their own routines, find the
    /// Fortran source; for the compiler's runtime, the file is not needed at all.
    /// Recognised by C startup modules, and by Microsoft's six-characters-then-`QQ`
    /// runtime naming convention.
    pub fn looks_like_compiler_runtime(&self) -> (r: bool)
        ensures
            r == spec_looks_like_runtime(self@.modules),
    {
        let mut i: usize = 0;
        while i < self.modules.len()
            invariant
                i <= self.modules@.len(),
                forall|k: int|
                    0 <= k < i ==> !is_startup_name(lower_seq(#[trigger] self@.modules[k].name)),
            decreases self.modules.len() - i,
        {
            if is_startup(&self.modules[i].name) {
                assert(is_startup_name(lower_seq(self@.modules[i as int].name)));
                return true;
            }
            i += 1;
        }
        let publics = self.all_publics();
        if publics.len() < 8 {
            return false;
        }
        let mut qq: usize = 0;
        let mut j: usize = 0;
        while j < publics.len()
            invariant
                j <= publics@.len(),
                qq == count_qq(views(publics@).take(j as int)),
                qq <= j,
            decreases publics.len() - j,
        {
            assert(views(publics@).take(j + 1).drop_last() =~= views(publics@).take(j as int));
            if qq_name(&publics[j]) {
                qq += 1;
            }
            j += 1;
        }
        assert(views(publics@).take(j as int) =~= views(publics@));
        qq as u128 * 4 >= publics.len() as u128
    }
}

} // verus!
