//! The `.ico` container the build's icons are shipped in.
//!
//! The format is a header and a directory and nothing else: a six-byte
//! header, one sixteen-byte entry per frame, then the frames themselves, each
//! stored as PNG. Resizing the artwork into frames is the caller's.
use vstd::prelude::*;

verus! {

/// Sizes Windows actually asks for; 256 is the largest an entry can describe.
pub open spec fn ico_size_list() -> Seq<u32> {
    seq![16, 24, 32, 48, 64, 128, 256]
}

pub fn ico_sizes() -> (v: Vec<u32>)
    ensures
        v@ == ico_size_list(),
{
    let mut v: Vec<u32> = Vec::new();
    v.push(16);
    v.push(24);
    v.push(32);
    v.push(48);
    v.push(64);
    v.push(128);
    v.push(256);
    assert(v@ =~= ico_size_list());
    v
}

/// The window icon's size.
pub const WINDOW_ICON: u32 = 128;

pub open spec fn le16(x: u16) -> Seq<u8> {
    seq![(x % 256) as u8, (x / 256) as u8]
}

pub open spec fn le32(x: u32) -> Seq<u8> {
    seq![(x % 256) as u8, ((x / 256) % 256) as u8, ((x / 65536) % 256) as u8, (x / 16777216) as u8]
}

/// The one-byte width or height of a frame: 256 does not fit, and is written 0.
pub open spec fn dim(size: u32) -> u8 {
    if size == 256 {
        0
    } else {
        size as u8
    }
}

/// A frame's directory entry: its size, no palette, one plane of 32 bits,
/// how long its PNG is and where it starts.
pub open spec fn entry(size: u32, len: nat, offset: nat) -> Seq<u8> {
    seq![dim(size), dim(size), 0u8, 0u8] + le16(1) + le16(32) + le32(len as u32) + le32(offset as u32)
}

pub open spec fn frame_views(frames: Seq<(u32, Vec<u8>)>) -> Seq<(u32, Seq<u8>)> {
    frames.map_values(|f: (u32, Vec<u8>)| (f.0, f.1@))
}

/// How many bytes the frames' PNGs take together.
pub open spec fn total_len(frames: Seq<(u32, Seq<u8>)>) -> nat
    decreases frames.len(),
{
    if frames.len() == 0 {
        0
    } else {
        total_len(frames.drop_last()) + frames.last().1.len()
    }
}

/// The directory: each frame's entry, the offsets counting from `base`.
pub open spec fn directory(frames: Seq<(u32, Seq<u8>)>, base: nat) -> Seq<u8>
    decreases frames.len(),
{
    if frames.len() == 0 {
        Seq::empty()
    } else {
        directory(frames.drop_last(), base) + entry(
            frames.last().0,
            frames.last().1.len(),
            base + total_len(frames.drop_last()),
        )
    }
}

/// The PNGs, one after the other.
pub open spec fn payload(frames: Seq<(u32, Seq<u8>)>) -> Seq<u8>
    decreases frames.len(),
{
    if frames.len() == 0 {
        Seq::empty()
    } else {
        payload(frames.drop_last()) + frames.last().1
    }
}

/// The whole file: header (reserved, type icon, frame count), directory, PNGs.
pub open spec fn spec_ico(frames: Seq<(u32, Seq<u8>)>) -> Seq<u8> {
    le16(0) + le16(1) + le16(frames.len() as u16) + directory(frames, 6 + 16 * frames.len())
        + payload(frames)
}

/// The first frame too large for an entry, if any.
pub open spec fn first_too_large(frames: Seq<(u32, Seq<u8>)>, k: int) -> Option<u32>
    decreases frames.len() - k,
{
    if k < 0 || k >= frames.len() {
        None
    } else if frames[k].0 > 256 {
        Some(frames[k].0)
    } else {
        first_too_large(frames, k + 1)
    }
}

proof fn lemma_payload_len(frames: Seq<(u32, Seq<u8>)>)
    ensures
        payload(frames).len() == total_len(frames),
    decreases frames.len(),
{
    if frames.len() > 0 {
        lemma_payload_len(frames.drop_last());
    }
}

fn push16(v: &mut Vec<u8>, x: u16)
    ensures
        final(v)@ == old(v)@ + le16(x),
{
    v.push((x % 256) as u8);
    v.push((x / 256) as u8);
    assert(final(v)@ =~= old(v)@ + le16(x));
}

fn push32(v: &mut Vec<u8>, x: u32)
    ensures
        final(v)@ == old(v)@ + le32(x),
{
    v.push((x % 256) as u8);
    v.push(((x / 256) % 256) as u8);
    v.push(((x / 65536) % 256) as u8);
    v.push((x / 16777216) as u8);
    assert(final(v)@ =~= old(v)@ + le32(x));
}

/// Wrap PNG frames in an `.ico` container. A frame larger than 256 pixels
/// cannot be described and is refused, naming the first such size.
pub fn ico_container(frames: &[(u32, Vec<u8>)]) -> (r: Result<Vec<u8>, String>)
    requires
        6 + 16 * frames@.len() + total_len(frame_views(frames@)) <= usize::MAX,
    ensures
        match first_too_large(frame_views(frames@), 0) {
            Some(size) => r matches Err(m) && m@ == crate::textops::decimal(size as nat)
                + " is larger than an .ico entry can describe"@,
            None => r matches Ok(b) && b@ == spec_ico(frame_views(frames@)),
        },
{
    let ghost fv = frame_views(frames@);
    let n = frames.len();
    let mut out: Vec<u8> = Vec::new();
    push16(&mut out, 0);
    push16(&mut out, 1);
    #[verifier::truncate]
    let count = n as u16;
    push16(&mut out, count);
    let ghost head = out@;
    let base: usize = 6 + 16 * n;
    let mut offset: usize = base;
    assert(fv.take(0) =~= Seq::<(u32, Seq<u8>)>::empty());
    for i in 0..n
        invariant
            n == frames@.len(),
            fv == frame_views(frames@),
            base == 6 + 16 * n,
            offset == base + total_len(fv.take(i as int)),
            6 + 16 * n + total_len(fv) <= usize::MAX,
            total_len(fv.take(i as int)) <= total_len(fv),
            first_too_large(fv, 0) == first_too_large(fv, i as int),
            out@ == head + directory(fv.take(i as int), base as nat),
    {
        assert(fv.take(i + 1).drop_last() =~= fv.take(i as int));
        assert(fv.take(i + 1).last() == (frames@[i as int].0, frames@[i as int].1@));
        let size = frames[i].0;
        let png = &frames[i].1;
        if size > 256 {
            let d = crate::textops::decimal_of(size as u64);
            let mut m: Vec<char> = Vec::new();
            crate::textops::push_chars(&mut m, d.as_slice());
            crate::textops::push_str(&mut m, " is larger than an .ico entry can describe");
            return Err(crate::textops::string_from_chars(m.as_slice()));
        }
        let dim: u8 = if size == 256 {
            0
        } else {
            size as u8
        };
        let ghost before = out@;
        out.push(dim);
        out.push(dim);
        out.push(0);
        out.push(0);
        push16(&mut out, 1);
        push16(&mut out, 32);
        #[verifier::truncate]
        let len32 = png.len() as u32;
        push32(&mut out, len32);
        #[verifier::truncate]
        let off32 = offset as u32;
        push32(&mut out, off32);
        assert(out@ =~= before + entry(size, png@.len(), offset as nat));
        proof {
            lemma_total_len_prefix(fv, i + 1);
        }
        offset = offset + png.len();
    }
    assert(fv.take(n as int) =~= fv);
    let ghost dir = out@;
    assert(fv.take(0) =~= Seq::<(u32, Seq<u8>)>::empty());
    for i in 0..n
        invariant
            n == frames@.len(),
            fv == frame_views(frames@),
            out@ == dir + payload(fv.take(i as int)),
    {
        assert(fv.take(i + 1).drop_last() =~= fv.take(i as int));
        assert(fv.take(i + 1).last() == (frames@[i as int].0, frames@[i as int].1@));
        let png = &frames[i].1;
        let ghost before = out@;
        for j in 0..png.len()
            invariant
                out@ == before + png@.take(j as int),
        {
            out.push(png[j]);
            assert(out@ =~= before + png@.take(j + 1));
        }
        assert(png@.take(png@.len() as int) =~= png@);
    }
    assert(out@ =~= spec_ico(fv));
    Ok(out)
}

proof fn lemma_total_len_prefix(fv: Seq<(u32, Seq<u8>)>, k: int)
    requires
        0 <= k <= fv.len(),
    ensures
        total_len(fv.take(k)) <= total_len(fv),
    decreases fv.len() - k,
{
    if k < fv.len() {
        lemma_total_len_prefix(fv, k + 1);
        assert(fv.take(k + 1).drop_last() =~= fv.take(k));
    } else {
        assert(fv.take(k) =~= fv);
    }
}

} // verus!
