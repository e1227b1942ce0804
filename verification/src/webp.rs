//! Telling animated WebP (and APNG) files from still ones by their bytes.
use vstd::prelude::*;

verus! {

/// `RIFF`
pub open spec fn riff_tag() -> Seq<u8> {
    seq![0x52u8, 0x49u8, 0x46u8, 0x46u8]
}

/// `WEBP`
pub open spec fn webp_tag() -> Seq<u8> {
    seq![0x57u8, 0x45u8, 0x42u8, 0x50u8]
}

/// `VP8X`, the extended-format chunk.
pub open spec fn vp8x_tag() -> Seq<u8> {
    seq![0x56u8, 0x50u8, 0x38u8, 0x58u8]
}

/// `ANIM`, the animation chunk.
pub open spec fn anim_tag() -> Seq<u8> {
    seq![0x41u8, 0x4Eu8, 0x49u8, 0x4Du8]
}

/// `acTL`, the APNG animation-control chunk.
pub open spec fn actl_tag() -> Seq<u8> {
    seq![0x61u8, 0x63u8, 0x54u8, 0x4Cu8]
}

/// The eight-byte PNG signature.
pub open spec fn png_signature() -> Seq<u8> {
    seq![0x89u8, 0x50u8, 0x4Eu8, 0x47u8, 0x0Du8, 0x0Au8, 0x1Au8, 0x0Au8]
}

/// Whether `t` stands in `b` at offset `at`.
pub open spec fn tag_at(b: Seq<u8>, at: int, t: Seq<u8>) -> bool {
    0 <= at && at + t.len() <= b.len() && b.subrange(at, at + t.len()) == t
}

/// Whether `t` occurs anywhere in `b`.
pub open spec fn bytes_contain(b: Seq<u8>, t: Seq<u8>) -> bool {
    exists|k: int| #[trigger] tag_at(b, k, t)
}

/// A little-endian 32-bit value stored at `at`.
pub open spec fn le32(b: Seq<u8>, at: int) -> nat {
    (b[at] as nat) + 256 * (b[at + 1] as nat) + 65536 * (b[at + 2] as nat) + 16777216 * (b[
        at + 3
    ] as nat)
}

/// A chunk's payload size rounded up to an even number, as RIFF pads chunks.
pub open spec fn padded_size(b: Seq<u8>, at: int) -> nat {
    le32(b, at + 4) + le32(b, at + 4) % 2
}

/// The file position after seeking ten bytes back from the end of a file of
/// `len` bytes; a seek before the start fails and leaves the position at the end.
pub open spec fn back_ten(len: int) -> int {
    if len >= 10 {
        len - 10
    } else {
        len
    }
}

/// The RIFF chunk walk that starts at offset `pos`, reading chunk headers in turn.
///
/// A chunk header is eight bytes: a tag and a little-endian size. The walk answers
/// `true` at a `VP8X` chunk whose flags byte has the animation bit (`0x02`) set,
/// or at an `ANIM` chunk, and `false` when no further header can be read. After a
/// `VP8X` header whose ten-byte payload is cut short by the end of the file, the
/// file position has run to the end; the walk steps back ten bytes from there and
/// skips the declared size. Such backward steps can only revisit two positions
/// near the end, so when `jumps` of them have been spent without an answer the
/// walk repeats itself for ever: that outcome is `None`.
pub open spec fn chunk_walk(b: Seq<u8>, pos: int, jumps: nat) -> Option<bool>
    decreases jumps, if pos <= b.len() { b.len() - pos } else { 0 },
{
    if pos < 0 || pos + 8 > b.len() {
        Some(false)
    } else if tag_at(b, pos, vp8x_tag()) && pos + 18 <= b.len() && b[pos + 8] & 2u8 != 0 {
        Some(true)
    } else if tag_at(b, pos, vp8x_tag()) && pos + 18 > b.len() {
        if jumps == 0 {
            None
        } else {
            chunk_walk(b, back_ten(b.len() as int) + padded_size(b, pos), (jumps - 1) as nat)
        }
    } else if tag_at(b, pos, anim_tag()) {
        Some(true)
    } else {
        chunk_walk(b, pos + 8 + padded_size(b, pos), jumps)
    }
}

/// Whether a file whose contents are `b` holds an animation, read as a WebP
/// container, or as a PNG that carries a WebP name.
///
/// A PNG counts as animated when `acTL` occurs in the (at most 256) bytes that
/// follow its first twelve bytes. A file that is neither PNG nor `RIFF....WEBP`
/// is still. `None` stands for the inputs on which the chunk walk never ends.
pub open spec fn webp_animation(b: Seq<u8>) -> Option<bool> {
    if b.len() < 12 {
        Some(false)
    } else if b.subrange(0, 8) == png_signature() {
        let end = if b.len() < 268 { b.len() as int } else { 268 };
        Some(bytes_contain(b.subrange(12, end), actl_tag()))
    } else if !tag_at(b, 0, riff_tag()) || !tag_at(b, 8, webp_tag()) {
        Some(false)
    } else {
        chunk_walk(b, 12, 2)
    }
}

/// Whether the head of a file (the bytes that one read of at most 256 bytes gave)
/// announces an animated WebP: at least 21 bytes, `RIFF....WEBP` followed directly
/// by a `VP8X` chunk whose flags byte (offset 20) has the animation bit, and an
/// `ANIM` tag somewhere in those bytes.
pub open spec fn webp_head_animated(b: Seq<u8>) -> bool {
    &&& b.len() >= 21
    &&& tag_at(b, 0, riff_tag())
    &&& tag_at(b, 8, webp_tag())
    &&& tag_at(b, 12, vp8x_tag())
    &&& b[20] & 2u8 != 0
    &&& bytes_contain(b, anim_tag())
}

/// Whether `t` stands in `b` at offset `at`.
pub fn tag_at_exec(b: &[u8], at: usize, t: &[u8]) -> (r: bool)
    ensures
        r == tag_at(b@, at as int, t@),
{
    if at > b.len() || t.len() > b.len() - at {
        return false;
    }
    let n = b.len();
    let mut i: usize = 0;
    while i < t.len()
        invariant
            n == b@.len(),
            at + t@.len() <= b@.len(),
            i <= t@.len(),
            forall|j: int| 0 <= j < i ==> b@[at + j] == t@[j],
        decreases t.len() - i,
    {
        if b[at + i] != t[i] {
            assert(b@.subrange(at as int, at + t@.len())[i as int] != t@[i as int]);
            return false;
        }
        i = i + 1;
    }
    assert(b@.subrange(at as int, at + t@.len()) =~= t@);
    true
}

/// Whether `t` occurs anywhere in `b`.
pub fn bytes_contain_exec(b: &[u8], t: &[u8]) -> (r: bool)
    ensures
        r == bytes_contain(b@, t@),
{
    if t.len() > b.len() {
        assert forall|k: int| !tag_at(b@, k, t@) by {}
        return false;
    }
    let last = b.len() - t.len();
    let mut k: usize = 0;
    while k < last
        invariant
            last == b@.len() - t@.len(),
            k <= last,
            forall|j: int| 0 <= j < k ==> !#[trigger] tag_at(b@, j, t@),
        decreases last - k,
    {
        if tag_at_exec(b, k, t) {
            return true;
        }
        k = k + 1;
    }
    let r = tag_at_exec(b, last, t);
    assert forall|j: int| j > last implies !#[trigger] tag_at(b@, j, t@) by {}
    r
}

/// Reads the little-endian 32-bit value at `at`.
fn le32_exec(b: &[u8], at: usize) -> (r: u64)
    requires
        at + 4 <= b@.len(),
    ensures
        r == le32(b@, at as int),
{
    (b[at] as u64) + 256 * (b[at + 1] as u64) + 65536 * (b[at + 2] as u64) + 16777216 * (
    b[at + 3] as u64)
}

/// The chunk walk of `chunk_walk` over the bytes of a whole file, started at `start`.
/// Where that walk never ends, the answer here is `false`.
pub fn chunk_walk_exec(b: &[u8], start: usize) -> (r: bool)
    ensures
        chunk_walk(b@, start as int, 2) is Some ==> r == chunk_walk(b@, start as int, 2)->0,
        chunk_walk(b@, start as int, 2) is None ==> !r,
{
    let vp8x: [u8; 4] = [0x56, 0x50, 0x38, 0x58];
    let anim: [u8; 4] = [0x41, 0x4E, 0x49, 0x4D];
    assert(vp8x@ =~= vp8x_tag());
    assert(anim@ =~= anim_tag());
    let len = b.len();
    if start > len {
        return false;
    }
    let mut pos: usize = start;
    let mut jumps: u64 = 2;
    loop
        invariant
            vp8x@ == vp8x_tag(),
            anim@ == anim_tag(),
            len == b@.len(),
            pos <= len,
            jumps <= 2,
            chunk_walk(b@, pos as int, jumps as nat) == chunk_walk(b@, start as int, 2),
        decreases jumps, len - pos,
    {
        if pos > len || 8 > len - pos {
            return false;
        }
        let padded = le32_exec(b, pos + 4);
        let padded = padded + padded % 2;
        proof {
            assert(padded == padded_size(b@, pos as int));
        }
        let is_vp8x = tag_at_exec(b, pos, vp8x.as_slice());
        if is_vp8x && 18 <= len - pos && b[pos + 8] & 2u8 != 0 {
            return true;
        }
        if is_vp8x && 18 > len - pos {
            if jumps == 0 {
                return false;
            }
            if len < 10 || padded > 10 {
                proof {
                    assert(chunk_walk(b@, back_ten(len as int) + padded, (jumps - 1) as nat) == Some(
                        false,
                    ));
                }
                return false;
            }
            pos = len - 10 + padded as usize;
            jumps = jumps - 1;
        } else {
            if tag_at_exec(b, pos, anim.as_slice()) {
                return true;
            }
            if padded > (len - pos - 8) as u64 {
                proof {
                    assert(chunk_walk(b@, pos + 8 + padded, jumps as nat) == Some(false));
                }
                return false;
            }
            pos = pos + 8 + padded as usize;
        }
    }
}

/// Whether a file whose whole contents are `b` is animated, as `webp_animation`
/// describes; `false` where that description gives no answer.
pub fn is_animated_webp_bytes(b: &[u8]) -> (r: bool)
    ensures
        webp_animation(b@) is Some ==> r == webp_animation(b@)->0,
        webp_animation(b@) is None ==> !r,
{
    if b.len() < 12 {
        return false;
    }
    let png: [u8; 8] = [0x89, 0x50, 0x4E, 0x47, 0x0D, 0x0A, 0x1A, 0x0A];
    let riff: [u8; 4] = [0x52, 0x49, 0x46, 0x46];
    let webp: [u8; 4] = [0x57, 0x45, 0x42, 0x50];
    let actl: [u8; 4] = [0x61, 0x63, 0x54, 0x4C];
    assert(png@ =~= png_signature());
    assert(riff@ =~= riff_tag());
    assert(webp@ =~= webp_tag());
    assert(actl@ =~= actl_tag());
    if tag_at_exec(b, 0, png.as_slice()) {
        let end: usize = if b.len() < 268 { b.len() } else { 268 };
        let window = slice_range(b, 12, end);
        return bytes_contain_exec(window.as_slice(), actl.as_slice());
    }
    if !tag_at_exec(b, 0, riff.as_slice()) || !tag_at_exec(b, 8, webp.as_slice()) {
        return false;
    }
    chunk_walk_exec(b, 12)
}

/// Whether the head of a file announces an animated WebP, as `webp_head_animated` says.
pub fn is_animated_webp_head(b: &[u8]) -> (r: bool)
    ensures
        r == webp_head_animated(b@),
{
    let riff: [u8; 4] = [0x52, 0x49, 0x46, 0x46];
    let webp: [u8; 4] = [0x57, 0x45, 0x42, 0x50];
    let vp8x: [u8; 4] = [0x56, 0x50, 0x38, 0x58];
    let anim: [u8; 4] = [0x41, 0x4E, 0x49, 0x4D];
    assert(riff@ =~= riff_tag());
    assert(webp@ =~= webp_tag());
    assert(vp8x@ =~= vp8x_tag());
    assert(anim@ =~= anim_tag());
    if b.len() < 21 {
        return false;
    }
    if !tag_at_exec(b, 0, riff.as_slice()) || !tag_at_exec(b, 8, webp.as_slice()) {
        return false;
    }
    if !tag_at_exec(b, 12, vp8x.as_slice()) {
        return false;
    }
    if b[20] & 2u8 == 0 {
        return false;
    }
    bytes_contain_exec(b, anim.as_slice())
}

/// The bytes of `b` from `from` up to `to`.
pub fn slice_range(b: &[u8], from: usize, to: usize) -> (r: Vec<u8>)
    requires
        from <= to <= b@.len(),
    ensures
        r@ == b@.subrange(from as int, to as int),
{
    let mut out: Vec<u8> = Vec::new();
    let mut i: usize = from;
    while i < to
        invariant
            from <= i <= to <= b@.len(),
            out@ == b@.subrange(from as int, i as int),
        decreases to - i,
    {
        out.push(b[i]);
        i = i + 1;
    }
    out
}

/// The chunk walk only ever answers "animated" on evidence: a file with no `ANIM`
/// tag anywhere, and whose every `VP8X` tag is followed (eight bytes on) by a
/// flags byte with the animation bit `0x02` clear, is never found animated,
/// whatever its other flag bits (alpha `0x10`, ICC, EXIF, XMP).
pub proof fn law_walk_needs_animation_evidence(b: Seq<u8>, pos: int, jumps: nat)
    requires
        forall|p: int| !(#[trigger] tag_at(b, p, anim_tag())),
        forall|p: int| #[trigger] tag_at(b, p, vp8x_tag()) && p + 8 < b.len() ==> b[p + 8] & 2u8 == 0u8,
    ensures
        chunk_walk(b, pos, jumps) != Some(true),
    decreases jumps, if pos <= b.len() { b.len() - pos } else { 0 },
{
    if pos < 0 || pos + 8 > b.len() {
    } else if tag_at(b, pos, vp8x_tag()) && pos + 18 <= b.len() && b[pos + 8] & 2u8 != 0 {
        assert(tag_at(b, pos, vp8x_tag()) && pos + 8 < b.len());
    } else if tag_at(b, pos, vp8x_tag()) && pos + 18 > b.len() {
        if jumps > 0 {
            law_walk_needs_animation_evidence(
                b,
                back_ten(b.len() as int) + padded_size(b, pos),
                (jumps - 1) as nat,
            );
        }
    } else if tag_at(b, pos, anim_tag()) {
    } else {
        law_walk_needs_animation_evidence(b, pos + 8 + padded_size(b, pos), jumps);
    }
}

/// The first byte of a `RIFF` file is not that of a PNG signature.
proof fn lemma_riff_is_not_png(b: Seq<u8>)
    requires
        b.len() >= 12,
        tag_at(b, 0, riff_tag()),
    ensures
        b.subrange(0, 8) != png_signature(),
{
    assert(b.subrange(0, 4)[0] == b[0]);
    assert(b[0] == 0x52u8);
    assert(b.subrange(0, 8)[0] == b[0]);
    assert(png_signature()[0] == 0x89u8);
}

/// A `RIFF....WEBP` file without animation evidence (no `ANIM` tag, and the
/// animation bit `0x02` clear in the flags byte after every `VP8X` tag) is not
/// animated, so `is_animated_webp_bytes` answers `false` for it; a still WebP
/// with an alpha channel (flags `0x10`) is one such file.
pub proof fn law_still_webp_is_not_animated(b: Seq<u8>)
    requires
        b.len() >= 12,
        tag_at(b, 0, riff_tag()),
        tag_at(b, 8, webp_tag()),
        forall|p: int| !(#[trigger] tag_at(b, p, anim_tag())),
        forall|p: int| #[trigger] tag_at(b, p, vp8x_tag()) && p + 8 < b.len() ==> b[p + 8] & 2u8 == 0u8,
    ensures
        webp_animation(b) != Some(true),
{
    lemma_riff_is_not_png(b);
    law_walk_needs_animation_evidence(b, 12, 2);
}

/// A `RIFF....WEBP` file that starts with a complete `VP8X` chunk whose flags
/// byte has the animation bit `0x02` set is animated.
pub proof fn law_animation_bit_means_animated(b: Seq<u8>)
    requires
        b.len() >= 30,
        tag_at(b, 0, riff_tag()),
        tag_at(b, 8, webp_tag()),
        tag_at(b, 12, vp8x_tag()),
        b[20] & 2u8 != 0u8,
    ensures
        webp_animation(b) == Some(true),
{
    lemma_riff_is_not_png(b);
}

/// A head is only taken as animated when its flags byte (offset 20) has the
/// animation bit `0x02` set and an `ANIM` tag occurs in it.
pub proof fn law_animated_head_has_bit_and_anim(b: Seq<u8>)
    ensures
        webp_head_animated(b) ==> b.len() >= 21 && b[20] & 2u8 != 0u8 && exists|p: int|
            #[trigger] tag_at(b, p, anim_tag()),
{
}

} // verus!
