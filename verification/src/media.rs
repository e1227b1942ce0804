//! Which files are stickers, how large they may be, and what their thumbnails are.
use vstd::prelude::*;
use crate::text::{decimal, lower_ascii, lower_ascii_exec, same_text, decimal_string};
use vstd::string::StringExecFns;

verus! {

/// Stickers may not be larger than 25 MiB.
pub const MAX_STICKER_SIZE: u64 = 25 * 1024 * 1024;

/// Whether a file of `len` bytes is over the size limit.
pub fn exceeds_size_limit(len: u64) -> (r: bool)
    ensures
        r == (len > MAX_STICKER_SIZE),
        r == (len > 26214400),
{
    len > MAX_STICKER_SIZE
}

/// The kinds of file the library indexes.
#[derive(PartialEq, Eq, Structural, Clone, Copy, Debug)]
pub enum MediaKind {
    /// `png`, `jpg`, `jpeg`, `heic`, `heif`
    Still,
    /// `gif`
    Gif,
    /// `webp`, animated or not
    Webp,
    /// `mp4`, `webm`, `mov`
    Video,
}

/// The kind of a file by its extension, compared without regard to ASCII case;
/// `None` for every extension that is not a sticker.
pub open spec fn media_kind(ext: Seq<char>) -> Option<MediaKind> {
    let e = lower_ascii(ext);
    if e == "png"@ || e == "jpg"@ || e == "jpeg"@ || e == "heic"@ || e == "heif"@ {
        Some(MediaKind::Still)
    } else if e == "gif"@ {
        Some(MediaKind::Gif)
    } else if e == "webp"@ {
        Some(MediaKind::Webp)
    } else if e == "mp4"@ || e == "webm"@ || e == "mov"@ {
        Some(MediaKind::Video)
    } else {
        None
    }
}

/// The ten sticker extensions and their kinds, in any ASCII case: `png`, `jpg`,
/// `jpeg`, `heic` and `heif` are still images, `gif` is a GIF, `webp` a WebP,
/// `mp4`, `webm` and `mov` are videos; every other extension is not a sticker.
pub proof fn law_sticker_extensions(ext: Seq<char>)
    ensures
        ({
            let e = lower_ascii(ext);
            &&& (e == seq!['p', 'n', 'g'] || e == seq!['j', 'p', 'g'] || e == seq!['j', 'p', 'e', 'g']
                || e == seq!['h', 'e', 'i', 'c'] || e == seq!['h', 'e', 'i', 'f']) ==> media_kind(ext)
                == Some(MediaKind::Still)
            &&& e == seq!['g', 'i', 'f'] ==> media_kind(ext) == Some(MediaKind::Gif)
            &&& e == seq!['w', 'e', 'b', 'p'] ==> media_kind(ext) == Some(MediaKind::Webp)
            &&& (e == seq!['m', 'p', '4'] || e == seq!['w', 'e', 'b', 'm'] || e == seq!['m', 'o', 'v'])
                ==> media_kind(ext) == Some(MediaKind::Video)
            &&& media_kind(ext) is Some ==> (e == seq!['p', 'n', 'g'] || e == seq!['j', 'p', 'g'] || e
                == seq!['j', 'p', 'e', 'g'] || e == seq!['h', 'e', 'i', 'c'] || e == seq![
                'h',
                'e',
                'i',
                'f',
            ] || e == seq!['g', 'i', 'f'] || e == seq!['w', 'e', 'b', 'p'] || e == seq!['m', 'p', '4']
                || e == seq!['w', 'e', 'b', 'm'] || e == seq!['m', 'o', 'v'])
        }),
{
    reveal_strlit("png");
    reveal_strlit("jpg");
    reveal_strlit("jpeg");
    reveal_strlit("heic");
    reveal_strlit("heif");
    reveal_strlit("gif");
    reveal_strlit("webp");
    reveal_strlit("mp4");
    reveal_strlit("webm");
    reveal_strlit("mov");
    assert("png"@ =~= seq!['p', 'n', 'g']);
    assert("jpg"@ =~= seq!['j', 'p', 'g']);
    assert("jpeg"@ =~= seq!['j', 'p', 'e', 'g']);
    assert("heic"@ =~= seq!['h', 'e', 'i', 'c']);
    assert("heif"@ =~= seq!['h', 'e', 'i', 'f']);
    assert("gif"@ =~= seq!['g', 'i', 'f']);
    assert("webp"@ =~= seq!['w', 'e', 'b', 'p']);
    assert("mp4"@ =~= seq!['m', 'p', '4']);
    assert("webm"@ =~= seq!['w', 'e', 'b', 'm']);
    assert("mov"@ =~= seq!['m', 'o', 'v']);
}

/// Classifies a file extension (given without its dot).
pub fn classify_extension(ext: &str) -> (r: Option<MediaKind>)
    ensures
        r == media_kind(ext@),
{
    let e = lower_ascii_exec(ext);
    let e = e.as_str();
    if same_text(e, "png") || same_text(e, "jpg") || same_text(e, "jpeg") || same_text(e, "heic")
        || same_text(e, "heif") {
        Some(MediaKind::Still)
    } else if same_text(e, "gif") {
        Some(MediaKind::Gif)
    } else if same_text(e, "webp") {
        Some(MediaKind::Webp)
    } else if same_text(e, "mp4") || same_text(e, "webm") || same_text(e, "mov") {
        Some(MediaKind::Video)
    } else {
        None
    }
}

/// Whether an extension names a video container (`mp4`, `webm`, `mov`).
pub fn is_video_extension(ext: &str) -> (r: bool)
    ensures
        r == (media_kind(ext@) == Some(MediaKind::Video)),
{
    match classify_extension(ext) {
        Some(MediaKind::Video) => true,
        _ => false,
    }
}

/// Whether a sticker of extension `ext` is animated: GIFs and videos always are,
/// a WebP is when its bytes say so (`webp_animated`), anything else never is.
pub open spec fn is_animated(ext: Seq<char>, webp_animated: bool) -> bool {
    match media_kind(ext) {
        Some(MediaKind::Gif) | Some(MediaKind::Video) => true,
        Some(MediaKind::Webp) => webp_animated,
        _ => false,
    }
}

/// Decides whether a sticker is animated, as `is_animated` says.
pub fn animated(ext: &str, webp_animated: bool) -> (r: bool)
    ensures
        r == is_animated(ext@, webp_animated),
{
    match classify_extension(ext) {
        Some(MediaKind::Gif) | Some(MediaKind::Video) => true,
        Some(MediaKind::Webp) => webp_animated,
        _ => false,
    }
}

/// Which stickers are animated: GIFs and videos always, WebPs exactly when their
/// bytes say so, still images (`png`, `jpg`, `jpeg`, `heic`, `heif`) never.
pub proof fn law_animated_kinds(ext: Seq<char>, webp_animated: bool)
    ensures
        media_kind(ext) == Some(MediaKind::Gif) || media_kind(ext) == Some(MediaKind::Video)
            ==> is_animated(ext, webp_animated),
        media_kind(ext) == Some(MediaKind::Webp) ==> is_animated(ext, webp_animated) == webp_animated,
        media_kind(ext) == Some(MediaKind::Still) || media_kind(ext) is None ==> !is_animated(
            ext,
            webp_animated,
        ),
        lower_ascii(ext) == seq!['g', 'i', 'f'] ==> is_animated(ext, webp_animated),
        (lower_ascii(ext) == seq!['p', 'n', 'g'] || lower_ascii(ext) == seq!['j', 'p', 'g']) ==> !is_animated(
            ext,
            webp_animated,
        ),
{
    law_sticker_extensions(ext);
}

/// The thumbnail format: animated stickers get a GIF, still ones a WebP.
pub open spec fn thumb_ext(animated: bool) -> Seq<char> {
    if animated {
        "gif"@
    } else {
        "webp"@
    }
}

/// The extension of the thumbnail format for an (un)animated sticker.
pub fn thumbnail_extension(animated: bool) -> (r: &'static str)
    ensures
        r@ == thumb_ext(animated),
{
    if animated {
        "gif"
    } else {
        "webp"
    }
}

/// `hash.gif` for animated stickers and `hash.webp` for still ones.
pub fn thumbnail_file_name(hash: &str, animated: bool) -> (r: String)
    ensures
        r@ == hash@ + "."@ + thumb_ext(animated),
{
    crate::text::join3(hash, ".", thumbnail_extension(animated))
}

/// The name under which a thumbnail of the other format would stand; the index
/// removes such a leftover when the sticker's format changed.
pub fn stale_thumbnail_file_name(hash: &str, animated: bool) -> (r: String)
    ensures
        r@ == hash@ + "."@ + thumb_ext(!animated),
{
    thumbnail_file_name(hash, !animated)
}

/// Animated stickers get a `.gif` thumbnail and still ones a `.webp` one, and
/// the leftover of a format change is the name with the other extension.
pub proof fn law_thumbnail_formats(hash: Seq<char>)
    ensures
        hash + "."@ + thumb_ext(true) == hash + seq!['.', 'g', 'i', 'f'],
        hash + "."@ + thumb_ext(false) == hash + seq!['.', 'w', 'e', 'b', 'p'],
{
    reveal_strlit(".");
    reveal_strlit("gif");
    reveal_strlit("webp");
    assert(hash + "."@ + "gif"@ =~= hash + seq!['.', 'g', 'i', 'f']);
    assert(hash + "."@ + "webp"@ =~= hash + seq!['.', 'w', 'e', 'b', 'p']);
}

/// Whether the thumbnail size of a `w` by `h` image can be computed: the image
/// fits in 160 by 160, or is square, or its long side times 160 fits in 32 bits
/// and its short side is not zero.
pub open spec fn thumb_size_defined(w: u32, h: u32) -> bool {
    ||| w <= 160 && h <= 160
    ||| w == h
    ||| w > h && h > 0 && w * 160 <= u32::MAX
    ||| w < h && w > 0 && h * 160 <= u32::MAX
}

/// The thumbnail size of a `w` by `h` image: images that fit in 160 by 160 keep
/// their size, square ones become 160 by 160, and otherwise the short side
/// becomes 160 and the long side keeps the aspect ratio, rounded down.
pub open spec fn thumb_size(w: u32, h: u32) -> (u32, u32) {
    if w <= 160 && h <= 160 {
        (w, h)
    } else if w == h {
        (160, 160)
    } else if w > h {
        ((w * 160 / (h as int)) as u32, 160)
    } else {
        (160, (h * 160 / (w as int)) as u32)
    }
}

/// Decides whether `thumbnail_dimensions` may be called.
pub fn thumbnail_size_defined(w: u32, h: u32) -> (r: bool)
    ensures
        r == thumb_size_defined(w, h),
{
    (w <= 160 && h <= 160) || w == h || (w > h && h > 0 && w <= u32::MAX / 160) || (w < h && w
        > 0 && h <= u32::MAX / 160)
}

/// The size of a sticker's thumbnail, as `thumb_size` says.
pub fn thumbnail_dimensions(w: u32, h: u32) -> (r: (u32, u32))
    requires
        thumb_size_defined(w, h),
    ensures
        r == thumb_size(w, h),
        w <= 160 && h <= 160 ==> r == (w, h),
        w == h && w > 160 ==> r == (160u32, 160u32),
        w > h && w > 160 ==> r.1 == 160 && r.0 >= 160 && r.0 * h <= w * 160 && w * 160 < (r.0 + 1)
            * h,
        w < h && h > 160 ==> r.0 == 160 && r.1 >= 160 && r.1 * w <= h * 160 && h * 160 < (r.1 + 1)
            * w,
{
    if w <= 160 && h <= 160 {
        (w, h)
    } else if w == h {
        (160, 160)
    } else if w > h {
        proof {
            lemma_scaled_side(w as int, h as int);
        }
        (w * 160 / h, 160)
    } else {
        proof {
            lemma_scaled_side(h as int, w as int);
        }
        (160, h * 160 / w)
    }
}

/// For a long side `a` and a short side `b`, `a * 160 / b` is at least 160 and is
/// the largest value whose product with `b` stays within `a * 160`.
pub proof fn lemma_scaled_side(a: int, b: int)
    requires
        0 < b < a,
    ensures
        a * 160 / b >= 160,
        (a * 160 / b) * b <= a * 160,
        a * 160 < (a * 160 / b + 1) * b,
{
    let q = a * 160 / b;
    let r = a * 160 % b;
    vstd::arithmetic::div_mod::lemma_fundamental_div_mod(a * 160, b);
    assert(a * 160 == b * q + r);
    assert(0 <= r < b);
    assert(q * b == b * q) by (nonlinear_arith);
    assert(b * 160 < a * 160) by (nonlinear_arith)
        requires
            0 < b < a,
    ;
    assert(q >= 160) by (nonlinear_arith)
        requires
            a * 160 == b * q + r,
            0 <= r < b,
            b * 160 < a * 160,
            b > 0,
    ;
    assert((q + 1) * b == q * b + b) by (nonlinear_arith);
}

/// Small stickers are never scaled up: a sticker that fits in 160 by 160 keeps
/// its size, and every other thumbnail has 160 as its short side.
pub proof fn law_thumbnail_never_upscales(w: u32, h: u32)
    requires
        thumb_size_defined(w, h),
    ensures
        w <= 160 && h <= 160 ==> thumb_size(w, h) == (w, h),
        !(w <= 160 && h <= 160) ==> (thumb_size(w, h).0 == 160 || thumb_size(w, h).1 == 160),
        !(w <= 160 && h <= 160) ==> thumb_size(w, h).0 >= 160 && thumb_size(w, h).1 >= 160,
{
    if w > h && w > 160 {
        lemma_scaled_side(w as int, h as int);
    } else if w < h && h > 160 {
        lemma_scaled_side(h as int, w as int);
    }
}

/// The ffmpeg filter that turns a sticker into a GIF thumbnail: videos are cut to
/// 15 frames a second and scaled to cover 160 by 160; animated images are scaled
/// to `tw` by `th`. Both build a palette.
pub open spec fn gif_filter(is_video: bool, tw: u32, th: u32) -> Seq<char> {
    if is_video {
        "fps=15,scale=160:160:force_original_aspect_ratio=increase,split[s0][s1];[s0]palettegen[p];[s1][p]paletteuse"@
    } else {
        "scale="@ + decimal(tw as nat) + ":"@ + decimal(th as nat)
            + ",split[s0][s1];[s0]palettegen[p];[s1][p]paletteuse"@
    }
}

/// What becomes of an animated sticker's thumbnail.
pub enum AnimatedThumb {
    /// The source is already a GIF of thumbnail size: copy it.
    Copy,
    /// Transcode with ffmpeg, using this filter.
    Transcode(String),
}

/// How an animated sticker of extension `ext` gets its thumbnail, given its size
/// when that could be read (`dims`).
pub open spec fn animated_thumb_is_copy(ext: Seq<char>, dims: Option<(u32, u32)>) -> bool {
    match dims {
        Some((w, h)) => thumb_size(w, h) == (w, h) && lower_ascii(ext) == "gif"@,
        None => false,
    }
}

/// The size a transcoded animated thumbnail is scaled to: the thumbnail size when
/// the sticker's size is known, else 160 by 160.
pub open spec fn animated_target(dims: Option<(u32, u32)>) -> (u32, u32) {
    match dims {
        Some((w, h)) => thumb_size(w, h),
        None => (160, 160),
    }
}

/// Plans the thumbnail of an animated sticker: a copy when the sticker is a GIF
/// that already has its thumbnail size, else an ffmpeg transcode.
pub fn plan_animated_thumbnail(ext: &str, is_video: bool, dims: Option<(u32, u32)>) -> (r:
    AnimatedThumb)
    requires
        dims matches Some((w, h)) ==> thumb_size_defined(w, h),
    ensures
        animated_thumb_is_copy(ext@, dims) ==> r is Copy,
        !animated_thumb_is_copy(ext@, dims) ==> (r matches AnimatedThumb::Transcode(f) && f@
            == gif_filter(is_video, animated_target(dims).0, animated_target(dims).1)),
{
    let (tw, th) = match dims {
        Some((w, h)) => {
            let t = thumbnail_dimensions(w, h);
            let lower = lower_ascii_exec(ext);
            if t.0 == w && t.1 == h && same_text(lower.as_str(), "gif") {
                return AnimatedThumb::Copy;
            }
            t
        },
        None => (160u32, 160u32),
    };
    if is_video {
        AnimatedThumb::Transcode(
            String::from_str(
                "fps=15,scale=160:160:force_original_aspect_ratio=increase,split[s0][s1];[s0]palettegen[p];[s1][p]paletteuse",
            ),
        )
    } else {
        let mut f = String::from_str("scale=");
        f.append(decimal_string(tw as u64).as_str());
        f.append(":");
        f.append(decimal_string(th as u64).as_str());
        f.append(",split[s0][s1];[s0]palettegen[p];[s1][p]paletteuse");
        AnimatedThumb::Transcode(f)
    }
}

} // verus!
