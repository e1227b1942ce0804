//! Pasting a sticker: what goes on the clipboard, and which of the user's own
//! clipboard contents are saved beforehand and put back afterwards.
use vstd::prelude::*;
use crate::render::{decode_rgba, decoded_rgba};
use crate::text::{lower_ascii, lower_ascii_exec, same_text};

verus! {

/// Clipboard formats that hold GDI handles rather than bytes (bitmap, metafile
/// picture, enhanced metafile, palette and DIB v5); they cannot be saved raw.
pub open spec fn is_gdi_format(id: u32) -> bool {
    id == 2 || id == 3 || id == 9 || id == 14 || id == 17
}

/// Whether a clipboard format is saved in a backup (it is not a GDI format).
pub fn is_raw_format(id: u32) -> (r: bool)
    ensures
        r == !is_gdi_format(id),
        r == !(id == 2 || id == 3 || id == 9 || id == 14 || id == 17),
{
    !(id == 2 || id == 3 || id == 9 || id == 14 || id == 17)
}

/// The formats kept from the reads of a backup, in order: raw formats whose read
/// succeeded with at least one byte.
pub open spec fn kept_formats(reads: Seq<(u32, Option<Vec<u8>>)>) -> Seq<(u32, Vec<u8>)>
    decreases reads.len(),
{
    if reads.len() == 0 {
        Seq::empty()
    } else {
        let rest = kept_formats(reads.drop_last());
        let (id, data) = reads.last();
        match data {
            Some(v) => if !is_gdi_format(id) && v@.len() > 0 {
                rest.push((id, v))
            } else {
                rest
            },
            None => rest,
        }
    }
}

/// The user's clipboard contents, saved format by format.
pub struct ClipboardBackup {
    data: Vec<(u32, Vec<u8>)>,
}

impl View for ClipboardBackup {
    type V = Seq<(u32, Vec<u8>)>;

    closed spec fn view(&self) -> Seq<(u32, Vec<u8>)> {
        self.data@
    }
}

impl ClipboardBackup {
    /// Builds a backup from one read per available format (`None` where the read
    /// failed or was not attempted). There is no backup when nothing was kept.
    pub fn from_reads(reads: Vec<(u32, Option<Vec<u8>>)>) -> (r: Option<ClipboardBackup>)
        ensures
            kept_formats(reads@).len() == 0 <==> r is None,
            r matches Some(b) ==> b@ == kept_formats(reads@),
    {
        let ghost all = reads@;
        let n = reads.len();
        let mut remaining = reads;
        let mut data: Vec<(u32, Vec<u8>)> = Vec::new();
        let mut i: usize = 0;
        while remaining.len() > 0
            invariant
                n == all.len(),
                remaining@.len() + i == n,
                remaining@ == all.subrange(i as int, n as int),
                data@ == kept_formats(all.subrange(0, i as int)),
            decreases remaining.len(),
        {
            let item = remaining.remove(0);
            proof {
                assert(item == all[i as int]);
                assert(all.subrange(0, i + 1).drop_last() =~= all.subrange(0, i as int));
                assert(remaining@ =~= all.subrange(i + 1, n as int));
            }
            let (id, read) = item;
            match read {
                Some(v) => {
                    if is_raw_format(id) && v.len() > 0 {
                        data.push((id, v));
                    }
                },
                None => {},
            }
            i = i + 1;
        }
        proof {
            assert(all.subrange(0, n as int) =~= all);
        }
        if data.len() == 0 {
            None
        } else {
            Some(ClipboardBackup { data })
        }
    }

    /// The saved formats and their bytes, in the order they were read.
    pub fn into_entries(self) -> (r: Vec<(u32, Vec<u8>)>)
        ensures
            r@ == self@,
    {
        self.data
    }

    /// A backup holds exactly the successful, non-empty reads of the formats other
    /// than the GDI ones (2, 3, 9, 14, 17), in the order they were read: each
    /// kept entry is one of the reads, and each such read is kept.
    pub proof fn law_backup_keeps_raw_reads(reads: Seq<(u32, Option<Vec<u8>>)>)
        ensures
            forall|k: int|
                0 <= k < kept_formats(reads).len() ==> {
                    let (id, v) = #[trigger] kept_formats(reads)[k];
                    &&& !(id == 2 || id == 3 || id == 9 || id == 14 || id == 17)
                    &&& v@.len() > 0
                    &&& exists|i: int| 0 <= i < reads.len() && #[trigger] reads[i] == (id, Some(v))
                },
            forall|i: int|
                0 <= i < reads.len() && (#[trigger] reads[i]).1 is Some && !(reads[i].0 == 2
                    || reads[i].0 == 3 || reads[i].0 == 9 || reads[i].0 == 14 || reads[i].0 == 17)
                    && reads[i].1->0@.len() > 0 ==> kept_formats(reads).contains(
                    (reads[i].0, reads[i].1->0),
                ),
        decreases reads.len(),
    {
        if reads.len() > 0 {
            let d = reads.drop_last();
            Self::law_backup_keeps_raw_reads(d);
            let rest = kept_formats(d);
            let all = kept_formats(reads);
            assert forall|k: int| 0 <= k < all.len() implies {
                let (id, v) = #[trigger] all[k];
                &&& !(id == 2 || id == 3 || id == 9 || id == 14 || id == 17)
                &&& v@.len() > 0
                &&& exists|i: int| 0 <= i < reads.len() && #[trigger] reads[i] == (id, Some(v))
            } by {
                if k < rest.len() {
                    assert(all[k] == rest[k]);
                    let (id, v) = rest[k];
                    let i = choose|i: int| 0 <= i < d.len() && #[trigger] d[i] == (id, Some(v));
                    assert(reads[i] == d[i]);
                } else {
                    assert(reads[reads.len() - 1] == reads.last());
                }
            }
            assert forall|i: int|
                0 <= i < reads.len() && (#[trigger] reads[i]).1 is Some && !(reads[i].0 == 2
                    || reads[i].0 == 3 || reads[i].0 == 9 || reads[i].0 == 14 || reads[i].0 == 17)
                    && reads[i].1->0@.len() > 0 implies kept_formats(reads).contains((reads[i].0, reads[i].1->0)) by {
                let v = reads[i].1->0;
                if i < reads.len() - 1 {
                    assert(d[i] == reads[i]);
                    assert(rest.contains((d[i].0, v)));
                    let k = choose|k: int| 0 <= k < rest.len() && rest[k] == (d[i].0, v);
                    assert(all[k] == rest[k]);
                } else {
                    assert(reads.last() == reads[i]);
                    assert(all[all.len() - 1] == (reads[i].0, v));
                }
            }
        }
    }

    /// Backups never hold GDI formats or empty data.
    pub proof fn law_backup_holds_raw_data(reads: Seq<(u32, Option<Vec<u8>>)>)
        ensures
            forall|i: int|
                0 <= i < kept_formats(reads).len() ==> !is_gdi_format(
                    #[trigger] kept_formats(reads)[i].0,
                ) && kept_formats(reads)[i].1@.len() > 0,
        decreases reads.len(),
    {
        if reads.len() > 0 {
            Self::law_backup_holds_raw_data(reads.drop_last());
            let rest = kept_formats(reads.drop_last());
            let all = kept_formats(reads);
            assert forall|i: int| 0 <= i < all.len() implies !is_gdi_format(#[trigger] all[i].0)
                && all[i].1@.len() > 0 by {
                if i < rest.len() {
                    assert(all[i] == rest[i]);
                }
            }
        }
    }
}

/// What is put on the clipboard for a sticker.
#[derive(PartialEq, Eq, Structural, Clone, Copy, Debug)]
pub enum CopySource {
    /// The sticker file itself, as a file drop (animated stickers).
    FileDropSticker,
    /// The sticker's GIF thumbnail, as a file drop.
    FileDropThumbnail,
    /// The sticker's WebP thumbnail, decoded to a bitmap.
    BitmapThumbnail,
    /// The sticker file itself, decoded to a bitmap.
    BitmapSticker,
}

/// Whether a sticker is pasted as a file (so that it stays animated): GIFs, and
/// WebPs whose head announces an animation.
pub open spec fn pasted_as_file(ext: Seq<char>, webp_head_animated: bool) -> bool {
    lower_ascii(ext) == "gif"@ || (lower_ascii(ext) == "webp"@ && webp_head_animated)
}

/// GIF stickers are always pasted as files, so they stay animated; WebPs are
/// pasted as files exactly when their head announces an animation; other
/// stickers (`png`, `jpg`, ...) are pasted as bitmaps.
pub proof fn law_paste_as_file(ext: Seq<char>, webp_head_animated: bool)
    ensures
        lower_ascii(ext) == seq!['g', 'i', 'f'] ==> pasted_as_file(ext, webp_head_animated),
        lower_ascii(ext) == seq!['w', 'e', 'b', 'p'] ==> (pasted_as_file(ext, webp_head_animated)
            == webp_head_animated),
        lower_ascii(ext) != seq!['g', 'i', 'f'] && lower_ascii(ext) != seq!['w', 'e', 'b', 'p']
            ==> !pasted_as_file(ext, webp_head_animated),
{
    reveal_strlit("gif");
    reveal_strlit("webp");
    assert("gif"@ =~= seq!['g', 'i', 'f']);
    assert("webp"@ =~= seq!['w', 'e', 'b', 'p']);
}

/// Chooses what to paste for a sticker with extension `ext`. An animated sticker
/// is dropped as a file: a GIF uses its GIF thumbnail when there is one. A still
/// sticker is pasted as a bitmap, from its WebP thumbnail when there is one.
pub fn copy_source(
    ext: &str,
    webp_head_animated: bool,
    gif_thumbnail_exists: bool,
    webp_thumbnail_exists: bool,
) -> (r: CopySource)
    ensures
        pasted_as_file(ext@, webp_head_animated) ==> r == if lower_ascii(ext@) == "gif"@
            && gif_thumbnail_exists {
            CopySource::FileDropThumbnail
        } else {
            CopySource::FileDropSticker
        },
        !pasted_as_file(ext@, webp_head_animated) ==> r == if webp_thumbnail_exists {
            CopySource::BitmapThumbnail
        } else {
            CopySource::BitmapSticker
        },
{
    let lower = lower_ascii_exec(ext);
    let is_gif = same_text(lower.as_str(), "gif");
    let is_webp = same_text(lower.as_str(), "webp");
    if is_gif || (is_webp && webp_head_animated) {
        if is_gif && gif_thumbnail_exists {
            CopySource::FileDropThumbnail
        } else {
            CopySource::FileDropSticker
        }
    } else if webp_thumbnail_exists {
        CopySource::BitmapThumbnail
    } else {
        CopySource::BitmapSticker
    }
}

/// Whether the head of the sticker file must be read to decide how it is pasted
/// (only for WebP files).
pub fn needs_head_probe(ext: &str) -> (r: bool)
    ensures
        r == (lower_ascii(ext@) == "webp"@),
{
    let lower = lower_ascii_exec(ext);
    same_text(lower.as_str(), "webp")
}

/// The bitmap pasted for a still sticker whose file (or WebP thumbnail) holds
/// `file`: the image decoded to 8-bit RGBA, as width, height and pixels; `None`
/// when the file cannot be decoded.
pub fn clipboard_bitmap(file: &[u8]) -> (r: Option<(u32, u32, Vec<u8>)>)
    ensures
        r is None <==> decoded_rgba(file@) is None,
        r matches Some((w, h, p)) ==> decoded_rgba(file@) == Some((w, h, p@)),
{
    decode_rgba(file)
}

} // verus!
