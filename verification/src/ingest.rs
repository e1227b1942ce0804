//! Adding stickers by drag and drop: telling web addresses from local files,
//! checking what arrived, and choosing where a new sticker is stored.
use vstd::prelude::*;
use vstd::utf8::{decode_utf8, encode_utf8, valid_utf8};
use vstd::string::StringExecFns;
use crate::media::{MAX_STICKER_SIZE, media_kind, MediaKind, is_video_extension};
use crate::text::{chars_of, decimal, has_prefix, lower_ascii, same_text, string_of};

verus! {

/// Whether `url::Url::parse` accepts the text.
pub uninterp spec fn parses_as_url(s: Seq<char>) -> bool;

/// `url::Url::parse(s).is_ok()`: whether the text parses as an absolute URL.
#[verifier::external_body]
fn url_parses(s: &str) -> (r: bool)
    ensures
        r == parses_as_url(s@),
{
    url::Url::parse(s).is_ok()
}

/// Whether a dropped payload is a web address to download: it parses as a URL and
/// starts with `http://` or `https://`.
pub open spec fn is_web_address(payload: Seq<char>) -> bool {
    parses_as_url(payload) && ("http://"@.is_prefix_of(payload) || "https://"@.is_prefix_of(payload))
}

/// A payload is downloaded exactly when `url` parses it and it begins with
/// `http://` or `https://`.
pub proof fn law_web_addresses(payload: Seq<char>)
    ensures
        is_web_address(payload) <==> (parses_as_url(payload) && (seq!['h', 't', 't', 'p', ':', '/', '/'].is_prefix_of(
            payload,
        ) || seq!['h', 't', 't', 'p', 's', ':', '/', '/'].is_prefix_of(payload))),
{
    reveal_strlit("http://");
    reveal_strlit("https://");
    assert("http://"@ =~= seq!['h', 't', 't', 'p', ':', '/', '/']);
    assert("https://"@ =~= seq!['h', 't', 't', 'p', 's', ':', '/', '/']);
}

/// Decides whether a dropped payload is a web address, as `is_web_address` says.
pub fn is_web_payload(payload: &str) -> (r: bool)
    ensures
        r == is_web_address(payload@),
{
    url_parses(payload) && (has_prefix(payload, "http://") || has_prefix(payload, "https://"))
}

/// The characters before the first `c` (all of them when there is none).
pub open spec fn before_first(s: Seq<char>, c: char) -> Seq<char>
    decreases s.len(),
{
    if s.len() == 0 {
        s
    } else if s[0] == c {
        Seq::empty()
    } else {
        seq![s[0]] + before_first(s.drop_first(), c)
    }
}

/// The characters after the last `c` (all of them when there is none).
pub open spec fn after_last(s: Seq<char>, c: char) -> Seq<char>
    decreases s.len(),
{
    if s.len() == 0 {
        s
    } else if s.last() == c {
        Seq::empty()
    } else {
        after_last(s.drop_last(), c).push(s.last())
    }
}

/// The extension a web address names: the text after the last `.` of the part
/// before any `?`, lower-cased.
pub open spec fn address_extension(url: Seq<char>) -> Seq<char> {
    lower_ascii(after_last(before_first(url, '?'), '.'))
}

proof fn lemma_before_first_split(a: Seq<char>, c: char, b: Seq<char>)
    requires
        !a.contains(c),
    ensures
        before_first(a + seq![c] + b, c) == a,
        before_first(a, c) == a,
    decreases a.len(),
{
    if a.len() > 0 {
        assert(!a.drop_first().contains(c)) by {
            if a.drop_first().contains(c) {
                let k = choose|k: int| 0 <= k < a.drop_first().len() && a.drop_first()[k] == c;
                assert(a[k + 1] == c);
            }
        }
        lemma_before_first_split(a.drop_first(), c, b);
        assert(a[0] != c) by {
            if a[0] == c {
                assert(a.contains(c));
            }
        }
        assert((a + seq![c] + b).drop_first() =~= a.drop_first() + seq![c] + b);
        assert((a + seq![c] + b)[0] == a[0]);
        assert(seq![a[0]] + a.drop_first() =~= a);
    } else {
        assert((a + seq![c] + b)[0] == c);
    }
}

proof fn lemma_after_last_split(a: Seq<char>, c: char, e: Seq<char>)
    requires
        !e.contains(c),
    ensures
        after_last(a + seq![c] + e, c) == e,
    decreases e.len(),
{
    if e.len() > 0 {
        assert(!e.drop_last().contains(c)) by {
            if e.drop_last().contains(c) {
                let k = choose|k: int| 0 <= k < e.drop_last().len() && e.drop_last()[k] == c;
                assert(e[k] == c);
            }
        }
        lemma_after_last_split(a, c, e.drop_last());
        assert(e.last() != c) by {
            if e.last() == c {
                assert(e[e.len() - 1] == c);
            }
        }
        assert((a + seq![c] + e).drop_last() =~= a + seq![c] + e.drop_last());
        assert((a + seq![c] + e).last() == e.last());
        assert(e.drop_last().push(e.last()) =~= e);
    } else {
        assert((a + seq![c] + e) =~= (a + seq![c]));
        assert((a + seq![c]).last() == c);
    }
}

/// The extension of a web address `base.ext?query` (or `base.ext`) is `ext`,
/// lower-cased, when `ext` holds no `.` or `?` and `base` no `?`: the query is
/// ignored and only the text after the last dot counts.
pub proof fn law_address_extension(base: Seq<char>, ext: Seq<char>, query: Seq<char>)
    requires
        !base.contains('?'),
        !ext.contains('.'),
        !ext.contains('?'),
    ensures
        address_extension(base + seq!['.'] + ext + seq!['?'] + query) == lower_ascii(ext),
        address_extension(base + seq!['.'] + ext) == lower_ascii(ext),
{
    let path = base + seq!['.'] + ext;
    assert(!path.contains('?')) by {
        if path.contains('?') {
            let k = choose|k: int| 0 <= k < path.len() && path[k] == '?';
            if k < base.len() {
                assert(base[k] == '?');
            } else if k > base.len() {
                assert(ext[k - base.len() - 1] == '?');
            }
        }
    }
    lemma_before_first_split(path, '?', query);
    lemma_after_last_split(base, '.', ext);
}

/// The characters before the first `c`.
fn before_first_exec(s: &Vec<char>, c: char) -> (r: Vec<char>)
    ensures
        r@ == before_first(s@, c),
{
    let mut out: Vec<char> = Vec::new();
    let mut i: usize = 0;
    assert(s@.subrange(0, s@.len() as int) =~= s@);
    assert(out@ + before_first(s@, c) =~= before_first(s@, c));
    while i < s.len()
        invariant
            i <= s@.len(),
            before_first(s@, c) == out@ + before_first(s@.subrange(i as int, s@.len() as int), c),
        decreases s.len() - i,
    {
        let ghost t = s@.subrange(i as int, s@.len() as int);
        assert(t.drop_first() =~= s@.subrange(i + 1, s@.len() as int));
        if s[i] == c {
            assert(out@ + Seq::<char>::empty() =~= out@);
            return out;
        }
        out.push(s[i]);
        assert(out@ =~= out@.drop_last() + seq![s@[i as int]]);
        i = i + 1;
    }
    assert(s@.subrange(i as int, s@.len() as int) =~= Seq::<char>::empty());
    assert(out@ + Seq::<char>::empty() =~= out@);
    out
}

/// The characters after the last `c`.
fn after_last_exec(s: &Vec<char>, c: char) -> (r: Vec<char>)
    ensures
        r@ == after_last(s@, c),
{
    let n = s.len();
    let mut start: usize = n;
    assert(s@.subrange(0, n as int) =~= s@);
    assert(after_last(s@, c) + s@.subrange(n as int, n as int) =~= after_last(s@, c));
    while start > 0 && s[start - 1] != c
        invariant
            n == s@.len(),
            start <= n,
            after_last(s@, c) == after_last(s@.subrange(0, start as int), c) + s@.subrange(
                start as int,
                n as int,
            ),
        decreases start,
    {
        let ghost t = s@.subrange(0, start as int);
        assert(t.drop_last() =~= s@.subrange(0, start - 1));
        assert(after_last(t, c) == after_last(t.drop_last(), c).push(t.last()));
        assert(s@.subrange(start - 1, n as int) =~= seq![t.last()] + s@.subrange(
            start as int,
            n as int,
        ));
        assert(after_last(s@.subrange(0, start - 1), c).push(t.last()) + s@.subrange(
            start as int,
            n as int,
        ) =~= after_last(s@.subrange(0, start - 1), c) + s@.subrange(start - 1, n as int));
        start = start - 1;
    }
    proof {
        let t = s@.subrange(0, start as int);
        if start > 0 {
            assert(t.last() == c);
        }
        assert(after_last(t, c) =~= Seq::<char>::empty());
        assert(Seq::<char>::empty() + s@.subrange(start as int, n as int) =~= s@.subrange(
            start as int,
            n as int,
        ));
    }
    let mut out: Vec<char> = Vec::new();
    let mut i: usize = start;
    while i < n
        invariant
            start <= i <= n,
            n == s@.len(),
            out@ == s@.subrange(start as int, i as int),
        decreases n - i,
    {
        out.push(s[i]);
        i = i + 1;
    }
    out
}

/// The extension named by a web address, as `address_extension` says.
pub fn url_extension(url: &str) -> (r: String)
    ensures
        r@ == address_extension(url@),
{
    let cs = chars_of(url);
    let path = before_first_exec(&cs, '?');
    let ext = after_last_exec(&path, '.');
    let s = string_of(&ext);
    crate::text::lower_ascii_exec(s.as_str())
}

/// Whether a web address names a video (`mp4`, `webm` or `mov`).
pub fn url_names_video(url: &str) -> (r: bool)
    ensures
        r == (media_kind(address_extension(url@)) == Some(MediaKind::Video)),
{
    let e = url_extension(url);
    is_video_extension(e.as_str())
}

/// `s` with every occurrence of `p` removed, matching from the left without overlap.
pub open spec fn remove_all(s: Seq<char>, p: Seq<char>) -> Seq<char>
    decreases s.len(),
{
    if s.len() == 0 {
        s
    } else if p.len() > 0 && p.is_prefix_of(s) {
        remove_all(s.skip(p.len() as int), p)
    } else {
        seq![s[0]] + remove_all(s.drop_first(), p)
    }
}

/// Removes every occurrence of `p` from `s`.
fn remove_all_exec(s: &Vec<char>, p: &Vec<char>) -> (r: Vec<char>)
    ensures
        r@ == remove_all(s@, p@),
{
    let n = s.len();
    let mut out: Vec<char> = Vec::new();
    let mut i: usize = 0;
    assert(s@.subrange(0, n as int) =~= s@);
    assert(out@ + remove_all(s@, p@) =~= remove_all(s@, p@));
    while i < n
        invariant
            n == s@.len(),
            i <= n,
            remove_all(s@, p@) == out@ + remove_all(s@.subrange(i as int, n as int), p@),
        decreases n - i,
    {
        let ghost t = s@.subrange(i as int, n as int);
        if p.len() > 0 && p.len() <= n - i && crate::text::occurs_at(s, p, i) {
            proof {
                assert(s@.subrange(i as int, i + p@.len()) =~= t.subrange(0, p@.len() as int));
                assert(p@.is_prefix_of(t));
                assert(t.skip(p@.len() as int) =~= s@.subrange(i + p@.len(), n as int));
            }
            i = i + p.len();
        } else {
            proof {
                if p@.len() > 0 && p@.is_prefix_of(t) {
                    assert(s@.subrange(i as int, i + p@.len()) =~= t.subrange(0, p@.len() as int));
                }
                assert(t.drop_first() =~= s@.subrange(i + 1, n as int));
                assert(out@.push(s@[i as int]) + remove_all(s@.subrange(i + 1, n as int), p@)
                    =~= out@ + (seq![t[0]] + remove_all(t.drop_first(), p@)));
            }
            out.push(s[i]);
            i = i + 1;
        }
    }
    proof {
        assert(s@.subrange(i as int, n as int) =~= Seq::<char>::empty());
        assert(out@ + Seq::<char>::empty() =~= out@);
    }
    out
}

/// A dropped local payload without its `file:///` (or else `file://`) marks:
/// when the payload starts with one, every occurrence of it is removed.
pub open spec fn without_file_scheme(payload: Seq<char>) -> Seq<char> {
    if "file:///"@.is_prefix_of(payload) {
        remove_all(payload, "file:///"@)
    } else if "file://"@.is_prefix_of(payload) {
        remove_all(payload, "file://"@)
    } else {
        payload
    }
}

/// Strips the file scheme from a dropped local payload, as `without_file_scheme` says.
pub fn strip_file_scheme(payload: &str) -> (r: String)
    ensures
        r@ == without_file_scheme(payload@),
{
    let cs = chars_of(payload);
    if has_prefix(payload, "file:///") {
        let p = chars_of("file:///");
        string_of(&remove_all_exec(&cs, &p))
    } else if has_prefix(payload, "file://") {
        let p = chars_of("file://");
        string_of(&remove_all_exec(&cs, &p))
    } else {
        String::from_str(payload)
    }
}

/// The value of a hexadecimal digit byte.
pub open spec fn hex_value(b: u8) -> Option<u8> {
    if 48 <= b <= 57 {
        Some((b - 48) as u8)
    } else if 65 <= b <= 70 {
        Some((b - 55) as u8)
    } else if 97 <= b <= 102 {
        Some((b - 87) as u8)
    } else {
        None
    }
}

/// Percent-decoding of bytes: `%` and two hexadecimal digits stand for one byte;
/// a `%` followed by anything else, or by fewer than two bytes, stays as it is.
/// `+` stays `+`.
pub open spec fn percent_decoded(b: Seq<u8>) -> Seq<u8>
    decreases b.len(),
{
    if b.len() == 0 {
        b
    } else if b[0] != 37 {
        seq![b[0]] + percent_decoded(b.drop_first())
    } else if b.len() < 3 {
        b
    } else {
        match (hex_value(b[1]), hex_value(b[2])) {
            (Some(h), Some(l)) => seq![(h * 16 + l) as u8] + percent_decoded(b.skip(3)),
            (Some(_), None) => seq![37u8, b[1]] + percent_decoded(b.skip(2)),
            (None, _) => seq![37u8] + percent_decoded(b.skip(1)),
        }
    }
}

/// The hexadecimal digit of a value below 16, in upper case (`upper`) or lower
/// case, as a byte.
pub open spec fn hex_digit_byte(d: int, upper: bool) -> u8 {
    if d < 10 {
        (48 + d) as u8
    } else if upper {
        (55 + d) as u8
    } else {
        (87 + d) as u8
    }
}

/// Decoding `%` followed by the two hexadecimal digits of a byte (in either
/// case) gives that byte back.
pub proof fn law_percent_escape_gives_byte(v: u8, upper_hi: bool, upper_lo: bool)
    ensures
        percent_decoded(
            seq![37u8, hex_digit_byte(v as int / 16, upper_hi), hex_digit_byte(v as int % 16, upper_lo)],
        ) == seq![v],
{
    let b = seq![37u8, hex_digit_byte(v as int / 16, upper_hi), hex_digit_byte(v as int % 16, upper_lo)];
    assert(b.skip(3) =~= Seq::<u8>::empty());
    assert(percent_decoded(b.skip(3)) == Seq::<u8>::empty());
    assert(b.len() == 3 && b[0] == 37u8);
    assert(hex_value(b[1]) == Some((v / 16) as u8));
    assert(hex_value(b[2]) == Some((v % 16) as u8));
    assert((v / 16) * 16 + v % 16 == v);
    let h = (v / 16) as u8;
    let l = (v % 16) as u8;
    assert((h * 16 + l) as u8 == v);
    assert(seq![(h * 16 + l) as u8] + Seq::<u8>::empty() =~= seq![v]);
}

/// Bytes without a `%` come out of percent-decoding unchanged.
pub proof fn law_percent_free_bytes_unchanged(b: Seq<u8>)
    requires
        forall|i: int| 0 <= i < b.len() ==> b[i] != 37,
    ensures
        percent_decoded(b) == b,
    decreases b.len(),
{
    if b.len() > 0 {
        law_percent_free_bytes_unchanged(b.drop_first());
        assert(seq![b[0]] + b.drop_first() =~= b);
    }
}

/// `urlencoding::decode`: the percent-decoded bytes of `s`, when they are UTF-8;
/// otherwise the message of the UTF-8 error.
#[verifier::external_body]
fn percent_decode(s: &str) -> (r: Result<String, String>)
    ensures
        r is Ok <==> valid_utf8(percent_decoded(encode_utf8(s@))),
        r matches Ok(t) ==> t@ == decode_utf8(percent_decoded(encode_utf8(s@))),
{
    match urlencoding::decode(s) {
        Ok(t) => Ok(t.into_owned()),
        Err(e) => Err(e.to_string()),
    }
}

/// The path of a dropped local file: the payload without its file scheme,
/// percent-decoded. Fails when the decoded bytes are not UTF-8.
pub fn local_drop_path(payload: &str) -> (r: Result<String, String>)
    ensures
        r is Ok <==> valid_utf8(percent_decoded(encode_utf8(without_file_scheme(payload@)))),
        r matches Ok(t) ==> t@ == decode_utf8(
            percent_decoded(encode_utf8(without_file_scheme(payload@))),
        ),
{
    let stripped = strip_file_scheme(payload);
    percent_decode(stripped.as_str())
}

/// The limit in whole mebibytes, as messages state it.
pub fn limit_in_mib() -> (r: u64)
    ensures
        r == 25,
{
    MAX_STICKER_SIZE / 1024 / 1024
}

/// `prefix`, the limit in mebibytes, `suffix`.
fn limit_message(prefix: &str, suffix: &str) -> (r: String)
    ensures
        r@ == prefix@ + decimal(25) + suffix@,
{
    let mut m = String::from_str(prefix);
    crate::text::push_decimal(&mut m, limit_in_mib());
    m.append(suffix);
    m
}

/// Whether a download whose announced length is `len` may start.
pub fn announced_length_ok(len: Option<u64>) -> (r: Result<(), String>)
    ensures
        r is Ok <==> !(len matches Some(l) && l > MAX_STICKER_SIZE),
        r matches Err(e) ==> e@ == "File too large! =^[ Limit is "@ + decimal(25) + "MB..."@,
{
    match len {
        Some(l) => if l > MAX_STICKER_SIZE {
            Err(limit_message("File too large! =^[ Limit is ", "MB..."))
        } else {
            Ok(())
        },
        None => Ok(()),
    }
}

/// Counts `chunk` more downloaded bytes; fails once the total passes the limit.
pub fn count_downloaded(total: u64, chunk: u64) -> (r: Result<u64, String>)
    requires
        total <= MAX_STICKER_SIZE,
        chunk <= u32::MAX,
    ensures
        r is Ok <==> total + chunk <= MAX_STICKER_SIZE,
        r matches Ok(t) ==> t == total + chunk,
        r matches Err(e) ==> e@ == "File exceeded size limit of "@ + decimal(25) + "MB"@,
{
    let t = total + chunk;
    if t > MAX_STICKER_SIZE {
        Err(limit_message("File exceeded size limit of ", "MB"))
    } else {
        Ok(t)
    }
}

/// Whether a dropped local file of `len` bytes may be staged.
pub fn local_length_ok(len: u64) -> (r: Result<(), String>)
    ensures
        r is Ok <==> len <= MAX_STICKER_SIZE,
        r matches Err(e) ==> e@ == "Local file too large. Limit is "@ + decimal(25) + "MB"@,
{
    if len > MAX_STICKER_SIZE {
        Err(limit_message("Local file too large. Limit is ", "MB"))
    } else {
        Ok(())
    }
}

/// The verdict on a dropped video before it is fetched: rejected only when its
/// duration is known to be over the limit (`within_limit == Some(false)`).
pub fn video_precheck(within_limit: Option<bool>) -> (r: Result<(), String>)
    ensures
        r is Err <==> within_limit == Some(false),
        r matches Err(e) ==> e@ == "Video is too long! Limit is 15 seconds."@,
{
    match within_limit {
        Some(false) => Err(String::from_str("Video is too long! Limit is 15 seconds.")),
        _ => Ok(()),
    }
}

/// The verdict on a staged video: its duration must be known and within the limit.
pub fn staged_video_check(within_limit: Option<bool>) -> (r: Result<(), String>)
    ensures
        r is Ok <==> within_limit == Some(true),
        within_limit == Some(false) ==> (r matches Err(e) && e@
            == "Video is too long! Limit is 15 seconds."@),
        within_limit is None ==> (r matches Err(e) && e@ == "Failed to determine video duration."@),
{
    match within_limit {
        Some(true) => Ok(()),
        Some(false) => Err(String::from_str("Video is too long! Limit is 15 seconds.")),
        None => Err(String::from_str("Failed to determine video duration.")),
    }
}

/// The content type of a file's first bytes, as `infer` recognizes it: its MIME
/// type and usual extension.
pub uninterp spec fn inferred_type(head: Seq<u8>) -> Option<(Seq<char>, Seq<char>)>;

/// `infer::get`: the MIME type and extension of the first matching known format.
#[verifier::external_body]
fn infer_type(head: &[u8]) -> (r: Option<(String, String)>)
    ensures
        match r {
            Some((m, e)) => inferred_type(head@) == Some((m@, e@)),
            None => inferred_type(head@) is None,
        },
{
    match infer::get(head) {
        Some(t) => Some((t.mime_type().to_string(), t.extension().to_string())),
        None => None,
    }
}

/// What a staged file turned out to be.
#[derive(Debug)]
pub struct StagedType {
    pub mime: String,
    pub extension: String,
    pub is_video: bool,
}

/// Whether a MIME type is a video.
pub open spec fn is_video_mime(mime: Seq<char>) -> bool {
    "video/"@.is_prefix_of(mime)
}

/// Whether a MIME type is a raster image (any image but SVG).
pub open spec fn is_raster_mime(mime: Seq<char>) -> bool {
    "image/"@.is_prefix_of(mime) && mime != "image/svg+xml"@
}

/// The file types a drop accepts: every MIME type beginning with `video/`, and
/// every one beginning with `image/` except `image/svg+xml` (so `image/gif`,
/// `image/png` and `image/webp` among them); nothing else.
pub proof fn law_accepted_media_types(mime: Seq<char>)
    ensures
        (is_video_mime(mime) || is_raster_mime(mime)) <==> (seq!['v', 'i', 'd', 'e', 'o', '/'].is_prefix_of(
            mime,
        ) || (seq!['i', 'm', 'a', 'g', 'e', '/'].is_prefix_of(mime) && mime != seq![
            'i',
            'm',
            'a',
            'g',
            'e',
            '/',
            's',
            'v',
            'g',
            '+',
            'x',
            'm',
            'l',
        ])),
        is_raster_mime(mime) <==> (seq!['i', 'm', 'a', 'g', 'e', '/'].is_prefix_of(mime) && mime
            != seq!['i', 'm', 'a', 'g', 'e', '/', 's', 'v', 'g', '+', 'x', 'm', 'l']),
{
    reveal_strlit("video/");
    reveal_strlit("image/");
    reveal_strlit("image/svg+xml");
    assert("video/"@ =~= seq!['v', 'i', 'd', 'e', 'o', '/']);
    assert("image/"@ =~= seq!['i', 'm', 'a', 'g', 'e', '/']);
    assert("image/svg+xml"@ =~= seq!['i', 'm', 'a', 'g', 'e', '/', 's', 'v', 'g', '+', 'x', 'm', 'l']);
}

/// Why a staged file is refused, and whether it is deleted.
#[derive(Debug)]
pub struct Rejection {
    pub message: String,
    /// A file of a known but unsupported type is deleted; an unrecognized one stays.
    pub discard_staged: bool,
}

/// Checks a staged file by its first bytes (at most 8192): it must be of a known
/// type, and that type must be a raster image or a video.
pub fn inspect_staged(head: &[u8]) -> (r: Result<StagedType, Rejection>)
    ensures
        inferred_type(head@) is None ==> (r matches Err(e) && e.message@
            == "Unknown file type. Could not detect image format."@ && !e.discard_staged),
        inferred_type(head@) matches Some((m, x)) ==> {
            &&& (is_video_mime(m) || is_raster_mime(m)) <==> r is Ok
            &&& r matches Ok(t) ==> t.mime@ == m && t.extension@ == x && t.is_video
                == is_video_mime(m)
            &&& r matches Err(e) ==> e.message@ == "Invalid file type: "@ + m
                + ". Only raster images and videos are supported."@ && e.discard_staged
        },
{
    match infer_type(head) {
        None => Err(
            Rejection {
                message: String::from_str("Unknown file type. Could not detect image format."),
                discard_staged: false,
            },
        ),
        Some((mime, ext)) => {
            let is_video = has_prefix(mime.as_str(), "video/");
            let is_image = has_prefix(mime.as_str(), "image/") && !same_text(
                mime.as_str(),
                "image/svg+xml",
            );
            if !is_image && !is_video {
                let mut m = String::from_str("Invalid file type: ");
                m.append(mime.as_str());
                m.append(". Only raster images and videos are supported.");
                Err(Rejection { message: m, discard_staged: true })
            } else {
                Ok(StagedType { mime, extension: ext, is_video })
            }
        },
    }
}

/// The staged file's final name: its temporary id and its detected extension.
pub fn staged_file_name(temp_id: &str, ext: &str) -> (r: String)
    ensures
        r@ == temp_id@ + "."@ + ext@,
{
    crate::text::join3(temp_id, ".", ext)
}

/// How the staged file arrived, as the window is told.
pub fn source_label(from_web: bool) -> (r: &'static str)
    ensures
        r@ == if from_web {
            "url"@
        } else {
            "local"@
        },
{
    if from_web {
        "url"
    } else {
        "local"
    }
}

/// Whether the path given by the components `target` lies inside the one given by
/// `root`: `root`'s components begin `target`'s.
pub open spec fn within(root: Seq<Seq<char>>, target: Seq<Seq<char>>) -> bool {
    root.len() <= target.len() && forall|i: int| 0 <= i < root.len() ==> root[i] == target[i]
}

/// A path lies inside the library exactly when the library's components are
/// its first components: any path below the library is inside, and a path that
/// is shorter, or differs in one of those components, is not.
pub proof fn law_within_is_component_prefix(root: Seq<Seq<char>>, target: Seq<Seq<char>>, extra: Seq<
    Seq<char>,
>)
    ensures
        within(root, target) <==> (root.len() <= target.len() && target.subrange(0, root.len() as int)
            == root),
        within(root, root + extra),
{
    if root.len() <= target.len() && target.subrange(0, root.len() as int) == root {
        assert forall|i: int| 0 <= i < root.len() implies root[i] == target[i] by {
            assert(target.subrange(0, root.len() as int)[i] == target[i]);
        }
    }
    if within(root, target) {
        assert(target.subrange(0, root.len() as int) =~= root);
    }
    assert forall|i: int| 0 <= i < root.len() implies root[i] == (root + extra)[i] by {}
}

/// Decides `within` on path components.
pub fn path_within(root: &Vec<String>, target: &Vec<String>) -> (r: bool)
    ensures
        r == within(root.deep_view(), target.deep_view()),
{
    if root.len() > target.len() {
        return false;
    }
    let mut i: usize = 0;
    while i < root.len()
        invariant
            root@.len() <= target@.len(),
            i <= root@.len(),
            forall|j: int| 0 <= j < i ==> root@[j]@ == target@[j]@,
        decreases root.len() - i,
    {
        if root[i] != target[i] {
            assert(root.deep_view()[i as int] != target.deep_view()[i as int]);
            return false;
        }
        i = i + 1;
    }
    true
}

/// The message for a new sticker whose file name is taken in its pack.
pub fn already_in_pack_message(file_name: &str, pack: &str) -> (r: String)
    ensures
        r@ == "File '"@ + file_name@ + "' already exists in pack '"@ + pack@ + "'"@,
{
    let mut m = String::from_str("File '");
    m.append(file_name);
    m.append("' already exists in pack '");
    m.append(pack);
    m.append("'");
    m
}

/// Whether a pack name may be used as a folder: it may not contain `..`.
pub fn pack_name_allowed(pack: &str) -> (r: bool)
    ensures
        r == !crate::text::occurs_in(".."@, pack@),
{
    !crate::text::contains_text(pack, "..")
}

} // verus!
