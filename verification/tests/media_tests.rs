use soji::hashing::path_hash;
use soji::media::{
    animated, classify_extension, exceeds_size_limit, plan_animated_thumbnail,
    stale_thumbnail_file_name, thumbnail_dimensions, thumbnail_file_name, thumbnail_size_defined,
    AnimatedThumb, MediaKind, MAX_STICKER_SIZE,
};
use soji::webp::{is_animated_webp_bytes, is_animated_webp_head};

fn riff(chunks: &[u8]) -> Vec<u8> {
    let mut v = b"RIFF".to_vec();
    v.extend_from_slice(&((chunks.len() + 4) as u32).to_le_bytes());
    v.extend_from_slice(b"WEBP");
    v.extend_from_slice(chunks);
    v
}

fn chunk(tag: &[u8; 4], payload: &[u8]) -> Vec<u8> {
    let mut v = tag.to_vec();
    v.extend_from_slice(&(payload.len() as u32).to_le_bytes());
    v.extend_from_slice(payload);
    if payload.len() % 2 == 1 {
        v.push(0);
    }
    v
}

#[test]
fn small_images_keep_their_size() {
    assert_eq!(thumbnail_dimensions(100, 50), (100, 50));
    assert_eq!(thumbnail_dimensions(160, 160), (160, 160));
    assert_eq!(thumbnail_dimensions(0, 7), (0, 7));
}

#[test]
fn square_images_become_160() {
    assert_eq!(thumbnail_dimensions(320, 320), (160, 160));
    assert_eq!(thumbnail_dimensions(161, 161), (160, 160));
}

#[test]
fn wide_and_tall_images_keep_their_aspect() {
    assert_eq!(thumbnail_dimensions(640, 320), (320, 160));
    assert_eq!(thumbnail_dimensions(300, 500), (160, 266));
    assert_eq!(thumbnail_dimensions(200, 100), (320, 160));
}

#[test]
fn thumbnail_size_is_undefined_where_the_arithmetic_breaks() {
    assert!(!thumbnail_size_defined(200, 0));
    assert!(!thumbnail_size_defined(0, 200));
    assert!(!thumbnail_size_defined(u32::MAX, 1));
    assert!(thumbnail_size_defined(26_843_545, 1));
}

#[test]
fn extensions_are_classified_without_case() {
    assert_eq!(classify_extension("PNG"), Some(MediaKind::Still));
    assert_eq!(classify_extension("jpeg"), Some(MediaKind::Still));
    assert_eq!(classify_extension("HeIf"), Some(MediaKind::Still));
    assert_eq!(classify_extension("GIF"), Some(MediaKind::Gif));
    assert_eq!(classify_extension("webp"), Some(MediaKind::Webp));
    assert_eq!(classify_extension("MOV"), Some(MediaKind::Video));
    assert_eq!(classify_extension("txt"), None);
    assert_eq!(classify_extension(""), None);
}

#[test]
fn animation_follows_the_kind() {
    assert!(animated("gif", false));
    assert!(animated("mp4", false));
    assert!(animated("webp", true));
    assert!(!animated("webp", false));
    assert!(!animated("png", true));
}

#[test]
fn size_limit_is_25_mib() {
    assert_eq!(MAX_STICKER_SIZE, 26_214_400);
    assert!(!exceeds_size_limit(26_214_400));
    assert!(exceeds_size_limit(26_214_401));
}

#[test]
fn thumbnail_names_use_the_path_hash() {
    let h = path_hash("abc");
    assert_eq!(h, "ba7816bf8f01cfea414140de5dae2223b00361a396177a9cb410ff61f20015ad");
    assert_eq!(thumbnail_file_name(&h, true), format!("{}.gif", h));
    assert_eq!(thumbnail_file_name(&h, false), format!("{}.webp", h));
    assert_eq!(stale_thumbnail_file_name(&h, true), format!("{}.webp", h));
}

#[test]
fn path_hash_differs_from_its_input() {
    let h = path_hash("C:\\Stickers\\cat.png");
    assert_eq!(h.len(), 64);
    assert_ne!(h, "C:\\Stickers\\cat.png");
    assert!(h.chars().all(|c| c.is_ascii_hexdigit() && !c.is_ascii_uppercase()));
}

#[test]
fn gif_of_thumbnail_size_is_copied() {
    assert!(matches!(plan_animated_thumbnail("GIF", false, Some((100, 80))), AnimatedThumb::Copy));
}

#[test]
fn large_gif_is_transcoded_to_thumbnail_size() {
    match plan_animated_thumbnail("gif", false, Some((640, 320))) {
        AnimatedThumb::Transcode(f) => assert_eq!(
            f,
            "scale=320:160,split[s0][s1];[s0]palettegen[p];[s1][p]paletteuse"
        ),
        AnimatedThumb::Copy => panic!("expected a transcode"),
    }
}

#[test]
fn video_thumbnails_use_the_fixed_filter() {
    match plan_animated_thumbnail("mp4", true, Some((100, 100))) {
        AnimatedThumb::Transcode(f) => assert_eq!(
            f,
            "fps=15,scale=160:160:force_original_aspect_ratio=increase,split[s0][s1];[s0]palettegen[p];[s1][p]paletteuse"
        ),
        AnimatedThumb::Copy => panic!("expected a transcode"),
    }
}

#[test]
fn unknown_size_transcodes_to_160() {
    match plan_animated_thumbnail("webp", false, None) {
        AnimatedThumb::Transcode(f) => assert_eq!(
            f,
            "scale=160:160,split[s0][s1];[s0]palettegen[p];[s1][p]paletteuse"
        ),
        AnimatedThumb::Copy => panic!("expected a transcode"),
    }
}

#[test]
fn vp8x_animation_bit_marks_an_animated_webp() {
    let mut payload = [0u8; 10];
    payload[0] = 0x02;
    let file = riff(&chunk(b"VP8X", &payload));
    assert!(is_animated_webp_bytes(&file));
}

#[test]
fn anim_chunk_marks_an_animated_webp() {
    let mut body = chunk(b"VP8X", &[0u8; 10]);
    body.extend(chunk(b"ICCP", &[1, 2, 3]));
    body.extend(chunk(b"ANIM", &[0u8; 6]));
    assert!(is_animated_webp_bytes(&riff(&body)));
}

#[test]
fn still_webp_is_not_animated() {
    let body = chunk(b"VP8 ", &[7u8; 31]);
    assert!(!is_animated_webp_bytes(&riff(&body)));
    assert!(!is_animated_webp_bytes(b"RIFF"));
    assert!(!is_animated_webp_bytes(b"GIF89a not a webp file"));
}

#[test]
fn png_with_animation_control_counts_as_animated() {
    let mut file = vec![0x89, b'P', b'N', b'G', 0x0D, 0x0A, 0x1A, 0x0A, 0, 0, 0, 13];
    file.extend_from_slice(b"IHDR0123456789abc");
    file.extend_from_slice(b"\0\0\0\x08acTL");
    assert!(is_animated_webp_bytes(&file));
    let mut still = vec![0x89, b'P', b'N', b'G', 0x0D, 0x0A, 0x1A, 0x0A, 0, 0, 0, 13];
    still.extend_from_slice(b"IHDR0123456789abc");
    assert!(!is_animated_webp_bytes(&still));
}

#[test]
fn truncated_vp8x_that_loops_is_still() {
    // A VP8X header of size 0 at the very end, followed by two bytes: reading
    // would return to the same header for ever.
    let mut file = b"RIFF\0\0\0\0WEBP".to_vec();
    file.extend_from_slice(b"VP8X\0\0\0\0");
    file.extend_from_slice(&[0, 0]);
    assert!(!is_animated_webp_bytes(&file));
}

#[test]
fn head_check_needs_vp8x_flag_and_anim() {
    let mut payload = [0u8; 10];
    payload[0] = 0x02;
    let mut body = chunk(b"VP8X", &payload);
    body.extend(chunk(b"ANIM", &[0u8; 6]));
    let file = riff(&body);
    assert!(is_animated_webp_head(&file));
    let no_anim = riff(&chunk(b"VP8X", &payload));
    assert!(!is_animated_webp_head(&no_anim));
    assert!(!is_animated_webp_head(&file[..20]));
}
