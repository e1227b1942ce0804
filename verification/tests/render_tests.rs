use soji::render::{image_dimensions, render_still_thumbnail, thumbnail_webp, StillThumb};

fn png_bytes(w: u32, h: u32) -> Vec<u8> {
    let img = image::RgbaImage::from_fn(w, h, |x, y| image::Rgba([(x % 256) as u8, (y % 256) as u8, 128, 255]));
    let mut out = std::io::Cursor::new(Vec::new());
    img.write_to(&mut out, image::ImageFormat::Png).unwrap();
    out.into_inner()
}

#[test]
fn header_dimensions_are_read_from_bytes() {
    assert_eq!(image_dimensions(&png_bytes(30, 20)), Some((30, 20)));
    assert_eq!(image_dimensions(b"not an image"), None);
}

#[test]
fn large_still_is_rendered_at_thumbnail_size() {
    match render_still_thumbnail(&png_bytes(400, 200)) {
        StillThumb::Rendered(webp) => {
            assert_eq!(&webp[0..4], b"RIFF");
            assert_eq!(&webp[8..12], b"WEBP");
            let back = image::load_from_memory(&webp).unwrap();
            assert_eq!((back.width(), back.height()), (320, 160));
        }
        _ => panic!("expected a rendered thumbnail"),
    }
}

#[test]
fn small_still_keeps_its_size() {
    match render_still_thumbnail(&png_bytes(50, 40)) {
        StillThumb::Rendered(webp) => {
            let back = image::load_from_memory(&webp).unwrap();
            assert_eq!((back.width(), back.height()), (50, 40));
        }
        _ => panic!("expected a rendered thumbnail"),
    }
}

#[test]
fn undecodable_files_have_no_thumbnail() {
    assert!(matches!(render_still_thumbnail(b"garbage"), StillThumb::Undecodable));
}

#[test]
fn extreme_aspect_ratio_is_out_of_range() {
    assert!(matches!(render_still_thumbnail(&png_bytes(20000, 161)), StillThumb::OutOfRange(20000, 161)));
}

#[test]
fn pixels_are_scaled_and_encoded() {
    let pixels = vec![200u8; 300 * 300 * 4];
    let webp = thumbnail_webp(300, 300, pixels);
    let back = image::load_from_memory(&webp).unwrap();
    assert_eq!((back.width(), back.height()), (160, 160));
}

#[test]
fn clipboard_bitmap_decodes_to_rgba() {
    let (w, h, pixels) = soji::clipboard::clipboard_bitmap(&png_bytes(3, 2)).expect("decodable");
    assert_eq!((w, h), (3, 2));
    assert_eq!(pixels.len(), 3 * 2 * 4);
    assert_eq!(&pixels[4..8], &[1, 0, 128, 255]);
    assert!(soji::clipboard::clipboard_bitmap(b"not an image").is_none());
}
