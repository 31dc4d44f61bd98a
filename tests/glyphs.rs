use glyphcast::glyph::{frame_to_glyphs, map_frame};
use glyphcast::palette::Palette;
use glyphcast::raster::{FrameError, RasterFrame};
use std::io::Cursor;

fn palette_of(text: &str) -> Palette {
    Palette::new(text.chars().collect()).unwrap()
}

fn palette_of_len(n: usize) -> Palette {
    let glyphs: Vec<char> = (0..n).map(|i| char::from_u32(0x4e00 + i as u32).unwrap()).collect();
    Palette::new(glyphs).unwrap()
}

fn png_bytes(width: u32, height: u32, rgb: Vec<u8>) -> Vec<u8> {
    let img = image::RgbImage::from_raw(width, height, rgb).unwrap();
    let mut out = Cursor::new(Vec::new());
    image::DynamicImage::ImageRgb8(img)
        .write_to(&mut out, image::ImageOutputFormat::Png)
        .unwrap();
    out.into_inner()
}

#[test]
fn black_maps_to_first_and_white_to_last() {
    for n in [2usize, 3, 10, 69, 70, 256] {
        let p = palette_of_len(n);
        assert_eq!(p.index_for(0, 0, 0), 0);
        assert_eq!(p.index_for(255, 255, 255), n - 1);
    }
}

#[test]
fn index_is_monotonic_in_luminance() {
    let p = Palette::standard();
    let mut last = 0usize;
    for v in 0..=255u8 {
        let i = p.index_for(v, v, v);
        assert!(i >= last);
        last = i;
    }
    assert_eq!(last, 68);
}

#[test]
fn index_matches_rounded_weighted_luminance() {
    let p = Palette::standard();
    // 128/255 * 68 = 34.13
    assert_eq!(p.index_for(128, 128, 128), 34);
    // 0.299 * 68 = 20.33
    assert_eq!(p.index_for(255, 0, 0), 20);
    // 0.587 * 68 = 39.92
    assert_eq!(p.index_for(0, 255, 0), 40);
    // 0.114 * 68 = 7.75
    assert_eq!(p.index_for(0, 0, 255), 8);
    let two = palette_of(".#");
    // 0.5 rounds up: 127.5 is not reachable, 128/255 = 0.502
    assert_eq!(two.index_for(128, 128, 128), 1);
    assert_eq!(two.index_for(127, 127, 127), 0);
    assert_eq!(two.glyph_for(200, 200, 200), '#');
}

#[test]
fn palette_needs_two_glyphs() {
    assert!(Palette::new(vec![]).is_none());
    assert!(Palette::new(vec!['x']).is_none());
    assert_eq!(Palette::new(vec!['x', 'y']).unwrap().len(), 2);
}

#[test]
fn standard_palette_ends() {
    let p = Palette::standard();
    assert_eq!(p.len(), 69);
    assert_eq!(p.glyph(0), '$');
    assert_eq!(p.glyph(68), ' ');
    assert_eq!(p.glyph(63), '"');
}

#[test]
fn raster_needs_three_samples_per_pixel() {
    assert!(RasterFrame::from_rgb(2, 1, vec![0; 6]).is_some());
    assert!(RasterFrame::from_rgb(2, 1, vec![0; 5]).is_none());
    assert!(RasterFrame::from_rgb(0, 0, vec![]).is_some());
}

#[test]
fn map_frame_keeps_dimensions_and_order() {
    let rgb = vec![0, 0, 0, 255, 255, 255, 255, 255, 255, 0, 0, 0, 128, 128, 128, 0, 0, 0];
    let f = RasterFrame::from_rgb(3, 2, rgb).unwrap();
    let g = map_frame(&f, &palette_of(" .:#"));
    assert_eq!(g.rows, vec![vec![' ', '#', '#'], vec![' ', ':', ' ']]);
    let text: String = g.text().into_iter().collect();
    assert_eq!(text, " ##\n : \n");
}

#[test]
fn map_frame_is_deterministic() {
    let rgb: Vec<u8> = (0..(3 * 7 * 5)).map(|i| (i * 37 % 256) as u8).collect();
    let f = RasterFrame::from_rgb(7, 5, rgb).unwrap();
    let p = Palette::standard();
    let a = map_frame(&f, &p);
    let b = map_frame(&f, &p);
    assert_eq!(a.rows, b.rows);
    assert_eq!(a.text(), b.text());
}

#[test]
fn empty_grid_has_empty_text() {
    let f = RasterFrame::from_rgb(0, 0, vec![]).unwrap();
    let g = map_frame(&f, &Palette::standard());
    assert!(g.rows.is_empty());
    assert!(g.text().is_empty());
}

#[test]
fn decode_reads_png_samples() {
    let rgb = vec![1, 2, 3, 4, 5, 6, 7, 8, 9, 10, 11, 12];
    let bytes = png_bytes(2, 2, rgb.clone());
    let f = RasterFrame::decode(&bytes).unwrap();
    assert_eq!((f.width, f.height), (2, 2));
    assert_eq!(f.rgb, rgb);
}

#[test]
fn decode_rejects_corrupt_bytes() {
    assert_eq!(RasterFrame::decode(b"not an image").unwrap_err(), FrameError::Decode);
    let mut bytes = png_bytes(4, 4, vec![9; 48]);
    bytes.truncate(bytes.len() / 2);
    assert_eq!(RasterFrame::decode(&bytes).unwrap_err(), FrameError::Decode);
    assert!(frame_to_glyphs(&[], &Palette::standard()).is_err());
}

#[test]
fn frame_to_glyphs_decodes_and_maps() {
    let bytes = png_bytes(2, 1, vec![0, 0, 0, 255, 255, 255]);
    let g = frame_to_glyphs(&bytes, &palette_of("ab")).unwrap();
    assert_eq!(g.rows, vec![vec!['a', 'b']]);
}
