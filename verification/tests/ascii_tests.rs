use termio::ascii::{adjust_contrast, ascii_for, glyph_index, luminance, to_ascii_frame};
use termio::message::AsciiFrame;

#[test]
fn test_luminance() {
    // White
    assert_eq!(luminance(255, 255, 255), 255);
    // Black
    assert_eq!(luminance(0, 0, 0), 0);
    // Gray
    let gray = luminance(128, 128, 128);
    assert!(gray > 100 && gray < 150);
}

#[test]
fn test_ascii_for() {
    // Black should map to space
    let ch = ascii_for(0, 0, 0);
    assert_eq!(ch, ' ');

    // White should map to dense character
    let ch = ascii_for(255, 255, 255);
    assert_eq!(ch, '@');
}

#[test]
fn test_luminance_weights() {
    // Exact integer weights: (299 R + 587 G + 114 B) / 1000.
    assert_eq!(luminance(255, 0, 0), 76);
    assert_eq!(luminance(0, 255, 0), 149);
    assert_eq!(luminance(0, 0, 255), 29);
    assert_eq!(luminance(10, 10, 10), 10);
}

#[test]
fn test_glyph_index_monotonic_and_bounded() {
    let mut prev = glyph_index(0);
    assert_eq!(prev, 0);
    for y in 1..=255u16 {
        let i = glyph_index(y as u8);
        assert!(i < 68);
        assert!(i >= prev);
        prev = i;
    }
    assert_eq!(glyph_index(255), 67);
}

#[test]
fn test_to_ascii_frame_color() {
    // A 2x1 raster: one dim gray pixel, one black pixel.
    let raster: Vec<u8> = vec![10, 10, 10, 0, 0, 0];
    let frame = to_ascii_frame(&raster, 6, 2, 1, false);
    assert_eq!(frame.width, 2);
    assert_eq!(frame.height, 1);
    assert_eq!(frame.data.len(), 8);
    // Luminance 10 selects palette index 10 * 67 / 255 = 2, the quote.
    assert_eq!(frame.get_cell(0, 0), Some(('\'', 10, 10, 10)));
    assert_eq!(frame.get_cell(1, 0), Some((' ', 0, 0, 0)));
}

#[test]
fn test_to_ascii_frame_mono() {
    // In monochrome mode the cell color collapses to the gray level.
    let raster: Vec<u8> = vec![255, 0, 0];
    let frame = to_ascii_frame(&raster, 3, 1, 1, true);
    let (ch, r, g, b) = frame.get_cell(0, 0).unwrap();
    assert_eq!((r, g, b), (76, 76, 76));
    assert_eq!(ch, ascii_for(255, 0, 0));
}

#[test]
fn test_to_ascii_frame_out_of_bounds_reads_black() {
    // The raster is shorter than the frame wants: missing pixels are black.
    let raster: Vec<u8> = vec![200, 200, 200];
    let frame = to_ascii_frame(&raster, 6, 2, 2, false);
    assert_eq!(frame.get_cell(0, 0), Some((ascii_for(200, 200, 200), 200, 200, 200)));
    assert_eq!(frame.get_cell(1, 0), Some((' ', 0, 0, 0)));
    assert_eq!(frame.get_cell(0, 1), Some((' ', 0, 0, 0)));
    assert_eq!(frame.get_cell(1, 1), Some((' ', 0, 0, 0)));
}

#[test]
fn test_adjust_contrast_neutral_is_identity() {
    let raster: Vec<u8> = vec![10, 20, 30, 200, 100, 50, 0, 0, 0, 255, 255, 255];
    let mut frame = to_ascii_frame(&raster, 12, 4, 1, false);
    let before = frame.data.clone();
    adjust_contrast(&mut frame, 1000, 0);
    assert_eq!(frame.data, before);
}

#[test]
fn test_adjust_contrast_changes_color_and_glyph() {
    let raster: Vec<u8> = vec![100, 100, 100];
    let mut frame = to_ascii_frame(&raster, 3, 1, 1, false);
    // Brightness +50 takes the channel to 150; doubling the contrast moves
    // it to 128 + (150 - 128) * 2 = 172; the glyph follows the new color.
    adjust_contrast(&mut frame, 2000, 50);
    let (ch, r, g, b) = frame.get_cell(0, 0).unwrap();
    assert_eq!((r, g, b), (172, 172, 172));
    assert_eq!(ch, ascii_for(172, 172, 172));
}

#[test]
fn test_adjust_contrast_clamps() {
    let raster: Vec<u8> = vec![250, 250, 250, 5, 5, 5];
    let mut frame = to_ascii_frame(&raster, 6, 2, 1, false);
    adjust_contrast(&mut frame, 3000, 0);
    assert_eq!(frame.get_cell(0, 0), Some(('@', 255, 255, 255)));
    assert_eq!(frame.get_cell(1, 0), Some((' ', 0, 0, 0)));
}

#[test]
fn test_frame_cells() {
    let mut frame = AsciiFrame::new(3, 2);
    assert_eq!(frame.data.len(), 24);
    frame.set_cell(2, 1, '#', 1, 2, 3);
    assert_eq!(frame.get_cell(2, 1), Some(('#', 1, 2, 3)));
    // Untouched cells stay zeroed.
    assert_eq!(frame.get_cell(0, 0), Some(('\0', 0, 0, 0)));
    // Out-of-range access is absent, never a panic.
    assert_eq!(frame.get_cell(3, 0), None);
    assert_eq!(frame.get_cell(0, 2), None);
    // Out-of-range writes are ignored.
    frame.set_cell(9, 9, '!', 9, 9, 9);
    assert_eq!(frame.get_cell(2, 1), Some(('#', 1, 2, 3)));
}
