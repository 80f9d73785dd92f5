use wordfall::glyph::{check_raster, FontError, Metrics, Raster, RasterError, WordContext};
use wordfall::word::{measure, pen_offsets, PixelBox};

fn metrics(width: u32, height: u32, left: i32, top: i32, advance_px: i64) -> Metrics {
    Metrics { width, height, left, top, advance_x: advance_px * 64, advance_y: 0 }
}

#[test]
fn two_identical_glyphs_measure_advance_plus_width() {
    let a = metrics(30, 35, 2, 33, 40);
    let b = measure(&[a, a]);
    assert_eq!(b.width, 70);
}

#[test]
fn uniform_word_width_formula() {
    let a = metrics(30, 35, 2, 33, 40);
    let word = vec![a; 5];
    assert_eq!(measure(&word).width, 4 * 40 + 30);
}

#[test]
fn box_takes_first_bearing_and_last_extent() {
    let first = Metrics { width: 20, height: 30, left: 3, top: 25, advance_x: 22 * 64, advance_y: 64 };
    let last = Metrics { width: 18, height: 12, left: 1, top: 10, advance_x: 19 * 64, advance_y: 2 * 64 };
    let b = measure(&[first, last]);
    assert_eq!(b, PixelBox { x: 3, y: 5, width: 22 + 18, height: 1 + 12 });
}

#[test]
fn single_glyph_box_is_its_bitmap() {
    let m = Metrics { width: 26, height: 34, left: -1, top: 34, advance_x: 29 * 64, advance_y: 0 };
    assert_eq!(measure(&[m]), PixelBox { x: -1, y: 0, width: 26, height: 34 });
}

#[test]
fn fractional_advances_are_floored() {
    let m = Metrics { width: 10, height: 10, left: 0, top: 10, advance_x: 10 * 64 + 63, advance_y: -1 };
    let b = measure(&[m, m]);
    assert_eq!(b.width, 20);
    assert_eq!(b.height, 10 - 1);
}

#[test]
fn pen_positions_accumulate_advances() {
    let ms = [metrics(8, 9, 0, 0, 10), metrics(8, 9, 0, 0, 12), metrics(8, 9, 0, 0, 8)];
    let offs = pen_offsets(&ms, 0, 0);
    let xs: Vec<i128> = offs.iter().map(|o| o.0).collect();
    assert_eq!(xs, vec![0, 10, 22]);
}

#[test]
fn offsets_add_origin_and_bearings() {
    let ms = [metrics(8, 9, 2, 7, 10), metrics(8, 9, -1, 5, 12)];
    let offs = pen_offsets(&ms, -40, 16);
    assert_eq!(offs, vec![(-40 + 0 + 2, 16 - 7), (-40 + 10 - 1, 16 - 5)]);
}

fn raster(width: i32, rows: i32, len: usize) -> Raster {
    Raster { ch: 'x', buffer: vec![0u8; len], width, rows, left: 1, top: 2, advance_x: 640, advance_y: 0 }
}

#[test]
fn sound_raster_gives_its_metrics() {
    let m = check_raster(&raster(3, 4, 12)).unwrap();
    assert_eq!(m, Metrics { width: 3, height: 4, left: 1, top: 2, advance_x: 640, advance_y: 0 });
    assert!(check_raster(&raster(0, 0, 0)).is_ok());
}

#[test]
fn short_buffer_is_a_bad_bitmap() {
    assert_eq!(check_raster(&raster(3, 4, 11)), Err(RasterError::BadBitmap));
}

#[test]
fn negative_size_is_a_bad_bitmap() {
    assert_eq!(check_raster(&raster(-1, 4, 12)), Err(RasterError::BadBitmap));
    assert_eq!(check_raster(&raster(3, -4, 12)), Err(RasterError::BadBitmap));
}

#[test]
fn missing_font_fails_to_load() {
    let r = WordContext::initialize("/nonexistent/font/file.ttf", 48);
    assert_eq!(r.err(), Some(FontError::LoadFailed));
}
