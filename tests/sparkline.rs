use sparkline::image::{CHANNELS, ImageTheme};
use sparkline::{
    bucket_index, colorise, default_file_name, effective_output, gap_string, image_payload, image_result,
    is_known_theme, min_max_for_data, select_sparkline, OutputType, Reading, Sample, Scaled,
    SparkError, SparkTheme, Theme,
};

fn sample(x: f64) -> Sample {
    Sample::from_bits(x.to_bits())
}

fn value(s: Sample) -> f64 {
    f64::from_bits(s.to_bits())
}

fn scaled(x: f64) -> Scaled {
    let f = x.floor();
    Scaled { floor: f as i64, above: x > f }
}

fn reading(buckets: usize, height: usize, min: f64, max: f64, v: f64) -> Reading {
    let p = (v - min) / (max - min);
    Reading {
        bucket: scaled(buckets as f64 * p),
        rise: scaled((height as f64 / (max - min)) * (v - min)),
    }
}

fn theme_reading(theme: &Theme, min: f64, max: f64, v: f64) -> Reading {
    reading(theme.bucket_count(), theme.canvas_height(), min, max, v)
}

fn pixel(t: &ImageTheme, x: usize, y: usize) -> [u8; 4] {
    let at = (y * t.width + x) * CHANNELS;
    [t.image[at], t.image[at + 1], t.image[at + 2], t.image[at + 3]]
}

const GREEN: [u8; 4] = [54, 186, 46, 255];
const YELLOW: [u8; 4] = [255, 218, 41, 255];
const RED: [u8; 4] = [220, 60, 57, 255];
const BLANK: [u8; 4] = [0, 0, 0, 0];

#[test]
fn test_sparkline_mapping() {
    let (min, max): (f64, f64) = (0.0, 10.0);
    let values = vec![2.0, 3.0, 2.0, 6.0, 9.0];
    let expected = "▂▃▂▅█".to_owned();
    let mut sparky = select_sparkline("classic");
    sparky.start(sample(min), sample(max), None);
    let length = values.len();
    for (pos, (num, compare)) in values.iter().zip(expected.chars()).enumerate() {
        let r = theme_reading(&sparky, min, max, *num);
        let s = sparky.spark(pos, length, r).unwrap();
        assert_eq!(s, compare.to_string());
    }
}

#[test]
fn range_without_overrides_is_data_extremes() {
    let data = vec![sample(0.0), sample(1.0), sample(2.0)];
    let (lo, hi) = min_max_for_data(&data, None, None).unwrap();
    assert_eq!(value(lo), 0.0);
    assert_eq!(value(hi), 2.0);
    let data = vec![sample(3.5), sample(-7.25), sample(12.0), sample(-0.5), sample(11.99)];
    let (lo, hi) = min_max_for_data(&data, None, None).unwrap();
    assert_eq!(value(lo), -7.25);
    assert_eq!(value(hi), 12.0);
}

#[test]
fn range_orders_negative_zero_first() {
    let data = vec![sample(0.0), sample(-0.0)];
    let (lo, hi) = min_max_for_data(&data, None, None).unwrap();
    assert_eq!(lo.to_bits(), (-0.0f64).to_bits());
    assert_eq!(hi.to_bits(), 0.0f64.to_bits());
}

#[test]
fn range_single_sample() {
    let data = vec![sample(4.0)];
    let (lo, hi) = min_max_for_data(&data, None, None).unwrap();
    assert_eq!(value(lo), 4.0);
    assert_eq!(value(hi), 4.0);
}

#[test]
fn range_min_override_keeps_data_max() {
    let data = vec![sample(0.0), sample(1.0), sample(2.0)];
    let (lo, hi) = min_max_for_data(&data, Some(sample(-1.0)), None).unwrap();
    assert_eq!(value(lo), -1.0);
    assert_eq!(value(hi), 2.0);
    let (lo, hi) = min_max_for_data(&data, Some(sample(1.0)), None).unwrap();
    assert_eq!(value(lo), 1.0);
    assert_eq!(value(hi), 2.0);
}

#[test]
fn range_max_override_keeps_data_min() {
    let data = vec![sample(0.0), sample(1.0), sample(2.0)];
    let (lo, hi) = min_max_for_data(&data, None, Some(sample(1.5))).unwrap();
    assert_eq!(value(lo), 0.0);
    assert_eq!(value(hi), 1.5);
}

#[test]
fn range_of_nothing_needs_both_overrides() {
    let empty: Vec<Sample> = vec![];
    assert_eq!(min_max_for_data(&empty, None, None), Err(SparkError::EmptyInput));
    assert_eq!(min_max_for_data(&empty, Some(sample(1.0)), None), Err(SparkError::EmptyInput));
    assert_eq!(min_max_for_data(&empty, None, Some(sample(1.0))), Err(SparkError::EmptyInput));
    let (lo, hi) = min_max_for_data(&empty, Some(sample(1.0)), Some(sample(3.0))).unwrap();
    assert_eq!(value(lo), 1.0);
    assert_eq!(value(hi), 3.0);
}

#[test]
fn range_refuses_non_finite() {
    let data = vec![sample(1.0), sample(f64::NAN)];
    assert_eq!(min_max_for_data(&data, None, None), Err(SparkError::NonFinite));
    let data = vec![sample(f64::INFINITY)];
    assert_eq!(min_max_for_data(&data, Some(sample(0.0)), Some(sample(1.0))), Err(SparkError::NonFinite));
}

#[test]
fn range_overrides_are_used_verbatim() {
    let data = vec![sample(1.0), sample(4.0)];
    let (lo, hi) = min_max_for_data(&data, Some(sample(f64::NEG_INFINITY)), None).unwrap();
    assert_eq!(value(lo), f64::NEG_INFINITY);
    assert_eq!(value(hi), 4.0);
    let (lo, hi) = min_max_for_data(&data, None, Some(sample(2.0))).unwrap();
    assert_eq!(value(lo), 1.0);
    assert_eq!(value(hi), 2.0);
}

#[test]
fn sample_finiteness() {
    assert!(sample(1.0).is_finite());
    assert!(sample(-0.0).is_finite());
    assert!(sample(f64::MAX).is_finite());
    assert!(!sample(f64::NAN).is_finite());
    assert!(!sample(f64::INFINITY).is_finite());
    assert!(!sample(f64::NEG_INFINITY).is_finite());
}

#[test]
fn maximum_maps_to_last_glyph() {
    let mut sparky = select_sparkline("classic");
    sparky.start(sample(0.0), sample(10.0), None);
    let r = theme_reading(&sparky, 0.0, 10.0, 10.0);
    assert_eq!(sparky.spark(0, 2, r).unwrap(), "█");
    let r = theme_reading(&sparky, 0.0, 10.0, 9.0);
    assert_eq!(sparky.spark(1, 2, r).unwrap(), "█");
    let r = theme_reading(&sparky, 0.0, 10.0, 0.0);
    assert_eq!(sparky.spark(1, 2, r).unwrap(), "▁");
    let r = theme_reading(&sparky, 0.0, 10.0, 8.5);
    assert_eq!(sparky.spark(1, 2, r).unwrap(), "▇");
}

#[test]
fn bucket_boundary_rule() {
    assert_eq!(bucket_index(8, Scaled { floor: 8, above: false }), Ok(7));
    assert_eq!(bucket_index(8, Scaled { floor: 7, above: true }), Ok(7));
    assert_eq!(bucket_index(8, Scaled { floor: 6, above: false }), Ok(6));
    assert_eq!(bucket_index(8, Scaled { floor: 0, above: false }), Ok(0));
    assert_eq!(bucket_index(8, Scaled { floor: 8, above: true }), Err(SparkError::IndexOutOfRange));
    assert_eq!(bucket_index(8, Scaled { floor: 9, above: false }), Err(SparkError::IndexOutOfRange));
    assert_eq!(bucket_index(8, Scaled { floor: -1, above: true }), Err(SparkError::IndexOutOfRange));
    assert_eq!(bucket_index(0, Scaled { floor: 0, above: false }), Err(SparkError::IndexOutOfRange));
}

#[test]
fn value_outside_range_is_refused() {
    let mut sparky = select_sparkline("classic");
    sparky.start(sample(0.0), sample(10.0), None);
    let r = theme_reading(&sparky, 0.0, 10.0, 11.0);
    assert_eq!(sparky.spark(0, 1, r), Err(SparkError::IndexOutOfRange));
    let r = theme_reading(&sparky, 0.0, 10.0, -1.0);
    assert_eq!(sparky.spark(0, 1, r), Err(SparkError::IndexOutOfRange));
}

#[test]
fn degenerate_range_uses_lowest_glyph() {
    let mut sparky = select_sparkline("classic");
    sparky.start(sample(5.0), sample(5.0), None);
    let r = theme_reading(&sparky, 5.0, 5.0, 5.0);
    assert_eq!(sparky.spark(0, 1, r).unwrap(), "▁");
    let mut sparky = select_sparkline("classic");
    sparky.start(sample(-0.0), sample(0.0), None);
    let r = theme_reading(&sparky, -0.0, 0.0, 0.0);
    assert_eq!(sparky.spark(0, 1, r).unwrap(), "▁");
}

#[test]
fn degenerate_range_draws_lowest_row() {
    let mut t = ImageTheme::new(20, 5);
    t.start(sample(3.0), sample(3.0), None);
    let r = reading(4, 5, 3.0, 3.0, 3.0);
    assert_eq!(t.spark(0, 1, r).unwrap(), "");
    assert_eq!(pixel(&t, 0, 4), GREEN);
    assert_eq!(pixel(&t, 18, 4), GREEN);
    assert_eq!(pixel(&t, 0, 3), BLANK);
}

#[test]
fn raster_single_sample_at_max_fills_height() {
    let mut t = ImageTheme::new(200, 30);
    t.start(sample(0.0), sample(10.0), None);
    let r = reading(4, 30, 0.0, 10.0, 10.0);
    assert_eq!(t.spark(0, 1, r).unwrap(), "");
    for y in 0..30 {
        assert_eq!(pixel(&t, 0, y), RED);
        assert_eq!(pixel(&t, 198, y), RED);
        assert_eq!(pixel(&t, 199, y), RED);
    }
}

#[test]
fn raster_single_sample_at_min_is_one_row() {
    let mut t = ImageTheme::new(200, 30);
    t.start(sample(0.0), sample(10.0), None);
    let r = reading(4, 30, 0.0, 10.0, 0.0);
    assert_eq!(t.spark(0, 1, r).unwrap(), "");
    assert_eq!(pixel(&t, 0, 29), GREEN);
    assert_eq!(pixel(&t, 100, 29), GREEN);
    assert_eq!(pixel(&t, 199, 29), GREEN);
    for y in 0..29 {
        assert_eq!(pixel(&t, 0, y), BLANK);
    }
}

#[test]
fn raster_bars_side_by_side() {
    let mut t = ImageTheme::new(10, 10);
    t.start(sample(0.0), sample(10.0), None);
    let r = reading(4, 10, 0.0, 10.0, 5.0);
    t.spark(1, 2, r).unwrap();
    // segment of 5 columns, drawn over columns 5 to 9, rows 5 to 9, band 2
    assert_eq!(pixel(&t, 5, 5), YELLOW);
    assert_eq!(pixel(&t, 8, 9), YELLOW);
    assert_eq!(pixel(&t, 9, 9), YELLOW);
    assert_eq!(pixel(&t, 9, 4), BLANK);
    assert_eq!(pixel(&t, 5, 4), BLANK);
    assert_eq!(pixel(&t, 4, 9), BLANK);
}

#[test]
fn raster_geometry_errors() {
    let mut t = ImageTheme::new(10, 10);
    t.start(sample(0.0), sample(10.0), None);
    let r = reading(4, 10, 0.0, 10.0, 5.0);
    assert_eq!(t.spark(0, 0, r), Err(SparkError::InvariantViolation));
    assert_eq!(t.spark(3, 3, r), Err(SparkError::InvariantViolation));
    assert_eq!(t.spark(0, 6, r), Err(SparkError::InvariantViolation));
    let over = reading(4, 10, 0.0, 10.0, 12.0);
    assert_eq!(t.spark(0, 1, over), Err(SparkError::IndexOutOfRange));
    assert!(t.image.iter().all(|b| *b == 0));
}

#[test]
fn output_option_matrix() {
    let sparky = select_sparkline("png");
    let file = Some("out.png".to_owned());
    assert!(!sparky.validate_output_options(Some(OutputType::Console), &file));
    assert!(!sparky.validate_output_options(Some(OutputType::Pipe), &file));
    assert!(sparky.validate_output_options(Some(OutputType::File), &file));
    assert!(sparky.validate_output_options(Some(OutputType::File), &None));
    assert!(sparky.validate_output_options(None, &None));
    assert!(sparky.validate_output_options(None, &file));
    assert!(sparky.validate_output_options(Some(OutputType::Pipe), &None));
    assert!(sparky.validate_output_options(Some(OutputType::Console), &None));
    let classic = select_sparkline("classic");
    assert!(!classic.validate_output_options(Some(OutputType::Console), &file));
    assert!(classic.validate_output_options(None, &None));
}

#[test]
fn file_name_implies_file_output() {
    let file = Some("x.txt".to_owned());
    assert_eq!(effective_output(None, &file), Some(OutputType::File));
    assert_eq!(effective_output(Some(OutputType::Pipe), &None), Some(OutputType::Pipe));
    assert_eq!(effective_output(None, &None), None);
}

#[test]
fn colorise_by_bucket() {
    assert_eq!(colorise("▁"), "\x1B[0;32m▁\x1B[0m");
    assert_eq!(colorise("▂"), "\x1B[0;32m▂\x1B[0m");
    assert_eq!(colorise("▃"), "\x1B[0;33m▃\x1B[0m");
    assert_eq!(colorise("▆"), "\x1B[0;33m▆\x1B[0m");
    assert_eq!(colorise("▇"), "\x1B[0;31m▇\x1B[0m");
    assert_eq!(colorise("█"), "\x1B[0;31m█\x1B[0m");
    assert_eq!(colorise("x"), "x");
    assert_eq!(colorise("▁▁"), "▁▁");
    assert_eq!(colorise(""), "");
}

#[test]
fn theme_selection() {
    let colour = select_sparkline("colour");
    assert_eq!(colour.name(), "colour");
    assert_eq!(select_sparkline("color").name(), "colour");
    assert_eq!(select_sparkline("png").name(), "png");
    assert_eq!(select_sparkline("classic").name(), "classic");
    assert_eq!(select_sparkline("sepia").name(), "classic");
    match colour {
        Theme::Mapping(m) => {
            assert_eq!(m.sparks.len(), 8);
            assert_eq!(m.sparks[7], "\x1B[0;31m█\x1B[0m");
        }
        Theme::Image(_) => panic!("colour is a glyph theme"),
    }
    match select_sparkline("png") {
        Theme::Image(t) => {
            assert_eq!((t.width, t.height), (200, 30));
            assert_eq!(t.image.len(), 200 * 30 * 4);
        }
        Theme::Mapping(_) => panic!("png is a raster theme"),
    }
    assert!(is_known_theme("color"));
    assert!(is_known_theme("png"));
    assert!(!is_known_theme("sepia"));
}

#[test]
fn colour_theme_renders_coloured_glyphs() {
    let mut sparky = select_sparkline("colour");
    sparky.start(sample(0.0), sample(10.0), None);
    let r = theme_reading(&sparky, 0.0, 10.0, 2.0);
    assert_eq!(sparky.spark(0, 1, r).unwrap(), "\x1B[0;32m▂\x1B[0m");
}

#[test]
fn default_names_and_gaps() {
    assert_eq!(default_file_name(&select_sparkline("classic")), "sparkline.txt");
    assert_eq!(default_file_name(&select_sparkline("png")), "sparkline.png");
    assert_eq!(gap_string(None), " ");
    assert_eq!(gap_string(Some(3)), "   ");
    assert_eq!(gap_string(Some(0)), "");
}

#[test]
fn minmax_returns_bound_range() {
    let mut sparky = select_sparkline("classic");
    sparky.start(sample(-2.0), sample(8.0), Some(OutputType::Pipe));
    let (lo, hi) = sparky.minmax();
    assert_eq!((value(lo), value(hi)), (-2.0, 8.0));
}

#[test]
fn payload_for_file_is_the_image() {
    let png = vec![1u8, 2, 3];
    assert_eq!(image_payload(&png, Some(OutputType::File)), vec![1u8, 2, 3]);
}

#[test]
fn payload_for_console_is_inline_escape() {
    let png = vec![1u8, 2, 3, 4];
    let out = image_payload(&png, Some(OutputType::Console));
    assert_eq!(out, b"\x1B]1337;File=inline=1:AQIDBA==\x07".to_vec());
    let out = image_payload(&png, None);
    assert_eq!(out, b"\x1B]1337;File=inline=1:AQIDBA==\x07".to_vec());
}

#[test]
fn end_encodes_png() {
    let mut t = ImageTheme::new(4, 2);
    t.start(sample(0.0), sample(1.0), Some(OutputType::File));
    let r = reading(4, 2, 0.0, 1.0, 1.0);
    t.spark(0, 1, r).unwrap();
    let bytes = t.end().unwrap();
    assert_eq!(&bytes[..8], &[0x89u8, b'P', b'N', b'G', 0x0D, 0x0A, 0x1A, 0x0A]);
    let mut t = ImageTheme::new(4, 2);
    t.start(sample(0.0), sample(1.0), Some(OutputType::Console));
    let bytes = t.end().unwrap();
    assert!(bytes.starts_with(b"\x1B]1337;File=inline=1:iVBORw0KGgo"));
    assert_eq!(*bytes.last().unwrap(), 7u8);
}

#[test]
fn glyph_theme_end_sends_nothing() {
    let mut sparky = select_sparkline("classic");
    sparky.start(sample(0.0), sample(1.0), None);
    assert_eq!(sparky.end(), Ok(vec![]));
    assert_eq!(sparky.file_ext(), "txt");
}

#[test]
fn image_result_for_each_encoder_outcome() {
    let ok = image_result(Ok(vec![9u8, 8]), Some(OutputType::File));
    assert_eq!(ok, Ok(vec![9u8, 8]));
    let inline = image_result(Ok(vec![0xFFu8, 0xEE]), Some(OutputType::Pipe));
    assert_eq!(inline, Ok(b"\x1B]1337;File=inline=1:/+4=\x07".to_vec()));
    let failed = image_result(Err(84), Some(OutputType::File));
    assert_eq!(failed, Err(SparkError::Encode(84)));
}

#[test]
fn end_on_canvas_without_pixels_fails() {
    let mut t = ImageTheme::new(0, 3);
    t.start(sample(0.0), sample(1.0), Some(OutputType::File));
    assert_eq!(t.end(), Err(SparkError::Encode(93)));
    let mut t = ImageTheme::new(5, 0);
    t.start(sample(0.0), sample(1.0), None);
    assert_eq!(t.end(), Err(SparkError::Encode(93)));
}
