use pdb_tui::basic_rasterizer::BasicAsciiRasterizer;
use pdb_tui::rasterizer::{Color, ColoredChar, ColoredPixel, Rasterizer, RasterizerError};
use pdb_tui::scalar::Scalar;

fn scalar(value: f32) -> Scalar {
    Scalar::from_bits(value.to_bits())
}

fn pixel(intensity: f32) -> ColoredPixel {
    ColoredPixel::from(scalar(intensity))
}

fn thresholds(values: &[f32]) -> Vec<Scalar> {
    values.iter().map(|v| scalar(*v)).collect()
}

#[test]
fn test_default_rasterizer() {
    let rasterizer = BasicAsciiRasterizer::default();
    assert_eq!(rasterizer.pixel_to_char(pixel(0.15)).symbol, '@');
    assert_eq!(rasterizer.pixel_to_char(pixel(0.65)).symbol, '=');
    assert_eq!(rasterizer.pixel_to_char(pixel(0.85)).symbol, ':');
    assert_eq!(rasterizer.pixel_to_char(pixel(1.15)).symbol, rasterizer.background_char());
}

#[test]
fn test_nonincreasing_error() {
    let thresholds = thresholds(&[0.0, 0.4, 0.9, 0.6]);
    let gradient = vec!['.', '.', '.'];
    let rasterizer = BasicAsciiRasterizer::new(gradient, thresholds, ' ');
    assert!(rasterizer.is_err_and(|x| x == RasterizerError::ThresholdsNotIncreasing));
}

#[test]
fn test_notmatching_error() {
    let thresholds = thresholds(&[0.0, 0.4, 0.6]);
    let gradient = vec!['.', '.', '.'];
    let rasterizer = BasicAsciiRasterizer::new(gradient, thresholds, ' ');
    assert!(rasterizer.is_err_and(|x| x == RasterizerError::GradientNotMatchingThresholds));
}

#[test]
fn gradient_matching_up_to_one() {
    let rasterizer = BasicAsciiRasterizer::new(
        vec!['@', '%', '#', '*', '+', '=', '-', ':', '.'],
        thresholds(&[-0.1, 0.2, 0.3, 0.4, 0.5, 0.6, 0.7, 0.8, 0.9, 1.0]),
        '~',
    )
    .unwrap();
    assert_eq!(rasterizer.pixel_to_char(pixel(0.15)).symbol, '@');
    assert_eq!(rasterizer.pixel_to_char(pixel(0.65)).symbol, '=');
    assert_eq!(rasterizer.pixel_to_char(pixel(0.85)).symbol, ':');
    assert_eq!(rasterizer.pixel_to_char(pixel(1.15)).symbol, '~');
    assert_eq!(rasterizer.pixel_to_char(pixel(1.0)).symbol, '.');
}

#[test]
fn intervals_are_open_below_and_closed_above() {
    let rasterizer =
        BasicAsciiRasterizer::new(vec!['a', 'b'], thresholds(&[0.0, 0.5, 1.0]), ' ').unwrap();
    assert_eq!(rasterizer.pixel_to_char(pixel(0.0)).symbol, ' ');
    assert_eq!(rasterizer.pixel_to_char(pixel(0.5)).symbol, 'a');
    assert_eq!(rasterizer.pixel_to_char(pixel(0.500001)).symbol, 'b');
    assert_eq!(rasterizer.pixel_to_char(pixel(1.0)).symbol, 'b');
    assert_eq!(rasterizer.pixel_to_char(pixel(-0.0)).symbol, ' ');
    assert_eq!(rasterizer.pixel_to_char(pixel(f32::NAN)).symbol, ' ');
}

#[test]
fn the_colour_of_the_pixel_is_kept() {
    let rasterizer = BasicAsciiRasterizer::default();
    let cell = rasterizer
        .pixel_to_char(ColoredPixel { intensity: scalar(0.25), color: Color::Rgb(1, 2, 3) });
    assert_eq!(cell, ColoredChar { symbol: '%', color: Color::Rgb(1, 2, 3) });
}

#[test]
fn construction_succeeds_on_every_increasing_list() {
    for count in 0..6usize {
        let gradient: Vec<char> = (0..count).map(|_| '#').collect();
        let values: Vec<f32> = (0..=count).map(|i| i as f32 * 0.25 - 0.3).collect();
        assert!(BasicAsciiRasterizer::new(gradient, thresholds(&values), ' ').is_ok());
    }
}

#[test]
fn equal_or_missing_thresholds_are_refused() {
    let equal = BasicAsciiRasterizer::new(vec!['a', 'b'], thresholds(&[0.0, 0.5, 0.5]), ' ');
    assert_eq!(equal.err(), Some(RasterizerError::ThresholdsNotIncreasing));
    let nan = BasicAsciiRasterizer::new(vec!['a', 'b'], thresholds(&[0.0, f32::NAN, 0.5]), ' ');
    assert_eq!(nan.err(), Some(RasterizerError::ThresholdsNotIncreasing));
    let none = BasicAsciiRasterizer::new(vec![], vec![], ' ');
    assert_eq!(none.err(), Some(RasterizerError::GradientNotMatchingThresholds));
    let both = BasicAsciiRasterizer::new(vec!['a'], thresholds(&[0.5, 0.2, 0.1]), ' ');
    assert_eq!(both.err(), Some(RasterizerError::GradientNotMatchingThresholds));
}

#[test]
fn rows_come_out_top_first_with_newlines() {
    let rasterizer = BasicAsciiRasterizer::default();
    let bottom = vec![pixel(0.15), pixel(0.25), pixel(0.35)];
    let top = vec![pixel(0.45), pixel(0.55), pixel(1.5)];
    let frame = rasterizer.pixels_to_stdout(vec![&bottom[..], &top[..]], 3);
    let text: String = frame.iter().map(|c| c.symbol).collect();
    assert_eq!(text, "*+ \n@%#\n");
    assert_eq!(frame[3], ColoredChar { symbol: '\n', color: Color::Reset });
    assert_eq!(frame.len(), 3 * 2 + 2);
}

#[test]
fn no_rows_make_an_empty_frame() {
    let rasterizer = BasicAsciiRasterizer::default();
    assert!(rasterizer.pixels_to_stdout(vec![], 4).is_empty());
    let empty: Vec<ColoredPixel> = vec![];
    let frame = rasterizer.pixels_to_stdout(vec![&empty[..], &empty[..]], 0);
    let text: String = frame.iter().map(|c| c.symbol).collect();
    assert_eq!(text, "\n\n");
}

#[test]
fn a_copy_maps_as_its_source_does() {
    let rasterizer = BasicAsciiRasterizer::default();
    let copy = rasterizer.clone();
    for step in 0..24 {
        let p = pixel(step as f32 * 0.05 - 0.1);
        assert_eq!(rasterizer.pixel_to_char(p), copy.pixel_to_char(p));
    }
    assert_eq!(copy.grid_width(), 1);
    assert_eq!(copy.grid_height(), 1);
}
