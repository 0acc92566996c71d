use pdb_tui::rasterizer::{chars_to_lines, Color, ColoredChar, ColoredPixel};
use pdb_tui::scalar::Scalar;

fn cells(text: &str) -> Vec<ColoredChar> {
    text.chars().map(|symbol| ColoredChar { symbol, color: Color::Red }).collect()
}

fn text(lines: &[Vec<ColoredChar>]) -> Vec<String> {
    lines.iter().map(|l| l.iter().map(|c| c.symbol).collect()).collect()
}

#[test]
fn defaults_are_zero_in_the_terminals_own_colour() {
    assert_eq!(ColoredPixel::default(), ColoredPixel { intensity: Scalar::zero(), color: Color::Reset });
    assert_eq!(ColoredChar::default(), ColoredChar { symbol: '\0', color: Color::Reset });
    assert_eq!(Color::default(), Color::Reset);
    assert_eq!(ColoredChar::newline(), ColoredChar { symbol: '\n', color: Color::Reset });
}

#[test]
fn pixels_and_characters_convert() {
    let intensity = Scalar::from_bits(0.25f32.to_bits());
    let pixel = ColoredPixel::from(intensity);
    assert_eq!(pixel, ColoredPixel { intensity, color: Color::Black });
    assert_eq!(Scalar::from(pixel), intensity);
    assert_eq!(Color::from(ColoredPixel { intensity, color: Color::Cyan }), Color::Cyan);
    assert_eq!(ColoredChar::from(b'x'), ColoredChar { symbol: 'x', color: Color::Red });
    assert_eq!(ColoredChar::from(0xe9u8).symbol, 'é');
    assert_eq!(char::from(ColoredChar { symbol: 'q', color: Color::Blue }), 'q');
}

#[test]
fn lines_come_out_last_line_first() {
    assert_eq!(text(&chars_to_lines(&cells("abcdef"), 3)), vec!["def", "abc"]);
    assert_eq!(text(&chars_to_lines(&cells("abcdefg"), 3)), vec!["g", "def", "abc"]);
    assert_eq!(text(&chars_to_lines(&cells("ab"), 3)), vec!["ab"]);
    assert_eq!(text(&chars_to_lines(&cells("abc"), 1)), vec!["c", "b", "a"]);
    assert!(chars_to_lines(&cells(""), 3).is_empty());
}
