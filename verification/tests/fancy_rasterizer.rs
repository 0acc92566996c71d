use pdb_tui::ascii::glyph_render::GlyphOutline;
use pdb_tui::fancy_rasterizer::FancyAsciiRasterizer;
use pdb_tui::rasterizer::{block_of, grid_chunks, Color, ColoredChar, ColoredPixel};
use pdb_tui::scalar::Scalar;

fn scalar(value: f32) -> Scalar {
    Scalar::from_bits(value.to_bits())
}

fn pixel(intensity: f32, color: Color) -> ColoredPixel {
    ColoredPixel { intensity: scalar(intensity), color }
}

fn rasterizer(grid_width: usize, grid_height: usize) -> FancyAsciiRasterizer {
    let outlines: Vec<Option<GlyphOutline>> = (0..95).map(|_| None).collect();
    FancyAsciiRasterizer::new(outlines, grid_width, grid_height)
}

fn scores_for(symbol: char) -> Vec<Scalar> {
    let mut scores = vec![scalar(0.0); 95];
    scores[symbol as usize - 0x20] = scalar(1.0);
    scores
}

#[test]
fn the_most_frequent_colour_is_chosen() {
    let r = rasterizer(2, 2);
    let chunk = vec![
        pixel(0.1, Color::Red),
        pixel(0.2, Color::Blue),
        pixel(0.3, Color::Blue),
        pixel(0.4, Color::Green),
    ];
    assert_eq!(r.mean_chunk_color(&chunk), Color::Blue);
}

#[test]
fn of_equally_frequent_colours_the_first_is_chosen() {
    let r = rasterizer(2, 2);
    let chunk = vec![
        pixel(0.1, Color::Green),
        pixel(0.2, Color::Blue),
        pixel(0.3, Color::Blue),
        pixel(0.4, Color::Green),
    ];
    assert_eq!(r.mean_chunk_color(&chunk), Color::Green);
    let single = vec![pixel(0.1, Color::Indexed(7))];
    assert_eq!(r.mean_chunk_color(&single), Color::Indexed(7));
    let apart = vec![pixel(0.1, Color::Rgb(1, 2, 3)), pixel(0.1, Color::Rgb(1, 2, 4))];
    assert_eq!(r.mean_chunk_color(&apart), Color::Rgb(1, 2, 3));
}

#[test]
fn a_block_becomes_the_best_match_in_its_colour() {
    let r = rasterizer(2, 1);
    let chunk = vec![pixel(0.1, Color::Red), pixel(0.2, Color::Red)];
    let cell = r.chunk_to_symbol(&chunk, &scores_for('W'));
    assert_eq!(cell, ColoredChar { symbol: 'W', color: Color::Red });
}

#[test]
fn blocks_are_read_like_text() {
    // Three scanlines from the bottom up, four pixels each.
    let rows: Vec<Vec<ColoredPixel>> = (0..4)
        .map(|y| (0..4).map(|x| pixel((y * 4 + x) as f32, Color::Black)).collect())
        .collect();
    let slices: Vec<&[ColoredPixel]> = rows.iter().map(|r| &r[..]).collect();
    let block = block_of(&slices, 1, 0, 2, 2, 2);
    let values: Vec<Scalar> = block.iter().map(|p| p.intensity).collect();
    assert_eq!(values, vec![scalar(6.0), scalar(7.0), scalar(2.0), scalar(3.0)]);
    let chunks = grid_chunks(&slices, 2, 2, 2);
    assert_eq!(chunks.len(), 4);
    assert_eq!(chunks[1], block);
    let values: Vec<Scalar> = chunks[2].iter().map(|p| p.intensity).collect();
    assert_eq!(values, vec![scalar(12.0), scalar(13.0), scalar(8.0), scalar(9.0)]);
}

#[test]
fn the_frame_has_a_character_for_each_block_top_row_first() {
    let r = rasterizer(2, 2);
    assert_eq!(r.grid_width(), 2);
    assert_eq!(r.grid_height(), 2);
    assert_eq!(r.ascii_matrices().glyph_matrices().len(), 95);
    let colors = [Color::Red, Color::Green, Color::Blue, Color::Yellow];
    // Block (column, row) has the colour number row * 2 + column.
    let rows: Vec<Vec<ColoredPixel>> = (0..4usize)
        .map(|y| (0..4usize).map(|x| pixel(0.5, colors[(y / 2) * 2 + x / 2])).collect())
        .collect();
    let slices: Vec<&[ColoredPixel]> = rows.iter().map(|r| &r[..]).collect();
    let scores = vec![scores_for('a'), scores_for('b'), scores_for('c'), scores_for('d')];
    let frame = r.pixels_to_stdout(slices, &scores, 2);
    let text: String = frame.iter().map(|c| c.symbol).collect();
    assert_eq!(text, "cd\nab\n");
    assert_eq!(frame[0].color, Color::Blue);
    assert_eq!(frame[1].color, Color::Yellow);
    assert_eq!(frame[2], ColoredChar { symbol: '\n', color: Color::Reset });
    assert_eq!(frame[3].color, Color::Red);
    assert_eq!(frame[4].color, Color::Green);
}
