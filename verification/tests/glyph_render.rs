use pdb_tui::ascii::glyph_render::{
    draw_chars, pixel_to_index, symbol_at, AsciiMatrices, Coverage, GlyphError, GlyphMatrix,
    GlyphOutline, NUM_ASCII_MATRICES,
};
use pdb_tui::scalar::Scalar;

fn scalar(value: f32) -> Scalar {
    Scalar::from_bits(value.to_bits())
}

/// A filled box: `min` and `max` are its corners.
fn filled(min_x: i32, min_y: i32, max_x: i32, max_y: i32) -> GlyphOutline {
    let mut coverage = Vec::new();
    for y in 0..(max_y - min_y) as u32 {
        for x in 0..(max_x - min_x) as u32 {
            coverage.push(Coverage { x, y, value: scalar(1.0) });
        }
    }
    GlyphOutline { min_x, min_y, max_x, max_y, coverage }
}

/// An alphabet in which the space is blank, `A` is a tall box and all others
/// are small boxes that sit on the line.
fn alphabet() -> Vec<Option<GlyphOutline>> {
    (0..NUM_ASCII_MATRICES)
        .map(|i| match symbol_at(i) {
            ' ' => None,
            'A' => Some(filled(1, -20, 9, 0)),
            'g' => Some(filled(0, -10, 8, 6)),
            _ => Some(filled(2, -10, 6, 0)),
        })
        .collect()
}

fn glyph(matrices: &AsciiMatrices, symbol: char) -> &GlyphMatrix {
    &matrices.glyph_matrices()[symbol as usize - 0x20]
}

#[test]
fn test_draw_chars() {
    let ascii_matrices = AsciiMatrices::new(alphabet(), 16, 32);
    assert!(!ascii_matrices.glyph_matrices().is_empty());
    assert_eq!(ascii_matrices.glyph_matrices().len(), NUM_ASCII_MATRICES);
}

#[test]
fn there_is_one_glyph_for_each_printable_character_in_order() {
    let matrices = AsciiMatrices::new(alphabet(), 16, 32);
    assert_eq!(matrices.glyph_matrices().len(), 95);
    for (i, glyph) in matrices.glyph_matrices().iter().enumerate() {
        assert_eq!(glyph.symbol() as usize, 0x20 + i);
        assert_eq!(glyph.width(), 16);
        assert_eq!(glyph.height(), 32);
        assert_eq!(glyph.matrix().len(), 16 * 32);
    }
    assert_eq!(symbol_at(0), ' ');
    assert_eq!(symbol_at(94), '~');
}

#[test]
fn the_alphabet_is_centred_as_a_whole() {
    let matrices = AsciiMatrices::new(alphabet(), 16, 32);
    // The top edge is that of `A`, -20; the bottom edge is that of `g`, 6.
    // The alphabet is 26 rows high, so 6 rows are left over: a shift of 3.
    assert_eq!(glyph(&matrices, 'A').v_offset(), Some(0 + 3));
    assert_eq!(glyph(&matrices, 'x').v_offset(), Some(10 + 3));
    assert_eq!(glyph(&matrices, 'g').v_offset(), Some(10 + 3));
    assert_eq!(glyph(&matrices, ' ').v_offset(), None);
    // The left edge is that of `g`, 0.
    assert_eq!(glyph(&matrices, 'A').h_offset(), Some(1));
    assert_eq!(glyph(&matrices, 'x').h_offset(), Some(2));
    assert_eq!(glyph(&matrices, 'g').h_offset(), Some(0));
    assert_eq!(glyph(&matrices, ' ').h_offset(), None);
}

#[test]
fn a_half_row_left_over_counts_as_a_whole_one() {
    let matrices = AsciiMatrices::new(alphabet(), 16, 31);
    assert_eq!(glyph(&matrices, 'A').v_offset(), Some(3));
    let tight = AsciiMatrices::new(alphabet(), 16, 27);
    assert_eq!(glyph(&tight, 'A').v_offset(), Some(1));
    let exact = AsciiMatrices::new(alphabet(), 16, 26);
    assert_eq!(glyph(&exact, 'A').v_offset(), Some(0));
    let short = AsciiMatrices::new(alphabet(), 16, 20);
    assert_eq!(glyph(&short, 'A').v_offset(), Some(0));
    assert_eq!(glyph(&short, 'g').v_offset(), Some(10));
}

#[test]
fn centred_outlines_lie_within_the_height() {
    for height in [26usize, 27, 32, 64] {
        let matrices = AsciiMatrices::new(alphabet(), 16, height);
        for glyph in matrices.glyph_matrices().iter() {
            if !glyph.is_blank() {
                let top = glyph.v_offset().unwrap() as i64;
                let bottom = top + glyph.internal_height().unwrap();
                assert!(0 <= top && bottom <= height as i64);
            }
        }
    }
}

#[test]
fn the_grid_shows_the_outline_at_its_offsets() {
    let matrices = AsciiMatrices::new(alphabet(), 16, 32);
    let x = glyph(&matrices, 'x');
    for row in 0..32usize {
        for column in 0..16usize {
            let inside = (13..23).contains(&row) && (2..6).contains(&column);
            let expected = if inside { scalar(1.0) } else { scalar(0.0) };
            assert_eq!(x.get_pixel(column, row), Some(expected), "{column} {row}");
        }
    }
    assert_eq!(x.get_pixel(16, 0), None);
    assert_eq!(x.get_pixel(0, 32), None);
    let blank = glyph(&matrices, ' ');
    assert!(blank.is_blank());
    assert!(blank.matrix().iter().all(|c| *c == scalar(0.0)));
}

#[test]
fn coverage_outside_the_grid_is_left_out() {
    let glyph = GlyphMatrix::new(Some(filled(0, 0, 5, 5)), 'x', 3, 2);
    assert_eq!(glyph.matrix().len(), 6);
    assert!(glyph.matrix().iter().all(|c| *c == scalar(1.0)));
    let far = GlyphOutline {
        min_x: 0,
        min_y: 0,
        max_x: 1,
        max_y: 1,
        coverage: vec![Coverage { x: u32::MAX, y: u32::MAX, value: scalar(1.0) }],
    };
    let mut glyph = GlyphMatrix::new(Some(far), 'x', 3, 2);
    glyph.add_h_offset(usize::MAX / 2);
    glyph.add_v_offset(usize::MAX / 2);
    glyph.update_matrix();
    assert!(glyph.matrix().iter().all(|c| *c == scalar(0.0)));
}

#[test]
fn of_two_values_for_one_pixel_the_later_is_drawn() {
    let outline = GlyphOutline {
        min_x: 0,
        min_y: 0,
        max_x: 2,
        max_y: 1,
        coverage: vec![
            Coverage { x: 1, y: 0, value: scalar(0.25) },
            Coverage { x: 1, y: 0, value: scalar(0.75) },
        ],
    };
    let glyph = GlyphMatrix::new(Some(outline), 'x', 2, 1);
    assert_eq!(glyph.matrix(), &vec![scalar(0.0), scalar(0.75)]);
}

#[test]
fn offsets_move_the_outline_once_the_grid_is_drawn_anew() {
    let mut glyph = GlyphMatrix::new(Some(filled(3, -2, 4, -1)), 'x', 3, 3);
    assert_eq!(glyph.get_pixel(0, 0), Some(scalar(1.0)));
    glyph.add_v_offset(2);
    glyph.add_h_offset(1);
    assert_eq!(glyph.get_pixel(0, 0), Some(scalar(1.0)));
    glyph.update_matrix();
    assert_eq!(glyph.get_pixel(0, 0), Some(scalar(0.0)));
    assert_eq!(glyph.get_pixel(1, 2), Some(scalar(1.0)));
    assert_eq!(glyph.v_offset(), Some(2));
    assert_eq!(glyph.h_offset(), Some(1));
    assert_eq!(glyph.internal_min_x(), Some(3));
    assert_eq!(glyph.internal_max_x(), Some(4));
    assert_eq!(glyph.internal_min_y(), Some(-2));
    assert_eq!(glyph.internal_max_y(), Some(-1));
    assert_eq!(glyph.internal_height(), Some(1));
    assert_eq!(glyph.internal_width(), Some(1));
}

#[test]
fn a_blank_glyph_has_no_offsets_and_no_edges() {
    let mut glyph = GlyphMatrix::new(None, ' ', 2, 2);
    glyph.add_v_offset(3);
    glyph.add_h_offset(3);
    glyph.update_matrix();
    assert!(glyph.is_blank());
    assert_eq!(glyph.v_offset(), None);
    assert_eq!(glyph.h_offset(), None);
    assert_eq!(glyph.internal_min_y(), None);
    assert_eq!(glyph.internal_height(), None);
    assert_eq!(glyph.internal_width(), None);
    assert_eq!(glyph.matrix(), &vec![scalar(0.0); 4]);
}

#[test]
fn an_alphabet_without_outlines_stays_blank() {
    let outlines: Vec<Option<GlyphOutline>> = (0..95).map(|_| None).collect();
    let mut matrices = AsciiMatrices::new(outlines, 4, 8);
    matrices.v_center();
    matrices.h_center();
    assert!(matrices.glyph_matrices().iter().all(|g| g.is_blank()));
    assert_eq!(matrices.width(), 4);
    assert_eq!(matrices.height(), 8);
}

#[test]
fn pixels_are_addressed_row_after_row() {
    assert_eq!(pixel_to_index(2, 1, 3, 2), Ok(5));
    assert_eq!(pixel_to_index(0, 0, 3, 2), Ok(0));
    assert_eq!(pixel_to_index(3, 1, 3, 2), Err(GlyphError::PixelOutOfRange { x: 3, y: 1 }));
    assert_eq!(pixel_to_index(0, 2, 3, 2), Err(GlyphError::PixelOutOfRange { x: 0, y: 2 }));
}

#[test]
fn the_best_symbol_is_the_first_of_the_greatest_scores() {
    let matrices = AsciiMatrices::new(alphabet(), 4, 8);
    let mut scores = vec![scalar(0.1); 95];
    assert_eq!(matrices.pick_best_symbol(&scores), ' ');
    scores['k' as usize - 0x20] = scalar(0.9);
    scores['t' as usize - 0x20] = scalar(0.9);
    assert_eq!(matrices.pick_best_symbol(&scores), 'k');
    scores['#' as usize - 0x20] = scalar(f32::NAN);
    assert_eq!(matrices.pick_best_symbol(&scores), 'k');
    scores['~' as usize - 0x20] = scalar(f32::INFINITY);
    assert_eq!(matrices.pick_best_symbol(&scores), '~');
    let mut numbers_last = vec![scalar(f32::NAN); 95];
    assert_eq!(matrices.pick_best_symbol(&numbers_last), ' ');
    numbers_last[7] = scalar(-3.0);
    assert_eq!(matrices.pick_best_symbol(&numbers_last), '\'');
}

#[test]
fn single_glyphs_are_drawn_sixty_by_one_hundred_and_twenty() {
    let matrices = draw_chars(alphabet());
    assert_eq!(matrices.width(), 60);
    assert_eq!(matrices.height(), 120);
    assert_eq!(matrices.glyph_matrices().len(), 95);
    // 120 - 26 = 94 rows are left over: a shift of 47.
    assert_eq!(glyph(&matrices, 'A').v_offset(), Some(47));
}
