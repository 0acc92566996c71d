use pdb_tui::basic_rasterizer::BasicAsciiRasterizer;
use pdb_tui::rasterizer::{Color, ColoredPixel};
use pdb_tui::render::{Canvas, CanvasError, RayHit};
use pdb_tui::scalar::Scalar;

fn scalar(value: f32) -> Scalar {
    Scalar::from_bits(value.to_bits())
}

fn pixel(intensity: f32, color: Color) -> ColoredPixel {
    ColoredPixel { intensity: scalar(intensity), color }
}

fn text(canvas: &Canvas<BasicAsciiRasterizer>) -> String {
    canvas.frame_buffer().iter().map(|c| c.symbol).collect()
}

#[test]
fn test_drawing() {
    let mut canvas = Canvas::<BasicAsciiRasterizer>::default();
    let hits = vec![
        RayHit { x: 10, y: 20, pixel: pixel(0.25, Color::Black), toi: scalar(40.0) },
        RayHit { x: 10, y: 20, pixel: pixel(0.75, Color::Black), toi: scalar(45.0) },
    ];
    canvas.draw_scene_to_canvas(&hits);
    assert_eq!(canvas.render_width(), 320);
    assert_eq!(canvas.render_height(), 180);
    assert_eq!(canvas.frame_buffer().len(), 320 * 180 + 180);
    let shown = canvas.frame_buffer()[(180 - 1 - 20) * 321 + 10];
    assert_eq!(shown.symbol, '%');
}

#[test]
fn the_nearer_hit_wins_in_either_order() {
    let a = pixel(0.3, Color::Red);
    let b = pixel(0.6, Color::Blue);
    let mut canvas = Canvas::new(4, 3, BasicAsciiRasterizer::default());
    canvas.set_pixel_toi(1, 2, a, scalar(2.0));
    canvas.set_pixel_toi(1, 2, b, scalar(5.0));
    assert_eq!(canvas.pixel_buffer()[2 * 4 + 1], a);
    assert_eq!(canvas.toi_buffer()[2 * 4 + 1], scalar(2.0));
    canvas.set_pixel_toi(1, 2, b, scalar(1.0));
    assert_eq!(canvas.pixel_buffer()[2 * 4 + 1], b);
    assert_eq!(canvas.toi_buffer()[2 * 4 + 1], scalar(1.0));

    let mut other = Canvas::new(4, 3, BasicAsciiRasterizer::default());
    other.set_pixel_toi(1, 2, b, scalar(5.0));
    other.set_pixel_toi(1, 2, a, scalar(2.0));
    assert_eq!(other.pixel_buffer()[2 * 4 + 1], a);
}

#[test]
fn of_two_hits_at_one_distance_the_first_stays() {
    let a = pixel(0.3, Color::Red);
    let b = pixel(0.6, Color::Blue);
    let mut canvas = Canvas::new(2, 2, BasicAsciiRasterizer::default());
    canvas.set_pixel_toi(0, 0, a, scalar(2.0));
    canvas.set_pixel_toi(0, 0, b, scalar(2.0));
    assert_eq!(canvas.pixel_buffer()[0], a);
}

#[test]
fn a_hit_that_is_no_number_or_infinitely_far_is_not_seen() {
    let a = pixel(0.3, Color::Red);
    let mut canvas = Canvas::new(2, 2, BasicAsciiRasterizer::default());
    canvas.set_pixel_toi(0, 0, a, scalar(f32::NAN));
    canvas.set_pixel_toi(1, 0, a, scalar(f32::INFINITY));
    canvas.set_pixel_toi(0, 1, a, scalar(f32::MAX));
    assert_eq!(canvas.pixel_buffer()[0], canvas.bg_pixel());
    assert_eq!(canvas.pixel_buffer()[1], canvas.bg_pixel());
    assert_eq!(canvas.pixel_buffer()[2], a);
}

#[test]
fn an_empty_scene_leaves_the_background() {
    let mut canvas = Canvas::new(5, 4, BasicAsciiRasterizer::default());
    canvas.set_pixel(2, 2, pixel(0.1, Color::Green));
    canvas.set_toi(2, 2, scalar(3.0));
    canvas.draw_scene_to_canvas(&Vec::new());
    assert_eq!(canvas.pixel_buffer().len(), 20);
    assert!(canvas.pixel_buffer().iter().all(|p| *p == canvas.bg_pixel()));
    assert!(canvas.toi_buffer().iter().all(|t| *t == Scalar::infinity()));
    assert_eq!(text(&canvas), "     \n     \n     \n     \n");
}

#[test]
fn a_new_canvas_is_blank_with_a_background_above_one() {
    let canvas = Canvas::new(3, 2, BasicAsciiRasterizer::default());
    assert_eq!(canvas.bg_pixel(), pixel(1.1, Color::Reset));
    assert_eq!(canvas.pixel_buffer().len(), 6);
    assert_eq!(canvas.toi_buffer().len(), 6);
    assert_eq!(canvas.frame_buffer().len(), 3 * 2 + 2);
    assert_eq!(canvas.grid_width(), 1);
    assert_eq!(canvas.grid_height(), 1);
    assert_eq!(text(&canvas), "   \n   \n");
}

#[test]
fn drawing_shows_the_nearest_of_all_hits_top_row_first() {
    let mut canvas = Canvas::new(3, 2, BasicAsciiRasterizer::default());
    let hits = vec![
        RayHit { x: 0, y: 0, pixel: pixel(0.15, Color::Red), toi: scalar(9.0) },
        RayHit { x: 0, y: 0, pixel: pixel(0.65, Color::Blue), toi: scalar(3.0) },
        RayHit { x: 0, y: 0, pixel: pixel(0.85, Color::Green), toi: scalar(4.0) },
        RayHit { x: 2, y: 1, pixel: pixel(0.25, Color::Cyan), toi: scalar(1.0) },
        RayHit { x: 3, y: 0, pixel: pixel(0.25, Color::Cyan), toi: scalar(1.0) },
        RayHit { x: 0, y: 2, pixel: pixel(0.25, Color::Cyan), toi: scalar(1.0) },
    ];
    canvas.draw_scene_to_canvas(&hits);
    assert_eq!(canvas.pixel_buffer()[0], pixel(0.65, Color::Blue));
    assert_eq!(canvas.toi_buffer()[0], scalar(3.0));
    assert_eq!(canvas.pixel_buffer()[5], pixel(0.25, Color::Cyan));
    assert_eq!(text(&canvas), "  %\n=  \n");
    assert_eq!(canvas.frame_buffer()[2].color, Color::Cyan);

    let mut reversed = hits.clone();
    reversed.reverse();
    let mut other = Canvas::new(3, 2, BasicAsciiRasterizer::default());
    other.draw_scene_to_canvas(&reversed);
    assert_eq!(other.pixel_buffer(), canvas.pixel_buffer());
    assert_eq!(other.frame_buffer(), canvas.frame_buffer());
}

#[test]
fn places_outside_the_canvas_are_passed_over() {
    let mut canvas = Canvas::new(3, 2, BasicAsciiRasterizer::default());
    let before = canvas.pixel_buffer().clone();
    canvas.set_pixel(3, 0, pixel(0.1, Color::Red));
    canvas.set_pixel(0, 2, pixel(0.1, Color::Red));
    canvas.set_pixel_toi(7, 7, pixel(0.1, Color::Red), scalar(1.0));
    canvas.set_toi(3, 1, scalar(1.0));
    assert_eq!(*canvas.pixel_buffer(), before);
    assert!(canvas.toi_buffer().iter().all(|t| *t == Scalar::infinity()));
    assert_eq!(canvas.pixel_to_index(3, 1), Err(CanvasError::PixelOutOfRange { x: 3, y: 1 }));
    assert_eq!(canvas.pixel_to_index(0, 2), Err(CanvasError::PixelOutOfRange { x: 0, y: 2 }));
    assert_eq!(canvas.pixel_to_index(2, 1), Ok(5));
    assert_eq!(canvas.pixel_to_index(0, 0), Ok(0));
}

#[test]
fn the_frame_is_stale_until_it_is_updated() {
    let mut canvas = Canvas::new(2, 1, BasicAsciiRasterizer::default());
    canvas.set_pixel(1, 0, pixel(0.15, Color::Red));
    assert_eq!(text(&canvas), "  \n");
    canvas.update_frame();
    assert_eq!(text(&canvas), " @\n");
    canvas.flush_buffers();
    canvas.update_frame();
    assert_eq!(text(&canvas), "  \n");
}

#[test]
fn resizing_blanks_the_canvas() {
    let mut canvas = Canvas::new(2, 1, BasicAsciiRasterizer::default());
    canvas.set_pixel_toi(1, 0, pixel(0.15, Color::Red), scalar(2.0));
    canvas.set_bg_pixel(pixel(0.15, Color::Yellow));
    canvas.resize(3, 3);
    assert_eq!(canvas.render_width(), 3);
    assert_eq!(canvas.render_height(), 3);
    assert_eq!(canvas.pixel_buffer().len(), 9);
    assert!(canvas.pixel_buffer().iter().all(|p| *p == pixel(0.15, Color::Yellow)));
    assert!(canvas.toi_buffer().iter().all(|t| *t == Scalar::infinity()));
    assert_eq!(text(&canvas), "@@@\n@@@\n@@@\n");
    canvas.resize(0, 0);
    assert!(canvas.frame_buffer().is_empty());
}

#[test]
fn blocks_of_one_pixel_are_the_pixels() {
    let mut canvas = Canvas::new(2, 2, BasicAsciiRasterizer::default());
    canvas.set_pixel(1, 0, pixel(0.15, Color::Red));
    let chunks = canvas.pixels_as_grid_chunks();
    assert_eq!(chunks.len(), 4);
    assert_eq!(chunks[1], vec![pixel(0.15, Color::Red)]);
    assert_eq!(chunks[0], vec![canvas.bg_pixel()]);
    assert_eq!(canvas.rasterizer().background_char(), ' ');
}
