use pdb_tui::ascii::ssim::SsimError;
use pdb_tui::rasterizer::Color;
use pdb_tui::read::{carbon_radius, PDBStructure};
use pdb_tui::scalar::Scalar;
use pdb_tui::scene::{recolor, DepthBounds, SceneProjection};
use pdb_tui::screenshot::flip_rows;
use pdb_tui::surface::triples;

fn scalar(value: f32) -> Scalar {
    Scalar::from_bits(value.to_bits())
}

fn bounds(min_z: f32, max_z: f32) -> DepthBounds {
    DepthBounds { min_z: scalar(min_z), max_z: scalar(max_z) }
}

fn projection() -> SceneProjection {
    SceneProjection::new(scalar(1.0), scalar(100.0), scalar(16.0 / 9.0 / 2.0), scalar(0.785))
}

#[test]
fn the_view_reaches_from_the_nearest_to_the_farthest_shape() {
    let mut p = projection();
    p.update_for_shapes(&[bounds(-3.0, 4.0), bounds(-7.5, 1.0), bounds(2.0, 12.0)]);
    assert_eq!(p.znear, scalar(-7.5));
    assert_eq!(p.zfar, scalar(12.0));
    assert_eq!(p.aspect, scalar(16.0 / 9.0 / 2.0));
    assert_eq!(p.fovy, scalar(0.785));
    p.update_for_shapes(&[bounds(5.0, 6.0)]);
    assert_eq!((p.znear, p.zfar), (scalar(5.0), scalar(6.0)));
}

#[test]
fn without_shapes_the_view_reaches_from_one_to_a_hundred() {
    let mut p = SceneProjection::new(scalar(3.0), scalar(4.0), scalar(1.0), scalar(1.0));
    p.update_for_shapes(&[]);
    assert_eq!(p.znear, scalar(1.0));
    assert_eq!(p.zfar, scalar(100.0));
}

#[test]
fn ends_that_are_no_numbers_are_passed_over() {
    let mut p = projection();
    p.update_for_shapes(&[bounds(f32::NAN, f32::NAN), bounds(-2.0, 3.0), bounds(f32::NAN, 1.0)]);
    assert_eq!((p.znear, p.zfar), (scalar(-2.0), scalar(3.0)));
}

#[test]
fn shapes_are_coloured_in_turn() {
    let mut colors = vec![Color::Black; 8];
    recolor(&mut colors);
    assert_eq!(
        colors,
        vec![
            Color::Red,
            Color::Green,
            Color::Yellow,
            Color::Blue,
            Color::Magenta,
            Color::Cyan,
            Color::Red,
            Color::Green
        ]
    );
    let mut none: Vec<Color> = vec![];
    recolor(&mut none);
    assert!(none.is_empty());
}

#[test]
fn indices_and_coordinates_are_grouped_in_threes() {
    assert_eq!(triples(&[0u32, 1, 2, 2, 3, 0]), vec![[0, 1, 2], [2, 3, 0]]);
    assert_eq!(triples::<u32>(&[]), Vec::<[u32; 3]>::new());
    let points = triples(&[scalar(0.5), scalar(1.5), scalar(-2.0)]);
    assert_eq!(points, vec![[scalar(0.5), scalar(1.5), scalar(-2.0)]]);
}

#[test]
fn pictures_are_turned_upside_down_for_a_file() {
    assert_eq!(flip_rows(3, 2, vec![1, 2, 3, 4, 5, 6]), Some(vec![4, 5, 6, 1, 2, 3]));
    assert_eq!(
        flip_rows(2, 3, vec![1, 2, 3, 4, 5, 6]),
        Some(vec![5, 6, 3, 4, 1, 2])
    );
    assert_eq!(flip_rows(1, 1, vec![9]), Some(vec![9]));
    assert_eq!(flip_rows(0, 5, vec![]), Some(vec![]));
    assert_eq!(flip_rows(3, 2, vec![1, 2, 3, 4, 5]), None);
    assert_eq!(flip_rows(3, 2, vec![1, 2, 3, 4, 5, 6, 7]), None);
}

#[test]
fn unequal_lengths_are_an_error_in_words() {
    assert_eq!(SsimError::check_lengths(3, 4), Err(SsimError::UnequalLengths));
    assert_eq!(SsimError::check_lengths(4, 4), Ok(()));
    assert_eq!(SsimError::UnequalLengths.message(), "Input slices must have the same length.");
}

#[test]
fn atoms_are_balls_of_radius_three() {
    assert_eq!(carbon_radius(), scalar(3.0));
    assert_eq!(PDBStructure { chains: 2 }.chains, 2);
}
