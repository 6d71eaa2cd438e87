use color_walk::arrange::run;
use color_walk::color::color_base_to_color;
use color_walk::config::ConfigError;
use color_walk::grid::initialize;
use color_walk::random::RandomStream;
use color_walk::render::{make_image, render};
use color_walk::torus::Location;
use image::{Rgb, RgbImage};
use std::collections::HashSet;

#[test]
fn render_shows_every_cell() {
    let mut rng = RandomStream::from_seed(6);
    let grid = initialize(2, &mut rng);
    let bytes = render(&grid).into_raw();
    assert_eq!(bytes.len(), 3 * 8 * 8);
    let img = RgbImage::from_raw(8, 8, bytes).unwrap();
    for row in 0..8usize {
        for col in 0..8usize {
            let color = color_base_to_color(grid.at(Location { row, col }), 4);
            assert_eq!(img.get_pixel(row as u32, col as u32), &Rgb([color.r, color.g, color.b]));
        }
    }
}

#[test]
fn render_lays_bytes_out_row_after_row() {
    let mut rng = RandomStream::from_seed(6);
    let grid = initialize(3, &mut rng);
    let bytes = render(&grid).into_raw();
    assert_eq!(bytes.len(), 3 * 27 * 27);
    for x in 0..27usize {
        for y in 0..27usize {
            let color = color_base_to_color(grid.at(Location { row: x, col: y }), 9);
            let at = 3 * (y * 27 + x);
            assert_eq!(&bytes[at..at + 3], &[color.r, color.g, color.b]);
        }
    }
}

#[test]
fn render_is_not_left_blank() {
    let mut rng = RandomStream::from_seed(6);
    let grid = initialize(2, &mut rng);
    let bytes = render(&grid).into_raw();
    assert!(bytes.iter().any(|b| *b != 0));
    assert!(bytes.iter().all(|b| [0u8, 85, 170, 255].contains(b)));
}

#[test]
fn picture_shows_every_color_once() {
    let bytes = make_image(2, 100, 1, 42).unwrap().into_raw();
    let pixels: HashSet<&[u8]> = bytes.chunks(3).collect();
    assert_eq!(bytes.len(), 3 * 64);
    assert_eq!(pixels.len(), 64);
    let bytes = make_image(3, 1000, 2, 1).unwrap().into_raw();
    let pixels: HashSet<&[u8]> = bytes.chunks(3).collect();
    assert_eq!(pixels.len(), 729);
}

#[test]
fn picture_is_the_rendered_run() {
    let picture = make_image(3, 2000, 2, 5).unwrap().into_raw();
    let grid = run(3, 2000, 2, 5).unwrap();
    assert_eq!(picture, render(&grid).into_raw());
}

#[test]
fn picture_of_a_refused_configuration() {
    assert_eq!(make_image(1, 10, 1, 0).err(), Some(ConfigError::ScaleTooSmall));
    assert_eq!(make_image(17, 10, 1, 0).err(), Some(ConfigError::ScaleTooLarge));
    assert_eq!(make_image(2, 10, 0, 0).err(), Some(ConfigError::NoSwapDistance));
    assert_eq!(make_image(2, 10, usize::MAX, 0).err(), Some(ConfigError::SwapDistanceTooLarge));
}
