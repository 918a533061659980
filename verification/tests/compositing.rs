use aesor::color::Color;
use aesor::compose::draw;
use aesor::raster::Raster;
use std::cell::RefCell;

const CLEAR: Color = Color { r: 0, g: 0, b: 0, a: 0 };

fn filled(width: u32, height: u32, c: Color) -> Raster {
    let mut raster = Raster::new(width, height).unwrap();
    for y in 0..height {
        for x in 0..width {
            assert!(raster.put_pixel(x, y, c));
        }
    }
    raster
}

fn pixels(raster: &Raster) -> Vec<Color> {
    let (width, height) = raster.dimensions();
    let mut all = Vec::new();
    for y in 0..height {
        for x in 0..width {
            all.push(raster.get_pixel(x, y).unwrap());
        }
    }
    all
}

#[test]
fn draw_leaves_unshaded_pixels_untouched() {
    let ground = Color { r: 10, g: 20, b: 30, a: 40 };
    let mut raster = filled(3, 2, ground);
    draw(&mut raster, |_, _| None);
    assert_eq!(raster.dimensions(), (3, 2));
    assert_eq!(pixels(&raster), vec![ground; 6]);
}

#[test]
fn draw_touches_only_the_shaded_pixel() {
    let ground = Color { r: 10, g: 20, b: 30, a: 255 };
    let red = Color { r: 255, g: 0, b: 0, a: 255 };
    let mut raster = filled(3, 2, ground);
    draw(&mut raster, |x, y| if (x, y) == (1, 1) { Some(red) } else { None });
    assert_eq!(pixels(&raster), vec![ground, ground, ground, ground, red, ground]);
}

#[test]
fn draw_opaque_colour_replaces_pixel() {
    let mut raster = filled(1, 1, Color { r: 10, g: 20, b: 30, a: 40 });
    let over = Color { r: 200, g: 100, b: 50, a: 255 };
    draw(&mut raster, |_, _| Some(over));
    assert_eq!(raster.get_pixel(0, 0), Some(over));
}

#[test]
fn draw_transparent_colour_keeps_pixel() {
    let ground = Color { r: 10, g: 20, b: 30, a: 40 };
    let mut raster = filled(1, 1, ground);
    draw(&mut raster, |_, _| Some(Color { r: 200, g: 100, b: 50, a: 0 }));
    assert_eq!(raster.get_pixel(0, 0), Some(ground));
}

#[test]
fn draw_translucent_colour_blends_source_over() {
    let mut raster = filled(1, 1, Color { r: 10, g: 20, b: 30, a: 255 });
    draw(&mut raster, |_, _| Some(Color { r: 200, g: 100, b: 50, a: 128 }));
    assert_eq!(raster.get_pixel(0, 0), Some(Color { r: 105, g: 60, b: 40, a: 254 }));
}

#[test]
fn draw_translucent_colour_onto_clear_pixel() {
    let mut raster = Raster::new(1, 1).unwrap();
    draw(&mut raster, |_, _| Some(Color { r: 255, g: 255, b: 255, a: 128 }));
    assert_eq!(raster.get_pixel(0, 0), Some(Color { r: 255, g: 255, b: 255, a: 128 }));
}

#[test]
fn draw_translucent_colour_onto_translucent_pixel() {
    let mut raster = filled(1, 1, Color { r: 12, g: 34, b: 56, a: 78 });
    draw(&mut raster, |_, _| Some(Color { r: 90, g: 120, b: 150, a: 200 }));
    assert_eq!(raster.get_pixel(0, 0), Some(Color { r: 83, g: 113, b: 142, a: 216 }));
}

#[test]
fn draw_faint_black_darkens_white() {
    let mut raster = filled(1, 1, Color { r: 255, g: 255, b: 255, a: 255 });
    draw(&mut raster, |_, _| Some(Color { r: 0, g: 0, b: 0, a: 1 }));
    assert_eq!(raster.get_pixel(0, 0), Some(Color { r: 254, g: 254, b: 254, a: 255 }));
}

#[test]
fn draw_asks_every_pixel_once_row_by_row() {
    let mut raster = Raster::new(3, 2).unwrap();
    let asked = RefCell::new(Vec::new());
    draw(&mut raster, |x, y| {
        asked.borrow_mut().push((x, y));
        None
    });
    assert_eq!(asked.into_inner(), vec![(0, 0), (1, 0), (2, 0), (0, 1), (1, 1), (2, 1)]);
}

#[test]
fn draw_on_raster_without_pixels_asks_nothing() {
    let mut raster = Raster::new(0, 4).unwrap();
    let asked = RefCell::new(0);
    draw(&mut raster, |_, _| {
        *asked.borrow_mut() += 1;
        Some(Color { r: 1, g: 2, b: 3, a: 255 })
    });
    assert_eq!(asked.into_inner(), 0);
    assert_eq!(raster.dimensions(), (0, 4));
}

#[test]
fn draw_gives_each_pixel_its_own_colour() {
    let mut raster = Raster::new(2, 2).unwrap();
    draw(&mut raster, |x, y| Some(Color { r: x as u8, g: y as u8, b: 7, a: 255 }));
    assert_eq!(
        pixels(&raster),
        vec![
            Color { r: 0, g: 0, b: 7, a: 255 },
            Color { r: 1, g: 0, b: 7, a: 255 },
            Color { r: 0, g: 1, b: 7, a: 255 },
            Color { r: 1, g: 1, b: 7, a: 255 },
        ]
    );
}

#[test]
fn draw_saturated_layer_twice_equals_once() {
    let ground = Color { r: 10, g: 20, b: 30, a: 40 };
    let shade = |x: u32, y: u32| match (x + y) % 3 {
        0 => Some(Color { r: 200, g: 100, b: 50, a: 255 }),
        1 => Some(Color { r: 1, g: 2, b: 3, a: 0 }),
        _ => None,
    };
    let mut once = filled(3, 3, ground);
    draw(&mut once, shade);
    let mut twice = filled(3, 3, ground);
    draw(&mut twice, shade);
    draw(&mut twice, shade);
    assert_eq!(pixels(&once), pixels(&twice));
}

#[test]
fn draw_translucent_layer_twice_differs_from_once() {
    let shade = |_: u32, _: u32| Some(Color { r: 255, g: 255, b: 255, a: 128 });
    let mut raster = filled(1, 1, Color { r: 0, g: 0, b: 0, a: 255 });
    draw(&mut raster, shade);
    assert_eq!(raster.get_pixel(0, 0), Some(Color { r: 128, g: 128, b: 128, a: 254 }));
    draw(&mut raster, shade);
    assert_ne!(raster.get_pixel(0, 0), Some(Color { r: 128, g: 128, b: 128, a: 254 }));
}

#[test]
fn draw_order_shows_in_the_result() {
    let red = Color { r: 255, g: 0, b: 0, a: 255 };
    let blue = Color { r: 0, g: 0, b: 255, a: 255 };
    let mut red_last = Raster::new(1, 1).unwrap();
    draw(&mut red_last, |_, _| Some(blue));
    draw(&mut red_last, |_, _| Some(red));
    let mut blue_last = Raster::new(1, 1).unwrap();
    draw(&mut blue_last, |_, _| Some(red));
    draw(&mut blue_last, |_, _| Some(blue));
    assert_eq!(red_last.get_pixel(0, 0), Some(red));
    assert_eq!(blue_last.get_pixel(0, 0), Some(blue));
}

#[test]
fn draw_onto_fresh_raster_starts_from_clear() {
    let mut raster = Raster::new(2, 1).unwrap();
    draw(&mut raster, |x, _| if x == 0 { Some(Color { r: 5, g: 6, b: 7, a: 255 }) } else { None });
    assert_eq!(pixels(&raster), vec![Color { r: 5, g: 6, b: 7, a: 255 }, CLEAR]);
}
