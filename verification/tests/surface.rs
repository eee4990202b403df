use pixel_life::color::{blue, green, pack_rgb, red};
use pixel_life::fractal::Fractal;
use pixel_life::framebuffer::{
    Dispatch, Event, Framebuffer, PlatformFramebuffer, SurfaceError,
};
use pixel_life::game::Game;
use pixel_life::paint::fill_rect;
use std::cell::Cell;
use std::rc::Rc;

type Listener = Box<dyn Fn()>;

fn open(width: u32, height: u32) -> PlatformFramebuffer<Listener> {
    PlatformFramebuffer::create_window("test", width, height).unwrap()
}

fn count(fb: &PlatformFramebuffer<Listener>, color: u32) -> usize {
    fb.pixels().iter().filter(|&&pixel| pixel == color).count()
}

#[test]
fn create_window_opens_a_blank_running_surface() {
    let fb = open(8, 6);
    assert_eq!(fb.title(), "test");
    assert_eq!(fb.width(), 8);
    assert_eq!(fb.height(), 6);
    assert_eq!(fb.pixels().len(), 48);
    assert_eq!(count(&fb, 0), 48);
    assert!(fb.is_running());
    assert!(fb.keydown_listener(0x1B).is_none());
}

#[test]
fn create_window_allows_an_empty_surface() {
    let fb = open(0, 6);
    assert_eq!(fb.pixels().len(), 0);
    assert!(fb.is_running());
}

#[test]
fn create_window_refuses_a_surface_that_is_too_large() {
    let refused = PlatformFramebuffer::<Listener>::create_window("big", 0x8000, 0x8000);
    assert!(matches!(refused, Err(SurfaceError::Allocation)));
    let refused = PlatformFramebuffer::<Listener>::create_window("big", u32::MAX, u32::MAX);
    assert!(matches!(refused, Err(SurfaceError::Allocation)));
    let refused = PlatformFramebuffer::<Listener>::create_window("big", 0x2000_0000, 1);
    assert!(matches!(refused, Err(SurfaceError::Allocation)));
}

#[test]
fn write_pixel_lands_at_its_row_major_offset() {
    let mut fb = open(5, 4);
    fb.write_pixel(3, 2, 0x00AB_CDEF);
    assert_eq!(fb.pixels()[2 * 5 + 3], 0x00AB_CDEF);
    assert_eq!(fb.read_pixel(3, 2), 0x00AB_CDEF);
    assert_eq!(count(&fb, 0), 19);
    fb.write_pixel(0, 0, 1);
    fb.write_pixel(4, 3, 2);
    assert_eq!(fb.pixels()[0], 1);
    assert_eq!(fb.pixels()[19], 2);
    assert_eq!(fb.read_pixel(2, 3), 0);
}

#[test]
fn later_listener_replaces_the_earlier_one() {
    let first = Rc::new(Cell::new(0u32));
    let second = Rc::new(Cell::new(0u32));
    let mut fb = open(2, 2);
    let seen = Rc::clone(&first);
    fb.register_keydown_listener(0x20, Box::new(move || seen.set(seen.get() + 1)));
    let seen = Rc::clone(&second);
    fb.register_keydown_listener(0x20, Box::new(move || seen.set(seen.get() + 1)));

    assert_eq!(fb.handle_event(Event::KeyDown(0x20)), Dispatch::Invoke(0x20));
    let listener = fb.keydown_listener(0x20).unwrap();
    listener();
    assert_eq!(first.get(), 0);
    assert_eq!(second.get(), 1);
}

#[test]
fn unregistered_key_reaches_no_listener() {
    let called = Rc::new(Cell::new(false));
    let mut fb = open(2, 2);
    let seen = Rc::clone(&called);
    fb.register_keydown_listener(0x0D, Box::new(move || seen.set(true)));
    assert_eq!(fb.handle_event(Event::KeyDown(0x25)), Dispatch::Ignore);
    assert!(fb.keydown_listener(0x25).is_none());
    assert_eq!(fb.handle_event(Event::Other), Dispatch::Ignore);
    assert!(!called.get());
    assert!(fb.is_running());
}

#[test]
fn listeners_of_other_keys_are_kept() {
    let hits = Rc::new(Cell::new(0u32));
    let mut fb = open(2, 2);
    let seen = Rc::clone(&hits);
    fb.register_keydown_listener(0x25, Box::new(move || seen.set(seen.get() + 1)));
    let seen = Rc::clone(&hits);
    fb.register_keydown_listener(0x27, Box::new(move || seen.set(seen.get() + 10)));
    assert_eq!(fb.handle_event(Event::KeyDown(0x25)), Dispatch::Invoke(0x25));
    (fb.keydown_listener(0x25).unwrap())();
    assert_eq!(hits.get(), 1);
    assert_eq!(fb.handle_event(Event::KeyDown(0x27)), Dispatch::Invoke(0x27));
    (fb.keydown_listener(0x27).unwrap())();
    assert_eq!(hits.get(), 11);
}

#[test]
fn quit_event_stops_the_surface() {
    let mut fb = open(2, 2);
    assert_eq!(fb.handle_event(Event::Quit), Dispatch::Stop);
    assert!(!fb.is_running());
    assert_eq!(fb.handle_event(Event::Other), Dispatch::Ignore);
    assert!(!fb.is_running());
}

#[test]
fn failed_copy_stops_the_surface() {
    let mut fb = open(2, 2);
    fb.presented(true);
    assert!(fb.is_running());
    fb.presented(false);
    assert!(!fb.is_running());
    fb.presented(true);
    assert!(!fb.is_running());
}

#[test]
fn stop_is_idempotent() {
    let mut fb = open(2, 2);
    fb.write_pixel(1, 1, 9);
    fb.stop();
    assert!(!fb.is_running());
    fb.stop();
    assert!(!fb.is_running());
    assert_eq!(fb.read_pixel(1, 1), 9);
}

#[test]
fn fill_rect_fills_exactly_the_rectangle() {
    let mut fb = open(6, 5);
    fill_rect(&mut fb, 1, 2, 3, 2, 7);
    for y in 0..5 {
        for x in 0..6 {
            let inside = (1..4).contains(&x) && (2..4).contains(&y);
            assert_eq!(fb.read_pixel(x, y), if inside { 7 } else { 0 });
        }
    }
    fill_rect(&mut fb, 0, 0, 0, 5, 9);
    fill_rect(&mut fb, 0, 0, 6, 0, 9);
    assert_eq!(count(&fb, 9), 0);
    fill_rect(&mut fb, 0, 0, 6, 5, 9);
    assert_eq!(count(&fb, 9), 30);
}

#[test]
fn render_tile_fills_the_square_of_its_cell() {
    let game = Game::new(3, 2, 4, 0, 0);
    let mut fb = open(12, 8);
    game.render_tile(&mut fb, 5, 2, 1);
    for y in 0..8 {
        for x in 0..12 {
            let inside = (8..12).contains(&x) && (4..8).contains(&y);
            assert_eq!(fb.read_pixel(x, y), if inside { 5 } else { 0 });
        }
    }
}

#[test]
fn render_paints_living_cells_from_the_palette_and_dead_cells_black() {
    let mut game = Game::new(3, 2, 2, 0, 0);
    game.set_tile(true, 0, 0);
    game.set_tile(true, 2, 1);
    let palette: Vec<u32> = vec![0x11, 0x22, 0x33, 0x44, 0x55, 0x66];
    let mut fb = open(7, 5);
    fill_rect(&mut fb, 0, 0, 7, 5, 0xEE);
    game.render(&mut fb, &palette);
    for y in 0..5u32 {
        for x in 0..7u32 {
            let expected = if x >= 6 || y >= 4 {
                0xEE
            } else if (x / 2, y / 2) == (0, 0) {
                0x11
            } else if (x / 2, y / 2) == (2, 1) {
                0x66
            } else {
                0
            };
            assert_eq!(fb.read_pixel(x, y), expected, "pixel ({x}, {y})");
        }
    }
}

#[test]
fn render_shows_the_current_generation_after_an_update() {
    let mut game = Game::new(5, 5, 1, 0, 0);
    game.set_tile(true, 1, 2);
    game.set_tile(true, 2, 2);
    game.set_tile(true, 3, 2);
    game.update(1);
    let palette = vec![0xFFu32; 25];
    let mut fb = open(5, 5);
    game.render(&mut fb, &palette);
    let lit: Vec<usize> = (0..25).filter(|&i| fb.pixels()[i] == 0xFF).collect();
    assert_eq!(lit, vec![7, 12, 17]);
}

#[test]
fn render_with_tiles_of_no_size_paints_nothing() {
    let mut game = Game::new(2, 2, 0, 0, 0);
    game.set_tile(true, 0, 0);
    let mut fb = open(3, 3);
    fill_rect(&mut fb, 0, 0, 3, 3, 4);
    game.render(&mut fb, &vec![1, 2, 3, 4]);
    assert_eq!(count(&fb, 4), 9);
}

#[test]
fn fractal_rect_is_scaled_by_the_square_size() {
    let fractal = Fractal::new(3);
    assert_eq!(fractal.square_size(), 3);
    let mut fb = open(10, 10);
    fractal.render_rect(&mut fb, 2, 1, 2, 0xABC);
    for y in 0..10 {
        for x in 0..10 {
            let inside = (2..8).contains(&x) && (1..7).contains(&y);
            assert_eq!(fb.read_pixel(x, y), if inside { 0xABC } else { 0 });
        }
    }
}

#[test]
fn fractal_of_no_level_draws_nothing() {
    let fractal = Fractal::new(1);
    let mut fb = open(4, 4);
    fractal.render(&mut fb, 0, 1, 1, 2);
    assert_eq!(count(&fb, 0), 16);
}

#[test]
fn fractal_of_one_level_is_one_square() {
    let fractal = Fractal::new(1);
    let mut fb = open(16, 16);
    fractal.render(&mut fb, 1, 4, 5, 8);
    for y in 0..16 {
        for x in 0..16 {
            let inside = (4..12).contains(&x) && (5..13).contains(&y);
            assert_eq!(fb.read_pixel(x, y), if inside { 0xFFFFFF } else { 0 });
        }
    }
}

#[test]
fn fractal_of_two_levels_adds_a_square_around_each_corner() {
    let fractal = Fractal::new(1);
    let mut fb = open(24, 24);
    fractal.render(&mut fb, 2, 8, 8, 8);
    for y in 0..24u32 {
        for x in 0..24u32 {
            let first = (8..16).contains(&x) && (8..16).contains(&y);
            let around = [(6u32, 6u32), (10, 6), (10, 10), (6, 10)]
                .iter()
                .any(|&(left, top)| (left..left + 4).contains(&x) && (top..top + 4).contains(&y));
            let expected = if first || around { 0xFFFFFF } else { 0 };
            assert_eq!(fb.read_pixel(x, y), expected, "pixel ({x}, {y})");
        }
    }
}

#[test]
fn pack_rgb_puts_red_green_blue_below_an_empty_top_byte() {
    assert_eq!(pack_rgb(255, 0, 0), 0xFF0000);
    assert_eq!(pack_rgb(0, 255, 0), 0x00FF00);
    assert_eq!(pack_rgb(0, 0, 255), 0x0000FF);
    assert_eq!(pack_rgb(255, 255, 0), 0xFFFF00);
    assert_eq!(pack_rgb(0, 255, 255), 0x00FFFF);
    assert_eq!(pack_rgb(255, 0, 255), 0xFF00FF);
    assert_eq!(pack_rgb(0x12, 0x34, 0x56), 0x123456);
    assert_eq!(pack_rgb(0, 0, 0), 0);
    assert_eq!(pack_rgb(255, 255, 255), 0xFFFFFF);
}

#[test]
fn channels_come_back_out_of_a_colour() {
    let color = pack_rgb(0x12, 0x34, 0x56);
    assert_eq!((red(color), green(color), blue(color)), (0x12, 0x34, 0x56));
    assert_eq!((red(0xFFABCDEF), green(0xFFABCDEF), blue(0xFFABCDEF)), (0xAB, 0xCD, 0xEF));
}
