use canvas_replay::canvas::{put_pixel, Canvas, Viewport, FRAME_RATE};
use canvas_replay::error::ConfigurationError;
use canvas_replay::event::Shape;

fn canvas(x1: i32, y1: i32, x2: i32, y2: i32) -> Canvas {
    Canvas::new(Viewport::new(x1, y1, x2, y2).unwrap())
}

fn cell(frame: &[u8], window: &Viewport, x: i32, y: i32) -> [u8; 4] {
    let width = (window.x2 - window.x1 + 1) as usize;
    let at = ((y - window.y1) as usize * width + (x - window.x1) as usize) * 4;
    [frame[at], frame[at + 1], frame[at + 2], frame[at + 3]]
}

const WHITE: [u8; 4] = [0xff, 0xff, 0xff, 0xff];

#[test]
fn viewport_counts_both_corners() {
    let window = Viewport::new(148, 172, 148 + 135, 172 + 93).unwrap();
    assert_eq!(window.columns(), 136);
    assert_eq!(window.rows(), 94);
    assert!(window.holds(148, 172));
    assert!(window.holds(283, 265));
    assert!(!window.holds(147, 172));
    assert!(!window.holds(148, 266));
}

#[test]
fn viewport_of_one_cell() {
    let window = Viewport::new(-7, 9, -7, 9).unwrap();
    assert_eq!(window.columns(), 1);
    assert_eq!(window.rows(), 1);
    assert_eq!(Canvas::new(window).snapshot(), vec![0xff; 4]);
}

#[test]
fn viewport_rejects_inverted_corners() {
    assert_eq!(Viewport::new(5, 0, 4, 0), Err(ConfigurationError::InvertedViewport));
    assert_eq!(Viewport::new(0, 5, 0, 4), Err(ConfigurationError::InvertedViewport));
}

#[test]
fn viewport_rejects_a_frame_that_cannot_be_addressed() {
    assert_eq!(
        Viewport::new(i32::MIN, i32::MIN, i32::MAX, i32::MAX),
        Err(ConfigurationError::ViewportTooLarge)
    );
}

#[test]
fn the_sink_is_told_sixty_frames_a_second() {
    assert_eq!(FRAME_RATE, 60);
}

#[test]
fn new_canvas_is_opaque_white() {
    let c = canvas(-1500, -1000, -1491, -996);
    let frame = c.snapshot();
    assert_eq!(frame.len(), 10 * 5 * 4);
    assert!(frame.iter().all(|b| *b == 0xff));
}

#[test]
fn set_pixel_writes_red_green_blue_and_full_alpha() {
    let mut c = canvas(10, 20, 13, 22);
    c.set_pixel(11, 21, 0x00123456);
    let frame = c.snapshot();
    // row 1, column 1 of a frame 4 cells wide
    let at = (1 * 4 + 1) * 4;
    assert_eq!(&frame[at..at + 4], &[0x12, 0x34, 0x56, 0xff]);
    for (i, b) in frame.iter().enumerate() {
        if i < at || i >= at + 4 {
            assert_eq!(*b, 0xff);
        }
    }
}

#[test]
fn set_pixel_ignores_the_top_byte_of_the_colour() {
    let mut a = canvas(0, 0, 1, 1);
    let mut b = canvas(0, 0, 1, 1);
    a.set_pixel(1, 0, 0x00ff4500);
    b.set_pixel(1, 0, 0x7fff4500);
    assert_eq!(a.snapshot(), b.snapshot());
    assert_eq!(cell(&a.snapshot(), &a.viewport(), 1, 0), [0xff, 0x45, 0x00, 0xff]);
}

#[test]
fn set_pixel_outside_the_viewport_changes_nothing() {
    let mut c = canvas(0, 0, 3, 3);
    c.set_pixel(1, 1, 0x0000ff);
    let before = c.snapshot();
    for (x, y) in [
        (-1, 0),
        (0, -1),
        (4, 0),
        (0, 4),
        (4, 4),
        (-1, -1),
        (i32::MIN, i32::MIN),
        (i32::MAX, i32::MAX),
        (i32::MAX, 0),
        (0, i32::MIN),
    ] {
        c.set_pixel(x, y, 0x123456);
        assert_eq!(c.snapshot(), before);
    }
}

#[test]
fn set_pixel_overwrites_what_was_there() {
    let mut c = canvas(0, 0, 2, 2);
    c.set_pixel(2, 2, 0x111111);
    c.set_pixel(2, 2, 0xabcdef);
    assert_eq!(cell(&c.snapshot(), &c.viewport(), 2, 2), [0xab, 0xcd, 0xef, 0xff]);
}

#[test]
fn put_pixel_writes_into_a_raw_frame() {
    let mut frame = vec![0u8; 3 * 2 * 4];
    put_pixel(&mut frame, 102, 51, 0xa1b2c3, 100, 50, 3, 2);
    let at = (1 * 3 + 2) * 4;
    assert_eq!(&frame[at..at + 4], &[0xa1, 0xb2, 0xc3, 0xff]);
    assert_eq!(frame.iter().filter(|b| **b != 0).count(), 4);
}

#[test]
fn put_pixel_drops_a_write_outside_the_frame() {
    let mut frame = vec![7u8; 3 * 2 * 4];
    put_pixel(&mut frame, 103, 50, 0xa1b2c3, 100, 50, 3, 2);
    put_pixel(&mut frame, 99, 50, 0xa1b2c3, 100, 50, 3, 2);
    put_pixel(&mut frame, 100, 52, 0xa1b2c3, 100, 50, 3, 2);
    put_pixel(&mut frame, 100, 49, 0xa1b2c3, 100, 50, 3, 2);
    assert_eq!(frame, vec![7u8; 3 * 2 * 4]);
}

#[test]
fn fill_rectangle_paints_both_corners_and_all_between() {
    let mut c = canvas(0, 0, 7, 7);
    c.fill_rectangle((2, 2), (5, 5), 0x00ff00);
    let frame = c.snapshot();
    let window = c.viewport();
    let mut painted = 0;
    for y in 0..8 {
        for x in 0..8 {
            let inside = (2..=5).contains(&x) && (2..=5).contains(&y);
            if inside {
                painted += 1;
                assert_eq!(cell(&frame, &window, x, y), [0x00, 0xff, 0x00, 0xff]);
            } else {
                assert_eq!(cell(&frame, &window, x, y), WHITE);
            }
        }
    }
    assert_eq!(painted, 16);
}

#[test]
fn fill_rectangle_does_not_depend_on_the_order_of_the_corners() {
    let mut a = canvas(0, 0, 7, 7);
    let mut b = canvas(0, 0, 7, 7);
    let mut c = canvas(0, 0, 7, 7);
    let mut d = canvas(0, 0, 7, 7);
    a.fill_rectangle((2, 2), (5, 5), 0x336699);
    b.fill_rectangle((5, 5), (2, 2), 0x336699);
    c.fill_rectangle((2, 5), (5, 2), 0x336699);
    d.fill_rectangle((5, 2), (2, 5), 0x336699);
    assert_eq!(a.snapshot(), b.snapshot());
    assert_eq!(a.snapshot(), c.snapshot());
    assert_eq!(a.snapshot(), d.snapshot());
}

#[test]
fn fill_rectangle_is_cut_at_the_viewport() {
    let mut c = canvas(0, 0, 3, 3);
    c.fill_rectangle((-10, 2), (1, 100), 0x010203);
    let frame = c.snapshot();
    let window = c.viewport();
    for y in 0..4 {
        for x in 0..4 {
            let want = if x <= 1 && y >= 2 { [1, 2, 3, 0xff] } else { WHITE };
            assert_eq!(cell(&frame, &window, x, y), want);
        }
    }
}

#[test]
fn fill_rectangle_outside_the_viewport_changes_nothing() {
    let mut c = canvas(0, 0, 3, 3);
    let before = c.snapshot();
    c.fill_rectangle((4, 0), (9, 3), 0x010203);
    c.fill_rectangle((i32::MIN, i32::MIN), (-1, i32::MAX), 0x010203);
    assert_eq!(c.snapshot(), before);
}

#[test]
fn fill_rectangle_over_the_whole_world_fills_the_viewport() {
    let mut c = canvas(-2, -2, 2, 2);
    c.fill_rectangle((i32::MAX, i32::MIN), (i32::MIN, i32::MAX), 0x000000);
    let frame = c.snapshot();
    assert_eq!(frame.len(), 100);
    for px in frame.chunks(4) {
        assert_eq!(px, &[0, 0, 0, 0xff]);
    }
}

#[test]
fn fill_circle_of_radius_two_paints_the_disk() {
    let mut c = canvas(-4, -4, 4, 4);
    c.fill_circle((0, 0), 2, 0xff0000);
    let frame = c.snapshot();
    let window = c.viewport();
    let mut painted = 0;
    for y in -4..=4 {
        for x in -4..=4 {
            if x * x + y * y <= 4 {
                painted += 1;
                assert_eq!(cell(&frame, &window, x, y), [0xff, 0x00, 0x00, 0xff]);
            } else {
                assert_eq!(cell(&frame, &window, x, y), WHITE);
            }
        }
    }
    assert_eq!(painted, 13);
}

#[test]
fn fill_circle_of_radius_zero_paints_the_centre() {
    let mut c = canvas(0, 0, 2, 2);
    c.fill_circle((1, 1), 0, 0x0a0b0c);
    let frame = c.snapshot();
    let window = c.viewport();
    for y in 0..3 {
        for x in 0..3 {
            let want = if (x, y) == (1, 1) { [0x0a, 0x0b, 0x0c, 0xff] } else { WHITE };
            assert_eq!(cell(&frame, &window, x, y), want);
        }
    }
}

#[test]
fn fill_circle_with_a_negative_radius_paints_nothing() {
    let mut c = canvas(0, 0, 2, 2);
    let before = c.snapshot();
    c.fill_circle((1, 1), -1, 0x0a0b0c);
    c.fill_circle((1, 1), i32::MIN, 0x0a0b0c);
    assert_eq!(c.snapshot(), before);
}

#[test]
fn fill_circle_is_cut_at_the_viewport() {
    let mut c = canvas(0, 0, 3, 3);
    c.fill_circle((0, 0), 2, 0x0000ff);
    let frame = c.snapshot();
    let window = c.viewport();
    for y in 0..4 {
        for x in 0..4 {
            let want = if x * x + y * y <= 4 { [0, 0, 0xff, 0xff] } else { WHITE };
            assert_eq!(cell(&frame, &window, x, y), want);
        }
    }
}

#[test]
fn fill_circle_with_the_largest_radius_fills_the_viewport() {
    let mut c = canvas(-1, -1, 1, 1);
    c.fill_circle((i32::MAX, i32::MIN), i32::MAX, 0x445566);
    assert_eq!(c.snapshot(), vec![0xff; 36]);
    c.fill_circle((0, 0), i32::MAX - 1, 0x445566);
    for px in c.snapshot().chunks(4) {
        assert_eq!(px, &[0x44, 0x55, 0x66, 0xff]);
    }
}

#[test]
fn snapshot_is_independent_of_later_writes() {
    let mut c = canvas(0, 0, 1, 1);
    let first = c.snapshot();
    c.set_pixel(0, 0, 0x000000);
    let second = c.snapshot();
    assert_eq!(first, vec![0xff; 16]);
    assert_ne!(first, second);
    assert_eq!(&second[0..4], &[0, 0, 0, 0xff]);
}

#[test]
fn shape_contains_agrees_with_what_is_painted() {
    let point = Shape::Point { x: 3, y: -3 };
    assert!(point.contains(3, -3));
    assert!(!point.contains(3, 3));
    let disk = Shape::Circle { cx: 10, cy: 10, radius: 5 };
    assert!(disk.contains(13, 14));
    assert!(disk.contains(15, 10));
    assert!(!disk.contains(14, 14));
    assert!(!disk.contains(16, 10));
    let far = Shape::Circle { cx: i32::MIN, cy: i32::MIN, radius: i32::MAX };
    assert!(!far.contains(i32::MAX, i32::MAX));
    assert!(far.contains(-1, i32::MIN));
    assert!(!far.contains(0, i32::MIN));
    let none = Shape::Circle { cx: 0, cy: 0, radius: -3 };
    assert!(!none.contains(0, 0));
    let rect = Shape::Rectangle { ax: 5, ay: -1, bx: 2, by: -4 };
    assert!(rect.contains(2, -4));
    assert!(rect.contains(5, -1));
    assert!(rect.contains(3, -2));
    assert!(!rect.contains(6, -1));
    assert!(!rect.contains(2, 0));
}
