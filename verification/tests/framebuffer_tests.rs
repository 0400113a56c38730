use raycaster::color::Color;
use raycaster::framebuffer::Framebuffer;

fn rgba(r: u8, g: u8, b: u8) -> Color {
    Color { r, g, b, a: 255 }
}

#[test]
fn new_buffer_is_filled_with_background() {
    let bg = rgba(10, 20, 30);
    let fb = Framebuffer::new(4, 3, bg);
    assert_eq!(fb.width(), 4);
    assert_eq!(fb.height(), 3);
    for y in 0..3 {
        for x in 0..4 {
            assert_eq!(fb.get(x, y), bg);
        }
    }
}

#[test]
fn set_writes_one_pixel() {
    let bg = rgba(0, 0, 0);
    let red = rgba(255, 0, 0);
    let mut fb = Framebuffer::new(4, 4, bg);
    fb.set(2, 1, red);
    for y in 0..4 {
        for x in 0..4 {
            if (x, y) == (2, 1) {
                assert_eq!(fb.get(x, y), red);
            } else {
                assert_eq!(fb.get(x, y), bg);
            }
        }
    }
}

#[test]
fn out_of_bounds_writes_change_nothing_and_raise_no_error() {
    let bg = rgba(1, 2, 3);
    let red = rgba(255, 0, 0);
    let mut fb = Framebuffer::new(4, 3, bg);
    fb.set(1, 1, red);
    // just past each bound, and far past
    fb.set(4, 0, rgba(9, 9, 9));
    fb.set(0, 3, rgba(9, 9, 9));
    fb.set(usize::MAX, usize::MAX, rgba(9, 9, 9));
    for y in 0..3 {
        for x in 0..4 {
            if (x, y) == (1, 1) {
                assert_eq!(fb.get(x, y), red);
            } else {
                assert_eq!(fb.get(x, y), bg);
            }
        }
    }
}

#[test]
fn clear_resets_every_pixel() {
    let bg = rgba(5, 5, 5);
    let mut fb = Framebuffer::new(3, 3, bg);
    fb.set(0, 0, rgba(255, 255, 255));
    fb.set(2, 2, rgba(255, 255, 255));
    fb.clear();
    for y in 0..3 {
        for x in 0..3 {
            assert_eq!(fb.get(x, y), bg);
        }
    }
}
