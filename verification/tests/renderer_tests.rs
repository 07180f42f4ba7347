use russsty::colors::BACKGROUND;
use russsty::math::vec2::Vec2;
use russsty::renderer::Renderer;
use russsty::triangle::Triangle;

#[test]
fn new_renderer_is_background_filled() {
    let r = Renderer::new(4, 3);
    assert_eq!(r.width(), 4);
    assert_eq!(r.height(), 3);
    for y in 0..3 {
        for x in 0..4 {
            assert_eq!(r.get_pixel(x, y), Some(BACKGROUND));
        }
    }
}

#[test]
fn resize_changes_dimensions_and_resets() {
    let mut r = Renderer::new(2, 2);
    r.set_pixel(0, 0, 0xFF00FF00);
    r.resize(3, 5);
    assert_eq!(r.width(), 3);
    assert_eq!(r.height(), 5);
    assert_eq!(r.get_pixel(0, 0), Some(BACKGROUND));
}

#[test]
fn clear_fills_everything() {
    let mut r = Renderer::new(3, 3);
    r.set_pixel(1, 1, 0xFF112233);
    r.clear(0xFFABCDEF);
    for y in 0..3 {
        for x in 0..3 {
            assert_eq!(r.get_pixel(x, y), Some(0xFFABCDEF));
        }
    }
}

#[test]
fn draw_grid_marks_multiples_of_spacing() {
    let mut r = Renderer::new(7, 7);
    r.draw_grid(3, 0xFF333333);
    for y in 0..7 {
        for x in 0..7 {
            let expect = if x % 3 == 0 || y % 3 == 0 {
                0xFF333333
            } else {
                BACKGROUND
            };
            assert_eq!(r.get_pixel(x, y), Some(expect), "({x}, {y})");
        }
    }
}

#[test]
fn draw_rect_fills_and_clips() {
    let mut r = Renderer::new(5, 5);
    r.draw_rect(3, 3, 4, 4, 0xFFFF0000);
    for y in 0..5 {
        for x in 0..5 {
            let expect = if x >= 3 && y >= 3 {
                0xFFFF0000
            } else {
                BACKGROUND
            };
            assert_eq!(r.get_pixel(x, y), Some(expect), "({x}, {y})");
        }
    }
}

#[test]
fn draw_line_horizontal_is_exact() {
    let mut r = Renderer::new(8, 8);
    r.draw_line(1, 2, 6, 2, 0xFF00FF00);
    for x in 0..8 {
        let expect = if (1..=6).contains(&x) {
            0xFF00FF00
        } else {
            BACKGROUND
        };
        assert_eq!(r.get_pixel(x, 2), Some(expect), "x = {x}");
    }
    assert_eq!(r.get_pixel(3, 3), Some(BACKGROUND));
}

#[test]
fn draw_line_vertical_and_diagonal() {
    let mut r = Renderer::new(8, 8);
    r.draw_line(4, 1, 4, 5, 0xFFFFFFFF);
    for y in 1..=5 {
        assert_eq!(r.get_pixel(4, y), Some(0xFFFFFFFF));
    }
    let mut d = Renderer::new(8, 8);
    d.draw_line(0, 0, 4, 4, 0xFFFFFFFF);
    for i in 0..=4 {
        assert_eq!(d.get_pixel(i, i), Some(0xFFFFFFFF), "i = {i}");
    }
}

#[test]
fn draw_line_endpoints_are_painted_both_directions() {
    let mut a = Renderer::new(10, 10);
    a.draw_line(1, 1, 7, 4, 0xFF0000FF);
    assert_eq!(a.get_pixel(1, 1), Some(0xFF0000FF));
    assert_eq!(a.get_pixel(7, 4), Some(0xFF0000FF));
    let mut b = Renderer::new(10, 10);
    b.draw_line(7, 4, 1, 1, 0xFF0000FF);
    assert_eq!(b.get_pixel(1, 1), Some(0xFF0000FF));
    assert_eq!(b.get_pixel(7, 4), Some(0xFF0000FF));
}

#[test]
fn draw_line_dda_skips_the_endpoint() {
    let mut r = Renderer::new(8, 8);
    r.draw_line_dda(1, 2, 5, 2, 0xFF00FF00);
    for x in 1..=4 {
        assert_eq!(r.get_pixel(x, 2), Some(0xFF00FF00), "x = {x}");
    }
    assert_eq!(r.get_pixel(5, 2), Some(BACKGROUND));
}

#[test]
fn draw_line_dda_degenerate_writes_nothing() {
    let mut r = Renderer::new(8, 8);
    r.draw_line_dda(3, 3, 3, 3, 0xFF00FF00);
    assert_eq!(r.get_pixel(3, 3), Some(BACKGROUND));
}

#[test]
fn draw_triangle_outlines_edges() {
    let mut r = Renderer::new(10, 10);
    let t = Triangle::new(
        [Vec2::new(1, 1), Vec2::new(8, 1), Vec2::new(1, 8)],
        0xFF00FF00,
    );
    r.draw_triangle(&t);
    // The two axis-aligned edges are fully painted.
    for i in 1..=8 {
        assert_eq!(r.get_pixel(i, 1), Some(0xFF00FF00), "top edge x = {i}");
        assert_eq!(r.get_pixel(1, i), Some(0xFF00FF00), "left edge y = {i}");
    }
    // The interior stays background.
    assert_eq!(r.get_pixel(3, 3), Some(BACKGROUND));
}

#[test]
fn as_bytes_is_little_endian_argb() {
    let mut r = Renderer::new(2, 1);
    r.set_pixel(0, 0, 0xAA112233);
    r.set_pixel(1, 0, 0xFF000000);
    let bytes = r.as_bytes();
    assert_eq!(bytes.len(), 8);
    assert_eq!(&bytes[0..4], &[0x33, 0x22, 0x11, 0xAA]);
    assert_eq!(&bytes[4..8], &[0x00, 0x00, 0x00, 0xFF]);
}

#[test]
fn set_pixel_out_of_bounds_is_ignored() {
    let mut r = Renderer::new(3, 3);
    r.set_pixel(-1, 0, 0xFFFFFFFF);
    r.set_pixel(3, 0, 0xFFFFFFFF);
    for y in 0..3 {
        for x in 0..3 {
            assert_eq!(r.get_pixel(x, y), Some(BACKGROUND));
        }
    }
}

#[test]
fn draw_grid_spacing_one_covers_everything() {
    let mut r = Renderer::new(4, 4);
    r.draw_grid(1, 0xFF333333);
    for y in 0..4 {
        for x in 0..4 {
            assert_eq!(r.get_pixel(x, y), Some(0xFF333333));
        }
    }
}

#[test]
fn draw_rect_negative_size_writes_nothing() {
    let mut r = Renderer::new(5, 5);
    r.draw_rect(1, 1, -3, 2, 0xFFFF0000);
    r.draw_rect(1, 1, 2, -3, 0xFFFF0000);
    r.draw_rect(1, 1, 0, 0, 0xFFFF0000);
    for y in 0..5 {
        for x in 0..5 {
            assert_eq!(r.get_pixel(x, y), Some(BACKGROUND));
        }
    }
}

#[test]
fn draw_grid_negative_spacing_acts_as_absolute() {
    let mut a = Renderer::new(7, 7);
    let mut b = Renderer::new(7, 7);
    a.draw_grid(-3, 0xFF333333);
    b.draw_grid(3, 0xFF333333);
    for y in 0..7 {
        for x in 0..7 {
            assert_eq!(a.get_pixel(x, y), b.get_pixel(x, y), "({x}, {y})");
        }
    }
}
