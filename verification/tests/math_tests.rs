use russsty::math::vec2::Vec2;
use russsty::scanline::ScanlineRasterizer;

#[test]
fn vector_arithmetic_is_exact() {
    let a = Vec2::new(3, -4);
    let b = Vec2::new(10, 2);
    assert_eq!(a.add(b), Vec2::new(13, -2));
    assert_eq!(a.subtract(b), Vec2::new(-7, -6));
    assert_eq!(a.scale(-2), Vec2::new(-6, 8));
    assert_eq!(a.dot(b), 3 * 10 + (-4) * 2);
    assert_eq!(a.cross(b), 3 * 2 - (-4) * 10);
}

#[test]
fn cross_is_antisymmetric() {
    let a = Vec2::new(5, 7);
    let b = Vec2::new(-2, 9);
    assert_eq!(a.cross(b), -b.cross(a));
}

#[test]
fn sort_vertices_orders_by_y() {
    let mut v0 = Vec2::new(0, 9);
    let mut v1 = Vec2::new(1, 2);
    let mut v2 = Vec2::new(2, 5);
    ScanlineRasterizer::sort_vertices(&mut v0, &mut v1, &mut v2);
    assert_eq!(v0, Vec2::new(1, 2));
    assert_eq!(v1, Vec2::new(2, 5));
    assert_eq!(v2, Vec2::new(0, 9));
}

#[test]
fn sort_vertices_with_colors_keeps_pairing() {
    let mut v0 = Vec2::new(0, 9);
    let mut v1 = Vec2::new(1, 2);
    let mut v2 = Vec2::new(2, 5);
    let mut c0 = (9, 9, 9);
    let mut c1 = (2, 2, 2);
    let mut c2 = (5, 5, 5);
    ScanlineRasterizer::sort_vertices_with_colors(
        &mut v0, &mut v1, &mut v2, &mut c0, &mut c1, &mut c2,
    );
    assert_eq!((v0.y, c0), (2, (2, 2, 2)));
    assert_eq!((v1.y, c1), (5, (5, 5, 5)));
    assert_eq!((v2.y, c2), (9, (9, 9, 9)));
}

#[test]
fn sort_vertices_is_stable_on_equal_y() {
    let mut v0 = Vec2::new(7, 3);
    let mut v1 = Vec2::new(1, 3);
    let mut v2 = Vec2::new(4, 3);
    ScanlineRasterizer::sort_vertices(&mut v0, &mut v1, &mut v2);
    assert_eq!(v0, Vec2::new(7, 3));
    assert_eq!(v1, Vec2::new(1, 3));
    assert_eq!(v2, Vec2::new(4, 3));
}
