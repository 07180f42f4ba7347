use russsty::framebuffer::FrameBuffer;

fn buffer_10x10() -> FrameBuffer {
    FrameBuffer::new(vec![0u32; 100], 10, 10)
}

#[test]
fn new_requires_matching_length() {
    let fb = buffer_10x10();
    assert_eq!(fb.width(), 10);
    assert_eq!(fb.height(), 10);
}

#[test]
fn set_then_get() {
    let mut fb = buffer_10x10();
    fb.set_pixel(3, 4, 0xFF123456);
    assert_eq!(fb.get_pixel(3, 4), Some(0xFF123456));
    assert_eq!(fb.get_pixel(4, 3), Some(0));
}

#[test]
fn set_out_of_bounds_is_ignored() {
    let mut fb = buffer_10x10();
    fb.set_pixel(-1, 0, 0xFFFFFFFF);
    fb.set_pixel(0, -1, 0xFFFFFFFF);
    fb.set_pixel(10, 0, 0xFFFFFFFF);
    fb.set_pixel(0, 10, 0xFFFFFFFF);
    let data = fb.into_data();
    assert!(data.iter().all(|&p| p == 0));
}

#[test]
fn get_out_of_bounds_is_none() {
    let fb = buffer_10x10();
    assert_eq!(fb.get_pixel(-1, 0), None);
    assert_eq!(fb.get_pixel(0, 10), None);
}

#[test]
fn fill_scanline_fills_inclusive_span() {
    let mut fb = buffer_10x10();
    fb.fill_scanline(2, 3, 6, 7);
    for x in 0..10 {
        let expect = if (3..=6).contains(&x) { 7 } else { 0 };
        assert_eq!(fb.get_pixel(x, 2), Some(expect));
    }
}

#[test]
fn fill_scanline_clips_to_buffer() {
    let mut fb = buffer_10x10();
    fb.fill_scanline(0, -5, 14, 9);
    for x in 0..10 {
        assert_eq!(fb.get_pixel(x, 0), Some(9));
    }
    assert_eq!(fb.get_pixel(0, 1), Some(0));
}

#[test]
fn fill_scanline_out_of_range_row_writes_nothing() {
    let mut fb = buffer_10x10();
    fb.fill_scanline(-1, 0, 9, 5);
    fb.fill_scanline(10, 0, 9, 5);
    assert!(fb.into_data().iter().all(|&p| p == 0));
}

#[test]
fn fill_scanline_empty_span_writes_nothing() {
    let mut fb = buffer_10x10();
    fb.fill_scanline(1, 6, 3, 5);
    assert!(fb.into_data().iter().all(|&p| p == 0));
}

#[test]
fn fill_scanline_negative_end_writes_nothing() {
    let mut fb = buffer_10x10();
    fb.fill_scanline(1, -7, -2, 5);
    assert!(fb.into_data().iter().all(|&p| p == 0));
}
