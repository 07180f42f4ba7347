use russsty::colors::{lerp_color, modulate, pack_color, unpack_color};
use russsty::fixed::{FX_HALF, FX_ONE};

#[test]
fn pack_full_red_is_red() {
    assert_eq!(pack_color(FX_ONE, 0, 0, FX_ONE), 0xFFFF0000);
}

#[test]
fn pack_black_keeps_alpha() {
    assert_eq!(pack_color(0, 0, 0, FX_ONE), 0xFF000000);
}

#[test]
fn pack_half_rounds_up() {
    // 0.5 * 255 = 127.5 rounds to 128 = 0x80.
    assert_eq!(pack_color(FX_HALF, 0, 0, FX_ONE), 0xFF800000);
}

#[test]
fn unpack_divides_each_byte_by_255() {
    let (r, g, b) = unpack_color(0xFF804020);
    assert_eq!(r, 128 * FX_ONE / 255);
    assert_eq!(g, 64 * FX_ONE / 255);
    assert_eq!(b, 32 * FX_ONE / 255);
}

#[test]
fn unpack_is_not_exact_inverse_of_pack() {
    // 0x01 unpacks to 257 (1/255 floored at scale 65536), not to 256.
    let (r, _, _) = unpack_color(0xFF010000);
    assert_eq!(r, 257);
}

#[test]
fn pack_unpack_round_trip_within_one_part_in_255() {
    for &ch in &[0i64, 1, 9, 12345, FX_HALF, 54321, FX_ONE - 1, FX_ONE] {
        let packed = pack_color(ch, ch, ch, FX_ONE);
        let (r, g, b) = unpack_color(packed);
        for got in [r, g, b] {
            let diff = (got - ch).abs();
            assert!(diff <= FX_ONE / 255, "channel {ch} came back as {got}");
        }
        let fdiff = (r - ch).abs() as f32 / FX_ONE as f32;
        assert!(fdiff <= 1.0 / 255.0 + 1e-6);
    }
}

#[test]
fn modulated_color_repacked_never_exceeds_255() {
    // Each channel of any packed color is one byte, so a pack of a
    // modulated color can never exceed 255 per channel.
    let m = modulate(0xFFFFFFFF, 3 * FX_ONE);
    for shift in [0u32, 8, 16] {
        assert!(((m >> shift) & 0xFF) <= 255);
    }
    assert_eq!(m, 0xFFFFFFFF);
}

#[test]
fn modulate_negative_intensity_gives_black_rgb() {
    assert_eq!(modulate(0xFF808080, -FX_ONE), 0xFF000000);
}

#[test]
fn modulate_saturates_at_255() {
    assert_eq!(modulate(0xFF808080, 4 * FX_ONE), 0xFFFFFFFF);
}

#[test]
fn modulate_halves_channels_and_keeps_alpha() {
    assert_eq!(modulate(0x80404040, FX_HALF), 0x80202020);
}

#[test]
fn lerp_color_midpoint() {
    let c = lerp_color((0, 0, 0), (FX_ONE, FX_ONE, FX_ONE), FX_HALF);
    assert_eq!(c, (FX_HALF, FX_HALF, FX_HALF));
}

#[test]
fn lerp_color_endpoints() {
    let a = (100, 200, 300);
    let b = (5000, 6000, 7000);
    assert_eq!(lerp_color(a, b, 0), a);
    assert_eq!(lerp_color(a, b, FX_ONE), b);
}

#[test]
fn lerp_color_is_not_clamped_in_t() {
    // t = 2.0 overshoots past the second color.
    let c = lerp_color((0, 0, 0), (100, 100, 100), 2 * FX_ONE);
    assert_eq!(c, (200, 200, 200));
}
