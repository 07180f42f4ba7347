use russsty::fixed::{FX_HALF, FX_ONE};
use russsty::math::vec2::Vec2;
use russsty::shader::{
    FlatShader, GouraudShader, PerspectiveCorrectTextureModulateShader,
    PerspectiveCorrectTextureShader, PixelShader, TextureModulateShader, TextureShader,
};
use russsty::texture::Texture;

fn checker_2x2() -> Texture {
    // Texel (0,0) black, (1,0) white, (0,1) red, (1,1) blue.
    Texture::new(
        vec![0xFF000000, 0xFFFFFFFF, 0xFFFF0000, 0xFF0000FF],
        2,
        2,
    )
}

#[test]
fn flat_shader_ignores_weights() {
    let s = FlatShader::new(0xFF123456);
    assert_eq!(s.shade(0, 0, 0), 0xFF123456);
    assert_eq!(s.shade(FX_ONE, 0, 0), 0xFF123456);
    assert_eq!(s.shade(21845, 21845, 21845), 0xFF123456);
}

#[test]
fn gouraud_shader_at_a_vertex_returns_its_color() {
    let s = GouraudShader::new([0xFFFF0000, 0xFF00FF00, 0xFF0000FF]);
    assert_eq!(s.shade(FX_ONE, 0, 0), 0xFFFF0000);
    assert_eq!(s.shade(0, FX_ONE, 0), 0xFF00FF00);
    assert_eq!(s.shade(0, 0, FX_ONE), 0xFF0000FF);
}

#[test]
fn gouraud_shader_midpoint_blends() {
    let s = GouraudShader::new([0xFFFF0000, 0xFF00FF00, 0xFF000000]);
    let c = s.shade(FX_HALF, FX_HALF, 0);
    let r = (c >> 16) & 0xFF;
    let g = (c >> 8) & 0xFF;
    assert!((127..=128).contains(&r), "r was {r}");
    assert!((127..=128).contains(&g), "g was {g}");
    assert_eq!(c & 0xFF, 0);
    assert_eq!((c >> 24) & 0xFF, 0xFF);
}

#[test]
fn texture_shader_samples_at_interpolated_uv() {
    let tex = checker_2x2();
    // Vertex texture coordinates pinned at the four texel centers.
    let uvs = [
        Vec2::new(0, 0),
        Vec2::new(FX_HALF, 0),
        Vec2::new(0, FX_HALF),
    ];
    let s = TextureShader::new(&tex, uvs);
    assert_eq!(s.shade(FX_ONE, 0, 0), 0xFF000000);
    assert_eq!(s.shade(0, FX_ONE, 0), 0xFFFFFFFF);
    assert_eq!(s.shade(0, 0, FX_ONE), 0xFFFF0000);
}

#[test]
fn texture_wraps_outside_unit_square() {
    let tex = checker_2x2();
    // u = 1.0 wraps back to texel column 0.
    assert_eq!(tex.sample(FX_ONE, 0), tex.sample(0, 0));
    assert_eq!(tex.sample(-FX_HALF, 0), tex.sample(FX_HALF, 0));
}

#[test]
fn texture_modulate_shader_darkens_by_lighting() {
    let tex = Texture::new(vec![0xFFFFFFFF], 1, 1);
    let uvs = [Vec2::new(0, 0), Vec2::new(0, 0), Vec2::new(0, 0)];
    // All three vertices lit at half intensity (gray).
    let s = TextureModulateShader::new(&tex, uvs, [0xFF808080, 0xFF808080, 0xFF808080]);
    let c = s.shade(FX_ONE, 0, 0);
    let r = (c >> 16) & 0xFF;
    assert!((127..=128).contains(&r), "r was {r}");
}

#[test]
fn perspective_shader_with_equal_depths_matches_affine() {
    let tex = checker_2x2();
    let uvs = [
        Vec2::new(0, 0),
        Vec2::new(FX_HALF, 0),
        Vec2::new(0, FX_HALF),
    ];
    let affine = TextureShader::new(&tex, uvs);
    let persp = PerspectiveCorrectTextureShader::new(&tex, uvs, [FX_ONE, FX_ONE, FX_ONE]);
    for (l0, l1, l2) in [
        (FX_ONE, 0, 0),
        (0, FX_ONE, 0),
        (0, 0, FX_ONE),
        (21845, 21845, 21845),
    ] {
        assert_eq!(persp.shade(l0, l1, l2), affine.shade(l0, l1, l2));
    }
}

#[test]
fn perspective_shader_weights_toward_nearer_vertex() {
    // u/w interpolation: a much nearer vertex (small w) pulls the
    // recovered coordinate toward its own texture coordinate.
    let strip = Texture::new(vec![0xFF111111, 0xFF222222, 0xFF333333, 0xFF444444], 4, 1);
    let uvs = [Vec2::new(0, 0), Vec2::new(FX_ONE, 0), Vec2::new(0, 0)];
    let affine = TextureShader::new(&strip, uvs);
    // Vertex 1 sits sixteen times nearer than the others.
    let persp = PerspectiveCorrectTextureShader::new(&strip, uvs, [FX_ONE, FX_ONE / 16, FX_ONE]);
    // At equal screen-space weights the affine u is 1/2 (third texel),
    // while the perspective-correct u is 16/17 (fourth texel).
    assert_eq!(affine.shade(FX_HALF, FX_HALF, 0), 0xFF333333);
    assert_eq!(persp.shade(FX_HALF, FX_HALF, 0), 0xFF444444);
}

#[test]
fn perspective_modulate_shader_combines_texture_and_lighting() {
    let tex = Texture::new(vec![0xFFFFFFFF], 1, 1);
    let uvs = [Vec2::new(0, 0), Vec2::new(0, 0), Vec2::new(0, 0)];
    let s = PerspectiveCorrectTextureModulateShader::new(
        &tex,
        uvs,
        [FX_ONE, FX_ONE, FX_ONE],
        [0xFF000000, 0xFF000000, 0xFF000000],
    );
    // Black lighting kills the texture color.
    assert_eq!(s.shade(FX_ONE, 0, 0) & 0x00FFFFFF, 0);
}

#[test]
fn perspective_shader_zero_weights_sample_origin() {
    let tex = checker_2x2();
    let uvs = [
        Vec2::new(FX_HALF, FX_HALF),
        Vec2::new(FX_HALF, FX_HALF),
        Vec2::new(FX_HALF, FX_HALF),
    ];
    let persp = PerspectiveCorrectTextureShader::new(&tex, uvs, [FX_ONE, FX_ONE, FX_ONE]);
    // All-zero weights zero the interpolated 1/w, and the guarded
    // recovery falls back to the texture's origin.
    assert_eq!(persp.shade(0, 0, 0), tex.sample(0, 0));
}
