//! The two programmable stages: the vertex transform, and the shading
//! functions that give a covered pixel its color.
//!
//! Every shading function is a pure function of its arguments, so the same
//! inputs always give the same color.

use vstd::prelude::*;
use crate::color::Color;
use crate::fixed::Fixed;
use crate::fragment::Fragment;
use crate::vector::{Vec3, Vec4, Mat3, Mat4, lemma_identity_mul_vec, lemma_identity_inverse_transpose};
use crate::vertex::Vertex;

verus! {

/// What one object hands to the vertex stage: its model matrix.
#[derive(Clone, Copy, Debug, PartialEq, Eq, Structural)]
pub struct Uniforms {
    pub model_matrix: Mat4,
}

/// The shading strategies, a closed set.
#[derive(Clone, Copy, Debug, PartialEq, Eq, Structural)]
pub enum ShaderType {
    RockyPlanet,
    VolcanicPlanet,
    GasGiant,
    IcePlanet,
    Moon,
    Sun,
    Metallic,
    Spaceship,
    Warship,
    Futuristic,
    Gradient,
}

/// The matrix that normals are transformed by: the inverse of the transpose
/// of the model matrix's upper-left 3×3 block, and the identity where that
/// block is singular.
pub open spec fn spec_normal_matrix(model: Mat4) -> Mat3 {
    match model.linear_part().inverse_transpose() {
        Some(m) => m,
        None => Mat3::identity(),
    }
}

/// The matrix for the normals of an object with the model matrix `model`.
pub fn normal_matrix(model: &Mat4) -> (m: Mat3)
    ensures
        m == spec_normal_matrix(*model),
{
    match model.linear_part().inverse_transpose() {
        Some(m) => m,
        None => Mat3::identity(),
    }
}

/// The vertex after the transform stage: the position times the model
/// matrix, divided through by `w`; the normal times the normal matrix, not
/// renormalized. Where `w` is zero each coordinate saturates by its sign, as
/// `Fixed::div` does.
pub open spec fn spec_vertex_shader(vertex: Vertex, uniforms: Uniforms) -> Vertex {
    let p = vertex.position;
    let t = uniforms.model_matrix.mul_vec(Vec4 { x: p.x, y: p.y, z: p.z, w: Fixed { raw: 65536 } });
    Vertex {
        transformed_position: Vec3 { x: t.x.div(t.w), y: t.y.div(t.w), z: t.z.div(t.w) },
        transformed_normal: spec_normal_matrix(uniforms.model_matrix).mul_vec(vertex.normal),
        ..vertex
    }
}

/// Transforms one vertex by the object's model matrix. The model-space
/// fields are kept as they are.
pub fn vertex_shader(vertex: &Vertex, uniforms: &Uniforms) -> (out: Vertex)
    ensures
        out == spec_vertex_shader(*vertex, *uniforms),
{
    let p = vertex.position;
    let t = uniforms.model_matrix.mul_vec(Vec4 { x: p.x, y: p.y, z: p.z, w: Fixed { raw: 65536 } });
    Vertex {
        position: vertex.position,
        normal: vertex.normal,
        tex_coords: vertex.tex_coords,
        color: vertex.color,
        transformed_position: Vec3 { x: t.x.div(t.w), y: t.y.div(t.w), z: t.z.div(t.w) },
        transformed_normal: normal_matrix(&uniforms.model_matrix).mul_vec(vertex.normal),
    }
}

/// Under the identity matrix a vertex is transformed to itself: the
/// transformed position is the position, the transformed normal the normal.
pub proof fn lemma_identity_transform(vertex: Vertex)
    ensures
        spec_vertex_shader(vertex, Uniforms { model_matrix: Mat4::identity() }) == (Vertex {
            transformed_position: vertex.position,
            transformed_normal: vertex.normal,
            ..vertex
        }),
{
    let p = vertex.position;
    let n = vertex.normal;
    lemma_identity_mul_vec(Vec4 { x: p.x, y: p.y, z: p.z, w: Fixed { raw: 65536 } });
    lemma_identity_inverse_transpose();
    assert(Mat4::identity().linear_part() == Mat3::identity());
    assert forall|a: int| #[trigger] ((a * 65536) / 65536) == a by {
        assert((a * 65536) / 65536 == a) by (nonlinear_arith);
    }
    assert forall|a: int| #[trigger] ((65536 * a) / 65536) == a by {
        assert((65536 * a) / 65536 == a) by (nonlinear_arith);
    }
    let i = Mat3::identity();
    assert(i.r0.dot_wide(n) == 65536 * n.x.raw);
    assert(i.r1.dot_wide(n) == 65536 * n.y.raw);
    assert(i.r2.dot_wide(n) == 65536 * n.z.raw);
    assert(i.mul_vec(n) == n);
}

/// The diffuse light on a surface: the cosine between its normal and the
/// light, and zero where the surface faces away.
pub open spec fn spec_diffuse(normal: Vec3, light_dir: Vec3) -> Fixed {
    normal.normalize().dot(light_dir).max(Fixed { raw: 0 })
}

/// The diffuse light on a surface with the normal `normal`, which need not
/// have length one.
pub fn diffuse(normal: &Vec3, light_dir: &Vec3) -> (i: Fixed)
    ensures
        i == spec_diffuse(*normal, *light_dir),
{
    normal.normalize().dot(*light_dir).max(Fixed { raw: 0 })
}

/// `x` to the power 32, by five squarings.
pub open spec fn spec_pow32(x: Fixed) -> Fixed {
    let x2 = x.mul(x);
    let x4 = x2.mul(x2);
    let x8 = x4.mul(x4);
    let x16 = x8.mul(x8);
    x16.mul(x16)
}

/// `x` to the power 32.
pub fn pow32(x: Fixed) -> (r: Fixed)
    ensures
        r == spec_pow32(x),
{
    let x2 = x.mul(x);
    let x4 = x2.mul(x2);
    let x8 = x4.mul(x4);
    let x16 = x8.mul(x8);
    x16.mul(x16)
}

/// `sin(x) / 2 + 1 / 2`: a wave between zero and one.
pub open spec fn spec_wave(x: Fixed) -> Fixed {
    x.sin().mul(Fixed { raw: 32768 }).add(Fixed { raw: 32768 })
}

/// A wave between zero and one: `sin(x) / 2 + 1 / 2`.
pub fn wave(x: Fixed) -> (r: Fixed)
    ensures
        r == spec_wave(x),
{
    x.sin().mul(Fixed { raw: 32768 }).add(Fixed { raw: 32768 })
}

/// The fragment's own color under diffuse light.
pub open spec fn spec_fragment_shader(fragment: Fragment, light_dir: Vec3, normal: Vec3) -> Color {
    fragment.color.scale(spec_diffuse(normal, light_dir))
}

/// The color of `fragment` under diffuse light from `light_dir` on a surface
/// with the normal `normal`.
pub fn fragment_shader(fragment: &Fragment, light_dir: &Vec3, normal: &Vec3) -> (c: Color)
    ensures
        c == spec_fragment_shader(*fragment, *light_dir, *normal),
{
    fragment.color.scale(diffuse(normal, light_dir))
}

/// A gradient from dark to light blue by height: with `t = (y + 1) / 2`,
/// the channels are `50 + 100t`, `100 + 100t`, `200 + 55t`.
pub open spec fn spec_color_from_position(position: Vec3) -> Color {
    let t = position.y.add(Fixed { raw: 65536 }).mul(Fixed { raw: 32768 });
    Color::from_fixed(
        Fixed::from_int(50).add(t.mul(Fixed::from_int(100))),
        Fixed::from_int(100).add(t.mul(Fixed::from_int(100))),
        Fixed::from_int(200).add(t.mul(Fixed::from_int(55))),
    )
}

/// The blue gradient by height at `position`.
pub fn color_from_position(position: &Vec3) -> (c: Color)
    ensures
        c == spec_color_from_position(*position),
{
    let t = position.y.add(Fixed { raw: 65536 }).mul(Fixed { raw: 32768 });
    Color::from_fixed(
        Fixed::from_int(50).add(t.mul(Fixed::from_int(100))),
        Fixed::from_int(100).add(t.mul(Fixed::from_int(100))),
        Fixed::from_int(200).add(t.mul(Fixed::from_int(55))),
    )
}

/// Silver under diffuse light, with a white highlight: the reflection
/// `2(n·l)n - l` against the view axis, to the power 32, at half strength.
pub open spec fn spec_metallic_color(normal: Vec3, light_dir: Vec3, intensity: Fixed) -> Color {
    let base = Color { r: 180, g: 190, b: 200 };
    let view_dir = Vec3 { x: Fixed { raw: 0 }, y: Fixed { raw: 0 }, z: Fixed { raw: 65536 } };
    let reflect_dir = normal.scale(Fixed { raw: 131072 }.mul(normal.dot(light_dir))).sub(light_dir);
    let specular = spec_pow32(reflect_dir.dot(view_dir).max(Fixed { raw: 0 }));
    let white = Color { r: 255, g: 255, b: 255 };
    base.scale(intensity).add(white.scale(specular).scale(Fixed { raw: 32768 }))
}

/// The metallic material: silver with a white highlight. `normal` has length
/// one.
pub fn metallic_color(normal: &Vec3, light_dir: &Vec3, intensity: Fixed) -> (c: Color)
    ensures
        c == spec_metallic_color(*normal, *light_dir, intensity),
{
    let base = Color { r: 180, g: 190, b: 200 };
    let view_dir = Vec3 { x: Fixed { raw: 0 }, y: Fixed { raw: 0 }, z: Fixed { raw: 65536 } };
    let reflect_dir = normal.scale(Fixed { raw: 131072 }.mul(normal.dot(*light_dir))).sub(*light_dir);
    let specular = pow32(reflect_dir.dot(view_dir).max(Fixed { raw: 0 }));
    let white = Color { r: 255, g: 255, b: 255 };
    base.scale(intensity).add(white.scale(specular).scale(Fixed { raw: 32768 }))
}

/// The metallic material on a normal that is yet to be normalized.
pub open spec fn spec_metallic_shader(position: Vec3, normal: Vec3, light_dir: Vec3) -> Color {
    spec_metallic_color(normal.normalize(), light_dir, spec_diffuse(normal, light_dir))
}

/// The metallic material on a normal of any length.
pub fn metallic_shader(position: &Vec3, normal: &Vec3, light_dir: &Vec3) -> (c: Color)
    ensures
        c == spec_metallic_shader(*position, *normal, *light_dir),
{
    let n = normal.normalize();
    metallic_color(&n, light_dir, diffuse(normal, light_dir))
}

/// The panel mask of a hull: `|sin(5x) · cos(5y)|`.
pub open spec fn spec_panel_variation(position: Vec3) -> Fixed {
    position.x.mul(Fixed::from_int(5)).sin().mul(position.y.mul(Fixed::from_int(5)).cos()).abs()
}

/// The panel mask of a hull at `position`.
pub fn panel_variation(position: &Vec3) -> (r: Fixed)
    ensures
        r == spec_panel_variation(*position),
{
    position.x.mul(Fixed::from_int(5)).sin().mul(position.y.mul(Fixed::from_int(5)).cos()).abs()
}

/// A golden hull: lighter panels where the mask is above 0.7, under diffuse
/// light.
pub open spec fn spec_spaceship_color(
    position: Vec3,
    normal: Vec3,
    light_dir: Vec3,
    intensity: Fixed,
) -> Color {
    let panel_color = if spec_panel_variation(position).raw > 45875 {
        Color { r: 220, g: 190, b: 70 }
    } else {
        Color { r: 200, g: 170, b: 50 }
    };
    panel_color.scale(intensity)
}

/// The golden hull with lighter panels.
pub fn spaceship_color(position: &Vec3, normal: &Vec3, light_dir: &Vec3, intensity: Fixed) -> (c:
    Color)
    ensures
        c == spec_spaceship_color(*position, *normal, *light_dir, intensity),
{
    let panel_color = if panel_variation(position).raw > 45875 {
        Color { r: 220, g: 190, b: 70 }
    } else {
        Color { r: 200, g: 170, b: 50 }
    };
    panel_color.scale(intensity)
}

/// A blue hull with lighter panels, and a rim light `0.3 (1 - i)^3` where the
/// diffuse light `i` is weak.
pub open spec fn spec_spaceship_shader(position: Vec3, normal: Vec3, light_dir: Vec3) -> Color {
    let intensity = spec_diffuse(normal, light_dir);
    let panel_color = if spec_panel_variation(position).raw > 45875 {
        Color { r: 60, g: 100, b: 170 }
    } else {
        Color { r: 40, g: 80, b: 150 }
    };
    let shade = Fixed { raw: 65536 }.sub(intensity);
    let rim_light = shade.mul(shade).mul(shade).mul(Fixed { raw: 19660 });
    panel_color.scale(intensity).add(Color { r: 100, g: 150, b: 255 }.scale(rim_light))
}

/// The blue hull with lighter panels and a rim light.
pub fn spaceship_shader(position: &Vec3, normal: &Vec3, light_dir: &Vec3) -> (c: Color)
    ensures
        c == spec_spaceship_shader(*position, *normal, *light_dir),
{
    let intensity = diffuse(normal, light_dir);
    let panel_color = if panel_variation(position).raw > 45875 {
        Color { r: 60, g: 100, b: 170 }
    } else {
        Color { r: 40, g: 80, b: 150 }
    };
    let shade = Fixed { raw: 65536 }.sub(intensity);
    let rim_light = shade.mul(shade).mul(shade).mul(Fixed { raw: 19660 });
    panel_color.scale(intensity).add(Color { r: 100, g: 150, b: 255 }.scale(rim_light))
}

/// A dark red hull with orange detail where `|sin(3z) / 2 + 1 / 2|` is above
/// 0.8, under diffuse light.
pub open spec fn spec_warship_color(position: Vec3, intensity: Fixed) -> Color {
    let detail = spec_wave(position.z.mul(Fixed::from_int(3))).abs();
    let color = if detail.raw > 52428 {
        Color { r: 200, g: 80, b: 20 }
    } else {
        Color { r: 150, g: 30, b: 30 }
    };
    color.scale(intensity)
}

/// The dark red hull with orange detail.
pub fn warship_color(position: &Vec3, intensity: Fixed) -> (c: Color)
    ensures
        c == spec_warship_color(*position, intensity),
{
    let detail = wave(position.z.mul(Fixed::from_int(3))).abs();
    let color = if detail.raw > 52428 {
        Color { r: 200, g: 80, b: 20 }
    } else {
        Color { r: 150, g: 30, b: 30 }
    };
    color.scale(intensity)
}

/// The warship hull under the diffuse light on `normal`.
pub open spec fn spec_warship_shader(position: Vec3, normal: Vec3, light_dir: Vec3) -> Color {
    spec_warship_color(position, spec_diffuse(normal, light_dir))
}

/// The warship hull on a normal of any length.
pub fn warship_shader(position: &Vec3, normal: &Vec3, light_dir: &Vec3) -> (c: Color)
    ensures
        c == spec_warship_shader(*position, *normal, *light_dir),
{
    warship_color(position, diffuse(normal, light_dir))
}

/// A gradient from cyan to magenta by `t = |sin(y) / 2 + 1 / 2|`: red
/// `200t + 50`, green 100, blue `200(1 - t) + 50`, under diffuse light.
pub open spec fn spec_futuristic_color(position: Vec3, intensity: Fixed) -> Color {
    let t = spec_wave(position.y).abs();
    let r = t.mul(Fixed::from_int(200)).add(Fixed::from_int(50));
    let b = Fixed { raw: 65536 }.sub(t).mul(Fixed::from_int(200)).add(Fixed::from_int(50));
    Color::from_fixed(r, Fixed::from_int(100), b).scale(intensity)
}

/// The gradient from cyan to magenta.
pub fn futuristic_color(position: &Vec3, intensity: Fixed) -> (c: Color)
    ensures
        c == spec_futuristic_color(*position, intensity),
{
    let t = wave(position.y).abs();
    let r = t.mul(Fixed::from_int(200)).add(Fixed::from_int(50));
    let b = Fixed { raw: 65536 }.sub(t).mul(Fixed::from_int(200)).add(Fixed::from_int(50));
    Color::from_fixed(r, Fixed::from_int(100), b).scale(intensity)
}

/// The cyan to magenta gradient under the diffuse light on `normal`.
pub open spec fn spec_futuristic_shader(position: Vec3, normal: Vec3, light_dir: Vec3) -> Color {
    spec_futuristic_color(position, spec_diffuse(normal, light_dir))
}

/// The cyan to magenta gradient on a normal of any length.
pub fn futuristic_shader(position: &Vec3, normal: &Vec3, light_dir: &Vec3) -> (c: Color)
    ensures
        c == spec_futuristic_shader(*position, *normal, *light_dir),
{
    futuristic_color(position, diffuse(normal, light_dir))
}

/// Rock: brown ground with lighter ridges where `sin(8x) · cos(8z)` is above
/// 0.3, under diffuse light.
pub open spec fn spec_rocky_color(position: Vec3, intensity: Fixed) -> Color {
    let ridge = position.x.mul(Fixed::from_int(8)).sin().mul(
        position.z.mul(Fixed::from_int(8)).cos(),
    );
    let color = if ridge.raw > 19660 {
        Color { r: 150, g: 110, b: 80 }
    } else {
        Color { r: 110, g: 75, b: 50 }
    };
    color.scale(intensity)
}

/// The surface of a rocky planet.
pub fn rocky_color(position: &Vec3, intensity: Fixed) -> (c: Color)
    ensures
        c == spec_rocky_color(*position, intensity),
{
    let ridge = position.x.mul(Fixed::from_int(8)).sin().mul(
        position.z.mul(Fixed::from_int(8)).cos(),
    );
    let color = if ridge.raw > 19660 {
        Color { r: 150, g: 110, b: 80 }
    } else {
        Color { r: 110, g: 75, b: 50 }
    };
    color.scale(intensity)
}

/// Lava: veins that glow by themselves where `sin(6x + t) · cos(6y)` is
/// above 0.5, and dark rock under diffuse light elsewhere.
pub open spec fn spec_volcanic_color(position: Vec3, intensity: Fixed, time: Fixed) -> Color {
    let vein = position.x.mul(Fixed::from_int(6)).add(time).sin().mul(
        position.y.mul(Fixed::from_int(6)).cos(),
    );
    if vein.raw > 32768 {
        Color { r: 255, g: 90, b: 10 }
    } else {
        Color { r: 70, g: 35, b: 25 }.scale(intensity)
    }
}

/// The surface of a volcanic planet at the time `time`.
pub fn volcanic_color(position: &Vec3, intensity: Fixed, time: Fixed) -> (c: Color)
    ensures
        c == spec_volcanic_color(*position, intensity, time),
{
    let vein = position.x.mul(Fixed::from_int(6)).add(time).sin().mul(
        position.y.mul(Fixed::from_int(6)).cos(),
    );
    if vein.raw > 32768 {
        Color { r: 255, g: 90, b: 10 }
    } else {
        Color { r: 70, g: 35, b: 25 }.scale(intensity)
    }
}

/// A gas giant: bands by latitude that a slow wave in longitude and time
/// bends, `t = wave(10y + sin(3x + time))`, from ochre to cream, under
/// diffuse light.
pub open spec fn spec_gas_giant_color(position: Vec3, intensity: Fixed, time: Fixed) -> Color {
    let bend = position.x.mul(Fixed::from_int(3)).add(time).sin();
    let t = spec_wave(position.y.mul(Fixed::from_int(10)).add(bend));
    Color::from_fixed(
        Fixed::from_int(190).add(t.mul(Fixed::from_int(50))),
        Fixed::from_int(140).add(t.mul(Fixed::from_int(60))),
        Fixed::from_int(90).add(t.mul(Fixed::from_int(70))),
    ).scale(intensity)
}

/// The bands of a gas giant at the time `time`.
pub fn gas_giant_color(position: &Vec3, intensity: Fixed, time: Fixed) -> (c: Color)
    ensures
        c == spec_gas_giant_color(*position, intensity, time),
{
    let bend = position.x.mul(Fixed::from_int(3)).add(time).sin();
    let t = wave(position.y.mul(Fixed::from_int(10)).add(bend));
    Color::from_fixed(
        Fixed::from_int(190).add(t.mul(Fixed::from_int(50))),
        Fixed::from_int(140).add(t.mul(Fixed::from_int(60))),
        Fixed::from_int(90).add(t.mul(Fixed::from_int(70))),
    ).scale(intensity)
}

/// Ice: pale blue under diffuse light, with white frost of strength
/// `0.3 |sin(4x) · cos(4z)|` on top.
pub open spec fn spec_ice_color(position: Vec3, intensity: Fixed) -> Color {
    let frost = position.x.mul(Fixed::from_int(4)).sin().mul(
        position.z.mul(Fixed::from_int(4)).cos(),
    ).abs();
    Color { r: 170, g: 210, b: 245 }.scale(intensity).add(
        Color { r: 255, g: 255, b: 255 }.scale(frost.mul(Fixed { raw: 19660 })).scale(intensity),
    )
}

/// The surface of an ice planet.
pub fn ice_color(position: &Vec3, intensity: Fixed) -> (c: Color)
    ensures
        c == spec_ice_color(*position, intensity),
{
    let frost = position.x.mul(Fixed::from_int(4)).sin().mul(
        position.z.mul(Fixed::from_int(4)).cos(),
    ).abs();
    Color { r: 170, g: 210, b: 245 }.scale(intensity).add(
        Color { r: 255, g: 255, b: 255 }.scale(frost.mul(Fixed { raw: 19660 })).scale(intensity),
    )
}

/// A moon: grey, with darker craters where `sin(12x) · cos(12y)` is above
/// 0.6, under diffuse light.
pub open spec fn spec_moon_color(position: Vec3, intensity: Fixed) -> Color {
    let crater = position.x.mul(Fixed::from_int(12)).sin().mul(
        position.y.mul(Fixed::from_int(12)).cos(),
    );
    let color = if crater.raw > 39321 {
        Color { r: 90, g: 90, b: 95 }
    } else {
        Color { r: 165, g: 165, b: 170 }
    };
    color.scale(intensity)
}

/// The surface of a moon.
pub fn moon_color(position: &Vec3, intensity: Fixed) -> (c: Color)
    ensures
        c == spec_moon_color(*position, intensity),
{
    let crater = position.x.mul(Fixed::from_int(12)).sin().mul(
        position.y.mul(Fixed::from_int(12)).cos(),
    );
    let color = if crater.raw > 39321 {
        Color { r: 90, g: 90, b: 95 }
    } else {
        Color { r: 165, g: 165, b: 170 }
    };
    color.scale(intensity)
}

/// A sun: it glows by itself, so the diffuse light plays no part. The pulse
/// `p = wave(2 time + 5x)` moves the color from orange to yellow.
pub open spec fn spec_sun_color(position: Vec3, time: Fixed) -> Color {
    let pulse = spec_wave(time.mul(Fixed::from_int(2)).add(position.x.mul(Fixed::from_int(5))));
    Color::from_fixed(
        Fixed::from_int(255),
        Fixed::from_int(170).add(pulse.mul(Fixed::from_int(70))),
        Fixed::from_int(30).add(pulse.mul(Fixed::from_int(60))),
    )
}

/// The surface of a sun at the time `time`.
pub fn sun_color(position: &Vec3, time: Fixed) -> (c: Color)
    ensures
        c == spec_sun_color(*position, time),
{
    let pulse = wave(time.mul(Fixed::from_int(2)).add(position.x.mul(Fixed::from_int(5))));
    Color::from_fixed(
        Fixed::from_int(255),
        Fixed::from_int(170).add(pulse.mul(Fixed::from_int(70))),
        Fixed::from_int(30).add(pulse.mul(Fixed::from_int(60))),
    )
}

/// The color that the strategy `shader` gives a surface point.
pub open spec fn spec_shade(
    shader: ShaderType,
    position: Vec3,
    normal: Vec3,
    light_dir: Vec3,
    intensity: Fixed,
    time: Fixed,
) -> Color {
    match shader {
        ShaderType::RockyPlanet => spec_rocky_color(position, intensity),
        ShaderType::VolcanicPlanet => spec_volcanic_color(position, intensity, time),
        ShaderType::GasGiant => spec_gas_giant_color(position, intensity, time),
        ShaderType::IcePlanet => spec_ice_color(position, intensity),
        ShaderType::Moon => spec_moon_color(position, intensity),
        ShaderType::Sun => spec_sun_color(position, time),
        ShaderType::Metallic => spec_metallic_color(normal, light_dir, intensity),
        ShaderType::Spaceship => spec_spaceship_color(position, normal, light_dir, intensity),
        ShaderType::Warship => spec_warship_color(position, intensity),
        ShaderType::Futuristic => spec_futuristic_color(position, intensity),
        ShaderType::Gradient => spec_color_from_position(position).scale(intensity),
    }
}

/// Shades one surface point: the single place where a strategy is chosen.
pub fn shade(
    shader: ShaderType,
    position: &Vec3,
    normal: &Vec3,
    light_dir: &Vec3,
    intensity: Fixed,
    time: Fixed,
) -> (c: Color)
    ensures
        c == spec_shade(shader, *position, *normal, *light_dir, intensity, time),
{
    match shader {
        ShaderType::RockyPlanet => rocky_color(position, intensity),
        ShaderType::VolcanicPlanet => volcanic_color(position, intensity, time),
        ShaderType::GasGiant => gas_giant_color(position, intensity, time),
        ShaderType::IcePlanet => ice_color(position, intensity),
        ShaderType::Moon => moon_color(position, intensity),
        ShaderType::Sun => sun_color(position, time),
        ShaderType::Metallic => metallic_color(normal, light_dir, intensity),
        ShaderType::Spaceship => spaceship_color(position, normal, light_dir, intensity),
        ShaderType::Warship => warship_color(position, intensity),
        ShaderType::Futuristic => futuristic_color(position, intensity),
        ShaderType::Gradient => color_from_position(position).scale(intensity),
    }
}

/// A surface that faces away from the light, or has no normal, gets no
/// diffuse light, and every lit material is then black.
pub proof fn lemma_unlit_is_black(position: Vec3)
    ensures
        spec_warship_color(position, Fixed { raw: 0 }) == (Color { r: 0, g: 0, b: 0 }),
        spec_rocky_color(position, Fixed { raw: 0 }) == (Color { r: 0, g: 0, b: 0 }),
        spec_moon_color(position, Fixed { raw: 0 }) == (Color { r: 0, g: 0, b: 0 }),
        spec_futuristic_color(position, Fixed { raw: 0 }) == (Color { r: 0, g: 0, b: 0 }),
{
    assert forall|a: int| #[trigger] ((a * 0) / 65536) == 0 by {
        assert(a * 0 == 0) by (nonlinear_arith);
    }
}

} // verus!
