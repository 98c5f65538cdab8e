use soft_raster::color::Color;
use soft_raster::fixed::{Fixed, QUARTER_TURN_RAW};
use soft_raster::fragment::Fragment;
use soft_raster::shader::{
    color_from_position, diffuse, fragment_shader, futuristic_color, futuristic_shader,
    gas_giant_color, ice_color, metallic_color, metallic_shader, moon_color, normal_matrix,
    panel_variation, pow32, rocky_color, shade, spaceship_color, spaceship_shader, sun_color,
    vertex_shader, volcanic_color, warship_color, warship_shader, wave, ShaderType, Uniforms,
};
use soft_raster::vector::{Mat3, Mat4, Vec2, Vec3, Vec4};
use soft_raster::vertex::Vertex;

fn fx(v: f64) -> Fixed {
    Fixed::from_raw((v * 65536.0).round() as i32)
}

fn v3(x: f64, y: f64, z: f64) -> Vec3 {
    Vec3::new(fx(x), fx(y), fx(z))
}

fn v4(x: f64, y: f64, z: f64, w: f64) -> Vec4 {
    Vec4::new(fx(x), fx(y), fx(z), fx(w))
}

fn toward_light() -> Vec3 {
    v3(0.0, 0.0, -1.0)
}

fn all_shaders() -> Vec<ShaderType> {
    vec![
        ShaderType::RockyPlanet,
        ShaderType::VolcanicPlanet,
        ShaderType::GasGiant,
        ShaderType::IcePlanet,
        ShaderType::Moon,
        ShaderType::Sun,
        ShaderType::Metallic,
        ShaderType::Spaceship,
        ShaderType::Warship,
        ShaderType::Futuristic,
        ShaderType::Gradient,
    ]
}

#[test]
fn identity_transform_keeps_position_and_normal() {
    let v = Vertex::new(v3(1.5, -2.25, 3.0), v3(0.0, 0.6, 0.8), Vec2::new(fx(0.25), fx(0.75)));
    let out = vertex_shader(&v, &Uniforms { model_matrix: Mat4::identity() });
    assert_eq!(out.transformed_position, v.position);
    assert_eq!(out.transformed_normal, v.normal);
    assert_eq!(out.position, v.position);
    assert_eq!(out.normal, v.normal);
    assert_eq!(out.tex_coords, v.tex_coords);
    assert_eq!(out.color, v.color);
}

#[test]
fn new_vertex_is_black_and_untransformed() {
    let v = Vertex::new(v3(1.0, 2.0, 3.0), v3(0.0, 1.0, 0.0), Vec2::new(fx(0.5), fx(0.5)));
    assert_eq!(v.color, Color::black());
    assert_eq!(v.transformed_position, Vec3::zero());
    assert_eq!(v.transformed_normal, Vec3::zero());
    assert_eq!(v.with_color(Color::new(1, 2, 3)).color, Color::new(1, 2, 3));
    assert_eq!(v.with_color(Color::new(1, 2, 3)).position, v.position);
}

#[test]
fn transform_scales_and_moves() {
    let m = Mat4::new(
        v4(2.0, 0.0, 0.0, 10.0),
        v4(0.0, 2.0, 0.0, 20.0),
        v4(0.0, 0.0, 2.0, 0.0),
        v4(0.0, 0.0, 0.0, 1.0),
    );
    let v = Vertex::new(v3(1.0, 1.0, 1.0), v3(0.0, 0.0, 1.0), Vec2::new(fx(0.0), fx(0.0)));
    let out = vertex_shader(&v, &Uniforms { model_matrix: m });
    assert_eq!(out.transformed_position, v3(12.0, 22.0, 2.0));
    assert_eq!(out.transformed_normal, v3(0.0, 0.0, 0.5));
    assert_eq!(out.position, v3(1.0, 1.0, 1.0));
}

#[test]
fn transform_divides_by_w() {
    let m = Mat4::new(
        v4(1.0, 0.0, 0.0, 0.0),
        v4(0.0, 1.0, 0.0, 0.0),
        v4(0.0, 0.0, 1.0, 0.0),
        v4(0.0, 0.0, 0.0, 2.0),
    );
    let v = Vertex::new(v3(4.0, -6.0, 1.0), v3(0.0, 0.0, 1.0), Vec2::new(fx(0.0), fx(0.0)));
    let out = vertex_shader(&v, &Uniforms { model_matrix: m });
    assert_eq!(out.transformed_position, v3(2.0, -3.0, 0.5));
}

#[test]
fn transform_with_zero_w_saturates_by_sign() {
    let m = Mat4::new(
        v4(1.0, 0.0, 0.0, 0.0),
        v4(0.0, 1.0, 0.0, 0.0),
        v4(0.0, 0.0, 1.0, 0.0),
        v4(0.0, 0.0, 0.0, 0.0),
    );
    let v = Vertex::new(v3(4.0, -6.0, 0.0), v3(0.0, 0.0, 1.0), Vec2::new(fx(0.0), fx(0.0)));
    let out = vertex_shader(&v, &Uniforms { model_matrix: m });
    assert_eq!(out.transformed_position.x.raw, i32::MAX);
    assert_eq!(out.transformed_position.y.raw, i32::MIN);
    assert_eq!(out.transformed_position.z.raw, 0);
}

#[test]
fn singular_model_falls_back_to_the_identity_for_normals() {
    let m = Mat4::new(
        v4(0.0, 0.0, 0.0, 5.0),
        v4(0.0, 0.0, 0.0, 6.0),
        v4(0.0, 0.0, 0.0, 7.0),
        v4(0.0, 0.0, 0.0, 1.0),
    );
    assert_eq!(normal_matrix(&m), Mat3::identity());
    let v = Vertex::new(v3(1.0, 2.0, 3.0), v3(0.25, 0.5, 0.75), Vec2::new(fx(0.0), fx(0.0)));
    let out = vertex_shader(&v, &Uniforms { model_matrix: m });
    assert_eq!(out.transformed_normal, v.normal);
    assert_eq!(out.transformed_position, v3(5.0, 6.0, 7.0));
}

#[test]
fn normal_matrix_is_the_inverse_transpose() {
    let m = Mat4::new(
        v4(1.0, 1.0, 0.0, 9.0),
        v4(0.0, 1.0, 0.0, 9.0),
        v4(0.0, 0.0, 1.0, 9.0),
        v4(0.0, 0.0, 0.0, 1.0),
    );
    let n = normal_matrix(&m);
    assert_eq!(n.r0, v3(1.0, 0.0, 0.0));
    assert_eq!(n.r1, v3(-1.0, 1.0, 0.0));
    assert_eq!(n.r2, v3(0.0, 0.0, 1.0));
}

#[test]
fn diffuse_light_is_the_clamped_cosine() {
    assert_eq!(diffuse(&v3(0.0, 0.0, -1.0), &toward_light()), fx(1.0));
    assert_eq!(diffuse(&v3(0.0, 0.0, -5.0), &toward_light()), fx(1.0));
    assert_eq!(diffuse(&v3(0.0, 0.0, 1.0), &toward_light()), fx(0.0));
    assert_eq!(diffuse(&v3(1.0, 0.0, 0.0), &toward_light()), fx(0.0));
    assert_eq!(diffuse(&Vec3::zero(), &toward_light()), fx(0.0));
    assert_eq!(diffuse(&v3(3.0, 0.0, -4.0), &toward_light()).raw, 52429);
    assert_eq!(diffuse(&v3(0.0, 3.0, 4.0), &v3(0.0, 0.0, 1.0)).raw, 52428);
}

#[test]
fn power_and_wave() {
    assert_eq!(pow32(fx(1.0)), fx(1.0));
    assert_eq!(pow32(fx(0.0)), fx(0.0));
    assert_eq!(pow32(fx(0.5)).raw, 0);
    assert_eq!(pow32(fx(2.0)).raw, i32::MAX);
    assert_eq!(wave(fx(0.0)), fx(0.5));
    assert_eq!(wave(Fixed::from_raw(QUARTER_TURN_RAW)), fx(1.0));
    assert_eq!(wave(Fixed::from_raw(-QUARTER_TURN_RAW)), fx(0.0));
}

#[test]
fn fragment_shader_dims_the_fragment_color() {
    let f = Fragment::new(3, 4, Color::new(200, 100, 50), fx(1.0));
    assert_eq!(fragment_shader(&f, &toward_light(), &v3(0.0, 0.0, -2.0)), Color::new(200, 100, 50));
    assert_eq!(fragment_shader(&f, &toward_light(), &v3(0.0, 0.0, 2.0)), Color::black());
    assert_eq!(fragment_shader(&f, &toward_light(), &Vec3::zero()), Color::black());
    assert_eq!(
        fragment_shader(&f, &toward_light(), &v3(3.0, 0.0, -4.0)),
        Color::new(160, 80, 40)
    );
}

#[test]
fn gradient_by_height() {
    assert_eq!(color_from_position(&v3(0.0, 0.0, 0.0)), Color::new(100, 150, 227));
    assert_eq!(color_from_position(&v3(9.0, -1.0, 9.0)), Color::new(50, 100, 200));
    assert_eq!(color_from_position(&v3(0.0, 1.0, 0.0)), Color::new(150, 200, 255));
    assert_eq!(color_from_position(&v3(0.0, 1.5, 0.0)), Color::new(175, 225, 255));
    assert_eq!(color_from_position(&v3(0.0, -3.0, 0.0)), Color::new(0, 0, 145));
}

#[test]
fn metallic_without_highlight() {
    let n = v3(0.0, 0.0, -1.0);
    assert_eq!(metallic_color(&n, &toward_light(), fx(1.0)), Color::new(180, 190, 200));
    assert_eq!(metallic_color(&n, &toward_light(), fx(0.5)), Color::new(90, 95, 100));
    assert_eq!(
        metallic_shader(&v3(7.0, 7.0, 7.0), &v3(0.0, 0.0, -3.0), &toward_light()),
        Color::new(180, 190, 200)
    );
}

#[test]
fn metallic_with_full_highlight() {
    let n = v3(0.0, 0.0, 1.0);
    let l = v3(0.0, 0.0, 1.0);
    assert_eq!(metallic_color(&n, &l, fx(1.0)), Color::new(255, 255, 255));
    assert_eq!(metallic_color(&n, &l, fx(0.0)), Color::new(127, 127, 127));
    assert_eq!(metallic_shader(&Vec3::zero(), &n, &l), Color::new(255, 255, 255));
}

#[test]
fn spaceship_hull_and_panels() {
    let p = v3(0.0, 0.0, 0.0);
    let n = v3(0.0, 0.0, -1.0);
    assert_eq!(panel_variation(&p), fx(0.0));
    assert_eq!(spaceship_color(&p, &n, &toward_light(), fx(1.0)), Color::new(200, 170, 50));
    assert_eq!(spaceship_color(&p, &n, &toward_light(), fx(0.5)), Color::new(100, 85, 25));
    let panel = Vec3::new(Fixed::from_raw(QUARTER_TURN_RAW / 5), fx(0.0), fx(0.0));
    assert!(panel_variation(&panel).raw > 45875);
    assert_eq!(spaceship_color(&panel, &n, &toward_light(), fx(1.0)), Color::new(220, 190, 70));
}

#[test]
fn spaceship_shader_has_a_rim_light() {
    let p = v3(0.0, 0.0, 0.0);
    assert_eq!(spaceship_shader(&p, &v3(0.0, 0.0, -1.0), &toward_light()), Color::new(40, 80, 150));
    assert_eq!(spaceship_shader(&p, &v3(0.0, 0.0, 1.0), &toward_light()), Color::new(29, 44, 76));
    let panel = Vec3::new(Fixed::from_raw(QUARTER_TURN_RAW / 5), fx(0.0), fx(0.0));
    assert_eq!(
        spaceship_shader(&panel, &v3(0.0, 0.0, -1.0), &toward_light()),
        Color::new(60, 100, 170)
    );
}

#[test]
fn warship_hull_and_detail() {
    assert_eq!(warship_color(&v3(0.0, 0.0, 0.0), fx(1.0)), Color::new(150, 30, 30));
    assert_eq!(warship_color(&v3(0.0, 0.0, 0.0), fx(0.5)), Color::new(75, 15, 15));
    let detail = Vec3::new(fx(0.0), fx(0.0), Fixed::from_raw(QUARTER_TURN_RAW / 3));
    assert_eq!(warship_color(&detail, fx(1.0)), Color::new(200, 80, 20));
    assert_eq!(
        warship_shader(&v3(0.0, 0.0, 0.0), &v3(0.0, 0.0, -1.0), &toward_light()),
        Color::new(150, 30, 30)
    );
    assert_eq!(
        warship_shader(&v3(0.0, 0.0, 0.0), &v3(0.0, 0.0, 1.0), &toward_light()),
        Color::black()
    );
}

#[test]
fn futuristic_gradient() {
    assert_eq!(futuristic_color(&v3(0.0, 0.0, 0.0), fx(1.0)), Color::new(150, 100, 150));
    let top = Vec3::new(fx(0.0), Fixed::from_raw(QUARTER_TURN_RAW), fx(0.0));
    assert_eq!(futuristic_color(&top, fx(1.0)), Color::new(250, 100, 50));
    let bottom = Vec3::new(fx(0.0), Fixed::from_raw(-QUARTER_TURN_RAW), fx(0.0));
    assert_eq!(futuristic_color(&bottom, fx(1.0)), Color::new(50, 100, 250));
    assert_eq!(futuristic_color(&top, fx(0.5)), Color::new(125, 50, 25));
    assert_eq!(
        futuristic_shader(&top, &v3(0.0, 0.0, -1.0), &toward_light()),
        Color::new(250, 100, 50)
    );
}

#[test]
fn procedural_surfaces_at_the_origin() {
    let p = v3(0.0, 0.0, 0.0);
    assert_eq!(rocky_color(&p, fx(1.0)), Color::new(110, 75, 50));
    assert_eq!(moon_color(&p, fx(1.0)), Color::new(165, 165, 170));
    assert_eq!(ice_color(&p, fx(1.0)), Color::new(170, 210, 245));
    assert_eq!(volcanic_color(&p, fx(1.0), fx(0.0)), Color::new(70, 35, 25));
    assert_eq!(gas_giant_color(&p, fx(1.0), fx(0.0)), Color::new(215, 170, 125));
    assert_eq!(sun_color(&p, fx(0.0)), Color::new(255, 205, 60));
}

#[test]
fn procedural_patterns() {
    let ridge = Vec3::new(Fixed::from_raw(QUARTER_TURN_RAW / 8), fx(0.0), fx(0.0));
    assert_eq!(rocky_color(&ridge, fx(1.0)), Color::new(150, 110, 80));
    let crater = Vec3::new(Fixed::from_raw(QUARTER_TURN_RAW / 12 + 1), fx(0.0), fx(0.0));
    assert_eq!(moon_color(&crater, fx(1.0)), Color::new(90, 90, 95));
    let frost = Vec3::new(Fixed::from_raw(QUARTER_TURN_RAW / 4), fx(0.0), fx(0.0));
    assert_eq!(ice_color(&frost, fx(1.0)), Color::new(246, 255, 255));
}

#[test]
fn lava_glows_without_light() {
    let p = v3(0.0, 0.0, 0.0);
    let t = Fixed::from_raw(QUARTER_TURN_RAW);
    assert_eq!(volcanic_color(&p, fx(0.0), t), Color::new(255, 90, 10));
    assert_eq!(volcanic_color(&p, fx(1.0), t), Color::new(255, 90, 10));
    assert_eq!(volcanic_color(&p, fx(0.0), fx(0.0)), Color::black());
}

#[test]
fn sun_pulses_with_time_and_ignores_light() {
    let p = v3(0.0, 0.0, 0.0);
    let peak = Fixed::from_raw(QUARTER_TURN_RAW / 2);
    assert_eq!(sun_color(&p, peak), Color::new(255, 240, 90));
    let n = v3(0.0, 0.0, 1.0);
    assert_eq!(
        shade(ShaderType::Sun, &p, &n, &toward_light(), fx(0.0), peak),
        shade(ShaderType::Sun, &p, &n, &toward_light(), fx(1.0), peak)
    );
}

#[test]
fn gas_giant_bands_move_with_time() {
    let p = v3(0.0, 0.0, 0.0);
    let t = Fixed::from_raw(QUARTER_TURN_RAW);
    assert_ne!(gas_giant_color(&p, fx(1.0), t), gas_giant_color(&p, fx(1.0), fx(0.0)));
}

#[test]
fn dispatch_selects_the_strategy() {
    let p = v3(0.0, 0.0, 0.0);
    let n = v3(0.0, 0.0, -1.0);
    let l = toward_light();
    let (i, t) = (fx(1.0), fx(0.0));
    assert_eq!(shade(ShaderType::RockyPlanet, &p, &n, &l, i, t), rocky_color(&p, i));
    assert_eq!(shade(ShaderType::VolcanicPlanet, &p, &n, &l, i, t), volcanic_color(&p, i, t));
    assert_eq!(shade(ShaderType::GasGiant, &p, &n, &l, i, t), gas_giant_color(&p, i, t));
    assert_eq!(shade(ShaderType::IcePlanet, &p, &n, &l, i, t), ice_color(&p, i));
    assert_eq!(shade(ShaderType::Moon, &p, &n, &l, i, t), moon_color(&p, i));
    assert_eq!(shade(ShaderType::Sun, &p, &n, &l, i, t), sun_color(&p, t));
    assert_eq!(shade(ShaderType::Metallic, &p, &n, &l, i, t), metallic_color(&n, &l, i));
    assert_eq!(shade(ShaderType::Spaceship, &p, &n, &l, i, t), spaceship_color(&p, &n, &l, i));
    assert_eq!(shade(ShaderType::Warship, &p, &n, &l, i, t), warship_color(&p, i));
    assert_eq!(shade(ShaderType::Futuristic, &p, &n, &l, i, t), futuristic_color(&p, i));
    assert_eq!(shade(ShaderType::Gradient, &p, &n, &l, i, t), Color::new(100, 150, 227));
    assert_eq!(shade(ShaderType::Gradient, &p, &n, &l, fx(0.5), t), Color::new(50, 75, 113));
}

#[test]
fn every_strategy_is_deterministic() {
    let p = v3(0.37, -1.12, 2.5);
    let n = v3(0.0, 0.6, -0.8);
    for s in all_shaders() {
        let one = shade(s, &p, &n, &toward_light(), fx(0.8), fx(3.25));
        let two = shade(s, &p, &n, &toward_light(), fx(0.8), fx(3.25));
        assert_eq!(one, two);
    }
}

#[test]
fn every_strategy_survives_the_ends_of_the_range() {
    let lo = Fixed::from_raw(i32::MIN);
    let hi = Fixed::from_raw(i32::MAX);
    for s in all_shaders() {
        for p in [Vec3::new(lo, lo, lo), Vec3::new(hi, hi, hi), Vec3::new(lo, hi, lo)] {
            for i in [lo, hi, fx(0.0)] {
                let one = shade(s, &p, &p, &p, i, hi);
                let two = shade(s, &p, &p, &p, i, hi);
                assert_eq!(one, two);
            }
        }
    }
}
