use soft_raster::color::Color;
use soft_raster::fixed::{Fixed, QUARTER_TURN_RAW};
use soft_raster::fragment::Fragment;
use soft_raster::framebuffer::Framebuffer;
use soft_raster::render::{
    assemble, create_model_matrix, rasterize, render, rotation_x, rotation_y, rotation_z,
    transform_vertices, translate_scale, write_fragments,
};
use soft_raster::shader::{vertex_shader, ShaderType, Uniforms};
use soft_raster::triangle::{triangle, Triangle};
use soft_raster::vector::{Mat4, Vec2, Vec3, Vec4};
use soft_raster::vertex::Vertex;

fn fx(v: f64) -> Fixed {
    Fixed::from_raw((v * 65536.0).round() as i32)
}

fn v3(x: f64, y: f64, z: f64) -> Vec3 {
    Vec3::new(fx(x), fx(y), fx(z))
}

fn v4(x: f64, y: f64, z: f64, w: f64) -> Vec4 {
    Vec4::new(fx(x), fx(y), fx(z), fx(w))
}

fn model_vertex(x: f64, y: f64, z: f64) -> Vertex {
    Vertex::new(v3(x, y, z), v3(0.0, 0.0, -1.0), Vec2::new(fx(0.0), fx(0.0)))
}

fn corner_triangle() -> Vec<Vertex> {
    vec![model_vertex(0.0, 0.0, 0.0), model_vertex(4.0, 0.0, 0.0), model_vertex(0.0, 4.0, 0.0)]
}

#[test]
fn model_matrix_scenario() {
    let m = create_model_matrix(v3(10.0, 20.0, 0.0), fx(2.0), v3(0.0, 0.0, 0.0));
    let v = model_vertex(0.0, 0.0, 0.0);
    let out = vertex_shader(&v, &Uniforms { model_matrix: m });
    assert_eq!(out.transformed_position, v3(10.0, 20.0, 0.0));
    let w = model_vertex(1.0, 1.0, 1.0);
    let out = vertex_shader(&w, &Uniforms { model_matrix: m });
    assert_eq!(out.transformed_position, v3(12.0, 22.0, 2.0));
}

#[test]
fn unrotated_model_matrix_scales_and_moves() {
    let m = create_model_matrix(v3(10.0, 20.0, 30.0), fx(2.0), v3(0.0, 0.0, 0.0));
    assert_eq!(m, translate_scale(v3(10.0, 20.0, 30.0), fx(2.0)));
    assert_eq!(m.r0, v4(2.0, 0.0, 0.0, 10.0));
    assert_eq!(m.r1, v4(0.0, 2.0, 0.0, 20.0));
    assert_eq!(m.r2, v4(0.0, 0.0, 2.0, 30.0));
    assert_eq!(m.r3, v4(0.0, 0.0, 0.0, 1.0));
}

#[test]
fn model_matrix_is_reproducible() {
    let one = create_model_matrix(v3(1.5, -2.0, 3.0), fx(80.0), v3(0.3, 1.7, -2.9));
    let two = create_model_matrix(v3(1.5, -2.0, 3.0), fx(80.0), v3(0.3, 1.7, -2.9));
    assert_eq!(one, two);
}

#[test]
fn quarter_turns_about_each_axis() {
    let q = Fixed::from_raw(QUARTER_TURN_RAW);
    let one = v4(0.0, 0.0, 0.0, 1.0);
    assert_eq!(rotation_z(q).mul_vec(v4(1.0, 0.0, 0.0, 1.0)), v4(0.0, 1.0, 0.0, 1.0));
    assert_eq!(rotation_z(q).mul_vec(v4(0.0, 1.0, 0.0, 1.0)), v4(-1.0, 0.0, 0.0, 1.0));
    assert_eq!(rotation_x(q).mul_vec(v4(0.0, 1.0, 0.0, 1.0)), v4(0.0, 0.0, 1.0, 1.0));
    assert_eq!(rotation_x(q).mul_vec(v4(0.0, 0.0, 1.0, 1.0)), v4(0.0, -1.0, 0.0, 1.0));
    assert_eq!(rotation_y(q).mul_vec(v4(0.0, 0.0, 1.0, 1.0)), v4(1.0, 0.0, 0.0, 1.0));
    assert_eq!(rotation_y(q).mul_vec(v4(1.0, 0.0, 0.0, 1.0)), v4(0.0, 0.0, -1.0, 1.0));
    assert_eq!(rotation_x(fx(0.0)), Mat4::identity());
    assert_eq!(rotation_y(fx(0.0)), Mat4::identity());
    assert_eq!(rotation_z(fx(0.0)), Mat4::identity());
    assert_eq!(rotation_z(q).mul_vec(one), one);
}

#[test]
fn rotations_compose_x_then_y_then_z() {
    let q = Fixed::from_raw(QUARTER_TURN_RAW);
    let m = create_model_matrix(v3(0.0, 0.0, 0.0), fx(1.0), Vec3::new(q, q, fx(0.0)));
    assert_eq!(m.mul_vec(v4(0.0, 1.0, 0.0, 1.0)), v4(1.0, 0.0, 0.0, 1.0));
    let n = create_model_matrix(v3(5.0, 0.0, 0.0), fx(3.0), Vec3::new(fx(0.0), fx(0.0), q));
    assert_eq!(n.mul_vec(v4(1.0, 0.0, 0.0, 1.0)), v4(5.0, 3.0, 0.0, 1.0));
}

#[test]
fn transform_stage_keeps_order_and_length() {
    let vertices = corner_triangle();
    let u = Uniforms { model_matrix: translate_scale(v3(1.0, 2.0, 3.0), fx(2.0)) };
    let out = transform_vertices(&vertices, &u);
    assert_eq!(out.len(), 3);
    for i in 0..3 {
        assert_eq!(out[i], vertex_shader(&vertices[i], &u));
    }
    assert_eq!(out[1].transformed_position, v3(9.0, 2.0, 3.0));
    assert!(transform_vertices(&[], &u).is_empty());
}

#[test]
fn assembly_groups_consecutive_triples() {
    let vertices: Vec<Vertex> = (0..7).map(|i| model_vertex(i as f64, 0.0, 0.0)).collect();
    let triangles = assemble(&vertices);
    assert_eq!(triangles.len(), 2);
    assert_eq!(triangles[0], Triangle { v1: vertices[0], v2: vertices[1], v3: vertices[2] });
    assert_eq!(triangles[1], Triangle { v1: vertices[3], v2: vertices[4], v3: vertices[5] });
}

#[test]
fn assembly_drops_leftover_vertices() {
    let vertices: Vec<Vertex> = (0..8).map(|i| model_vertex(i as f64, 0.0, 0.0)).collect();
    assert_eq!(assemble(&vertices[..0]).len(), 0);
    assert_eq!(assemble(&vertices[..1]).len(), 0);
    assert_eq!(assemble(&vertices[..2]).len(), 0);
    assert_eq!(assemble(&vertices[..3]).len(), 1);
    assert_eq!(assemble(&vertices[..5]).len(), 1);
    assert_eq!(assemble(&vertices[..6]).len(), 2);
    assert_eq!(assemble(&vertices[..8]).len(), 2);
}

#[test]
fn rasterization_stage_concatenates_in_order() {
    let u = Uniforms { model_matrix: Mat4::identity() };
    let mut vertices = corner_triangle();
    vertices.extend(vec![
        model_vertex(10.0, 10.0, 0.0),
        model_vertex(12.0, 10.0, 0.0),
        model_vertex(10.0, 12.0, 0.0),
    ]);
    let transformed = transform_vertices(&vertices, &u);
    let triangles = assemble(&transformed);
    let all = rasterize(&triangles, ShaderType::Moon, fx(0.0));
    let t0 = &triangles[0];
    let t1 = &triangles[1];
    let mut expected = triangle(&t0.v1, &t0.v2, &t0.v3, ShaderType::Moon, fx(0.0));
    expected.extend(triangle(&t1.v1, &t1.v2, &t1.v3, ShaderType::Moon, fx(0.0)));
    assert_eq!(all, expected);
    assert_eq!(all.len(), 13);
    assert!(rasterize(&[], ShaderType::Moon, fx(0.0)).is_empty());
}

#[test]
fn fragments_are_written_in_their_own_color() {
    let mut fb = Framebuffer::new(4, 4);
    fb.clear();
    let frags = vec![
        Fragment::new(1, 1, Color::new(255, 0, 0), fx(5.0)),
        Fragment::new(1, 1, Color::new(0, 255, 0), fx(10.0)),
        Fragment::new(2, 2, Color::new(0, 0, 255), fx(1.0)),
        Fragment::new(-1, 2, Color::new(9, 9, 9), fx(0.0)),
        Fragment::new(4, 0, Color::new(9, 9, 9), fx(0.0)),
        Fragment::new(0, -3, Color::new(9, 9, 9), fx(0.0)),
    ];
    write_fragments(&mut fb, &frags);
    assert_eq!(fb.pixel(1, 1), Some(0xff0000));
    assert_eq!(fb.pixel(2, 2), Some(0x0000ff));
    assert_eq!(fb.buffer().iter().filter(|&&p| p != 0).count(), 2);
    assert_eq!(fb.depth(1, 1), Some(fx(5.0)));
}

#[test]
fn fragment_left_of_the_image_is_dropped() {
    let mut fb = Framebuffer::new(4, 4);
    fb.clear();
    write_fragments(&mut fb, &[Fragment::new(-1, 0, Color::new(255, 255, 255), fx(0.0))]);
    assert!(fb.buffer().iter().all(|&p| p == 0));
}

#[test]
fn render_draws_the_covered_pixels() {
    let mut fb = Framebuffer::new(8, 8);
    fb.clear();
    let u = Uniforms { model_matrix: Mat4::identity() };
    render(&mut fb, &u, &corner_triangle(), ShaderType::Gradient, fx(0.0));
    assert_eq!(fb.pixel(1, 1), Some(0xafe1ff));
    assert_eq!(fb.pixel(0, 0), Some(Color::new(125, 175, 241).to_hex()));
    assert_eq!(fb.pixel(3, 3), Some(0));
    assert_eq!(fb.buffer().iter().filter(|&&p| p != 0).count(), 10);
    assert_eq!(fb.depth(1, 1), Some(fx(0.0)));
    assert_eq!(fb.depth(3, 3), Some(Fixed::max_value()));
}

#[test]
fn render_keeps_the_nearer_object() {
    let mut fb = Framebuffer::new(8, 8);
    fb.clear();
    let near = Uniforms { model_matrix: translate_scale(v3(0.0, 0.0, 5.0), fx(1.0)) };
    let far = Uniforms { model_matrix: translate_scale(v3(0.0, 0.0, 10.0), fx(1.0)) };
    render(&mut fb, &near, &corner_triangle(), ShaderType::Warship, fx(0.0));
    let after_near = fb.buffer().clone();
    render(&mut fb, &far, &corner_triangle(), ShaderType::Gradient, fx(0.0));
    assert_eq!(fb.buffer(), &after_near);
    assert_eq!(fb.pixel(1, 1), Some(Color::new(150, 30, 30).to_hex()));
    render(&mut fb, &near, &corner_triangle(), ShaderType::Moon, fx(0.0));
    assert_eq!(fb.pixel(1, 1), Some(Color::new(165, 165, 170).to_hex()));
}

#[test]
fn render_clips_at_the_image() {
    let mut fb = Framebuffer::new(3, 2);
    fb.clear();
    let u = Uniforms { model_matrix: translate_scale(v3(-1.0, -1.0, 0.0), fx(2.0)) };
    render(&mut fb, &u, &corner_triangle(), ShaderType::Moon, fx(0.0));
    assert!(fb.buffer().iter().all(|&p| p == 0xa5a5aa));
    let mut tiny = Framebuffer::new(0, 0);
    render(&mut tiny, &u, &corner_triangle(), ShaderType::Moon, fx(0.0));
    assert!(tiny.buffer().is_empty());
}

#[test]
fn render_ignores_leftover_vertices_and_flat_triangles() {
    let mut fb = Framebuffer::new(8, 8);
    fb.clear();
    let u = Uniforms { model_matrix: Mat4::identity() };
    let mut vertices = vec![
        model_vertex(0.0, 0.0, 0.0),
        model_vertex(3.0, 3.0, 0.0),
        model_vertex(6.0, 6.0, 0.0),
        model_vertex(1.0, 1.0, 0.0),
        model_vertex(2.0, 5.0, 0.0),
    ];
    render(&mut fb, &u, &vertices, ShaderType::Moon, fx(0.0));
    assert!(fb.buffer().iter().all(|&p| p == 0));
    vertices.truncate(2);
    render(&mut fb, &u, &vertices, ShaderType::Moon, fx(0.0));
    assert!(fb.buffer().iter().all(|&p| p == 0));
}

#[test]
fn nearest_fragment_wins_in_any_order() {
    let frags = vec![
        Fragment::new(1, 1, Color::new(1, 0, 0), fx(7.0)),
        Fragment::new(1, 1, Color::new(2, 0, 0), fx(3.0)),
        Fragment::new(1, 1, Color::new(3, 0, 0), fx(9.0)),
        Fragment::new(1, 1, Color::new(4, 0, 0), fx(5.0)),
    ];
    let orders: [[usize; 4]; 4] = [[0, 1, 2, 3], [3, 2, 1, 0], [1, 0, 3, 2], [2, 3, 0, 1]];
    for order in orders {
        let mut fb = Framebuffer::new(3, 3);
        fb.clear();
        let shuffled: Vec<Fragment> = order.iter().map(|&i| frags[i]).collect();
        write_fragments(&mut fb, &shuffled);
        assert_eq!(fb.pixel(1, 1), Some(Color::new(2, 0, 0).to_hex()));
        assert_eq!(fb.depth(1, 1), Some(fx(3.0)));
    }
}
