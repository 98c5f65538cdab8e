//! The frame pipeline: model matrix, vertex transform, primitive assembly,
//! rasterization, and the depth-tested writes that end it.

use vstd::prelude::*;
use crate::fixed::{Fixed, sin_raw, cos_raw, half_wave_raw};
use crate::fragment::Fragment;
use crate::framebuffer::{Framebuffer, FramebufferView, lemma_index_in_range};
use crate::shader::{ShaderType, Uniforms, vertex_shader, spec_vertex_shader};
use crate::triangle::{Triangle, triangle};
use crate::vector::{Vec3, Vec4, Mat4, lemma_identity_mul};
use crate::vertex::Vertex;

verus! {

/// The rotation about the X axis by `angle` radians.
pub open spec fn spec_rotation_x(angle: Fixed) -> Mat4 {
    let (s, c) = (angle.sin(), angle.cos());
    let (o, z) = (Fixed { raw: 65536 }, Fixed { raw: 0 });
    Mat4 {
        r0: Vec4 { x: o, y: z, z: z, w: z },
        r1: Vec4 { x: z, y: c, z: s.neg(), w: z },
        r2: Vec4 { x: z, y: s, z: c, w: z },
        r3: Vec4 { x: z, y: z, z: z, w: o },
    }
}

/// The rotation about the Y axis by `angle` radians.
pub open spec fn spec_rotation_y(angle: Fixed) -> Mat4 {
    let (s, c) = (angle.sin(), angle.cos());
    let (o, z) = (Fixed { raw: 65536 }, Fixed { raw: 0 });
    Mat4 {
        r0: Vec4 { x: c, y: z, z: s, w: z },
        r1: Vec4 { x: z, y: o, z: z, w: z },
        r2: Vec4 { x: s.neg(), y: z, z: c, w: z },
        r3: Vec4 { x: z, y: z, z: z, w: o },
    }
}

/// The rotation about the Z axis by `angle` radians.
pub open spec fn spec_rotation_z(angle: Fixed) -> Mat4 {
    let (s, c) = (angle.sin(), angle.cos());
    let (o, z) = (Fixed { raw: 65536 }, Fixed { raw: 0 });
    Mat4 {
        r0: Vec4 { x: c, y: s.neg(), z: z, w: z },
        r1: Vec4 { x: s, y: c, z: z, w: z },
        r2: Vec4 { x: z, y: z, z: o, w: z },
        r3: Vec4 { x: z, y: z, z: z, w: o },
    }
}

/// The matrix that scales by `scale` on every axis and then moves by
/// `translation`.
pub open spec fn spec_translate_scale(translation: Vec3, scale: Fixed) -> Mat4 {
    let (o, z) = (Fixed { raw: 65536 }, Fixed { raw: 0 });
    Mat4 {
        r0: Vec4 { x: scale, y: z, z: z, w: translation.x },
        r1: Vec4 { x: z, y: scale, z: z, w: translation.y },
        r2: Vec4 { x: z, y: z, z: scale, w: translation.z },
        r3: Vec4 { x: z, y: z, z: z, w: o },
    }
}

/// The model matrix `Translate∘Scale · (Rz · Ry · Rx)`: a point is turned
/// about X, then Y, then Z, then scaled, then moved.
pub open spec fn spec_create_model_matrix(translation: Vec3, scale: Fixed, rotation: Vec3) -> Mat4 {
    spec_translate_scale(translation, scale).mul(
        spec_rotation_z(rotation.z).mul(spec_rotation_y(rotation.y)).mul(
            spec_rotation_x(rotation.x),
        ),
    )
}

/// The rotation about the X axis by `angle` radians.
pub fn rotation_x(angle: Fixed) -> (m: Mat4)
    ensures
        m == spec_rotation_x(angle),
{
    let (s, c) = (angle.sin(), angle.cos());
    let (o, z) = (Fixed { raw: 65536 }, Fixed { raw: 0 });
    Mat4 {
        r0: Vec4 { x: o, y: z, z: z, w: z },
        r1: Vec4 { x: z, y: c, z: s.neg(), w: z },
        r2: Vec4 { x: z, y: s, z: c, w: z },
        r3: Vec4 { x: z, y: z, z: z, w: o },
    }
}

/// The rotation about the Y axis by `angle` radians.
pub fn rotation_y(angle: Fixed) -> (m: Mat4)
    ensures
        m == spec_rotation_y(angle),
{
    let (s, c) = (angle.sin(), angle.cos());
    let (o, z) = (Fixed { raw: 65536 }, Fixed { raw: 0 });
    Mat4 {
        r0: Vec4 { x: c, y: z, z: s, w: z },
        r1: Vec4 { x: z, y: o, z: z, w: z },
        r2: Vec4 { x: s.neg(), y: z, z: c, w: z },
        r3: Vec4 { x: z, y: z, z: z, w: o },
    }
}

/// The rotation about the Z axis by `angle` radians.
pub fn rotation_z(angle: Fixed) -> (m: Mat4)
    ensures
        m == spec_rotation_z(angle),
{
    let (s, c) = (angle.sin(), angle.cos());
    let (o, z) = (Fixed { raw: 65536 }, Fixed { raw: 0 });
    Mat4 {
        r0: Vec4 { x: c, y: s.neg(), z: z, w: z },
        r1: Vec4 { x: s, y: c, z: z, w: z },
        r2: Vec4 { x: z, y: z, z: o, w: z },
        r3: Vec4 { x: z, y: z, z: z, w: o },
    }
}

/// The matrix that scales by `scale` and then moves by `translation`.
pub fn translate_scale(translation: Vec3, scale: Fixed) -> (m: Mat4)
    ensures
        m == spec_translate_scale(translation, scale),
{
    let (o, z) = (Fixed { raw: 65536 }, Fixed { raw: 0 });
    Mat4 {
        r0: Vec4 { x: scale, y: z, z: z, w: translation.x },
        r1: Vec4 { x: z, y: scale, z: z, w: translation.y },
        r2: Vec4 { x: z, y: z, z: scale, w: translation.z },
        r3: Vec4 { x: z, y: z, z: z, w: o },
    }
}

/// Builds the model matrix of an object from where it is, how large it is
/// and how it is turned: `rotation` holds the angles about X, Y and Z in
/// radians.
pub fn create_model_matrix(translation: Vec3, scale: Fixed, rotation: Vec3) -> (m: Mat4)
    ensures
        m == spec_create_model_matrix(translation, scale, rotation),
{
    let rotation_matrix_x = rotation_x(rotation.x);
    let rotation_matrix_y = rotation_y(rotation.y);
    let rotation_matrix_z = rotation_z(rotation.z);
    let rotation_matrix = rotation_matrix_z.mul(rotation_matrix_y).mul(rotation_matrix_x);
    let transform_matrix = translate_scale(translation, scale);
    transform_matrix.mul(rotation_matrix)
}

/// At the angle zero the sine is zero and the cosine is one, both exactly.
pub proof fn lemma_trig_at_zero()
    ensures
        sin_raw(0) == 0,
        cos_raw(0) == 65536,
{
    assert(half_wave_raw(0) == 0);
    assert(102944int * (205888 - 102944) == 10597467136);
    assert(16 * 10597467136int * 65536 == 11112249699598336);
    assert(5 * 205888int * 205888 - 4 * 10597467136 == 169559474176);
    assert(11112249699598336int / 169559474176 == 65536);
    assert(half_wave_raw(102944) == 65536);
}

/// An object that is not turned has the model matrix that scales and moves
/// it, and nothing else.
pub proof fn lemma_unrotated_model_matrix(translation: Vec3, scale: Fixed)
    ensures
        spec_create_model_matrix(translation, scale, Vec3::zero()) == spec_translate_scale(
            translation,
            scale,
        ),
{
    lemma_trig_at_zero();
    let zero = Fixed { raw: 0 };
    let i = Mat4::identity();
    assert(zero.sin() == zero);
    assert(zero.cos() == Fixed { raw: 65536 });
    assert(zero.neg() == zero);
    assert(spec_rotation_x(zero) == i);
    assert(spec_rotation_y(zero) == i);
    assert(spec_rotation_z(zero) == i);
    lemma_identity_mul(i);
    lemma_identity_mul(spec_translate_scale(translation, scale));
}

/// Whatever the scale and the rotation, the model matrix carries the origin
/// of model space to the translation: its last column is the translation
/// above a one.
pub proof fn lemma_model_matrix_moves_origin(translation: Vec3, scale: Fixed, rotation: Vec3)
    ensures
        spec_create_model_matrix(translation, scale, rotation).col3() == (Vec4 {
            x: translation.x,
            y: translation.y,
            z: translation.z,
            w: Fixed { raw: 65536 },
        }),
        spec_create_model_matrix(translation, scale, rotation).mul_vec(
            Vec4 {
                x: Fixed { raw: 0 },
                y: Fixed { raw: 0 },
                z: Fixed { raw: 0 },
                w: Fixed { raw: 65536 },
            },
        ) == (Vec4 {
            x: translation.x,
            y: translation.y,
            z: translation.z,
            w: Fixed { raw: 65536 },
        }),
{
    assert forall|a: int| #[trigger] ((a * 65536) / 65536) == a by {
        assert((a * 65536) / 65536 == a) by (nonlinear_arith);
    }
    assert forall|a: int| #[trigger] (a * 0) == 0 by {
        assert(a * 0 == 0) by (nonlinear_arith);
    }
    let unit = Vec4 {
        x: Fixed { raw: 0 },
        y: Fixed { raw: 0 },
        z: Fixed { raw: 0 },
        w: Fixed { raw: 65536 },
    };
    let rx = spec_rotation_x(rotation.x);
    let ry = spec_rotation_y(rotation.y);
    let rz = spec_rotation_z(rotation.z);
    let ts = spec_translate_scale(translation, scale);
    assert(rx.col3() == unit && ry.col3() == unit && rz.col3() == unit);
    lemma_last_column(rz, ry);
    lemma_last_column(rz.mul(ry), rx);
    let r = rz.mul(ry).mul(rx);
    assert(r.col3() == unit);
    let m = ts.mul(r);
    assert(ts.r0.dot_wide(unit) == translation.x.raw * 65536);
    assert(ts.r1.dot_wide(unit) == translation.y.raw * 65536);
    assert(ts.r2.dot_wide(unit) == translation.z.raw * 65536);
    assert(ts.r3.dot_wide(unit) == 65536 * 65536);
    assert(m.col3() == Vec4 {
        x: translation.x,
        y: translation.y,
        z: translation.z,
        w: Fixed { raw: 65536 },
    });
    assert(m.r0.dot_wide(unit) == m.r0.w.raw * 65536);
    assert(m.r1.dot_wide(unit) == m.r1.w.raw * 65536);
    assert(m.r2.dot_wide(unit) == m.r2.w.raw * 65536);
    assert(m.r3.dot_wide(unit) == m.r3.w.raw * 65536);
}

/// Where both factors end in the column `(0, 0, 0, 1)`, so does their
/// product.
proof fn lemma_last_column(a: Mat4, b: Mat4)
    requires
        a.col3() == (Vec4 {
            x: Fixed { raw: 0 },
            y: Fixed { raw: 0 },
            z: Fixed { raw: 0 },
            w: Fixed { raw: 65536 },
        }),
        b.col3() == a.col3(),
    ensures
        a.mul(b).col3() == a.col3(),
{
    assert forall|v: int| #[trigger] (v * 0) == 0 by {
        assert(v * 0 == 0) by (nonlinear_arith);
    }
    let unit = a.col3();
    assert(a.r0.dot_wide(unit) == 0);
    assert(a.r1.dot_wide(unit) == 0);
    assert(a.r2.dot_wide(unit) == 0);
    assert(a.r3.dot_wide(unit) == 65536 * 65536);
}

/// A vertex at the origin of model space is transformed to the translation
/// of its object, whatever the scale and the rotation.
pub proof fn lemma_origin_is_placed_at_translation(
    vertex: Vertex,
    translation: Vec3,
    scale: Fixed,
    rotation: Vec3,
)
    requires
        vertex.position == Vec3::zero(),
    ensures
        spec_vertex_shader(
            vertex,
            Uniforms { model_matrix: spec_create_model_matrix(translation, scale, rotation) },
        ).transformed_position == translation,
{
    lemma_model_matrix_moves_origin(translation, scale, rotation);
    assert forall|a: int| #[trigger] ((a * 65536) / 65536) == a by {
        assert((a * 65536) / 65536 == a) by (nonlinear_arith);
    }
}

/// Every vertex after the transform stage.
pub open spec fn spec_transformed(vertices: Seq<Vertex>, uniforms: Uniforms) -> Seq<Vertex> {
    Seq::new(vertices.len(), |i: int| spec_vertex_shader(vertices[i], uniforms))
}

/// The triangles of a vertex sequence: the consecutive triples, in order.
/// One or two vertices left over at the end belong to no triangle.
pub open spec fn spec_assembled(vertices: Seq<Vertex>) -> Seq<Triangle> {
    Seq::new(
        (vertices.len() / 3) as nat,
        |k: int| Triangle { v1: vertices[3 * k], v2: vertices[3 * k + 1], v3: vertices[3 * k + 2] },
    )
}

/// The fragments of a sequence of triangles: those of the first, then those
/// of the second, and so on.
pub open spec fn spec_rasterized(triangles: Seq<Triangle>, shader: ShaderType, time: Fixed) -> Seq<
    Fragment,
>
    decreases triangles.len(),
{
    if triangles.len() == 0 {
        Seq::empty()
    } else {
        spec_rasterized(triangles.drop_last(), shader, time) + triangles.last().fragments(
            shader,
            time,
        )
    }
}

/// The image after a sequence of fragments has been written in order, each
/// under the depth test.
pub open spec fn written(view: FramebufferView, fragments: Seq<Fragment>) -> FramebufferView
    decreases fragments.len(),
{
    if fragments.len() == 0 {
        view
    } else {
        let f = fragments.last();
        written(view, fragments.drop_last()).plot(
            f.x as int,
            f.y as int,
            f.depth.raw as int,
            f.color.to_hex(),
        )
    }
}

/// The image after one object has been rendered into it.
pub open spec fn spec_render(
    view: FramebufferView,
    uniforms: Uniforms,
    vertices: Seq<Vertex>,
    shader: ShaderType,
    time: Fixed,
) -> FramebufferView {
    written(
        view,
        spec_rasterized(spec_assembled(spec_transformed(vertices, uniforms)), shader, time),
    )
}

/// Writing fragments keeps the image well formed, with its size and
/// background, and moves no depth away from the viewer.
pub proof fn lemma_written_wf(view: FramebufferView, fragments: Seq<Fragment>)
    requires
        view.wf(),
    ensures
        written(view, fragments).wf(),
        written(view, fragments).width == view.width,
        written(view, fragments).height == view.height,
        written(view, fragments).background == view.background,
        forall|i: int|
            0 <= i < view.depths.len() ==> #[trigger] written(view, fragments).depths[i]
                <= view.depths[i],
    decreases fragments.len(),
{
    if fragments.len() > 0 {
        let f = fragments.last();
        let prev = written(view, fragments.drop_last());
        lemma_written_wf(view, fragments.drop_last());
        if prev.in_bounds(f.x as int, f.y as int) {
            lemma_index_in_range(prev, f.x as int, f.y as int);
        }
    }
}

/// The nearest write wins: after a sequence of fragments has been written,
/// no pixel of the image is farther than any fragment that fell on it.
pub proof fn lemma_nearest_wins(view: FramebufferView, fragments: Seq<Fragment>, k: int)
    requires
        view.wf(),
        0 <= k < fragments.len(),
        view.in_bounds(fragments[k].x as int, fragments[k].y as int),
    ensures
        written(view, fragments).depths[view.index(fragments[k].x as int, fragments[k].y as int)]
            <= fragments[k].depth.raw,
    decreases fragments.len(),
{
    let f = fragments.last();
    let rest = fragments.drop_last();
    let prev = written(view, rest);
    lemma_written_wf(view, rest);
    lemma_index_in_range(view, fragments[k].x as int, fragments[k].y as int);
    if prev.in_bounds(f.x as int, f.y as int) {
        lemma_index_in_range(prev, f.x as int, f.y as int);
    }
    if k < fragments.len() - 1 {
        lemma_nearest_wins(view, rest, k);
        assert(rest[k] == fragments[k]);
    }
}

/// Fewer than three vertices make no triangle, and rendering them leaves
/// the image as it was.
pub proof fn lemma_too_few_vertices(
    view: FramebufferView,
    uniforms: Uniforms,
    vertices: Seq<Vertex>,
    shader: ShaderType,
    time: Fixed,
)
    requires
        vertices.len() < 3,
    ensures
        spec_render(view, uniforms, vertices, shader, time) == view,
{
    let triangles = spec_assembled(spec_transformed(vertices, uniforms));
    assert(triangles.len() == 0);
    assert(spec_rasterized(triangles, shader, time).len() == 0);
}

/// The transform stage: every vertex through the vertex shader.
pub fn transform_vertices(vertex_array: &[Vertex], uniforms: &Uniforms) -> (out: Vec<Vertex>)
    ensures
        out@ == spec_transformed(vertex_array@, *uniforms),
{
    let mut transformed_vertices: Vec<Vertex> = Vec::with_capacity(vertex_array.len());
    let mut i: usize = 0;
    while i < vertex_array.len()
        invariant
            i <= vertex_array.len(),
            transformed_vertices@.len() == i,
            forall|j: int|
                0 <= j < i ==> transformed_vertices@[j] == spec_vertex_shader(
                    vertex_array@[j],
                    *uniforms,
                ),
        decreases vertex_array.len() - i,
    {
        let transformed = vertex_shader(&vertex_array[i], uniforms);
        transformed_vertices.push(transformed);
        i = i + 1;
    }
    assert(transformed_vertices@ =~= spec_transformed(vertex_array@, *uniforms));
    transformed_vertices
}

/// Primitive assembly: groups the vertices into consecutive triples. The
/// order of the vertices is kept, and one or two left over are dropped.
pub fn assemble(vertices: &[Vertex]) -> (triangles: Vec<Triangle>)
    ensures
        triangles@ == spec_assembled(vertices@),
        triangles@.len() == vertices@.len() / 3,
{
    let mut triangles: Vec<Triangle> = Vec::new();
    let n: usize = vertices.len();
    let mut i: usize = 0;
    while n - i >= 3
        invariant
            n == vertices@.len(),
            i == 3 * triangles@.len(),
            i <= n,
            forall|k: int|
                0 <= k < triangles@.len() ==> triangles@[k] == (Triangle {
                    v1: vertices@[3 * k],
                    v2: vertices@[3 * k + 1],
                    v3: vertices@[3 * k + 2],
                }),
        decreases n - i,
    {
        triangles.push(Triangle { v1: vertices[i], v2: vertices[i + 1], v3: vertices[i + 2] });
        i = i + 3;
    }
    assert(triangles@ =~= spec_assembled(vertices@));
    triangles
}

/// The rasterization stage: the fragments of every triangle, in order.
pub fn rasterize(triangles: &[Triangle], shader_type: ShaderType, time: Fixed) -> (fragments: Vec<
    Fragment,
>)
    ensures
        fragments@ == spec_rasterized(triangles@, shader_type, time),
{
    let mut fragments: Vec<Fragment> = Vec::new();
    let mut i: usize = 0;
    while i < triangles.len()
        invariant
            i <= triangles.len(),
            fragments@ == spec_rasterized(triangles@.take(i as int), shader_type, time),
        decreases triangles.len() - i,
    {
        let tri = &triangles[i];
        let mut more: Vec<Fragment> = triangle(&tri.v1, &tri.v2, &tri.v3, shader_type, time);
        fragments.append(&mut more);
        proof {
            let next = triangles@.take(i + 1);
            assert(next.drop_last() =~= triangles@.take(i as int));
            assert(next.last() == triangles@[i as int]);
        }
        i = i + 1;
    }
    assert(triangles@.take(triangles@.len() as int) =~= triangles@);
    fragments
}

/// The last stage: writes every fragment, in order, in its own color and
/// under the depth test. A fragment outside the image is dropped.
pub fn write_fragments(framebuffer: &mut Framebuffer, fragments: &[Fragment])
    requires
        old(framebuffer).wf(),
    ensures
        final(framebuffer).wf(),
        final(framebuffer)@ == written(old(framebuffer)@, fragments@),
        final(framebuffer)@.width == old(framebuffer)@.width,
        final(framebuffer)@.height == old(framebuffer)@.height,
        final(framebuffer)@.background == old(framebuffer)@.background,
{
    proof {
        lemma_written_wf(framebuffer@, fragments@);
    }
    let ghost start = framebuffer@;
    let mut i: usize = 0;
    while i < fragments.len()
        invariant
            i <= fragments.len(),
            framebuffer.wf(),
            framebuffer@ == written(start, fragments@.take(i as int)),
        decreases fragments.len() - i,
    {
        let fragment = &fragments[i];
        let color: u32 = fragment.color.to_hex();
        framebuffer.plot(fragment.x as isize, fragment.y as isize, fragment.depth, color);
        proof {
            let next = fragments@.take(i + 1);
            assert(next.drop_last() =~= fragments@.take(i as int));
            assert(next.last() == fragments@[i as int]);
        }
        i = i + 1;
    }
    assert(fragments@.take(fragments@.len() as int) =~= fragments@);
}

/// Renders one object into the image: transforms its vertices by the model
/// matrix in `uniforms`, assembles them into triangles, rasterizes and
/// shades each with `shader_type` at `time`, and writes the fragments under
/// the depth test.
pub fn render(
    framebuffer: &mut Framebuffer,
    uniforms: &Uniforms,
    vertex_array: &[Vertex],
    shader_type: ShaderType,
    time: Fixed,
)
    requires
        old(framebuffer).wf(),
    ensures
        final(framebuffer).wf(),
        final(framebuffer)@ == spec_render(
            old(framebuffer)@,
            *uniforms,
            vertex_array@,
            shader_type,
            time,
        ),
        final(framebuffer)@.width == old(framebuffer)@.width,
        final(framebuffer)@.height == old(framebuffer)@.height,
        final(framebuffer)@.background == old(framebuffer)@.background,
{
    let transformed_vertices = transform_vertices(vertex_array, uniforms);
    let triangles = assemble(transformed_vertices.as_slice());
    let fragments = rasterize(triangles.as_slice(), shader_type, time);
    write_fragments(framebuffer, fragments.as_slice());
}

} // verus!
