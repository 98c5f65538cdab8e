//! The rasterizer: scan conversion of one triangle into fragments.
//!
//! Every pixel of the triangle's bounding box is sampled at its center. A
//! pixel whose three barycentric weights lie in `[0, 1]`, ends included,
//! gives one fragment; a pixel on an edge that two triangles share is thus
//! covered by both. Fragments come out row by row, each row from left to
//! right. A triangle without area gives none.

use vstd::prelude::*;
use crate::barycentric::{
    Weights, covers, edge_of, weight1, weight2, weight3, pixel_center, weight_limit, edge_function,
    pixel_weights, calculate_bounding_box,
};
use crate::fixed::Fixed;
use crate::fragment::Fragment;
use crate::line::{line, spec_line};
use crate::shader::{ShaderType, shade, spec_shade};
use crate::vector::Vec3;
use crate::vertex::Vertex;

verus! {

/// Three transformed vertices, in the order the model gave them.
#[derive(Clone, Copy, Debug, PartialEq, Eq, Structural)]
pub struct Triangle {
    pub v1: Vertex,
    pub v2: Vertex,
    pub v3: Vertex,
}

/// The one light of the scene: it shines along the negative view axis.
pub open spec fn spec_light_direction() -> Vec3 {
    Vec3 { x: Fixed { raw: 0 }, y: Fixed { raw: 0 }, z: Fixed { raw: (-65536i32) } }
}

/// The direction of the one light of the scene.
pub fn light_direction() -> (l: Vec3)
    ensures
        l == spec_light_direction(),
{
    Vec3 { x: Fixed { raw: 0 }, y: Fixed { raw: 0 }, z: Fixed { raw: -65536 } }
}

impl Triangle {
    /// Twice the signed area in screen space.
    pub open spec fn area(self) -> int {
        edge_of(
            self.v1.transformed_position,
            self.v2.transformed_position,
            self.v3.transformed_position,
        )
    }

    /// The first column and row of the bounding box.
    pub open spec fn min_x(self) -> int {
        self.v1.transformed_position.x.min(self.v2.transformed_position.x).min(
            self.v3.transformed_position.x,
        ).spec_floor()
    }

    /// The first row of the bounding box.
    pub open spec fn min_y(self) -> int {
        self.v1.transformed_position.y.min(self.v2.transformed_position.y).min(
            self.v3.transformed_position.y,
        ).spec_floor()
    }

    /// The last column and row of the bounding box.
    pub open spec fn max_x(self) -> int {
        self.v1.transformed_position.x.max(self.v2.transformed_position.x).max(
            self.v3.transformed_position.x,
        ).spec_ceil()
    }

    /// The last row of the bounding box.
    pub open spec fn max_y(self) -> int {
        self.v1.transformed_position.y.max(self.v2.transformed_position.y).max(
            self.v3.transformed_position.y,
        ).spec_ceil()
    }

    /// The weights of the center of pixel `(x, y)`.
    pub open spec fn weights_at(self, x: int, y: int) -> Weights {
        let a = self.v1.transformed_position;
        let b = self.v2.transformed_position;
        let c = self.v3.transformed_position;
        Weights {
            w1: weight1(a, b, c, pixel_center(x), pixel_center(y)) as i128,
            w2: weight2(a, b, c, pixel_center(x), pixel_center(y)) as i128,
            w3: weight3(a, b, c, pixel_center(x), pixel_center(y)) as i128,
            area: self.area() as i128,
        }
    }

    /// Whether the center of pixel `(x, y)` is covered.
    pub open spec fn covers_pixel(self, x: int, y: int) -> bool {
        covers(
            self.v1.transformed_position,
            self.v2.transformed_position,
            self.v3.transformed_position,
            pixel_center(x),
            pixel_center(y),
        )
    }

    /// The fragment of a covered pixel: the transformed normal interpolated
    /// and normalized, the model-space position interpolated, both handed to
    /// the shading strategy with the diffuse light, and the depth
    /// interpolated from the transformed positions.
    pub open spec fn fragment_at(self, shader: ShaderType, time: Fixed, x: int, y: int) -> Fragment {
        let w = self.weights_at(x, y);
        let normal = w.interpolate_vec3(
            self.v1.transformed_normal,
            self.v2.transformed_normal,
            self.v3.transformed_normal,
        ).normalize();
        let world_pos = w.interpolate_vec3(self.v1.position, self.v2.position, self.v3.position);
        let intensity = normal.dot(spec_light_direction()).max(Fixed { raw: 0 });
        Fragment {
            x: x as i32,
            y: y as i32,
            color: spec_shade(shader, world_pos, normal, spec_light_direction(), intensity, time),
            depth: w.interpolate(
                self.v1.transformed_position.z,
                self.v2.transformed_position.z,
                self.v3.transformed_position.z,
            ),
        }
    }

    /// What one pixel contributes: its fragment if it is covered, nothing
    /// if it is not.
    pub open spec fn cell_fragments(self, shader: ShaderType, time: Fixed, x: int, y: int) -> Seq<
        Fragment,
    > {
        if self.covers_pixel(x, y) {
            seq![self.fragment_at(shader, time, x, y)]
        } else {
            Seq::empty()
        }
    }

    /// The fragments of row `y` in the columns `x_lo <= x < x_hi`, from left
    /// to right.
    pub open spec fn row_fragments(
        self,
        shader: ShaderType,
        time: Fixed,
        y: int,
        x_lo: int,
        x_hi: int,
    ) -> Seq<Fragment>
        decreases x_hi - x_lo,
    {
        if x_hi <= x_lo {
            Seq::empty()
        } else {
            self.row_fragments(shader, time, y, x_lo, x_hi - 1) + self.cell_fragments(
                shader,
                time,
                x_hi - 1,
                y,
            )
        }
    }

    /// The fragments of the rows `y_lo <= y < y_hi`, each over the columns
    /// `x_lo <= x < x_hi`, from the first row to the last.
    pub open spec fn box_fragments(
        self,
        shader: ShaderType,
        time: Fixed,
        x_lo: int,
        x_hi: int,
        y_lo: int,
        y_hi: int,
    ) -> Seq<Fragment>
        decreases y_hi - y_lo,
    {
        if y_hi <= y_lo {
            Seq::empty()
        } else {
            self.box_fragments(shader, time, x_lo, x_hi, y_lo, y_hi - 1) + self.row_fragments(
                shader,
                time,
                y_hi - 1,
                x_lo,
                x_hi,
            )
        }
    }

    /// The fragments of the triangle: those of its bounding box, both ends
    /// included.
    pub open spec fn fragments(self, shader: ShaderType, time: Fixed) -> Seq<Fragment> {
        self.box_fragments(
            shader,
            time,
            self.min_x(),
            self.max_x() + 1,
            self.min_y(),
            self.max_y() + 1,
        )
    }

    /// A fragment is in a row exactly if it is the fragment of a covered
    /// pixel of that row.
    pub proof fn lemma_row_members(
        self,
        shader: ShaderType,
        time: Fixed,
        y: int,
        x_lo: int,
        x_hi: int,
        f: Fragment,
    )
        ensures
            self.row_fragments(shader, time, y, x_lo, x_hi).contains(f) <==> exists|x: int|
                x_lo <= x < x_hi && #[trigger] self.covers_pixel(x, y) && f == self.fragment_at(
                    shader,
                    time,
                    x,
                    y,
                ),
        decreases x_hi - x_lo,
    {
        if x_hi > x_lo {
            let head = self.row_fragments(shader, time, y, x_lo, x_hi - 1);
            let tail = self.cell_fragments(shader, time, x_hi - 1, y);
            self.lemma_row_members(shader, time, y, x_lo, x_hi - 1, f);
            lemma_contains_concat(head, tail, f);
            if tail.contains(f) {
                assert(self.covers_pixel(x_hi - 1, y));
                assert(tail[0] == f);
            }
            if self.covers_pixel(x_hi - 1, y) && f == self.fragment_at(shader, time, x_hi - 1, y) {
                assert(tail[0] == f);
            }
        }
    }

    /// A fragment is in a box exactly if it is the fragment of a covered
    /// pixel of that box.
    pub proof fn lemma_box_members(
        self,
        shader: ShaderType,
        time: Fixed,
        x_lo: int,
        x_hi: int,
        y_lo: int,
        y_hi: int,
        f: Fragment,
    )
        ensures
            self.box_fragments(shader, time, x_lo, x_hi, y_lo, y_hi).contains(f) <==> exists|
                x: int,
                y: int,
            |
                x_lo <= x < x_hi && y_lo <= y < y_hi && #[trigger] self.covers_pixel(x, y) && f
                    == self.fragment_at(shader, time, x, y),
        decreases y_hi - y_lo,
    {
        if y_hi > y_lo {
            let head = self.box_fragments(shader, time, x_lo, x_hi, y_lo, y_hi - 1);
            let tail = self.row_fragments(shader, time, y_hi - 1, x_lo, x_hi);
            self.lemma_box_members(shader, time, x_lo, x_hi, y_lo, y_hi - 1, f);
            self.lemma_row_members(shader, time, y_hi - 1, x_lo, x_hi, f);
            lemma_contains_concat(head, tail, f);
            if tail.contains(f) {
                let x = choose|x: int|
                    x_lo <= x < x_hi && #[trigger] self.covers_pixel(x, y_hi - 1) && f
                        == self.fragment_at(shader, time, x, y_hi - 1);
                assert(self.covers_pixel(x, y_hi - 1));
            }
        }
    }

    /// The fragments of a triangle are exactly the fragments of the covered
    /// pixels of its bounding box: none is left out and none is made up.
    pub proof fn lemma_fragments_members(self, shader: ShaderType, time: Fixed, f: Fragment)
        ensures
            self.fragments(shader, time).contains(f) <==> exists|x: int, y: int|
                self.min_x() <= x <= self.max_x() && self.min_y() <= y <= self.max_y()
                    && #[trigger] self.covers_pixel(x, y) && f == self.fragment_at(
                    shader,
                    time,
                    x,
                    y,
                ),
    {
        self.lemma_box_members(
            shader,
            time,
            self.min_x(),
            self.max_x() + 1,
            self.min_y(),
            self.max_y() + 1,
            f,
        );
    }

    /// The fragments of a row lie in that row, inside the columns asked for,
    /// and come from left to right.
    pub proof fn lemma_row_ordered(
        self,
        shader: ShaderType,
        time: Fixed,
        y: int,
        x_lo: int,
        x_hi: int,
    )
        requires
            i32::MIN <= x_lo,
            x_hi <= i32::MAX,
            i32::MIN <= y <= i32::MAX,
        ensures
            ordered_within(self.row_fragments(shader, time, y, x_lo, x_hi), x_lo, x_hi, y, y + 1),
        decreases x_hi - x_lo,
    {
        if x_hi > x_lo {
            self.lemma_row_ordered(shader, time, y, x_lo, x_hi - 1);
        }
    }

    /// The fragments of a box lie inside it and come row by row, each row
    /// from left to right: no pixel gives two fragments.
    pub proof fn lemma_box_ordered(
        self,
        shader: ShaderType,
        time: Fixed,
        x_lo: int,
        x_hi: int,
        y_lo: int,
        y_hi: int,
    )
        requires
            i32::MIN <= x_lo,
            x_hi <= i32::MAX,
            i32::MIN <= y_lo,
            y_hi <= i32::MAX,
        ensures
            ordered_within(
                self.box_fragments(shader, time, x_lo, x_hi, y_lo, y_hi),
                x_lo,
                x_hi,
                y_lo,
                y_hi,
            ),
        decreases y_hi - y_lo,
    {
        if y_hi > y_lo {
            self.lemma_box_ordered(shader, time, x_lo, x_hi, y_lo, y_hi - 1);
            self.lemma_row_ordered(shader, time, y_hi - 1, x_lo, x_hi);
        }
    }

    /// The fragments of a triangle lie in its bounding box and come row by
    /// row, each row from left to right.
    pub proof fn lemma_fragments_ordered(self, shader: ShaderType, time: Fixed)
        ensures
            ordered_within(
                self.fragments(shader, time),
                self.min_x(),
                self.max_x() + 1,
                self.min_y(),
                self.max_y() + 1,
            ),
    {
        self.lemma_box_ordered(
            shader,
            time,
            self.min_x(),
            self.max_x() + 1,
            self.min_y(),
            self.max_y() + 1,
        );
    }

    /// A triangle whose corners lie on a line has no fragments in any box.
    pub proof fn lemma_degenerate_box_is_empty(
        self,
        shader: ShaderType,
        time: Fixed,
        x_lo: int,
        x_hi: int,
        y_lo: int,
        y_hi: int,
    )
        requires
            self.area() == 0,
        ensures
            self.box_fragments(shader, time, x_lo, x_hi, y_lo, y_hi) =~= Seq::empty(),
        decreases y_hi - y_lo,
    {
        if y_hi > y_lo {
            self.lemma_degenerate_box_is_empty(shader, time, x_lo, x_hi, y_lo, y_hi - 1);
            self.lemma_degenerate_row_is_empty(shader, time, y_hi - 1, x_lo, x_hi);
        }
    }

    proof fn lemma_degenerate_row_is_empty(
        self,
        shader: ShaderType,
        time: Fixed,
        y: int,
        x_lo: int,
        x_hi: int,
    )
        requires
            self.area() == 0,
        ensures
            self.row_fragments(shader, time, y, x_lo, x_hi) =~= Seq::empty(),
        decreases x_hi - x_lo,
    {
        if x_hi > x_lo {
            self.lemma_degenerate_row_is_empty(shader, time, y, x_lo, x_hi - 1);
        }
    }

    /// A triangle with three collinear corners produces no fragments.
    pub proof fn lemma_collinear_no_fragments(self, shader: ShaderType, time: Fixed)
        requires
            self.area() == 0,
        ensures
            self.fragments(shader, time).len() == 0,
    {
        self.lemma_degenerate_box_is_empty(
            shader,
            time,
            self.min_x(),
            self.max_x() + 1,
            self.min_y(),
            self.max_y() + 1,
        );
    }
}

/// `f` comes before `g` in row-major order.
pub open spec fn precedes(f: Fragment, g: Fragment) -> bool {
    f.y < g.y || (f.y == g.y && f.x < g.x)
}

/// Every fragment of `s` lies in the columns `x_lo <= x < x_hi` and the rows
/// `y_lo <= y < y_hi`, and each comes before the next in row-major order.
pub open spec fn ordered_within(s: Seq<Fragment>, x_lo: int, x_hi: int, y_lo: int, y_hi: int) -> bool {
    &&& forall|i: int|
        0 <= i < s.len() ==> x_lo <= (#[trigger] s[i]).x < x_hi && y_lo <= s[i].y < y_hi
    &&& forall|i: int, j: int| 0 <= i < j < s.len() ==> precedes(#[trigger] s[i], #[trigger] s[j])
}

/// An element of a concatenation is an element of one of its parts.
pub proof fn lemma_contains_concat<T>(s: Seq<T>, t: Seq<T>, e: T)
    ensures
        (s + t).contains(e) <==> s.contains(e) || t.contains(e),
{
    if s.contains(e) {
        let i = choose|i: int| 0 <= i < s.len() && s[i] == e;
        assert((s + t)[i] == e);
    }
    if t.contains(e) {
        let i = choose|i: int| 0 <= i < t.len() && t[i] == e;
        assert((s + t)[s.len() + i] == e);
    }
    if (s + t).contains(e) {
        let i = choose|i: int| 0 <= i < (s + t).len() && (s + t)[i] == e;
        if i < s.len() {
            assert(s[i] == e);
        } else {
            assert(t[i - s.len()] == e);
        }
    }
}

/// The fragment of pixel `(x, y)`, which the weights `w` cover.
fn shade_pixel(
    v1: &Vertex,
    v2: &Vertex,
    v3: &Vertex,
    shader_type: ShaderType,
    time: Fixed,
    x: i32,
    y: i32,
    w: Weights,
) -> (f: Fragment)
    requires
        w.wf(),
        w.area != 0,
        w == (Triangle { v1: *v1, v2: *v2, v3: *v3 }).weights_at(x as int, y as int),
    ensures
        f == (Triangle { v1: *v1, v2: *v2, v3: *v3 }).fragment_at(
            shader_type,
            time,
            x as int,
            y as int,
        ),
{
    let light_dir = light_direction();
    let normal = w.interpolate_vec3(
        v1.transformed_normal,
        v2.transformed_normal,
        v3.transformed_normal,
    ).normalize();
    let world_pos = w.interpolate_vec3(v1.position, v2.position, v3.position);
    let intensity = normal.dot(light_dir).max(Fixed { raw: 0 });
    let color = shade(shader_type, &world_pos, &normal, &light_dir, intensity, time);
    let depth = w.interpolate(
        v1.transformed_position.z,
        v2.transformed_position.z,
        v3.transformed_position.z,
    );
    Fragment::new(x, y, color, depth)
}

/// Scan-converts the triangle `v1 v2 v3` and shades each covered pixel with
/// the strategy `shader_type` at the time `time`.
pub fn triangle(v1: &Vertex, v2: &Vertex, v3: &Vertex, shader_type: ShaderType, time: Fixed) -> (frags:
    Vec<Fragment>)
    ensures
        frags@ == (Triangle { v1: *v1, v2: *v2, v3: *v3 }).fragments(shader_type, time),
        (Triangle { v1: *v1, v2: *v2, v3: *v3 }).area() == 0 ==> frags@.len() == 0,
{
    let ghost t = Triangle { v1: *v1, v2: *v2, v3: *v3 };
    let mut fragments: Vec<Fragment> = Vec::new();
    let a = v1.transformed_position;
    let b = v2.transformed_position;
    let c = v3.transformed_position;
    let (min_x, min_y, max_x, max_y) = calculate_bounding_box(&a, &b, &c);
    let triangle_area: i128 = edge_function(&a, &b, &c);
    if triangle_area == 0 {
        proof {
            t.lemma_collinear_no_fragments(shader_type, time);
            assert(t.fragments(shader_type, time) =~= Seq::empty());
        }
        return fragments;
    }
    let mut y: i32 = min_y;
    while y <= max_y
        invariant
            t == (Triangle { v1: *v1, v2: *v2, v3: *v3 }),
            a == v1.transformed_position,
            b == v2.transformed_position,
            c == v3.transformed_position,
            triangle_area == t.area(),
            triangle_area != 0,
            -weight_limit() <= triangle_area <= weight_limit(),
            min_x == t.min_x(),
            max_x == t.max_x(),
            -32768 <= min_x <= max_x <= 32768,
            -32768 <= min_y <= y <= max_y + 1,
            max_y <= 32768,
            fragments@ == t.box_fragments(
                shader_type,
                time,
                min_x as int,
                max_x + 1,
                min_y as int,
                y as int,
            ),
        decreases max_y + 1 - y,
    {
        let ghost before = fragments@;
        let mut x: i32 = min_x;
        while x <= max_x
            invariant
                t == (Triangle { v1: *v1, v2: *v2, v3: *v3 }),
                a == v1.transformed_position,
                b == v2.transformed_position,
                c == v3.transformed_position,
                triangle_area == t.area(),
                triangle_area != 0,
                -weight_limit() <= triangle_area <= weight_limit(),
                -32768 <= min_x <= x <= max_x + 1,
                max_x <= 32768,
                -32768 <= y <= 32768,
                fragments@ == before + t.row_fragments(
                    shader_type,
                    time,
                    y as int,
                    min_x as int,
                    x as int,
                ),
            decreases max_x + 1 - x,
        {
            let w = pixel_weights(x, y, &a, &b, &c, triangle_area);
            let ghost row = t.row_fragments(shader_type, time, y as int, min_x as int, x as int);
            assert(w == t.weights_at(x as int, y as int));
            assert(w.spec_covered() == t.covers_pixel(x as int, y as int));
            if w.covered() {
                let f = shade_pixel(v1, v2, v3, shader_type, time, x, y, w);
                fragments.push(f);
                assert(fragments@ =~= before + (row + t.cell_fragments(
                    shader_type,
                    time,
                    x as int,
                    y as int,
                )));
            } else {
                assert(fragments@ =~= before + (row + t.cell_fragments(
                    shader_type,
                    time,
                    x as int,
                    y as int,
                )));
            }
            x = x + 1;
        }
        y = y + 1;
    }
    fragments
}

/// The outline of the triangle `v1 v2 v3`: its three sides as lines, from
/// `v1` to `v2`, from `v2` to `v3` and from `v3` back to `v1`.
pub fn _triangle(v1: &Vertex, v2: &Vertex, v3: &Vertex) -> (frags: Vec<Fragment>)
    ensures
        frags@ == spec_line(*v1, *v2) + spec_line(*v2, *v3) + spec_line(*v3, *v1),
{
    let mut fragments: Vec<Fragment> = line(v1, v2);
    let mut side2: Vec<Fragment> = line(v2, v3);
    let mut side3: Vec<Fragment> = line(v3, v1);
    fragments.append(&mut side2);
    fragments.append(&mut side3);
    fragments
}

} // verus!
