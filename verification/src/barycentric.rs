//! Edge functions and barycentric weights, exact over the integers.
//!
//! Coordinates are raw 16.16 values. An edge function of three such points is
//! an integer in units of 2^-32, and a barycentric weight is the quotient of
//! two of them, so a weight is kept as its numerator beside the signed double
//! area that all three share.

use vstd::prelude::*;
use crate::fixed::{Fixed, saturate, floor_div, div_floor_signed, saturate_i128};
use crate::vector::Vec3;

verus! {

/// `edge(p, q, r) = (r.x - p.x)(q.y - p.y) - (r.y - p.y)(q.x - p.x)`: twice
/// the signed area of the triangle `p q r`.
pub open spec fn edge(px: int, py: int, qx: int, qy: int, rx: int, ry: int) -> int {
    (rx - px) * (qy - py) - (ry - py) * (qx - px)
}

/// The edge function of three points, over their raw coordinates.
pub open spec fn edge_of(p: Vec3, q: Vec3, r: Vec3) -> int {
    edge(
        p.x.raw as int,
        p.y.raw as int,
        q.x.raw as int,
        q.y.raw as int,
        r.x.raw as int,
        r.y.raw as int,
    )
}

/// The raw coordinate of the center of pixel `i`: `i + 0.5`.
pub open spec fn pixel_center(i: int) -> int {
    i * 65536 + 32768
}

/// `n / d` lies in the closed interval from zero to one.
pub open spec fn unit_fraction(n: int, d: int) -> bool {
    (d > 0 && 0 <= n <= d) || (d < 0 && d <= n <= 0)
}

/// `n / d` lies strictly between zero and one.
pub open spec fn strict_unit_fraction(n: int, d: int) -> bool {
    (d > 0 && 0 < n < d) || (d < 0 && d < n < 0)
}

/// The three weights of the point `(px, py)` in the triangle `a b c`, as
/// numerators over the double area `edge_of(a, b, c)`.
pub open spec fn weight1(a: Vec3, b: Vec3, c: Vec3, px: int, py: int) -> int {
    edge(b.x.raw as int, b.y.raw as int, c.x.raw as int, c.y.raw as int, px, py)
}

/// The numerator of the second weight: `edge(c, a, p)`.
pub open spec fn weight2(a: Vec3, b: Vec3, c: Vec3, px: int, py: int) -> int {
    edge(c.x.raw as int, c.y.raw as int, a.x.raw as int, a.y.raw as int, px, py)
}

/// The numerator of the third weight: `edge(a, b, p)`.
pub open spec fn weight3(a: Vec3, b: Vec3, c: Vec3, px: int, py: int) -> int {
    edge(a.x.raw as int, a.y.raw as int, b.x.raw as int, b.y.raw as int, px, py)
}

/// The point `(px, py)` is covered by the triangle `a b c`: the triangle is
/// not degenerate and all three weights lie in `[0, 1]`, ends included.
pub open spec fn covers(a: Vec3, b: Vec3, c: Vec3, px: int, py: int) -> bool {
    let area = edge_of(a, b, c);
    &&& unit_fraction(weight1(a, b, c, px, py), area)
    &&& unit_fraction(weight2(a, b, c, px, py), area)
    &&& unit_fraction(weight3(a, b, c, px, py), area)
}

/// The point `(px, py)` lies in the closed triangle `a b c`: it is a weighted
/// mean of the corners with weights that are not negative.
pub open spec fn in_closed_triangle(a: Vec3, b: Vec3, c: Vec3, px: int, py: int) -> bool {
    exists|la: int, lb: int, lc: int| #[trigger] is_mean(a, b, c, px, py, la, lb, lc) && la >= 0 && lb >= 0 && lc >= 0
}

/// The point `(px, py)` lies strictly inside the triangle `a b c`: it is a
/// weighted mean of the corners with positive weights.
pub open spec fn in_open_triangle(a: Vec3, b: Vec3, c: Vec3, px: int, py: int) -> bool {
    exists|la: int, lb: int, lc: int| #[trigger] is_mean(a, b, c, px, py, la, lb, lc) && la > 0 && lb > 0 && lc > 0
}

/// `(px, py)` is the mean of `a`, `b`, `c` with the weights `la`, `lb`, `lc`,
/// whose sum is positive.
pub open spec fn is_mean(a: Vec3, b: Vec3, c: Vec3, px: int, py: int, la: int, lb: int, lc: int) -> bool {
    &&& la + lb + lc > 0
    &&& (la + lb + lc) * px == la * a.x.raw + lb * b.x.raw + lc * c.x.raw
    &&& (la + lb + lc) * py == la * a.y.raw + lb * b.y.raw + lc * c.y.raw
}

/// The value that the weights `w1/area`, `w2/area`, `w3/area` give to an
/// attribute with the raw values `v1`, `v2`, `v3` at the corners, rounded
/// down and saturated.
pub open spec fn interpolated(w1: int, w2: int, w3: int, area: int, v1: int, v2: int, v3: int) -> int
    recommends
        area != 0,
{
    saturate(floor_div(w1 * v1 + w2 * v2 + w3 * v3, area))
}

/// The limit on a numerator or an area that comes from raw 16.16 points and
/// pixel centers.
pub open spec fn weight_limit() -> int {
    0x8_0000_0000_0000_0000
}

/// The weights of one sample point, as numerators over a shared double area.
#[derive(Clone, Copy, Debug, PartialEq, Eq, Structural)]
pub struct Weights {
    pub w1: i128,
    pub w2: i128,
    pub w3: i128,
    pub area: i128,
}

impl Weights {
    /// The four numbers are of a size that edge functions produce.
    pub open spec fn wf(self) -> bool {
        &&& -weight_limit() <= self.w1 <= weight_limit()
        &&& -weight_limit() <= self.w2 <= weight_limit()
        &&& -weight_limit() <= self.w3 <= weight_limit()
        &&& -weight_limit() <= self.area <= weight_limit()
    }

    /// All three weights lie in `[0, 1]`.
    pub open spec fn spec_covered(self) -> bool {
        &&& unit_fraction(self.w1 as int, self.area as int)
        &&& unit_fraction(self.w2 as int, self.area as int)
        &&& unit_fraction(self.w3 as int, self.area as int)
    }

    /// The value of an attribute under these weights.
    pub open spec fn spec_interpolate(self, v1: Fixed, v2: Fixed, v3: Fixed) -> Fixed {
        Fixed {
            raw: interpolated(
                self.w1 as int,
                self.w2 as int,
                self.w3 as int,
                self.area as int,
                v1.raw as int,
                v2.raw as int,
                v3.raw as int,
            ) as i32,
        }
    }

    /// The value of a vector attribute under these weights, component by
    /// component.
    pub open spec fn spec_interpolate_vec3(self, v1: Vec3, v2: Vec3, v3: Vec3) -> Vec3 {
        Vec3 {
            x: self.spec_interpolate(v1.x, v2.x, v3.x),
            y: self.spec_interpolate(v1.y, v2.y, v3.y),
            z: self.spec_interpolate(v1.z, v2.z, v3.z),
        }
    }

    /// Whether the sample is covered: every weight in `[0, 1]`, both ends
    /// included. With a double area of zero nothing is covered.
    #[verifier::when_used_as_spec(spec_covered)]
    pub fn covered(self) -> (r: bool)
        ensures
            r == self.spec_covered(),
    {
        if self.area > 0 {
            0 <= self.w1 && self.w1 <= self.area && 0 <= self.w2 && self.w2 <= self.area && 0
                <= self.w3 && self.w3 <= self.area
        } else if self.area < 0 {
            self.area <= self.w1 && self.w1 <= 0 && self.area <= self.w2 && self.w2 <= 0
                && self.area <= self.w3 && self.w3 <= 0
        } else {
            false
        }
    }

    /// The weighted mean of three corner values, rounded down and saturated.
    #[verifier::when_used_as_spec(spec_interpolate)]
    pub fn interpolate(self, v1: Fixed, v2: Fixed, v3: Fixed) -> (r: Fixed)
        requires
            self.wf(),
            self.area != 0,
        ensures
            r == self.spec_interpolate(v1, v2, v3),
    {
        let t1: i128 = scaled(self.w1, v1.raw);
        let t2: i128 = scaled(self.w2, v2.raw);
        let t3: i128 = scaled(self.w3, v3.raw);
        let n: i128 = t1 + t2 + t3;
        Fixed { raw: saturate_i128(div_floor_signed(n, self.area)) }
    }

    /// The weighted mean of three corner vectors, component by component.
    #[verifier::when_used_as_spec(spec_interpolate_vec3)]
    pub fn interpolate_vec3(self, v1: Vec3, v2: Vec3, v3: Vec3) -> (r: Vec3)
        requires
            self.wf(),
            self.area != 0,
        ensures
            r == self.spec_interpolate_vec3(v1, v2, v3),
    {
        Vec3 {
            x: self.interpolate(v1.x, v2.x, v3.x),
            y: self.interpolate(v1.y, v2.y, v3.y),
            z: self.interpolate(v1.z, v2.z, v3.z),
        }
    }
}

/// A numerator times a raw value.
fn scaled(w: i128, v: i32) -> (r: i128)
    requires
        -weight_limit() <= w <= weight_limit(),
    ensures
        r == w * v,
        -0x4_0000_0000_0000_0000_0000_0000 <= r <= 0x4_0000_0000_0000_0000_0000_0000,
{
    assert(-0x4_0000_0000_0000_0000_0000_0000 <= w * v <= 0x4_0000_0000_0000_0000_0000_0000)
        by (nonlinear_arith)
        requires
            -0x8_0000_0000_0000_0000 <= w <= 0x8_0000_0000_0000_0000,
            -0x8000_0000 <= v <= 0x8000_0000,
    ;
    w * (v as i128)
}

/// The edge function of three points whose coordinates fit in 33 bits.
fn edge_wide(px: i64, py: i64, qx: i64, qy: i64, rx: i64, ry: i64) -> (e: i128)
    requires
        -0x1_0000_0000 <= px <= 0x1_0000_0000,
        -0x1_0000_0000 <= py <= 0x1_0000_0000,
        -0x1_0000_0000 <= qx <= 0x1_0000_0000,
        -0x1_0000_0000 <= qy <= 0x1_0000_0000,
        -0x1_0000_0000 <= rx <= 0x1_0000_0000,
        -0x1_0000_0000 <= ry <= 0x1_0000_0000,
    ensures
        e == edge(px as int, py as int, qx as int, qy as int, rx as int, ry as int),
        -weight_limit() <= e <= weight_limit(),
{
    let dx1: i128 = (rx - px) as i128;
    let dy1: i128 = (qy - py) as i128;
    let dy2: i128 = (ry - py) as i128;
    let dx2: i128 = (qx - px) as i128;
    assert(-0x4_0000_0000_0000_0000 <= dx1 * dy1 <= 0x4_0000_0000_0000_0000) by (nonlinear_arith)
        requires
            -0x2_0000_0000 <= dx1 <= 0x2_0000_0000,
            -0x2_0000_0000 <= dy1 <= 0x2_0000_0000,
    ;
    assert(-0x4_0000_0000_0000_0000 <= dy2 * dx2 <= 0x4_0000_0000_0000_0000) by (nonlinear_arith)
        requires
            -0x2_0000_0000 <= dx2 <= 0x2_0000_0000,
            -0x2_0000_0000 <= dy2 <= 0x2_0000_0000,
    ;
    dx1 * dy1 - dy2 * dx2
}

/// The edge function `edge(a, b, c)`: twice the signed area of the triangle,
/// in units of 2^-32. Its sign tells the winding.
pub fn edge_function(a: &Vec3, b: &Vec3, c: &Vec3) -> (e: i128)
    ensures
        e == edge_of(*a, *b, *c),
        -weight_limit() <= e <= weight_limit(),
{
    edge_wide(
        a.x.raw as i64,
        a.y.raw as i64,
        b.x.raw as i64,
        b.y.raw as i64,
        c.x.raw as i64,
        c.y.raw as i64,
    )
}

/// The barycentric weights of the point `p` in the triangle `a b c`, as
/// numerators over `area`: `w1 = edge(b, c, p)`, `w2 = edge(c, a, p)`,
/// `w3 = edge(a, b, p)`.
pub fn barycentric_coordinates(p: &Vec3, a: &Vec3, b: &Vec3, c: &Vec3, area: i128) -> (w: Weights)
    ensures
        w.w1 == weight1(*a, *b, *c, p.x.raw as int, p.y.raw as int),
        w.w2 == weight2(*a, *b, *c, p.x.raw as int, p.y.raw as int),
        w.w3 == weight3(*a, *b, *c, p.x.raw as int, p.y.raw as int),
        w.area == area,
        -weight_limit() <= area <= weight_limit() ==> w.wf(),
{
    Weights {
        w1: edge_function(b, c, p),
        w2: edge_function(c, a, p),
        w3: edge_function(a, b, p),
        area,
    }
}

/// The barycentric weights of the center of pixel `(x, y)` in the triangle
/// `a b c`, as numerators over `area`.
pub fn pixel_weights(x: i32, y: i32, a: &Vec3, b: &Vec3, c: &Vec3, area: i128) -> (w: Weights)
    requires
        -32768 <= x <= 32768,
        -32768 <= y <= 32768,
    ensures
        w.w1 == weight1(*a, *b, *c, pixel_center(x as int), pixel_center(y as int)),
        w.w2 == weight2(*a, *b, *c, pixel_center(x as int), pixel_center(y as int)),
        w.w3 == weight3(*a, *b, *c, pixel_center(x as int), pixel_center(y as int)),
        w.area == area,
        -weight_limit() <= area <= weight_limit() ==> w.wf(),
{
    let px: i64 = (x as i64) * 65536 + 32768;
    let py: i64 = (y as i64) * 65536 + 32768;
    let ax: i64 = a.x.raw as i64;
    let ay: i64 = a.y.raw as i64;
    let bx: i64 = b.x.raw as i64;
    let by: i64 = b.y.raw as i64;
    let cx: i64 = c.x.raw as i64;
    let cy: i64 = c.y.raw as i64;
    Weights {
        w1: edge_wide(bx, by, cx, cy, px, py),
        w2: edge_wide(cx, cy, ax, ay, px, py),
        w3: edge_wide(ax, ay, bx, by, px, py),
        area,
    }
}

/// The integer bounding box of three points: the floor of the least and the
/// ceiling of the greatest coordinate on each axis, as
/// `(min_x, min_y, max_x, max_y)`.
pub fn calculate_bounding_box(v1: &Vec3, v2: &Vec3, v3: &Vec3) -> (bb: (i32, i32, i32, i32))
    ensures
        bb.0 == v1.x.min(v2.x).min(v3.x).spec_floor(),
        bb.1 == v1.y.min(v2.y).min(v3.y).spec_floor(),
        bb.2 == v1.x.max(v2.x).max(v3.x).spec_ceil(),
        bb.3 == v1.y.max(v2.y).max(v3.y).spec_ceil(),
        -32768 <= bb.0 <= bb.2 <= 32768,
        -32768 <= bb.1 <= bb.3 <= 32768,
{
    let min_x: i32 = v1.x.min(v2.x).min(v3.x).floor();
    let min_y: i32 = v1.y.min(v2.y).min(v3.y).floor();
    let max_x: i32 = v1.x.max(v2.x).max(v3.x).ceil();
    let max_y: i32 = v1.y.max(v2.y).max(v3.y).ceil();
    (min_x, min_y, max_x, max_y)
}

/// The three edge functions of a sample, written over the two sides
/// `u = b - a`, `v = c - a` and the offset `w = p - a` of the sample.
proof fn lemma_edges_by_sides(ux: int, uy: int, vx: int, vy: int, wx: int, wy: int)
    ensures
        (wx - vx) * (0 - vy) - (wy - vy) * (0 - vx) == wy * vx - wx * vy,
        (wx - ux) * (vy - uy) - (wy - uy) * (vx - ux) == (vx * uy - vy * ux) - (wy * vx - wx * vy)
            - (wx * uy - wy * ux),
{
    assert((wx - vx) * (0 - vy) == vx * vy - wx * vy) by (nonlinear_arith);
    assert((wy - vy) * (0 - vx) == vy * vx - wy * vx) by (nonlinear_arith);
    assert(vx * vy == vy * vx) by (nonlinear_arith);
    assert((wx - ux) * (vy - uy) == wx * vy - wx * uy - ux * vy + ux * uy) by (nonlinear_arith);
    assert((wy - uy) * (vx - ux) == wy * vx - wy * ux - uy * vx + uy * ux) by (nonlinear_arith);
    assert(ux * uy == uy * ux) by (nonlinear_arith);
    assert(ux * vy == vy * ux) by (nonlinear_arith);
    assert(uy * vx == vx * uy) by (nonlinear_arith);
}

/// `D · w = w2 · u + w3 · v` for the double area `D` and the weights `w2`,
/// `w3` over the sides, one coordinate at a time.
proof fn lemma_offset_by_sides(ux: int, uy: int, vx: int, vy: int, wx: int, wy: int)
    ensures
        (vx * uy - vy * ux) * wx == (wy * vx - wx * vy) * ux + (wx * uy - wy * ux) * vx,
        (vx * uy - vy * ux) * wy == (wy * vx - wx * vy) * uy + (wx * uy - wy * ux) * vy,
{
    assert((vx * uy - vy * ux) * wx == vx * uy * wx - vy * ux * wx) by (nonlinear_arith);
    assert((wy * vx - wx * vy) * ux == wy * vx * ux - wx * vy * ux) by (nonlinear_arith);
    assert((wx * uy - wy * ux) * vx == wx * uy * vx - wy * ux * vx) by (nonlinear_arith);
    assert(wy * vx * ux == wy * ux * vx) by (nonlinear_arith);
    assert(wx * vy * ux == vy * ux * wx) by (nonlinear_arith);
    assert(wx * uy * vx == vx * uy * wx) by (nonlinear_arith);
    assert((vx * uy - vy * ux) * wy == vx * uy * wy - vy * ux * wy) by (nonlinear_arith);
    assert((wy * vx - wx * vy) * uy == wy * vx * uy - wx * vy * uy) by (nonlinear_arith);
    assert((wx * uy - wy * ux) * vy == wx * uy * vy - wy * ux * vy) by (nonlinear_arith);
    assert(wy * vx * uy == vx * uy * wy) by (nonlinear_arith);
    assert(wx * vy * uy == wx * uy * vy) by (nonlinear_arith);
    assert(wy * ux * vy == vy * ux * wy) by (nonlinear_arith);
}

/// The three weights of any point sum to one: the numerators sum to the
/// double area of the triangle.
pub proof fn lemma_weights_sum_to_one(a: Vec3, b: Vec3, c: Vec3, px: int, py: int)
    ensures
        weight1(a, b, c, px, py) + weight2(a, b, c, px, py) + weight3(a, b, c, px, py) == edge_of(
            a,
            b,
            c,
        ),
{
    let ux = b.x.raw - a.x.raw;
    let uy = b.y.raw - a.y.raw;
    let vx = c.x.raw - a.x.raw;
    let vy = c.y.raw - a.y.raw;
    let wx = px - a.x.raw;
    let wy = py - a.y.raw;
    lemma_edges_by_sides(ux, uy, vx, vy, wx, wy);
    assert(edge_of(a, b, c) == vx * uy - vy * ux);
    assert(weight3(a, b, c, px, py) == wx * uy - wy * ux);
    assert(px - c.x.raw == wx - vx && a.y.raw - c.y.raw == 0 - vy && py - c.y.raw == wy - vy
        && a.x.raw - c.x.raw == 0 - vx);
    assert(weight2(a, b, c, px, py) == (wx - vx) * (0 - vy) - (wy - vy) * (0 - vx));
    assert(px - b.x.raw == wx - ux && c.y.raw - b.y.raw == vy - uy && py - b.y.raw == wy - uy
        && c.x.raw - b.x.raw == vx - ux);
    assert(weight1(a, b, c, px, py) == (wx - ux) * (vy - uy) - (wy - uy) * (vx - ux));
}

/// The weights over the sides: `w2` and `w3` in closed form.
proof fn lemma_weights_by_sides(a: Vec3, b: Vec3, c: Vec3, px: int, py: int)
    ensures
        edge_of(a, b, c) == (c.x.raw - a.x.raw) * (b.y.raw - a.y.raw) - (c.y.raw - a.y.raw) * (
        b.x.raw - a.x.raw),
        weight2(a, b, c, px, py) == (py - a.y.raw) * (c.x.raw - a.x.raw) - (px - a.x.raw) * (
        c.y.raw - a.y.raw),
        weight3(a, b, c, px, py) == (px - a.x.raw) * (b.y.raw - a.y.raw) - (py - a.y.raw) * (
        b.x.raw - a.x.raw),
{
    let ux = b.x.raw - a.x.raw;
    let uy = b.y.raw - a.y.raw;
    let vx = c.x.raw - a.x.raw;
    let vy = c.y.raw - a.y.raw;
    let wx = px - a.x.raw;
    let wy = py - a.y.raw;
    lemma_edges_by_sides(ux, uy, vx, vy, wx, wy);
    assert(px - c.x.raw == wx - vx && a.y.raw - c.y.raw == 0 - vy && py - c.y.raw == wy - vy
        && a.x.raw - c.x.raw == 0 - vx);
    assert(weight2(a, b, c, px, py) == (wx - vx) * (0 - vy) - (wy - vy) * (0 - vx));
}

/// The weights give the point back: `area · p = w1 · a + w2 · b + w3 · c`.
pub proof fn lemma_weights_reproduce_point(a: Vec3, b: Vec3, c: Vec3, px: int, py: int)
    ensures
        edge_of(a, b, c) * px == weight1(a, b, c, px, py) * a.x.raw + weight2(a, b, c, px, py)
            * b.x.raw + weight3(a, b, c, px, py) * c.x.raw,
        edge_of(a, b, c) * py == weight1(a, b, c, px, py) * a.y.raw + weight2(a, b, c, px, py)
            * b.y.raw + weight3(a, b, c, px, py) * c.y.raw,
{
    let ax = a.x.raw as int;
    let ay = a.y.raw as int;
    let ux = b.x.raw - a.x.raw;
    let uy = b.y.raw - a.y.raw;
    let vx = c.x.raw - a.x.raw;
    let vy = c.y.raw - a.y.raw;
    let wx = px - a.x.raw;
    let wy = py - a.y.raw;
    let d = edge_of(a, b, c);
    let w1 = weight1(a, b, c, px, py);
    let w2 = weight2(a, b, c, px, py);
    let w3 = weight3(a, b, c, px, py);
    lemma_weights_sum_to_one(a, b, c, px, py);
    lemma_weights_by_sides(a, b, c, px, py);
    lemma_offset_by_sides(ux, uy, vx, vy, wx, wy);
    assert(d * wx == w2 * ux + w3 * vx);
    assert(d * wy == w2 * uy + w3 * vy);
    assert(d * px == w1 * ax + w2 * (ax + ux) + w3 * (ax + vx)) by (nonlinear_arith)
        requires
            d * wx == w2 * ux + w3 * vx,
            wx == px - ax,
            w1 + w2 + w3 == d,
    ;
    assert(d * py == w1 * ay + w2 * (ay + uy) + w3 * (ay + vy)) by (nonlinear_arith)
        requires
            d * wy == w2 * uy + w3 * vy,
            wy == py - ay,
            w1 + w2 + w3 == d,
    ;
}

/// Where `s · w = lb · u + lc · v`, the weights over the sides are `lb / s`
/// and `lc / s` of the double area.
proof fn lemma_mean_by_sides(
    s: int,
    lb: int,
    lc: int,
    ux: int,
    uy: int,
    vx: int,
    vy: int,
    wx: int,
    wy: int,
)
    requires
        s * wx == lb * ux + lc * vx,
        s * wy == lb * uy + lc * vy,
    ensures
        s * (wx * uy - wy * ux) == lc * (vx * uy - vy * ux),
        s * (wy * vx - wx * vy) == lb * (vx * uy - vy * ux),
{
    assert(s * (wx * uy - wy * ux) == (s * wx) * uy - (s * wy) * ux) by (nonlinear_arith);
    assert((lb * ux + lc * vx) * uy == lb * (ux * uy) + lc * (vx * uy)) by (nonlinear_arith);
    assert((lb * uy + lc * vy) * ux == lb * (ux * uy) + lc * (vy * ux)) by (nonlinear_arith);
    assert(lc * (vx * uy - vy * ux) == lc * (vx * uy) - lc * (vy * ux)) by (nonlinear_arith);
    assert(s * (wy * vx - wx * vy) == (s * wy) * vx - (s * wx) * vy) by (nonlinear_arith);
    assert((lb * uy + lc * vy) * vx == lb * (vx * uy) + lc * (vx * vy)) by (nonlinear_arith);
    assert((lb * ux + lc * vx) * vy == lb * (vy * ux) + lc * (vx * vy)) by (nonlinear_arith);
    assert(lb * (vx * uy - vy * ux) == lb * (vx * uy) - lb * (vy * ux)) by (nonlinear_arith);
}

/// The weights of a weighted mean of the corners are the weights of the
/// mean: `s · w_i = l_i · area`, where `s` is the sum of the `l_i`.
pub proof fn lemma_weights_of_mean(
    a: Vec3,
    b: Vec3,
    c: Vec3,
    px: int,
    py: int,
    la: int,
    lb: int,
    lc: int,
)
    requires
        is_mean(a, b, c, px, py, la, lb, lc),
    ensures
        (la + lb + lc) * weight1(a, b, c, px, py) == la * edge_of(a, b, c),
        (la + lb + lc) * weight2(a, b, c, px, py) == lb * edge_of(a, b, c),
        (la + lb + lc) * weight3(a, b, c, px, py) == lc * edge_of(a, b, c),
{
    let s = la + lb + lc;
    let ax = a.x.raw as int;
    let ay = a.y.raw as int;
    let ux = b.x.raw - a.x.raw;
    let uy = b.y.raw - a.y.raw;
    let vx = c.x.raw - a.x.raw;
    let vy = c.y.raw - a.y.raw;
    let wx = px - a.x.raw;
    let wy = py - a.y.raw;
    let d = edge_of(a, b, c);
    let w1 = weight1(a, b, c, px, py);
    let w2 = weight2(a, b, c, px, py);
    let w3 = weight3(a, b, c, px, py);
    assert(s * wx == lb * ux + lc * vx) by (nonlinear_arith)
        requires
            s == la + lb + lc,
            s * px == la * ax + lb * (ax + ux) + lc * (ax + vx),
            wx == px - ax,
    ;
    assert(s * wy == lb * uy + lc * vy) by (nonlinear_arith)
        requires
            s == la + lb + lc,
            s * py == la * ay + lb * (ay + uy) + lc * (ay + vy),
            wy == py - ay,
    ;
    lemma_mean_by_sides(s, lb, lc, ux, uy, vx, vy, wx, wy);
    lemma_weights_by_sides(a, b, c, px, py);
    lemma_weights_sum_to_one(a, b, c, px, py);
    assert(s * w3 == lc * d);
    assert(s * w2 == lb * d);
    assert(s * w1 == la * d) by (nonlinear_arith)
        requires
            s * w3 == lc * d,
            s * w2 == lb * d,
            w1 + w2 + w3 == d,
            s == la + lb + lc,
    ;
}

/// A share `l` of a positive whole `s` is a fraction in `[0, 1]` of any
/// double area that is not zero.
proof fn lemma_share_is_unit_fraction(s: int, l: int, w: int, d: int)
    requires
        s > 0,
        0 <= l <= s,
        d != 0,
        s * w == l * d,
    ensures
        unit_fraction(w, d),
        0 < l < s ==> strict_unit_fraction(w, d),
{
    assert(unit_fraction(w, d)) by (nonlinear_arith)
        requires
            s > 0,
            0 <= l <= s,
            d != 0,
            s * w == l * d,
    ;
    if 0 < l < s {
        assert(strict_unit_fraction(w, d)) by (nonlinear_arith)
            requires
                s > 0,
                0 < l < s,
                d != 0,
                s * w == l * d,
        ;
    }
}

/// The coverage test is membership in the closed triangle: a point is
/// covered exactly if it is a mean of the corners with weights that are not
/// negative. So a point outside the triangle has a weight outside `[0, 1]`.
pub proof fn lemma_covers_iff_in_triangle(a: Vec3, b: Vec3, c: Vec3, px: int, py: int)
    requires
        edge_of(a, b, c) != 0,
    ensures
        covers(a, b, c, px, py) <==> in_closed_triangle(a, b, c, px, py),
{
    let d = edge_of(a, b, c);
    let w1 = weight1(a, b, c, px, py);
    let w2 = weight2(a, b, c, px, py);
    let w3 = weight3(a, b, c, px, py);
    lemma_weights_sum_to_one(a, b, c, px, py);
    lemma_weights_reproduce_point(a, b, c, px, py);
    if covers(a, b, c, px, py) {
        if d > 0 {
            assert(is_mean(a, b, c, px, py, w1, w2, w3));
        } else {
            assert((-w1 + -w2 + -w3) * px == (-w1) * a.x.raw + (-w2) * b.x.raw + (-w3) * c.x.raw)
                by (nonlinear_arith)
                requires
                    d * px == w1 * a.x.raw + w2 * b.x.raw + w3 * c.x.raw,
                    w1 + w2 + w3 == d,
            ;
            assert((-w1 + -w2 + -w3) * py == (-w1) * a.y.raw + (-w2) * b.y.raw + (-w3) * c.y.raw)
                by (nonlinear_arith)
                requires
                    d * py == w1 * a.y.raw + w2 * b.y.raw + w3 * c.y.raw,
                    w1 + w2 + w3 == d,
            ;
            assert(is_mean(a, b, c, px, py, -w1, -w2, -w3));
        }
    }
    if in_closed_triangle(a, b, c, px, py) {
        let (la, lb, lc) = choose|la: int, lb: int, lc: int| #[trigger]
            is_mean(a, b, c, px, py, la, lb, lc) && la >= 0 && lb >= 0 && lc >= 0;
        lemma_weights_of_mean(a, b, c, px, py, la, lb, lc);
        lemma_share_is_unit_fraction(la + lb + lc, la, w1, d);
        lemma_share_is_unit_fraction(la + lb + lc, lb, w2, d);
        lemma_share_is_unit_fraction(la + lb + lc, lc, w3, d);
    }
}

/// A point strictly inside a triangle has all three weights strictly
/// between zero and one.
pub proof fn lemma_inside_weights_strict(a: Vec3, b: Vec3, c: Vec3, px: int, py: int)
    requires
        edge_of(a, b, c) != 0,
        in_open_triangle(a, b, c, px, py),
    ensures
        strict_unit_fraction(weight1(a, b, c, px, py), edge_of(a, b, c)),
        strict_unit_fraction(weight2(a, b, c, px, py), edge_of(a, b, c)),
        strict_unit_fraction(weight3(a, b, c, px, py), edge_of(a, b, c)),
{
    let d = edge_of(a, b, c);
    let (la, lb, lc) = choose|la: int, lb: int, lc: int| #[trigger]
        is_mean(a, b, c, px, py, la, lb, lc) && la > 0 && lb > 0 && lc > 0;
    lemma_weights_of_mean(a, b, c, px, py, la, lb, lc);
    lemma_share_is_unit_fraction(la + lb + lc, la, weight1(a, b, c, px, py), d);
    lemma_share_is_unit_fraction(la + lb + lc, lb, weight2(a, b, c, px, py), d);
    lemma_share_is_unit_fraction(la + lb + lc, lc, weight3(a, b, c, px, py), d);
}

/// A point outside the closed triangle has at least one weight outside
/// `[0, 1]`.
pub proof fn lemma_outside_has_weight_outside(a: Vec3, b: Vec3, c: Vec3, px: int, py: int)
    requires
        edge_of(a, b, c) != 0,
        !in_closed_triangle(a, b, c, px, py),
    ensures
        !unit_fraction(weight1(a, b, c, px, py), edge_of(a, b, c)) || !unit_fraction(
            weight2(a, b, c, px, py),
            edge_of(a, b, c),
        ) || !unit_fraction(weight3(a, b, c, px, py), edge_of(a, b, c)),
{
    lemma_covers_iff_in_triangle(a, b, c, px, py);
}

/// Under weights in `[0, 1]` that sum to one, an interpolated value lies
/// between the least and the greatest of the three corner values.
pub proof fn lemma_interpolation_between(w: Weights, v1: Fixed, v2: Fixed, v3: Fixed)
    requires
        w.spec_covered(),
        w.w1 + w.w2 + w.w3 == w.area,
    ensures
        v1.min(v2).min(v3).raw <= w.spec_interpolate(v1, v2, v3).raw <= v1.max(v2).max(v3).raw,
{
    let lo = v1.min(v2).min(v3).raw as int;
    let hi = v1.max(v2).max(v3).raw as int;
    let (a1, a2, a3, d) = if w.area > 0 {
        (w.w1 as int, w.w2 as int, w.w3 as int, w.area as int)
    } else {
        (-(w.w1 as int), -(w.w2 as int), -(w.w3 as int), -(w.area as int))
    };
    let n = a1 * v1.raw + a2 * v2.raw + a3 * v3.raw;
    assert(floor_div(w.w1 * v1.raw + w.w2 * v2.raw + w.w3 * v3.raw, w.area as int) == n / d) by {
        if w.area < 0 {
            assert(-(w.w1 * v1.raw + w.w2 * v2.raw + w.w3 * v3.raw) == n) by (nonlinear_arith)
                requires
                    n == a1 * v1.raw + a2 * v2.raw + a3 * v3.raw,
                    a1 == -(w.w1 as int),
                    a2 == -(w.w2 as int),
                    a3 == -(w.w3 as int),
            ;
        }
    }
    assert(lo * d <= n <= hi * d) by (nonlinear_arith)
        requires
            n == a1 * v1.raw + a2 * v2.raw + a3 * v3.raw,
            a1 >= 0,
            a2 >= 0,
            a3 >= 0,
            a1 + a2 + a3 == d,
            lo <= v1.raw <= hi,
            lo <= v2.raw <= hi,
            lo <= v3.raw <= hi,
    ;
    vstd::arithmetic::div_mod::lemma_fundamental_div_mod(n, d);
    vstd::arithmetic::div_mod::lemma_mod_bound(n, d);
    let q = n / d;
    assert(lo <= q <= hi) by (nonlinear_arith)
        requires
            d > 0,
            lo * d <= n <= hi * d,
            n == d * q + n % d,
            0 <= n % d < d,
    ;
}

/// A degenerate triangle, one whose corners lie on a line, covers no point.
pub proof fn lemma_degenerate_covers_nothing(a: Vec3, b: Vec3, c: Vec3, px: int, py: int)
    requires
        edge_of(a, b, c) == 0,
    ensures
        !covers(a, b, c, px, py),
{
}

} // verus!
