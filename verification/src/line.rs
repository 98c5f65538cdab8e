//! The line rasterizer: the pixels between two vertices.
//!
//! A line of `n` steps, where `n` is the greater of its two extents in
//! pixels, has `n + 1` fragments. Fragment `k` lies `k / n` of the way from
//! the first pixel to the last, each coordinate rounded to the nearest pixel.

use vstd::prelude::*;
use crate::color::Color;
use crate::fixed::{Fixed, saturate, div_floor, saturate_i128};
use crate::fragment::Fragment;
use crate::vertex::Vertex;

verus! {

/// The absolute value of an integer.
pub open spec fn abs_int(v: int) -> int {
    if v < 0 {
        -v
    } else {
        v
    }
}

/// The number of steps of a line from pixel `(x0, y0)` to pixel `(x1, y1)`:
/// the greater of its two extents.
pub open spec fn line_steps(x0: int, y0: int, x1: int, y1: int) -> int {
    if abs_int(x1 - x0) >= abs_int(y1 - y0) {
        abs_int(x1 - x0)
    } else {
        abs_int(y1 - y0)
    }
}

/// The coordinate `k / n` of the way from `c0` to `c1`, rounded to the
/// nearest whole number, halves upward. A line of no steps stays at `c0`.
pub open spec fn line_point(c0: int, c1: int, n: int, k: int) -> int {
    if n <= 0 {
        c0
    } else {
        c0 + (2 * k * (c1 - c0) + n) / (2 * n)
    }
}

/// The raw depth `k / n` of the way from `z0` to `z1`, rounded down.
pub open spec fn line_depth(z0: int, z1: int, n: int, k: int) -> int {
    if n <= 0 {
        z0
    } else {
        saturate(z0 + (k * (z1 - z0)) / n)
    }
}

/// Fragment `k` of the line from `a` to `b`: white, at the depth of the
/// line there.
pub open spec fn line_fragment(a: Vertex, b: Vertex, k: int) -> Fragment {
    let x0 = a.transformed_position.x.spec_floor();
    let y0 = a.transformed_position.y.spec_floor();
    let x1 = b.transformed_position.x.spec_floor();
    let y1 = b.transformed_position.y.spec_floor();
    let n = line_steps(x0, y0, x1, y1);
    Fragment {
        x: line_point(x0, x1, n, k) as i32,
        y: line_point(y0, y1, n, k) as i32,
        color: Color { r: 255, g: 255, b: 255 },
        depth: Fixed {
            raw: line_depth(
                a.transformed_position.z.raw as int,
                b.transformed_position.z.raw as int,
                n,
                k,
            ) as i32,
        },
    }
}

/// The fragments of the line from `a` to `b`, from `a`'s pixel to `b`'s.
pub open spec fn spec_line(a: Vertex, b: Vertex) -> Seq<Fragment> {
    let x0 = a.transformed_position.x.spec_floor();
    let y0 = a.transformed_position.y.spec_floor();
    let x1 = b.transformed_position.x.spec_floor();
    let y1 = b.transformed_position.y.spec_floor();
    Seq::new((line_steps(x0, y0, x1, y1) + 1) as nat, |k: int| line_fragment(a, b, k))
}

/// A point of a line lies between its two ends, and the line starts at the
/// one and stops at the other.
pub proof fn lemma_line_point_between(c0: int, c1: int, n: int, k: int)
    requires
        0 <= k <= n,
        abs_int(c1 - c0) <= n,
    ensures
        c0 <= c1 ==> c0 <= line_point(c0, c1, n, k) <= c1,
        c1 <= c0 ==> c1 <= line_point(c0, c1, n, k) <= c0,
        line_point(c0, c1, n, 0) == c0,
        line_point(c0, c1, n, n) == c1,
{
    if n > 0 {
        let d = c1 - c0;
        let q = (2 * k * d + n) / (2 * n);
        let q_end = (2 * n * d + n) / (2 * n);
        let q_start = (2 * 0 * d + n) / (2 * n);
        vstd::arithmetic::div_mod::lemma_fundamental_div_mod(2 * k * d + n, 2 * n);
        vstd::arithmetic::div_mod::lemma_mod_bound(2 * k * d + n, 2 * n);
        vstd::arithmetic::div_mod::lemma_fundamental_div_mod(2 * n * d + n, 2 * n);
        vstd::arithmetic::div_mod::lemma_mod_bound(2 * n * d + n, 2 * n);
        vstd::arithmetic::div_mod::lemma_fundamental_div_mod(2 * 0 * d + n, 2 * n);
        vstd::arithmetic::div_mod::lemma_mod_bound(2 * 0 * d + n, 2 * n);
        assert(q_start == 0) by (nonlinear_arith)
            requires
                n > 0,
                2 * 0 * d + n == (2 * n) * q_start + (2 * 0 * d + n) % (2 * n),
                0 <= (2 * 0 * d + n) % (2 * n) < 2 * n,
        ;
        assert(q_end == d) by (nonlinear_arith)
            requires
                n > 0,
                2 * n * d + n == (2 * n) * q_end + (2 * n * d + n) % (2 * n),
                0 <= (2 * n * d + n) % (2 * n) < 2 * n,
        ;
        if d >= 0 {
            assert(0 <= q <= d) by (nonlinear_arith)
                requires
                    n > 0,
                    0 <= k <= n,
                    0 <= d,
                    2 * k * d + n == (2 * n) * q + (2 * k * d + n) % (2 * n),
                    0 <= (2 * k * d + n) % (2 * n) < 2 * n,
            ;
        }
        if d <= 0 {
            assert(d <= q <= 0) by (nonlinear_arith)
                requires
                    n > 0,
                    0 <= k <= n,
                    d <= 0,
                    2 * k * d + n == (2 * n) * q + (2 * k * d + n) % (2 * n),
                    0 <= (2 * k * d + n) % (2 * n) < 2 * n,
            ;
        }
    }
}

/// A line has no gaps: from one fragment to the next, a coordinate moves by
/// one pixel at most.
pub proof fn lemma_line_is_connected(c0: int, c1: int, n: int, k: int)
    requires
        0 <= k < n,
        abs_int(c1 - c0) <= n,
    ensures
        -1 <= line_point(c0, c1, n, k + 1) - line_point(c0, c1, n, k) <= 1,
{
    let d = c1 - c0;
    let a = 2 * k * d + n;
    let b = 2 * (k + 1) * d + n;
    assert(b == a + 2 * d) by (nonlinear_arith)
        requires
            a == 2 * k * d + n,
            b == 2 * (k + 1) * d + n,
    ;
    vstd::arithmetic::div_mod::lemma_fundamental_div_mod(a, 2 * n);
    vstd::arithmetic::div_mod::lemma_mod_bound(a, 2 * n);
    vstd::arithmetic::div_mod::lemma_fundamental_div_mod(b, 2 * n);
    vstd::arithmetic::div_mod::lemma_mod_bound(b, 2 * n);
    let qa = a / (2 * n);
    let qb = b / (2 * n);
    assert(-1 <= qb - qa <= 1) by (nonlinear_arith)
        requires
            n > 0,
            -n <= d <= n,
            b == a + 2 * d,
            a == (2 * n) * qa + a % (2 * n),
            b == (2 * n) * qb + b % (2 * n),
            0 <= a % (2 * n) < 2 * n,
            0 <= b % (2 * n) < 2 * n,
    ;
}

/// Along its longer extent a line moves by exactly one pixel per fragment.
pub proof fn lemma_line_major_axis(c0: int, c1: int, n: int, k: int)
    requires
        0 <= k <= n,
        0 < n,
        abs_int(c1 - c0) == n,
    ensures
        line_point(c0, c1, n, k) == if c1 >= c0 { c0 + k } else { c0 - k },
{
    let d = c1 - c0;
    let s: int = if c1 >= c0 { 1 } else { -1 };
    let a = 2 * k * d + n;
    assert(a == (2 * n) * (s * k) + n) by (nonlinear_arith)
        requires
            a == 2 * k * d + n,
            d == s * n,
    ;
    vstd::arithmetic::div_mod::lemma_fundamental_div_mod_converse(a, 2 * n, s * k, n);
}

/// One coordinate of fragment `k`.
fn point_on_line(c0: i32, c1: i32, n: i32, k: i32) -> (r: i32)
    requires
        -32768 <= c0 <= 32767,
        -32768 <= c1 <= 32767,
        0 <= k <= n,
        abs_int(c1 - c0) <= n <= 65535,
    ensures
        r == line_point(c0 as int, c1 as int, n as int, k as int),
        -32768 <= r <= 32767,
{
    if n == 0 {
        c0
    } else {
        let d: i128 = (c1 - c0) as i128;
        assert(-0x2_0000_0000 <= 2 * (k as i128) * d <= 0x2_0000_0000) by (nonlinear_arith)
            requires
                0 <= k <= 65535,
                -65535 <= d <= 65535,
        ;
        let q: i128 = div_floor(2 * (k as i128) * d + (n as i128), 2 * (n as i128));
        proof {
            lemma_line_point_between(c0 as int, c1 as int, n as int, k as int);
        }
        (c0 as i128 + q) as i32
    }
}

/// The raw depth of fragment `k`.
fn depth_on_line(z0: i32, z1: i32, n: i32, k: i32) -> (r: i32)
    requires
        0 <= k <= n <= 65535,
    ensures
        r == line_depth(z0 as int, z1 as int, n as int, k as int),
{
    if n == 0 {
        z0
    } else {
        let d: i128 = z1 as i128 - z0 as i128;
        assert(-0x1_0000_0000_0000 <= (k as i128) * d <= 0x1_0000_0000_0000) by (nonlinear_arith)
            requires
                0 <= k <= 65535,
                -0x1_0000_0000 <= d <= 0x1_0000_0000,
        ;
        saturate_i128(z0 as i128 + div_floor((k as i128) * d, n as i128))
    }
}

/// The line between two transformed vertices, as white fragments from the
/// pixel of `a` to the pixel of `b`.
pub fn line(a: &Vertex, b: &Vertex) -> (frags: Vec<Fragment>)
    ensures
        frags@ == spec_line(*a, *b),
{
    let x0: i32 = a.transformed_position.x.floor();
    let y0: i32 = a.transformed_position.y.floor();
    let x1: i32 = b.transformed_position.x.floor();
    let y1: i32 = b.transformed_position.y.floor();
    let z0: i32 = a.transformed_position.z.raw;
    let z1: i32 = b.transformed_position.z.raw;
    let dx: i32 = if x1 >= x0 {
        x1 - x0
    } else {
        x0 - x1
    };
    let dy: i32 = if y1 >= y0 {
        y1 - y0
    } else {
        y0 - y1
    };
    let n: i32 = if dx >= dy {
        dx
    } else {
        dy
    };
    let mut fragments: Vec<Fragment> = Vec::new();
    let mut k: i32 = 0;
    while k <= n
        invariant
            0 <= k <= n + 1,
            n == line_steps(x0 as int, y0 as int, x1 as int, y1 as int),
            n <= 65535,
            abs_int(x1 - x0) <= n,
            abs_int(y1 - y0) <= n,
            -32768 <= x0 <= 32767,
            -32768 <= y0 <= 32767,
            -32768 <= x1 <= 32767,
            -32768 <= y1 <= 32767,
            x0 == a.transformed_position.x.spec_floor(),
            y0 == a.transformed_position.y.spec_floor(),
            x1 == b.transformed_position.x.spec_floor(),
            y1 == b.transformed_position.y.spec_floor(),
            z0 == a.transformed_position.z.raw,
            z1 == b.transformed_position.z.raw,
            fragments@.len() == k,
            forall|i: int| 0 <= i < k ==> fragments@[i] == line_fragment(*a, *b, i),
        decreases n + 1 - k,
    {
        let f = Fragment::new(
            point_on_line(x0, x1, n, k),
            point_on_line(y0, y1, n, k),
            Color::new(255, 255, 255),
            Fixed { raw: depth_on_line(z0, z1, n, k) },
        );
        fragments.push(f);
        k = k + 1;
    }
    assert(fragments@ =~= spec_line(*a, *b));
    fragments
}

} // verus!
