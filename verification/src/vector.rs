//! Small vectors and matrices over `Fixed`.
//!
//! A dot product is summed exactly and rounded once; the matrix products are
//! built from it.

use vstd::prelude::*;
use crate::fixed::{
    Fixed, saturate, floor_div, sqrt_floor, wide_product, div_floor, div_floor_signed, saturate_i128,
    isqrt,
};

verus! {

/// A pair of fixed-point numbers.
#[derive(Clone, Copy, Debug, PartialEq, Eq, Structural)]
pub struct Vec2 {
    pub x: Fixed,
    pub y: Fixed,
}

/// A triple of fixed-point numbers.
#[derive(Clone, Copy, Debug, PartialEq, Eq, Structural)]
pub struct Vec3 {
    pub x: Fixed,
    pub y: Fixed,
    pub z: Fixed,
}

/// A homogeneous coordinate.
#[derive(Clone, Copy, Debug, PartialEq, Eq, Structural)]
pub struct Vec4 {
    pub x: Fixed,
    pub y: Fixed,
    pub z: Fixed,
    pub w: Fixed,
}

/// A 3×3 matrix, by rows.
#[derive(Clone, Copy, Debug, PartialEq, Eq, Structural)]
pub struct Mat3 {
    pub r0: Vec3,
    pub r1: Vec3,
    pub r2: Vec3,
}

/// A 4×4 matrix, by rows.
#[derive(Clone, Copy, Debug, PartialEq, Eq, Structural)]
pub struct Mat4 {
    pub r0: Vec4,
    pub r1: Vec4,
    pub r2: Vec4,
    pub r3: Vec4,
}

/// One component of a normalized vector: `c / len`, and zero where the
/// length is zero.
pub open spec fn normalized_raw(c: int, len: int) -> int {
    if len == 0 {
        0
    } else {
        saturate((c * 65536) / len)
    }
}

/// The 2×2 determinant `p·s - q·r`.
pub open spec fn minor(p: int, q: int, r: int, s: int) -> int {
    p * s - q * r
}

/// The 2×2 determinant of four raw values.
fn minor_of(p: i32, q: i32, r: i32, s: i32) -> (m: i128)
    ensures
        m == minor(p as int, q as int, r as int, s as int),
        -0x8000_0000_0000_0000 <= m <= 0x8000_0000_0000_0000,
{
    wide_product(p, s) - wide_product(q, r)
}

/// A raw value times a cofactor.
fn entry_times(v: i32, c: i128) -> (r: i128)
    requires
        -0x8000_0000_0000_0000 <= c <= 0x8000_0000_0000_0000,
    ensures
        r == v * c,
        -0x4000_0000_0000_0000_0000_0000 <= r <= 0x4000_0000_0000_0000_0000_0000,
{
    assert(-0x4000_0000_0000_0000_0000_0000 <= v * c <= 0x4000_0000_0000_0000_0000_0000)
        by (nonlinear_arith)
        requires
            -0x8000_0000_0000_0000 <= c <= 0x8000_0000_0000_0000,
            -0x8000_0000 <= v <= 0x8000_0000,
    ;
    (v as i128) * c
}

/// A cofactor over the determinant, as a raw value.
fn quotient_of(c: i128, d: i128) -> (r: Fixed)
    requires
        -0x8000_0000_0000_0000 <= c <= 0x8000_0000_0000_0000,
        d != 0,
        d > i128::MIN,
    ensures
        r == Mat3::cofactor_quotient(c as int, d as int),
{
    Fixed { raw: saturate_i128(div_floor_signed(c * 0x1_0000_0000, d)) }
}

impl Vec2 {
    pub fn new(x: Fixed, y: Fixed) -> (r: Vec2)
        ensures
            r == (Vec2 { x, y }),
    {
        Vec2 { x, y }
    }
}

impl Vec3 {
    /// The exact sum of the products of the raw components.
    pub open spec fn dot_wide(self, other: Vec3) -> int {
        self.x.raw * other.x.raw + self.y.raw * other.y.raw + self.z.raw * other.z.raw
    }

    pub open spec fn spec_dot(self, other: Vec3) -> Fixed {
        Fixed { raw: saturate(self.dot_wide(other) / 65536) as i32 }
    }

    pub open spec fn spec_zero() -> Vec3 {
        Vec3 { x: Fixed { raw: 0 }, y: Fixed { raw: 0 }, z: Fixed { raw: 0 } }
    }

    pub open spec fn spec_add(self, other: Vec3) -> Vec3 {
        Vec3 { x: self.x.add(other.x), y: self.y.add(other.y), z: self.z.add(other.z) }
    }

    pub open spec fn spec_sub(self, other: Vec3) -> Vec3 {
        Vec3 { x: self.x.sub(other.x), y: self.y.sub(other.y), z: self.z.sub(other.z) }
    }

    pub open spec fn spec_scale(self, f: Fixed) -> Vec3 {
        Vec3 { x: self.x.mul(f), y: self.y.mul(f), z: self.z.mul(f) }
    }

    /// The length as an integer in raw units, before any saturation.
    pub open spec fn length_wide(self) -> int {
        sqrt_floor(self.dot_wide(self))
    }

    pub open spec fn spec_length(self) -> Fixed {
        Fixed { raw: saturate(self.length_wide()) as i32 }
    }

    pub open spec fn spec_normalize(self) -> Vec3 {
        let len = self.length_wide();
        Vec3 {
            x: Fixed { raw: normalized_raw(self.x.raw as int, len) as i32 },
            y: Fixed { raw: normalized_raw(self.y.raw as int, len) as i32 },
            z: Fixed { raw: normalized_raw(self.z.raw as int, len) as i32 },
        }
    }

    pub fn new(x: Fixed, y: Fixed, z: Fixed) -> (r: Vec3)
        ensures
            r == (Vec3 { x, y, z }),
    {
        Vec3 { x, y, z }
    }

    /// The vector of three whole numbers.
    pub fn from_ints(x: i32, y: i32, z: i32) -> (r: Vec3)
        ensures
            r == (Vec3 { x: Fixed::from_int(x), y: Fixed::from_int(y), z: Fixed::from_int(z) }),
    {
        Vec3 { x: Fixed::from_int(x), y: Fixed::from_int(y), z: Fixed::from_int(z) }
    }

    #[verifier::when_used_as_spec(spec_zero)]
    pub fn zero() -> (r: Vec3)
        ensures
            r == Vec3::spec_zero(),
    {
        Vec3 { x: Fixed::zero(), y: Fixed::zero(), z: Fixed::zero() }
    }

    /// The dot product, summed exactly and rounded down once.
    #[verifier::when_used_as_spec(spec_dot)]
    pub fn dot(self, other: Vec3) -> (r: Fixed)
        ensures
            r == self.spec_dot(other),
    {
        let s: i128 = wide_product(self.x.raw, other.x.raw) + wide_product(self.y.raw, other.y.raw)
            + wide_product(self.z.raw, other.z.raw);
        Fixed { raw: saturate_i128(div_floor(s, 65536)) }
    }

    #[verifier::when_used_as_spec(spec_add)]
    pub fn add(self, other: Vec3) -> (r: Vec3)
        ensures
            r == self.spec_add(other),
    {
        Vec3 { x: self.x.add(other.x), y: self.y.add(other.y), z: self.z.add(other.z) }
    }

    #[verifier::when_used_as_spec(spec_sub)]
    pub fn sub(self, other: Vec3) -> (r: Vec3)
        ensures
            r == self.spec_sub(other),
    {
        Vec3 { x: self.x.sub(other.x), y: self.y.sub(other.y), z: self.z.sub(other.z) }
    }

    /// Every component times `f`.
    #[verifier::when_used_as_spec(spec_scale)]
    pub fn scale(self, f: Fixed) -> (r: Vec3)
        ensures
            r == self.spec_scale(f),
    {
        Vec3 { x: self.x.mul(f), y: self.y.mul(f), z: self.z.mul(f) }
    }

    /// The length in raw units, exact but for the rounding of the root.
    pub fn length_raw(self) -> (len: u64)
        ensures
            len == self.length_wide(),
            len < 0x1_0000_0000,
    {
        let xx: i128 = wide_product(self.x.raw, self.x.raw);
        let yy: i128 = wide_product(self.y.raw, self.y.raw);
        let zz: i128 = wide_product(self.z.raw, self.z.raw);
        assert(xx >= 0 && yy >= 0 && zz >= 0) by (nonlinear_arith)
            requires
                xx == self.x.raw * self.x.raw,
                yy == self.y.raw * self.y.raw,
                zz == self.z.raw * self.z.raw,
        ;
        let sum: i128 = xx + yy + zz;
        isqrt(sum as u64)
    }

    /// The Euclidean length, saturated.
    #[verifier::when_used_as_spec(spec_length)]
    pub fn length(self) -> (r: Fixed)
        ensures
            r == self.spec_length(),
    {
        Fixed { raw: saturate_i128(self.length_raw() as i128) }
    }

    /// The vector scaled to length one. A vector of length zero stays zero.
    #[verifier::when_used_as_spec(spec_normalize)]
    pub fn normalize(self) -> (r: Vec3)
        ensures
            r == self.spec_normalize(),
    {
        let len: u64 = self.length_raw();
        if len == 0 {
            Vec3 { x: Fixed { raw: 0 }, y: Fixed { raw: 0 }, z: Fixed { raw: 0 } }
        } else {
            let l: i128 = len as i128;
            Vec3 {
                x: Fixed { raw: saturate_i128(div_floor((self.x.raw as i128) * 65536, l)) },
                y: Fixed { raw: saturate_i128(div_floor((self.y.raw as i128) * 65536, l)) },
                z: Fixed { raw: saturate_i128(div_floor((self.z.raw as i128) * 65536, l)) },
            }
        }
    }
}

impl Vec4 {
    /// The exact sum of the products of the raw components.
    pub open spec fn dot_wide(self, other: Vec4) -> int {
        self.x.raw * other.x.raw + self.y.raw * other.y.raw + self.z.raw * other.z.raw
            + self.w.raw * other.w.raw
    }

    pub open spec fn spec_dot(self, other: Vec4) -> Fixed {
        Fixed { raw: saturate(self.dot_wide(other) / 65536) as i32 }
    }

    pub fn new(x: Fixed, y: Fixed, z: Fixed, w: Fixed) -> (r: Vec4)
        ensures
            r == (Vec4 { x, y, z, w }),
    {
        Vec4 { x, y, z, w }
    }

    /// The dot product, summed exactly and rounded down once.
    #[verifier::when_used_as_spec(spec_dot)]
    pub fn dot(self, other: Vec4) -> (r: Fixed)
        ensures
            r == self.spec_dot(other),
    {
        let s: i128 = wide_product(self.x.raw, other.x.raw) + wide_product(self.y.raw, other.y.raw)
            + wide_product(self.z.raw, other.z.raw) + wide_product(self.w.raw, other.w.raw);
        Fixed { raw: saturate_i128(div_floor(s, 65536)) }
    }
}

impl Mat3 {
    pub open spec fn spec_identity() -> Mat3 {
        Mat3 {
            r0: Vec3 { x: Fixed { raw: 65536 }, y: Fixed { raw: 0 }, z: Fixed { raw: 0 } },
            r1: Vec3 { x: Fixed { raw: 0 }, y: Fixed { raw: 65536 }, z: Fixed { raw: 0 } },
            r2: Vec3 { x: Fixed { raw: 0 }, y: Fixed { raw: 0 }, z: Fixed { raw: 65536 } },
        }
    }

    pub open spec fn spec_mul_vec(self, v: Vec3) -> Vec3 {
        Vec3 { x: self.r0.dot(v), y: self.r1.dot(v), z: self.r2.dot(v) }
    }

    /// The matrix of cofactors, each an exact integer in units of 2^-32.
    pub open spec fn cofactors(self) -> Seq<int> {
        let m = self;
        seq![
            minor(m.r1.y.raw as int, m.r1.z.raw as int, m.r2.y.raw as int, m.r2.z.raw as int),
            -minor(m.r1.x.raw as int, m.r1.z.raw as int, m.r2.x.raw as int, m.r2.z.raw as int),
            minor(m.r1.x.raw as int, m.r1.y.raw as int, m.r2.x.raw as int, m.r2.y.raw as int),
            -minor(m.r0.y.raw as int, m.r0.z.raw as int, m.r2.y.raw as int, m.r2.z.raw as int),
            minor(m.r0.x.raw as int, m.r0.z.raw as int, m.r2.x.raw as int, m.r2.z.raw as int),
            -minor(m.r0.x.raw as int, m.r0.y.raw as int, m.r2.x.raw as int, m.r2.y.raw as int),
            minor(m.r0.y.raw as int, m.r0.z.raw as int, m.r1.y.raw as int, m.r1.z.raw as int),
            -minor(m.r0.x.raw as int, m.r0.z.raw as int, m.r1.x.raw as int, m.r1.z.raw as int),
            minor(m.r0.x.raw as int, m.r0.y.raw as int, m.r1.x.raw as int, m.r1.y.raw as int),
        ]
    }

    /// The determinant, an exact integer in units of 2^-48: the first row
    /// against its cofactors.
    pub open spec fn determinant_wide(self) -> int {
        let c = self.cofactors();
        self.r0.x.raw * c[0] + self.r0.y.raw * c[1] + self.r0.z.raw * c[2]
    }

    /// One entry of the inverse of the transpose: a cofactor over the
    /// determinant, as a raw value.
    pub open spec fn cofactor_quotient(cofactor: int, det: int) -> Fixed
        recommends
            det != 0,
    {
        Fixed { raw: saturate(floor_div(cofactor * 0x1_0000_0000, det)) as i32 }
    }

    /// The inverse of the transpose, where the determinant is not zero.
    pub open spec fn spec_inverse_transpose(self) -> Option<Mat3> {
        let c = self.cofactors();
        let d = self.determinant_wide();
        if d == 0 {
            None
        } else {
            Some(
                Mat3 {
                    r0: Vec3 {
                        x: Mat3::cofactor_quotient(c[0], d),
                        y: Mat3::cofactor_quotient(c[1], d),
                        z: Mat3::cofactor_quotient(c[2], d),
                    },
                    r1: Vec3 {
                        x: Mat3::cofactor_quotient(c[3], d),
                        y: Mat3::cofactor_quotient(c[4], d),
                        z: Mat3::cofactor_quotient(c[5], d),
                    },
                    r2: Vec3 {
                        x: Mat3::cofactor_quotient(c[6], d),
                        y: Mat3::cofactor_quotient(c[7], d),
                        z: Mat3::cofactor_quotient(c[8], d),
                    },
                },
            )
        }
    }

    /// The inverse of the transpose of the matrix, or `None` where the
    /// matrix is singular: where its determinant is exactly zero.
    #[verifier::when_used_as_spec(spec_inverse_transpose)]
    pub fn inverse_transpose(self) -> (r: Option<Mat3>)
        ensures
            r == self.spec_inverse_transpose(),
    {
        let m = self;
        let c0: i128 = minor_of(m.r1.y.raw, m.r1.z.raw, m.r2.y.raw, m.r2.z.raw);
        let c1: i128 = -minor_of(m.r1.x.raw, m.r1.z.raw, m.r2.x.raw, m.r2.z.raw);
        let c2: i128 = minor_of(m.r1.x.raw, m.r1.y.raw, m.r2.x.raw, m.r2.y.raw);
        let c3: i128 = -minor_of(m.r0.y.raw, m.r0.z.raw, m.r2.y.raw, m.r2.z.raw);
        let c4: i128 = minor_of(m.r0.x.raw, m.r0.z.raw, m.r2.x.raw, m.r2.z.raw);
        let c5: i128 = -minor_of(m.r0.x.raw, m.r0.y.raw, m.r2.x.raw, m.r2.y.raw);
        let c6: i128 = minor_of(m.r0.y.raw, m.r0.z.raw, m.r1.y.raw, m.r1.z.raw);
        let c7: i128 = -minor_of(m.r0.x.raw, m.r0.z.raw, m.r1.x.raw, m.r1.z.raw);
        let c8: i128 = minor_of(m.r0.x.raw, m.r0.y.raw, m.r1.x.raw, m.r1.y.raw);
        let d: i128 = entry_times(m.r0.x.raw, c0) + entry_times(m.r0.y.raw, c1) + entry_times(
            m.r0.z.raw,
            c2,
        );
        if d == 0 {
            None
        } else {
            Some(
                Mat3 {
                    r0: Vec3 { x: quotient_of(c0, d), y: quotient_of(c1, d), z: quotient_of(c2, d) },
                    r1: Vec3 { x: quotient_of(c3, d), y: quotient_of(c4, d), z: quotient_of(c5, d) },
                    r2: Vec3 { x: quotient_of(c6, d), y: quotient_of(c7, d), z: quotient_of(c8, d) },
                },
            )
        }
    }

    #[verifier::when_used_as_spec(spec_identity)]
    pub fn identity() -> (r: Mat3)
        ensures
            r == Mat3::spec_identity(),
    {
        let o = Fixed::one();
        let z = Fixed::zero();
        Mat3 {
            r0: Vec3 { x: o, y: z, z: z },
            r1: Vec3 { x: z, y: o, z: z },
            r2: Vec3 { x: z, y: z, z: o },
        }
    }

    /// The matrix applied to a column vector.
    #[verifier::when_used_as_spec(spec_mul_vec)]
    pub fn mul_vec(self, v: Vec3) -> (r: Vec3)
        ensures
            r == self.spec_mul_vec(v),
    {
        Vec3 { x: self.r0.dot(v), y: self.r1.dot(v), z: self.r2.dot(v) }
    }
}

impl Mat4 {
    pub open spec fn spec_identity() -> Mat4 {
        let o = Fixed { raw: 65536 };
        let z = Fixed { raw: 0 };
        Mat4 {
            r0: Vec4 { x: o, y: z, z: z, w: z },
            r1: Vec4 { x: z, y: o, z: z, w: z },
            r2: Vec4 { x: z, y: z, z: o, w: z },
            r3: Vec4 { x: z, y: z, z: z, w: o },
        }
    }

    pub open spec fn col0(self) -> Vec4 {
        Vec4 { x: self.r0.x, y: self.r1.x, z: self.r2.x, w: self.r3.x }
    }

    pub open spec fn col1(self) -> Vec4 {
        Vec4 { x: self.r0.y, y: self.r1.y, z: self.r2.y, w: self.r3.y }
    }

    pub open spec fn col2(self) -> Vec4 {
        Vec4 { x: self.r0.z, y: self.r1.z, z: self.r2.z, w: self.r3.z }
    }

    pub open spec fn col3(self) -> Vec4 {
        Vec4 { x: self.r0.w, y: self.r1.w, z: self.r2.w, w: self.r3.w }
    }

    pub open spec fn spec_linear_part(self) -> Mat3 {
        Mat3 {
            r0: Vec3 { x: self.r0.x, y: self.r0.y, z: self.r0.z },
            r1: Vec3 { x: self.r1.x, y: self.r1.y, z: self.r1.z },
            r2: Vec3 { x: self.r2.x, y: self.r2.y, z: self.r2.z },
        }
    }

    pub open spec fn spec_mul_vec(self, v: Vec4) -> Vec4 {
        Vec4 { x: self.r0.dot(v), y: self.r1.dot(v), z: self.r2.dot(v), w: self.r3.dot(v) }
    }

    /// One row of a product: `row` against every column of `m`.
    pub open spec fn row_times(row: Vec4, m: Mat4) -> Vec4 {
        Vec4 { x: row.dot(m.col0()), y: row.dot(m.col1()), z: row.dot(m.col2()), w: row.dot(m.col3()) }
    }

    pub open spec fn spec_mul(self, other: Mat4) -> Mat4 {
        Mat4 {
            r0: Mat4::row_times(self.r0, other),
            r1: Mat4::row_times(self.r1, other),
            r2: Mat4::row_times(self.r2, other),
            r3: Mat4::row_times(self.r3, other),
        }
    }

    pub fn new(r0: Vec4, r1: Vec4, r2: Vec4, r3: Vec4) -> (r: Mat4)
        ensures
            r == (Mat4 { r0, r1, r2, r3 }),
    {
        Mat4 { r0, r1, r2, r3 }
    }

    /// The upper-left 3×3 block: the part that turns and scales.
    #[verifier::when_used_as_spec(spec_linear_part)]
    pub fn linear_part(self) -> (r: Mat3)
        ensures
            r == self.spec_linear_part(),
    {
        Mat3 {
            r0: Vec3 { x: self.r0.x, y: self.r0.y, z: self.r0.z },
            r1: Vec3 { x: self.r1.x, y: self.r1.y, z: self.r1.z },
            r2: Vec3 { x: self.r2.x, y: self.r2.y, z: self.r2.z },
        }
    }

    #[verifier::when_used_as_spec(spec_identity)]
    pub fn identity() -> (r: Mat4)
        ensures
            r == Mat4::spec_identity(),
    {
        let o = Fixed::one();
        let z = Fixed::zero();
        Mat4 {
            r0: Vec4 { x: o, y: z, z: z, w: z },
            r1: Vec4 { x: z, y: o, z: z, w: z },
            r2: Vec4 { x: z, y: z, z: o, w: z },
            r3: Vec4 { x: z, y: z, z: z, w: o },
        }
    }

    /// The matrix applied to a column vector.
    #[verifier::when_used_as_spec(spec_mul_vec)]
    pub fn mul_vec(self, v: Vec4) -> (r: Vec4)
        ensures
            r == self.spec_mul_vec(v),
    {
        Vec4 { x: self.r0.dot(v), y: self.r1.dot(v), z: self.r2.dot(v), w: self.r3.dot(v) }
    }

    fn row_product(row: Vec4, m: Mat4) -> (r: Vec4)
        ensures
            r == Mat4::row_times(row, m),
    {
        let c0 = Vec4 { x: m.r0.x, y: m.r1.x, z: m.r2.x, w: m.r3.x };
        let c1 = Vec4 { x: m.r0.y, y: m.r1.y, z: m.r2.y, w: m.r3.y };
        let c2 = Vec4 { x: m.r0.z, y: m.r1.z, z: m.r2.z, w: m.r3.z };
        let c3 = Vec4 { x: m.r0.w, y: m.r1.w, z: m.r2.w, w: m.r3.w };
        Vec4 { x: row.dot(c0), y: row.dot(c1), z: row.dot(c2), w: row.dot(c3) }
    }

    /// The matrix product `self · other`.
    #[verifier::when_used_as_spec(spec_mul)]
    pub fn mul(self, other: Mat4) -> (r: Mat4)
        ensures
            r == self.spec_mul(other),
    {
        Mat4 {
            r0: Mat4::row_product(self.r0, other),
            r1: Mat4::row_product(self.r1, other),
            r2: Mat4::row_product(self.r2, other),
            r3: Mat4::row_product(self.r3, other),
        }
    }
}

/// The identity leaves every vector as it is.
pub proof fn lemma_identity_mul_vec(v: Vec4)
    ensures
        Mat4::spec_identity().spec_mul_vec(v) == v,
{
    let i = Mat4::spec_identity();
    assert((65536 * v.x.raw) / 65536 == v.x.raw as int) by (nonlinear_arith);
    assert((65536 * v.y.raw) / 65536 == v.y.raw as int) by (nonlinear_arith);
    assert((65536 * v.z.raw) / 65536 == v.z.raw as int) by (nonlinear_arith);
    assert((65536 * v.w.raw) / 65536 == v.w.raw as int) by (nonlinear_arith);
    assert(i.r0.dot_wide(v) == 65536 * v.x.raw);
    assert(i.r1.dot_wide(v) == 65536 * v.y.raw);
    assert(i.r2.dot_wide(v) == 65536 * v.z.raw);
    assert(i.r3.dot_wide(v) == 65536 * v.w.raw);
}

/// The identity is its own inverse transpose.
pub proof fn lemma_identity_inverse_transpose()
    ensures
        Mat3::spec_identity().spec_inverse_transpose() == Some(Mat3::spec_identity()),
{
    let i = Mat3::spec_identity();
    let c = i.cofactors();
    assert(c[0] == 0x1_0000_0000 && c[4] == 0x1_0000_0000 && c[8] == 0x1_0000_0000);
    assert(c[1] == 0 && c[2] == 0 && c[3] == 0 && c[5] == 0 && c[6] == 0 && c[7] == 0);
    assert(i.determinant_wide() == 0x1_0000_0000_0000);
    assert(0x1_0000_0000int * 0x1_0000_0000 / 0x1_0000_0000_0000 == 65536);
    assert(0int * 0x1_0000_0000 / 0x1_0000_0000_0000 == 0);
}

/// The identity is a left and a right unit of the matrix product.
pub proof fn lemma_identity_mul(m: Mat4)
    ensures
        Mat4::spec_identity().spec_mul(m) == m,
        m.spec_mul(Mat4::spec_identity()) == m,
{
    let i = Mat4::spec_identity();
    assert forall|a: int| #[trigger] ((65536 * a) / 65536) == a by {
        assert((65536 * a) / 65536 == a) by (nonlinear_arith);
    }
    assert forall|a: int| #[trigger] ((a * 65536) / 65536) == a by {
        assert((a * 65536) / 65536 == a) by (nonlinear_arith);
    }
    assert(Mat4::row_times(i.r0, m) == m.r0);
    assert(Mat4::row_times(i.r1, m) == m.r1);
    assert(Mat4::row_times(i.r2, m) == m.r2);
    assert(Mat4::row_times(i.r3, m) == m.r3);
    assert(Mat4::row_times(m.r0, i) == m.r0);
    assert(Mat4::row_times(m.r1, i) == m.r1);
    assert(Mat4::row_times(m.r2, i) == m.r2);
    assert(Mat4::row_times(m.r3, i) == m.r3);
}

} // verus!
