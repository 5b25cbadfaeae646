use vstd::prelude::*;
use crate::fixed::{fmul, sok, tdiv, COORD_LIMIT, FX_ONE};
use crate::ray::clamp_s;
use crate::vec3::{vok, Vec3d};

verus! {

/// A 4x4 affine transform in column-major order: entry (row `r`, column `c`)
/// sits at `data[c * 4 + r]`.
#[derive(Clone, Copy, Debug)]
pub struct Mat4d {
    pub data: [i64; 16],
}

/// Every entry within the coordinate range.
pub open spec fn mok(m: Mat4d) -> bool {
    forall|i: int| 0 <= i < 16 ==> sok(#[trigger] m.data[i])
}

/// Entry of the upper-left 3x3 linear part, by row and column.
pub open spec fn lin(m: Mat4d, r: int, c: int) -> int {
    m.data[c * 4 + r] as int
}

/// Component `r` of the translation column.
pub open spec fn trs(m: Mat4d, r: int) -> int {
    m.data[12 + r] as int
}

/// The cofactor of linear entry (`r`, `c`).
pub open spec fn cof3(m: Mat4d, r: int, c: int) -> int {
    let r0: int = if r == 0 { 1 } else { 0 };
    let r1: int = if r == 2 { 1 } else { 2 };
    let c0: int = if c == 0 { 1 } else { 0 };
    let c1: int = if c == 2 { 1 } else { 2 };
    let minor = lin(m, r0, c0) * lin(m, r1, c1) - lin(m, r0, c1) * lin(m, r1, c0);
    if (r + c) % 2 == 0 {
        minor
    } else {
        -minor
    }
}

/// The determinant of the linear part (raw, carrying three scale factors).
pub open spec fn det3(m: Mat4d) -> int {
    lin(m, 0, 0) * cof3(m, 0, 0) + lin(m, 0, 1) * cof3(m, 0, 1) + lin(m, 0, 2) * cof3(m, 0, 2)
}

/// Whether the last row is `(0, 0, 0, 1)`, so the matrix is an affine map.
pub open spec fn affine(m: Mat4d) -> bool {
    m.data[3] == 0 && m.data[7] == 0 && m.data[11] == 0 && m.data[15] == FX_ONE
}

/// Entry (`r`, `c`) of the inverted linear part: the adjugate over the
/// determinant, rounded once and saturated.
pub open spec fn inv_lin(m: Mat4d, r: int, c: int) -> int {
    clamp_s(tdiv(cof3(m, c, r) * (FX_ONE as int) * (FX_ONE as int), det3(m)))
}

/// Component `r` of the inverted translation: `-(A^{-1} t)`, computed from
/// the already-rounded inverted entries, rounded once and saturated.
pub open spec fn inv_trs(m: Mat4d, r: int) -> int {
    clamp_s(
        -tdiv(
            inv_lin(m, r, 0) * trs(m, 0) + inv_lin(m, r, 1) * trs(m, 1) + inv_lin(m, r, 2) * trs(
                m,
                2,
            ),
            FX_ONE as int,
        ),
    )
}

/// One row of an affine application: `(m0 x + m1 y + m2 z) / FX_ONE + t`,
/// rounded once and saturated into the coordinate range.
pub open spec fn affine_row_spec(m0: int, m1: int, m2: int, t: int, p: Vec3d) -> int {
    clamp_s(tdiv(m0 * p.x + m1 * p.y + m2 * p.z, FX_ONE as int) + t)
}

/// One row of an affine application, executable.
fn affine_row(m0: i64, m1: i64, m2: i64, t: i64, x: i64, y: i64, z: i64) -> (r: i64)
    requires
        sok(m0),
        sok(m1),
        sok(m2),
        sok(t),
        sok(x),
        sok(y),
        sok(z),
    ensures
        r == affine_row_spec(m0 as int, m1 as int, m2 as int, t as int, Vec3d { x, y, z }),
        sok(r),
{
    proof {
        crate::fixed::lemma_mul_bound(m0 as int, x as int, COORD_LIMIT as int, COORD_LIMIT as int);
        crate::fixed::lemma_mul_bound(m1 as int, y as int, COORD_LIMIT as int, COORD_LIMIT as int);
        crate::fixed::lemma_mul_bound(m2 as int, z as int, COORD_LIMIT as int, COORD_LIMIT as int);
    }
    let s: i128 = (m0 as i128) * (x as i128) + (m1 as i128) * (y as i128) + (m2 as i128) * (
    z as i128);
    let q: i128 = if s >= 0 {
        s / (FX_ONE as i128)
    } else {
        -((-s) / (FX_ONE as i128))
    };
    proof {
        crate::fixed::lemma_tdiv_bound(s as int, FX_ONE as int,
            3 * (COORD_LIMIT as int) * (COORD_LIMIT as int));
    }
    let v: i128 = q + (t as i128);
    if v < -(COORD_LIMIT as i128) {
        -COORD_LIMIT
    } else if v > COORD_LIMIT as i128 {
        COORD_LIMIT
    } else {
        v as i64
    }
}

impl Mat4d {
    pub open spec fn identity_spec() -> Mat4d {
        Mat4d {
            data: [
                FX_ONE as i64, 0, 0, 0,
                0, FX_ONE as i64, 0, 0,
                0, 0, FX_ONE as i64, 0,
                0, 0, 0, FX_ONE as i64,
            ],
        }
    }

    pub fn identity() -> (m: Mat4d)
        ensures
            m == Mat4d::identity_spec(),
            mok(m),
            affine(m),
    {
        let m = Mat4d {
            data: [FX_ONE, 0, 0, 0, 0, FX_ONE, 0, 0, 0, 0, FX_ONE, 0, 0, 0, 0, FX_ONE],
        };
        proof {
            assert(forall|i: int| 0 <= i < 16 ==> sok(#[trigger] m.data[i])) by {
                assert(m.data[0] == FX_ONE && m.data[5] == FX_ONE && m.data[10] == FX_ONE
                    && m.data[15] == FX_ONE);
            }
        }
        m
    }

    /// The translation by `dir`.
    pub fn from_translation(dir: Vec3d) -> (m: Mat4d)
        requires
            vok(dir),
        ensures
            affine(m),
            mok(m),
            forall|r: int, c: int| 0 <= r < 3 && 0 <= c < 3 ==> lin(m, r, c) == (
            if r == c { FX_ONE as int } else { 0 }),
            trs(m, 0) == dir.x,
            trs(m, 1) == dir.y,
            trs(m, 2) == dir.z,
    {
        Mat4d {
            data: [FX_ONE, 0, 0, 0, 0, FX_ONE, 0, 0, 0, 0, FX_ONE, 0, dir.x, dir.y, dir.z, FX_ONE],
        }
    }

    /// The axis-aligned scaling by `(sx, sy, sz)`.
    pub fn from_scaling(sx: i64, sy: i64, sz: i64) -> (m: Mat4d)
        requires
            sok(sx),
            sok(sy),
            sok(sz),
        ensures
            affine(m),
            mok(m),
            lin(m, 0, 0) == sx,
            lin(m, 1, 1) == sy,
            lin(m, 2, 2) == sz,
            forall|r: int, c: int| 0 <= r < 3 && 0 <= c < 3 && r != c ==> lin(m, r, c) == 0,
            trs(m, 0) == 0 && trs(m, 1) == 0 && trs(m, 2) == 0,
    {
        Mat4d { data: [sx, 0, 0, 0, 0, sy, 0, 0, 0, 0, sz, 0, 0, 0, 0, FX_ONE] }
    }

    /// The image of a point (linear part applied, translation added), each
    /// component rounded once and saturated.
    pub open spec fn transform_point_spec(m: Mat4d, p: Vec3d) -> Vec3d {
        Vec3d {
            x: affine_row_spec(lin(m, 0, 0), lin(m, 0, 1), lin(m, 0, 2), trs(m, 0), p) as i64,
            y: affine_row_spec(lin(m, 1, 0), lin(m, 1, 1), lin(m, 1, 2), trs(m, 1), p) as i64,
            z: affine_row_spec(lin(m, 2, 0), lin(m, 2, 1), lin(m, 2, 2), trs(m, 2), p) as i64,
        }
    }

    pub fn transform_point(&self, p: Vec3d) -> (r: Vec3d)
        requires
            mok(*self),
            vok(p),
        ensures
            r == Mat4d::transform_point_spec(*self, p),
            vok(r),
    {
        Vec3d {
            x: affine_row(self.data[0], self.data[4], self.data[8], self.data[12], p.x, p.y, p.z),
            y: affine_row(self.data[1], self.data[5], self.data[9], self.data[13], p.x, p.y, p.z),
            z: affine_row(self.data[2], self.data[6], self.data[10], self.data[14], p.x, p.y, p.z),
        }
    }

    /// The image of a direction (linear part only), each component rounded
    /// once and saturated.
    pub open spec fn transform_vector_spec(m: Mat4d, v: Vec3d) -> Vec3d {
        Vec3d {
            x: affine_row_spec(lin(m, 0, 0), lin(m, 0, 1), lin(m, 0, 2), 0, v) as i64,
            y: affine_row_spec(lin(m, 1, 0), lin(m, 1, 1), lin(m, 1, 2), 0, v) as i64,
            z: affine_row_spec(lin(m, 2, 0), lin(m, 2, 1), lin(m, 2, 2), 0, v) as i64,
        }
    }

    pub fn transform_vector(&self, v: Vec3d) -> (r: Vec3d)
        requires
            mok(*self),
            vok(v),
        ensures
            r == Mat4d::transform_vector_spec(*self, v),
            vok(r),
    {
        Vec3d {
            x: affine_row(self.data[0], self.data[4], self.data[8], 0, v.x, v.y, v.z),
            y: affine_row(self.data[1], self.data[5], self.data[9], 0, v.x, v.y, v.z),
            z: affine_row(self.data[2], self.data[6], self.data[10], 0, v.x, v.y, v.z),
        }
    }

    /// The image of a direction under the transpose of the linear part (used
    /// to carry normals through an inverse transform), each component rounded
    /// once and saturated.
    pub open spec fn transpose_transform_vector_spec(m: Mat4d, v: Vec3d) -> Vec3d {
        Vec3d {
            x: affine_row_spec(lin(m, 0, 0), lin(m, 1, 0), lin(m, 2, 0), 0, v) as i64,
            y: affine_row_spec(lin(m, 0, 1), lin(m, 1, 1), lin(m, 2, 1), 0, v) as i64,
            z: affine_row_spec(lin(m, 0, 2), lin(m, 1, 2), lin(m, 2, 2), 0, v) as i64,
        }
    }

    pub fn transpose_transform_vector(&self, v: Vec3d) -> (r: Vec3d)
        requires
            mok(*self),
            vok(v),
        ensures
            r == Mat4d::transpose_transform_vector_spec(*self, v),
            vok(r),
    {
        Vec3d {
            x: affine_row(self.data[0], self.data[1], self.data[2], 0, v.x, v.y, v.z),
            y: affine_row(self.data[4], self.data[5], self.data[6], 0, v.x, v.y, v.z),
            z: affine_row(self.data[8], self.data[9], self.data[10], 0, v.x, v.y, v.z),
        }
    }


    /// The rotation about the x axis by `angle` (fixed-point radians).
    pub fn from_rotation_x(angle: i64) -> (m: Mat4d)
        requires
            -0x8000_0000 <= angle <= 0x8000_0000,
        ensures
            affine(m),
            mok(m),
            lin(m, 0, 0) == FX_ONE as int,
            lin(m, 1, 1) == crate::trig::cos_spec(angle as int),
            lin(m, 2, 1) == crate::trig::sin_spec(angle as int),
            lin(m, 1, 2) == -crate::trig::sin_spec(angle as int),
            lin(m, 2, 2) == crate::trig::cos_spec(angle as int),
            trs(m, 0) == 0 && trs(m, 1) == 0 && trs(m, 2) == 0,
    {
        let s = crate::trig::sin(angle);
        let c = crate::trig::cos(angle);
        Mat4d { data: [FX_ONE, 0, 0, 0, 0, c, s, 0, 0, -s, c, 0, 0, 0, 0, FX_ONE] }
    }

    /// The rotation about the y axis by `angle` (fixed-point radians).
    pub fn from_rotation_y(angle: i64) -> (m: Mat4d)
        requires
            -0x8000_0000 <= angle <= 0x8000_0000,
        ensures
            affine(m),
            mok(m),
            lin(m, 0, 0) == crate::trig::cos_spec(angle as int),
            lin(m, 2, 0) == -crate::trig::sin_spec(angle as int),
            lin(m, 0, 2) == crate::trig::sin_spec(angle as int),
            lin(m, 2, 2) == crate::trig::cos_spec(angle as int),
            lin(m, 1, 1) == FX_ONE as int,
            trs(m, 0) == 0 && trs(m, 1) == 0 && trs(m, 2) == 0,
    {
        let s = crate::trig::sin(angle);
        let c = crate::trig::cos(angle);
        Mat4d { data: [c, 0, -s, 0, 0, FX_ONE, 0, 0, s, 0, c, 0, 0, 0, 0, FX_ONE] }
    }

    /// The rotation about the z axis by `angle` (fixed-point radians).
    pub fn from_rotation_z(angle: i64) -> (m: Mat4d)
        requires
            -0x8000_0000 <= angle <= 0x8000_0000,
        ensures
            affine(m),
            mok(m),
            lin(m, 0, 0) == crate::trig::cos_spec(angle as int),
            lin(m, 1, 0) == crate::trig::sin_spec(angle as int),
            lin(m, 0, 1) == -crate::trig::sin_spec(angle as int),
            lin(m, 1, 1) == crate::trig::cos_spec(angle as int),
            lin(m, 2, 2) == FX_ONE as int,
            trs(m, 0) == 0 && trs(m, 1) == 0 && trs(m, 2) == 0,
    {
        let s = crate::trig::sin(angle);
        let c = crate::trig::cos(angle);
        Mat4d { data: [c, s, 0, 0, -s, c, 0, 0, 0, 0, FX_ONE, 0, 0, 0, 0, FX_ONE] }
    }

    /// The rotation about an arbitrary axis by `angle` (fixed-point
    /// radians), by the standard axis-angle entries over the normalized
    /// axis.
    pub fn rotation_axis(axis: Vec3d, angle: i64) -> (m: Mat4d)
        requires
            vok(axis),
            -0x8000_0000 <= angle <= 0x8000_0000,
        ensures
            affine(m),
            mok(m),
            ({
                let v = Vec3d::normalize_spec(axis);
                let s = crate::trig::sin_spec(angle as int);
                let c = crate::trig::cos_spec(angle as int);
                let t = (FX_ONE as int) - c;
                &&& lin(m, 0, 0) == fmul(fmul(t, v.x as int), v.x as int) + c
                &&& lin(m, 1, 0) == fmul(fmul(t, v.x as int), v.y as int) + fmul(v.z as int, s)
                &&& lin(m, 2, 0) == fmul(fmul(t, v.x as int), v.z as int) - fmul(v.y as int, s)
                &&& lin(m, 0, 1) == fmul(fmul(t, v.x as int), v.y as int) - fmul(v.z as int, s)
                &&& lin(m, 1, 1) == fmul(fmul(t, v.y as int), v.y as int) + c
                &&& lin(m, 2, 1) == fmul(fmul(t, v.y as int), v.z as int) + fmul(v.x as int, s)
                &&& lin(m, 0, 2) == fmul(fmul(t, v.x as int), v.z as int) + fmul(v.y as int, s)
                &&& lin(m, 1, 2) == fmul(fmul(t, v.y as int), v.z as int) - fmul(v.x as int, s)
                &&& lin(m, 2, 2) == fmul(fmul(t, v.z as int), v.z as int) + c
            }),
            trs(m, 0) == 0 && trs(m, 1) == 0 && trs(m, 2) == 0,
    {
        let s = crate::trig::sin(angle);
        let c = crate::trig::cos(angle);
        let t = FX_ONE - c;
        let v = axis.normalize();
        proof {
            lemma_axis_entry_bounds(v, t, s);
        }
        let txx = crate::fixed::fx_mul(crate::fixed::fx_mul(t, v.x), v.x);
        let txy = crate::fixed::fx_mul(crate::fixed::fx_mul(t, v.x), v.y);
        let txz = crate::fixed::fx_mul(crate::fixed::fx_mul(t, v.x), v.z);
        let tyy = crate::fixed::fx_mul(crate::fixed::fx_mul(t, v.y), v.y);
        let tyz = crate::fixed::fx_mul(crate::fixed::fx_mul(t, v.y), v.z);
        let tzz = crate::fixed::fx_mul(crate::fixed::fx_mul(t, v.z), v.z);
        let sx = crate::fixed::fx_mul(v.x, s);
        let sy = crate::fixed::fx_mul(v.y, s);
        let sz = crate::fixed::fx_mul(v.z, s);
        Mat4d {
            data: [
                txx + c, txy + sz, txz - sy, 0,
                txy - sz, tyy + c, tyz + sx, 0,
                txz + sy, tyz - sx, tzz + c, 0,
                0, 0, 0, FX_ONE,
            ],
        }
    }

    /// The transpose; exact.
    pub fn transpose(&self) -> (m: Mat4d)
        ensures
            forall|r: int, c: int| 0 <= r < 4 && 0 <= c < 4 ==> #[trigger] m.data[c * 4 + r]
                == self.data[r * 4 + c],
    {
        let mut data: [i64; 16] = [0, 0, 0, 0, 0, 0, 0, 0, 0, 0, 0, 0, 0, 0, 0, 0];
        let mut idx: usize = 0;
        while idx < 16
            invariant
                0 <= idx <= 16,
                forall|j: int| 0 <= j < idx ==> #[trigger] data[j] == self.data[(j % 4) * 4 + j
                    / 4],
            decreases 16 - idx,
        {
            data[idx] = self.data[(idx % 4) * 4 + idx / 4];
            idx = idx + 1;
        }
        let m = Mat4d { data };
        proof {
            assert(forall|r: int, c: int| 0 <= r < 4 && 0 <= c < 4 ==> #[trigger] m.data[c * 4
                + r] == self.data[r * 4 + c]) by {
                assert(forall|j: int| 0 <= j < 16 ==> #[trigger] m.data[j] == self.data[(j % 4)
                    * 4 + j / 4]);
            }
        }
        m
    }

    /// The image of a point under the transpose (translation entries taken
    /// from the last row, which an affine matrix keeps at zero), each
    /// component rounded once and saturated.
    pub open spec fn transpose_transform_point_spec(m: Mat4d, p: Vec3d) -> Vec3d {
        Vec3d {
            x: affine_row_spec(lin(m, 0, 0), lin(m, 1, 0), lin(m, 2, 0), m.data[3] as int,
                p) as i64,
            y: affine_row_spec(lin(m, 0, 1), lin(m, 1, 1), lin(m, 2, 1), m.data[7] as int,
                p) as i64,
            z: affine_row_spec(lin(m, 0, 2), lin(m, 1, 2), lin(m, 2, 2), m.data[11] as int,
                p) as i64,
        }
    }

    pub fn transpose_transform_point(&self, p: Vec3d) -> (r: Vec3d)
        requires
            mok(*self),
            vok(p),
        ensures
            r == Mat4d::transpose_transform_point_spec(*self, p),
            vok(r),
    {
        Vec3d {
            x: affine_row(self.data[0], self.data[1], self.data[2], self.data[3], p.x, p.y, p.z),
            y: affine_row(self.data[4], self.data[5], self.data[6], self.data[7], p.x, p.y, p.z),
            z: affine_row(self.data[8], self.data[9], self.data[10], self.data[11], p.x, p.y,
                p.z),
        }
    }

    /// Entry (`r`, `c`) of the matrix product, rounded once and saturated.
    pub open spec fn mul_entry_spec(a: Mat4d, b: Mat4d, r: int, c: int) -> int {
        clamp_s(
            tdiv(
                (a.data[0 * 4 + r] as int) * (b.data[c * 4 + 0] as int) + (a.data[1 * 4 + r] as int)
                    * (b.data[c * 4 + 1] as int) + (a.data[2 * 4 + r] as int) * (b.data[c * 4
                    + 2] as int) + (a.data[3 * 4 + r] as int) * (b.data[c * 4 + 3] as int),
                FX_ONE as int,
            ),
        )
    }

    /// The matrix product, every entry saturated into the coordinate range.
    pub fn mul(&self, rhs: &Mat4d) -> (m: Mat4d)
        requires
            mok(*self),
            mok(*rhs),
        ensures
            forall|r: int, c: int| 0 <= r < 4 && 0 <= c < 4 ==> #[trigger] m.data[c * 4 + r]
                == Mat4d::mul_entry_spec(*self, *rhs, r, c),
            mok(m),
    {
        let mut data: [i64; 16] = [0, 0, 0, 0, 0, 0, 0, 0, 0, 0, 0, 0, 0, 0, 0, 0];
        let mut idx: usize = 0;
        while idx < 16
            invariant
                0 <= idx <= 16,
                mok(*self),
                mok(*rhs),
                forall|j: int| 0 <= j < idx ==> #[trigger] data[j] == Mat4d::mul_entry_spec(
                    *self,
                    *rhs,
                    j % 4,
                    j / 4,
                ),
                forall|j: int| 0 <= j < 16 ==> sok(#[trigger] data[j]),
            decreases 16 - idx,
        {
            let c = idx / 4;
            let r = idx % 4;
            proof {
                lemma_mul_entry_bound(*self, *rhs, r as int, c as int);
            }
            let s: i128 = (self.data[0 * 4 + r] as i128) * (rhs.data[c * 4 + 0] as i128)
                + (self.data[1 * 4 + r] as i128) * (rhs.data[c * 4 + 1] as i128) + (self.data[2 * 4
                + r] as i128) * (rhs.data[c * 4 + 2] as i128) + (self.data[3 * 4 + r] as i128)
                * (rhs.data[c * 4 + 3] as i128);
            let q: i128 = if s >= 0 {
                s / (FX_ONE as i128)
            } else {
                -((-s) / (FX_ONE as i128))
            };
            let e: i64 = if q < -(COORD_LIMIT as i128) {
                -COORD_LIMIT
            } else if q > COORD_LIMIT as i128 {
                COORD_LIMIT
            } else {
                q as i64
            };
            data[idx] = e;
            idx = idx + 1;
        }
        Mat4d { data }
    }

    /// The inverse of an affine transform, by the adjugate of the linear part
    /// over its determinant and the negated image of the translation. `None`
    /// exactly when the matrix is not affine or its determinant is zero.
    /// `lemma_adjugate_identity` proves the exact identity
    /// `A * adj(A) == det(A) * I` behind the published entries: each is that
    /// true inverse entry with one rounding and one saturation.
    pub fn inverse(&self) -> (r: Option<Mat4d>)
        requires
            mok(*self),
        ensures
            r is Some <==> affine(*self) && det3(*self) != 0,
            r is Some ==> ({
                let m = r->0;
                &&& affine(m)
                &&& mok(m)
                &&& forall|rr: int, cc: int| 0 <= rr < 3 && 0 <= cc < 3 ==> lin(m, rr, cc)
                    == inv_lin(*self, rr, cc)
                &&& trs(m, 0) == inv_trs(*self, 0)
                &&& trs(m, 1) == inv_trs(*self, 1)
                &&& trs(m, 2) == inv_trs(*self, 2)
            }),
    {
        if !(self.data[3] == 0 && self.data[7] == 0 && self.data[11] == 0 && self.data[15]
            == FX_ONE) {
            return None;
        }
        let det = self.det3_exec();
        if det == 0 {
            return None;
        }
        let i00 = self.inv_lin_exec(0, 0, det);
        let i01 = self.inv_lin_exec(0, 1, det);
        let i02 = self.inv_lin_exec(0, 2, det);
        let i10 = self.inv_lin_exec(1, 0, det);
        let i11 = self.inv_lin_exec(1, 1, det);
        let i12 = self.inv_lin_exec(1, 2, det);
        let i20 = self.inv_lin_exec(2, 0, det);
        let i21 = self.inv_lin_exec(2, 1, det);
        let i22 = self.inv_lin_exec(2, 2, det);
        let t0 = Self::inv_trs_exec(i00, i01, i02, self.data[12], self.data[13], self.data[14]);
        let t1 = Self::inv_trs_exec(i10, i11, i12, self.data[12], self.data[13], self.data[14]);
        let t2 = Self::inv_trs_exec(i20, i21, i22, self.data[12], self.data[13], self.data[14]);
        let m = Mat4d {
            data: [i00, i10, i20, 0, i01, i11, i21, 0, i02, i12, i22, 0, t0, t1, t2, FX_ONE],
        };
        proof {
            assert(forall|i: int| 0 <= i < 16 ==> sok(#[trigger] m.data[i])) by {
                assert(sok(m.data[0]) && sok(m.data[1]) && sok(m.data[2]) && sok(m.data[3])
                    && sok(m.data[4]) && sok(m.data[5]) && sok(m.data[6]) && sok(m.data[7]) && sok(
                    m.data[8],
                ) && sok(m.data[9]) && sok(m.data[10]) && sok(m.data[11]) && sok(m.data[12]) && sok(
                    m.data[13],
                ) && sok(m.data[14]) && sok(m.data[15]));
            }
            assert(forall|rr: int, cc: int| 0 <= rr < 3 && 0 <= cc < 3 ==> lin(m, rr, cc)
                == inv_lin(*self, rr, cc)) by {
                assert(lin(m, 0, 0) == inv_lin(*self, 0, 0) && lin(m, 0, 1) == inv_lin(*self, 0, 1)
                    && lin(m, 0, 2) == inv_lin(*self, 0, 2) && lin(m, 1, 0) == inv_lin(*self, 1, 0)
                    && lin(m, 1, 1) == inv_lin(*self, 1, 1) && lin(m, 1, 2) == inv_lin(*self, 1, 2)
                    && lin(m, 2, 0) == inv_lin(*self, 2, 0) && lin(m, 2, 1) == inv_lin(*self, 2, 1)
                    && lin(m, 2, 2) == inv_lin(*self, 2, 2));
            }
        }
        Some(m)
    }

    /// The raw determinant of the linear part.
    fn det3_exec(&self) -> (d: i128)
        requires
            mok(*self),
        ensures
            d == det3(*self),
            -0x8_0000_0000_0000_0000_0000_0000 <= d <= 0x8_0000_0000_0000_0000_0000_0000,
    {
        proof {
            lemma_cof3_bound(*self, 0, 0);
            lemma_cof3_bound(*self, 0, 1);
            lemma_cof3_bound(*self, 0, 2);
            crate::fixed::lemma_mul_bound(lin(*self, 0, 0), cof3(*self, 0, 0), COORD_LIMIT as int,
                0x2_0000_0000_0000_0000);
            crate::fixed::lemma_mul_bound(lin(*self, 0, 1), cof3(*self, 0, 1), COORD_LIMIT as int,
                0x2_0000_0000_0000_0000);
            crate::fixed::lemma_mul_bound(lin(*self, 0, 2), cof3(*self, 0, 2), COORD_LIMIT as int,
                0x2_0000_0000_0000_0000);
        }
        let c0 = self.cof3_exec(0, 0);
        let c1 = self.cof3_exec(0, 1);
        let c2 = self.cof3_exec(0, 2);
        (self.data[0] as i128) * c0 + (self.data[4] as i128) * c1 + (self.data[8] as i128) * c2
    }

    /// The raw cofactor of linear entry (`r`, `c`).
    fn cof3_exec(&self, r: usize, c: usize) -> (v: i128)
        requires
            mok(*self),
            r < 3,
            c < 3,
        ensures
            v == cof3(*self, r as int, c as int),
            -0x2_0000_0000_0000_0000 <= v <= 0x2_0000_0000_0000_0000,
    {
        proof {
            lemma_cof3_bound(*self, r as int, c as int);
        }
        let r0: usize = if r == 0 { 1 } else { 0 };
        let r1: usize = if r == 2 { 1 } else { 2 };
        let c0: usize = if c == 0 { 1 } else { 0 };
        let c1: usize = if c == 2 { 1 } else { 2 };
        proof {
            crate::fixed::lemma_mul_bound(self.data[c0 * 4 + r0] as int,
                self.data[c1 * 4 + r1] as int, COORD_LIMIT as int, COORD_LIMIT as int);
            crate::fixed::lemma_mul_bound(self.data[c1 * 4 + r0] as int,
                self.data[c0 * 4 + r1] as int, COORD_LIMIT as int, COORD_LIMIT as int);
        }
        let minor: i128 = (self.data[c0 * 4 + r0] as i128) * (self.data[c1 * 4 + r1] as i128) - (
        self.data[c1 * 4 + r0] as i128) * (self.data[c0 * 4 + r1] as i128);
        if (r + c) % 2 == 0 {
            minor
        } else {
            -minor
        }
    }

    /// One inverted linear entry: adjugate over determinant, saturated.
    fn inv_lin_exec(&self, r: usize, c: usize, det: i128) -> (v: i64)
        requires
            mok(*self),
            r < 3,
            c < 3,
            det == det3(*self),
            det != 0,
            -0x8_0000_0000_0000_0000_0000_0000 <= det <= 0x8_0000_0000_0000_0000_0000_0000,
        ensures
            v == inv_lin(*self, r as int, c as int),
            sok(v),
    {
        let adj = self.cof3_exec(c, r);
        let num: i128 = adj * (FX_ONE as i128) * (FX_ONE as i128);
        let q: i128 = if det >= 0 {
            if num >= 0 {
                num / det
            } else {
                -((-num) / det)
            }
        } else {
            if num >= 0 {
                -(num / (-det))
            } else {
                (-num) / (-det)
            }
        };
        if q < -(COORD_LIMIT as i128) {
            -COORD_LIMIT
        } else if q > COORD_LIMIT as i128 {
            COORD_LIMIT
        } else {
            q as i64
        }
    }

    /// One inverted translation component, saturated.
    fn inv_trs_exec(m0: i64, m1: i64, m2: i64, t0: i64, t1: i64, t2: i64) -> (v: i64)
        requires
            sok(m0),
            sok(m1),
            sok(m2),
            sok(t0),
            sok(t1),
            sok(t2),
        ensures
            v == clamp_s(
                -tdiv((m0 as int) * (t0 as int) + (m1 as int) * (t1 as int) + (m2 as int) * (
                t2 as int), FX_ONE as int),
            ),
            sok(v),
    {
        proof {
            crate::fixed::lemma_mul_bound(m0 as int, t0 as int, COORD_LIMIT as int,
                COORD_LIMIT as int);
            crate::fixed::lemma_mul_bound(m1 as int, t1 as int, COORD_LIMIT as int,
                COORD_LIMIT as int);
            crate::fixed::lemma_mul_bound(m2 as int, t2 as int, COORD_LIMIT as int,
                COORD_LIMIT as int);
        }
        let s: i128 = (m0 as i128) * (t0 as i128) + (m1 as i128) * (t1 as i128) + (m2 as i128) * (
        t2 as i128);
        let q: i128 = if s >= 0 {
            s / (FX_ONE as i128)
        } else {
            -((-s) / (FX_ONE as i128))
        };
        let v: i128 = -q;
        if v < -(COORD_LIMIT as i128) {
            -COORD_LIMIT
        } else if v > COORD_LIMIT as i128 {
            COORD_LIMIT
        } else {
            v as i64
        }
    }
}

/// Every axis-angle entry term stays small: the normalized axis, the sine
/// and the versine are all within a few scale units.
proof fn lemma_axis_entry_bounds(v: Vec3d, t: i64, s: i64)
    requires
        -crate::vec3::UNIT_LIMIT <= v.x <= crate::vec3::UNIT_LIMIT,
        -crate::vec3::UNIT_LIMIT <= v.y <= crate::vec3::UNIT_LIMIT,
        -crate::vec3::UNIT_LIMIT <= v.z <= crate::vec3::UNIT_LIMIT,
        0 <= t <= 2 * FX_ONE,
        -FX_ONE <= s <= FX_ONE,
    ensures
        -0x8_0000 <= fmul(t as int, v.x as int) <= 0x8_0000,
        -0x8_0000 <= fmul(t as int, v.y as int) <= 0x8_0000,
        -0x8_0000 <= fmul(t as int, v.z as int) <= 0x8_0000,
        -0x40_0000 <= fmul(fmul(t as int, v.x as int), v.x as int) <= 0x40_0000,
        -0x40_0000 <= fmul(fmul(t as int, v.x as int), v.y as int) <= 0x40_0000,
        -0x40_0000 <= fmul(fmul(t as int, v.x as int), v.z as int) <= 0x40_0000,
        -0x40_0000 <= fmul(fmul(t as int, v.y as int), v.y as int) <= 0x40_0000,
        -0x40_0000 <= fmul(fmul(t as int, v.y as int), v.z as int) <= 0x40_0000,
        -0x40_0000 <= fmul(fmul(t as int, v.z as int), v.z as int) <= 0x40_0000,
        -0x4_0000 <= fmul(v.x as int, s as int) <= 0x4_0000,
        -0x4_0000 <= fmul(v.y as int, s as int) <= 0x4_0000,
        -0x4_0000 <= fmul(v.z as int, s as int) <= 0x4_0000,
{
    let u = crate::vec3::UNIT_LIMIT as int;
    crate::fixed::lemma_fmul_bound(t as int, v.x as int, 2 * (FX_ONE as int), u);
    crate::fixed::lemma_fmul_bound(t as int, v.y as int, 2 * (FX_ONE as int), u);
    crate::fixed::lemma_fmul_bound(t as int, v.z as int, 2 * (FX_ONE as int), u);
    assert(tdiv(2 * (FX_ONE as int) * u, FX_ONE as int) == 2 * u);
    crate::fixed::lemma_fmul_bound(fmul(t as int, v.x as int), v.x as int, 2 * u, u);
    crate::fixed::lemma_fmul_bound(fmul(t as int, v.x as int), v.y as int, 2 * u, u);
    crate::fixed::lemma_fmul_bound(fmul(t as int, v.x as int), v.z as int, 2 * u, u);
    crate::fixed::lemma_fmul_bound(fmul(t as int, v.y as int), v.y as int, 2 * u, u);
    crate::fixed::lemma_fmul_bound(fmul(t as int, v.y as int), v.z as int, 2 * u, u);
    crate::fixed::lemma_fmul_bound(fmul(t as int, v.z as int), v.z as int, 2 * u, u);
    assert(tdiv(2 * u * u, FX_ONE as int) == 0x20_0000);
    crate::fixed::lemma_fmul_bound(v.x as int, s as int, u, FX_ONE as int);
    crate::fixed::lemma_fmul_bound(v.y as int, s as int, u, FX_ONE as int);
    crate::fixed::lemma_fmul_bound(v.z as int, s as int, u, FX_ONE as int);
    assert(tdiv(u * (FX_ONE as int), FX_ONE as int) == 0x4_0000);
}


/// The exact adjugate identity behind `inverse`: expanding any row of the
/// linear part against the cofactors of any row gives the determinant on the
/// diagonal and zero off it (`A * adj(A) == det(A) * I`). The entries that
/// `inverse` publishes are the adjugate over the determinant with one
/// rounding each, so they carry this identity up to that rounding.
pub proof fn lemma_adjugate_identity(m: Mat4d, r: int, c: int)
    requires
        0 <= r < 3,
        0 <= c < 3,
    ensures
        lin(m, r, 0) * cof3(m, c, 0) + lin(m, r, 1) * cof3(m, c, 1) + lin(m, r, 2) * cof3(m, c, 2)
            == if r == c { det3(m) } else { 0 },
{
    let a00 = lin(m, 0, 0);
    let a01 = lin(m, 0, 1);
    let a02 = lin(m, 0, 2);
    let a10 = lin(m, 1, 0);
    let a11 = lin(m, 1, 1);
    let a12 = lin(m, 1, 2);
    let a20 = lin(m, 2, 0);
    let a21 = lin(m, 2, 1);
    let a22 = lin(m, 2, 2);
        if r == 0 && c == 0 {
            assert(a00 * (a11 * a22 - a12 * a21) + a01 * (-(a10 * a22 - a12 * a20)) + a02 * (a10 * a21 - a11 * a20) == (a00 * (a11 * a22 - a12 * a21) + a01 * (-(a10 * a22 - a12 * a20)) + a02 * (a10 * a21 - a11 * a20))) by (nonlinear_arith);
        }
        if r == 0 && c == 1 {
            assert(a00 * (-(a01 * a22 - a02 * a21)) + a01 * (a00 * a22 - a02 * a20) + a02 * (-(a00 * a21 - a01 * a20)) == 0) by (nonlinear_arith);
        }
        if r == 0 && c == 2 {
            assert(a00 * (a01 * a12 - a02 * a11) + a01 * (-(a00 * a12 - a02 * a10)) + a02 * (a00 * a11 - a01 * a10) == 0) by (nonlinear_arith);
        }
        if r == 1 && c == 0 {
            assert(a10 * (a11 * a22 - a12 * a21) + a11 * (-(a10 * a22 - a12 * a20)) + a12 * (a10 * a21 - a11 * a20) == 0) by (nonlinear_arith);
        }
        if r == 1 && c == 1 {
            assert(a10 * (-(a01 * a22 - a02 * a21)) == -(a01 * (a10 * a22)) + a02 * (a10 * a21))
                by (nonlinear_arith);
            assert(a11 * (a00 * a22 - a02 * a20) == a00 * (a11 * a22) - a02 * (a11 * a20))
                by (nonlinear_arith);
            assert(a12 * (-(a00 * a21 - a01 * a20)) == -(a00 * (a12 * a21)) + a01 * (a12 * a20))
                by (nonlinear_arith);
            assert(a00 * (a11 * a22 - a12 * a21) == a00 * (a11 * a22) - a00 * (a12 * a21))
                by (nonlinear_arith);
            assert(a01 * (-(a10 * a22 - a12 * a20)) == -(a01 * (a10 * a22)) + a01 * (a12 * a20))
                by (nonlinear_arith);
            assert(a02 * (a10 * a21 - a11 * a20) == a02 * (a10 * a21) - a02 * (a11 * a20))
                by (nonlinear_arith);
        }
        if r == 1 && c == 2 {
            assert(a10 * (a01 * a12 - a02 * a11) + a11 * (-(a00 * a12 - a02 * a10)) + a12 * (a00 * a11 - a01 * a10) == 0) by (nonlinear_arith);
        }
        if r == 2 && c == 0 {
            assert(a20 * (a11 * a22 - a12 * a21) + a21 * (-(a10 * a22 - a12 * a20)) + a22 * (a10 * a21 - a11 * a20) == 0) by (nonlinear_arith);
        }
        if r == 2 && c == 1 {
            assert(a20 * (-(a01 * a22 - a02 * a21)) + a21 * (a00 * a22 - a02 * a20) + a22 * (-(a00 * a21 - a01 * a20)) == 0) by (nonlinear_arith);
        }
        if r == 2 && c == 2 {
            assert(a20 * (a01 * a12 - a02 * a11) == a01 * (a12 * a20) - a02 * (a11 * a20))
                by (nonlinear_arith);
            assert(a21 * (-(a00 * a12 - a02 * a10)) == -(a00 * (a12 * a21)) + a02 * (a10 * a21))
                by (nonlinear_arith);
            assert(a22 * (a00 * a11 - a01 * a10) == a00 * (a11 * a22) - a01 * (a10 * a22))
                by (nonlinear_arith);
            assert(a00 * (a11 * a22 - a12 * a21) == a00 * (a11 * a22) - a00 * (a12 * a21))
                by (nonlinear_arith);
            assert(a01 * (-(a10 * a22 - a12 * a20)) == -(a01 * (a10 * a22)) + a01 * (a12 * a20))
                by (nonlinear_arith);
            assert(a02 * (a10 * a21 - a11 * a20) == a02 * (a10 * a21) - a02 * (a11 * a20))
                by (nonlinear_arith);
        }
}

/// Cofactors of a coordinate-bounded matrix stay within two squared limits.
proof fn lemma_cof3_bound(m: Mat4d, r: int, c: int)
    requires
        mok(m),
        0 <= r < 3,
        0 <= c < 3,
    ensures
        -0x2_0000_0000_0000_0000 <= cof3(m, r, c) <= 0x2_0000_0000_0000_0000,
{
    let r0: int = if r == 0 { 1 } else { 0 };
    let r1: int = if r == 2 { 1 } else { 2 };
    let c0: int = if c == 0 { 1 } else { 0 };
    let c1: int = if c == 2 { 1 } else { 2 };
    crate::fixed::lemma_mul_bound(lin(m, r0, c0), lin(m, r1, c1), COORD_LIMIT as int,
        COORD_LIMIT as int);
    crate::fixed::lemma_mul_bound(lin(m, r0, c1), lin(m, r1, c0), COORD_LIMIT as int,
        COORD_LIMIT as int);
}

/// Each product entering a matrix-product entry is bounded.
proof fn lemma_mul_entry_bound(a: Mat4d, b: Mat4d, r: int, c: int)
    requires
        mok(a),
        mok(b),
        0 <= r < 4,
        0 <= c < 4,
    ensures
        -0x1_0000_0000_0000_0000 <= (a.data[0 * 4 + r] as int) * (b.data[c * 4 + 0] as int)
            <= 0x1_0000_0000_0000_0000,
        -0x1_0000_0000_0000_0000 <= (a.data[1 * 4 + r] as int) * (b.data[c * 4 + 1] as int)
            <= 0x1_0000_0000_0000_0000,
        -0x1_0000_0000_0000_0000 <= (a.data[2 * 4 + r] as int) * (b.data[c * 4 + 2] as int)
            <= 0x1_0000_0000_0000_0000,
        -0x1_0000_0000_0000_0000 <= (a.data[3 * 4 + r] as int) * (b.data[c * 4 + 3] as int)
            <= 0x1_0000_0000_0000_0000,
{
    crate::fixed::lemma_mul_bound(a.data[0 * 4 + r] as int, b.data[c * 4 + 0] as int,
        COORD_LIMIT as int, COORD_LIMIT as int);
    crate::fixed::lemma_mul_bound(a.data[1 * 4 + r] as int, b.data[c * 4 + 1] as int,
        COORD_LIMIT as int, COORD_LIMIT as int);
    crate::fixed::lemma_mul_bound(a.data[2 * 4 + r] as int, b.data[c * 4 + 2] as int,
        COORD_LIMIT as int, COORD_LIMIT as int);
    crate::fixed::lemma_mul_bound(a.data[3 * 4 + r] as int, b.data[c * 4 + 3] as int,
        COORD_LIMIT as int, COORD_LIMIT as int);
}

} // verus!
