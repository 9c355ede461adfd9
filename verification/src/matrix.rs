use vstd::prelude::*;
use crate::fixed::{div_q, FX_ONE};

verus! {

/// Largest entry magnitude the matrix kernels accept; wide enough for any
/// viewport scale or translation this pipeline builds.
pub const MAT_LIMIT: i64 = 0x100_0000_0000;

/// A 4 by 4 fixed-point matrix, row major: `mRC` is row `R`, column `C`.
#[derive(Clone, Copy, PartialEq, Eq, Structural, Debug)]
pub struct Mat4 {
    pub m00: i64,
    pub m01: i64,
    pub m02: i64,
    pub m03: i64,
    pub m10: i64,
    pub m11: i64,
    pub m12: i64,
    pub m13: i64,
    pub m20: i64,
    pub m21: i64,
    pub m22: i64,
    pub m23: i64,
    pub m30: i64,
    pub m31: i64,
    pub m32: i64,
    pub m33: i64,
}

/// A homogeneous fixed-point 4-vector.
#[derive(Clone, Copy, PartialEq, Eq, Structural, Debug)]
pub struct Vec4 {
    pub x: i64,
    pub y: i64,
    pub z: i64,
    pub w: i64,
}

/// Whether a value lies in the fixed-point scalar's range.
pub open spec fn fits_i64(v: int) -> bool {
    i64::MIN <= v <= i64::MAX
}

impl Mat4 {
    /// Whether every entry lies within the matrix kernels' range.
    pub open spec fn wf(self) -> bool {
        &&& -MAT_LIMIT <= self.m00 <= MAT_LIMIT
        &&& -MAT_LIMIT <= self.m01 <= MAT_LIMIT
        &&& -MAT_LIMIT <= self.m02 <= MAT_LIMIT
        &&& -MAT_LIMIT <= self.m03 <= MAT_LIMIT
        &&& -MAT_LIMIT <= self.m10 <= MAT_LIMIT
        &&& -MAT_LIMIT <= self.m11 <= MAT_LIMIT
        &&& -MAT_LIMIT <= self.m12 <= MAT_LIMIT
        &&& -MAT_LIMIT <= self.m13 <= MAT_LIMIT
        &&& -MAT_LIMIT <= self.m20 <= MAT_LIMIT
        &&& -MAT_LIMIT <= self.m21 <= MAT_LIMIT
        &&& -MAT_LIMIT <= self.m22 <= MAT_LIMIT
        &&& -MAT_LIMIT <= self.m23 <= MAT_LIMIT
        &&& -MAT_LIMIT <= self.m30 <= MAT_LIMIT
        &&& -MAT_LIMIT <= self.m31 <= MAT_LIMIT
        &&& -MAT_LIMIT <= self.m32 <= MAT_LIMIT
        &&& -MAT_LIMIT <= self.m33 <= MAT_LIMIT
    }

    /// The identity: ones down the diagonal, in fixed-point units.
    pub open spec fn identity_spec() -> Mat4 {
        Mat4 {
            m00: FX_ONE,
            m01: 0,
            m02: 0,
            m03: 0,
            m10: 0,
            m11: FX_ONE,
            m12: 0,
            m13: 0,
            m20: 0,
            m21: 0,
            m22: FX_ONE,
            m23: 0,
            m30: 0,
            m31: 0,
            m32: 0,
            m33: FX_ONE,
        }
    }

    pub fn identity() -> (m: Mat4)
        ensures
            m == Mat4::identity_spec(),
            m.wf(),
    {
        Mat4 {
            m00: FX_ONE,
            m01: 0,
            m02: 0,
            m03: 0,
            m10: 0,
            m11: FX_ONE,
            m12: 0,
            m13: 0,
            m20: 0,
            m21: 0,
            m22: FX_ONE,
            m23: 0,
            m30: 0,
            m31: 0,
            m32: 0,
            m33: FX_ONE,
        }
    }
}

/// One row of a matrix-vector product: the fixed-point dot of a matrix
/// row with a homogeneous vector.
pub open spec fn row_apply_spec(
    a: int,
    b: int,
    c: int,
    d: int,
    x: int,
    y: int,
    z: int,
    w: int,
) -> int {
    div_q(a * x + b * y + c * z + d * w, FX_ONE as int)
}

/// The four rows of `m` applied to `(x, y, z, w)`, exact in the integers.
pub open spec fn mat_apply_spec(m: Mat4, v: Vec4) -> (int, int, int, int) {
    (
        row_apply_spec(
            m.m00 as int,
            m.m01 as int,
            m.m02 as int,
            m.m03 as int,
            v.x as int,
            v.y as int,
            v.z as int,
            v.w as int,
        ),
        row_apply_spec(
            m.m10 as int,
            m.m11 as int,
            m.m12 as int,
            m.m13 as int,
            v.x as int,
            v.y as int,
            v.z as int,
            v.w as int,
        ),
        row_apply_spec(
            m.m20 as int,
            m.m21 as int,
            m.m22 as int,
            m.m23 as int,
            v.x as int,
            v.y as int,
            v.z as int,
            v.w as int,
        ),
        row_apply_spec(
            m.m30 as int,
            m.m31 as int,
            m.m32 as int,
            m.m33 as int,
            v.x as int,
            v.y as int,
            v.z as int,
            v.w as int,
        ),
    )
}

/// Whether all four components of the exact product fit the scalar range.
pub open spec fn mat_apply_fits(m: Mat4, v: Vec4) -> bool {
    let (x, y, z, w) = mat_apply_spec(m, v);
    fits_i64(x) && fits_i64(y) && fits_i64(z) && fits_i64(w)
}

fn row_apply(a: i64, b: i64, c: i64, d: i64, v: &Vec4) -> (r: Option<i64>)
    requires
        -MAT_LIMIT <= a <= MAT_LIMIT,
        -MAT_LIMIT <= b <= MAT_LIMIT,
        -MAT_LIMIT <= c <= MAT_LIMIT,
        -MAT_LIMIT <= d <= MAT_LIMIT,
    ensures
        ({
            let exact = row_apply_spec(
                a as int,
                b as int,
                c as int,
                d as int,
                v.x as int,
                v.y as int,
                v.z as int,
                v.w as int,
            );
            match r {
                Some(q) => q == exact && fits_i64(exact),
                None => !fits_i64(exact),
            }
        }),
{
    proof {
        lemma_entry_prod_bound(a as int, v.x as int);
        lemma_entry_prod_bound(b as int, v.y as int);
        lemma_entry_prod_bound(c as int, v.z as int);
        lemma_entry_prod_bound(d as int, v.w as int);
    }
    let s: i128 = (a as i128) * (v.x as i128) + (b as i128) * (v.y as i128) + (c as i128) * (
    v.z as i128) + (d as i128) * (v.w as i128);
    let q = crate::fixed::div_wide(s, FX_ONE as i128);
    if q >= i64::MIN as i128 && q <= i64::MAX as i128 {
        Some(q as i64)
    } else {
        None
    }
}

/// A product of a bounded matrix entry with any scalar stays well inside
/// the wide intermediate range.
proof fn lemma_entry_prod_bound(a: int, x: int)
    requires
        -MAT_LIMIT <= a <= MAT_LIMIT,
        i64::MIN <= x <= i64::MAX,
    ensures
        -0x1000_0000_0000_0000_0000_0000_0000 <= a * x <= 0x1000_0000_0000_0000_0000_0000_0000,
{
    assert(-0x1000_0000_0000_0000_0000_0000_0000 <= a * x <= 0x1000_0000_0000_0000_0000_0000_0000)
        by (nonlinear_arith)
        requires
            -MAT_LIMIT <= a <= MAT_LIMIT,
            -0x8000_0000_0000_0000 <= x <= 0x8000_0000_0000_0000,
    ;
}

/// Apply a well-formed matrix to a homogeneous vector; `None` when a
/// component of the exact result exceeds the scalar range.
pub fn mat_apply(m: &Mat4, v: &Vec4) -> (r: Option<Vec4>)
    requires
        m.wf(),
    ensures
        match r {
            Some(u) => {
                let (x, y, z, w) = mat_apply_spec(*m, *v);
                mat_apply_fits(*m, *v) && u.x == x && u.y == y && u.z == z && u.w == w
            },
            None => !mat_apply_fits(*m, *v),
        },
{
    let rx = row_apply(m.m00, m.m01, m.m02, m.m03, v);
    let ry = row_apply(m.m10, m.m11, m.m12, m.m13, v);
    let rz = row_apply(m.m20, m.m21, m.m22, m.m23, v);
    let rw = row_apply(m.m30, m.m31, m.m32, m.m33, v);
    match (rx, ry, rz, rw) {
        (Some(x), Some(y), Some(z), Some(w)) => Some(Vec4 { x, y, z, w }),
        _ => None,
    }
}


/// The nine signed cofactors of the upper-left 3 by 3 block of a matrix,
/// and its determinant, exact in the integers. Entry values carry one
/// fixed-point unit each, so a cofactor carries two and the determinant
/// three.
pub open spec fn cof_spec(m: Mat4, i: int, j: int) -> int {
    if i == 0 && j == 0 {
        m.m11 * m.m22 - m.m12 * m.m21
    } else if i == 0 && j == 1 {
        m.m12 * m.m20 - m.m10 * m.m22
    } else if i == 0 && j == 2 {
        m.m10 * m.m21 - m.m11 * m.m20
    } else if i == 1 && j == 0 {
        m.m02 * m.m21 - m.m01 * m.m22
    } else if i == 1 && j == 1 {
        m.m00 * m.m22 - m.m02 * m.m20
    } else if i == 1 && j == 2 {
        m.m01 * m.m20 - m.m00 * m.m21
    } else if i == 2 && j == 0 {
        m.m01 * m.m12 - m.m02 * m.m11
    } else if i == 2 && j == 1 {
        m.m02 * m.m10 - m.m00 * m.m12
    } else {
        m.m00 * m.m11 - m.m01 * m.m10
    }
}

/// The determinant of the upper-left 3 by 3 block, expanded down the
/// first column against the cofactors.
pub open spec fn det3_spec(m: Mat4) -> int {
    m.m00 * cof_spec(m, 0, 0) + m.m10 * cof_spec(m, 1, 0) + m.m20 * cof_spec(m, 2, 0)
}

/// One entry of the normal matrix: the cofactor rescaled to fixed-point
/// units over the determinant. The cofactor matrix itself (not its
/// transpose) is the inverse-transpose up to the determinant factor.
pub open spec fn nm_entry_spec(m: Mat4, i: int, j: int) -> int {
    div_q(cof_spec(m, i, j) * FX_ONE * FX_ONE, det3_spec(m))
}

/// Whether all nine normal-matrix entries fit the fixed-point scalar.
pub open spec fn nm_fits(m: Mat4) -> bool {
    forall|i: int, j: int| 0 <= i < 3 && 0 <= j < 3 ==> fits_i64(#[trigger] nm_entry_spec(m, i, j))
}

/// The matrix the pipeline transforms normals by: the inverse-transpose
/// of the model matrix's upper 3 by 3 block, or the identity when that
/// block is singular or out of the representable range.
pub open spec fn normal_matrix_spec(m: Mat4) -> Mat4 {
    if det3_spec(m) == 0 || !nm_fits(m) {
        Mat4::identity_spec()
    } else {
        Mat4 {
            m00: nm_entry_spec(m, 0, 0) as i64,
            m01: nm_entry_spec(m, 0, 1) as i64,
            m02: nm_entry_spec(m, 0, 2) as i64,
            m03: 0,
            m10: nm_entry_spec(m, 1, 0) as i64,
            m11: nm_entry_spec(m, 1, 1) as i64,
            m12: nm_entry_spec(m, 1, 2) as i64,
            m13: 0,
            m20: nm_entry_spec(m, 2, 0) as i64,
            m21: nm_entry_spec(m, 2, 1) as i64,
            m22: nm_entry_spec(m, 2, 2) as i64,
            m23: 0,
            m30: 0,
            m31: 0,
            m32: 0,
            m33: FX_ONE,
        }
    }
}

fn cof(m: &Mat4, a: i64, b: i64, c: i64, d: i64) -> (r: i128)
    requires
        m.wf(),
        -MAT_LIMIT <= a <= MAT_LIMIT,
        -MAT_LIMIT <= b <= MAT_LIMIT,
        -MAT_LIMIT <= c <= MAT_LIMIT,
        -MAT_LIMIT <= d <= MAT_LIMIT,
    ensures
        r == a * b - c * d,
        -0x2_0000_0000_0000_0000_0000 <= r <= 0x2_0000_0000_0000_0000_0000,
{
    proof {
        assert(-0x1_0000_0000_0000_0000_0000 <= a * b <= 0x1_0000_0000_0000_0000_0000)
            by (nonlinear_arith)
            requires
                -MAT_LIMIT <= a <= MAT_LIMIT,
                -MAT_LIMIT <= b <= MAT_LIMIT,
        ;
        assert(-0x1_0000_0000_0000_0000_0000 <= c * d <= 0x1_0000_0000_0000_0000_0000)
            by (nonlinear_arith)
            requires
                -MAT_LIMIT <= c <= MAT_LIMIT,
                -MAT_LIMIT <= d <= MAT_LIMIT,
        ;
    }
    (a as i128) * (b as i128) - (c as i128) * (d as i128)
}

/// Build the matrix normals are transformed by: the inverse-transpose of
/// the upper 3 by 3 block of `m`, falling back to the identity when the
/// block is singular or an entry leaves the representable range.
pub fn normal_matrix(m: &Mat4) -> (n: Mat4)
    requires
        m.wf(),
    ensures
        n == normal_matrix_spec(*m),
{
    let c00 = cof(m, m.m11, m.m22, m.m12, m.m21);
    let c01 = cof(m, m.m12, m.m20, m.m10, m.m22);
    let c02 = cof(m, m.m10, m.m21, m.m11, m.m20);
    let c10 = cof(m, m.m02, m.m21, m.m01, m.m22);
    let c11 = cof(m, m.m00, m.m22, m.m02, m.m20);
    let c12 = cof(m, m.m01, m.m20, m.m00, m.m21);
    let c20 = cof(m, m.m01, m.m12, m.m02, m.m11);
    let c21 = cof(m, m.m02, m.m10, m.m00, m.m12);
    let c22 = cof(m, m.m00, m.m11, m.m01, m.m10);
    proof {
        lemma_det_term_bound(m.m00 as int, c00 as int);
        lemma_det_term_bound(m.m10 as int, c10 as int);
        lemma_det_term_bound(m.m20 as int, c20 as int);
    }
    let det: i128 = (m.m00 as i128) * c00 + (m.m10 as i128) * c10 + (m.m20 as i128) * c20;
    proof {
        assert(c00 == cof_spec(*m, 0, 0));
        assert(c01 == cof_spec(*m, 0, 1));
        assert(c02 == cof_spec(*m, 0, 2));
        assert(c10 == cof_spec(*m, 1, 0));
        assert(c11 == cof_spec(*m, 1, 1));
        assert(c12 == cof_spec(*m, 1, 2));
        assert(c20 == cof_spec(*m, 2, 0));
        assert(c21 == cof_spec(*m, 2, 1));
        assert(c22 == cof_spec(*m, 2, 2));
        assert(det as int == det3_spec(*m));
    }
    if det == 0 {
        return Mat4::identity();
    }
    let e00 = nm_entry(c00, det);
    let e01 = nm_entry(c01, det);
    let e02 = nm_entry(c02, det);
    let e10 = nm_entry(c10, det);
    let e11 = nm_entry(c11, det);
    let e12 = nm_entry(c12, det);
    let e20 = nm_entry(c20, det);
    let e21 = nm_entry(c21, det);
    let e22 = nm_entry(c22, det);
    match (e00, e01, e02, e10, e11, e12, e20, e21, e22) {
        (
            Some(n00),
            Some(n01),
            Some(n02),
            Some(n10),
            Some(n11),
            Some(n12),
            Some(n20),
            Some(n21),
            Some(n22),
        ) => {
            proof {
                assert(nm_fits(*m)) by {
                    assert forall|i: int, j: int| 0 <= i < 3 && 0 <= j < 3 implies fits_i64(
                        #[trigger] nm_entry_spec(*m, i, j),
                    ) by {
                        if i == 0 && j == 0 {
                        } else if i == 0 && j == 1 {
                        } else if i == 0 && j == 2 {
                        } else if i == 1 && j == 0 {
                        } else if i == 1 && j == 1 {
                        } else if i == 1 && j == 2 {
                        } else if i == 2 && j == 0 {
                        } else if i == 2 && j == 1 {
                        } else {
                        }
                    }
                }
            }
            Mat4 {
                m00: n00,
                m01: n01,
                m02: n02,
                m03: 0,
                m10: n10,
                m11: n11,
                m12: n12,
                m13: 0,
                m20: n20,
                m21: n21,
                m22: n22,
                m23: 0,
                m30: 0,
                m31: 0,
                m32: 0,
                m33: FX_ONE,
            }
        },
        _ => {
            proof {
                assert(nm_entry_spec(*m, 0, 0) == div_q(
                    cof_spec(*m, 0, 0) * FX_ONE * FX_ONE,
                    det3_spec(*m),
                ));
                assert(nm_entry_spec(*m, 0, 1) == div_q(
                    cof_spec(*m, 0, 1) * FX_ONE * FX_ONE,
                    det3_spec(*m),
                ));
                assert(nm_entry_spec(*m, 0, 2) == div_q(
                    cof_spec(*m, 0, 2) * FX_ONE * FX_ONE,
                    det3_spec(*m),
                ));
                assert(nm_entry_spec(*m, 1, 0) == div_q(
                    cof_spec(*m, 1, 0) * FX_ONE * FX_ONE,
                    det3_spec(*m),
                ));
                assert(nm_entry_spec(*m, 1, 1) == div_q(
                    cof_spec(*m, 1, 1) * FX_ONE * FX_ONE,
                    det3_spec(*m),
                ));
                assert(nm_entry_spec(*m, 1, 2) == div_q(
                    cof_spec(*m, 1, 2) * FX_ONE * FX_ONE,
                    det3_spec(*m),
                ));
                assert(nm_entry_spec(*m, 2, 0) == div_q(
                    cof_spec(*m, 2, 0) * FX_ONE * FX_ONE,
                    det3_spec(*m),
                ));
                assert(nm_entry_spec(*m, 2, 1) == div_q(
                    cof_spec(*m, 2, 1) * FX_ONE * FX_ONE,
                    det3_spec(*m),
                ));
                assert(nm_entry_spec(*m, 2, 2) == div_q(
                    cof_spec(*m, 2, 2) * FX_ONE * FX_ONE,
                    det3_spec(*m),
                ));
                assert(!nm_fits(*m));
            }
            Mat4::identity()
        },
    }
}

/// One determinant term stays well inside the wide intermediate range.
proof fn lemma_det_term_bound(e: int, c: int)
    requires
        -MAT_LIMIT <= e <= MAT_LIMIT,
        -0x2_0000_0000_0000_0000_0000 <= c <= 0x2_0000_0000_0000_0000_0000,
    ensures
        -0x200_0000_0000_0000_0000_0000_0000_0000 <= e * c <= 0x200_0000_0000_0000_0000_0000_0000_0000,
{
    assert(-0x200_0000_0000_0000_0000_0000_0000_0000 <= e * c
        <= 0x200_0000_0000_0000_0000_0000_0000_0000) by (nonlinear_arith)
        requires
            -MAT_LIMIT <= e <= MAT_LIMIT,
            -0x2_0000_0000_0000_0000_0000 <= c <= 0x2_0000_0000_0000_0000_0000,
    ;
}

/// One normal-matrix entry: the cofactor rescaled over the determinant,
/// or `None` when the exact value leaves the scalar range.
fn nm_entry(c: i128, det: i128) -> (r: Option<i64>)
    requires
        det != 0,
        det > i128::MIN,
        -0x2_0000_0000_0000_0000_0000 <= c <= 0x2_0000_0000_0000_0000_0000,
    ensures
        ({
            let exact = div_q(c * FX_ONE * FX_ONE, det as int);
            match r {
                Some(q) => q == exact && fits_i64(exact),
                None => !fits_i64(exact),
            }
        }),
{
    proof {
        assert(c * FX_ONE * FX_ONE == c * 0x1_0000_0000) by (nonlinear_arith);
        assert(-0x2_0000_0000_0000_0000_0000_0000_0000 * 0x10000 <= c * 0x1_0000_0000 && c
            * 0x1_0000_0000 <= 0x2_0000_0000_0000_0000_0000_0000_0000 * 0x10000)
            by (nonlinear_arith)
            requires
                -0x2_0000_0000_0000_0000_0000 <= c <= 0x2_0000_0000_0000_0000_0000,
        ;
    }
    let num: i128 = c * 0x1_0000_0000;
    let q = crate::fixed::div_wide(num, det);
    if q >= i64::MIN as i128 && q <= i64::MAX as i128 {
        Some(q as i64)
    } else {
        None
    }
}

/// Transform a direction by the upper 3 by 3 block of `m` (no
/// translation); the value the exact arithmetic would produce, or the
/// original direction when that value leaves the geometric range.
pub open spec fn transform_dir_spec(m: Mat4, v: crate::geometry::Vec3) -> crate::geometry::Vec3 {
    let tx = div_q(m.m00 * v.x + m.m01 * v.y + m.m02 * v.z, FX_ONE as int);
    let ty = div_q(m.m10 * v.x + m.m11 * v.y + m.m12 * v.z, FX_ONE as int);
    let tz = div_q(m.m20 * v.x + m.m21 * v.y + m.m22 * v.z, FX_ONE as int);
    if -0x4000_0000 <= tx <= 0x4000_0000 && -0x4000_0000 <= ty <= 0x4000_0000 && -0x4000_0000 <= tz
        <= 0x4000_0000 {
        crate::geometry::Vec3 { x: tx as i64, y: ty as i64, z: tz as i64 }
    } else {
        v
    }
}

/// Transform a direction by the upper 3 by 3 block of `m`, keeping the
/// original direction when the exact result leaves the geometric range.
pub fn transform_dir(m: &Mat4, v: &crate::geometry::Vec3) -> (t: crate::geometry::Vec3)
    requires
        v.bounded(0x4000_0000),
    ensures
        t == transform_dir_spec(*m, *v),
        t.bounded(0x4000_0000),
{
    proof {
        lemma_dir_prod_bound(m.m00 as int, v.x as int);
        lemma_dir_prod_bound(m.m01 as int, v.y as int);
        lemma_dir_prod_bound(m.m02 as int, v.z as int);
        lemma_dir_prod_bound(m.m10 as int, v.x as int);
        lemma_dir_prod_bound(m.m11 as int, v.y as int);
        lemma_dir_prod_bound(m.m12 as int, v.z as int);
        lemma_dir_prod_bound(m.m20 as int, v.x as int);
        lemma_dir_prod_bound(m.m21 as int, v.y as int);
        lemma_dir_prod_bound(m.m22 as int, v.z as int);
    }
    let nx: i128 = (m.m00 as i128) * (v.x as i128) + (m.m01 as i128) * (v.y as i128) + (
    m.m02 as i128) * (v.z as i128);
    let ny: i128 = (m.m10 as i128) * (v.x as i128) + (m.m11 as i128) * (v.y as i128) + (
    m.m12 as i128) * (v.z as i128);
    let nz: i128 = (m.m20 as i128) * (v.x as i128) + (m.m21 as i128) * (v.y as i128) + (
    m.m22 as i128) * (v.z as i128);
    let tx = crate::fixed::div_wide(nx, FX_ONE as i128);
    let ty = crate::fixed::div_wide(ny, FX_ONE as i128);
    let tz = crate::fixed::div_wide(nz, FX_ONE as i128);
    if tx >= -0x4000_0000 && tx <= 0x4000_0000 && ty >= -0x4000_0000 && ty <= 0x4000_0000 && tz
        >= -0x4000_0000 && tz <= 0x4000_0000 {
        crate::geometry::Vec3 { x: tx as i64, y: ty as i64, z: tz as i64 }
    } else {
        *v
    }
}

/// A product of a scalar with a bounded direction component stays well
/// inside the wide intermediate range.
proof fn lemma_dir_prod_bound(a: int, x: int)
    requires
        i64::MIN <= a <= i64::MAX,
        -0x4000_0000 <= x <= 0x4000_0000,
    ensures
        -0x2000_0000_0000_0000_0000_0000 <= a * x <= 0x2000_0000_0000_0000_0000_0000,
{
    assert(-0x2000_0000_0000_0000_0000_0000 <= a * x <= 0x2000_0000_0000_0000_0000_0000)
        by (nonlinear_arith)
        requires
            -0x8000_0000_0000_0000 <= a <= 0x8000_0000_0000_0000,
            -0x4000_0000 <= x <= 0x4000_0000,
    ;
}

} // verus!
