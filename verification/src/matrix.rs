//! Square fixed-point matrices. The 4x4 kind carries every transform in
//! the kernel; the 3x3 and 2x2 kinds exist for the cofactor expansion
//! that computes determinants and inverses.
//!
//! A matrix is a row-major vector of entries; the spec view [`m4v`]
//! exposes it as a sequence of entry views, and every operation's
//! contract pins each result entry as a fixed-point formula over that
//! view. Inverting requires a non-zero determinant: a degenerate
//! transform is a scene-construction error, never silently absorbed.

use vstd::prelude::*;

verus! {

use crate::fx::{fx_add, fx_div, fx_mul, fx_near, fx_neg, fx_sub, Scalar, SCALE};
use crate::point::{pv, Point, V4};

#[derive(Clone, Debug)]
pub struct Matrix4 {
    pub m: Vec<Scalar>,
}

#[derive(Clone, Debug)]
pub struct Matrix3 {
    pub m: Vec<Scalar>,
}

#[derive(Clone, Debug)]
pub struct Matrix2 {
    pub m: Vec<Scalar>,
}

/// View of a 4x4 matrix: its sixteen entries, row-major, in millionths.
pub open spec fn m4v(m: Matrix4) -> Seq<int> {
    Seq::new(16, |i: int| m.m@[i]@)
}

/// View of a 3x3 matrix.
pub open spec fn m3v(m: Matrix3) -> Seq<int> {
    Seq::new(9, |i: int| m.m@[i]@)
}

/// View of a 2x2 matrix.
pub open spec fn m2v(m: Matrix2) -> Seq<int> {
    Seq::new(4, |i: int| m.m@[i]@)
}

/// Entry of a row-major 4x4 sequence.
pub open spec fn e4(s: Seq<int>, r: int, c: int) -> int {
    s[4 * r + c]
}

/// Entry of a row-major 3x3 sequence.
pub open spec fn e3(s: Seq<int>, r: int, c: int) -> int {
    s[3 * r + c]
}

/// Index `i` after removing index `skip` from a range.
pub open spec fn skip_idx(skip: int, i: int) -> int {
    if i < skip {
        i
    } else {
        i + 1
    }
}

/// The 3x3 sequence left when row `sr` and column `sc` are removed.
pub open spec fn sub4(s: Seq<int>, sr: int, sc: int) -> Seq<int> {
    Seq::new(9, |i: int| e4(s, skip_idx(sr, i / 3), skip_idx(sc, i % 3)))
}

/// The 2x2 sequence left when row `sr` and column `sc` are removed.
pub open spec fn sub3(s: Seq<int>, sr: int, sc: int) -> Seq<int> {
    Seq::new(4, |i: int| e3(s, skip_idx(sr, i / 2), skip_idx(sc, i % 2)))
}

/// Determinant of a 2x2 sequence.
pub open spec fn det2(s: Seq<int>) -> int {
    fx_sub(fx_mul(s[0], s[3]), fx_mul(s[2], s[1]))
}

/// Minor of a 3x3 sequence at `(r, c)`.
pub open spec fn minor3(s: Seq<int>, r: int, c: int) -> int {
    det2(sub3(s, r, c))
}

/// Cofactor of a 3x3 sequence: the minor, negated on odd `r + c`.
pub open spec fn cof3(s: Seq<int>, r: int, c: int) -> int {
    if (r + c) % 2 == 0 {
        minor3(s, r, c)
    } else {
        fx_neg(minor3(s, r, c))
    }
}

/// Determinant of a 3x3 sequence by cofactor expansion along row 0.
#[verifier::opaque]
pub open spec fn det3(s: Seq<int>) -> int {
    fx_add(
        fx_add(fx_mul(e3(s, 0, 0), cof3(s, 0, 0)), fx_mul(e3(s, 0, 1), cof3(s, 0, 1))),
        fx_mul(e3(s, 0, 2), cof3(s, 0, 2)),
    )
}

/// Minor of a 4x4 sequence at `(r, c)`.
pub open spec fn minor4(s: Seq<int>, r: int, c: int) -> int {
    det3(sub4(s, r, c))
}

/// Cofactor of a 4x4 sequence.
pub open spec fn cof4(s: Seq<int>, r: int, c: int) -> int {
    if (r + c) % 2 == 0 {
        minor4(s, r, c)
    } else {
        fx_neg(minor4(s, r, c))
    }
}

/// Determinant of a 4x4 sequence by cofactor expansion along row 0.
#[verifier::opaque]
pub open spec fn det4(s: Seq<int>) -> int {
    fx_add(
        fx_add(
            fx_add(fx_mul(e4(s, 0, 0), cof4(s, 0, 0)), fx_mul(e4(s, 0, 1), cof4(s, 0, 1))),
            fx_mul(e4(s, 0, 2), cof4(s, 0, 2)),
        ),
        fx_mul(e4(s, 0, 3), cof4(s, 0, 3)),
    )
}

/// Entry `(r, c)` of the inverse: the transposed cofactor over the
/// determinant.
pub open spec fn inv_e(s: Seq<int>, r: int, c: int) -> int {
    fx_div(cof4(s, c, r), det4(s))
}

/// One entry of a matrix product: the row of `a` against the column of `b`.
pub open spec fn mul_e(a: Seq<int>, b: Seq<int>, r: int, c: int) -> int {
    fx_add(
        fx_add(
            fx_add(fx_mul(e4(a, r, 0), e4(b, 0, c)), fx_mul(e4(a, r, 1), e4(b, 1, c))),
            fx_mul(e4(a, r, 2), e4(b, 2, c)),
        ),
        fx_mul(e4(a, r, 3), e4(b, 3, c)),
    )
}

/// Row `r` of the matrix applied to the tuple `v`.
pub open spec fn row_dot(s: Seq<int>, r: int, v: V4) -> int {
    fx_add(
        fx_add(
            fx_add(fx_mul(e4(s, r, 0), v.x), fx_mul(e4(s, r, 1), v.y)),
            fx_mul(e4(s, r, 2), v.z),
        ),
        fx_mul(e4(s, r, 3), v.w),
    )
}

/// The matrix applied to a tuple.
pub open spec fn mp_v(s: Seq<int>, v: V4) -> V4 {
    V4 { x: row_dot(s, 0, v), y: row_dot(s, 1, v), z: row_dot(s, 2, v), w: row_dot(s, 3, v) }
}

/// All sixteen entries of a matrix product.
pub open spec fn mul4(a: Seq<int>, b: Seq<int>) -> Seq<int> {
    Seq::new(16, |i: int| mul_e(a, b, i / 4, i % 4))
}

/// All sixteen entries of the inverse.
pub open spec fn inv4(s: Seq<int>) -> Seq<int> {
    Seq::new(16, |i: int| inv_e(s, i / 4, i % 4))
}

/// All sixteen entries of the transpose.
pub open spec fn transpose4(s: Seq<int>) -> Seq<int> {
    Seq::new(16, |i: int| e4(s, i % 4, i / 4))
}

/// The identity transform's entries.
pub open spec fn identity_v() -> Seq<int> {
    seq![
        SCALE as int, 0, 0, 0,
        0, SCALE as int, 0, 0,
        0, 0, SCALE as int, 0,
        0, 0, 0, SCALE as int,
    ]
}

/// The identity transform's determinant is one unit, so it can always
/// be inverted.
pub proof fn lemma_identity_invertible()
    ensures
        det4(identity_v()) == SCALE as int,
{
    let s = identity_v();
    let one = SCALE as int;
    let d3 = seq![one, 0, 0, 0, one, 0, 0, 0, one];
    assert(sub4(s, 0, 0) =~= d3);
    assert(sub3(d3, 0, 0) =~= seq![one, 0, 0, one]);
    crate::fx::lemma_fx_mul_one(one);
    crate::fx::lemma_fx_mul_zero(one);
    crate::fx::lemma_fx_mul_zero(0);
    assert(det2(seq![one, 0, 0, one]) == one);
    crate::fx::lemma_fx_mul_zero(cof3(d3, 0, 1));
    crate::fx::lemma_fx_mul_zero(cof3(d3, 0, 2));
    assert(det3(d3) == one) by {
        reveal(det3);
    }
    crate::fx::lemma_fx_mul_zero(cof4(s, 0, 1));
    crate::fx::lemma_fx_mul_zero(cof4(s, 0, 2));
    crate::fx::lemma_fx_mul_zero(cof4(s, 0, 3));
    assert(det4(s) == one) by {
        reveal(det4);
    }
}

impl Matrix4 {
    pub open spec fn wf(&self) -> bool {
        self.m@.len() == 16
    }

    /// Entry `(r, c)` as seen by contracts.
    pub open spec fn entry(&self, r: int, c: int) -> int {
        e4(m4v(*self), r, c)
    }

    pub fn new(m: Vec<Scalar>) -> (r: Matrix4)
        requires
            m@.len() == 16,
        ensures
            r.wf(),
            r.m@ == m@,
    {
        Matrix4 { m }
    }

    pub fn empty() -> (r: Matrix4)
        ensures
            r.wf(),
            forall|i: int| 0 <= i < 16 ==> m4v(r)[i] == 0,
    {
        let z = Scalar { v: 0 };
        let m = vec![z, z, z, z, z, z, z, z, z, z, z, z, z, z, z, z];
        Matrix4 { m }
    }

    pub fn identity() -> (r: Matrix4)
        ensures
            r.wf(),
            m4v(r) =~= identity_v(),
    {
        let z = Scalar { v: 0 };
        let o = Scalar { v: SCALE };
        let m = vec![o, z, z, z, z, o, z, z, z, z, o, z, z, z, z, o];
        Matrix4 { m }
    }

    pub fn at(&self, r: usize, c: usize) -> (out: Scalar)
        requires
            self.wf(),
            r < 4,
            c < 4,
        ensures
            out@ == self.entry(r as int, c as int),
    {
        self.m[4 * r + c]
    }

    /// Entrywise equality within the geometric tolerance.
    pub fn equal(&self, other: &Matrix4) -> (r: bool)
        requires
            self.wf(),
            other.wf(),
        ensures
            r == forall|i: int| 0 <= i < 16 ==> fx_near(m4v(*self)[i], m4v(*other)[i]),
    {
        let mut k: usize = 0;
        while k < 16
            invariant
                self.wf(),
                other.wf(),
                k <= 16,
                forall|i: int| 0 <= i < k ==> fx_near(m4v(*self)[i], m4v(*other)[i]),
            decreases 16 - k,
        {
            if !self.m[k].near(other.m[k]) {
                proof {
                    assert(!fx_near(m4v(*self)[k as int], m4v(*other)[k as int]));
                }
                return false;
            }
            k = k + 1;
        }
        true
    }

    fn mul_entry(&self, other: &Matrix4, r: usize, c: usize) -> (out: Scalar)
        requires
            self.wf(),
            other.wf(),
            r < 4,
            c < 4,
        ensures
            out@ == mul_e(m4v(*self), m4v(*other), r as int, c as int),
    {
        self.at(r, 0).mul(other.at(0, c)).add(self.at(r, 1).mul(other.at(1, c))).add(
            self.at(r, 2).mul(other.at(2, c)),
        ).add(self.at(r, 3).mul(other.at(3, c)))
    }

    pub fn multiply(&self, other: &Matrix4) -> (out: Matrix4)
        requires
            self.wf(),
            other.wf(),
        ensures
            out.wf(),
            m4v(out) =~= mul4(m4v(*self), m4v(*other)),
    {
        let mut m: Vec<Scalar> = Vec::new();
        let mut r: usize = 0;
        while r < 4
            invariant
                self.wf(),
                other.wf(),
                r <= 4,
                m@.len() == 4 * r,
                forall|i: int| 0 <= i < 4 * r ==> m@[i]@ == mul_e(
                    m4v(*self),
                    m4v(*other),
                    i / 4,
                    i % 4,
                ),
            decreases 4 - r,
        {
            let mut c: usize = 0;
            while c < 4
                invariant
                    self.wf(),
                    other.wf(),
                    r < 4,
                    c <= 4,
                    m@.len() == 4 * r + c,
                    forall|i: int| 0 <= i < 4 * r + c ==> m@[i]@ == mul_e(
                        m4v(*self),
                        m4v(*other),
                        i / 4,
                        i % 4,
                    ),
                decreases 4 - c,
            {
                m.push(self.mul_entry(other, r, c));
                c = c + 1;
            }
            r = r + 1;
        }
        Matrix4 { m }
    }

    pub fn multiply_point(&self, p: &Point) -> (out: Point)
        requires
            self.wf(),
        ensures
            pv(out) == mp_v(m4v(*self), pv(*p)),
    {
        let x = self.at(0, 0).mul(p.x).add(self.at(0, 1).mul(p.y)).add(self.at(0, 2).mul(p.z)).add(
            self.at(0, 3).mul(p.w),
        );
        let y = self.at(1, 0).mul(p.x).add(self.at(1, 1).mul(p.y)).add(self.at(1, 2).mul(p.z)).add(
            self.at(1, 3).mul(p.w),
        );
        let z = self.at(2, 0).mul(p.x).add(self.at(2, 1).mul(p.y)).add(self.at(2, 2).mul(p.z)).add(
            self.at(2, 3).mul(p.w),
        );
        let w = self.at(3, 0).mul(p.x).add(self.at(3, 1).mul(p.y)).add(self.at(3, 2).mul(p.z)).add(
            self.at(3, 3).mul(p.w),
        );
        Point { x, y, z, w }
    }

    pub fn transpose(&self) -> (out: Matrix4)
        requires
            self.wf(),
        ensures
            out.wf(),
            m4v(out) =~= transpose4(m4v(*self)),
    {
        let mut m: Vec<Scalar> = Vec::new();
        let mut r: usize = 0;
        while r < 4
            invariant
                self.wf(),
                r <= 4,
                m@.len() == 4 * r,
                forall|i: int| 0 <= i < 4 * r ==> m@[i]@ == self.entry(i % 4, i / 4),
            decreases 4 - r,
        {
            let mut c: usize = 0;
            while c < 4
                invariant
                    self.wf(),
                    r < 4,
                    c <= 4,
                    m@.len() == 4 * r + c,
                    forall|i: int| 0 <= i < 4 * r + c ==> m@[i]@ == self.entry(i % 4, i / 4),
                decreases 4 - c,
            {
                m.push(self.at(c, r));
                c = c + 1;
            }
            r = r + 1;
        }
        Matrix4 { m }
    }

    fn skipped(skip: usize, i: usize) -> (r: usize)
        requires
            i < 3,
        ensures
            r as int == skip_idx(skip as int, i as int),
            skip < 4 ==> r < 4,
    {
        if i < skip {
            i
        } else {
            i + 1
        }
    }

    /// The 3x3 matrix left when row `sr` and column `sc` are removed.
    pub fn submatrix(&self, sr: usize, sc: usize) -> (out: Matrix3)
        requires
            self.wf(),
            sr < 4,
            sc < 4,
        ensures
            out.wf(),
            m3v(out) =~= sub4(m4v(*self), sr as int, sc as int),
    {
        let mut m: Vec<Scalar> = Vec::new();
        let mut r: usize = 0;
        while r < 3
            invariant
                self.wf(),
                sr < 4,
                sc < 4,
                r <= 3,
                m@.len() == 3 * r,
                forall|i: int| 0 <= i < 3 * r ==> m@[i]@ == sub4(m4v(*self), sr as int, sc as int)[i],
            decreases 3 - r,
        {
            let mut c: usize = 0;
            while c < 3
                invariant
                    self.wf(),
                    sr < 4,
                    sc < 4,
                    r < 3,
                    c <= 3,
                    m@.len() == 3 * r + c,
                    forall|i: int|
                        0 <= i < 3 * r + c ==> m@[i]@ == sub4(m4v(*self), sr as int, sc as int)[i],
                decreases 3 - c,
            {
                m.push(self.at(Matrix4::skipped(sr, r), Matrix4::skipped(sc, c)));
                c = c + 1;
            }
            r = r + 1;
        }
        Matrix3 { m }
    }

    /// Determinant of the submatrix at `(r, c)`.
    pub fn minor(&self, r: usize, c: usize) -> (out: Scalar)
        requires
            self.wf(),
            r < 4,
            c < 4,
        ensures
            out@ == minor4(m4v(*self), r as int, c as int),
    {
        self.submatrix(r, c).determinant()
    }

    /// The minor, negated when `r + c` is odd.
    pub fn cofactor(&self, r: usize, c: usize) -> (out: Scalar)
        requires
            self.wf(),
            r < 4,
            c < 4,
        ensures
            out@ == cof4(m4v(*self), r as int, c as int),
    {
        let minor = self.minor(r, c);
        if (r + c) % 2 == 0 {
            minor
        } else {
            minor.neg()
        }
    }

    /// Determinant by cofactor expansion along row 0.
    pub fn determinant(&self) -> (out: Scalar)
        requires
            self.wf(),
        ensures
            out@ == det4(m4v(*self)),
    {
        proof {
            reveal(det4);
        }
        self.at(0, 0).mul(self.cofactor(0, 0)).add(self.at(0, 1).mul(self.cofactor(0, 1))).add(
            self.at(0, 2).mul(self.cofactor(0, 2)),
        ).add(self.at(0, 3).mul(self.cofactor(0, 3)))
    }

    pub fn invertible(&self) -> (r: bool)
        requires
            self.wf(),
        ensures
            r == (det4(m4v(*self)) != 0),
    {
        !self.determinant().is_zero()
    }

    /// The inverse: transposed cofactors over the determinant. Callers
    /// must rule out a degenerate (zero-determinant) transform first.
    #[verifier::rlimit(100)]
    pub fn inverse(&self) -> (out: Matrix4)
        requires
            self.wf(),
            det4(m4v(*self)) != 0,
        ensures
            out.wf(),
            m4v(out) =~= inv4(m4v(*self)),
    {
        let determinant = self.determinant();
        let mut m: Vec<Scalar> = Vec::new();
        let mut r: usize = 0;
        while r < 4
            invariant
                self.wf(),
                determinant@ == det4(m4v(*self)),
                r <= 4,
                m@.len() == 4 * r,
                forall|i: int| 0 <= i < 4 * r ==> m@[i]@ == inv_e(m4v(*self), i / 4, i % 4),
            decreases 4 - r,
        {
            let mut c: usize = 0;
            while c < 4
                invariant
                    self.wf(),
                    determinant@ == det4(m4v(*self)),
                    r < 4,
                    c <= 4,
                    m@.len() == 4 * r + c,
                    forall|i: int| 0 <= i < 4 * r + c ==> m@[i]@ == inv_e(m4v(*self), i / 4, i % 4),
                decreases 4 - c,
            {
                m.push(self.cofactor(c, r).div(determinant));
                c = c + 1;
            }
            r = r + 1;
        }
        Matrix4 { m }
    }

    /// The transform moving points by `(x, y, z)`.
    pub fn translation(x: Scalar, y: Scalar, z: Scalar) -> (out: Matrix4)
        ensures
            out.wf(),
            m4v(out) =~= seq![
                SCALE as int, 0, 0, x@,
                0, SCALE as int, 0, y@,
                0, 0, SCALE as int, z@,
                0, 0, 0, SCALE as int,
            ],
    {
        let zero = Scalar { v: 0 };
        let o = Scalar { v: SCALE };
        let m = vec![o, zero, zero, x, zero, o, zero, y, zero, zero, o, z, zero, zero, zero, o];
        Matrix4 { m }
    }

    /// The transform scaling each axis by the given factor.
    pub fn scaling(x: Scalar, y: Scalar, z: Scalar) -> (out: Matrix4)
        ensures
            out.wf(),
            m4v(out) =~= seq![
                x@, 0, 0, 0,
                0, y@, 0, 0,
                0, 0, z@, 0,
                0, 0, 0, SCALE as int,
            ],
    {
        let zero = Scalar { v: 0 };
        let o = Scalar { v: SCALE };
        let m = vec![x, zero, zero, zero, zero, y, zero, zero, zero, zero, z, zero, zero, zero, zero, o];
        Matrix4 { m }
    }

    /// Rotation about the x axis, built from the angle's cosine and sine.
    pub fn rotation_x(cos: Scalar, sin: Scalar) -> (out: Matrix4)
        ensures
            out.wf(),
            m4v(out) =~= seq![
                SCALE as int, 0, 0, 0,
                0, cos@, fx_neg(sin@), 0,
                0, sin@, cos@, 0,
                0, 0, 0, SCALE as int,
            ],
    {
        let zero = Scalar { v: 0 };
        let o = Scalar { v: SCALE };
        let m = vec![
            o, zero, zero, zero,
            zero, cos, sin.neg(), zero,
            zero, sin, cos, zero,
            zero, zero, zero, o,
        ];
        Matrix4 { m }
    }

    /// Rotation about the y axis, built from the angle's cosine and sine.
    pub fn rotation_y(cos: Scalar, sin: Scalar) -> (out: Matrix4)
        ensures
            out.wf(),
            m4v(out) =~= seq![
                cos@, 0, sin@, 0,
                0, SCALE as int, 0, 0,
                fx_neg(sin@), 0, cos@, 0,
                0, 0, 0, SCALE as int,
            ],
    {
        let zero = Scalar { v: 0 };
        let o = Scalar { v: SCALE };
        let m = vec![
            cos, zero, sin, zero,
            zero, o, zero, zero,
            sin.neg(), zero, cos, zero,
            zero, zero, zero, o,
        ];
        Matrix4 { m }
    }

    /// Rotation about the z axis, built from the angle's cosine and sine.
    pub fn rotation_z(cos: Scalar, sin: Scalar) -> (out: Matrix4)
        ensures
            out.wf(),
            m4v(out) =~= seq![
                cos@, fx_neg(sin@), 0, 0,
                sin@, cos@, 0, 0,
                0, 0, SCALE as int, 0,
                0, 0, 0, SCALE as int,
            ],
    {
        let zero = Scalar { v: 0 };
        let o = Scalar { v: SCALE };
        let m = vec![
            cos, sin.neg(), zero, zero,
            sin, cos, zero, zero,
            zero, zero, o, zero,
            zero, zero, zero, o,
        ];
        Matrix4 { m }
    }

    /// The shear transform: each coordinate moves in proportion to the
    /// other two.
    pub fn shearing(xy: Scalar, xz: Scalar, yx: Scalar, yz: Scalar, zx: Scalar, zy: Scalar) -> (out:
        Matrix4)
        ensures
            out.wf(),
            m4v(out) =~= seq![
                SCALE as int, xy@, xz@, 0,
                yx@, SCALE as int, yz@, 0,
                zx@, zy@, SCALE as int, 0,
                0, 0, 0, SCALE as int,
            ],
    {
        let zero = Scalar { v: 0 };
        let o = Scalar { v: SCALE };
        let m = vec![
            o, xy, xz, zero,
            yx, o, yz, zero,
            zx, zy, o, zero,
            zero, zero, zero, o,
        ];
        Matrix4 { m }
    }
}

impl Matrix3 {
    pub open spec fn wf(&self) -> bool {
        self.m@.len() == 9
    }

    pub open spec fn entry(&self, r: int, c: int) -> int {
        e3(m3v(*self), r, c)
    }

    pub fn new(m: Vec<Scalar>) -> (r: Matrix3)
        requires
            m@.len() == 9,
        ensures
            r.wf(),
            r.m@ == m@,
    {
        Matrix3 { m }
    }

    pub fn at(&self, r: usize, c: usize) -> (out: Scalar)
        requires
            self.wf(),
            r < 3,
            c < 3,
        ensures
            out@ == self.entry(r as int, c as int),
    {
        self.m[3 * r + c]
    }

    /// Entrywise equality within the geometric tolerance.
    pub fn equal(&self, other: &Matrix3) -> (r: bool)
        requires
            self.wf(),
            other.wf(),
        ensures
            r == forall|i: int| 0 <= i < 9 ==> fx_near(m3v(*self)[i], m3v(*other)[i]),
    {
        let mut k: usize = 0;
        while k < 9
            invariant
                self.wf(),
                other.wf(),
                k <= 9,
                forall|i: int| 0 <= i < k ==> fx_near(m3v(*self)[i], m3v(*other)[i]),
            decreases 9 - k,
        {
            if !self.m[k].near(other.m[k]) {
                proof {
                    assert(!fx_near(m3v(*self)[k as int], m3v(*other)[k as int]));
                }
                return false;
            }
            k = k + 1;
        }
        true
    }

    fn skipped(skip: usize, i: usize) -> (r: usize)
        requires
            i < 2,
        ensures
            r as int == skip_idx(skip as int, i as int),
    {
        if i < skip {
            i
        } else {
            i + 1
        }
    }

    /// The 2x2 matrix left when row `sr` and column `sc` are removed.
    pub fn submatrix(&self, sr: usize, sc: usize) -> (out: Matrix2)
        requires
            self.wf(),
            sr < 3,
            sc < 3,
        ensures
            out.wf(),
            m2v(out) =~= sub3(m3v(*self), sr as int, sc as int),
    {
        let mut m: Vec<Scalar> = Vec::new();
        m.push(self.at(Matrix3::skipped(sr, 0), Matrix3::skipped(sc, 0)));
        m.push(self.at(Matrix3::skipped(sr, 0), Matrix3::skipped(sc, 1)));
        m.push(self.at(Matrix3::skipped(sr, 1), Matrix3::skipped(sc, 0)));
        m.push(self.at(Matrix3::skipped(sr, 1), Matrix3::skipped(sc, 1)));
        Matrix2 { m }
    }

    /// Determinant of the submatrix at `(r, c)`.
    pub fn minor(&self, r: usize, c: usize) -> (out: Scalar)
        requires
            self.wf(),
            r < 3,
            c < 3,
        ensures
            out@ == minor3(m3v(*self), r as int, c as int),
    {
        self.submatrix(r, c).determinant()
    }

    /// The minor, negated when `r + c` is odd.
    pub fn cofactor(&self, r: usize, c: usize) -> (out: Scalar)
        requires
            self.wf(),
            r < 3,
            c < 3,
        ensures
            out@ == cof3(m3v(*self), r as int, c as int),
    {
        let minor = self.minor(r, c);
        if (r + c) % 2 == 0 {
            minor
        } else {
            minor.neg()
        }
    }

    /// Determinant by cofactor expansion along row 0.
    pub fn determinant(&self) -> (out: Scalar)
        requires
            self.wf(),
        ensures
            out@ == det3(m3v(*self)),
    {
        proof {
            reveal(det3);
        }
        self.at(0, 0).mul(self.cofactor(0, 0)).add(self.at(0, 1).mul(self.cofactor(0, 1))).add(
            self.at(0, 2).mul(self.cofactor(0, 2)),
        )
    }
}

impl Matrix2 {
    pub open spec fn wf(&self) -> bool {
        self.m@.len() == 4
    }

    pub fn new(m: Vec<Scalar>) -> (r: Matrix2)
        requires
            m@.len() == 4,
        ensures
            r.wf(),
            r.m@ == m@,
    {
        Matrix2 { m }
    }

    /// Entrywise equality within the geometric tolerance.
    pub fn equal(&self, other: &Matrix2) -> (r: bool)
        requires
            self.wf(),
            other.wf(),
        ensures
            r == forall|i: int| 0 <= i < 4 ==> fx_near(m2v(*self)[i], m2v(*other)[i]),
    {
        let mut k: usize = 0;
        while k < 4
            invariant
                self.wf(),
                other.wf(),
                k <= 4,
                forall|i: int| 0 <= i < k ==> fx_near(m2v(*self)[i], m2v(*other)[i]),
            decreases 4 - k,
        {
            if !self.m[k].near(other.m[k]) {
                proof {
                    assert(!fx_near(m2v(*self)[k as int], m2v(*other)[k as int]));
                }
                return false;
            }
            k = k + 1;
        }
        true
    }

    pub fn determinant(&self) -> (out: Scalar)
        requires
            self.wf(),
        ensures
            out@ == det2(m2v(*self)),
    {
        self.m[0].mul(self.m[3]).sub(self.m[2].mul(self.m[1]))
    }
}

} // verus!
