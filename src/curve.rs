use crate::field::{base_order, le_nat, BaseElem, Scalar};
use ark_ec::{AffineRepr, CurveGroup};
use ark_ed_on_bls12_381::{EdwardsAffine as Affine, Fq, Fr};
use ark_ff::{BigInteger, PrimeField};
use vstd::prelude::*;

verus! {

/// The curve coefficient `d` of `a*x^2 + y^2 = 1 + d*x^2*y^2`, where `a = -1`.
pub open spec fn coeff_d() -> nat {
    56591348564220926357660396755753992148nat * 0x1_0000_0000_0000_0000_0000_0000_0000_0000nat
        + 54734585704832590048364989477056429745nat
}

/// Whether affine coordinates satisfy the twisted Edwards equation `-x^2 + y^2 = 1 + d*x^2*y^2`.
pub open spec fn on_curve(p: (nat, nat)) -> bool {
    let q = base_order() as int;
    let x = p.0 as int;
    let y = p.1 as int;
    (y * y - x * x) % q == (1 + (coeff_d() as int) * (x * x) * (y * y)) % q
}

/// `r = p - q` by the affine twisted Edwards formulas with `a = -1`, with the
/// divisions written as products: `x3 * (1 - t) == x1*y2 - y1*x2` and
/// `y3 * (1 + t) == y1*y2 - x1*x2`, where `t = d*x1*x2*y1*y2`, all modulo the base order.
pub open spec fn sub_formula(p: (nat, nat), q: (nat, nat), r: (nat, nat)) -> bool {
    let m = base_order() as int;
    let (x1, y1, x2, y2) = (p.0 as int, p.1 as int, q.0 as int, q.1 as int);
    let t = (coeff_d() as int) * x1 * x2 * y1 * y2;
    &&& ((r.0 as int) * (1 - t)) % m == (x1 * y2 - y1 * x2) % m
    &&& ((r.1 as int) * (1 + t)) % m == (y1 * y2 - x1 * x2) % m
}

/// `r = 2 * p` by the affine twisted Edwards doubling formulas with `a = -1`:
/// `x3 * (1 + t) == 2*x1*y1` and `y3 * (1 - t) == y1^2 + x1^2`, where `t = d*x1^2*y1^2`,
/// all modulo the base order.
pub open spec fn double_formula(p: (nat, nat), r: (nat, nat)) -> bool {
    let m = base_order() as int;
    let (x1, y1) = (p.0 as int, p.1 as int);
    let t = (coeff_d() as int) * x1 * x1 * y1 * y1;
    &&& ((r.0 as int) * (1 + t)) % m == (2 * x1 * y1) % m
    &&& ((r.1 as int) * (1 - t)) % m == (y1 * y1 + x1 * x1) % m
}

/// The identity point of the curve, `(0, 1)`.
pub open spec fn identity() -> (nat, nat) {
    (0nat, 1nat)
}

/// The affine point `k * G`, for the curve's fixed generator `G`.
pub uninterp spec fn generator_mul_of(k: nat) -> (nat, nat);

/// The affine point `k * p`.
pub uninterp spec fn point_mul_of(p: (nat, nat), k: nat) -> (nat, nat);

/// The affine point `p - q`.
pub uninterp spec fn point_sub_of(p: (nat, nat), q: (nat, nat)) -> (nat, nat);

/// The affine point `2 * p`.
pub uninterp spec fn point_double_of(p: (nat, nat)) -> (nat, nat);

/// An affine curve point, as its two coordinates.
#[derive(Clone, Copy, Debug, PartialEq, Eq, Hash)]
pub struct Point {
    pub x: BaseElem,
    pub y: BaseElem,
}

impl View for Point {
    type V = (nat, nat);

    open spec fn view(&self) -> (nat, nat) {
        (self.x.value(), self.y.value())
    }
}

impl Point {
    /// Both coordinates are canonical.
    pub open spec fn wf(&self) -> bool {
        self.x.wf() && self.y.wf()
    }
}

/// Relies on ark_ec's `AffineRepr::generator` and scalar multiplication
/// (`Mul<Fr>` for `EdwardsAffine`), with `into_affine`.
#[verifier::external_body]
pub fn generator_mul(k: &Scalar) -> (r: Point)
    requires
        k.wf(),
    ensures
        r.wf(),
        on_curve(r@),
        r@ == generator_mul_of(k.value()),
{
    let q = (Affine::generator() * Fr::from_le_bytes_mod_order(&k.bytes)).into_affine();
    Point {
        x: BaseElem { bytes: q.x.into_bigint().to_bytes_le().try_into().unwrap() },
        y: BaseElem { bytes: q.y.into_bigint().to_bytes_le().try_into().unwrap() },
    }
}

/// Relies on ark_ec's scalar multiplication of a twisted Edwards affine point
/// (`Mul<Fr>` for `EdwardsAffine`), with `into_affine`. The point must lie on the
/// curve: there the formulas are complete and `into_affine` never meets `Z == 0`.
#[verifier::external_body]
pub fn point_mul(p: &Point, k: &Scalar) -> (r: Point)
    requires
        p.wf(),
        on_curve(p@),
        k.wf(),
    ensures
        r.wf(),
        on_curve(r@),
        r@ == point_mul_of(p@, k.value()),
{
    let a = Affine::new_unchecked(Fq::from_le_bytes_mod_order(&p.x.bytes), Fq::from_le_bytes_mod_order(&p.y.bytes));
    let q = (a * Fr::from_le_bytes_mod_order(&k.bytes)).into_affine();
    Point {
        x: BaseElem { bytes: q.x.into_bigint().to_bytes_le().try_into().unwrap() },
        y: BaseElem { bytes: q.y.into_bigint().to_bytes_le().try_into().unwrap() },
    }
}

/// Relies on ark_ec's point subtraction (`Sub` for `EdwardsAffine`), with `into_affine`.
/// Both points must lie on the curve, where the addition formulas are complete.
#[verifier::external_body]
pub fn point_sub(p: &Point, q: &Point) -> (r: Point)
    requires
        p.wf(),
        q.wf(),
        on_curve(p@),
        on_curve(q@),
    ensures
        r.wf(),
        on_curve(r@),
        r@ == point_sub_of(p@, q@),
        sub_formula(p@, q@, r@),
{
    let a = Affine::new_unchecked(Fq::from_le_bytes_mod_order(&p.x.bytes), Fq::from_le_bytes_mod_order(&p.y.bytes));
    let b = Affine::new_unchecked(Fq::from_le_bytes_mod_order(&q.x.bytes), Fq::from_le_bytes_mod_order(&q.y.bytes));
    let d = (a - b).into_affine();
    Point {
        x: BaseElem { bytes: d.x.into_bigint().to_bytes_le().try_into().unwrap() },
        y: BaseElem { bytes: d.y.into_bigint().to_bytes_le().try_into().unwrap() },
    }
}

/// Relies on ark_ec's `AdditiveGroup::double_in_place` on a projective point,
/// with `into_affine`. The point must lie on the curve, where doubling is complete.
#[verifier::external_body]
pub fn point_double(p: &Point) -> (r: Point)
    requires
        p.wf(),
        on_curve(p@),
    ensures
        r.wf(),
        on_curve(r@),
        r@ == point_double_of(p@),
        double_formula(p@, r@),
{
    let a = Affine::new_unchecked(Fq::from_le_bytes_mod_order(&p.x.bytes), Fq::from_le_bytes_mod_order(&p.y.bytes));
    let mut g = a.into_group();
    ark_ff::AdditiveGroup::double_in_place(&mut g);
    let d = g.into_affine();
    Point {
        x: BaseElem { bytes: d.x.into_bigint().to_bytes_le().try_into().unwrap() },
        y: BaseElem { bytes: d.y.into_bigint().to_bytes_le().try_into().unwrap() },
    }
}

/// Relies on ark_ec's `Affine::is_on_curve`, which checks `y^2 + a*x^2 == 1 + d*x^2*y^2`.
#[verifier::external_body]
pub fn is_on_curve(p: &Point) -> (r: bool)
    requires
        p.wf(),
    ensures
        r == on_curve(p@),
{
    Affine::new_unchecked(Fq::from_le_bytes_mod_order(&p.x.bytes), Fq::from_le_bytes_mod_order(&p.y.bytes)).is_on_curve()
}

/// Relies on ark_ec's `Affine::is_zero`, which holds exactly when `x == 0` and `y == 1`.
#[verifier::external_body]
pub fn is_identity(p: &Point) -> (r: bool)
    requires
        p.wf(),
    ensures
        r == (p@ == identity()),
{
    Affine::new_unchecked(Fq::from_le_bytes_mod_order(&p.x.bytes), Fq::from_le_bytes_mod_order(&p.y.bytes)).is_zero()
}

} // verus!
