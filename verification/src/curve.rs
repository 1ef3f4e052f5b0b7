//! The pairing-friendly curves and what the arithmetic library computes on
//! their points: the affine form of a Jacobian triple, the curve equation and
//! the subgroup test.

use crate::field::{is_residue_text, Field, FieldElement};
use crate::text::text_value;
use ark_ec::AffineRepr;
use ark_ec::CurveGroup;
use std::str::FromStr;
use vstd::prelude::*;

verus! {

/// A pairing-friendly curve family with its groups G1, over the base field,
/// and G2, over the quadratic extension of the base field.
#[derive(Clone, Copy, Debug, PartialEq, Eq, Structural)]
pub enum Curve {
    Bn254,
    Bls12381,
}

impl Curve {
    /// The field of the coordinates of G1.
    pub open spec fn base(self) -> Field {
        match self {
            Curve::Bn254 => Field::Bn254Fq,
            Curve::Bls12381 => Field::Bls12381Fq,
        }
    }

    /// The constant `b` of the equation `y^2 = x^3 + b` of G1.
    pub open spec fn coeff_b(self) -> nat {
        match self {
            Curve::Bn254 => 3,
            Curve::Bls12381 => 4,
        }
    }

    /// The field of the coordinates of G1.
    pub fn base_field(self) -> (r: Field)
        ensures
            r == self.base(),
    {
        match self {
            Curve::Bn254 => Field::Bn254Fq,
            Curve::Bls12381 => Field::Bls12381Fq,
        }
    }
}

/// An element `c0 + c1 * u` of the quadratic extension of a base field.
#[derive(Debug, PartialEq, Eq)]
pub struct Fq2 {
    pub c0: FieldElement,
    pub c1: FieldElement,
}

impl View for Fq2 {
    type V = (nat, nat);

    open spec fn view(&self) -> (nat, nat) {
        (self.c0@, self.c1@)
    }
}

impl Clone for Fq2 {
    fn clone(&self) -> (r: Self)
        ensures
            r == *self,
    {
        Fq2 { c0: self.c0.clone(), c1: self.c1.clone() }
    }
}

impl Fq2 {
    /// Both parts are well-formed elements of `field`.
    pub open spec fn wf_in(&self, field: Field) -> bool {
        &&& self.c0.wf()
        &&& self.c1.wf()
        &&& self.c0.in_field() == field
        &&& self.c1.in_field() == field
    }
}

/// The affine coordinates of the G1 point with Jacobian coordinates
/// `(x, y, z)` where `z` is neither 0 nor 1: `x / z^2` and `y / z^3` in the
/// base field, as `ark_ec::CurveGroup::into_affine` computes them.
pub uninterp spec fn g1_scaled(curve: Curve, x: nat, y: nat, z: nat) -> (nat, nat);

/// The affine coordinates of the G2 point with Jacobian coordinates
/// `(x, y, z)` in the quadratic extension, where `z` is neither 0 nor 1, as
/// `ark_ec::CurveGroup::into_affine` computes them.
pub uninterp spec fn g2_scaled(curve: Curve, x: (nat, nat), y: (nat, nat), z: (nat, nat)) -> (
    (nat, nat),
    (nat, nat),
);

/// Whether the BLS12-381 G1 point `(x, y)` passes the subgroup test of
/// `is_in_correct_subgroup_assuming_on_curve`.
pub uninterp spec fn bls12_381_g1_in_subgroup(x: nat, y: nat) -> bool;

/// Whether the G2 point `(x, y)` passes
/// `is_in_correct_subgroup_assuming_on_curve`.
pub uninterp spec fn g2_in_subgroup(curve: Curve, x: (nat, nat), y: (nat, nat)) -> bool;

/// `a` holds `x / z^2` and `y / z^3` in the base field of `curve`: residues
/// that give back `x` and `y` when multiplied by the powers of `z`.
pub open spec fn is_g1_scaled(curve: Curve, x: nat, y: nat, z: nat, a: (nat, nat)) -> bool {
    let q = curve.base().modulus();
    &&& a.0 < q
    &&& a.1 < q
    &&& (a.0 * (z * z)) % q == x % q
    &&& (a.1 * (z * z * z)) % q == y % q
}

/// The affine form of a Jacobian triple `(x, y, z)`, `None` for the identity,
/// given as `scaled` what the division by powers of `z` yields. The
/// arithmetic library holds the identity as the pair (0, 0), so a triple is
/// the identity where `z` is zero or where `x` and `y` both are; where `z` is
/// one, `x` and `y` are the affine coordinates as they stand.
pub open spec fn g1_affine_from(x: nat, y: nat, z: nat, scaled: (nat, nat)) -> Option<(nat, nat)> {
    if z == 0 || (x == 0 && y == 0) {
        None
    } else if z == 1 {
        Some((x, y))
    } else {
        Some(scaled)
    }
}

/// The same over the quadratic extension, whose zero is (0, 0) and whose one
/// is (1, 0).
pub open spec fn g2_affine_from(
    x: (nat, nat),
    y: (nat, nat),
    z: (nat, nat),
    scaled: ((nat, nat), (nat, nat)),
) -> Option<((nat, nat), (nat, nat))> {
    if z == (0nat, 0nat) || (x == (0nat, 0nat) && y == (0nat, 0nat)) {
        None
    } else if z == (1nat, 0nat) {
        Some((x, y))
    } else {
        Some(scaled)
    }
}

/// The affine form of the Jacobian triple `(x, y, z)` on G1, `None` for the
/// identity.
pub open spec fn g1_into_affine(curve: Curve, x: nat, y: nat, z: nat) -> Option<(nat, nat)> {
    g1_affine_from(x, y, z, g1_scaled(curve, x, y, z))
}

/// The affine form of the Jacobian triple `(x, y, z)` on G2, `None` for the
/// identity.
pub open spec fn g2_into_affine(curve: Curve, x: (nat, nat), y: (nat, nat), z: (nat, nat)) -> Option<
    ((nat, nat), (nat, nat)),
> {
    g2_affine_from(x, y, z, g2_scaled(curve, x, y, z))
}

/// The curve equation of G1: `y^2 = x^3 + b` in the base field. The pair
/// (0, 0), which stands for the identity, passes.
pub open spec fn g1_on_curve(curve: Curve, x: nat, y: nat) -> bool {
    let q = curve.base().modulus();
    (x == 0 && y == 0) || (y * y) % q == (x * x * x + curve.coeff_b()) % q
}

/// The sum of two elements of the quadratic extension of the field of `q`.
pub open spec fn fq2_sum(q: nat, a: (nat, nat), b: (nat, nat)) -> (nat, nat) {
    ((a.0 + b.0) % q, (a.1 + b.1) % q)
}

/// The product of two elements of the quadratic extension of the field of
/// `q`, in which `u^2 = -1`.
pub open spec fn fq2_product(q: nat, a: (nat, nat), b: (nat, nat)) -> (nat, nat) {
    ((((a.0 * b.0) % q + q - (a.1 * b.1) % q) as nat) % q, (a.0 * b.1 + a.1 * b.0) % q)
}

/// `a` holds `x / z^2` and `y / z^3` in the quadratic extension of the base
/// field of `curve`: elements that give back `x` and `y` when multiplied by
/// the powers of `z`.
pub open spec fn is_g2_scaled(
    curve: Curve,
    x: (nat, nat),
    y: (nat, nat),
    z: (nat, nat),
    a: ((nat, nat), (nat, nat)),
) -> bool {
    let q = curve.base().modulus();
    let z2 = fq2_product(q, z, z);
    &&& a.0.0 < q && a.0.1 < q && a.1.0 < q && a.1.1 < q
    &&& fq2_product(q, a.0, z2) == x
    &&& fq2_product(q, a.1, fq2_product(q, z2, z)) == y
}

/// The constant `b` of the equation `y^2 = x^3 + b` of G2: `3 / (9 + u)` on
/// BN254, `4 + 4 u` on BLS12-381.
pub open spec fn g2_coeff_b(curve: Curve) -> (nat, nat) {
    match curve {
        Curve::Bn254 => (
            text_value(
                "19485874751759354771024239261021720505790618469301721065564631296452457478373"@,
            ),
            text_value(
                "266929791119991161246907387137283842545076965332900288569378510910307636690"@,
            ),
        ),
        Curve::Bls12381 => (4, 4),
    }
}

/// The curve equation of G2: `y^2 = x^3 + b` in the quadratic extension of
/// the base field. The pair of zeros, which stands for the identity, passes.
pub open spec fn g2_on_curve(curve: Curve, x: (nat, nat), y: (nat, nat)) -> bool {
    let q = curve.base().modulus();
    (x == (0nat, 0nat) && y == (0nat, 0nat)) || fq2_product(q, y, y) == fq2_sum(
        q,
        fq2_product(q, fq2_product(q, x, x), x),
        g2_coeff_b(curve),
    )
}

/// The subgroup test of G1. On BN254 the whole curve is the subgroup.
pub open spec fn g1_in_subgroup(curve: Curve, x: nat, y: nat) -> bool {
    match curve {
        Curve::Bn254 => true,
        Curve::Bls12381 => bls12_381_g1_in_subgroup(x, y),
    }
}

/// `r` holds the canonical texts of the pair `a`, or is `None` as `a` is.
pub open spec fn pair_texts(r: Option<(String, String)>, a: Option<(nat, nat)>, field: Field) -> bool {
    match a {
        None => r.is_none(),
        Some(v) => {
            &&& r.is_some()
            &&& is_residue_text(r.unwrap().0@, field)
            &&& is_residue_text(r.unwrap().1@, field)
            &&& text_value(r.unwrap().0@) == v.0
            &&& text_value(r.unwrap().1@) == v.1
        },
    }
}

/// `r` holds the canonical texts of the two pairs of `a`, or is `None` as `a`
/// is.
pub open spec fn quad_texts(
    r: Option<(String, String, String, String)>,
    a: Option<((nat, nat), (nat, nat))>,
    field: Field,
) -> bool {
    match a {
        None => r.is_none(),
        Some(v) => {
            &&& r.is_some()
            &&& is_residue_text(r.unwrap().0@, field)
            &&& is_residue_text(r.unwrap().1@, field)
            &&& is_residue_text(r.unwrap().2@, field)
            &&& is_residue_text(r.unwrap().3@, field)
            &&& (text_value(r.unwrap().0@), text_value(r.unwrap().1@)) == v.0
            &&& (text_value(r.unwrap().2@), text_value(r.unwrap().3@)) == v.1
        },
    }
}

/// `ark_ec::CurveGroup::into_affine` on the point of `ark_bn254::G1Projective`
/// that `new_unchecked` makes of the three coordinates. Believed: the result
/// is the identity exactly where `g1_affine_from` says so, the pair `(x, y)`
/// itself where `z` is 1, and else the pair named `g1_scaled`, which holds
/// `x / z^2` and `y / z^3`; coordinates come back as canonical texts of
/// residues.
#[verifier::external_body]
fn bn254_g1_into_affine(x: &str, y: &str, z: &str) -> (r: Option<(String, String)>)
    requires
        is_residue_text(x@, Field::Bn254Fq),
        is_residue_text(y@, Field::Bn254Fq),
        is_residue_text(z@, Field::Bn254Fq),
    ensures
        pair_texts(
            r,
            g1_affine_from(
                text_value(x@),
                text_value(y@),
                text_value(z@),
                g1_scaled(Curve::Bn254, text_value(x@), text_value(y@), text_value(z@)),
            ),
            Field::Bn254Fq,
        ),
        is_g1_scaled(
            Curve::Bn254,
            text_value(x@),
            text_value(y@),
            text_value(z@),
            g1_scaled(Curve::Bn254, text_value(x@), text_value(y@), text_value(z@)),
        ) || r.is_none() || text_value(z@) == 1,
{
    let f = |s: &str| ark_bn254::Fq::from_str(s).unwrap_or_default();
    let p = ark_bn254::G1Projective::new_unchecked(f(x), f(y), f(z)).into_affine();
    match p.xy() {
        Some((a, b)) => Some((a.to_string(), b.to_string())),
        None => None,
    }
}

/// `is_on_curve` of `ark_bn254::G1Affine` on the point that `new_unchecked`
/// makes of `(x, y)`. Believed: it tests `y^2 = x^3 + 3` in the base field,
/// and passes the pair (0, 0).
#[verifier::external_body]
fn bn254_g1_is_on_curve(x: &str, y: &str) -> (r: bool)
    requires
        is_residue_text(x@, Field::Bn254Fq),
        is_residue_text(y@, Field::Bn254Fq),
    ensures
        r == g1_on_curve(Curve::Bn254, text_value(x@), text_value(y@)),
{
    let f = |s: &str| ark_bn254::Fq::from_str(s).unwrap_or_default();
    ark_bn254::G1Affine::new_unchecked(f(x), f(y)).is_on_curve()
}

/// `is_in_correct_subgroup_assuming_on_curve` of `ark_bn254::G1Affine` on
/// the point that `new_unchecked` makes of `(x, y)`. Believed: it is true of
/// every point, the cofactor of BN254 G1 being one.
#[verifier::external_body]
fn bn254_g1_is_in_subgroup(x: &str, y: &str) -> (r: bool)
    requires
        is_residue_text(x@, Field::Bn254Fq),
        is_residue_text(y@, Field::Bn254Fq),
    ensures
        r,
{
    let f = |s: &str| ark_bn254::Fq::from_str(s).unwrap_or_default();
    ark_bn254::G1Affine::new_unchecked(f(x), f(y)).is_in_correct_subgroup_assuming_on_curve()
}

/// `ark_ec::CurveGroup::into_affine` on the point of
/// `ark_bls12_381::G1Projective` that `new_unchecked` makes of the three
/// coordinates. Believed: the result is the identity exactly where
/// `g1_affine_from` says so, the pair `(x, y)` itself where `z` is 1, and
/// else the pair named `g1_scaled`, which holds `x / z^2` and `y / z^3`;
/// coordinates come back as canonical texts of residues.
#[verifier::external_body]
fn bls12_381_g1_into_affine(x: &str, y: &str, z: &str) -> (r: Option<(String, String)>)
    requires
        is_residue_text(x@, Field::Bls12381Fq),
        is_residue_text(y@, Field::Bls12381Fq),
        is_residue_text(z@, Field::Bls12381Fq),
    ensures
        pair_texts(
            r,
            g1_affine_from(
                text_value(x@),
                text_value(y@),
                text_value(z@),
                g1_scaled(Curve::Bls12381, text_value(x@), text_value(y@), text_value(z@)),
            ),
            Field::Bls12381Fq,
        ),
        is_g1_scaled(
            Curve::Bls12381,
            text_value(x@),
            text_value(y@),
            text_value(z@),
            g1_scaled(Curve::Bls12381, text_value(x@), text_value(y@), text_value(z@)),
        ) || r.is_none() || text_value(z@) == 1,
{
    let f = |s: &str| ark_bls12_381::Fq::from_str(s).unwrap_or_default();
    let p = ark_bls12_381::G1Projective::new_unchecked(f(x), f(y), f(z)).into_affine();
    match p.xy() {
        Some((a, b)) => Some((a.to_string(), b.to_string())),
        None => None,
    }
}

/// `is_on_curve` of `ark_bls12_381::G1Affine` on the point that
/// `new_unchecked` makes of `(x, y)`. Believed: it tests `y^2 = x^3 + 4` in
/// the base field, and passes the pair (0, 0).
#[verifier::external_body]
fn bls12_381_g1_is_on_curve(x: &str, y: &str) -> (r: bool)
    requires
        is_residue_text(x@, Field::Bls12381Fq),
        is_residue_text(y@, Field::Bls12381Fq),
    ensures
        r == g1_on_curve(Curve::Bls12381, text_value(x@), text_value(y@)),
{
    let f = |s: &str| ark_bls12_381::Fq::from_str(s).unwrap_or_default();
    ark_bls12_381::G1Affine::new_unchecked(f(x), f(y)).is_on_curve()
}

/// `is_in_correct_subgroup_assuming_on_curve` of `ark_bls12_381::G1Affine`
/// on the point that `new_unchecked` makes of `(x, y)`. Believed: the result
/// depends on the two coordinates alone.
#[verifier::external_body]
fn bls12_381_g1_is_in_subgroup(x: &str, y: &str) -> (r: bool)
    requires
        is_residue_text(x@, Field::Bls12381Fq),
        is_residue_text(y@, Field::Bls12381Fq),
    ensures
        r == bls12_381_g1_in_subgroup(text_value(x@), text_value(y@)),
{
    let f = |s: &str| ark_bls12_381::Fq::from_str(s).unwrap_or_default();
    ark_bls12_381::G1Affine::new_unchecked(f(x), f(y)).is_in_correct_subgroup_assuming_on_curve()
}


/// `ark_ec::CurveGroup::into_affine` on the point of `ark_bn254::G2Projective`
/// that `new_unchecked` makes of three coordinates in the quadratic
/// extension, each given by its two parts. Believed: the result is the
/// identity exactly where `g2_affine_from` says so, the pair `(x, y)` itself
/// where `z` is one, and else the pair named `g2_scaled`, which holds
/// `x / z^2` and `y / z^3`; the four parts come back as canonical texts of
/// residues.
#[verifier::external_body]
fn bn254_g2_into_affine(x0: &str, x1: &str, y0: &str, y1: &str, z0: &str, z1: &str) -> (r: Option<
    (String, String, String, String),
>)
    requires
        is_residue_text(x0@, Field::Bn254Fq),
        is_residue_text(x1@, Field::Bn254Fq),
        is_residue_text(y0@, Field::Bn254Fq),
        is_residue_text(y1@, Field::Bn254Fq),
        is_residue_text(z0@, Field::Bn254Fq),
        is_residue_text(z1@, Field::Bn254Fq),
    ensures
        quad_texts(
            r,
            g2_affine_from(
                (text_value(x0@), text_value(x1@)),
                (text_value(y0@), text_value(y1@)),
                (text_value(z0@), text_value(z1@)),
                g2_scaled(
                    Curve::Bn254,
                    (text_value(x0@), text_value(x1@)),
                    (text_value(y0@), text_value(y1@)),
                    (text_value(z0@), text_value(z1@)),
                ),
            ),
            Field::Bn254Fq,
        ),
        is_g2_scaled(
            Curve::Bn254,
            (text_value(x0@), text_value(x1@)),
            (text_value(y0@), text_value(y1@)),
            (text_value(z0@), text_value(z1@)),
            g2_scaled(
                Curve::Bn254,
                (text_value(x0@), text_value(x1@)),
                (text_value(y0@), text_value(y1@)),
                (text_value(z0@), text_value(z1@)),
            ),
        ) || r.is_none() || (text_value(z0@) == 1 && text_value(z1@) == 0),
{
    let f = |a: &str, b: &str| ark_bn254::Fq2::new(ark_bn254::Fq::from_str(a).unwrap_or_default(), ark_bn254::Fq::from_str(b).unwrap_or_default());
    let p = ark_bn254::G2Projective::new_unchecked(f(x0, x1), f(y0, y1), f(z0, z1)).into_affine();
    match p.xy() {
        Some((a, b)) => Some((a.c0.to_string(), a.c1.to_string(), b.c0.to_string(), b.c1.to_string())),
        None => None,
    }
}

/// `is_on_curve` of `ark_bn254::G2Affine` on the point that `new_unchecked`
/// makes of `(x, y)`. Believed: it tests `y^2 = x^3 + b` in the quadratic
/// extension of the base field, and passes the pair of zeros.
#[verifier::external_body]
fn bn254_g2_is_on_curve(x0: &str, x1: &str, y0: &str, y1: &str) -> (r: bool)
    requires
        is_residue_text(x0@, Field::Bn254Fq),
        is_residue_text(x1@, Field::Bn254Fq),
        is_residue_text(y0@, Field::Bn254Fq),
        is_residue_text(y1@, Field::Bn254Fq),
    ensures
        r == g2_on_curve(
            Curve::Bn254,
            (text_value(x0@), text_value(x1@)),
            (text_value(y0@), text_value(y1@)),
        ),
{
    let f = |a: &str, b: &str| ark_bn254::Fq2::new(ark_bn254::Fq::from_str(a).unwrap_or_default(), ark_bn254::Fq::from_str(b).unwrap_or_default());
    ark_bn254::G2Affine::new_unchecked(f(x0, x1), f(y0, y1)).is_on_curve()
}

/// `is_in_correct_subgroup_assuming_on_curve` of `ark_bn254::G2Affine` on the
/// point that `new_unchecked` makes of `(x, y)`. Believed: the result depends
/// on the coordinates alone.
#[verifier::external_body]
fn bn254_g2_is_in_subgroup(x0: &str, x1: &str, y0: &str, y1: &str) -> (r: bool)
    requires
        is_residue_text(x0@, Field::Bn254Fq),
        is_residue_text(x1@, Field::Bn254Fq),
        is_residue_text(y0@, Field::Bn254Fq),
        is_residue_text(y1@, Field::Bn254Fq),
    ensures
        r == g2_in_subgroup(
            Curve::Bn254,
            (text_value(x0@), text_value(x1@)),
            (text_value(y0@), text_value(y1@)),
        ),
{
    let f = |a: &str, b: &str| ark_bn254::Fq2::new(ark_bn254::Fq::from_str(a).unwrap_or_default(), ark_bn254::Fq::from_str(b).unwrap_or_default());
    ark_bn254::G2Affine::new_unchecked(f(x0, x1), f(y0, y1)).is_in_correct_subgroup_assuming_on_curve()
}

/// `ark_ec::CurveGroup::into_affine` on the point of `ark_bls12_381::G2Projective`
/// that `new_unchecked` makes of three coordinates in the quadratic
/// extension, each given by its two parts. Believed: the result is the
/// identity exactly where `g2_affine_from` says so, the pair `(x, y)` itself
/// where `z` is one, and else the pair named `g2_scaled`, which holds
/// `x / z^2` and `y / z^3`; the four parts come back as canonical texts of
/// residues.
#[verifier::external_body]
fn bls12_381_g2_into_affine(x0: &str, x1: &str, y0: &str, y1: &str, z0: &str, z1: &str) -> (r: Option<
    (String, String, String, String),
>)
    requires
        is_residue_text(x0@, Field::Bls12381Fq),
        is_residue_text(x1@, Field::Bls12381Fq),
        is_residue_text(y0@, Field::Bls12381Fq),
        is_residue_text(y1@, Field::Bls12381Fq),
        is_residue_text(z0@, Field::Bls12381Fq),
        is_residue_text(z1@, Field::Bls12381Fq),
    ensures
        quad_texts(
            r,
            g2_affine_from(
                (text_value(x0@), text_value(x1@)),
                (text_value(y0@), text_value(y1@)),
                (text_value(z0@), text_value(z1@)),
                g2_scaled(
                    Curve::Bls12381,
                    (text_value(x0@), text_value(x1@)),
                    (text_value(y0@), text_value(y1@)),
                    (text_value(z0@), text_value(z1@)),
                ),
            ),
            Field::Bls12381Fq,
        ),
        is_g2_scaled(
            Curve::Bls12381,
            (text_value(x0@), text_value(x1@)),
            (text_value(y0@), text_value(y1@)),
            (text_value(z0@), text_value(z1@)),
            g2_scaled(
                Curve::Bls12381,
                (text_value(x0@), text_value(x1@)),
                (text_value(y0@), text_value(y1@)),
                (text_value(z0@), text_value(z1@)),
            ),
        ) || r.is_none() || (text_value(z0@) == 1 && text_value(z1@) == 0),
{
    let f = |a: &str, b: &str| ark_bls12_381::Fq2::new(ark_bls12_381::Fq::from_str(a).unwrap_or_default(), ark_bls12_381::Fq::from_str(b).unwrap_or_default());
    let p = ark_bls12_381::G2Projective::new_unchecked(f(x0, x1), f(y0, y1), f(z0, z1)).into_affine();
    match p.xy() {
        Some((a, b)) => Some((a.c0.to_string(), a.c1.to_string(), b.c0.to_string(), b.c1.to_string())),
        None => None,
    }
}

/// `is_on_curve` of `ark_bls12_381::G2Affine` on the point that `new_unchecked`
/// makes of `(x, y)`. Believed: it tests `y^2 = x^3 + b` in the quadratic
/// extension of the base field, and passes the pair of zeros.
#[verifier::external_body]
fn bls12_381_g2_is_on_curve(x0: &str, x1: &str, y0: &str, y1: &str) -> (r: bool)
    requires
        is_residue_text(x0@, Field::Bls12381Fq),
        is_residue_text(x1@, Field::Bls12381Fq),
        is_residue_text(y0@, Field::Bls12381Fq),
        is_residue_text(y1@, Field::Bls12381Fq),
    ensures
        r == g2_on_curve(
            Curve::Bls12381,
            (text_value(x0@), text_value(x1@)),
            (text_value(y0@), text_value(y1@)),
        ),
{
    let f = |a: &str, b: &str| ark_bls12_381::Fq2::new(ark_bls12_381::Fq::from_str(a).unwrap_or_default(), ark_bls12_381::Fq::from_str(b).unwrap_or_default());
    ark_bls12_381::G2Affine::new_unchecked(f(x0, x1), f(y0, y1)).is_on_curve()
}

/// `is_in_correct_subgroup_assuming_on_curve` of `ark_bls12_381::G2Affine` on the
/// point that `new_unchecked` makes of `(x, y)`. Believed: the result depends
/// on the coordinates alone.
#[verifier::external_body]
fn bls12_381_g2_is_in_subgroup(x0: &str, x1: &str, y0: &str, y1: &str) -> (r: bool)
    requires
        is_residue_text(x0@, Field::Bls12381Fq),
        is_residue_text(x1@, Field::Bls12381Fq),
        is_residue_text(y0@, Field::Bls12381Fq),
        is_residue_text(y1@, Field::Bls12381Fq),
    ensures
        r == g2_in_subgroup(
            Curve::Bls12381,
            (text_value(x0@), text_value(x1@)),
            (text_value(y0@), text_value(y1@)),
        ),
{
    let f = |a: &str, b: &str| ark_bls12_381::Fq2::new(ark_bls12_381::Fq::from_str(a).unwrap_or_default(), ark_bls12_381::Fq::from_str(b).unwrap_or_default());
    ark_bls12_381::G2Affine::new_unchecked(f(x0, x1), f(y0, y1)).is_in_correct_subgroup_assuming_on_curve()
}

/// The affine form of the Jacobian triple `(x, y, z)` on G1 of `curve`:
/// `None` for the identity, else the two affine coordinates.
pub fn g1_normalize(curve: Curve, x: &FieldElement, y: &FieldElement, z: &FieldElement) -> (r: Option<
    (FieldElement, FieldElement),
>)
    requires
        x.in_field() == curve.base(),
        y.in_field() == curve.base(),
        z.in_field() == curve.base(),
    ensures
        match g1_into_affine(curve, x@, y@, z@) {
            None => r.is_none(),
            Some(a) => r.is_some() && r.unwrap().0.wf() && r.unwrap().1.wf() && r.unwrap().0.in_field()
                == curve.base() && r.unwrap().1.in_field() == curve.base() && (
                r.unwrap().0@,
                r.unwrap().1@,
            ) == a,
        },
        r.is_some() && z@ != 1 ==> is_g1_scaled(curve, x@, y@, z@, (r.unwrap().0@, r.unwrap().1@)),
{
    let texts = match curve {
        Curve::Bn254 => bn254_g1_into_affine(x.as_str(), y.as_str(), z.as_str()),
        Curve::Bls12381 => bls12_381_g1_into_affine(x.as_str(), y.as_str(), z.as_str()),
    };
    match texts {
        None => None,
        Some((a, b)) => {
            let field: Field = curve.base_field();
            Some((FieldElement::from_residue_text(field, a), FieldElement::from_residue_text(field, b)))
        },
    }
}

/// Whether the affine pair `(x, y)` satisfies the curve equation of G1.
pub fn g1_is_on_curve(curve: Curve, x: &FieldElement, y: &FieldElement) -> (r: bool)
    requires
        x.in_field() == curve.base(),
        y.in_field() == curve.base(),
    ensures
        r == g1_on_curve(curve, x@, y@),
{
    match curve {
        Curve::Bn254 => bn254_g1_is_on_curve(x.as_str(), y.as_str()),
        Curve::Bls12381 => bls12_381_g1_is_on_curve(x.as_str(), y.as_str()),
    }
}

/// Whether the affine pair `(x, y)` passes the subgroup test of G1.
pub fn g1_is_in_subgroup(curve: Curve, x: &FieldElement, y: &FieldElement) -> (r: bool)
    requires
        x.in_field() == curve.base(),
        y.in_field() == curve.base(),
    ensures
        r == g1_in_subgroup(curve, x@, y@),
{
    match curve {
        Curve::Bn254 => bn254_g1_is_in_subgroup(x.as_str(), y.as_str()),
        Curve::Bls12381 => bls12_381_g1_is_in_subgroup(x.as_str(), y.as_str()),
    }
}

/// The affine form of the Jacobian triple `(x, y, z)` on G2 of `curve`:
/// `None` for the identity, else the two affine coordinates.
pub fn g2_normalize(curve: Curve, x: &Fq2, y: &Fq2, z: &Fq2) -> (r: Option<(Fq2, Fq2)>)
    requires
        x.wf_in(curve.base()),
        y.wf_in(curve.base()),
        z.wf_in(curve.base()),
    ensures
        match g2_into_affine(curve, x@, y@, z@) {
            None => r.is_none(),
            Some(a) => r.is_some() && r.unwrap().0.wf_in(curve.base()) && r.unwrap().1.wf_in(
                curve.base(),
            ) && (r.unwrap().0@, r.unwrap().1@) == a,
        },
        r.is_some() && z@ != (1nat, 0nat) ==> is_g2_scaled(
            curve,
            x@,
            y@,
            z@,
            (r.unwrap().0@, r.unwrap().1@),
        ),
{
    let texts = match curve {
        Curve::Bn254 => bn254_g2_into_affine(
            x.c0.as_str(),
            x.c1.as_str(),
            y.c0.as_str(),
            y.c1.as_str(),
            z.c0.as_str(),
            z.c1.as_str(),
        ),
        Curve::Bls12381 => bls12_381_g2_into_affine(
            x.c0.as_str(),
            x.c1.as_str(),
            y.c0.as_str(),
            y.c1.as_str(),
            z.c0.as_str(),
            z.c1.as_str(),
        ),
    };
    match texts {
        None => None,
        Some((a, b, c, d)) => {
            let field: Field = curve.base_field();
            let ax = Fq2 {
                c0: FieldElement::from_residue_text(field, a),
                c1: FieldElement::from_residue_text(field, b),
            };
            let ay = Fq2 {
                c0: FieldElement::from_residue_text(field, c),
                c1: FieldElement::from_residue_text(field, d),
            };
            Some((ax, ay))
        },
    }
}

/// Whether the affine pair `(x, y)` satisfies the curve equation of G2.
pub fn g2_is_on_curve(curve: Curve, x: &Fq2, y: &Fq2) -> (r: bool)
    requires
        x.wf_in(curve.base()),
        y.wf_in(curve.base()),
    ensures
        r == g2_on_curve(curve, x@, y@),
{
    match curve {
        Curve::Bn254 => bn254_g2_is_on_curve(x.c0.as_str(), x.c1.as_str(), y.c0.as_str(), y.c1.as_str()),
        Curve::Bls12381 => bls12_381_g2_is_on_curve(
            x.c0.as_str(),
            x.c1.as_str(),
            y.c0.as_str(),
            y.c1.as_str(),
        ),
    }
}

/// Whether the affine pair `(x, y)` passes the subgroup test of G2.
pub fn g2_is_in_subgroup(curve: Curve, x: &Fq2, y: &Fq2) -> (r: bool)
    requires
        x.wf_in(curve.base()),
        y.wf_in(curve.base()),
    ensures
        r == g2_in_subgroup(curve, x@, y@),
{
    match curve {
        Curve::Bn254 => bn254_g2_is_in_subgroup(
            x.c0.as_str(),
            x.c1.as_str(),
            y.c0.as_str(),
            y.c1.as_str(),
        ),
        Curve::Bls12381 => bls12_381_g2_is_in_subgroup(
            x.c0.as_str(),
            x.c1.as_str(),
            y.c0.as_str(),
            y.c1.as_str(),
        ),
    }
}

} // verus!
