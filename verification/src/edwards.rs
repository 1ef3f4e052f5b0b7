//! The point codec of BabyJubJub, a twisted Edwards curve over the scalar
//! field of BN254: a point is the array of its two affine coordinates.

use crate::error::{checked_verdict, checked_verdict_spec, DecodeError, ElementError, ValidationMode};
use crate::field::{is_residue_text, Field, FieldElement};
use crate::point::{decode_scalar, lemma_scalar_round_trip, scalar_spec};
use crate::text::{text_value, texts};
use std::str::FromStr;
use vstd::prelude::*;

verus! {

/// A point of BabyJubJub in affine form. The identity is the pair (0, 1).
#[derive(Debug, PartialEq, Eq)]
pub struct EdwardsAffine {
    pub x: FieldElement,
    pub y: FieldElement,
}

impl View for EdwardsAffine {
    type V = (nat, nat);

    open spec fn view(&self) -> (nat, nat) {
        (self.x@, self.y@)
    }
}

impl Clone for EdwardsAffine {
    fn clone(&self) -> (r: Self)
        ensures
            r == *self,
    {
        EdwardsAffine { x: self.x.clone(), y: self.y.clone() }
    }
}

impl EdwardsAffine {
    /// Both coordinates are well-formed elements of the base field.
    pub open spec fn wf(&self) -> bool {
        &&& self.x.wf()
        &&& self.y.wf()
        &&& self.x.in_field() == Field::Bn254Fr
        &&& self.y.in_field() == Field::Bn254Fr
    }

    /// The two texts that spell the point.
    pub open spec fn wire_texts(&self) -> Seq<Seq<char>> {
        seq![self.x.text(), self.y.text()]
    }
}

/// The curve equation of BabyJubJub: `168700 x^2 + y^2 = 1 + 168696 x^2 y^2`
/// in the base field.
pub open spec fn edwards_on_curve(x: nat, y: nat) -> bool {
    let q = Field::Bn254Fr.modulus();
    (y * y + 168700 * (x * x)) % q == (1 + 168696 * (x * x * (y * y))) % q
}

/// Whether the BabyJubJub point `(x, y)` passes the subgroup test of
/// `is_in_correct_subgroup_assuming_on_curve`.
pub uninterp spec fn edwards_in_subgroup(x: nat, y: nat) -> bool;

/// `is_on_curve` of `taceo_ark_babyjubjub::EdwardsAffine` on the point that
/// `new_unchecked` makes of `(x, y)`. Believed: it tests the equation
/// `168700 x^2 + y^2 = 1 + 168696 x^2 y^2` in the base field.
#[verifier::external_body]
fn babyjubjub_is_on_curve(x: &str, y: &str) -> (r: bool)
    requires
        is_residue_text(x@, Field::Bn254Fr),
        is_residue_text(y@, Field::Bn254Fr),
    ensures
        r == edwards_on_curve(text_value(x@), text_value(y@)),
{
    let f = |s: &str| taceo_ark_babyjubjub::Fq::from_str(s).unwrap_or_default();
    taceo_ark_babyjubjub::EdwardsAffine::new_unchecked(f(x), f(y)).is_on_curve()
}

/// `is_in_correct_subgroup_assuming_on_curve` of
/// `taceo_ark_babyjubjub::EdwardsAffine` on the point that `new_unchecked`
/// makes of `(x, y)`. Believed: the result depends on the two coordinates
/// alone.
#[verifier::external_body]
fn babyjubjub_is_in_subgroup(x: &str, y: &str) -> (r: bool)
    requires
        is_residue_text(x@, Field::Bn254Fr),
        is_residue_text(y@, Field::Bn254Fr),
    ensures
        r == edwards_in_subgroup(text_value(x@), text_value(y@)),
{
    let f = |s: &str| taceo_ark_babyjubjub::Fq::from_str(s).unwrap_or_default();
    taceo_ark_babyjubjub::EdwardsAffine::new_unchecked(f(x), f(y))
        .is_in_correct_subgroup_assuming_on_curve()
}

/// What the affine pair `(x, y)` decodes to. The identity (0, 1) is accepted
/// as it is; any other point is held to the curve and the subgroup in checked
/// mode only.
pub open spec fn edwards_from_affine_spec(x: nat, y: nat, mode: ValidationMode) -> Result<
    (nat, nat),
    DecodeError,
> {
    if (x == 0 && y == 1) || mode == ValidationMode::Unchecked {
        Ok((x, y))
    } else {
        match checked_verdict_spec(edwards_on_curve(x, y), edwards_in_subgroup(x, y)) {
            Ok(_) => Ok((x, y)),
            Err(e) => Err(e),
        }
    }
}

/// What an array of coordinate texts decodes to: exactly two texts, each an
/// unsigned canonical residue of the base field, read in order.
pub open spec fn edwards_spec(coords: Seq<Seq<char>>, mode: ValidationMode) -> Result<
    (nat, nat),
    DecodeError,
> {
    if coords.len() < 2 {
        Err(DecodeError::MissingCoordinate { position: coords.len() as usize })
    } else if coords.len() > 2 {
        Err(DecodeError::UnexpectedTrailingElement)
    } else {
        match scalar_spec(coords[0], Field::Bn254Fr, 0) {
            Err(e) => Err(e),
            Ok(x) => match scalar_spec(coords[1], Field::Bn254Fr, 1) {
                Err(e) => Err(e),
                Ok(y) => edwards_from_affine_spec(x, y, mode),
            },
        }
    }
}

/// `r` is the well-formed point that `expected` gives, or the same error.
pub open spec fn edwards_as(
    r: Result<EdwardsAffine, DecodeError>,
    expected: Result<(nat, nat), DecodeError>,
) -> bool {
    match expected {
        Ok(v) => r.is_ok() && r.unwrap().wf() && r.unwrap()@ == v,
        Err(e) => r.is_err() && r.unwrap_err() == e,
    }
}

/// The point of the affine pair `(x, y)`, validated as `mode` asks.
pub fn edwards_from_affine(x: FieldElement, y: FieldElement, mode: ValidationMode) -> (r: Result<
    EdwardsAffine,
    DecodeError,
>)
    requires
        x.wf(),
        y.wf(),
        x.in_field() == Field::Bn254Fr,
        y.in_field() == Field::Bn254Fr,
    ensures
        edwards_as(r, edwards_from_affine_spec(x@, y@, mode)),
{
    let identity: bool = x.is_zero() && y.is_one();
    if identity || mode == ValidationMode::Unchecked {
        return Ok(EdwardsAffine { x, y });
    }
    let on_curve: bool = babyjubjub_is_on_curve(x.as_str(), y.as_str());
    let in_subgroup: bool = on_curve && babyjubjub_is_in_subgroup(x.as_str(), y.as_str());
    match checked_verdict(on_curve, in_subgroup) {
        Ok(_) => Ok(EdwardsAffine { x, y }),
        Err(e) => Err(e),
    }
}

/// Decodes a BabyJubJub point from its array of two coordinate texts.
pub fn decode_edwards(coords: &Vec<String>, mode: ValidationMode) -> (r: Result<
    EdwardsAffine,
    DecodeError,
>)
    ensures
        edwards_as(r, edwards_spec(texts(coords@), mode)),
{
    let n: usize = coords.len();
    if n < 2 {
        return Err(DecodeError::MissingCoordinate { position: n });
    }
    if n > 2 {
        return Err(DecodeError::UnexpectedTrailingElement);
    }
    let x = match decode_scalar(Field::Bn254Fr, coords[0].as_str(), 0) {
        Ok(f) => f,
        Err(e) => {
            return Err(e);
        },
    };
    let y = match decode_scalar(Field::Bn254Fr, coords[1].as_str(), 1) {
        Ok(f) => f,
        Err(e) => {
            return Err(e);
        },
    };
    edwards_from_affine(x, y, mode)
}

/// Encodes a BabyJubJub point as its array of two coordinate texts.
pub fn encode_edwards(p: &EdwardsAffine) -> (r: Vec<String>)
    ensures
        texts(r@) == p.wire_texts(),
{
    let r = vec![p.x.encode(), p.y.encode()];
    assert(texts(r@) =~= p.wire_texts());
    r
}

/// What one entry of a sequence of points decodes to: an entry that does not
/// hold two texts is refused with the number that it holds.
pub open spec fn edwards_element_spec(coords: Seq<Seq<char>>, mode: ValidationMode) -> Result<
    (nat, nat),
    DecodeError,
> {
    if coords.len() != 2 {
        Err(DecodeError::LengthMismatch { expected: 2, found: coords.len() as usize })
    } else {
        edwards_spec(coords, mode)
    }
}

/// `r` is what decoding the entries `items` in order owes: all points, each
/// as its entry spells it and as many as `size` asks for, or the first entry
/// that is refused with its index and error; a count that is not met is
/// reported last, under the index behind the last entry.
pub open spec fn edwards_sequence_as(
    r: Result<Vec<EdwardsAffine>, ElementError>,
    items: Seq<Vec<String>>,
    size: Option<usize>,
    mode: ValidationMode,
) -> bool {
    match r {
        Ok(v) => v.len() == items.len() && (size.is_some() ==> size.unwrap() == items.len())
            && forall|i: int|
            0 <= i < items.len() ==> edwards_as(
                Ok(#[trigger] v[i]),
                edwards_element_spec(texts(items[i]@), mode),
            ),
        Err(e) => e.index <= items.len() && (forall|j: int|
            0 <= j < e.index ==> (#[trigger] edwards_element_spec(texts(items[j]@), mode)).is_ok())
            && if e.index < items.len() {
            edwards_element_spec(texts(items[e.index as int]@), mode) == Err::<
                (nat, nat),
                DecodeError,
            >(e.error)
        } else {
            size.is_some() && size.unwrap() != items.len() && e.error == (
            DecodeError::LengthMismatch { expected: size.unwrap(), found: items.len() as usize })
        },
    }
}

/// Decodes a sequence of BabyJubJub points, entry by entry until the input
/// ends. The first entry that is refused ends the decoding, and the error
/// names it. Where `size` is given and the sequence holds another number of
/// entries, that is reported last, under the index behind the last entry.
pub fn decode_edwards_sequence(
    items: &Vec<Vec<String>>,
    size: Option<usize>,
    mode: ValidationMode,
) -> (r: Result<Vec<EdwardsAffine>, ElementError>)
    ensures
        edwards_sequence_as(r, items@, size, mode),
{
    let mut out: Vec<EdwardsAffine> = Vec::new();
    let mut i: usize = 0;
    while i < items.len()
        invariant
            i <= items.len(),
            out.len() == i,
            forall|k: int|
                0 <= k < i ==> edwards_as(
                    Ok(#[trigger] out[k]),
                    edwards_element_spec(texts(items[k]@), mode),
                ),
            forall|k: int|
                0 <= k < i ==> (#[trigger] edwards_element_spec(texts(items[k]@), mode)).is_ok(),
        decreases items.len() - i,
    {
        let coords: &Vec<String> = &items[i];
        if coords.len() != 2 {
            return Err(
                ElementError {
                    index: i,
                    error: DecodeError::LengthMismatch { expected: 2, found: coords.len() },
                },
            );
        }
        match decode_edwards(coords, mode) {
            Ok(p) => {
                out.push(p);
            },
            Err(e) => {
                return Err(ElementError { index: i, error: e });
            },
        }
        i = i + 1;
    }
    match size {
        Some(n) => {
            if n != out.len() {
                return Err(
                    ElementError {
                        index: i,
                        error: DecodeError::LengthMismatch { expected: n, found: out.len() },
                    },
                );
            }
        },
        None => {},
    }
    Ok(out)
}

/// Encodes a sequence of BabyJubJub points, each as its array of two texts.
pub fn encode_edwards_sequence(ps: &Vec<EdwardsAffine>) -> (r: Vec<Vec<String>>)
    ensures
        r.len() == ps.len(),
        forall|i: int| 0 <= i < ps.len() ==> texts(#[trigger] r[i]@) == ps[i].wire_texts(),
{
    let mut out: Vec<Vec<String>> = Vec::new();
    let mut i: usize = 0;
    while i < ps.len()
        invariant
            i <= ps.len(),
            out.len() == i,
            forall|k: int| 0 <= k < i ==> texts(#[trigger] out[k]@) == ps[k].wire_texts(),
        decreases ps.len() - i,
    {
        out.push(encode_edwards(&ps[i]));
        i = i + 1;
    }
    out
}

/// Round trip: what `encode_edwards` gives for a well-formed point decodes
/// to that point in unchecked mode, and in checked mode where the point is
/// the identity or lies on the curve and in the subgroup.
pub proof fn lemma_edwards_round_trip(p: EdwardsAffine, mode: ValidationMode)
    requires
        p.wf(),
        mode == ValidationMode::Checked ==> p@ == (0nat, 1nat) || (edwards_on_curve(p@.0, p@.1)
            && edwards_in_subgroup(p@.0, p@.1)),
    ensures
        edwards_spec(p.wire_texts(), mode) == Ok::<(nat, nat), DecodeError>(p@),
{
    lemma_scalar_round_trip(p.x, 0);
    lemma_scalar_round_trip(p.y, 1);
}

/// Validation: a well-formed pair other than the identity that is off the
/// curve is refused as a curve violation in checked mode, and decodes to
/// that very pair in unchecked mode.
pub proof fn lemma_edwards_off_curve(coords: Seq<Seq<char>>, x: nat, y: nat)
    requires
        coords.len() == 2,
        scalar_spec(coords[0], Field::Bn254Fr, 0) == Ok::<nat, DecodeError>(x),
        scalar_spec(coords[1], Field::Bn254Fr, 1) == Ok::<nat, DecodeError>(y),
        !(x == 0 && y == 1),
        !edwards_on_curve(x, y),
    ensures
        edwards_spec(coords, ValidationMode::Checked) == Err::<(nat, nat), DecodeError>(
            DecodeError::CurveViolation,
        ),
        edwards_spec(coords, ValidationMode::Unchecked) == Ok::<(nat, nat), DecodeError>((x, y)),
{
}

/// Shape of a sequence: an entry that does not hold exactly two texts is
/// refused as a length mismatch that reports the number of texts it holds,
/// whatever the texts are.
pub proof fn lemma_edwards_entry_length(coords: Seq<Seq<char>>, mode: ValidationMode)
    requires
        coords.len() != 2,
    ensures
        edwards_element_spec(coords, mode) == Err::<(nat, nat), DecodeError>(
            DecodeError::LengthMismatch { expected: 2, found: coords.len() as usize },
        ),
{
}

/// The identity (0, 1) decodes in either mode, whatever the tests of the
/// curve and the subgroup say of it.
pub proof fn lemma_edwards_identity(mode: ValidationMode)
    ensures
        edwards_spec(seq!["0"@, "1"@], mode) == Ok::<(nat, nat), DecodeError>((0nat, 1nat)),
{
    crate::point::lemma_zero_one(Field::Bn254Fr, 0);
    crate::point::lemma_zero_one(Field::Bn254Fr, 1);
}

} // verus!
