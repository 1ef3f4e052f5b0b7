//! The point codec of the pairing-friendly curves: G1 points as three decimal
//! texts, G2 points as three pairs of them, both in Jacobian coordinates.

use crate::curve::{
    g1_in_subgroup, g1_into_affine, g1_is_in_subgroup, g1_is_on_curve, g1_normalize, g1_on_curve,
    g2_in_subgroup, g2_into_affine, g2_is_in_subgroup, g2_is_on_curve, g2_normalize, g2_on_curve,
    Curve, Fq2,
};
use crate::error::{checked_verdict, checked_verdict_spec, DecodeError, ElementError, ValidationMode};
use crate::field::{Field, FieldElement};
use crate::parse::parse_spec;
use crate::text::{texts, texts2};
use vstd::prelude::*;

verus! {

/// A point of G1 in affine form.
#[derive(Debug, PartialEq, Eq)]
pub enum G1Affine {
    /// The identity, the point at infinity.
    Infinity,
    /// The point with the affine coordinates `x` and `y`.
    Finite { x: FieldElement, y: FieldElement },
}

/// A point of G2 in affine form.
#[derive(Debug, PartialEq, Eq)]
pub enum G2Affine {
    /// The identity, the point at infinity.
    Infinity,
    /// The point with the affine coordinates `x` and `y`.
    Finite { x: Fq2, y: Fq2 },
}

impl View for G1Affine {
    type V = Option<(nat, nat)>;

    open spec fn view(&self) -> Option<(nat, nat)> {
        match self {
            G1Affine::Infinity => None,
            G1Affine::Finite { x, y } => Some((x@, y@)),
        }
    }
}

impl View for G2Affine {
    type V = Option<((nat, nat), (nat, nat))>;

    open spec fn view(&self) -> Option<((nat, nat), (nat, nat))> {
        match self {
            G2Affine::Infinity => None,
            G2Affine::Finite { x, y } => Some((x@, y@)),
        }
    }
}

impl Clone for G1Affine {
    fn clone(&self) -> (r: Self)
        ensures
            r == *self,
    {
        match self {
            G1Affine::Infinity => G1Affine::Infinity,
            G1Affine::Finite { x, y } => G1Affine::Finite { x: x.clone(), y: y.clone() },
        }
    }
}

impl Clone for G2Affine {
    fn clone(&self) -> (r: Self)
        ensures
            r == *self,
    {
        match self {
            G2Affine::Infinity => G2Affine::Infinity,
            G2Affine::Finite { x, y } => G2Affine::Finite { x: x.clone(), y: y.clone() },
        }
    }
}

impl G1Affine {
    /// The coordinates are well-formed elements of the base field of `curve`.
    pub open spec fn wf_on(&self, curve: Curve) -> bool {
        match self {
            G1Affine::Infinity => true,
            G1Affine::Finite { x, y } => x.wf() && y.wf() && x.in_field() == curve.base()
                && y.in_field() == curve.base(),
        }
    }
}

impl G2Affine {
    /// The coordinates are well-formed over the base field of `curve`.
    pub open spec fn wf_on(&self, curve: Curve) -> bool {
        match self {
            G2Affine::Infinity => true,
            G2Affine::Finite { x, y } => x.wf_in(curve.base()) && y.wf_in(curve.base()),
        }
    }
}

/// The scalar at `position` of a wire value: read unsigned, its error marked
/// with the position.
pub open spec fn scalar_spec(s: Seq<char>, field: Field, position: usize) -> Result<
    nat,
    DecodeError,
> {
    match parse_spec(s, true, field.modulus()) {
        Ok(v) => Ok(v),
        Err(e) => Err(DecodeError::Scalar { position, error: e }),
    }
}

/// `r` is the well-formed element of `field` that `expected` gives, or the
/// same error.
pub open spec fn scalar_as(
    r: Result<FieldElement, DecodeError>,
    expected: Result<nat, DecodeError>,
    field: Field,
) -> bool {
    match expected {
        Ok(v) => r.is_ok() && r.unwrap().wf() && r.unwrap().in_field() == field && r.unwrap()@ == v,
        Err(e) => r.is_err() && r.unwrap_err() == e,
    }
}

/// Decodes the scalar at `position` of a wire value: unsigned only.
pub fn decode_scalar(field: Field, s: &str, position: usize) -> (r: Result<
    FieldElement,
    DecodeError,
>)
    ensures
        scalar_as(r, scalar_spec(s@, field, position), field),
{
    match FieldElement::decode(field, s, true) {
        Ok(f) => Ok(f),
        Err(e) => Err(DecodeError::Scalar { position, error: e }),
    }
}

/// What a point of G1 in affine form decodes to. The identity is accepted as
/// it is; a finite point is held to the curve and the subgroup in checked mode
/// only.
pub open spec fn g1_from_affine_spec(curve: Curve, a: Option<(nat, nat)>, mode: ValidationMode) -> Result<
    Option<(nat, nat)>,
    DecodeError,
> {
    match a {
        None => Ok(None),
        Some(v) => if mode == ValidationMode::Unchecked {
            Ok(a)
        } else {
            match checked_verdict_spec(g1_on_curve(curve, v.0, v.1), g1_in_subgroup(curve, v.0, v.1)) {
                Ok(_) => Ok(a),
                Err(e) => Err(e),
            }
        },
    }
}

/// What a point of G2 in affine form decodes to.
pub open spec fn g2_from_affine_spec(
    curve: Curve,
    a: Option<((nat, nat), (nat, nat))>,
    mode: ValidationMode,
) -> Result<Option<((nat, nat), (nat, nat))>, DecodeError> {
    match a {
        None => Ok(None),
        Some(v) => if mode == ValidationMode::Unchecked {
            Ok(a)
        } else {
            match checked_verdict_spec(g2_on_curve(curve, v.0, v.1), g2_in_subgroup(curve, v.0, v.1)) {
                Ok(_) => Ok(a),
                Err(e) => Err(e),
            }
        },
    }
}

/// What the Jacobian triple `(x, y, z)` on G1 decodes to: its affine form,
/// validated.
pub open spec fn g1_from_projective_spec(
    curve: Curve,
    x: nat,
    y: nat,
    z: nat,
    mode: ValidationMode,
) -> Result<Option<(nat, nat)>, DecodeError> {
    g1_from_affine_spec(curve, g1_into_affine(curve, x, y, z), mode)
}

/// What the Jacobian triple `(x, y, z)` on G2 decodes to: its affine form,
/// validated.
pub open spec fn g2_from_projective_spec(
    curve: Curve,
    x: (nat, nat),
    y: (nat, nat),
    z: (nat, nat),
    mode: ValidationMode,
) -> Result<Option<((nat, nat), (nat, nat))>, DecodeError> {
    g2_from_affine_spec(curve, g2_into_affine(curve, x, y, z), mode)
}

/// What an array of coordinate texts decodes to on G1: exactly three texts,
/// each an unsigned canonical residue of the base field, read in order.
pub open spec fn g1_spec(curve: Curve, coords: Seq<Seq<char>>, mode: ValidationMode) -> Result<
    Option<(nat, nat)>,
    DecodeError,
> {
    if coords.len() < 3 {
        Err(DecodeError::MissingCoordinate { position: coords.len() as usize })
    } else if coords.len() > 3 {
        Err(DecodeError::UnexpectedTrailingElement)
    } else {
        match scalar_spec(coords[0], curve.base(), 0) {
            Err(e) => Err(e),
            Ok(x) => match scalar_spec(coords[1], curve.base(), 1) {
                Err(e) => Err(e),
                Ok(y) => match scalar_spec(coords[2], curve.base(), 2) {
                    Err(e) => Err(e),
                    Ok(z) => g1_from_projective_spec(curve, x, y, z, mode),
                },
            },
        }
    }
}

/// What a pair of texts decodes to in the quadratic extension, the first of
/// them being the scalar at `position`.
pub open spec fn fq2_spec(pair: Seq<Seq<char>>, field: Field, position: usize) -> Result<
    (nat, nat),
    DecodeError,
>
    recommends
        pair.len() == 2,
{
    match scalar_spec(pair[0], field, position) {
        Err(e) => Err(e),
        Ok(a) => match scalar_spec(pair[1], field, (position + 1) as usize) {
            Err(e) => Err(e),
            Ok(b) => Ok((a, b)),
        },
    }
}

/// What an array of coordinate arrays decodes to on G2: exactly three
/// arrays, each of exactly two unsigned canonical residues of the base field.
pub open spec fn g2_spec(curve: Curve, coords: Seq<Seq<Seq<char>>>, mode: ValidationMode) -> Result<
    Option<((nat, nat), (nat, nat))>,
    DecodeError,
> {
    if coords.len() < 3 {
        Err(DecodeError::MissingCoordinate { position: coords.len() as usize })
    } else if coords.len() > 3 {
        Err(DecodeError::UnexpectedTrailingElement)
    } else if coords[0].len() != 2 {
        Err(DecodeError::CoordinateArityError { coordinate: 0, found: coords[0].len() as usize })
    } else if coords[1].len() != 2 {
        Err(DecodeError::CoordinateArityError { coordinate: 1, found: coords[1].len() as usize })
    } else if coords[2].len() != 2 {
        Err(DecodeError::CoordinateArityError { coordinate: 2, found: coords[2].len() as usize })
    } else {
        match fq2_spec(coords[0], curve.base(), 0) {
            Err(e) => Err(e),
            Ok(x) => match fq2_spec(coords[1], curve.base(), 2) {
                Err(e) => Err(e),
                Ok(y) => match fq2_spec(coords[2], curve.base(), 4) {
                    Err(e) => Err(e),
                    Ok(z) => g2_from_projective_spec(curve, x, y, z, mode),
                },
            },
        }
    }
}

/// `r` is the well-formed G1 point that `expected` gives, or the same error.
pub open spec fn g1_as(
    r: Result<G1Affine, DecodeError>,
    expected: Result<Option<(nat, nat)>, DecodeError>,
    curve: Curve,
) -> bool {
    match expected {
        Ok(v) => r.is_ok() && r.unwrap().wf_on(curve) && r.unwrap()@ == v,
        Err(e) => r.is_err() && r.unwrap_err() == e,
    }
}

/// `r` is the well-formed G2 point that `expected` gives, or the same error.
pub open spec fn g2_as(
    r: Result<G2Affine, DecodeError>,
    expected: Result<Option<((nat, nat), (nat, nat))>, DecodeError>,
    curve: Curve,
) -> bool {
    match expected {
        Ok(v) => r.is_ok() && r.unwrap().wf_on(curve) && r.unwrap()@ == v,
        Err(e) => r.is_err() && r.unwrap_err() == e,
    }
}

/// The affine pair of a point, `None` for the identity.
pub open spec fn pair_view(a: Option<(FieldElement, FieldElement)>) -> Option<(nat, nat)> {
    match a {
        None => None,
        Some(v) => Some((v.0@, v.1@)),
    }
}

/// The affine pair of a point over the quadratic extension, `None` for the
/// identity.
pub open spec fn quad_view(a: Option<(Fq2, Fq2)>) -> Option<((nat, nat), (nat, nat))> {
    match a {
        None => None,
        Some(v) => Some((v.0@, v.1@)),
    }
}

/// The G1 point with the affine form `a` (`None` for the identity),
/// validated as `mode` asks: the identity is accepted without any test, a
/// finite point in checked mode only where it passes the curve equation and
/// then the subgroup test.
pub fn g1_from_affine(curve: Curve, a: Option<(FieldElement, FieldElement)>, mode: ValidationMode) -> (r:
    Result<G1Affine, DecodeError>)
    requires
        a.is_some() ==> a.unwrap().0.wf() && a.unwrap().1.wf() && a.unwrap().0.in_field()
            == curve.base() && a.unwrap().1.in_field() == curve.base(),
    ensures
        g1_as(r, g1_from_affine_spec(curve, pair_view(a), mode), curve),
{
    match a {
        None => Ok(G1Affine::Infinity),
        Some((x, y)) => {
            if mode == ValidationMode::Unchecked {
                return Ok(G1Affine::Finite { x, y });
            }
            let on_curve: bool = g1_is_on_curve(curve, &x, &y);
            let in_subgroup: bool = on_curve && g1_is_in_subgroup(curve, &x, &y);
            match checked_verdict(on_curve, in_subgroup) {
                Ok(_) => Ok(G1Affine::Finite { x, y }),
                Err(e) => Err(e),
            }
        },
    }
}

/// The G2 point with the affine form `a` (`None` for the identity),
/// validated as `mode` asks.
pub fn g2_from_affine(curve: Curve, a: Option<(Fq2, Fq2)>, mode: ValidationMode) -> (r: Result<
    G2Affine,
    DecodeError,
>)
    requires
        a.is_some() ==> a.unwrap().0.wf_in(curve.base()) && a.unwrap().1.wf_in(curve.base()),
    ensures
        g2_as(r, g2_from_affine_spec(curve, quad_view(a), mode), curve),
{
    match a {
        None => Ok(G2Affine::Infinity),
        Some((x, y)) => {
            if mode == ValidationMode::Unchecked {
                return Ok(G2Affine::Finite { x, y });
            }
            let on_curve: bool = g2_is_on_curve(curve, &x, &y);
            let in_subgroup: bool = on_curve && g2_is_in_subgroup(curve, &x, &y);
            match checked_verdict(on_curve, in_subgroup) {
                Ok(_) => Ok(G2Affine::Finite { x, y }),
                Err(e) => Err(e),
            }
        },
    }
}

/// The G1 point of the Jacobian triple `(x, y, z)`, validated as `mode` asks.
pub fn g1_from_projective(
    curve: Curve,
    x: &FieldElement,
    y: &FieldElement,
    z: &FieldElement,
    mode: ValidationMode,
) -> (r: Result<G1Affine, DecodeError>)
    requires
        x.in_field() == curve.base(),
        y.in_field() == curve.base(),
        z.in_field() == curve.base(),
    ensures
        g1_as(r, g1_from_projective_spec(curve, x@, y@, z@, mode), curve),
{
    g1_from_affine(curve, g1_normalize(curve, x, y, z), mode)
}

/// The G2 point of the Jacobian triple `(x, y, z)`, validated as `mode` asks.
pub fn g2_from_projective(curve: Curve, x: &Fq2, y: &Fq2, z: &Fq2, mode: ValidationMode) -> (r:
    Result<G2Affine, DecodeError>)
    requires
        x.wf_in(curve.base()),
        y.wf_in(curve.base()),
        z.wf_in(curve.base()),
    ensures
        g2_as(r, g2_from_projective_spec(curve, x@, y@, z@, mode), curve),
{
    g2_from_affine(curve, g2_normalize(curve, x, y, z), mode)
}

/// Decodes a G1 point from its array of three coordinate texts.
pub fn decode_g1(curve: Curve, coords: &Vec<String>, mode: ValidationMode) -> (r: Result<
    G1Affine,
    DecodeError,
>)
    ensures
        g1_as(r, g1_spec(curve, texts(coords@), mode), curve),
{
    let n: usize = coords.len();
    if n < 3 {
        return Err(DecodeError::MissingCoordinate { position: n });
    }
    if n > 3 {
        return Err(DecodeError::UnexpectedTrailingElement);
    }
    let field: Field = curve.base_field();
    let x = match decode_scalar(field, coords[0].as_str(), 0) {
        Ok(f) => f,
        Err(e) => {
            return Err(e);
        },
    };
    let y = match decode_scalar(field, coords[1].as_str(), 1) {
        Ok(f) => f,
        Err(e) => {
            return Err(e);
        },
    };
    let z = match decode_scalar(field, coords[2].as_str(), 2) {
        Ok(f) => f,
        Err(e) => {
            return Err(e);
        },
    };
    g1_from_projective(curve, &x, &y, &z, mode)
}

/// Decodes an element of the quadratic extension from its two texts, the
/// first of them being the scalar at `position`.
pub fn decode_fq2(field: Field, pair: &Vec<String>, position: usize) -> (r: Result<Fq2, DecodeError>)
    requires
        pair.len() == 2,
        position < usize::MAX,
    ensures
        match fq2_spec(texts(pair@), field, position) {
            Ok(v) => r.is_ok() && r.unwrap().wf_in(field) && r.unwrap()@ == v,
            Err(e) => r.is_err() && r.unwrap_err() == e,
        },
{
    let c0 = match decode_scalar(field, pair[0].as_str(), position) {
        Ok(f) => f,
        Err(e) => {
            return Err(e);
        },
    };
    let c1 = match decode_scalar(field, pair[1].as_str(), position + 1) {
        Ok(f) => f,
        Err(e) => {
            return Err(e);
        },
    };
    Ok(Fq2 { c0, c1 })
}

/// Decodes a G2 point from its array of three coordinate arrays.
pub fn decode_g2(curve: Curve, coords: &Vec<Vec<String>>, mode: ValidationMode) -> (r: Result<
    G2Affine,
    DecodeError,
>)
    ensures
        g2_as(r, g2_spec(curve, texts2(coords@), mode), curve),
{
    let n: usize = coords.len();
    if n < 3 {
        return Err(DecodeError::MissingCoordinate { position: n });
    }
    if n > 3 {
        return Err(DecodeError::UnexpectedTrailingElement);
    }
    if coords[0].len() != 2 {
        return Err(DecodeError::CoordinateArityError { coordinate: 0, found: coords[0].len() });
    }
    if coords[1].len() != 2 {
        return Err(DecodeError::CoordinateArityError { coordinate: 1, found: coords[1].len() });
    }
    if coords[2].len() != 2 {
        return Err(DecodeError::CoordinateArityError { coordinate: 2, found: coords[2].len() });
    }
    let field: Field = curve.base_field();
    let x = match decode_fq2(field, &coords[0], 0) {
        Ok(f) => f,
        Err(e) => {
            return Err(e);
        },
    };
    let y = match decode_fq2(field, &coords[1], 2) {
        Ok(f) => f,
        Err(e) => {
            return Err(e);
        },
    };
    let z = match decode_fq2(field, &coords[2], 4) {
        Ok(f) => f,
        Err(e) => {
            return Err(e);
        },
    };
    g2_from_projective(curve, &x, &y, &z, mode)
}

impl G1Affine {
    /// The three texts that spell the point: `x`, `y` and `1`, or the fixed
    /// triple `0`, `1`, `0` of the identity.
    pub open spec fn wire_texts(&self) -> Seq<Seq<char>> {
        match self {
            G1Affine::Infinity => seq!["0"@, "1"@, "0"@],
            G1Affine::Finite { x, y } => seq![x.text(), y.text(), "1"@],
        }
    }
}

impl Fq2 {
    /// The two texts that spell the element.
    pub open spec fn wire_texts(&self) -> Seq<Seq<char>> {
        seq![self.c0.text(), self.c1.text()]
    }
}

impl G2Affine {
    /// The three pairs of texts that spell the point: `x`, `y` and one, or
    /// the fixed triple zero, one, zero of the identity.
    pub open spec fn wire_texts(&self) -> Seq<Seq<Seq<char>>> {
        match self {
            G2Affine::Infinity => seq![seq!["0"@, "0"@], seq!["1"@, "0"@], seq!["0"@, "0"@]],
            G2Affine::Finite { x, y } => seq![x.wire_texts(), y.wire_texts(), seq!["1"@, "0"@]],
        }
    }
}

/// Encodes a G1 point as its array of three coordinate texts.
pub fn encode_g1(p: &G1Affine) -> (r: Vec<String>)
    ensures
        texts(r@) == p.wire_texts(),
{
    let r = match p {
        G1Affine::Infinity => vec!["0".to_owned(), "1".to_owned(), "0".to_owned()],
        G1Affine::Finite { x, y } => vec![x.encode(), y.encode(), "1".to_owned()],
    };
    assert(texts(r@) =~= p.wire_texts());
    r
}

/// Encodes an element of the quadratic extension as its two texts.
pub fn encode_fq2(e: &Fq2) -> (r: Vec<String>)
    ensures
        texts(r@) == e.wire_texts(),
{
    let r = vec![e.c0.encode(), e.c1.encode()];
    assert(texts(r@) =~= e.wire_texts());
    r
}

/// Encodes a G2 point as its array of three pairs of texts.
pub fn encode_g2(p: &G2Affine) -> (r: Vec<Vec<String>>)
    ensures
        texts2(r@) == p.wire_texts(),
{
    let zero = vec!["0".to_owned(), "0".to_owned()];
    let one = vec!["1".to_owned(), "0".to_owned()];
    assert(texts(zero@) =~= seq!["0"@, "0"@]);
    assert(texts(one@) =~= seq!["1"@, "0"@]);
    let r = match p {
        G2Affine::Infinity => {
            let again = vec!["0".to_owned(), "0".to_owned()];
            assert(texts(again@) =~= seq!["0"@, "0"@]);
            vec![zero, one, again]
        },
        G2Affine::Finite { x, y } => vec![encode_fq2(x), encode_fq2(y), one],
    };
    assert(texts2(r@) =~= p.wire_texts());
    r
}

/// What one entry of a sequence of G1 points decodes to: an entry that does
/// not hold three texts is refused with the number that it holds.
pub open spec fn g1_element_spec(curve: Curve, coords: Seq<Seq<char>>, mode: ValidationMode) -> Result<
    Option<(nat, nat)>,
    DecodeError,
> {
    if coords.len() != 3 {
        Err(DecodeError::LengthMismatch { expected: 3, found: coords.len() as usize })
    } else {
        g1_spec(curve, coords, mode)
    }
}

/// `r` is what decoding the entries `items` in order owes: all points, each
/// as its entry spells it and as many as `size` asks for, or the first entry
/// that is refused with its index and error; a count that is not met is
/// reported last, under the index behind the last entry.
pub open spec fn g1_sequence_as(
    r: Result<Vec<G1Affine>, ElementError>,
    curve: Curve,
    items: Seq<Vec<String>>,
    size: Option<usize>,
    mode: ValidationMode,
) -> bool {
    match r {
        Ok(v) => v.len() == items.len() && (size.is_some() ==> size.unwrap() == items.len())
            && forall|i: int|
            0 <= i < items.len() ==> g1_as(
                Ok(#[trigger] v[i]),
                g1_element_spec(curve, texts(items[i]@), mode),
                curve,
            ),
        Err(e) => e.index <= items.len() && (forall|j: int|
            0 <= j < e.index ==> (#[trigger] g1_element_spec(curve, texts(items[j]@), mode)).is_ok())
            && if e.index < items.len() {
            g1_element_spec(curve, texts(items[e.index as int]@), mode) == Err::<
                Option<(nat, nat)>,
                DecodeError,
            >(e.error)
        } else {
            size.is_some() && size.unwrap() != items.len() && e.error == (
            DecodeError::LengthMismatch { expected: size.unwrap(), found: items.len() as usize })
        },
    }
}

/// Decodes a sequence of G1 points, entry by entry until the input ends. The
/// first entry that is refused ends the decoding, and the error names it.
/// Where `size` is given and the sequence holds another number of entries,
/// that is reported last, under the index behind the last entry.
pub fn decode_g1_sequence(
    curve: Curve,
    items: &Vec<Vec<String>>,
    size: Option<usize>,
    mode: ValidationMode,
) -> (r: Result<Vec<G1Affine>, ElementError>)
    ensures
        g1_sequence_as(r, curve, items@, size, mode),
{
    let mut out: Vec<G1Affine> = Vec::new();
    let mut i: usize = 0;
    while i < items.len()
        invariant
            i <= items.len(),
            out.len() == i,
            forall|k: int|
                0 <= k < i ==> g1_as(
                    Ok(#[trigger] out[k]),
                    g1_element_spec(curve, texts(items[k]@), mode),
                    curve,
                ),
            forall|k: int|
                0 <= k < i ==> (#[trigger] g1_element_spec(curve, texts(items[k]@), mode)).is_ok(),
        decreases items.len() - i,
    {
        let coords: &Vec<String> = &items[i];
        if coords.len() != 3 {
            return Err(
                ElementError {
                    index: i,
                    error: DecodeError::LengthMismatch { expected: 3, found: coords.len() },
                },
            );
        }
        match decode_g1(curve, coords, mode) {
            Ok(p) => {
                out.push(p);
            },
            Err(e) => {
                return Err(ElementError { index: i, error: e });
            },
        }
        i = i + 1;
    }
    match size {
        Some(n) => {
            if n != out.len() {
                return Err(
                    ElementError {
                        index: i,
                        error: DecodeError::LengthMismatch { expected: n, found: out.len() },
                    },
                );
            }
        },
        None => {},
    }
    Ok(out)
}

/// Encodes a sequence of G1 points, each as its array of three texts.
pub fn encode_g1_sequence(ps: &Vec<G1Affine>) -> (r: Vec<Vec<String>>)
    ensures
        r.len() == ps.len(),
        forall|i: int| 0 <= i < ps.len() ==> texts(#[trigger] r[i]@) == ps[i].wire_texts(),
{
    let mut out: Vec<Vec<String>> = Vec::new();
    let mut i: usize = 0;
    while i < ps.len()
        invariant
            i <= ps.len(),
            out.len() == i,
            forall|k: int| 0 <= k < i ==> texts(#[trigger] out[k]@) == ps[k].wire_texts(),
        decreases ps.len() - i,
    {
        out.push(encode_g1(&ps[i]));
        i = i + 1;
    }
    out
}

/// The texts `0` and `1` spell the residues zero and one of every field.
pub proof fn lemma_zero_one(field: Field, position: usize)
    ensures
        scalar_spec("0"@, field, position) == Ok::<nat, DecodeError>(0),
        scalar_spec("1"@, field, position) == Ok::<nat, DecodeError>(1),
{
    field.lemma_modulus_canonical();
    crate::parse::lemma_zero_spellings(true, field.modulus());
    reveal_strlit("1");
    assert("1"@ =~= seq!['1']);
    crate::parse::lemma_single_digit_value('1');
    crate::parse::lemma_canonical_round_trip(seq!['1'], true, field.modulus());
}

/// The text of a well-formed element is read back as its value.
pub proof fn lemma_scalar_round_trip(f: FieldElement, position: usize)
    requires
        f.wf(),
    ensures
        scalar_spec(f.text(), f.in_field(), position) == Ok::<nat, DecodeError>(f@),
{
    f.lemma_encode_decode(true);
}

/// Infinity: the fixed triple `0`, `1`, `0` decodes to the identity of G1 in
/// either mode, whatever the curve equation says of its coordinates.
pub proof fn lemma_g1_infinity(curve: Curve, mode: ValidationMode)
    ensures
        g1_spec(curve, G1Affine::Infinity.wire_texts(), mode) == Ok::<
            Option<(nat, nat)>,
            DecodeError,
        >(None),
{
    lemma_zero_one(curve.base(), 0);
    lemma_zero_one(curve.base(), 1);
    lemma_zero_one(curve.base(), 2);
}

/// Infinity on G2: the fixed triple of pairs decodes to the identity in either
/// mode.
pub proof fn lemma_g2_infinity(curve: Curve, mode: ValidationMode)
    ensures
        g2_spec(curve, G2Affine::Infinity.wire_texts(), mode) == Ok::<
            Option<((nat, nat), (nat, nat))>,
            DecodeError,
        >(None),
{
    lemma_zero_one(curve.base(), 0);
    lemma_zero_one(curve.base(), 1);
    lemma_zero_one(curve.base(), 2);
    lemma_zero_one(curve.base(), 3);
    lemma_zero_one(curve.base(), 4);
    lemma_zero_one(curve.base(), 5);
}

/// Round trip on G1: what `encode_g1` gives for a finite point other than the
/// pair (0, 0) decodes to that point in unchecked mode, and in checked mode
/// where the point lies on the curve and in the subgroup.
pub proof fn lemma_g1_round_trip(curve: Curve, p: G1Affine, mode: ValidationMode)
    requires
        p.wf_on(curve),
        p@.is_some(),
        p@.unwrap() != (0nat, 0nat),
        mode == ValidationMode::Checked ==> g1_on_curve(curve, p@.unwrap().0, p@.unwrap().1)
            && g1_in_subgroup(curve, p@.unwrap().0, p@.unwrap().1),
    ensures
        g1_spec(curve, p.wire_texts(), mode) == Ok::<Option<(nat, nat)>, DecodeError>(p@),
{
    match p {
        G1Affine::Infinity => {},
        G1Affine::Finite { x, y } => {
            lemma_scalar_round_trip(x, 0);
            lemma_scalar_round_trip(y, 1);
            lemma_zero_one(curve.base(), 2);
        },
    }
}

/// Round trip on G2, under the same conditions.
pub proof fn lemma_g2_round_trip(curve: Curve, p: G2Affine, mode: ValidationMode)
    requires
        p.wf_on(curve),
        p@.is_some(),
        !(p@.unwrap().0 == (0nat, 0nat) && p@.unwrap().1 == (0nat, 0nat)),
        mode == ValidationMode::Checked ==> g2_on_curve(curve, p@.unwrap().0, p@.unwrap().1)
            && g2_in_subgroup(curve, p@.unwrap().0, p@.unwrap().1),
    ensures
        g2_spec(curve, p.wire_texts(), mode) == Ok::<
            Option<((nat, nat), (nat, nat))>,
            DecodeError,
        >(p@),
{
    match p {
        G2Affine::Infinity => {},
        G2Affine::Finite { x, y } => {
            lemma_scalar_round_trip(x.c0, 0);
            lemma_scalar_round_trip(x.c1, 1);
            lemma_scalar_round_trip(y.c0, 2);
            lemma_scalar_round_trip(y.c1, 3);
            lemma_zero_one(curve.base(), 4);
            lemma_zero_one(curve.base(), 5);
        },
    }
}

/// Validation: a well-formed triple whose point is finite and off the curve
/// is refused as a curve violation in checked mode, and decodes to that very
/// point in unchecked mode.
pub proof fn lemma_g1_off_curve(curve: Curve, coords: Seq<Seq<char>>, x: nat, y: nat, z: nat)
    requires
        coords.len() == 3,
        scalar_spec(coords[0], curve.base(), 0) == Ok::<nat, DecodeError>(x),
        scalar_spec(coords[1], curve.base(), 1) == Ok::<nat, DecodeError>(y),
        scalar_spec(coords[2], curve.base(), 2) == Ok::<nat, DecodeError>(z),
        g1_into_affine(curve, x, y, z).is_some(),
        !g1_on_curve(
            curve,
            g1_into_affine(curve, x, y, z).unwrap().0,
            g1_into_affine(curve, x, y, z).unwrap().1,
        ),
    ensures
        g1_spec(curve, coords, ValidationMode::Checked) == Err::<Option<(nat, nat)>, DecodeError>(
            DecodeError::CurveViolation,
        ),
        g1_spec(curve, coords, ValidationMode::Unchecked) == Ok::<Option<(nat, nat)>, DecodeError>(
            g1_into_affine(curve, x, y, z),
        ),
{
}

/// Validation on G2, in the same words.
pub proof fn lemma_g2_off_curve(
    curve: Curve,
    coords: Seq<Seq<Seq<char>>>,
    x: (nat, nat),
    y: (nat, nat),
    z: (nat, nat),
)
    requires
        coords.len() == 3,
        coords[0].len() == 2,
        coords[1].len() == 2,
        coords[2].len() == 2,
        fq2_spec(coords[0], curve.base(), 0) == Ok::<(nat, nat), DecodeError>(x),
        fq2_spec(coords[1], curve.base(), 2) == Ok::<(nat, nat), DecodeError>(y),
        fq2_spec(coords[2], curve.base(), 4) == Ok::<(nat, nat), DecodeError>(z),
        g2_into_affine(curve, x, y, z).is_some(),
        !g2_on_curve(
            curve,
            g2_into_affine(curve, x, y, z).unwrap().0,
            g2_into_affine(curve, x, y, z).unwrap().1,
        ),
    ensures
        g2_spec(curve, coords, ValidationMode::Checked) == Err::<
            Option<((nat, nat), (nat, nat))>,
            DecodeError,
        >(DecodeError::CurveViolation),
        g2_spec(curve, coords, ValidationMode::Unchecked) == Ok::<
            Option<((nat, nat), (nat, nat))>,
            DecodeError,
        >(g2_into_affine(curve, x, y, z)),
{
}

/// Shape: of three coordinate arrays, the first that does not hold exactly
/// two texts is reported with the number that it holds, whatever the texts
/// are.
pub proof fn lemma_g2_arity(curve: Curve, coords: Seq<Seq<Seq<char>>>, mode: ValidationMode, k: int)
    requires
        coords.len() == 3,
        0 <= k < 3,
        coords[k].len() != 2,
        forall|j: int| 0 <= j < k ==> (#[trigger] coords[j]).len() == 2,
    ensures
        g2_spec(curve, coords, mode) == Err::<Option<((nat, nat), (nat, nat))>, DecodeError>(
            DecodeError::CoordinateArityError {
                coordinate: k as usize,
                found: coords[k].len() as usize,
            },
        ),
{
    if k >= 1 {
        assert(coords[0].len() == 2);
    }
    if k >= 2 {
        assert(coords[1].len() == 2);
    }
}

/// Shape of a sequence: an entry that does not hold exactly three texts is
/// refused as a length mismatch that reports the number of texts it holds,
/// whatever the texts are.
pub proof fn lemma_g1_entry_length(curve: Curve, coords: Seq<Seq<char>>, mode: ValidationMode)
    requires
        coords.len() != 3,
    ensures
        g1_element_spec(curve, coords, mode) == Err::<Option<(nat, nat)>, DecodeError>(
            DecodeError::LengthMismatch { expected: 3, found: coords.len() as usize },
        ),
{
}

} // verus!
