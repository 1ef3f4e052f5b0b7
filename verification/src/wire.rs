//! The format dispatcher: every value goes out, and comes in, either in the
//! readable form of decimal texts or in the compact form of bytes.

use crate::binary::{
    edwards_bytes, edwards_from_bytes_checked, edwards_from_bytes_unchecked, field_byte_size,
    field_from_bytes, field_size, g1_bytes, g1_from_bytes_checked, g1_from_bytes_unchecked,
    g2_bytes, g2_from_bytes_checked, g2_from_bytes_unchecked, gt_from_bytes, is_field_bytes,
    gt_entry, is_gt_bytes, le_bytes_value, lemma_field_bytes_round_trip,
    lemma_gt_bytes_round_trip,
};
use crate::curve::{Curve, Fq2};
use crate::edwards::{
    decode_edwards, decode_edwards_sequence, edwards_as, edwards_sequence_as, edwards_spec,
    encode_edwards, encode_edwards_sequence, EdwardsAffine,
};
use crate::error::{DecodeError, ElementError, SequenceError, ValidationMode};
use crate::field::{
    decode_sequence, decoded_as, encode_sequence, field_sequence_as, lemma_zero_one_texts, Field,
    FieldElement,
};
use crate::frame::{
    count_bytes, count_of, entry, frame, framed, join, lemma_concat_entry, lemma_concat_len,
    lemma_count_round_trip, lemma_split_framed, parts_view, split, split_spec,
};
use crate::parse::parse_spec;
use crate::point::{
    decode_g1, decode_g1_sequence, decode_g2, encode_g1, encode_g1_sequence, encode_g2, g1_as,
    g1_sequence_as, g1_spec, g2_as, g2_spec, G1Affine, G2Affine,
};
use crate::text::{texts, texts2, texts3};
use crate::tower::{decode_gt, encode_gt, gt_spec, Fq12, Fq6};
use vstd::prelude::*;

verus! {

/// A value on the wire: in the readable form, of the shape `T`, or in the
/// compact form.
#[derive(Debug, Clone, PartialEq, Eq)]
pub enum Wire<T> {
    /// Decimal texts and arrays of them.
    Readable(T),
    /// The canonical compressed bytes of the arithmetic library.
    Binary(Vec<u8>),
}

/// The compressed bytes of a field element.
pub fn field_to_bytes(f: &FieldElement) -> (r: Vec<u8>)
    ensures
        is_field_bytes(f.in_field(), f@, r@),
        field_from_bytes(f.in_field(), r@) == Some(f@),
{
    let r = match f.field() {
        Field::Bn254Fr => crate::binary::bn254_fr_to_bytes(f.as_str()),
        Field::Bn254Fq => crate::binary::bn254_fq_to_bytes(f.as_str()),
        Field::BabyJubJubFr => crate::binary::babyjubjub_fr_to_bytes(f.as_str()),
        Field::Bls12381Fr => crate::binary::bls12_381_fr_to_bytes(f.as_str()),
        Field::Bls12381Fq => crate::binary::bls12_381_fq_to_bytes(f.as_str()),
    };
    proof {
        lemma_field_bytes_round_trip(f.in_field(), f@, r@);
    }
    r
}

/// What compressed bytes decode to as an element of `field`.
pub open spec fn field_binary_spec(field: Field, bytes: Seq<u8>) -> Result<nat, DecodeError> {
    match field_from_bytes(field, bytes) {
        Some(v) => Ok(v),
        None => Err(DecodeError::InvalidEncoding),
    }
}

/// `r` is the well-formed element of `field` that `expected` gives, or the
/// same error.
pub open spec fn field_as(
    r: Result<FieldElement, DecodeError>,
    expected: Result<nat, DecodeError>,
    field: Field,
) -> bool {
    match expected {
        Ok(v) => r.is_ok() && r.unwrap().wf() && r.unwrap().in_field() == field && r.unwrap()@ == v,
        Err(e) => r.is_err() && r.unwrap_err() == e,
    }
}

/// The element of `field` that the arithmetic library reads from the front
/// of `bytes`.
pub fn field_from_binary(field: Field, bytes: &[u8]) -> (r: Result<FieldElement, DecodeError>)
    ensures
        field_as(r, field_binary_spec(field, bytes@), field),
{
    let text = match field {
        Field::Bn254Fr => crate::binary::bn254_fr_from_bytes(bytes),
        Field::Bn254Fq => crate::binary::bn254_fq_from_bytes(bytes),
        Field::BabyJubJubFr => crate::binary::babyjubjub_fr_from_bytes(bytes),
        Field::Bls12381Fr => crate::binary::bls12_381_fr_from_bytes(bytes),
        Field::Bls12381Fq => crate::binary::bls12_381_fq_from_bytes(bytes),
    };
    match text {
        Ok(t) => Ok(FieldElement::from_residue_text(field, t)),
        Err(_) => Err(DecodeError::InvalidEncoding),
    }
}

/// What a wire value decodes to as an element of `field`: a text under the
/// parser's rules, bytes as the arithmetic library reads them.
pub open spec fn field_wire_spec(field: Field, w: Wire<String>, unsigned: bool) -> Result<
    nat,
    DecodeError,
> {
    match w {
        Wire::Readable(s) => match parse_spec(s@, unsigned, field.modulus()) {
            Ok(v) => Ok(v),
            Err(e) => Err(DecodeError::Scalar { position: 0, error: e }),
        },
        Wire::Binary(b) => field_binary_spec(field, b@),
    }
}

/// Serializes a field element: as its canonical decimal text where the
/// format is readable, else as its compressed bytes. Either way every
/// decoder of this module reads the element's value back.
pub fn serialize_f(f: &FieldElement, human_readable: bool) -> (r: Wire<String>)
    ensures
        human_readable ==> (r matches Wire::Readable(s) && s@ == f.text()),
        !human_readable ==> (r matches Wire::Binary(b) && is_field_bytes(f.in_field(), f@, b@)),
        field_wire_spec(f.in_field(), r, true) == Ok::<nat, DecodeError>(f@),
        field_wire_spec(f.in_field(), r, false) == Ok::<nat, DecodeError>(f@),
{
    if human_readable {
        let text: String = f.encode();
        proof {
            f.lemma_encode_decode(true);
            f.lemma_encode_decode(false);
        }
        Wire::Readable(text)
    } else {
        Wire::Binary(field_to_bytes(f))
    }
}

/// Deserializes a field element of `field`. A text is read unsigned: one
/// that starts with `-` is refused.
pub fn deserialize_f(field: Field, w: &Wire<String>) -> (r: Result<FieldElement, DecodeError>)
    ensures
        field_as(r, field_wire_spec(field, *w, true), field),
{
    deserialize_f_with(field, w, true)
}

/// Deserializes a field element of `field`. A text may be signed: `-v`
/// stands for `p - v`, so that two texts spell each residue but zero's.
pub fn deserialize_f_signed(field: Field, w: &Wire<String>) -> (r: Result<FieldElement, DecodeError>)
    ensures
        field_as(r, field_wire_spec(field, *w, false), field),
{
    deserialize_f_with(field, w, false)
}

/// Deserializes a field element of `field`, texts being read as `unsigned`
/// says.
pub fn deserialize_f_with(field: Field, w: &Wire<String>, unsigned: bool) -> (r: Result<
    FieldElement,
    DecodeError,
>)
    ensures
        field_as(r, field_wire_spec(field, *w, unsigned), field),
{
    match w {
        Wire::Readable(s) => match FieldElement::decode(field, s.as_str(), unsigned) {
            Ok(f) => Ok(f),
            Err(e) => Err(DecodeError::Scalar { position: 0, error: e }),
        },
        Wire::Binary(b) => field_from_binary(field, b.as_slice()),
    }
}

/// The compressed bytes of a G1 point; the identity goes as the pair (0, 0).
pub open spec fn g1_point_bytes(curve: Curve, v: Option<(nat, nat)>) -> Seq<u8> {
    match v {
        None => g1_bytes(curve, 0, 0),
        Some(a) => g1_bytes(curve, a.0, a.1),
    }
}

/// The compressed bytes of a G2 point; the identity goes as the pair of
/// zeros.
pub open spec fn g2_point_bytes(curve: Curve, v: Option<((nat, nat), (nat, nat))>) -> Seq<u8> {
    match v {
        None => g2_bytes(curve, (0, 0), (0, 0)),
        Some(a) => g2_bytes(curve, a.0, a.1),
    }
}

/// What compressed bytes decode to on G1: the arithmetic library decodes and,
/// in checked mode, validates; the pair (0, 0) is the identity.
pub open spec fn g1_binary_spec(curve: Curve, bytes: Seq<u8>, mode: ValidationMode) -> Result<
    Option<(nat, nat)>,
    DecodeError,
> {
    let read = if mode == ValidationMode::Checked {
        g1_from_bytes_checked(curve, bytes)
    } else {
        g1_from_bytes_unchecked(curve, bytes)
    };
    match read {
        None => Err(DecodeError::InvalidEncoding),
        Some(a) => if a == (0nat, 0nat) {
            Ok(None)
        } else {
            Ok(Some(a))
        },
    }
}

/// What compressed bytes decode to on G2.
pub open spec fn g2_binary_spec(curve: Curve, bytes: Seq<u8>, mode: ValidationMode) -> Result<
    Option<((nat, nat), (nat, nat))>,
    DecodeError,
> {
    let read = if mode == ValidationMode::Checked {
        g2_from_bytes_checked(curve, bytes)
    } else {
        g2_from_bytes_unchecked(curve, bytes)
    };
    match read {
        None => Err(DecodeError::InvalidEncoding),
        Some(a) => if a.0 == (0nat, 0nat) && a.1 == (0nat, 0nat) {
            Ok(None)
        } else {
            Ok(Some(a))
        },
    }
}

/// The compressed bytes of a G1 point of `curve`.
pub fn g1_to_bytes(curve: Curve, p: &G1Affine) -> (r: Vec<u8>)
    requires
        p.wf_on(curve),
    ensures
        r@ == g1_point_bytes(curve, p@),
{
    proof {
        lemma_zero_one_texts(curve.base());
    }
    match p {
        G1Affine::Infinity => match curve {
            Curve::Bn254 => crate::binary::bn254_g1_to_bytes("0", "0"),
            Curve::Bls12381 => crate::binary::bls12_381_g1_to_bytes("0", "0"),
        },
        G1Affine::Finite { x, y } => match curve {
            Curve::Bn254 => crate::binary::bn254_g1_to_bytes(x.as_str(), y.as_str()),
            Curve::Bls12381 => crate::binary::bls12_381_g1_to_bytes(x.as_str(), y.as_str()),
        },
    }
}

/// The G1 point of `curve` that the arithmetic library reads from the front
/// of `bytes`, validated by it as `mode` asks.
pub fn g1_from_binary(curve: Curve, bytes: &[u8], mode: ValidationMode) -> (r: Result<
    G1Affine,
    DecodeError,
>)
    ensures
        g1_as(r, g1_binary_spec(curve, bytes@, mode), curve),
{
    let read = match curve {
        Curve::Bn254 => match mode {
            ValidationMode::Checked => crate::binary::bn254_g1_from_bytes_checked(bytes),
            ValidationMode::Unchecked => crate::binary::bn254_g1_from_bytes_unchecked(bytes),
        },
        Curve::Bls12381 => match mode {
            ValidationMode::Checked => crate::binary::bls12_381_g1_from_bytes_checked(bytes),
            ValidationMode::Unchecked => crate::binary::bls12_381_g1_from_bytes_unchecked(bytes),
        },
    };
    match read {
        Err(_) => Err(DecodeError::InvalidEncoding),
        Ok((a, b)) => {
            let field: Field = curve.base_field();
            let x = FieldElement::from_residue_text(field, a);
            let y = FieldElement::from_residue_text(field, b);
            if x.is_zero() && y.is_zero() {
                Ok(G1Affine::Infinity)
            } else {
                Ok(G1Affine::Finite { x, y })
            }
        },
    }
}

/// The compressed bytes of a G2 point of `curve`.
pub fn g2_to_bytes(curve: Curve, p: &G2Affine) -> (r: Vec<u8>)
    requires
        p.wf_on(curve),
    ensures
        r@ == g2_point_bytes(curve, p@),
{
    proof {
        lemma_zero_one_texts(curve.base());
    }
    match p {
        G2Affine::Infinity => match curve {
            Curve::Bn254 => crate::binary::bn254_g2_to_bytes("0", "0", "0", "0"),
            Curve::Bls12381 => crate::binary::bls12_381_g2_to_bytes("0", "0", "0", "0"),
        },
        G2Affine::Finite { x, y } => match curve {
            Curve::Bn254 => crate::binary::bn254_g2_to_bytes(
                x.c0.as_str(),
                x.c1.as_str(),
                y.c0.as_str(),
                y.c1.as_str(),
            ),
            Curve::Bls12381 => crate::binary::bls12_381_g2_to_bytes(
                x.c0.as_str(),
                x.c1.as_str(),
                y.c0.as_str(),
                y.c1.as_str(),
            ),
        },
    }
}

/// The G2 point of `curve` that the arithmetic library reads from the front
/// of `bytes`, validated by it as `mode` asks.
pub fn g2_from_binary(curve: Curve, bytes: &[u8], mode: ValidationMode) -> (r: Result<
    G2Affine,
    DecodeError,
>)
    ensures
        g2_as(r, g2_binary_spec(curve, bytes@, mode), curve),
{
    let read = match curve {
        Curve::Bn254 => match mode {
            ValidationMode::Checked => crate::binary::bn254_g2_from_bytes_checked(bytes),
            ValidationMode::Unchecked => crate::binary::bn254_g2_from_bytes_unchecked(bytes),
        },
        Curve::Bls12381 => match mode {
            ValidationMode::Checked => crate::binary::bls12_381_g2_from_bytes_checked(bytes),
            ValidationMode::Unchecked => crate::binary::bls12_381_g2_from_bytes_unchecked(bytes),
        },
    };
    match read {
        Err(_) => Err(DecodeError::InvalidEncoding),
        Ok((a, b, c, d)) => {
            let field: Field = curve.base_field();
            let x = Fq2 {
                c0: FieldElement::from_residue_text(field, a),
                c1: FieldElement::from_residue_text(field, b),
            };
            let y = Fq2 {
                c0: FieldElement::from_residue_text(field, c),
                c1: FieldElement::from_residue_text(field, d),
            };
            if x.c0.is_zero() && x.c1.is_zero() && y.c0.is_zero() && y.c1.is_zero() {
                Ok(G2Affine::Infinity)
            } else {
                Ok(G2Affine::Finite { x, y })
            }
        },
    }
}

/// What a wire value decodes to on G1.
pub open spec fn g1_wire_spec(curve: Curve, w: Wire<Vec<String>>, mode: ValidationMode) -> Result<
    Option<(nat, nat)>,
    DecodeError,
> {
    match w {
        Wire::Readable(c) => g1_spec(curve, texts(c@), mode),
        Wire::Binary(b) => g1_binary_spec(curve, b@, mode),
    }
}

/// What a wire value decodes to on G2.
pub open spec fn g2_wire_spec(curve: Curve, w: Wire<Vec<Vec<String>>>, mode: ValidationMode) -> Result<
    Option<((nat, nat), (nat, nat))>,
    DecodeError,
> {
    match w {
        Wire::Readable(c) => g2_spec(curve, texts2(c@), mode),
        Wire::Binary(b) => g2_binary_spec(curve, b@, mode),
    }
}

/// Serializes a G1 point: as its three coordinate texts where the format is
/// readable, else as its compressed bytes.
pub fn serialize_g1(curve: Curve, p: &G1Affine, human_readable: bool) -> (r: Wire<Vec<String>>)
    requires
        p.wf_on(curve),
    ensures
        human_readable ==> (r matches Wire::Readable(c) && texts(c@) == p.wire_texts()),
        !human_readable ==> (r matches Wire::Binary(b) && b@ == g1_point_bytes(curve, p@)),
{
    if human_readable {
        Wire::Readable(encode_g1(p))
    } else {
        Wire::Binary(g1_to_bytes(curve, p))
    }
}

/// Deserializes a G1 point, validated as `mode` asks.
pub fn deserialize_g1(curve: Curve, w: &Wire<Vec<String>>, mode: ValidationMode) -> (r: Result<
    G1Affine,
    DecodeError,
>)
    ensures
        g1_as(r, g1_wire_spec(curve, *w, mode), curve),
{
    match w {
        Wire::Readable(c) => decode_g1(curve, c, mode),
        Wire::Binary(b) => g1_from_binary(curve, b.as_slice(), mode),
    }
}

/// Serializes a G2 point: as its three pairs of texts where the format is
/// readable, else as its compressed bytes.
pub fn serialize_g2(curve: Curve, p: &G2Affine, human_readable: bool) -> (r: Wire<Vec<Vec<String>>>)
    requires
        p.wf_on(curve),
    ensures
        human_readable ==> (r matches Wire::Readable(c) && texts2(c@) == p.wire_texts()),
        !human_readable ==> (r matches Wire::Binary(b) && b@ == g2_point_bytes(curve, p@)),
{
    if human_readable {
        Wire::Readable(encode_g2(p))
    } else {
        Wire::Binary(g2_to_bytes(curve, p))
    }
}

/// Deserializes a G2 point, validated as `mode` asks.
pub fn deserialize_g2(curve: Curve, w: &Wire<Vec<Vec<String>>>, mode: ValidationMode) -> (r: Result<
    G2Affine,
    DecodeError,
>)
    ensures
        g2_as(r, g2_wire_spec(curve, *w, mode), curve),
{
    match w {
        Wire::Readable(c) => decode_g2(curve, c, mode),
        Wire::Binary(b) => g2_from_binary(curve, b.as_slice(), mode),
    }
}

/// What compressed bytes decode to on BabyJubJub.
pub open spec fn edwards_binary_spec(bytes: Seq<u8>, mode: ValidationMode) -> Result<
    (nat, nat),
    DecodeError,
> {
    let read = if mode == ValidationMode::Checked {
        edwards_from_bytes_checked(bytes)
    } else {
        edwards_from_bytes_unchecked(bytes)
    };
    match read {
        None => Err(DecodeError::InvalidEncoding),
        Some(a) => Ok(a),
    }
}

/// What a wire value decodes to on BabyJubJub.
pub open spec fn edwards_wire_spec(w: Wire<Vec<String>>, mode: ValidationMode) -> Result<
    (nat, nat),
    DecodeError,
> {
    match w {
        Wire::Readable(c) => edwards_spec(texts(c@), mode),
        Wire::Binary(b) => edwards_binary_spec(b@, mode),
    }
}

/// The BabyJubJub point that the arithmetic library reads from the front of
/// `bytes`, validated by it as `mode` asks.
pub fn edwards_from_binary(bytes: &[u8], mode: ValidationMode) -> (r: Result<
    EdwardsAffine,
    DecodeError,
>)
    ensures
        edwards_as(r, edwards_binary_spec(bytes@, mode)),
{
    let read = match mode {
        ValidationMode::Checked => crate::binary::babyjubjub_from_bytes_checked(bytes),
        ValidationMode::Unchecked => crate::binary::babyjubjub_from_bytes_unchecked(bytes),
    };
    match read {
        Err(_) => Err(DecodeError::InvalidEncoding),
        Ok((a, b)) => Ok(
            EdwardsAffine {
                x: FieldElement::from_residue_text(Field::Bn254Fr, a),
                y: FieldElement::from_residue_text(Field::Bn254Fr, b),
            },
        ),
    }
}

/// Serializes a BabyJubJub point: as its two coordinate texts where the
/// format is readable, else as its compressed bytes.
pub fn serialize_edwards(p: &EdwardsAffine, human_readable: bool) -> (r: Wire<Vec<String>>)
    requires
        p.wf(),
    ensures
        human_readable ==> (r matches Wire::Readable(c) && texts(c@) == p.wire_texts()),
        !human_readable ==> (r matches Wire::Binary(b) && b@ == edwards_bytes(p@.0, p@.1)),
{
    if human_readable {
        Wire::Readable(encode_edwards(p))
    } else {
        Wire::Binary(crate::binary::babyjubjub_to_bytes(p.x.as_str(), p.y.as_str()))
    }
}

/// Deserializes a BabyJubJub point, validated as `mode` asks.
pub fn deserialize_edwards(w: &Wire<Vec<String>>, mode: ValidationMode) -> (r: Result<
    EdwardsAffine,
    DecodeError,
>)
    ensures
        edwards_as(r, edwards_wire_spec(*w, mode)),
{
    match w {
        Wire::Readable(c) => decode_edwards(c, mode),
        Wire::Binary(b) => edwards_from_binary(b.as_slice(), mode),
    }
}

/// The twelve scalars of a pairing-target element, in the order of the
/// nested array.
pub open spec fn gt_scalars(
    v: (((nat, nat), (nat, nat), (nat, nat)), ((nat, nat), (nat, nat), (nat, nat))),
) -> Seq<nat> {
    seq![
        v.0.0.0,
        v.0.0.1,
        v.0.1.0,
        v.0.1.1,
        v.0.2.0,
        v.0.2.1,
        v.1.0.0,
        v.1.0.1,
        v.1.1.0,
        v.1.1.1,
        v.1.2.0,
        v.1.2.1,
    ]
}

/// The pairing-target element of twelve scalars in the order of the nested
/// array.
pub open spec fn gt_of_scalars(s: Seq<nat>) -> (
    ((nat, nat), (nat, nat), (nat, nat)),
    ((nat, nat), (nat, nat), (nat, nat)),
)
    recommends
        s.len() == 12,
{
    (((s[0], s[1]), (s[2], s[3]), (s[4], s[5])), ((s[6], s[7]), (s[8], s[9]), (s[10], s[11])))
}

/// What compressed bytes decode to as a pairing-target element.
pub open spec fn gt_binary_spec(curve: Curve, bytes: Seq<u8>) -> Result<
    (((nat, nat), (nat, nat), (nat, nat)), ((nat, nat), (nat, nat), (nat, nat))),
    DecodeError,
> {
    match gt_from_bytes(curve, bytes) {
        None => Err(DecodeError::InvalidEncoding),
        Some(s) => Ok(gt_of_scalars(s)),
    }
}

/// What a wire value decodes to as a pairing-target element.
pub open spec fn gt_wire_spec(curve: Curve, w: Wire<Vec<Vec<Vec<String>>>>) -> Result<
    (((nat, nat), (nat, nat), (nat, nat)), ((nat, nat), (nat, nat), (nat, nat))),
    DecodeError,
> {
    match w {
        Wire::Readable(c) => gt_spec(curve, texts3(c@)),
        Wire::Binary(b) => gt_binary_spec(curve, b@),
    }
}

/// `r` is the well-formed pairing-target element that `expected` gives, or
/// the same error.
pub open spec fn gt_as(
    r: Result<Fq12, DecodeError>,
    expected: Result<
        (((nat, nat), (nat, nat), (nat, nat)), ((nat, nat), (nat, nat), (nat, nat))),
        DecodeError,
    >,
    curve: Curve,
) -> bool {
    match expected {
        Ok(v) => r.is_ok() && r.unwrap().wf_in(curve.base()) && r.unwrap()@ == v,
        Err(e) => r.is_err() && r.unwrap_err() == e,
    }
}

/// The compressed bytes of a pairing-target element of `curve`: its twelve
/// scalars in the order of the nested array, each in its compressed form.
pub fn gt_to_bytes(curve: Curve, e: &Fq12) -> (r: Vec<u8>)
    requires
        e.wf_in(curve.base()),
    ensures
        is_gt_bytes(curve, gt_scalars(e@), r@),
        gt_binary_spec(curve, r@) == Ok::<
            (((nat, nat), (nat, nat), (nat, nat)), ((nat, nat), (nat, nat), (nat, nat))),
            DecodeError,
        >(e@),
{
    let parts: Vec<Vec<u8>> = vec![
        field_to_bytes(&e.c0.c0.c0),
        field_to_bytes(&e.c0.c0.c1),
        field_to_bytes(&e.c0.c1.c0),
        field_to_bytes(&e.c0.c1.c1),
        field_to_bytes(&e.c0.c2.c0),
        field_to_bytes(&e.c0.c2.c1),
        field_to_bytes(&e.c1.c0.c0),
        field_to_bytes(&e.c1.c0.c1),
        field_to_bytes(&e.c1.c1.c0),
        field_to_bytes(&e.c1.c1.c1),
        field_to_bytes(&e.c1.c2.c0),
        field_to_bytes(&e.c1.c2.c1),
    ];
    let r = join(&parts);
    proof {
        let size = field_byte_size(curve.base());
        let p = parts_view(parts@);
        let scalars = gt_scalars(e@);
        assert forall|k: int| 0 <= k < 12 implies (#[trigger] p[k]).len() == size
            && le_bytes_value(p[k]) == scalars[k] by {
            assert(p[k] == parts@[k]@);
        }
        lemma_concat_len(p, size);
        assert forall|k: int| 0 <= k < 12 implies le_bytes_value(
            #[trigger] gt_entry(curve, r@, k),
        ) == scalars[k] by {
            lemma_concat_entry(p, size, k);
            assert(gt_entry(curve, r@, k) == p[k]);
        }
        assert forall|k: int| 0 <= k < 12 implies (#[trigger] scalars[k])
            < curve.base().modulus() by {
            e.c0.c0.c0.lemma_wf();
            e.c0.c0.c1.lemma_wf();
            e.c0.c1.c0.lemma_wf();
            e.c0.c1.c1.lemma_wf();
            e.c0.c2.c0.lemma_wf();
            e.c0.c2.c1.lemma_wf();
            e.c1.c0.c0.lemma_wf();
            e.c1.c0.c1.lemma_wf();
            e.c1.c1.c0.lemma_wf();
            e.c1.c1.c1.lemma_wf();
            e.c1.c2.c0.lemma_wf();
            e.c1.c2.c1.lemma_wf();
        }
        lemma_gt_bytes_round_trip(curve, scalars, r@);
    }
    r
}

/// The element of the quadratic extension of the two scalars of `t` from
/// index `i`.
fn fq2_of_scalars(t: &Vec<FieldElement>, i: usize) -> (r: Fq2)
    requires
        i + 1 < t.len(),
    ensures
        r.c0 == t[i as int],
        r.c1 == t[i + 1],
{
    Fq2 { c0: t[i].clone(), c1: t[i + 1].clone() }
}

/// The pairing-target element of `curve` that is read from the front of
/// `bytes`: twelve scalars, each as an element of the base field is read.
pub fn gt_from_binary(curve: Curve, bytes: &[u8]) -> (r: Result<Fq12, DecodeError>)
    ensures
        gt_as(r, gt_binary_spec(curve, bytes@), curve),
{
    let field: Field = curve.base_field();
    let size: usize = field_size(field);
    if bytes.len() / 12 < size {
        return Err(DecodeError::InvalidEncoding);
    }
    let mut t: Vec<FieldElement> = Vec::new();
    let mut i: usize = 0;
    while i < 12
        invariant
            i <= 12,
            t.len() == i,
            field == curve.base(),
            size == field_byte_size(field),
            bytes@.len() >= 12 * size,
            forall|k: int|
                0 <= k < i ==> (#[trigger] t[k]).wf() && t[k].in_field() == field && t[k]@
                    == le_bytes_value(gt_entry(curve, bytes@, k)),
            forall|k: int|
                0 <= k < i ==> le_bytes_value(#[trigger] gt_entry(curve, bytes@, k))
                    < field.modulus(),
        decreases 12 - i,
    {
        let chunk = vstd::slice::slice_subrange(bytes, i * size, (i + 1) * size);
        proof {
            assert(chunk@ == gt_entry(curve, bytes@, i as int));
            assert(chunk@.subrange(0, size as int) =~= chunk@);
        }
        match field_from_binary(field, chunk) {
            Ok(f) => {
                t.push(f);
            },
            Err(_) => {
                return Err(DecodeError::InvalidEncoding);
            },
        }
        i = i + 1;
    }
    let c0 = Fq6 { c0: fq2_of_scalars(&t, 0), c1: fq2_of_scalars(&t, 2), c2: fq2_of_scalars(&t, 4) };
    let c1 = Fq6 { c0: fq2_of_scalars(&t, 6), c1: fq2_of_scalars(&t, 8), c2: fq2_of_scalars(&t, 10) };
    Ok(Fq12 { c0, c1 })
}

/// Serializes a pairing-target element: as its nested array of texts where
/// the format is readable, else as its compressed bytes.
pub fn serialize_gt(curve: Curve, e: &Fq12, human_readable: bool) -> (r: Wire<Vec<Vec<Vec<String>>>>)
    requires
        e.wf_in(curve.base()),
    ensures
        human_readable ==> (r matches Wire::Readable(c) && texts3(c@) == e.wire_texts()),
        !human_readable ==> (r matches Wire::Binary(b) && is_gt_bytes(curve, gt_scalars(e@), b@)),
        gt_wire_spec(curve, r) == Ok::<
            (((nat, nat), (nat, nat), (nat, nat)), ((nat, nat), (nat, nat), (nat, nat))),
            DecodeError,
        >(e@),
{
    if human_readable {
        proof {
            crate::tower::lemma_gt_round_trip(curve, *e);
        }
        Wire::Readable(encode_gt(e))
    } else {
        Wire::Binary(gt_to_bytes(curve, e))
    }
}

/// Deserializes a pairing-target element. No test beyond the shape and the
/// scalars applies.
pub fn deserialize_gt(curve: Curve, w: &Wire<Vec<Vec<Vec<String>>>>) -> (r: Result<Fq12, DecodeError>)
    ensures
        gt_as(r, gt_wire_spec(curve, *w), curve),
{
    match w {
        Wire::Readable(c) => decode_gt(curve, c),
        Wire::Binary(b) => gt_from_binary(curve, b.as_slice()),
    }
}

/// The values of a sequence of field elements.
pub open spec fn element_values(fs: Seq<FieldElement>) -> Seq<nat> {
    Seq::new(fs.len(), |i: int| fs[i]@)
}

/// Every element of `fs` is a well-formed element of `field`.
pub open spec fn all_in_field(fs: Seq<FieldElement>, field: Field) -> bool {
    forall|i: int| 0 <= i < fs.len() ==> (#[trigger] fs[i]).wf() && fs[i].in_field() == field
}

/// `b` is the compact form of the sequence of residues `values` of `field`:
/// the count in eight bytes, least significant first, then each residue in
/// its compressed form.
pub open spec fn is_field_seq_bytes(field: Field, values: Seq<nat>, b: Seq<u8>) -> bool {
    &&& b.len() == 8 + values.len() * field_byte_size(field)
    &&& count_of(b) == values.len()
    &&& forall|i: int|
        0 <= i < values.len() ==> is_field_bytes(
            field,
            values[i],
            #[trigger] entry(b, field_byte_size(field), i),
        )
}

/// What decoding the compact form of a sequence of elements of `field` owes:
/// bytes too few for their count are refused as a whole; else the entries are
/// decoded in order, and the first that is refused is reported with its
/// index.
pub open spec fn field_seq_binary_as(
    r: Result<Vec<FieldElement>, SequenceError>,
    field: Field,
    bytes: Seq<u8>,
) -> bool {
    match split_spec(bytes, field_byte_size(field)) {
        None => r == Err::<Vec<FieldElement>, SequenceError>(SequenceError::Encoding),
        Some(parts) => match r {
            Ok(v) => v.len() == parts.len() && forall|i: int|
                0 <= i < parts.len() ==> field_as(
                    Ok(#[trigger] v[i]),
                    field_binary_spec(field, parts[i]),
                    field,
                ),
            Err(SequenceError::Entry(e)) => e.index < parts.len() && field_binary_spec(
                field,
                parts[e.index as int],
            ) == Err::<nat, DecodeError>(e.error) && forall|j: int|
                0 <= j < e.index ==> (#[trigger] field_binary_spec(field, parts[j])).is_ok(),
            Err(SequenceError::Encoding) => false,
        },
    }
}

/// What deserializing a sequence of field elements owes, in either form.
pub open spec fn field_seq_wire_as(
    r: Result<Vec<FieldElement>, SequenceError>,
    field: Field,
    w: Wire<Vec<String>>,
    unsigned: bool,
) -> bool {
    match w {
        Wire::Readable(items) => match r {
            Ok(v) => field_sequence_as(Ok(v), field, items@, unsigned),
            Err(SequenceError::Entry(e)) => field_sequence_as(Err(e), field, items@, unsigned),
            Err(SequenceError::Encoding) => false,
        },
        Wire::Binary(b) => field_seq_binary_as(r, field, b@),
    }
}

/// The compact form of a sequence of elements of `field`.
pub fn field_seq_to_bytes(field: Field, fs: &Vec<FieldElement>) -> (r: Vec<u8>)
    requires
        all_in_field(fs@, field),
    ensures
        is_field_seq_bytes(field, element_values(fs@), r@),
        field_seq_binary_as(Ok(*fs), field, r@),
{
    let mut parts: Vec<Vec<u8>> = Vec::new();
    let mut i: usize = 0;
    while i < fs.len()
        invariant
            i <= fs.len(),
            parts.len() == i,
            all_in_field(fs@, field),
            forall|k: int| 0 <= k < i ==> is_field_bytes(field, fs[k]@, (#[trigger] parts[k])@),
        decreases fs.len() - i,
    {
        assert(fs@[i as int].wf() && fs@[i as int].in_field() == field);
        parts.push(field_to_bytes(&fs[i]));
        i = i + 1;
    }
    let r = frame(&parts);
    proof {
        let size = field_byte_size(field);
        let p = parts_view(parts@);
        assert forall|k: int| 0 <= k < p.len() implies (#[trigger] p[k]).len() == size by {
            assert(is_field_bytes(field, fs[k]@, parts[k]@));
        }
        lemma_split_framed(p, size);
        lemma_concat_len(p, size);
        lemma_count_round_trip(p.len());
        assert(r@.subrange(0, 8) =~= count_bytes(p.len()));
        assert(forall|k: int| 0 <= k < 8 ==> r@[k] == count_bytes(p.len())[k]);
        assert forall|k: int| 0 <= k < fs@.len() implies is_field_bytes(
            field,
            element_values(fs@)[k],
            #[trigger] entry(r@, size, k),
        ) by {
            assert(is_field_bytes(field, fs[k]@, parts[k]@));
            assert(p[k] == entry(r@, size, k));
        }
        assert forall|k: int| 0 <= k < p.len() implies field_as(
            Ok(#[trigger] fs@[k]),
            field_binary_spec(field, p[k]),
            field,
        ) by {
            assert(is_field_bytes(field, fs[k]@, parts[k]@));
            fs@[k].lemma_wf();
            lemma_field_bytes_round_trip(field, fs@[k]@, p[k]);
        }
    }
    r
}

/// The elements of `field` that the compact form `bytes` holds.
pub fn field_seq_from_binary(field: Field, bytes: &[u8]) -> (r: Result<
    Vec<FieldElement>,
    SequenceError,
>)
    ensures
        field_seq_binary_as(r, field, bytes@),
{
    let parts: Vec<Vec<u8>> = match split(bytes, field_size(field)) {
        None => {
            return Err(SequenceError::Encoding);
        },
        Some(p) => p,
    };
    let ghost s = parts_view(parts@);
    let mut out: Vec<FieldElement> = Vec::new();
    let mut i: usize = 0;
    while i < parts.len()
        invariant
            i <= parts.len(),
            out.len() == i,
            s == parts_view(parts@),
            split_spec(bytes@, field_byte_size(field)) == Some(s),
            forall|k: int|
                0 <= k < i ==> field_as(Ok(#[trigger] out[k]), field_binary_spec(field, s[k]), field),
            forall|k: int| 0 <= k < i ==> (#[trigger] field_binary_spec(field, s[k])).is_ok(),
        decreases parts.len() - i,
    {
        assert(s[i as int] == parts@[i as int]@);
        match field_from_binary(field, parts[i].as_slice()) {
            Ok(f) => {
                out.push(f);
            },
            Err(e) => {
                return Err(SequenceError::Entry(ElementError { index: i, error: e }));
            },
        }
        i = i + 1;
    }
    Ok(out)
}

/// Serializes a sequence of elements of `field`: as the array of their texts
/// where the format is readable, else in the compact form. Either way the
/// sequence that went in is what a decoder of this module owes for the
/// result, texts being read signed or unsigned.
pub fn serialize_f_seq(field: Field, fs: &Vec<FieldElement>, human_readable: bool) -> (r: Wire<
    Vec<String>,
>)
    requires
        all_in_field(fs@, field),
    ensures
        human_readable ==> (r matches Wire::Readable(c) && c.len() == fs.len() && forall|i: int|
            0 <= i < fs.len() ==> (#[trigger] c[i])@ == fs[i].text()),
        !human_readable ==> (r matches Wire::Binary(b) && is_field_seq_bytes(
            field,
            element_values(fs@),
            b@,
        )),
        field_seq_wire_as(Ok(*fs), field, r, true),
        field_seq_wire_as(Ok(*fs), field, r, false),
{
    if human_readable {
        let t: Vec<String> = encode_sequence(fs);
        proof {
            assert forall|i: int| 0 <= i < t@.len() implies decoded_as(
                Ok(#[trigger] fs@[i]),
                parse_spec(t@[i]@, true, field.modulus()),
                field,
            ) && decoded_as(Ok(fs@[i]), parse_spec(t@[i]@, false, field.modulus()), field) by {
                fs@[i].lemma_encode_decode(true);
                fs@[i].lemma_encode_decode(false);
            }
        }
        Wire::Readable(t)
    } else {
        Wire::Binary(field_seq_to_bytes(field, fs))
    }
}

/// Deserializes a sequence of elements of `field`, texts being read as
/// `unsigned` says.
pub fn deserialize_f_seq_with(field: Field, w: &Wire<Vec<String>>, unsigned: bool) -> (r: Result<
    Vec<FieldElement>,
    SequenceError,
>)
    ensures
        field_seq_wire_as(r, field, *w, unsigned),
{
    match w {
        Wire::Readable(items) => match decode_sequence(field, items, unsigned) {
            Ok(v) => Ok(v),
            Err(e) => Err(SequenceError::Entry(e)),
        },
        Wire::Binary(b) => field_seq_from_binary(field, b.as_slice()),
    }
}

/// Deserializes a sequence of elements of `field`; texts are read unsigned.
pub fn deserialize_f_seq(field: Field, w: &Wire<Vec<String>>) -> (r: Result<
    Vec<FieldElement>,
    SequenceError,
>)
    ensures
        field_seq_wire_as(r, field, *w, true),
{
    deserialize_f_seq_with(field, w, true)
}

/// Deserializes a sequence of elements of `field`; texts may be signed.
pub fn deserialize_f_seq_signed(field: Field, w: &Wire<Vec<String>>) -> (r: Result<
    Vec<FieldElement>,
    SequenceError,
>)
    ensures
        field_seq_wire_as(r, field, *w, false),
{
    deserialize_f_seq_with(field, w, false)
}

/// Every point of `ps` is well formed on `curve`.
pub open spec fn all_on(ps: Seq<G1Affine>, curve: Curve) -> bool {
    forall|i: int| 0 <= i < ps.len() ==> (#[trigger] ps[i]).wf_on(curve)
}

/// The compressed bytes of the points of a sequence, point by point.
pub open spec fn g1_parts(curve: Curve, ps: Seq<G1Affine>) -> Seq<Seq<u8>> {
    Seq::new(ps.len(), |i: int| g1_point_bytes(curve, ps[i]@))
}

/// What decoding the compact form of a sequence of G1 points owes: bytes too
/// few for their count are refused as a whole; else the entries, each of the
/// size of an element of the base field, are decoded in order, and the first
/// that is refused is reported with its index; a count that `size` asks for
/// and that is not met is reported last, under the index behind the last
/// entry.
pub open spec fn g1_seq_binary_as(
    r: Result<Vec<G1Affine>, SequenceError>,
    curve: Curve,
    bytes: Seq<u8>,
    size: Option<usize>,
    mode: ValidationMode,
) -> bool {
    match split_spec(bytes, field_byte_size(curve.base())) {
        None => r == Err::<Vec<G1Affine>, SequenceError>(SequenceError::Encoding),
        Some(parts) => match r {
            Ok(v) => v.len() == parts.len() && (size.is_some() ==> size.unwrap() == parts.len())
                && forall|i: int|
                0 <= i < parts.len() ==> g1_as(
                    Ok(#[trigger] v[i]),
                    g1_binary_spec(curve, parts[i], mode),
                    curve,
                ),
            Err(SequenceError::Entry(e)) => e.index <= parts.len() && (forall|j: int|
                0 <= j < e.index ==> (#[trigger] g1_binary_spec(curve, parts[j], mode)).is_ok())
                && if e.index < parts.len() {
                g1_binary_spec(curve, parts[e.index as int], mode) == Err::<
                    Option<(nat, nat)>,
                    DecodeError,
                >(e.error)
            } else {
                size.is_some() && size.unwrap() != parts.len() && e.error == (
                DecodeError::LengthMismatch {
                    expected: size.unwrap(),
                    found: parts.len() as usize,
                })
            },
            Err(SequenceError::Encoding) => false,
        },
    }
}

/// What deserializing a sequence of G1 points owes, in either form.
pub open spec fn g1_seq_wire_as(
    r: Result<Vec<G1Affine>, SequenceError>,
    curve: Curve,
    w: Wire<Vec<Vec<String>>>,
    size: Option<usize>,
    mode: ValidationMode,
) -> bool {
    match w {
        Wire::Readable(items) => match r {
            Ok(v) => g1_sequence_as(Ok(v), curve, items@, size, mode),
            Err(SequenceError::Entry(e)) => g1_sequence_as(Err(e), curve, items@, size, mode),
            Err(SequenceError::Encoding) => false,
        },
        Wire::Binary(b) => g1_seq_binary_as(r, curve, b@, size, mode),
    }
}

/// Serializes a sequence of G1 points: as the array of their coordinate
/// arrays where the format is readable, else in the compact form, the count
/// and then the compressed bytes of each point.
pub fn serialize_g1_sequence(curve: Curve, ps: &Vec<G1Affine>, human_readable: bool) -> (r: Wire<
    Vec<Vec<String>>,
>)
    requires
        all_on(ps@, curve),
    ensures
        human_readable ==> (r matches Wire::Readable(c) && c.len() == ps.len() && forall|i: int|
            0 <= i < ps.len() ==> texts(#[trigger] c[i]@) == ps[i].wire_texts()),
        !human_readable ==> (r matches Wire::Binary(b) && b@ == framed(g1_parts(curve, ps@))),
{
    if human_readable {
        return Wire::Readable(encode_g1_sequence(ps));
    }
    let mut parts: Vec<Vec<u8>> = Vec::new();
    let mut i: usize = 0;
    while i < ps.len()
        invariant
            i <= ps.len(),
            parts.len() == i,
            all_on(ps@, curve),
            forall|k: int| 0 <= k < i ==> (#[trigger] parts[k])@ == g1_point_bytes(curve, ps[k]@),
        decreases ps.len() - i,
    {
        assert(ps@[i as int].wf_on(curve));
        parts.push(g1_to_bytes(curve, &ps[i]));
        i = i + 1;
    }
    assert(parts_view(parts@) =~= g1_parts(curve, ps@));
    Wire::Binary(frame(&parts))
}

/// The G1 points of `curve` that the compact form `bytes` holds, each
/// validated as `mode` asks, and as many as `size` asks for where it is
/// given.
pub fn g1_seq_from_binary(
    curve: Curve,
    bytes: &[u8],
    size: Option<usize>,
    mode: ValidationMode,
) -> (r: Result<Vec<G1Affine>, SequenceError>)
    ensures
        g1_seq_binary_as(r, curve, bytes@, size, mode),
{
    let parts: Vec<Vec<u8>> = match split(bytes, field_size(curve.base_field())) {
        None => {
            return Err(SequenceError::Encoding);
        },
        Some(p) => p,
    };
    let ghost s = parts_view(parts@);
    let mut out: Vec<G1Affine> = Vec::new();
    let mut i: usize = 0;
    while i < parts.len()
        invariant
            i <= parts.len(),
            out.len() == i,
            s == parts_view(parts@),
            split_spec(bytes@, field_byte_size(curve.base())) == Some(s),
            forall|k: int|
                0 <= k < i ==> g1_as(Ok(#[trigger] out[k]), g1_binary_spec(curve, s[k], mode), curve),
            forall|k: int| 0 <= k < i ==> (#[trigger] g1_binary_spec(curve, s[k], mode)).is_ok(),
        decreases parts.len() - i,
    {
        assert(s[i as int] == parts@[i as int]@);
        match g1_from_binary(curve, parts[i].as_slice(), mode) {
            Ok(p) => {
                out.push(p);
            },
            Err(e) => {
                return Err(SequenceError::Entry(ElementError { index: i, error: e }));
            },
        }
        i = i + 1;
    }
    match size {
        Some(n) => {
            if n != out.len() {
                return Err(
                    SequenceError::Entry(
                        ElementError {
                            index: i,
                            error: DecodeError::LengthMismatch { expected: n, found: out.len() },
                        },
                    ),
                );
            }
        },
        None => {},
    }
    Ok(out)
}

/// Deserializes a sequence of G1 points, validated as `mode` asks, and holds
/// its length against `size` where one is given.
pub fn deserialize_g1_sequence(
    curve: Curve,
    w: &Wire<Vec<Vec<String>>>,
    size: Option<usize>,
    mode: ValidationMode,
) -> (r: Result<Vec<G1Affine>, SequenceError>)
    ensures
        g1_seq_wire_as(r, curve, *w, size, mode),
{
    match w {
        Wire::Readable(items) => match decode_g1_sequence(curve, items, size, mode) {
            Ok(v) => Ok(v),
            Err(e) => Err(SequenceError::Entry(e)),
        },
        Wire::Binary(b) => g1_seq_from_binary(curve, b.as_slice(), size, mode),
    }
}

/// Every point of `ps` is well formed.
pub open spec fn all_wf(ps: Seq<EdwardsAffine>) -> bool {
    forall|i: int| 0 <= i < ps.len() ==> (#[trigger] ps[i]).wf()
}

/// The compressed bytes of the points of a sequence, point by point.
pub open spec fn edwards_parts(ps: Seq<EdwardsAffine>) -> Seq<Seq<u8>> {
    Seq::new(ps.len(), |i: int| edwards_bytes(ps[i]@.0, ps[i]@.1))
}

/// What decoding the compact form of a sequence of BabyJubJub points owes:
/// bytes too few for their count are refused as a whole; else the entries
/// are decoded in order, and the first that is refused is reported with its
/// index; a count that `size` asks for and that is not met is reported last,
/// under the index behind the last entry.
pub open spec fn edwards_seq_binary_as(
    r: Result<Vec<EdwardsAffine>, SequenceError>,
    bytes: Seq<u8>,
    size: Option<usize>,
    mode: ValidationMode,
) -> bool {
    match split_spec(bytes, field_byte_size(Field::Bn254Fr)) {
        None => r == Err::<Vec<EdwardsAffine>, SequenceError>(SequenceError::Encoding),
        Some(parts) => match r {
            Ok(v) => v.len() == parts.len() && (size.is_some() ==> size.unwrap() == parts.len())
                && forall|i: int|
                0 <= i < parts.len() ==> edwards_as(
                    Ok(#[trigger] v[i]),
                    edwards_binary_spec(parts[i], mode),
                ),
            Err(SequenceError::Entry(e)) => e.index <= parts.len() && (forall|j: int|
                0 <= j < e.index ==> (#[trigger] edwards_binary_spec(parts[j], mode)).is_ok())
                && if e.index < parts.len() {
                edwards_binary_spec(parts[e.index as int], mode) == Err::<(nat, nat), DecodeError>(
                    e.error,
                )
            } else {
                size.is_some() && size.unwrap() != parts.len() && e.error == (
                DecodeError::LengthMismatch {
                    expected: size.unwrap(),
                    found: parts.len() as usize,
                })
            },
            Err(SequenceError::Encoding) => false,
        },
    }
}

/// What deserializing a sequence of BabyJubJub points owes, in either form.
pub open spec fn edwards_seq_wire_as(
    r: Result<Vec<EdwardsAffine>, SequenceError>,
    w: Wire<Vec<Vec<String>>>,
    size: Option<usize>,
    mode: ValidationMode,
) -> bool {
    match w {
        Wire::Readable(items) => match r {
            Ok(v) => edwards_sequence_as(Ok(v), items@, size, mode),
            Err(SequenceError::Entry(e)) => edwards_sequence_as(Err(e), items@, size, mode),
            Err(SequenceError::Encoding) => false,
        },
        Wire::Binary(b) => edwards_seq_binary_as(r, b@, size, mode),
    }
}

/// Serializes a sequence of BabyJubJub points: as the array of their
/// coordinate arrays where the format is readable, else in the compact form,
/// the count and then the compressed bytes of each point.
pub fn serialize_edwards_sequence(ps: &Vec<EdwardsAffine>, human_readable: bool) -> (r: Wire<
    Vec<Vec<String>>,
>)
    requires
        all_wf(ps@),
    ensures
        human_readable ==> (r matches Wire::Readable(c) && c.len() == ps.len() && forall|i: int|
            0 <= i < ps.len() ==> texts(#[trigger] c[i]@) == ps[i].wire_texts()),
        !human_readable ==> (r matches Wire::Binary(b) && b@ == framed(edwards_parts(ps@))),
{
    if human_readable {
        return Wire::Readable(encode_edwards_sequence(ps));
    }
    let mut parts: Vec<Vec<u8>> = Vec::new();
    let mut i: usize = 0;
    while i < ps.len()
        invariant
            i <= ps.len(),
            parts.len() == i,
            all_wf(ps@),
            forall|k: int|
                0 <= k < i ==> (#[trigger] parts[k])@ == edwards_bytes(ps[k]@.0, ps[k]@.1),
        decreases ps.len() - i,
    {
        assert(ps@[i as int].wf());
        parts.push(crate::binary::babyjubjub_to_bytes(ps[i].x.as_str(), ps[i].y.as_str()));
        i = i + 1;
    }
    assert(parts_view(parts@) =~= edwards_parts(ps@));
    Wire::Binary(frame(&parts))
}

/// The BabyJubJub points that the compact form `bytes` holds, each validated
/// as `mode` asks, and as many as `size` asks for where it is given.
pub fn edwards_seq_from_binary(bytes: &[u8], size: Option<usize>, mode: ValidationMode) -> (r:
    Result<Vec<EdwardsAffine>, SequenceError>)
    ensures
        edwards_seq_binary_as(r, bytes@, size, mode),
{
    let parts: Vec<Vec<u8>> = match split(bytes, field_size(Field::Bn254Fr)) {
        None => {
            return Err(SequenceError::Encoding);
        },
        Some(p) => p,
    };
    let ghost s = parts_view(parts@);
    let mut out: Vec<EdwardsAffine> = Vec::new();
    let mut i: usize = 0;
    while i < parts.len()
        invariant
            i <= parts.len(),
            out.len() == i,
            s == parts_view(parts@),
            split_spec(bytes@, field_byte_size(Field::Bn254Fr)) == Some(s),
            forall|k: int|
                0 <= k < i ==> edwards_as(Ok(#[trigger] out[k]), edwards_binary_spec(s[k], mode)),
            forall|k: int| 0 <= k < i ==> (#[trigger] edwards_binary_spec(s[k], mode)).is_ok(),
        decreases parts.len() - i,
    {
        assert(s[i as int] == parts@[i as int]@);
        match edwards_from_binary(parts[i].as_slice(), mode) {
            Ok(p) => {
                out.push(p);
            },
            Err(e) => {
                return Err(SequenceError::Entry(ElementError { index: i, error: e }));
            },
        }
        i = i + 1;
    }
    match size {
        Some(n) => {
            if n != out.len() {
                return Err(
                    SequenceError::Entry(
                        ElementError {
                            index: i,
                            error: DecodeError::LengthMismatch { expected: n, found: out.len() },
                        },
                    ),
                );
            }
        },
        None => {},
    }
    Ok(out)
}

/// Deserializes a sequence of BabyJubJub points, validated as `mode` asks,
/// and holds its length against `size` where one is given.
pub fn deserialize_edwards_sequence(
    w: &Wire<Vec<Vec<String>>>,
    size: Option<usize>,
    mode: ValidationMode,
) -> (r: Result<Vec<EdwardsAffine>, SequenceError>)
    ensures
        edwards_seq_wire_as(r, *w, size, mode),
{
    match w {
        Wire::Readable(items) => match decode_edwards_sequence(items, size, mode) {
            Ok(v) => Ok(v),
            Err(e) => Err(SequenceError::Entry(e)),
        },
        Wire::Binary(b) => edwards_seq_from_binary(b.as_slice(), size, mode),
    }
}

} // verus!
