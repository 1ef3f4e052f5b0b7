//! The codec of BN254: its two prime fields, its groups G1 and G2, and its
//! pairing target.

use crate::binary::{is_field_bytes, is_gt_bytes};
use crate::frame::framed;
use crate::curve::Curve;
use crate::error::{DecodeError, SequenceError, ValidationMode};
use crate::field::{Field, FieldElement};
use crate::point::{g1_as, g2_as, G1Affine, G2Affine};
use crate::text::{texts, texts2, texts3};
use crate::tower::Fq12;
use crate::wire::{
    all_on, field_as, field_wire_spec, g1_parts, g1_point_bytes, g1_seq_wire_as, g1_wire_spec,
    g2_point_bytes, g2_wire_spec, gt_as, gt_scalars, gt_wire_spec, Wire,
};
use vstd::prelude::*;

verus! {

/// Serializes an element of the scalar field of BN254.
pub fn serialize_fr(f: &FieldElement, human_readable: bool) -> (r: Wire<String>)
    requires
        f.in_field() == Field::Bn254Fr,
    ensures
        human_readable ==> (r matches Wire::Readable(s) && s@ == f.text()),
        !human_readable ==> (r matches Wire::Binary(b) && is_field_bytes(Field::Bn254Fr, f@, b@)),
        field_wire_spec(Field::Bn254Fr, r, true) == Ok::<nat, DecodeError>(f@),
{
    crate::wire::serialize_f(f, human_readable)
}

/// Serializes an element of the base field of BN254.
pub fn serialize_fq(f: &FieldElement, human_readable: bool) -> (r: Wire<String>)
    requires
        f.in_field() == Field::Bn254Fq,
    ensures
        human_readable ==> (r matches Wire::Readable(s) && s@ == f.text()),
        !human_readable ==> (r matches Wire::Binary(b) && is_field_bytes(Field::Bn254Fq, f@, b@)),
        field_wire_spec(Field::Bn254Fq, r, true) == Ok::<nat, DecodeError>(f@),
{
    crate::wire::serialize_f(f, human_readable)
}

/// Serializes a G1 point of BN254 as `[x, y, "1"]`, the identity as
/// `["0", "1", "0"]`, or as compressed bytes.
pub fn serialize_g1(p: &G1Affine, human_readable: bool) -> (r: Wire<Vec<String>>)
    requires
        p.wf_on(Curve::Bn254),
    ensures
        human_readable ==> (r matches Wire::Readable(c) && texts(c@) == p.wire_texts()),
        !human_readable ==> (r matches Wire::Binary(b) && b@ == g1_point_bytes(Curve::Bn254, p@)),
{
    crate::wire::serialize_g1(Curve::Bn254, p, human_readable)
}

/// Serializes a G2 point of BN254 as `[[x0, x1], [y0, y1], ["1", "0"]]`, the
/// identity as `[["0", "0"], ["1", "0"], ["0", "0"]]`, or as compressed
/// bytes.
pub fn serialize_g2(p: &G2Affine, human_readable: bool) -> (r: Wire<Vec<Vec<String>>>)
    requires
        p.wf_on(Curve::Bn254),
    ensures
        human_readable ==> (r matches Wire::Readable(c) && texts2(c@) == p.wire_texts()),
        !human_readable ==> (r matches Wire::Binary(b) && b@ == g2_point_bytes(Curve::Bn254, p@)),
{
    crate::wire::serialize_g2(Curve::Bn254, p, human_readable)
}

/// Serializes an element of the pairing target of BN254 as a nested array of
/// shape 2 x 3 x 2, or as compressed bytes.
pub fn serialize_gt(e: &Fq12, human_readable: bool) -> (r: Wire<Vec<Vec<Vec<String>>>>)
    requires
        e.wf_in(Field::Bn254Fq),
    ensures
        human_readable ==> (r matches Wire::Readable(c) && texts3(c@) == e.wire_texts()),
        !human_readable ==> (r matches Wire::Binary(b) && is_gt_bytes(
            Curve::Bn254,
            gt_scalars(e@),
            b@,
        )),
        gt_wire_spec(Curve::Bn254, r) == Ok::<
            (((nat, nat), (nat, nat), (nat, nat)), ((nat, nat), (nat, nat), (nat, nat))),
            DecodeError,
        >(e@),
{
    crate::wire::serialize_gt(Curve::Bn254, e, human_readable)
}

/// Serializes a sequence of G1 points of BN254.
pub fn serialize_g1_sequence(ps: &Vec<G1Affine>, human_readable: bool) -> (r: Wire<Vec<Vec<String>>>)
    requires
        all_on(ps@, Curve::Bn254),
    ensures
        human_readable ==> (r matches Wire::Readable(c) && c.len() == ps.len() && forall|i: int|
            0 <= i < ps.len() ==> texts(#[trigger] c[i]@) == ps[i].wire_texts()),
        !human_readable ==> (r matches Wire::Binary(b) && b@ == framed(
            g1_parts(Curve::Bn254, ps@),
        )),
{
    crate::wire::serialize_g1_sequence(Curve::Bn254, ps, human_readable)
}

/// Deserializes an element of the scalar field of BN254; a text is read
/// unsigned.
pub fn deserialize_fr(w: &Wire<String>) -> (r: Result<FieldElement, DecodeError>)
    ensures
        field_as(r, field_wire_spec(Field::Bn254Fr, *w, true), Field::Bn254Fr),
{
    crate::wire::deserialize_f(Field::Bn254Fr, w)
}

/// Deserializes an element of the base field of BN254; a text is read
/// unsigned.
pub fn deserialize_fq(w: &Wire<String>) -> (r: Result<FieldElement, DecodeError>)
    ensures
        field_as(r, field_wire_spec(Field::Bn254Fq, *w, true), Field::Bn254Fq),
{
    crate::wire::deserialize_f(Field::Bn254Fq, w)
}

/// Deserializes a G1 point of BN254, validated as `mode` asks.
pub fn deserialize_g1(w: &Wire<Vec<String>>, mode: ValidationMode) -> (r: Result<G1Affine, DecodeError>)
    ensures
        g1_as(r, g1_wire_spec(Curve::Bn254, *w, mode), Curve::Bn254),
{
    crate::wire::deserialize_g1(Curve::Bn254, w, mode)
}

/// Deserializes a G2 point of BN254, validated as `mode` asks.
pub fn deserialize_g2(w: &Wire<Vec<Vec<String>>>, mode: ValidationMode) -> (r: Result<
    G2Affine,
    DecodeError,
>)
    ensures
        g2_as(r, g2_wire_spec(Curve::Bn254, *w, mode), Curve::Bn254),
{
    crate::wire::deserialize_g2(Curve::Bn254, w, mode)
}

/// Deserializes an element of the pairing target of BN254.
pub fn deserialize_gt(w: &Wire<Vec<Vec<Vec<String>>>>) -> (r: Result<Fq12, DecodeError>)
    ensures
        gt_as(r, gt_wire_spec(Curve::Bn254, *w), Curve::Bn254),
{
    crate::wire::deserialize_gt(Curve::Bn254, w)
}

/// Deserializes a sequence of G1 points of BN254 of any length, validated as
/// `mode` asks.
pub fn deserialize_g1_sequence(w: &Wire<Vec<Vec<String>>>, mode: ValidationMode) -> (r: Result<
    Vec<G1Affine>,
    SequenceError,
>)
    ensures
        g1_seq_wire_as(r, Curve::Bn254, *w, None, mode),
{
    crate::wire::deserialize_g1_sequence(Curve::Bn254, w, None, mode)
}

} // verus!
