//! The codec of BabyJubJub: its two prime fields and its points. The base
//! field of BabyJubJub is the scalar field of BN254.

use crate::binary::{edwards_bytes, is_field_bytes};
use crate::frame::framed;
use crate::edwards::{edwards_as, EdwardsAffine};
use crate::error::{DecodeError, SequenceError, ValidationMode};
use crate::field::{Field, FieldElement};
use crate::text::texts;
use crate::wire::{
    all_in_field, all_wf, edwards_parts, edwards_seq_wire_as, edwards_wire_spec, element_values,
    field_as, field_seq_wire_as, field_wire_spec, is_field_seq_bytes, Wire,
};
use vstd::prelude::*;

verus! {

/// Serializes an element of the scalar field of BabyJubJub.
pub fn serialize_fr(f: &FieldElement, human_readable: bool) -> (r: Wire<String>)
    requires
        f.in_field() == Field::BabyJubJubFr,
    ensures
        human_readable ==> (r matches Wire::Readable(s) && s@ == f.text()),
        !human_readable ==> (r matches Wire::Binary(b) && is_field_bytes(Field::BabyJubJubFr, f@, b@)),
        field_wire_spec(Field::BabyJubJubFr, r, true) == Ok::<nat, DecodeError>(f@),
{
    crate::wire::serialize_f(f, human_readable)
}

/// Serializes an element of the base field of BabyJubJub.
pub fn serialize_fq(f: &FieldElement, human_readable: bool) -> (r: Wire<String>)
    requires
        f.in_field() == Field::Bn254Fr,
    ensures
        human_readable ==> (r matches Wire::Readable(s) && s@ == f.text()),
        !human_readable ==> (r matches Wire::Binary(b) && is_field_bytes(Field::Bn254Fr, f@, b@)),
        field_wire_spec(Field::Bn254Fr, r, true) == Ok::<nat, DecodeError>(f@),
{
    crate::wire::serialize_f(f, human_readable)
}

/// Serializes an element of the base field of BabyJubJub: the same as
/// `serialize_fq`.
pub fn serialize_babyjubjub_fq(f: &FieldElement, human_readable: bool) -> (r: Wire<String>)
    requires
        f.in_field() == Field::Bn254Fr,
    ensures
        human_readable ==> (r matches Wire::Readable(s) && s@ == f.text()),
        !human_readable ==> (r matches Wire::Binary(b) && is_field_bytes(Field::Bn254Fr, f@, b@)),
        field_wire_spec(Field::Bn254Fr, r, true) == Ok::<nat, DecodeError>(f@),
{
    crate::wire::serialize_f(f, human_readable)
}

/// Serializes a sequence of elements of the base field of BabyJubJub.
pub fn serialize_babyjubjub_fq_sequence(fs: &Vec<FieldElement>, human_readable: bool) -> (r: Wire<
    Vec<String>,
>)
    requires
        all_in_field(fs@, Field::Bn254Fr),
    ensures
        human_readable ==> (r matches Wire::Readable(c) && c.len() == fs.len() && forall|i: int|
            0 <= i < fs.len() ==> (#[trigger] c[i])@ == fs[i].text()),
        !human_readable ==> (r matches Wire::Binary(b) && is_field_seq_bytes(
            Field::Bn254Fr,
            element_values(fs@),
            b@,
        )),
        field_seq_wire_as(Ok(*fs), Field::Bn254Fr, r, true),
{
    crate::wire::serialize_f_seq(Field::Bn254Fr, fs, human_readable)
}

/// Serializes a point of BabyJubJub as `[x, y]`, or as compressed bytes.
pub fn serialize_babyjubjub_affine(p: &EdwardsAffine, human_readable: bool) -> (r: Wire<Vec<String>>)
    requires
        p.wf(),
    ensures
        human_readable ==> (r matches Wire::Readable(c) && texts(c@) == p.wire_texts()),
        !human_readable ==> (r matches Wire::Binary(b) && b@ == edwards_bytes(p@.0, p@.1)),
{
    crate::wire::serialize_edwards(p, human_readable)
}

/// Serializes a sequence of points of BabyJubJub.
pub fn serialize_babyjubjub_affine_sequence(ps: &Vec<EdwardsAffine>, human_readable: bool) -> (r:
    Wire<Vec<Vec<String>>>)
    requires
        all_wf(ps@),
    ensures
        human_readable ==> (r matches Wire::Readable(c) && c.len() == ps.len() && forall|i: int|
            0 <= i < ps.len() ==> texts(#[trigger] c[i]@) == ps[i].wire_texts()),
        !human_readable ==> (r matches Wire::Binary(b) && b@ == framed(edwards_parts(ps@))),
{
    crate::wire::serialize_edwards_sequence(ps, human_readable)
}

/// Deserializes a point of BabyJubJub, validated as `mode` asks.
pub fn deserialize_babyjubjub_affine(w: &Wire<Vec<String>>, mode: ValidationMode) -> (r: Result<
    EdwardsAffine,
    DecodeError,
>)
    ensures
        edwards_as(r, edwards_wire_spec(*w, mode)),
{
    crate::wire::deserialize_edwards(w, mode)
}

/// Deserializes a sequence of points of BabyJubJub of any length, validated
/// as `mode` asks.
pub fn deserialize_babyjubjub_affine_sequence(w: &Wire<Vec<Vec<String>>>, mode: ValidationMode) -> (r:
    Result<Vec<EdwardsAffine>, SequenceError>)
    ensures
        edwards_seq_wire_as(r, *w, None, mode),
{
    crate::wire::deserialize_edwards_sequence(w, None, mode)
}

/// Deserializes an element of the scalar field of BabyJubJub; a text is read
/// unsigned.
pub fn deserialize_babyjubjub_fr(w: &Wire<String>) -> (r: Result<FieldElement, DecodeError>)
    ensures
        field_as(r, field_wire_spec(Field::BabyJubJubFr, *w, true), Field::BabyJubJubFr),
{
    crate::wire::deserialize_f(Field::BabyJubJubFr, w)
}

/// Deserializes an element of the base field of BabyJubJub; a text is read
/// unsigned.
pub fn deserialize_babyjubjub_fq(w: &Wire<String>) -> (r: Result<FieldElement, DecodeError>)
    ensures
        field_as(r, field_wire_spec(Field::Bn254Fr, *w, true), Field::Bn254Fr),
{
    crate::wire::deserialize_f(Field::Bn254Fr, w)
}

/// Deserializes a sequence of elements of the base field of BabyJubJub;
/// texts are read unsigned.
pub fn deserialize_babyjubjub_fq_sequence(w: &Wire<Vec<String>>) -> (r: Result<
    Vec<FieldElement>,
    SequenceError,
>)
    ensures
        field_seq_wire_as(r, Field::Bn254Fr, *w, true),
{
    crate::wire::deserialize_f_seq(Field::Bn254Fr, w)
}

} // verus!
