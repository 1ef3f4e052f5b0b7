//! The compact form: what the arithmetic library's canonical compressed
//! serialization makes of a value, and what it reads back from bytes. The
//! layout of the bytes is the arithmetic library's own.

use crate::curve::Curve;
use crate::field::{is_residue_text, Field};
use crate::text::text_value;
use ark_serialize::CanonicalDeserialize;
use ark_serialize::CanonicalSerialize;
use std::str::FromStr;
use vstd::prelude::*;

verus! {

/// The error of the arithmetic library's serialization, carried through
/// unread.
#[verifier::external_type_specification]
#[verifier::external_body]
pub struct ExSerializationError(ark_serialize::SerializationError);

/// The number that the bytes `b` spell, least significant byte first.
pub open spec fn le_bytes_value(b: Seq<u8>) -> nat
    decreases b.len(),
{
    if b.len() == 0 {
        0
    } else {
        b[0] as nat + 256 * le_bytes_value(b.drop_first())
    }
}

/// The number of bytes of a compressed element of `field`: the bits of the
/// modulus, rounded up to whole bytes.
pub open spec fn field_byte_size(field: Field) -> nat {
    match field {
        Field::Bls12381Fq => 48,
        _ => 32,
    }
}

/// The number of bytes of a compressed element of `field`.
pub fn field_size(field: Field) -> (r: usize)
    ensures
        r == field_byte_size(field),
        r > 0,
{
    match field {
        Field::Bls12381Fq => 48,
        _ => 32,
    }
}

/// `b` is the compressed form of the residue `v` of `field`: the residue,
/// least significant byte first, in as many bytes as the field takes.
pub open spec fn is_field_bytes(field: Field, v: nat, b: Seq<u8>) -> bool {
    b.len() == field_byte_size(field) && le_bytes_value(b) == v
}

/// The residue of `field` that is read from the front of `bytes`: as many
/// bytes as the field takes, least significant first, spelling a number below
/// the modulus. `None` where the bytes are too few or the number too large.
pub open spec fn field_from_bytes(field: Field, bytes: Seq<u8>) -> Option<nat> {
    let n = field_byte_size(field) as int;
    if bytes.len() < n {
        None
    } else if le_bytes_value(bytes.subrange(0, n)) < field.modulus() {
        Some(le_bytes_value(bytes.subrange(0, n)))
    } else {
        None
    }
}

/// Round trip: the compressed form of a residue is read back as that residue.
pub proof fn lemma_field_bytes_round_trip(field: Field, v: nat, b: Seq<u8>)
    requires
        is_field_bytes(field, v, b),
        v < field.modulus(),
    ensures
        field_from_bytes(field, b) == Some(v),
{
    assert(b.subrange(0, b.len() as int) =~= b);
}

/// The compressed bytes of the G1 point with the affine coordinates
/// `(x, y)`; the pair (0, 0) is the identity.
pub uninterp spec fn g1_bytes(curve: Curve, x: nat, y: nat) -> Seq<u8>;

/// The G1 point that `deserialize_compressed` reads from the front of
/// `bytes` and validates, as its affine pair, (0, 0) for the identity;
/// `None` where it refuses the bytes or the point.
pub uninterp spec fn g1_from_bytes_checked(curve: Curve, bytes: Seq<u8>) -> Option<(nat, nat)>;

/// The G1 point that `deserialize_compressed_unchecked` reads from the front
/// of `bytes`, without validation; `None` where it refuses the bytes.
pub uninterp spec fn g1_from_bytes_unchecked(curve: Curve, bytes: Seq<u8>) -> Option<(nat, nat)>;

/// The compressed bytes of the G2 point with the affine coordinates
/// `(x, y)`; both being (0, 0) is the identity.
pub uninterp spec fn g2_bytes(curve: Curve, x: (nat, nat), y: (nat, nat)) -> Seq<u8>;

/// The G2 point that `deserialize_compressed` reads and validates.
pub uninterp spec fn g2_from_bytes_checked(curve: Curve, bytes: Seq<u8>) -> Option<
    ((nat, nat), (nat, nat)),
>;

/// The G2 point that `deserialize_compressed_unchecked` reads.
pub uninterp spec fn g2_from_bytes_unchecked(curve: Curve, bytes: Seq<u8>) -> Option<
    ((nat, nat), (nat, nat)),
>;

/// The bytes of scalar `i` of a compressed pairing-target element of
/// `curve`: the twelve scalars follow each other, each in as many bytes as
/// the base field takes.
pub open spec fn gt_entry(curve: Curve, bytes: Seq<u8>, i: int) -> Seq<u8> {
    let n = field_byte_size(curve.base()) as int;
    bytes.subrange(i * n, (i + 1) * n)
}

/// `b` is the compressed form of the pairing-target element with the twelve
/// scalars `scalars`, in the order of the nested array: each scalar in its
/// compressed form, one after the other.
pub open spec fn is_gt_bytes(curve: Curve, scalars: Seq<nat>, b: Seq<u8>) -> bool {
    &&& scalars.len() == 12
    &&& b.len() == 12 * field_byte_size(curve.base())
    &&& forall|i: int|
        0 <= i < 12 ==> le_bytes_value(#[trigger] gt_entry(curve, b, i)) == scalars[i]
}

/// The twelve scalars of the pairing-target element that is read from the
/// front of `bytes`, `None` where the bytes are too few or one of the twelve
/// spells a number that is no residue.
pub open spec fn gt_from_bytes(curve: Curve, bytes: Seq<u8>) -> Option<Seq<nat>> {
    if bytes.len() < 12 * field_byte_size(curve.base()) {
        None
    } else if forall|i: int|
        0 <= i < 12 ==> le_bytes_value(#[trigger] gt_entry(curve, bytes, i))
            < curve.base().modulus() {
        Some(Seq::new(12, |i: int| le_bytes_value(gt_entry(curve, bytes, i))))
    } else {
        None
    }
}

/// Round trip: the compressed form of a pairing-target element is read back
/// as its twelve scalars.
pub proof fn lemma_gt_bytes_round_trip(curve: Curve, scalars: Seq<nat>, b: Seq<u8>)
    requires
        is_gt_bytes(curve, scalars, b),
        forall|i: int| 0 <= i < 12 ==> (#[trigger] scalars[i]) < curve.base().modulus(),
    ensures
        gt_from_bytes(curve, b) == Some(scalars),
{
    assert forall|i: int| 0 <= i < 12 implies le_bytes_value(#[trigger] gt_entry(curve, b, i))
        < curve.base().modulus() by {
        assert(scalars[i] < curve.base().modulus());
    }
    assert(Seq::new(12, |i: int| le_bytes_value(gt_entry(curve, b, i))) =~= scalars);
}

/// The compressed bytes of the BabyJubJub point `(x, y)`.
pub uninterp spec fn edwards_bytes(x: nat, y: nat) -> Seq<u8>;

/// The BabyJubJub point that `deserialize_compressed` reads and validates.
pub uninterp spec fn edwards_from_bytes_checked(bytes: Seq<u8>) -> Option<(nat, nat)>;

/// The BabyJubJub point that `deserialize_compressed_unchecked` reads.
pub uninterp spec fn edwards_from_bytes_unchecked(bytes: Seq<u8>) -> Option<(nat, nat)>;

/// `r` holds the canonical text of the residue `v`, or an error as `v` is
/// `None`.
pub open spec fn text_result(
    r: Result<String, ark_serialize::SerializationError>,
    v: Option<nat>,
    field: Field,
) -> bool {
    match v {
        None => r.is_err(),
        Some(a) => r.is_ok() && is_residue_text(r.unwrap()@, field) && text_value(r.unwrap()@) == a,
    }
}

/// `r` holds the canonical texts of the pair `v`, or an error as `v` is
/// `None`.
pub open spec fn pair_result(
    r: Result<(String, String), ark_serialize::SerializationError>,
    v: Option<(nat, nat)>,
    field: Field,
) -> bool {
    match v {
        None => r.is_err(),
        Some(a) => {
            &&& r.is_ok()
            &&& is_residue_text(r.unwrap().0@, field)
            &&& is_residue_text(r.unwrap().1@, field)
            &&& (text_value(r.unwrap().0@), text_value(r.unwrap().1@)) == a
        },
    }
}

/// `r` holds the canonical texts of the two pairs of `v`, or an error as `v`
/// is `None`.
pub open spec fn quad_result(
    r: Result<(String, String, String, String), ark_serialize::SerializationError>,
    v: Option<((nat, nat), (nat, nat))>,
    field: Field,
) -> bool {
    match v {
        None => r.is_err(),
        Some(a) => {
            &&& r.is_ok()
            &&& is_residue_text(r.unwrap().0@, field)
            &&& is_residue_text(r.unwrap().1@, field)
            &&& is_residue_text(r.unwrap().2@, field)
            &&& is_residue_text(r.unwrap().3@, field)
            &&& (text_value(r.unwrap().0@), text_value(r.unwrap().1@)) == a.0
            &&& (text_value(r.unwrap().2@), text_value(r.unwrap().3@)) == a.1
        },
    }
}

/// `serialize_compressed` of `ark_bn254::Fr`, on the element that the text spells.
/// Believed: the bytes are the residue, least significant byte first, in as
/// many bytes as the bits of the modulus take.
#[verifier::external_body]
pub(crate) fn bn254_fr_to_bytes(text: &str) -> (r: Vec<u8>)
    requires
        is_residue_text(text@, Field::Bn254Fr),
    ensures
        is_field_bytes(Field::Bn254Fr, text_value(text@), r@),
{
    let mut out = Vec::new();
    let _ = ark_bn254::Fr::from_str(text).unwrap_or_default().serialize_compressed(&mut out);
    out
}

/// `deserialize_compressed` of `ark_bn254::Fr`, on the front of `bytes`. Believed:
/// it reads as many bytes as the field takes, least significant first, and
/// accepts them where they spell a number below the modulus; the element
/// comes back as the canonical text of its residue.
#[verifier::external_body]
pub(crate) fn bn254_fr_from_bytes(bytes: &[u8]) -> (r: Result<String, ark_serialize::SerializationError>)
    ensures
        text_result(r, field_from_bytes(Field::Bn254Fr, bytes@), Field::Bn254Fr),
{
    match ark_bn254::Fr::deserialize_compressed(bytes) {
        Ok(v) => Ok(v.to_string()),
        Err(e) => Err(e),
    }
}

/// `serialize_compressed` of `ark_bn254::Fq`, on the element that the text spells.
/// Believed: the bytes are the residue, least significant byte first, in as
/// many bytes as the bits of the modulus take.
#[verifier::external_body]
pub(crate) fn bn254_fq_to_bytes(text: &str) -> (r: Vec<u8>)
    requires
        is_residue_text(text@, Field::Bn254Fq),
    ensures
        is_field_bytes(Field::Bn254Fq, text_value(text@), r@),
{
    let mut out = Vec::new();
    let _ = ark_bn254::Fq::from_str(text).unwrap_or_default().serialize_compressed(&mut out);
    out
}

/// `deserialize_compressed` of `ark_bn254::Fq`, on the front of `bytes`. Believed:
/// it reads as many bytes as the field takes, least significant first, and
/// accepts them where they spell a number below the modulus; the element
/// comes back as the canonical text of its residue.
#[verifier::external_body]
pub(crate) fn bn254_fq_from_bytes(bytes: &[u8]) -> (r: Result<String, ark_serialize::SerializationError>)
    ensures
        text_result(r, field_from_bytes(Field::Bn254Fq, bytes@), Field::Bn254Fq),
{
    match ark_bn254::Fq::deserialize_compressed(bytes) {
        Ok(v) => Ok(v.to_string()),
        Err(e) => Err(e),
    }
}

/// `serialize_compressed` of `taceo_ark_babyjubjub::Fr`, on the element that the text spells.
/// Believed: the bytes are the residue, least significant byte first, in as
/// many bytes as the bits of the modulus take.
#[verifier::external_body]
pub(crate) fn babyjubjub_fr_to_bytes(text: &str) -> (r: Vec<u8>)
    requires
        is_residue_text(text@, Field::BabyJubJubFr),
    ensures
        is_field_bytes(Field::BabyJubJubFr, text_value(text@), r@),
{
    let mut out = Vec::new();
    let _ = taceo_ark_babyjubjub::Fr::from_str(text).unwrap_or_default().serialize_compressed(&mut out);
    out
}

/// `deserialize_compressed` of `taceo_ark_babyjubjub::Fr`, on the front of `bytes`. Believed:
/// it reads as many bytes as the field takes, least significant first, and
/// accepts them where they spell a number below the modulus; the element
/// comes back as the canonical text of its residue.
#[verifier::external_body]
pub(crate) fn babyjubjub_fr_from_bytes(bytes: &[u8]) -> (r: Result<String, ark_serialize::SerializationError>)
    ensures
        text_result(r, field_from_bytes(Field::BabyJubJubFr, bytes@), Field::BabyJubJubFr),
{
    match taceo_ark_babyjubjub::Fr::deserialize_compressed(bytes) {
        Ok(v) => Ok(v.to_string()),
        Err(e) => Err(e),
    }
}

/// `serialize_compressed` of `ark_bls12_381::Fr`, on the element that the text spells.
/// Believed: the bytes are the residue, least significant byte first, in as
/// many bytes as the bits of the modulus take.
#[verifier::external_body]
pub(crate) fn bls12_381_fr_to_bytes(text: &str) -> (r: Vec<u8>)
    requires
        is_residue_text(text@, Field::Bls12381Fr),
    ensures
        is_field_bytes(Field::Bls12381Fr, text_value(text@), r@),
{
    let mut out = Vec::new();
    let _ = ark_bls12_381::Fr::from_str(text).unwrap_or_default().serialize_compressed(&mut out);
    out
}

/// `deserialize_compressed` of `ark_bls12_381::Fr`, on the front of `bytes`. Believed:
/// it reads as many bytes as the field takes, least significant first, and
/// accepts them where they spell a number below the modulus; the element
/// comes back as the canonical text of its residue.
#[verifier::external_body]
pub(crate) fn bls12_381_fr_from_bytes(bytes: &[u8]) -> (r: Result<String, ark_serialize::SerializationError>)
    ensures
        text_result(r, field_from_bytes(Field::Bls12381Fr, bytes@), Field::Bls12381Fr),
{
    match ark_bls12_381::Fr::deserialize_compressed(bytes) {
        Ok(v) => Ok(v.to_string()),
        Err(e) => Err(e),
    }
}

/// `serialize_compressed` of `ark_bls12_381::Fq`, on the element that the text spells.
/// Believed: the bytes are the residue, least significant byte first, in as
/// many bytes as the bits of the modulus take.
#[verifier::external_body]
pub(crate) fn bls12_381_fq_to_bytes(text: &str) -> (r: Vec<u8>)
    requires
        is_residue_text(text@, Field::Bls12381Fq),
    ensures
        is_field_bytes(Field::Bls12381Fq, text_value(text@), r@),
{
    let mut out = Vec::new();
    let _ = ark_bls12_381::Fq::from_str(text).unwrap_or_default().serialize_compressed(&mut out);
    out
}

/// `deserialize_compressed` of `ark_bls12_381::Fq`, on the front of `bytes`. Believed:
/// it reads as many bytes as the field takes, least significant first, and
/// accepts them where they spell a number below the modulus; the element
/// comes back as the canonical text of its residue.
#[verifier::external_body]
pub(crate) fn bls12_381_fq_from_bytes(bytes: &[u8]) -> (r: Result<String, ark_serialize::SerializationError>)
    ensures
        text_result(r, field_from_bytes(Field::Bls12381Fq, bytes@), Field::Bls12381Fq),
{
    match ark_bls12_381::Fq::deserialize_compressed(bytes) {
        Ok(v) => Ok(v.to_string()),
        Err(e) => Err(e),
    }
}

/// `serialize_compressed` of `ark_bn254::G1Affine`, on the point that
/// `new_unchecked` makes of `(x, y)`. Believed: the bytes depend on the two
/// residues alone.
#[verifier::external_body]
pub(crate) fn bn254_g1_to_bytes(x: &str, y: &str) -> (r: Vec<u8>)
    requires
        is_residue_text(x@, Field::Bn254Fq),
        is_residue_text(y@, Field::Bn254Fq),
    ensures
        r@ == g1_bytes(Curve::Bn254, text_value(x@), text_value(y@)),
{
    let f = |s: &str| ark_bn254::Fq::from_str(s).unwrap_or_default();
    let mut out = Vec::new();
    let _ = ark_bn254::G1Affine::new_unchecked(f(x), f(y)).serialize_compressed(&mut out);
    out
}

/// `deserialize_compressed` of `ark_bn254::G1Affine`, on the front of `bytes`; it reads a
/// point and validates it. Believed: the outcome depends on the bytes alone;
/// a point comes back as the canonical texts of its two coordinates.
#[verifier::external_body]
pub(crate) fn bn254_g1_from_bytes_checked(bytes: &[u8]) -> (r: Result<
    (String, String),
    ark_serialize::SerializationError,
>)
    ensures
        pair_result(r, g1_from_bytes_checked(Curve::Bn254, bytes@), Field::Bn254Fq),
{
    match ark_bn254::G1Affine::deserialize_compressed(bytes) {
        Ok(p) => Ok((p.x.to_string(), p.y.to_string())),
        Err(e) => Err(e),
    }
}

/// `deserialize_compressed_unchecked` of `ark_bn254::G1Affine`, on the front of `bytes`; it reads a
/// point and does not validate it. Believed: the outcome depends on the bytes alone;
/// a point comes back as the canonical texts of its two coordinates.
#[verifier::external_body]
pub(crate) fn bn254_g1_from_bytes_unchecked(bytes: &[u8]) -> (r: Result<
    (String, String),
    ark_serialize::SerializationError,
>)
    ensures
        pair_result(r, g1_from_bytes_unchecked(Curve::Bn254, bytes@), Field::Bn254Fq),
{
    match ark_bn254::G1Affine::deserialize_compressed_unchecked(bytes) {
        Ok(p) => Ok((p.x.to_string(), p.y.to_string())),
        Err(e) => Err(e),
    }
}

/// `serialize_compressed` of `ark_bn254::G2Affine`, on the point that
/// `new_unchecked` makes of `(x, y)`, each coordinate given by its two
/// parts. Believed: the bytes depend on the four residues alone.
#[verifier::external_body]
pub(crate) fn bn254_g2_to_bytes(x0: &str, x1: &str, y0: &str, y1: &str) -> (r: Vec<u8>)
    requires
        is_residue_text(x0@, Field::Bn254Fq),
        is_residue_text(x1@, Field::Bn254Fq),
        is_residue_text(y0@, Field::Bn254Fq),
        is_residue_text(y1@, Field::Bn254Fq),
    ensures
        r@ == g2_bytes(
            Curve::Bn254,
            (text_value(x0@), text_value(x1@)),
            (text_value(y0@), text_value(y1@)),
        ),
{
    let f = |a: &str, b: &str| ark_bn254::Fq2::new(ark_bn254::Fq::from_str(a).unwrap_or_default(), ark_bn254::Fq::from_str(b).unwrap_or_default());
    let mut out = Vec::new();
    let _ = ark_bn254::G2Affine::new_unchecked(f(x0, x1), f(y0, y1)).serialize_compressed(&mut out);
    out
}

/// `deserialize_compressed` of `ark_bn254::G2Affine`, on the front of `bytes`; it reads a
/// point and validates it. Believed: the outcome depends on the bytes alone;
/// a point comes back as the canonical texts of its four coordinate parts.
#[verifier::external_body]
pub(crate) fn bn254_g2_from_bytes_checked(bytes: &[u8]) -> (r: Result<
    (String, String, String, String),
    ark_serialize::SerializationError,
>)
    ensures
        quad_result(r, g2_from_bytes_checked(Curve::Bn254, bytes@), Field::Bn254Fq),
{
    match ark_bn254::G2Affine::deserialize_compressed(bytes) {
        Ok(p) => Ok((p.x.c0.to_string(), p.x.c1.to_string(), p.y.c0.to_string(), p.y.c1.to_string())),
        Err(e) => Err(e),
    }
}

/// `deserialize_compressed_unchecked` of `ark_bn254::G2Affine`, on the front of `bytes`; it reads a
/// point and does not validate it. Believed: the outcome depends on the bytes alone;
/// a point comes back as the canonical texts of its four coordinate parts.
#[verifier::external_body]
pub(crate) fn bn254_g2_from_bytes_unchecked(bytes: &[u8]) -> (r: Result<
    (String, String, String, String),
    ark_serialize::SerializationError,
>)
    ensures
        quad_result(r, g2_from_bytes_unchecked(Curve::Bn254, bytes@), Field::Bn254Fq),
{
    match ark_bn254::G2Affine::deserialize_compressed_unchecked(bytes) {
        Ok(p) => Ok((p.x.c0.to_string(), p.x.c1.to_string(), p.y.c0.to_string(), p.y.c1.to_string())),
        Err(e) => Err(e),
    }
}

/// `serialize_compressed` of `ark_bls12_381::G1Affine`, on the point that
/// `new_unchecked` makes of `(x, y)`. Believed: the bytes depend on the two
/// residues alone.
#[verifier::external_body]
pub(crate) fn bls12_381_g1_to_bytes(x: &str, y: &str) -> (r: Vec<u8>)
    requires
        is_residue_text(x@, Field::Bls12381Fq),
        is_residue_text(y@, Field::Bls12381Fq),
    ensures
        r@ == g1_bytes(Curve::Bls12381, text_value(x@), text_value(y@)),
{
    let f = |s: &str| ark_bls12_381::Fq::from_str(s).unwrap_or_default();
    let mut out = Vec::new();
    let _ = ark_bls12_381::G1Affine::new_unchecked(f(x), f(y)).serialize_compressed(&mut out);
    out
}

/// `deserialize_compressed` of `ark_bls12_381::G1Affine`, on the front of `bytes`; it reads a
/// point and validates it. Believed: the outcome depends on the bytes alone;
/// a point comes back as the canonical texts of its two coordinates.
#[verifier::external_body]
pub(crate) fn bls12_381_g1_from_bytes_checked(bytes: &[u8]) -> (r: Result<
    (String, String),
    ark_serialize::SerializationError,
>)
    ensures
        pair_result(r, g1_from_bytes_checked(Curve::Bls12381, bytes@), Field::Bls12381Fq),
{
    match ark_bls12_381::G1Affine::deserialize_compressed(bytes) {
        Ok(p) => Ok((p.x.to_string(), p.y.to_string())),
        Err(e) => Err(e),
    }
}

/// `deserialize_compressed_unchecked` of `ark_bls12_381::G1Affine`, on the front of `bytes`; it reads a
/// point and does not validate it. Believed: the outcome depends on the bytes alone;
/// a point comes back as the canonical texts of its two coordinates.
#[verifier::external_body]
pub(crate) fn bls12_381_g1_from_bytes_unchecked(bytes: &[u8]) -> (r: Result<
    (String, String),
    ark_serialize::SerializationError,
>)
    ensures
        pair_result(r, g1_from_bytes_unchecked(Curve::Bls12381, bytes@), Field::Bls12381Fq),
{
    match ark_bls12_381::G1Affine::deserialize_compressed_unchecked(bytes) {
        Ok(p) => Ok((p.x.to_string(), p.y.to_string())),
        Err(e) => Err(e),
    }
}

/// `serialize_compressed` of `ark_bls12_381::G2Affine`, on the point that
/// `new_unchecked` makes of `(x, y)`, each coordinate given by its two
/// parts. Believed: the bytes depend on the four residues alone.
#[verifier::external_body]
pub(crate) fn bls12_381_g2_to_bytes(x0: &str, x1: &str, y0: &str, y1: &str) -> (r: Vec<u8>)
    requires
        is_residue_text(x0@, Field::Bls12381Fq),
        is_residue_text(x1@, Field::Bls12381Fq),
        is_residue_text(y0@, Field::Bls12381Fq),
        is_residue_text(y1@, Field::Bls12381Fq),
    ensures
        r@ == g2_bytes(
            Curve::Bls12381,
            (text_value(x0@), text_value(x1@)),
            (text_value(y0@), text_value(y1@)),
        ),
{
    let f = |a: &str, b: &str| ark_bls12_381::Fq2::new(ark_bls12_381::Fq::from_str(a).unwrap_or_default(), ark_bls12_381::Fq::from_str(b).unwrap_or_default());
    let mut out = Vec::new();
    let _ = ark_bls12_381::G2Affine::new_unchecked(f(x0, x1), f(y0, y1)).serialize_compressed(&mut out);
    out
}

/// `deserialize_compressed` of `ark_bls12_381::G2Affine`, on the front of `bytes`; it reads a
/// point and validates it. Believed: the outcome depends on the bytes alone;
/// a point comes back as the canonical texts of its four coordinate parts.
#[verifier::external_body]
pub(crate) fn bls12_381_g2_from_bytes_checked(bytes: &[u8]) -> (r: Result<
    (String, String, String, String),
    ark_serialize::SerializationError,
>)
    ensures
        quad_result(r, g2_from_bytes_checked(Curve::Bls12381, bytes@), Field::Bls12381Fq),
{
    match ark_bls12_381::G2Affine::deserialize_compressed(bytes) {
        Ok(p) => Ok((p.x.c0.to_string(), p.x.c1.to_string(), p.y.c0.to_string(), p.y.c1.to_string())),
        Err(e) => Err(e),
    }
}

/// `deserialize_compressed_unchecked` of `ark_bls12_381::G2Affine`, on the front of `bytes`; it reads a
/// point and does not validate it. Believed: the outcome depends on the bytes alone;
/// a point comes back as the canonical texts of its four coordinate parts.
#[verifier::external_body]
pub(crate) fn bls12_381_g2_from_bytes_unchecked(bytes: &[u8]) -> (r: Result<
    (String, String, String, String),
    ark_serialize::SerializationError,
>)
    ensures
        quad_result(r, g2_from_bytes_unchecked(Curve::Bls12381, bytes@), Field::Bls12381Fq),
{
    match ark_bls12_381::G2Affine::deserialize_compressed_unchecked(bytes) {
        Ok(p) => Ok((p.x.c0.to_string(), p.x.c1.to_string(), p.y.c0.to_string(), p.y.c1.to_string())),
        Err(e) => Err(e),
    }
}

/// `serialize_compressed` of `taceo_ark_babyjubjub::EdwardsAffine`, on the
/// point that `new_unchecked` makes of `(x, y)`. Believed: the bytes depend
/// on the two residues alone.
#[verifier::external_body]
pub(crate) fn babyjubjub_to_bytes(x: &str, y: &str) -> (r: Vec<u8>)
    requires
        is_residue_text(x@, Field::Bn254Fr),
        is_residue_text(y@, Field::Bn254Fr),
    ensures
        r@ == edwards_bytes(text_value(x@), text_value(y@)),
{
    let f = |s: &str| taceo_ark_babyjubjub::Fq::from_str(s).unwrap_or_default();
    let mut out = Vec::new();
    let _ = taceo_ark_babyjubjub::EdwardsAffine::new_unchecked(f(x), f(y)).serialize_compressed(&mut out);
    out
}

/// `deserialize_compressed` of `taceo_ark_babyjubjub::EdwardsAffine`, on the front of
/// `bytes`; it reads a point and validates it. Believed: the outcome depends
/// on the bytes alone; a point comes back as the canonical texts of its two
/// coordinates.
#[verifier::external_body]
pub(crate) fn babyjubjub_from_bytes_checked(bytes: &[u8]) -> (r: Result<
    (String, String),
    ark_serialize::SerializationError,
>)
    ensures
        pair_result(r, edwards_from_bytes_checked(bytes@), Field::Bn254Fr),
{
    match taceo_ark_babyjubjub::EdwardsAffine::deserialize_compressed(bytes) {
        Ok(p) => Ok((p.x.to_string(), p.y.to_string())),
        Err(e) => Err(e),
    }
}

/// `deserialize_compressed_unchecked` of `taceo_ark_babyjubjub::EdwardsAffine`, on the front of
/// `bytes`; it reads a point and does not validate it. Believed: the outcome depends
/// on the bytes alone; a point comes back as the canonical texts of its two
/// coordinates.
#[verifier::external_body]
pub(crate) fn babyjubjub_from_bytes_unchecked(bytes: &[u8]) -> (r: Result<
    (String, String),
    ark_serialize::SerializationError,
>)
    ensures
        pair_result(r, edwards_from_bytes_unchecked(bytes@), Field::Bn254Fr),
{
    match taceo_ark_babyjubjub::EdwardsAffine::deserialize_compressed_unchecked(bytes) {
        Ok(p) => Ok((p.x.to_string(), p.y.to_string())),
        Err(e) => Err(e),
    }
}

} // verus!
