//! The pairing-target codec: an element of the degree-twelve extension as a
//! nested array of shape 2 x 3 x 2 of decimal texts.

use crate::curve::{Curve, Fq2};
use crate::error::{DecodeError, Dimension};
use crate::field::Field;
use crate::point::{decode_fq2, encode_fq2, fq2_spec, lemma_scalar_round_trip};
use crate::text::{texts, texts2, texts3};
use vstd::prelude::*;

verus! {

/// An element `c0 + c1 * v + c2 * v^2` of the cubic extension of the
/// quadratic extension.
#[derive(Debug, PartialEq, Eq)]
pub struct Fq6 {
    pub c0: Fq2,
    pub c1: Fq2,
    pub c2: Fq2,
}

/// An element `c0 + c1 * w` of the pairing target, the quadratic extension of
/// the cubic extension.
#[derive(Debug, PartialEq, Eq)]
pub struct Fq12 {
    pub c0: Fq6,
    pub c1: Fq6,
}

impl View for Fq6 {
    type V = ((nat, nat), (nat, nat), (nat, nat));

    open spec fn view(&self) -> ((nat, nat), (nat, nat), (nat, nat)) {
        (self.c0@, self.c1@, self.c2@)
    }
}

impl View for Fq12 {
    type V = (((nat, nat), (nat, nat), (nat, nat)), ((nat, nat), (nat, nat), (nat, nat)));

    open spec fn view(&self) -> (
        ((nat, nat), (nat, nat), (nat, nat)),
        ((nat, nat), (nat, nat), (nat, nat)),
    ) {
        (self.c0@, self.c1@)
    }
}

impl Clone for Fq6 {
    fn clone(&self) -> (r: Self)
        ensures
            r == *self,
    {
        Fq6 { c0: self.c0.clone(), c1: self.c1.clone(), c2: self.c2.clone() }
    }
}

impl Clone for Fq12 {
    fn clone(&self) -> (r: Self)
        ensures
            r == *self,
    {
        Fq12 { c0: self.c0.clone(), c1: self.c1.clone() }
    }
}

impl Fq6 {
    /// All parts are well-formed over `field`.
    pub open spec fn wf_in(&self, field: Field) -> bool {
        self.c0.wf_in(field) && self.c1.wf_in(field) && self.c2.wf_in(field)
    }

    /// The three pairs of texts that spell the element.
    pub open spec fn wire_texts(&self) -> Seq<Seq<Seq<char>>> {
        seq![self.c0.wire_texts(), self.c1.wire_texts(), self.c2.wire_texts()]
    }
}

impl Fq12 {
    /// All parts are well-formed over `field`.
    pub open spec fn wf_in(&self, field: Field) -> bool {
        self.c0.wf_in(field) && self.c1.wf_in(field)
    }

    /// The two triples of pairs of texts that spell the element.
    pub open spec fn wire_texts(&self) -> Seq<Seq<Seq<Seq<char>>>> {
        seq![self.c0.wire_texts(), self.c1.wire_texts()]
    }
}

/// What an inner array decodes to: exactly two unsigned residues.
pub open spec fn inner_spec(pair: Seq<Seq<char>>, field: Field, position: usize) -> Result<
    (nat, nat),
    DecodeError,
> {
    if pair.len() != 2 {
        Err(DecodeError::ShapeMismatch { dimension: Dimension::Inner, found: pair.len() as usize })
    } else {
        fq2_spec(pair, field, position)
    }
}

/// What a middle array of three inner arrays decodes to, read in order.
pub open spec fn fq6_spec(triple: Seq<Seq<Seq<char>>>, field: Field, position: usize) -> Result<
    ((nat, nat), (nat, nat), (nat, nat)),
    DecodeError,
>
    recommends
        triple.len() == 3,
{
    match inner_spec(triple[0], field, position) {
        Err(e) => Err(e),
        Ok(a) => match inner_spec(triple[1], field, (position + 2) as usize) {
            Err(e) => Err(e),
            Ok(b) => match inner_spec(triple[2], field, (position + 4) as usize) {
                Err(e) => Err(e),
                Ok(c) => Ok((a, b, c)),
            },
        },
    }
}

/// What a nested array decodes to as a pairing-target element: the shape
/// must be exactly 2 x 3 x 2, the outer and middle levels being tested before
/// any text is read; every scalar is read unsigned. No other test applies.
pub open spec fn gt_spec(curve: Curve, w: Seq<Seq<Seq<Seq<char>>>>) -> Result<
    (((nat, nat), (nat, nat), (nat, nat)), ((nat, nat), (nat, nat), (nat, nat))),
    DecodeError,
> {
    if w.len() != 2 {
        Err(DecodeError::ShapeMismatch { dimension: Dimension::Outer, found: w.len() as usize })
    } else if w[0].len() != 3 {
        Err(DecodeError::ShapeMismatch { dimension: Dimension::Middle, found: w[0].len() as usize })
    } else if w[1].len() != 3 {
        Err(DecodeError::ShapeMismatch { dimension: Dimension::Middle, found: w[1].len() as usize })
    } else {
        match fq6_spec(w[0], curve.base(), 0) {
            Err(e) => Err(e),
            Ok(a) => match fq6_spec(w[1], curve.base(), 6) {
                Err(e) => Err(e),
                Ok(b) => Ok((a, b)),
            },
        }
    }
}

/// Decodes an inner array, the first of its scalars being the one at
/// `position`.
pub fn decode_inner(field: Field, pair: &Vec<String>, position: usize) -> (r: Result<
    Fq2,
    DecodeError,
>)
    requires
        position < usize::MAX,
    ensures
        match inner_spec(texts(pair@), field, position) {
            Ok(v) => r.is_ok() && r.unwrap().wf_in(field) && r.unwrap()@ == v,
            Err(e) => r.is_err() && r.unwrap_err() == e,
        },
{
    if pair.len() != 2 {
        return Err(DecodeError::ShapeMismatch { dimension: Dimension::Inner, found: pair.len() });
    }
    decode_fq2(field, pair, position)
}

/// Decodes a middle array of three inner arrays.
pub fn decode_fq6(field: Field, triple: &Vec<Vec<String>>, position: usize) -> (r: Result<
    Fq6,
    DecodeError,
>)
    requires
        triple.len() == 3,
        position < 1000,
    ensures
        match fq6_spec(texts2(triple@), field, position) {
            Ok(v) => r.is_ok() && r.unwrap().wf_in(field) && r.unwrap()@ == v,
            Err(e) => r.is_err() && r.unwrap_err() == e,
        },
{
    let c0 = match decode_inner(field, &triple[0], position) {
        Ok(f) => f,
        Err(e) => {
            return Err(e);
        },
    };
    let c1 = match decode_inner(field, &triple[1], position + 2) {
        Ok(f) => f,
        Err(e) => {
            return Err(e);
        },
    };
    let c2 = match decode_inner(field, &triple[2], position + 4) {
        Ok(f) => f,
        Err(e) => {
            return Err(e);
        },
    };
    Ok(Fq6 { c0, c1, c2 })
}

/// Decodes a pairing-target element from its nested array.
pub fn decode_gt(curve: Curve, w: &Vec<Vec<Vec<String>>>) -> (r: Result<Fq12, DecodeError>)
    ensures
        match gt_spec(curve, texts3(w@)) {
            Ok(v) => r.is_ok() && r.unwrap().wf_in(curve.base()) && r.unwrap()@ == v,
            Err(e) => r.is_err() && r.unwrap_err() == e,
        },
{
    if w.len() != 2 {
        return Err(DecodeError::ShapeMismatch { dimension: Dimension::Outer, found: w.len() });
    }
    if w[0].len() != 3 {
        return Err(DecodeError::ShapeMismatch { dimension: Dimension::Middle, found: w[0].len() });
    }
    if w[1].len() != 3 {
        return Err(DecodeError::ShapeMismatch { dimension: Dimension::Middle, found: w[1].len() });
    }
    let field: Field = curve.base_field();
    let c0 = match decode_fq6(field, &w[0], 0) {
        Ok(f) => f,
        Err(e) => {
            return Err(e);
        },
    };
    let c1 = match decode_fq6(field, &w[1], 6) {
        Ok(f) => f,
        Err(e) => {
            return Err(e);
        },
    };
    Ok(Fq12 { c0, c1 })
}

/// Encodes an element of the cubic extension as three pairs of texts.
pub fn encode_fq6(e: &Fq6) -> (r: Vec<Vec<String>>)
    ensures
        texts2(r@) == e.wire_texts(),
{
    let r = vec![encode_fq2(&e.c0), encode_fq2(&e.c1), encode_fq2(&e.c2)];
    assert(texts2(r@) =~= e.wire_texts());
    r
}

/// Encodes a pairing-target element as its nested array.
pub fn encode_gt(e: &Fq12) -> (r: Vec<Vec<Vec<String>>>)
    ensures
        texts3(r@) == e.wire_texts(),
{
    let r = vec![encode_fq6(&e.c0), encode_fq6(&e.c1)];
    assert(texts3(r@) =~= e.wire_texts());
    r
}

/// The two texts of a well-formed element of the quadratic extension are
/// read back as its value.
pub proof fn lemma_fq2_round_trip(e: Fq2, field: Field, position: usize)
    requires
        e.wf_in(field),
        position < usize::MAX,
    ensures
        inner_spec(e.wire_texts(), field, position) == Ok::<(nat, nat), DecodeError>(e@),
{
    lemma_scalar_round_trip(e.c0, position);
    lemma_scalar_round_trip(e.c1, (position + 1) as usize);
}

/// Round trip: what `encode_gt` gives for a well-formed element decodes to
/// that element.
pub proof fn lemma_gt_round_trip(curve: Curve, e: Fq12)
    requires
        e.wf_in(curve.base()),
    ensures
        gt_spec(curve, e.wire_texts()) == Ok::<
            (((nat, nat), (nat, nat), (nat, nat)), ((nat, nat), (nat, nat), (nat, nat))),
            DecodeError,
        >(e@),
{
    let f = curve.base();
    lemma_fq2_round_trip(e.c0.c0, f, 0);
    lemma_fq2_round_trip(e.c0.c1, f, 2);
    lemma_fq2_round_trip(e.c0.c2, f, 4);
    lemma_fq2_round_trip(e.c1.c0, f, 6);
    lemma_fq2_round_trip(e.c1.c1, f, 8);
    lemma_fq2_round_trip(e.c1.c2, f, 10);
}

} // verus!
