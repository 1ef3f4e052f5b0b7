//! The public input of a proof: a sequence of scalars that circom writes as
//! decimal texts, negative ones included.

use crate::error::SequenceError;
use crate::field::{Field, FieldElement};
use crate::wire::{
    all_in_field, deserialize_f_seq_signed, element_values, field_seq_wire_as,
    is_field_seq_bytes, serialize_f_seq, Wire,
};
use vstd::prelude::*;

verus! {

/// The values of a public input.
///
/// Its texts are read signed, since circom writes negative inputs: `-1` and
/// the text of `p - 1` are the same input. Where that is not acceptable,
/// decode the texts unsigned instead.
#[derive(Debug, Clone, PartialEq, Eq)]
pub struct PublicInput(pub Vec<FieldElement>);

impl PublicInput {
    /// Consumes `self` and returns the inner values.
    pub fn into_inner(self) -> (r: Vec<FieldElement>)
        ensures
            r == self.0,
    {
        self.0
    }

    /// The inner values.
    pub fn as_ref(&self) -> (r: &Vec<FieldElement>)
        ensures
            *r == self.0,
    {
        &self.0
    }

    /// Serializes the values as a sequence of elements of `field`.
    pub fn serialize(&self, field: Field, human_readable: bool) -> (r: Wire<Vec<String>>)
        requires
            all_in_field(self.0@, field),
        ensures
            human_readable ==> (r matches Wire::Readable(c) && c.len() == self.0.len()
                && forall|i: int| 0 <= i < self.0.len() ==> (#[trigger] c[i])@ == self.0[i].text()),
            !human_readable ==> (r matches Wire::Binary(b) && is_field_seq_bytes(
                field,
                element_values(self.0@),
                b@,
            )),
            field_seq_wire_as(Ok(self.0), field, r, false),
    {
        serialize_f_seq(field, &self.0, human_readable)
    }

    /// Deserializes a public input of elements of `field`; texts may be
    /// signed.
    pub fn deserialize(field: Field, w: &Wire<Vec<String>>) -> (r: Result<PublicInput, SequenceError>)
        ensures
            match r {
                Ok(p) => field_seq_wire_as(Ok(p.0), field, *w, false),
                Err(e) => field_seq_wire_as(Err(e), field, *w, false),
            },
    {
        match deserialize_f_seq_signed(field, w) {
            Ok(v) => Ok(PublicInput(v)),
            Err(e) => Err(e),
        }
    }
}

} // verus!
