//! What a decoder reports, and the switch between checked and unchecked
//! decoding of points.

use crate::parse::ParseError;
use vstd::prelude::*;

verus! {

/// Whether a decoded point is held to the curve and its prime-order subgroup.
#[derive(Clone, Copy, Debug, PartialEq, Eq, Structural)]
pub enum ValidationMode {
    /// The point must lie on the curve and in the subgroup.
    Checked,
    /// Neither is tested. The point that comes out may lie off the curve: for
    /// input that is trusted only.
    Unchecked,
}

/// A level of the nested arrays that spell a pairing-target element.
#[derive(Clone, Copy, Debug, PartialEq, Eq, Structural)]
pub enum Dimension {
    /// The outer array, of two cubic-extension elements.
    Outer,
    /// A middle array, of three quadratic-extension elements.
    Middle,
    /// An inner array, of two scalars.
    Inner,
}

/// Why a wire value was refused.
#[derive(Clone, Copy, Debug, PartialEq, Eq, Structural)]
pub enum DecodeError {
    /// The scalar at `position`, counted over the scalars of the value from
    /// the first, is no canonical text of a residue.
    Scalar { position: usize, error: ParseError },
    /// The coordinate at `position` is not there.
    MissingCoordinate { position: usize },
    /// The array holds more coordinates than a point has.
    UnexpectedTrailingElement,
    /// The array of coordinate `coordinate` holds `found` scalars, not two.
    CoordinateArityError { coordinate: usize, found: usize },
    /// An array at the level `dimension` holds `found` entries.
    ShapeMismatch { dimension: Dimension, found: usize },
    /// `found` entries where `expected` were asked for.
    LengthMismatch { expected: usize, found: usize },
    /// The point does not satisfy the curve equation.
    CurveViolation,
    /// The point lies on the curve but outside the prime-order subgroup.
    SubgroupViolation,
    /// The bytes are no compressed encoding that the arithmetic library
    /// accepts.
    InvalidEncoding,
}

/// The error of one entry of a sequence, with the entry's index.
#[derive(Clone, Copy, Debug, PartialEq, Eq, Structural)]
pub struct ElementError {
    pub index: usize,
    pub error: DecodeError,
}

/// Why a sequence was refused.
#[derive(Clone, Copy, Debug, PartialEq, Eq, Structural)]
pub enum SequenceError {
    /// The entry at `index` was refused with `error`; every entry before it
    /// is in order. A count that was asked for and not met is reported under
    /// the index behind the last entry.
    Entry(ElementError),
    /// The compact form holds fewer bytes than its count of entries takes.
    Encoding,
}

/// The verdict on a finite point in checked decoding, from the two tests of
/// the arithmetic library: the curve equation comes first.
pub open spec fn checked_verdict_spec(on_curve: bool, in_subgroup: bool) -> Result<(), DecodeError> {
    if !on_curve {
        Err(DecodeError::CurveViolation)
    } else if !in_subgroup {
        Err(DecodeError::SubgroupViolation)
    } else {
        Ok(())
    }
}

/// The verdict on a finite point in checked decoding.
pub fn checked_verdict(on_curve: bool, in_subgroup: bool) -> (r: Result<(), DecodeError>)
    ensures
        r == checked_verdict_spec(on_curve, in_subgroup),
{
    if !on_curve {
        Err(DecodeError::CurveViolation)
    } else if !in_subgroup {
        Err(DecodeError::SubgroupViolation)
    } else {
        Ok(())
    }
}

} // verus!
