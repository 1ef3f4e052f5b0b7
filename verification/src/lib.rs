//! Canonical codec for prime-field elements, curve points and pairing-target
//! elements in the decimal-string convention of circom.
//!
//! A field element is held by its canonical decimal text. Every decoder
//! states in its contract exactly which inputs it accepts and which error
//! each rejected input gives; what the arithmetic library computes (the
//! affine form of a point, the subgroup test, the compressed bytes) enters
//! through small functions whose contracts are believed, not proved.

pub mod babyjubjub;
pub mod binary;
pub mod bn254;
pub mod config;
pub mod curve;
pub mod decimal;
pub mod edwards;
pub mod error;
pub mod field;
pub mod frame;
pub mod header;
pub mod parse;
pub mod point;
pub mod public_input;
pub mod text;
pub mod tower;
pub mod wire;

pub use crate::config::ZkeyConvertConfig;
pub use crate::header::InvalidHeaderError;
pub use crate::public_input::PublicInput;
pub use crate::wire::{
    deserialize_f, deserialize_f_seq, deserialize_f_seq_signed, deserialize_f_signed, serialize_f,
    serialize_f_seq,
};
