//! The settings of the conversion of a proving key into the arithmetic
//! library's own format.

use vstd::prelude::*;

verus! {

/// Where the conversion reads the proving key and what it writes.
#[derive(Debug, Clone, PartialEq, Eq)]
pub struct ZkeyConvertConfig {
    /// Path to the zkey.
    pub zkey_path: String,
    /// Output path of the matrices file, where one is wanted.
    pub matrices_path: Option<String>,
    /// Output path of the proving key file, where one is wanted.
    pub pk_path: Option<String>,
    /// Output path of the converted zkey.
    pub arks_zkey_path: String,
    /// Write the uncompressed serialization.
    pub uncompressed: bool,
}

impl ZkeyConvertConfig {
    /// Whether the output is written compressed.
    pub fn compressed(&self) -> (r: bool)
        ensures
            r == !self.uncompressed,
    {
        !self.uncompressed
    }

    /// How many files the conversion writes: the converted zkey, and each of
    /// the two others that has a path.
    pub fn output_count(&self) -> (r: usize)
        ensures
            r == 1 + (if self.matrices_path.is_some() { 1int } else { 0int }) + (
            if self.pk_path.is_some() { 1int } else { 0int }),
    {
        let mut n: usize = 1;
        if self.matrices_path.is_some() {
            n = n + 1;
        }
        if self.pk_path.is_some() {
            n = n + 1;
        }
        n
    }
}

} // verus!
