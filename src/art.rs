use vstd::prelude::*;
use vstd::string::StringSliceAdditionalSpecFns;
use crate::hash::{fnv1a, fnv1a_of};

verus! {

/// A request to generate art from a text seed and a depth budget.
pub struct RandomArtGenerate {
    pub string: String,
    pub depth: u32,
}

impl RandomArtGenerate {
    /// The grammar seed: FNV-1a of the text's UTF-8 bytes.
    pub fn seed(&self) -> (r: u64)
        ensures
            r == fnv1a_of(vstd::utf8::encode_utf8(self.string@)),
    {
        fnv1a(self.string.as_str())
    }
}

/// A request to read a formula file (named without its `.txt` extension).
pub struct RandomArtRead {
    pub input_file: String,
}

} // verus!
