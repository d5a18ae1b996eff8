//! The codec traits: a type with a wire serialization, and a type parsed
//! out of a byte buffer against a mathematical parse model.

use vstd::prelude::*;
use crate::result::ParseError;

verus! {

/// Types with a wire serialization.
pub trait Serialize {
    /// The wire bytes this value serializes to.
    spec fn spec_serialize(&self) -> Seq<u8>;

    /// Emits the value's wire bytes, exactly as `spec_serialize` gives
    /// them.
    fn serialize(&self) -> (r: Vec<u8>)
        ensures
            r@ == self.spec_serialize(),
    ;
}

/// Types parsed out of a byte buffer.
pub trait Parse: Sized + View {
    /// The parse model: the value the bytes denote, if they parse.
    spec fn spec_parse(bytes: Seq<u8>) -> Option<Self::V>;

    /// Parses a value out of the buffer: `Ok` exactly when the model
    /// accepts the bytes, and then the parsed value is the model's.
    fn parse(bytes: &[u8]) -> (r: Result<Self, ParseError>)
        ensures
            match r {
                Ok(v) => Self::spec_parse(bytes@) == Some(v@),
                Err(_) => Self::spec_parse(bytes@) is None,
            },
    ;
}

} // verus!
