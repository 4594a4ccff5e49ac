use vstd::prelude::*;

verus! {

/// The failures that decoding can report.
#[derive(Clone, Copy, Debug, PartialEq, Eq, Structural)]
pub enum Error {
    /// A bit or byte range lies outside the data of its layer.
    Range,
    /// The bytes of a field do not parse as the field's declared type.
    Type,
    /// A requested attribute or decoder is not registered.
    Lookup,
    /// A dynamic field refers to a sibling that is not resolved before it.
    Malformed,
}

} // verus!
