//! What can go wrong while decoding.
use vstd::prelude::*;

verus! {

/// A record field that a structural rule constrains.
#[derive(Clone, Copy, Debug, PartialEq, Eq, Structural)]
pub enum Field {
    VarLen,
    Count,
}

#[derive(Clone, Copy, Debug, PartialEq, Eq, Structural)]
pub enum DecodeError {
    /// Fewer bytes remained than a field or payload needs.
    UnexpectedEndOfInput,
    /// A record's tag does not belong to the section's family
    /// (`expected` is the family's high nibble, as `0x20`, `0x40`, `0x60`).
    FamilyMismatch { expected: u8, got: u8 },
    /// A rule of one record type does not hold of a field.
    FieldInvariantViolation { rtype: u8, field: Field, value: u32 },
    /// A pascal string's own length byte disagrees with its record.
    LengthMismatch { expected: u8, got: u8 },
    /// A text field's bytes are not valid text.
    InvalidText,
}

} // verus!
