use vstd::prelude::*;

use crate::classify::Field;

verus! {

/// The ways a compression or decompression run can fail.
#[derive(Clone, Copy, Debug, PartialEq, Eq, Structural)]
pub enum CodecError {
    /// A column that the caller asked for is not in the table.
    MissingColumn,
    /// A value is not valid text for its column (bad hex, bad decimal, no
    /// `0x`): the column and the row.
    InvalidEncoding { field: Field, row: usize },
    /// A stored artifact does not describe any column (zero run, lengths that
    /// disagree, a total that does not fit a row count).
    MalformedArtifact,
    /// A stored dictionary index points past the end of the dictionary.
    DictionaryIndexOutOfRange { row: usize },
    /// The normalized vector does not have unit length.
    NormalizationInvariantViolation,
    /// A merge was asked for with no artifacts at all.
    EmptyArtifactSet,
}

impl CodecError {
    /// The column named by an `InvalidEncoding` error.
    pub open spec fn failed_field(self) -> Field {
        match self {
            CodecError::InvalidEncoding { field, .. } => field,
            _ => Field::BlockNumber,
        }
    }
}

} // verus!
