//! Why an alignment run is abandoned.
use vstd::prelude::*;

verus! {

/// A structural fault in the sources. Any of them ends the run: the sources
/// no longer have the shape that the alignment assumes.
#[derive(Clone, Copy, Debug, PartialEq, Eq, Structural)]
pub enum AlignError {
    /// An enumerated source code that has no counterpart in the model.
    UnsupportedCode,
    /// A record lacks a value that the model requires.
    MissingField,
    /// A coordinate text that does not have exactly two components.
    CoordinateArity,
    /// A numeric field whose text is not a number.
    MalformedNumber,
    /// A calendar date that does not exist, or a stop time too far past the
    /// first service day.
    InvalidDate,
    /// A feed that does not name exactly one agency.
    AgencyCount,
}

impl AlignError {
    /// The words that describe the fault.
    pub open spec fn message_text(self) -> Seq<char> {
        match self {
            AlignError::UnsupportedCode => "unsupported enumerated code"@,
            AlignError::MissingField => "missing required field"@,
            AlignError::CoordinateArity => "coordinates must have exactly two components"@,
            AlignError::MalformedNumber => "malformed number"@,
            AlignError::InvalidDate => "invalid date or time"@,
            AlignError::AgencyCount => "a feed must have exactly one agency"@,
        }
    }

    /// A description of the fault for the operator.
    pub fn message(&self) -> (r: String)
        ensures
            r@ == self.message_text(),
    {
        match self {
            AlignError::UnsupportedCode => String::from_str("unsupported enumerated code"),
            AlignError::MissingField => String::from_str("missing required field"),
            AlignError::CoordinateArity => String::from_str(
                "coordinates must have exactly two components",
            ),
            AlignError::MalformedNumber => String::from_str("malformed number"),
            AlignError::InvalidDate => String::from_str("invalid date or time"),
            AlignError::AgencyCount => String::from_str("a feed must have exactly one agency"),
        }
    }
}

} // verus!
