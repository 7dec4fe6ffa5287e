use vstd::prelude::*;

verus! {

/// A fault of the engine itself. A fault is never a negative result: an
/// assertion that was read and compared and did not hold is reported through
/// `passed == false`, not through this type.
#[derive(Clone, Copy, Debug, PartialEq, Eq, Structural)]
pub enum EngineError {
    /// An offset or a range reaches past the end of the buffer.
    OutOfRange,
    /// The buffer could not be acquired for reading.
    LockFailure,
    /// Two operands are of different kinds, or the operator is not defined
    /// for the kind of its operands.
    TypeMismatch,
    /// The field belongs to the schema but is not evaluated yet.
    UnsupportedField,
    /// Bytes that do not decode to a known discriminant.
    MalformedEncoding,
}

impl EngineError {
    pub open spec fn message_spec(self) -> Seq<char> {
        match self {
            EngineError::OutOfRange => "offset or range exceeds the buffer length"@,
            EngineError::LockFailure => "buffer unavailable for reading"@,
            EngineError::TypeMismatch => "operand kind or operator mismatch"@,
            EngineError::UnsupportedField => "field not yet supported"@,
            EngineError::MalformedEncoding => "bytes do not decode to a known discriminant"@,
        }
    }

    /// The text a caller may show for this fault.
    pub fn message(&self) -> (text: &'static str)
        ensures
            text@ == self.message_spec(),
    {
        match self {
            EngineError::OutOfRange => "offset or range exceeds the buffer length",
            EngineError::LockFailure => "buffer unavailable for reading",
            EngineError::TypeMismatch => "operand kind or operator mismatch",
            EngineError::UnsupportedField => "field not yet supported",
            EngineError::MalformedEncoding => "bytes do not decode to a known discriminant",
        }
    }
}

} // verus!
