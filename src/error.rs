use vstd::prelude::*;

verus! {

/// What went wrong while reading or writing a master boot record.
#[derive(Copy, Clone, Debug, Eq, PartialEq, Hash)]
#[allow(inconsistent_fields)]
pub enum ErrorCause {
    /// A slot holds a type tag that names no supported partition type.
    UnsupportedPartitionError { tag: u8 },
    /// The last two bytes of the sector are not the boot signature.
    InvalidMBRSuffix { actual: [u8; 2] },
    /// The buffer is shorter than a sector.
    BufferWrongSizeError { expected: usize, actual: usize },
}

#[derive(Copy, Clone, Debug, Eq, PartialEq, Hash)]
pub struct MbrError {
    cause: ErrorCause,
}

impl View for MbrError {
    type V = ErrorCause;

    closed spec fn view(&self) -> ErrorCause {
        self.cause
    }
}

impl MbrError {
    pub fn from_cause(cause: ErrorCause) -> (r: MbrError)
        ensures
            r@ == cause,
    {
        MbrError { cause }
    }
}

} // verus!
