//! Status codes and identification of the accelerated FFT/LDPC backend.
use vstd::prelude::*;

verus! {

/// Memory alignment the backend asks for (AVX-512).
pub const FLEXRAN_ALIGNMENT: usize = 64;

/// Status codes of the backend.
#[derive(Debug, Clone, Copy, PartialEq, Eq, Structural)]
pub enum FlexranError {
    /// Success (0)
    Success,
    /// Invalid parameter (-1)
    InvalidParameter,
    /// Allocation failed (-2)
    AllocationFailed,
    /// Not initialized (-3)
    NotInitialized,
    /// Processing failed (-4)
    ProcessingFailed,
}

impl FlexranError {
    /// The numeric status code.
    pub fn code(&self) -> (c: i32)
        ensures
            c == match *self {
                FlexranError::Success => 0i32,
                FlexranError::InvalidParameter => -1i32,
                FlexranError::AllocationFailed => -2i32,
                FlexranError::NotInitialized => -3i32,
                FlexranError::ProcessingFailed => -4i32,
            },
    {
        match self {
            FlexranError::Success => 0,
            FlexranError::InvalidParameter => -1,
            FlexranError::AllocationFailed => -2,
            FlexranError::NotInitialized => -3,
            FlexranError::ProcessingFailed => -4,
        }
    }
}

/// Version string of the backend.
pub fn version_info() -> (s: &'static str)
    ensures
        s@ == "FlexRAN SDK (Mock Implementation)"@,
{
    "FlexRAN SDK (Mock Implementation)"
}

} // verus!
