//! The checks made by the helpers that fill an output buffer from a function
//! hook: the buffer and its length pointer must have fitting LLVM types.
use vstd::prelude::*;
use crate::llvmtype::{LlvmType, TypeView};

verus! {

/// The width of the length that the buffer-filling helpers write.
pub const OUT_LEN_BITS: u32 = 64;

/// Why a buffer cannot be filled.
#[derive(PartialEq, Eq, Structural, Clone, Copy, Debug)]
pub enum FillError {
    /// The buffer is not given by a pointer.
    BufferNotPointer,
    /// The length is not given by a pointer.
    LengthNotPointer,
    /// The length pointer does not point to a 64-bit integer.
    LengthNotI64,
    /// The buffer has more bits than a bitvector can.
    TooLarge,
}

/// The number of bits written to a buffer of `max_bytes` bytes whose pointer
/// has type `buffer_ty` and whose length is written through a pointer of type
/// `len_ptr_ty`; a type that is not given (`None`) is not checked.
pub open spec fn fill_bits(buffer_ty: Option<TypeView>, len_ptr_ty: Option<TypeView>, max_bytes: u32) -> Result<u32, FillError> {
    if buffer_ty matches Some(b) && !(b is Pointer) {
        Err(FillError::BufferNotPointer)
    } else if len_ptr_ty matches Some(l) && !(l is Pointer) {
        Err(FillError::LengthNotPointer)
    } else if len_ptr_ty matches Some(TypeView::Pointer { pointee_type }) && *pointee_type != (TypeView::Integer {
        bits: OUT_LEN_BITS,
    }) {
        Err(FillError::LengthNotI64)
    } else if max_bytes * 8 > u32::MAX {
        Err(FillError::TooLarge)
    } else {
        Ok((max_bytes * 8) as u32)
    }
}

/// Checks the types of a buffer to fill and of its length pointer, as the
/// helpers filling a buffer with unconstrained or with secret data do, and
/// gives the number of bits that fill the buffer.
pub fn check_fill(buffer_ty: Option<&LlvmType>, len_ptr_ty: Option<&LlvmType>, max_bytes: u32) -> (r: Result<u32, FillError>)
    ensures
        r == fill_bits(
            match buffer_ty {
                Some(b) => Some(b@),
                None => None,
            },
            match len_ptr_ty {
                Some(l) => Some(l@),
                None => None,
            },
            max_bytes,
        ),
{
    match buffer_ty {
        Some(LlvmType::Pointer { .. }) | None => {},
        Some(_) => {
            return Err(FillError::BufferNotPointer);
        },
    }
    match len_ptr_ty {
        Some(LlvmType::Pointer { pointee_type }) => match &**pointee_type {
            LlvmType::Integer { bits } => {
                assert((**pointee_type)@ == (TypeView::Integer { bits: *bits }));
                if *bits != OUT_LEN_BITS {
                    return Err(FillError::LengthNotI64);
                }
            },
            _ => {
                assert(!((**pointee_type)@ is Integer));
                return Err(FillError::LengthNotI64);
            },
        },
        None => {},
        Some(_) => {
            return Err(FillError::LengthNotPointer);
        },
    }
    if max_bytes > 0x1fff_ffffu32 {
        return Err(FillError::TooLarge);
    }
    Ok(max_bytes * 8)
}

} // verus!
