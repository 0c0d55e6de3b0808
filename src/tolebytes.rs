//! Little-endian byte encodings of integers.
use crate::tobytes::le_bytes;
use vstd::prelude::*;

verus! {

/// The little-endian bytes of an integer.
pub trait ToLeBytes {
    fn as_le_bytes(&self) -> Vec<u8>;
}

impl ToLeBytes for u32 {
    fn as_le_bytes(&self) -> Vec<u8> {
        le_bytes(*self as u128, 4)
    }
}

impl ToLeBytes for u64 {
    fn as_le_bytes(&self) -> Vec<u8> {
        le_bytes(*self as u128, 8)
    }
}

impl ToLeBytes for u128 {
    fn as_le_bytes(&self) -> Vec<u8> {
        le_bytes(*self, 16)
    }
}

impl ToLeBytes for i32 {
    fn as_le_bytes(&self) -> Vec<u8> {
        le_bytes((*self as u32) as u128, 4)
    }
}

impl ToLeBytes for i64 {
    fn as_le_bytes(&self) -> Vec<u8> {
        le_bytes((*self as u64) as u128, 8)
    }
}

impl ToLeBytes for i128 {
    fn as_le_bytes(&self) -> Vec<u8> {
        le_bytes(*self as u128, 16)
    }
}

} // verus!
