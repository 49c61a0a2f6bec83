//! Typed access to borrowed bytes. The bytes themselves are handed out as
//! they are; integers are decoded from them, little-endian, into a vector of
//! their own, so that nothing depends on where the bytes lie in memory.

use crate::endian::{le_u16, le_u32, le_u64, read_u16, read_u32, read_u64};
use std::marker::PhantomData;
use vstd::prelude::*;

verus! {

/// Why bytes cannot be read as integers of some width.
#[derive(Debug, Clone, Copy, PartialEq, Eq, Structural)]
pub enum BufferError {
    /// The number of bytes is not a multiple of the width.
    InvalidAlignment,
}

/// The 16-bit integers that `bytes` hold, two bytes each.
pub open spec fn u16_values(bytes: Seq<u8>) -> Seq<u16> {
    Seq::new(bytes.len() / 2, |i: int| le_u16(bytes.subrange(2 * i, 2 * i + 2)))
}

/// The 32-bit integers that `bytes` hold, four bytes each.
pub open spec fn u32_values(bytes: Seq<u8>) -> Seq<u32> {
    Seq::new(bytes.len() / 4, |i: int| le_u32(bytes.subrange(4 * i, 4 * i + 4)))
}

/// The 64-bit integers that `bytes` hold, eight bytes each.
pub open spec fn u64_values(bytes: Seq<u8>) -> Seq<u64> {
    Seq::new(bytes.len() / 8, |i: int| le_u64(bytes.subrange(8 * i, 8 * i + 8)))
}

/// What decoding gives for bytes whose integers, were their number a
/// multiple of `width`, would be `values`.
pub open spec fn decoded<T>(len: nat, width: nat, values: Seq<T>) -> Result<Seq<T>, BufferError> {
    if len % width == 0 {
        Ok(values)
    } else {
        Err(BufferError::InvalidAlignment)
    }
}

/// A result with the vector replaced by the sequence it holds.
pub open spec fn values_of<T>(r: Result<Vec<T>, BufferError>) -> Result<Seq<T>, BufferError> {
    match r {
        Ok(values) => Ok(values@),
        Err(e) => Err(e),
    }
}

/// Borrowed bytes, such as a sample.
pub struct ZeroCopyBuffer<'a> {
    data: &'a [u8],
}

impl<'a> View for ZeroCopyBuffer<'a> {
    type V = Seq<u8>;

    closed spec fn view(&self) -> Seq<u8> {
        self.data@
    }
}

impl<'a> ZeroCopyBuffer<'a> {
    pub fn from_slice(data: &'a [u8]) -> (buffer: Self)
        ensures
            buffer@ == data@,
    {
        ZeroCopyBuffer { data }
    }

    /// The bytes.
    pub fn as_bytes(&self) -> (bytes: &'a [u8])
        ensures
            bytes@ == self@,
    {
        self.data
    }

    /// The bytes, as 8-bit integers.
    pub fn as_u8(&self) -> (bytes: &'a [u8])
        ensures
            bytes@ == self@,
    {
        self.data
    }

    /// The bytes, as little-endian 16-bit integers.
    pub fn as_u16(&self) -> (r: Result<Vec<u16>, BufferError>)
        ensures
            values_of(r) == decoded(self@.len(), 2, u16_values(self@)),
    {
        let len = self.data.len();
        if len % 2 != 0 {
            return Err(BufferError::InvalidAlignment);
        }
        let mut values: Vec<u16> = Vec::new();
        let mut i: usize = 0;
        while i < len / 2
            invariant
                len == self.data@.len(),
                len % 2 == 0,
                i <= len / 2,
                values@ == u16_values(self.data@).subrange(0, i as int),
            decreases len / 2 - i,
        {
            values.push(read_u16(&self.data[2 * i..2 * i + 2]));
            i += 1;
        }
        assert(values@ == u16_values(self.data@));
        Ok(values)
    }

    /// The bytes, as little-endian 32-bit integers.
    pub fn as_u32(&self) -> (r: Result<Vec<u32>, BufferError>)
        ensures
            values_of(r) == decoded(self@.len(), 4, u32_values(self@)),
    {
        let len = self.data.len();
        if len % 4 != 0 {
            return Err(BufferError::InvalidAlignment);
        }
        let mut values: Vec<u32> = Vec::new();
        let mut i: usize = 0;
        while i < len / 4
            invariant
                len == self.data@.len(),
                len % 4 == 0,
                i <= len / 4,
                values@ == u32_values(self.data@).subrange(0, i as int),
            decreases len / 4 - i,
        {
            values.push(read_u32(&self.data[4 * i..4 * i + 4]));
            i += 1;
        }
        assert(values@ == u32_values(self.data@));
        Ok(values)
    }

    /// The bytes, as little-endian 64-bit integers.
    pub fn as_u64(&self) -> (r: Result<Vec<u64>, BufferError>)
        ensures
            values_of(r) == decoded(self@.len(), 8, u64_values(self@)),
    {
        let len = self.data.len();
        if len % 8 != 0 {
            return Err(BufferError::InvalidAlignment);
        }
        let mut values: Vec<u64> = Vec::new();
        let mut i: usize = 0;
        while i < len / 8
            invariant
                len == self.data@.len(),
                len % 8 == 0,
                i <= len / 8,
                values@ == u64_values(self.data@).subrange(0, i as int),
            decreases len / 8 - i,
        {
            values.push(read_u64(&self.data[8 * i..8 * i + 8]));
            i += 1;
        }
        assert(values@ == u64_values(self.data@));
        Ok(values)
    }

    /// The number of bytes.
    pub fn len(&self) -> (n: usize)
        ensures
            n == self@.len(),
    {
        self.data.len()
    }

    pub fn is_empty(&self) -> (b: bool)
        ensures
            b == (self@.len() == 0),
    {
        self.data.len() == 0
    }
}

/// Borrowed values of one type.
pub struct TypedBuffer<'a, T> {
    data: &'a [T],
    _phantom: PhantomData<&'a T>,
}

impl<'a, T> View for TypedBuffer<'a, T> {
    type V = Seq<T>;

    closed spec fn view(&self) -> Seq<T> {
        self.data@
    }
}

impl<'a, T> TypedBuffer<'a, T> {
    pub fn from_slice(data: &'a [T]) -> (buffer: Self)
        ensures
            buffer@ == data@,
    {
        TypedBuffer { data, _phantom: PhantomData }
    }

    /// The values.
    pub fn as_slice(&self) -> (values: &'a [T])
        ensures
            values@ == self@,
    {
        self.data
    }

    /// The number of values.
    pub fn len(&self) -> (n: usize)
        ensures
            n == self@.len(),
    {
        self.data.len()
    }

    pub fn is_empty(&self) -> (b: bool)
        ensures
            b == (self@.len() == 0),
    {
        self.data.len() == 0
    }

    /// The value at `index`, where there is one.
    pub fn get(&self, index: usize) -> (r: Option<&'a T>)
        ensures
            r == if index < self@.len() {
                Some(&self@[index as int])
            } else {
                None
            },
    {
        if index < self.data.len() {
            Some(&self.data[index])
        } else {
            None
        }
    }
}

} // verus!
