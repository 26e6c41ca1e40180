use vstd::prelude::*;
use vstd::slice::slice_to_vec;
use vstd::string::StringSliceAdditionalSpecFns;

use crate::frozen::{bytes_content, freeze, thaw};
use crate::le_bytes::{push_u16_le, push_u32_le, u16_le_bytes, u32_le_bytes};

verus! {

/// Builds a packet payload from little-endian primitives, strings and raw
/// bytes, then hands it out as a frozen buffer.
pub struct Encoder {
    buffer: Vec<u8>,
}

impl View for Encoder {
    type V = Seq<u8>;

    closed spec fn view(&self) -> Seq<u8> {
        self.buffer@
    }
}

impl Encoder {
    /// Default initial buffer size, in bytes.
    pub const INITIAL_CAPACITY: usize = 1024;

    /// An empty encoder with the default initial capacity.
    pub fn new() -> (r: Encoder)
        ensures
            r@ == Seq::<u8>::empty(),
    {
        Encoder { buffer: Vec::with_capacity(Self::INITIAL_CAPACITY) }
    }

    /// An empty encoder with room for `capacity` bytes.
    pub fn with_capacity(capacity: usize) -> (r: Self)
        ensures
            r@ == Seq::<u8>::empty(),
    {
        Encoder { buffer: Vec::with_capacity(capacity) }
    }

    /// Writes a boolean as one byte: 1 for `true`, 0 for `false`.
    pub fn put_bool(&mut self, value: bool) -> (r: &mut Self)
        ensures
            r@ == old(self)@.push(if value { 1u8 } else { 0u8 }),
            *final(self) == *final(r),
    {
        self.buffer.push(if value { 1u8 } else { 0u8 });
        self
    }

    /// Writes a signed byte.
    pub fn put_i8(&mut self, value: i8) -> (r: &mut Self)
        ensures
            r@ == old(self)@.push(value as u8),
            *final(self) == *final(r),
    {
        self.buffer.push(value as u8);
        self
    }

    /// Writes a byte.
    pub fn put_u8(&mut self, value: u8) -> (r: &mut Self)
        ensures
            r@ == old(self)@.push(value),
            *final(self) == *final(r),
    {
        self.buffer.push(value);
        self
    }

    /// Writes a signed 16-bit integer, little-endian.
    pub fn put_i16(&mut self, value: i16) -> (r: &mut Self)
        ensures
            r@ == old(self)@ + u16_le_bytes(value as u16),
            *final(self) == *final(r),
    {
        push_u16_le(&mut self.buffer, value as u16);
        self
    }

    /// Writes an unsigned 16-bit integer, little-endian.
    pub fn put_u16(&mut self, value: u16) -> (r: &mut Self)
        ensures
            r@ == old(self)@ + u16_le_bytes(value),
            *final(self) == *final(r),
    {
        push_u16_le(&mut self.buffer, value);
        self
    }

    /// Writes a signed 32-bit integer, little-endian.
    pub fn put_i32(&mut self, value: i32) -> (r: &mut Self)
        ensures
            r@ == old(self)@ + u32_le_bytes(value as u32),
            *final(self) == *final(r),
    {
        push_u32_le(&mut self.buffer, value as u32);
        self
    }

    /// Writes an unsigned 32-bit integer, little-endian.
    pub fn put_u32(&mut self, value: u32) -> (r: &mut Self)
        ensures
            r@ == old(self)@ + u32_le_bytes(value),
            *final(self) == *final(r),
    {
        push_u32_le(&mut self.buffer, value);
        self
    }

    /// Writes the UTF-8 bytes of `value` after their count as a little-endian
    /// 16-bit integer (the count's low 16 bits).
    pub fn put_str(&mut self, value: &str) -> (r: &mut Self)
        ensures
            r@ == old(self)@ + u16_le_bytes(value.spec_bytes().len() as u16) + value.spec_bytes(),
            *final(self) == *final(r),
    {
        let bytes = value.as_bytes();
        push_u16_le(&mut self.buffer, bytes.len() as u16);
        self.buffer.extend_from_slice(bytes);
        self
    }

    /// Appends raw bytes.
    pub fn put_bytes(&mut self, bytes: bytes::Bytes) -> (r: &mut Self)
        ensures
            r@ == old(self)@ + bytes_content(bytes),
            *final(self) == *final(r),
    {
        let raw = thaw(&bytes);
        self.buffer.extend_from_slice(raw.as_slice());
        self
    }

    /// A frozen copy of the bytes written so far.
    pub fn finalize(&mut self) -> (r: bytes::Bytes)
        ensures
            bytes_content(r) == old(self)@,
            *final(self) == *old(self),
    {
        freeze(slice_to_vec(self.buffer.as_slice()))
    }
}

impl Default for Encoder {
    fn default() -> (r: Self)
        ensures
            r@ == Seq::<u8>::empty(),
    {
        Self::new()
    }
}

} // verus!
