use vstd::prelude::*;
use vstd::utf8::{decode_utf8, valid_utf8};

use crate::le_bytes::{u16_le_at, u32_le_at, read_u16_le, read_u32_le};

verus! {

#[verifier::external_type_specification]
#[verifier::external_body]
pub struct ExUtf8Error(std::str::Utf8Error);

/// Errors of the [`Decoder`] reads.
#[derive(Debug)]
pub enum DecoderError {
    /// Fewer bytes remain than the read needs.
    Incomplete { expected: usize, available: usize },
    /// The bytes of a string are not valid UTF-8.
    InvalidUtf8(std::str::Utf8Error),
}

/// The error of a read that needs `needed` bytes where only those of `s` remain.
pub open spec fn incomplete(needed: nat, s: Seq<u8>) -> DecoderError {
    DecoderError::Incomplete { expected: needed as usize, available: s.len() as usize }
}

/// Relies on `std::str::from_utf8` (then `str::to_owned`): it succeeds exactly
/// on valid UTF-8, and the string holds the characters that the bytes encode.
#[verifier::external_body]
fn utf8_to_string(bytes: &[u8]) -> (r: Result<String, std::str::Utf8Error>)
    ensures
        r is Ok <==> valid_utf8(bytes@),
        r matches Ok(s) ==> s@ == decode_utf8(bytes@),
{
    match std::str::from_utf8(bytes) {
        Ok(s) => Ok(s.to_owned()),
        Err(e) => Err(e),
    }
}

/// Reads of little-endian primitives and length-prefixed strings from the
/// front of a byte buffer. A successful read consumes the bytes it read. A
/// failed read of a primitive consumes nothing; a failed string read
/// consumes its length prefix once that prefix could be read.
pub trait Decoder: Sized {
    /// The bytes not yet read.
    spec fn unread(&self) -> Seq<u8>;

    /// Reads one byte as a boolean: any non-zero byte is `true`.
    fn get_bool(&mut self) -> (r: Result<bool, DecoderError>)
        ensures
            old(self).unread().len() >= 1 ==> r == Ok::<bool, DecoderError>(old(self).unread()[0] != 0)
                && final(self).unread() == old(self).unread().skip(1),
            old(self).unread().len() < 1 ==> r == Err::<bool, DecoderError>(incomplete(1, old(self).unread()))
                && final(self).unread() == old(self).unread(),
    ;

    /// Reads one byte as a signed integer.
    fn get_i8(&mut self) -> (r: Result<i8, DecoderError>)
        ensures
            old(self).unread().len() >= 1 ==> r == Ok::<i8, DecoderError>(old(self).unread()[0] as i8)
                && final(self).unread() == old(self).unread().skip(1),
            old(self).unread().len() < 1 ==> r == Err::<i8, DecoderError>(incomplete(1, old(self).unread()))
                && final(self).unread() == old(self).unread(),
    ;

    /// Reads one byte.
    fn get_u8(&mut self) -> (r: Result<u8, DecoderError>)
        ensures
            old(self).unread().len() >= 1 ==> r == Ok::<u8, DecoderError>(old(self).unread()[0])
                && final(self).unread() == old(self).unread().skip(1),
            old(self).unread().len() < 1 ==> r == Err::<u8, DecoderError>(incomplete(1, old(self).unread()))
                && final(self).unread() == old(self).unread(),
    ;

    /// Reads a little-endian signed 16-bit integer.
    fn get_i16(&mut self) -> (r: Result<i16, DecoderError>)
        ensures
            old(self).unread().len() >= 2 ==> r == Ok::<i16, DecoderError>(
                u16_le_at(old(self).unread(), 0) as i16,
            ) && final(self).unread() == old(self).unread().skip(2),
            old(self).unread().len() < 2 ==> r == Err::<i16, DecoderError>(incomplete(2, old(self).unread()))
                && final(self).unread() == old(self).unread(),
    ;

    /// Reads a little-endian unsigned 16-bit integer.
    fn get_u16(&mut self) -> (r: Result<u16, DecoderError>)
        ensures
            old(self).unread().len() >= 2 ==> r == Ok::<u16, DecoderError>(
                u16_le_at(old(self).unread(), 0),
            ) && final(self).unread() == old(self).unread().skip(2),
            old(self).unread().len() < 2 ==> r == Err::<u16, DecoderError>(incomplete(2, old(self).unread()))
                && final(self).unread() == old(self).unread(),
    ;

    /// Reads a little-endian signed 32-bit integer.
    fn get_i32(&mut self) -> (r: Result<i32, DecoderError>)
        ensures
            old(self).unread().len() >= 4 ==> r == Ok::<i32, DecoderError>(
                u32_le_at(old(self).unread(), 0) as i32,
            ) && final(self).unread() == old(self).unread().skip(4),
            old(self).unread().len() < 4 ==> r == Err::<i32, DecoderError>(incomplete(4, old(self).unread()))
                && final(self).unread() == old(self).unread(),
    ;

    /// Reads a little-endian unsigned 32-bit integer.
    fn get_u32(&mut self) -> (r: Result<u32, DecoderError>)
        ensures
            old(self).unread().len() >= 4 ==> r == Ok::<u32, DecoderError>(
                u32_le_at(old(self).unread(), 0),
            ) && final(self).unread() == old(self).unread().skip(4),
            old(self).unread().len() < 4 ==> r == Err::<u32, DecoderError>(incomplete(4, old(self).unread()))
                && final(self).unread() == old(self).unread(),
    ;

    /// Reads a UTF-8 string prefixed by its little-endian 16-bit byte length.
    fn get_string(&mut self) -> (r: Result<String, DecoderError>)
        ensures
            ({
                let s = old(self).unread();
                if s.len() < 2 {
                    r == Err::<String, DecoderError>(incomplete(2, s)) && final(self).unread() == s
                } else if s.len() - 2 < u16_le_at(s, 0) {
                    r == Err::<String, DecoderError>(incomplete(u16_le_at(s, 0) as nat, s.skip(2)))
                        && final(self).unread() == s.skip(2)
                } else {
                    let body = s.subrange(2, 2 + u16_le_at(s, 0));
                    if valid_utf8(body) {
                        r matches Ok(v) && v@ == decode_utf8(body) && final(self).unread()
                            == s.skip(2 + u16_le_at(s, 0))
                    } else {
                        r matches Err(DecoderError::InvalidUtf8(_)) && final(self).unread() == s.skip(2)
                    }
                }
            }),
    ;

    /// Returns every unread byte and leaves nothing unread.
    fn take_remaining(&mut self) -> (r: &[u8])
        ensures
            r@ == old(self).unread(),
            final(self).unread().len() == 0,
    ;
}

/// Splits the first `n` bytes off `s`.
fn advance<'a>(s: &mut &'a [u8], n: usize) -> (r: &'a [u8])
    requires
        n <= old(s)@.len(),
    ensures
        r@ == old(s)@.take(n as int),
        final(s)@ == old(s)@.skip(n as int),
{
    let (head, tail) = s.split_at(n);
    *s = tail;
    assert(head@ =~= old(s)@.take(n as int));
    assert(tail@ =~= old(s)@.skip(n as int));
    head
}

impl<'a> Decoder for &'a [u8] {
    open spec fn unread(&self) -> Seq<u8> {
        self@
    }

    fn get_bool(&mut self) -> (r: Result<bool, DecoderError>) {
        match self.get_u8() {
            Ok(v) => Ok(v != 0),
            Err(e) => Err(e),
        }
    }

    fn get_i8(&mut self) -> (r: Result<i8, DecoderError>) {
        match self.get_u8() {
            Ok(v) => Ok(v as i8),
            Err(e) => Err(e),
        }
    }

    fn get_u8(&mut self) -> (r: Result<u8, DecoderError>) {
        if self.len() < 1 {
            return Err(DecoderError::Incomplete { expected: 1, available: self.len() });
        }
        let head = advance(self, 1);
        Ok(head[0])
    }

    fn get_i16(&mut self) -> (r: Result<i16, DecoderError>) {
        match self.get_u16() {
            Ok(v) => Ok(v as i16),
            Err(e) => Err(e),
        }
    }

    fn get_u16(&mut self) -> (r: Result<u16, DecoderError>) {
        if self.len() < 2 {
            return Err(DecoderError::Incomplete { expected: 2, available: self.len() });
        }
        let head = advance(self, 2);
        Ok(read_u16_le(head, 0))
    }

    fn get_i32(&mut self) -> (r: Result<i32, DecoderError>) {
        match self.get_u32() {
            Ok(v) => Ok(v as i32),
            Err(e) => Err(e),
        }
    }

    fn get_u32(&mut self) -> (r: Result<u32, DecoderError>) {
        if self.len() < 4 {
            return Err(DecoderError::Incomplete { expected: 4, available: self.len() });
        }
        let head = advance(self, 4);
        Ok(read_u32_le(head, 0))
    }

    fn get_string(&mut self) -> (r: Result<String, DecoderError>) {
        let length = match self.get_u16() {
            Ok(v) => v as usize,
            Err(e) => return Err(e),
        };
        if self.len() < length {
            return Err(DecoderError::Incomplete { expected: length, available: self.len() });
        }
        let ghost s = old(self)@;
        let (bytes, _) = self.split_at(length);
        assert(bytes@ =~= s.subrange(2, 2 + length));
        let text = match utf8_to_string(bytes) {
            Ok(t) => t,
            Err(e) => return Err(DecoderError::InvalidUtf8(e)),
        };
        let _ = advance(self, length);
        assert(s.skip(2).skip(length as int) =~= s.skip(2 + length));
        Ok(text)
    }

    fn take_remaining(&mut self) -> (r: &[u8]) {
        let length = self.len();
        advance(self, length)
    }
}

} // verus!
