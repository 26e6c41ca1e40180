use vstd::prelude::*;
use vstd::utf8::{
    decode_utf8, encode_utf8, encode_utf8_decode_utf8, encode_utf8_valid_utf8, valid_utf8,
};

use crate::le_bytes::{
    lemma_u16_le_round_trip, lemma_u32_le_round_trip, u16_le_at, u16_le_bytes, u32_le_at,
    u32_le_bytes,
};

verus! {

/// A value that the [`Encoder`](crate::encoder::Encoder) writes and the
/// [`Decoder`](crate::decoder::Decoder) reads.
pub enum Primitive {
    Bool(bool),
    I8(i8),
    U8(u8),
    I16(i16),
    U16(u16),
    I32(i32),
    U32(u32),
    Str(Seq<char>),
}

/// The bytes that the encoder's `put_*` call for `p` appends.
pub open spec fn encoding(p: Primitive) -> Seq<u8> {
    match p {
        Primitive::Bool(b) => seq![if b { 1u8 } else { 0u8 }],
        Primitive::I8(v) => seq![v as u8],
        Primitive::U8(v) => seq![v],
        Primitive::I16(v) => u16_le_bytes(v as u16),
        Primitive::U16(v) => u16_le_bytes(v),
        Primitive::I32(v) => u32_le_bytes(v as u32),
        Primitive::U32(v) => u32_le_bytes(v),
        Primitive::Str(s) => u16_le_bytes(encode_utf8(s).len() as u16) + encode_utf8(s),
    }
}

/// What the decoder's `get_*` call of the kind of `tag` returns on the unread
/// bytes `s`, with the bytes it leaves unread; `None` where it fails.
pub open spec fn decoding(tag: Primitive, s: Seq<u8>) -> Option<(Primitive, Seq<u8>)> {
    match tag {
        Primitive::Bool(_) => if s.len() >= 1 {
            Some((Primitive::Bool(s[0] != 0), s.skip(1)))
        } else {
            None
        },
        Primitive::I8(_) => if s.len() >= 1 {
            Some((Primitive::I8(s[0] as i8), s.skip(1)))
        } else {
            None
        },
        Primitive::U8(_) => if s.len() >= 1 {
            Some((Primitive::U8(s[0]), s.skip(1)))
        } else {
            None
        },
        Primitive::I16(_) => if s.len() >= 2 {
            Some((Primitive::I16(u16_le_at(s, 0) as i16), s.skip(2)))
        } else {
            None
        },
        Primitive::U16(_) => if s.len() >= 2 {
            Some((Primitive::U16(u16_le_at(s, 0)), s.skip(2)))
        } else {
            None
        },
        Primitive::I32(_) => if s.len() >= 4 {
            Some((Primitive::I32(u32_le_at(s, 0) as i32), s.skip(4)))
        } else {
            None
        },
        Primitive::U32(_) => if s.len() >= 4 {
            Some((Primitive::U32(u32_le_at(s, 0)), s.skip(4)))
        } else {
            None
        },
        Primitive::Str(_) => if s.len() >= 2 && s.len() - 2 >= u16_le_at(s, 0) && valid_utf8(
            s.subrange(2, 2 + u16_le_at(s, 0)),
        ) {
            Some(
                (
                    Primitive::Str(decode_utf8(s.subrange(2, 2 + u16_le_at(s, 0)))),
                    s.skip(2 + u16_le_at(s, 0)),
                ),
            )
        } else {
            None
        },
    }
}

/// The encodings of `ps`, in order.
pub open spec fn encode_all(ps: Seq<Primitive>) -> Seq<u8>
    decreases ps.len(),
{
    if ps.len() == 0 {
        Seq::empty()
    } else {
        encoding(ps[0]) + encode_all(ps.drop_first())
    }
}

/// Reads `s` with one `get_*` call per entry of `tags`, in order: the values
/// read and the bytes left unread, or `None` where a read fails.
pub open spec fn decode_all(tags: Seq<Primitive>, s: Seq<u8>) -> Option<(Seq<Primitive>, Seq<u8>)>
    decreases tags.len(),
{
    if tags.len() == 0 {
        Some((Seq::empty(), s))
    } else {
        match decoding(tags[0], s) {
            Some((v, rest)) => match decode_all(tags.drop_first(), rest) {
                Some((vs, left)) => Some((seq![v] + vs, left)),
                None => None,
            },
            None => None,
        }
    }
}

/// Whether `p` can be written without loss: a string's UTF-8 bytes must fit
/// its 16-bit length prefix.
pub open spec fn encodable(p: Primitive) -> bool {
    match p {
        Primitive::Str(s) => encode_utf8(s).len() <= u16::MAX,
        _ => true,
    }
}

proof fn lemma_decode_one(p: Primitive, rest: Seq<u8>)
    requires
        encodable(p),
    ensures
        decoding(p, encoding(p) + rest) == Some((p, rest)),
{
    let s = encoding(p) + rest;
    match p {
        Primitive::Bool(b) => {
            assert(s.skip(1) =~= rest);
        },
        Primitive::I8(v) => {
            assert(((v as u8) as i8) == v) by (bit_vector);
            assert(s.skip(1) =~= rest);
        },
        Primitive::U8(v) => {
            assert(s.skip(1) =~= rest);
        },
        Primitive::I16(v) => {
            lemma_u16_le_round_trip(v as u16);
            assert(u16_le_at(s, 0) == u16_le_at(u16_le_bytes(v as u16), 0));
            assert(((v as u16) as i16) == v) by (bit_vector);
            assert(s.skip(2) =~= rest);
        },
        Primitive::U16(v) => {
            lemma_u16_le_round_trip(v);
            assert(u16_le_at(s, 0) == u16_le_at(u16_le_bytes(v), 0));
            assert(s.skip(2) =~= rest);
        },
        Primitive::I32(v) => {
            lemma_u32_le_round_trip(v as u32);
            assert(u32_le_at(s, 0) == u32_le_at(u32_le_bytes(v as u32), 0));
            assert(((v as u32) as i32) == v) by (bit_vector);
            assert(s.skip(4) =~= rest);
        },
        Primitive::U32(v) => {
            lemma_u32_le_round_trip(v);
            assert(u32_le_at(s, 0) == u32_le_at(u32_le_bytes(v), 0));
            assert(s.skip(4) =~= rest);
        },
        Primitive::Str(t) => {
            let body = encode_utf8(t);
            let n = body.len() as u16;
            lemma_u16_le_round_trip(n);
            assert(u16_le_at(s, 0) == u16_le_at(u16_le_bytes(n), 0));
            assert(n == body.len());
            assert(s.subrange(2, 2 + body.len() as int) =~= body);
            encode_utf8_valid_utf8(t);
            encode_utf8_decode_utf8(t);
            assert(s.skip(2 + body.len() as int) =~= rest);
        },
    }
}

/// Encoding a sequence of primitives and decoding it again, one read of the
/// matching kind per value, returns the same values and leaves no byte
/// unread.
pub proof fn lemma_binary_round_trip(ps: Seq<Primitive>)
    requires
        forall|i: int| 0 <= i < ps.len() ==> encodable(#[trigger] ps[i]),
    ensures
        decode_all(ps, encode_all(ps)) == Some((ps, Seq::<u8>::empty())),
    decreases ps.len(),
{
    if ps.len() > 0 {
        let tail = ps.drop_first();
        assert forall|i: int| 0 <= i < tail.len() implies encodable(#[trigger] tail[i]) by {
            assert(tail[i] == ps[i + 1]);
        }
        lemma_binary_round_trip(tail);
        assert(encodable(ps[0]));
        lemma_decode_one(ps[0], encode_all(tail));
        assert(seq![ps[0]] + tail =~= ps);
    }
}

} // verus!
