use vstd::prelude::*;
use crate::error::ProtobufError;

verus! {

#[verifier::external_type_specification]
#[verifier::external_body]
pub struct ExWireError(prost::DecodeError);

/// Wire type of a varint field.
pub const WIRE_VARINT: u8 = 0;

/// Wire type of a field of eight fixed bytes.
pub const WIRE_FIXED64: u8 = 1;

/// Wire type of a field that carries its own length.
pub const WIRE_LENGTH_DELIMITED: u8 = 2;

/// Wire type of the key that opens a group.
pub const WIRE_START_GROUP: u8 = 3;

/// Wire type of the key that closes a group.
pub const WIRE_END_GROUP: u8 = 4;

/// Wire type of a field of four fixed bytes.
pub const WIRE_FIXED32: u8 = 5;

/// The base-128 varint whose first `count` bytes were read already and whose
/// rest starts `bytes`: its value, shifted down by those earlier bytes, and
/// how many bytes of `bytes` it takes. A varint has at most ten bytes, and its
/// tenth byte may only hold the top bit of a 64-bit value.
pub open spec fn varint_from(bytes: Seq<u8>, count: nat) -> Option<(nat, nat)>
    decreases bytes.len(),
{
    if bytes.len() == 0 || count >= 10 {
        None
    } else if bytes[0] < 0x80 {
        if count == 9 && bytes[0] >= 2 {
            None
        } else {
            Some((bytes[0] as nat, 1))
        }
    } else {
        match varint_from(bytes.skip(1), count + 1) {
            Some((v, n)) => Some((((bytes[0] - 0x80) + 128 * v) as nat, n + 1)),
            None => None,
        }
    }
}

/// The varint that starts `bytes`: value and encoded length.
pub open spec fn varint(bytes: Seq<u8>) -> Option<(nat, nat)> {
    varint_from(bytes, 0)
}

/// A varint takes at least one byte and never more than there are.
pub proof fn lemma_varint_len(bytes: Seq<u8>, count: nat)
    ensures
        varint_from(bytes, count) matches Some((v, n)) ==> 1 <= n <= bytes.len() && n + count
            <= 10,
    decreases bytes.len(),
{
    if bytes.len() != 0 && count < 10 && bytes[0] >= 0x80 {
        lemma_varint_len(bytes.skip(1), count + 1);
    }
}

/// What the value of a varint stays below when its first `count` bytes are
/// left out: the tenth byte holds one bit, each byte before it seven.
pub open spec fn varint_limit(count: nat) -> nat
    decreases 9 - count,
{
    if count >= 9 {
        2
    } else {
        128 * varint_limit(count + 1)
    }
}

/// The rest of a varint stays below its limit.
pub proof fn lemma_varint_limit(bytes: Seq<u8>, count: nat)
    ensures
        varint_from(bytes, count) matches Some((v, n)) ==> v < varint_limit(count),
    decreases bytes.len(),
{
    if bytes.len() != 0 && count < 10 {
        if bytes[0] >= 0x80 {
            lemma_varint_limit(bytes.skip(1), count + 1);
        }
        if count < 9 {
            assert(varint_limit(count + 1) >= 2) by {
                lemma_limit_positive(count + 1);
            }
        }
    }
}

proof fn lemma_limit_positive(count: nat)
    ensures
        varint_limit(count) >= 2,
    decreases 9 - count,
{
    if count < 9 {
        lemma_limit_positive(count + 1);
    }
}

/// The value of a varint fits in 64 bits.
pub proof fn lemma_varint_fits(bytes: Seq<u8>)
    ensures
        varint(bytes) matches Some((v, n)) ==> v <= u64::MAX,
{
    lemma_varint_limit(bytes, 0);
    reveal_with_fuel(varint_limit, 11);
}

/// Calls `prost::encoding::decode_varint` on the bytes of `buf` from `pos` on.
/// Claimed of it: it succeeds exactly where `varint` is defined, returns that
/// value, and leaves unread all bytes behind the varint, whose count is the
/// second part of the result.
#[verifier::external_body]
fn decode_varint(buf: &[u8], pos: usize) -> (r: Result<(u64, usize), prost::DecodeError>)
    requires
        pos <= buf@.len(),
    ensures
        match varint(buf@.skip(pos as int)) {
            Some((v, n)) => r matches Ok((value, rest)) && value == v && rest + n + pos
                == buf@.len(),
            None => r is Err,
        },
{
    let mut rest = &buf[pos..];
    match prost::encoding::decode_varint(&mut rest) {
        Ok(value) => Ok((value, rest.len())),
        Err(e) => Err(e),
    }
}

/// The number of bytes that a group with field number `tag` takes behind
/// the key that opens it, up to and with the key that closes it; nothing
/// where `bytes` do not start with the rest of such a group.
pub uninterp spec fn group_len(tag: u32, bytes: Seq<u8>) -> Option<nat>;

/// Calls `prost::encoding::skip_field` for a group, on the bytes of `buf`
/// from `pos` on, with a fresh decode context. Claimed of it: whether it
/// succeeds and how far it reads depend on the field number and the bytes
/// alone, and the bytes it leaves unread, whose count is the result, are
/// those behind the group.
#[verifier::external_body]
fn skip_group(tag: u32, buf: &[u8], pos: usize) -> (r: Result<usize, prost::DecodeError>)
    requires
        pos <= buf@.len(),
    ensures
        match group_len(tag, buf@.skip(pos as int)) {
            Some(n) => r matches Ok(rest) && rest + n + pos == buf@.len(),
            None => r is Err,
        },
{
    let mut rest = &buf[pos..];
    let ctx = prost::encoding::DecodeContext::default();
    match prost::encoding::skip_field(prost::encoding::WireType::StartGroup, tag, &mut rest, ctx) {
        Ok(()) => Ok(rest.len()),
        Err(e) => Err(e),
    }
}

/// One field of a message as it lies on the wire, before any schema is
/// applied: for a varint field its value, for a group nothing, for the
/// other wire types its bytes.
#[derive(Debug, PartialEq, Eq)]
pub struct Field {
    pub tag: u32,
    pub wire_type: u8,
    pub value: u64,
    pub data: Vec<u8>,
}

pub struct FieldView {
    pub tag: u32,
    pub wire_type: u8,
    pub value: u64,
    pub data: Seq<u8>,
}

impl View for Field {
    type V = FieldView;

    open spec fn view(&self) -> FieldView {
        FieldView { tag: self.tag, wire_type: self.wire_type, value: self.value, data: self.data@ }
    }
}

/// The field that starts `bytes`, and how many bytes it takes. The key is a
/// varint holding field number and wire type; 64-bit, 32-bit and
/// length-delimited values are handed on as bytes, and a group is passed
/// over as a whole.
pub open spec fn field_at(bytes: Seq<u8>) -> Result<(FieldView, nat), ProtobufError> {
    match varint(bytes) {
        None => Err(ProtobufError::InvalidVarint),
        Some((key, n)) => {
            let rest = bytes.skip(n as int);
            let tag = (key / 8) as u32;
            let wire_type = (key % 8) as u8;
            if key > u32::MAX {
                Err(ProtobufError::InvalidKey)
            } else if key % 8 > 5 {
                Err(ProtobufError::InvalidWireType)
            } else if key / 8 == 0 {
                Err(ProtobufError::InvalidTag)
            } else if wire_type == WIRE_VARINT {
                match varint(rest) {
                    None => Err(ProtobufError::InvalidVarint),
                    Some((v, m)) => Ok(
                        (FieldView { tag, wire_type, value: v as u64, data: Seq::empty() }, n + m),
                    ),
                }
            } else if wire_type == WIRE_FIXED64 {
                if rest.len() < 8 {
                    Err(ProtobufError::BufferUnderflow)
                } else {
                    Ok(
                        (
                            FieldView { tag, wire_type, value: 0, data: rest.subrange(0, 8) },
                            n + 8,
                        ),
                    )
                }
            } else if wire_type == WIRE_FIXED32 {
                if rest.len() < 4 {
                    Err(ProtobufError::BufferUnderflow)
                } else {
                    Ok(
                        (
                            FieldView { tag, wire_type, value: 0, data: rest.subrange(0, 4) },
                            n + 4,
                        ),
                    )
                }
            } else if wire_type == WIRE_LENGTH_DELIMITED {
                match varint(rest) {
                    None => Err(ProtobufError::InvalidVarint),
                    Some((len, m)) => if len > rest.len() - m {
                        Err(ProtobufError::BufferUnderflow)
                    } else {
                        Ok(
                            (
                                FieldView {
                                    tag,
                                    wire_type,
                                    value: 0,
                                    data: rest.subrange(m as int, (m + len) as int),
                                },
                                n + m + len,
                            ),
                        )
                    },
                }
            } else if wire_type == WIRE_START_GROUP {
                match group_len(tag, rest) {
                    None => Err(ProtobufError::InvalidGroup),
                    Some(m) => if m > rest.len() {
                        Err(ProtobufError::InvalidGroup)
                    } else {
                        Ok((FieldView { tag, wire_type, value: 0, data: Seq::empty() }, n + m))
                    },
                }
            } else {
                Err(ProtobufError::UnexpectedEndGroup)
            }
        },
    }
}

/// A field takes at least one byte and never more than there are.
pub proof fn lemma_field_len(bytes: Seq<u8>)
    ensures
        field_at(bytes) matches Ok((f, n)) ==> 1 <= n <= bytes.len(),
{
    lemma_varint_len(bytes, 0);
    if let Some((key, n)) = varint(bytes) {
        lemma_varint_len(bytes.skip(n as int), 0);
    }
}

/// Copies `buf[from..to]`.
pub fn copy_range(buf: &[u8], from: usize, to: usize) -> (out: Vec<u8>)
    requires
        from <= to <= buf@.len(),
    ensures
        out@ == buf@.subrange(from as int, to as int),
{
    let mut out: Vec<u8> = Vec::new();
    let mut i: usize = from;
    while i < to
        invariant
            from <= i <= to <= buf@.len(),
            out@ == buf@.subrange(from as int, i as int),
        decreases to - i,
    {
        out.push(buf[i]);
        i = i + 1;
    }
    out
}

/// Reads the varint at `pos`: its value and the position behind it.
pub fn read_varint(buf: &[u8], pos: usize) -> (r: Result<(u64, usize), ProtobufError>)
    requires
        pos <= buf@.len(),
    ensures
        match varint(buf@.skip(pos as int)) {
            Some((v, n)) => r matches Ok((value, next)) && value == v && next == pos + n && pos
                < next <= buf@.len(),
            None => r matches Err(e) && e == ProtobufError::InvalidVarint,
        },
{
    proof {
        lemma_varint_len(buf@.skip(pos as int), 0);
    }
    match decode_varint(buf, pos) {
        Ok((value, rest)) => Ok((value, buf.len() - rest)),
        Err(_) => Err(ProtobufError::InvalidVarint),
    }
}

/// Reads the field at `pos` and returns it with the position behind it.
pub fn read_field(buf: &[u8], pos: usize) -> (r: Result<(Field, usize), ProtobufError>)
    requires
        pos <= buf@.len(),
    ensures
        match field_at(buf@.skip(pos as int)) {
            Ok((f, n)) => r matches Ok((field, next)) && field@ == f && next == pos + n && pos
                < next <= buf@.len(),
            Err(e) => r matches Err(err) && err == e,
        },
{
    let ghost bytes = buf@.skip(pos as int);
    proof {
        lemma_field_len(bytes);
    }
    let (key, at) = match read_varint(buf, pos) {
        Ok(pair) => pair,
        Err(e) => {
            return Err(e);
        },
    };
    assert(bytes.skip(at - pos) =~= buf@.skip(at as int));
    if key > 0xffff_ffff {
        return Err(ProtobufError::InvalidKey);
    }
    let wire_type: u8 = (key % 8) as u8;
    let tag: u32 = (key / 8) as u32;
    if wire_type > 5 {
        return Err(ProtobufError::InvalidWireType);
    }
    if tag == 0 {
        return Err(ProtobufError::InvalidTag);
    }
    let remaining: usize = buf.len() - at;
    if wire_type == WIRE_VARINT {
        match read_varint(buf, at) {
            Ok((value, next)) => Ok((Field { tag, wire_type, value, data: Vec::new() }, next)),
            Err(e) => Err(e),
        }
    } else if wire_type == WIRE_FIXED64 {
        if remaining < 8 {
            Err(ProtobufError::BufferUnderflow)
        } else {
            let data = copy_range(buf, at, at + 8);
            assert(data@ =~= buf@.skip(at as int).subrange(0, 8));
            Ok((Field { tag, wire_type, value: 0, data }, at + 8))
        }
    } else if wire_type == WIRE_FIXED32 {
        if remaining < 4 {
            Err(ProtobufError::BufferUnderflow)
        } else {
            let data = copy_range(buf, at, at + 4);
            assert(data@ =~= buf@.skip(at as int).subrange(0, 4));
            Ok((Field { tag, wire_type, value: 0, data }, at + 4))
        }
    } else if wire_type == WIRE_LENGTH_DELIMITED {
        match read_varint(buf, at) {
            Ok((len, start)) => {
                if len > (buf.len() - start) as u64 {
                    Err(ProtobufError::BufferUnderflow)
                } else {
                    let end: usize = start + len as usize;
                    let data = copy_range(buf, start, end);
                    assert(data@ =~= buf@.skip(at as int).subrange(start - at, start - at + len));
                    Ok((Field { tag, wire_type, value: 0, data }, end))
                }
            },
            Err(e) => Err(e),
        }
    } else if wire_type == WIRE_START_GROUP {
        match skip_group(tag, buf, at) {
            Ok(rest) => Ok((Field { tag, wire_type, value: 0, data: Vec::new() }, buf.len() - rest)),
            Err(_) => Err(ProtobufError::InvalidGroup),
        }
    } else {
        Err(ProtobufError::UnexpectedEndGroup)
    }
}


/// The low 32 bits of a varint, as protobuf reads a `uint32`.
pub open spec fn low_u32(v: u64) -> u32 {
    (v % 0x1_0000_0000) as u32
}

/// The low 32 bits of a varint in two's complement, as protobuf reads an
/// `int32` or an enumeration.
pub open spec fn low_i32(v: u64) -> i32 {
    let low = v % 0x1_0000_0000;
    if low < 0x8000_0000 {
        low as i32
    } else {
        (low - 0x1_0000_0000) as i32
    }
}

/// A varint in two's complement, as protobuf reads an `int64`.
pub open spec fn signed_i64(v: u64) -> i64 {
    if v < 0x8000_0000_0000_0000 {
        v as i64
    } else {
        (v - 0x1_0000_0000_0000_0000) as i64
    }
}

pub fn to_u32(v: u64) -> (r: u32)
    ensures
        r == low_u32(v),
{
    (v % 0x1_0000_0000) as u32
}

pub fn to_i32(v: u64) -> (r: i32)
    ensures
        r == low_i32(v),
{
    let low: u64 = v % 0x1_0000_0000;
    if low < 0x8000_0000 {
        low as i32
    } else {
        (low as i64 - 0x1_0000_0000) as i32
    }
}

pub fn to_i64(v: u64) -> (r: i64)
    ensures
        r == signed_i64(v),
{
    if v < 0x8000_0000_0000_0000 {
        v as i64
    } else {
        ((v - 0x8000_0000_0000_0000) as i64) + i64::MIN
    }
}

} // verus!
