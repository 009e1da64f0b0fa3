use vstd::prelude::*;
use crate::error::ProtocolError;
use vstd::string::StringSliceAdditionalSpecFns;
use crate::varint::{
    decode_var_int, encode_var_int, lemma_var_int_round_trip, read_var_int, write_var_int,
};

verus! {

/// A frame: the VarInt length of the payload, then the payload.
pub open spec fn frame_bytes(payload: Seq<u8>) -> Seq<u8> {
    encode_var_int(payload.len() as i32) + payload
}

/// Reads the frame at the start of `b`: its payload and the bytes the whole
/// frame takes.
pub open spec fn parse_frame(b: Seq<u8>) -> Result<(Seq<u8>, nat), ProtocolError> {
    match decode_var_int(b) {
        None => Err(ProtocolError::MalformedVarInt),
        Some((len, n)) => if len < 0 {
            Err(ProtocolError::ProtocolViolation)
        } else if n + len > b.len() {
            Err(ProtocolError::TruncatedStream)
        } else {
            Ok((b.subrange(n as int, n + len), n + len as nat))
        },
    }
}

/// The big-endian bytes of the low `n` bytes of `u`.
pub open spec fn be_bytes(u: nat, n: nat) -> Seq<u8>
    decreases n,
{
    if n == 0 {
        Seq::empty()
    } else {
        be_bytes(u / 256, (n - 1) as nat).push((u % 256) as u8)
    }
}

/// The number that big-endian bytes spell.
pub open spec fn be_value(b: Seq<u8>) -> nat
    decreases b.len(),
{
    if b.len() == 0 {
        0
    } else {
        be_value(b.drop_last()) * 256 + b.last() as nat
    }
}

/// The eight big-endian bytes of `v`'s two's-complement pattern.
pub open spec fn i64_be_bytes(v: i64) -> Seq<u8> {
    be_bytes(if v >= 0 { v as nat } else { (v + 0x1_0000_0000_0000_0000) as nat }, 8)
}

/// The signed value of eight big-endian bytes.
pub open spec fn i64_from_be(b: Seq<u8>) -> i64 {
    let u = be_value(b);
    if u < 0x8000_0000_0000_0000 { u as i64 } else { (u - 0x1_0000_0000_0000_0000) as i64 }
}

/// A string field: its UTF-8 length as a VarInt, then its bytes.
pub open spec fn string_bytes(s: &str) -> Seq<u8> {
    encode_var_int(s.spec_bytes().len() as i32) + s.spec_bytes()
}

fn push_be(buffer: &mut Vec<u8>, u: u64, n: usize)
    ensures
        final(buffer)@ == old(buffer)@ + be_bytes(u as nat, n as nat),
        be_bytes(u as nat, n as nat).len() == n,
    decreases n,
{
    if n > 0 {
        push_be(buffer, u / 256, n - 1);
        buffer.push((u % 256) as u8);
        proof {
            assert(final(buffer)@ =~= old(buffer)@ + be_bytes(u as nat, n as nat));
        }
    } else {
        proof {
            assert(old(buffer)@ + be_bytes(u as nat, 0) =~= old(buffer)@);
        }
    }
}

/// Appends `value` as a length-prefixed string.
pub fn write_string(buffer: &mut Vec<u8>, value: &str)
    requires
        value.spec_bytes().len() <= i32::MAX,
    ensures
        final(buffer)@ == old(buffer)@ + string_bytes(value),
        string_bytes(value).len() <= value.spec_bytes().len() + 5,
{
    let bytes = value.as_bytes();
    write_var_int(buffer, bytes.len() as i32);
    let ghost mid = buffer@;
    let mut i: usize = 0;
    while i < bytes.len()
        invariant
            i <= bytes@.len(),
            buffer@ == mid + bytes@.subrange(0, i as int),
        decreases bytes@.len() - i,
    {
        buffer.push(bytes[i]);
        proof {
            assert(bytes@.subrange(0, i + 1) =~= bytes@.subrange(0, i as int).push(bytes@[i as int]));
        }
        i += 1;
    }
    proof {
        assert(bytes@.subrange(0, bytes@.len() as int) =~= bytes@);
        assert(final(buffer)@ =~= old(buffer)@ + string_bytes(value));
    }
}

/// Appends the eight big-endian bytes of `value`.
pub fn write_long(buffer: &mut Vec<u8>, value: i64)
    ensures
        final(buffer)@ == old(buffer)@ + i64_be_bytes(value),
        i64_be_bytes(value).len() == 8,
{
    let u: u64 = if value >= 0 {
        value as u64
    } else {
        (value as i128 + 0x1_0000_0000_0000_0000i128) as u64
    };
    push_be(buffer, u, 8);
}

/// Appends every byte of `bytes` to `buffer`.
pub fn append_bytes(buffer: &mut Vec<u8>, bytes: &[u8])
    ensures
        final(buffer)@ == old(buffer)@ + bytes@,
{
    let mut i: usize = 0;
    while i < bytes.len()
        invariant
            i <= bytes@.len(),
            buffer@ == old(buffer)@ + bytes@.subrange(0, i as int),
        decreases bytes@.len() - i,
    {
        buffer.push(bytes[i]);
        proof {
            assert(bytes@.subrange(0, i + 1) =~= bytes@.subrange(0, i as int).push(bytes@[i as int]));
        }
        i += 1;
    }
    proof {
        assert(bytes@.subrange(0, bytes@.len() as int) =~= bytes@);
    }
}

/// The bytes `b[start..end]` as a new vector.
pub fn slice_to_vec(b: &[u8], start: usize, end: usize) -> (r: Vec<u8>)
    requires
        start <= end <= b@.len(),
    ensures
        r@ == b@.subrange(start as int, end as int),
{
    let mut out: Vec<u8> = Vec::new();
    let mut i: usize = start;
    while i < end
        invariant
            start <= i <= end,
            end <= b@.len(),
            out@ == b@.subrange(start as int, i as int),
        decreases end - i,
    {
        out.push(b[i]);
        proof {
            assert(b@.subrange(start as int, i + 1) =~= b@.subrange(start as int, i as int).push(b@[i as int]));
        }
        i += 1;
    }
    out
}

/// The VarInt length prefix of a frame that carries `packet`.
pub fn packet_lenght(packet: &[u8]) -> (r: Vec<u8>)
    requires
        packet@.len() <= i32::MAX,
    ensures
        r@ == encode_var_int(packet@.len() as i32),
{
    let mut prefix: Vec<u8> = Vec::new();
    write_var_int(&mut prefix, packet.len() as i32);
    proof {
        assert(prefix@ =~= encode_var_int(packet@.len() as i32));
    }
    prefix
}

/// The frame that carries `payload`.
pub fn write_frame(payload: &[u8]) -> (r: Vec<u8>)
    requires
        payload@.len() <= i32::MAX,
    ensures
        r@ == frame_bytes(payload@),
{
    let mut out = packet_lenght(payload);
    append_bytes(&mut out, payload);
    out
}

/// Reads the frame at the start of `buffer`: its payload and the number of
/// bytes the whole frame takes.
pub fn read_frame(buffer: &[u8]) -> (r: Result<(Vec<u8>, usize), ProtocolError>)
    ensures
        match parse_frame(buffer@) {
            Ok((p, n)) => r matches Ok((q, m)) && q@ == p && m == n,
            Err(e) => r == Err::<(Vec<u8>, usize), ProtocolError>(e),
        },
{
    match read_var_int(buffer) {
        Err(e) => Err(e),
        Ok((len, n)) => {
            if len < 0 {
                Err(ProtocolError::ProtocolViolation)
            } else if len as usize > buffer.len() - n {
                Err(ProtocolError::TruncatedStream)
            } else {
                let end = n + len as usize;
                let payload = slice_to_vec(buffer, n, end);
                Ok((payload, end))
            }
        },
    }
}

/// Reading a written frame, with anything after it, gives back the payload
/// and the frame's length.
pub proof fn lemma_frame_round_trip(payload: Seq<u8>, rest: Seq<u8>)
    requires
        payload.len() <= i32::MAX,
    ensures
        parse_frame(frame_bytes(payload) + rest) == Ok::<(Seq<u8>, nat), ProtocolError>(
            (payload, frame_bytes(payload).len()),
        ),
{
    let len = payload.len() as i32;
    let b = frame_bytes(payload) + rest;
    assert(b =~= encode_var_int(len) + (payload + rest));
    lemma_var_int_round_trip(len, payload + rest);
    let n = encode_var_int(len).len();
    assert(b.subrange(n as int, n + len) =~= payload);
}

} // verus!
