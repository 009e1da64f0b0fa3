//! Reading typed fields at a position in a byte buffer. Each reader returns
//! the field and the position just past it.

use vstd::prelude::*;
use crate::error::ProtocolError;
use crate::frame::slice_to_vec;
use crate::varint::{decode_var_int, read_var_int_at};

verus! {

/// The VarInt at `pos`, and the position after it.
pub open spec fn var_int_field(b: Seq<u8>, pos: nat) -> Result<(i32, nat), ProtocolError> {
    if pos > b.len() {
        Err(ProtocolError::TruncatedStream)
    } else {
        match decode_var_int(b.subrange(pos as int, b.len() as int)) {
            Some((v, n)) => Ok((v, pos + n)),
            None => Err(ProtocolError::MalformedVarInt),
        }
    }
}

/// The `n` bytes at `pos`, and the position after them.
pub open spec fn bytes_field(b: Seq<u8>, pos: nat, n: int) -> Result<(Seq<u8>, nat), ProtocolError> {
    if n < 0 {
        Err(ProtocolError::ProtocolViolation)
    } else if pos + n > b.len() {
        Err(ProtocolError::TruncatedStream)
    } else {
        Ok((b.subrange(pos as int, pos + n), (pos + n) as nat))
    }
}

/// The byte at `pos`, and the position after it.
pub open spec fn byte_field(b: Seq<u8>, pos: nat) -> Result<(u8, nat), ProtocolError> {
    if pos + 1 > b.len() {
        Err(ProtocolError::TruncatedStream)
    } else {
        Ok((b[pos as int], pos + 1))
    }
}

/// A VarInt length at `pos` and that many bytes after it.
pub open spec fn blob_field(b: Seq<u8>, pos: nat) -> Result<(Seq<u8>, nat), ProtocolError> {
    match var_int_field(b, pos) {
        Ok((n, p)) => bytes_field(b, p, n as int),
        Err(e) => Err(e),
    }
}

/// Reads the VarInt at `pos`.
pub fn take_var_int(b: &[u8], pos: usize) -> (r: Result<(i32, usize), ProtocolError>)
    ensures
        match var_int_field(b@, pos as nat) {
            Ok((v, p)) => r matches Ok((w, q)) && w == v && q == p,
            Err(e) => r == Err::<(i32, usize), ProtocolError>(e),
        },
        r matches Ok((_, q)) ==> pos < q <= b@.len(),
{
    if pos > b.len() {
        return Err(ProtocolError::TruncatedStream);
    }
    match read_var_int_at(b, pos) {
        Ok((v, n)) => Ok((v, pos + n)),
        Err(e) => Err(e),
    }
}

/// Reads `n` bytes at `pos`.
pub fn take_bytes(b: &[u8], pos: usize, n: i32) -> (r: Result<(Vec<u8>, usize), ProtocolError>)
    requires
        pos <= b@.len(),
    ensures
        match bytes_field(b@, pos as nat, n as int) {
            Ok((v, p)) => r matches Ok((w, q)) && w@ == v && q == p,
            Err(e) => r == Err::<(Vec<u8>, usize), ProtocolError>(e),
        },
        r matches Ok((_, q)) ==> pos <= q <= b@.len(),
{
    if n < 0 {
        return Err(ProtocolError::ProtocolViolation);
    }
    if n as usize > b.len() - pos {
        return Err(ProtocolError::TruncatedStream);
    }
    let end = pos + n as usize;
    Ok((slice_to_vec(b, pos, end), end))
}

/// Reads the byte at `pos`.
pub fn take_byte(b: &[u8], pos: usize) -> (r: Result<(u8, usize), ProtocolError>)
    ensures
        match byte_field(b@, pos as nat) {
            Ok((v, p)) => r matches Ok((w, q)) && w == v && q == p,
            Err(e) => r == Err::<(u8, usize), ProtocolError>(e),
        },
        r matches Ok((_, q)) ==> pos < q <= b@.len(),
{
    if pos >= b.len() {
        return Err(ProtocolError::TruncatedStream);
    }
    Ok((b[pos], pos + 1))
}

/// Reads a length-prefixed run of bytes at `pos`.
pub fn take_blob(b: &[u8], pos: usize) -> (r: Result<(Vec<u8>, usize), ProtocolError>)
    ensures
        match blob_field(b@, pos as nat) {
            Ok((v, p)) => r matches Ok((w, q)) && w@ == v && q == p,
            Err(e) => r == Err::<(Vec<u8>, usize), ProtocolError>(e),
        },
        r matches Ok((_, q)) ==> pos < q <= b@.len(),
{
    match take_var_int(b, pos) {
        Ok((n, p)) => take_bytes(b, p, n),
        Err(e) => Err(e),
    }
}

} // verus!
