use vstd::prelude::*;
use crate::error::ProtocolError;

verus! {

/// What `yazi::decompress` makes of a zlib stream: the inflated bytes and
/// the Adler-32 value stored in the stream's trailer, or `None` when the
/// stream is not valid.
pub uninterp spec fn zlib_decoded(compressed: Seq<u8>) -> Option<(Seq<u8>, Option<u32>)>;

/// The Adler-32 checksum of `data`, as `yazi::Adler32` computes it.
pub uninterp spec fn adler32_of(data: Seq<u8>) -> u32;

/// Relies on `yazi::decompress` in zlib format: it returns the inflated
/// bytes and the trailer checksum read from the stream (not compared with
/// anything), and its result depends on the input bytes alone.
#[verifier::external_body]
fn zlib_decompress(compressed: &[u8]) -> (r: Option<(Vec<u8>, Option<u32>)>)
    ensures
        match zlib_decoded(compressed@) {
            Some((out, sum)) => r matches Some((v, s)) && v@ == out && s == sum,
            None => r is None,
        },
{
    yazi::decompress(compressed, yazi::Format::Zlib).ok()
}

/// Relies on `yazi::Adler32::from_buf` and `finish`: the checksum of the
/// bytes, a function of the bytes alone.
#[verifier::external_body]
fn adler32(data: &[u8]) -> (r: u32)
    ensures
        r == adler32_of(data@),
{
    yazi::Adler32::from_buf(data).finish()
}

/// A compressed payload checks out: it inflates, carries a trailer checksum
/// that matches the inflated bytes, and inflates to `expected_len` bytes.
pub open spec fn inflate_ok(compressed: Seq<u8>, expected_len: nat) -> bool {
    match zlib_decoded(compressed) {
        Some((out, Some(sum))) => out.len() == expected_len && sum == adler32_of(out),
        _ => false,
    }
}

/// Inflates a zlib payload that must come to exactly `expected_len` bytes,
/// checking the stream's Adler-32 trailer against the bytes produced.
pub fn inflate(compressed: &[u8], expected_len: usize) -> (r: Result<Vec<u8>, ProtocolError>)
    ensures
        r is Ok <==> inflate_ok(compressed@, expected_len as nat),
        r matches Ok(v) ==> zlib_decoded(compressed@) == Some((v@, Some(adler32_of(v@)))),
        r matches Err(e) ==> e == ProtocolError::CorruptPayload,
{
    match zlib_decompress(compressed) {
        Some((out, Some(sum))) => {
            if out.len() != expected_len {
                return Err(ProtocolError::CorruptPayload);
            }
            let actual = adler32(out.as_slice());
            if actual != sum {
                return Err(ProtocolError::CorruptPayload);
            }
            Ok(out)
        },
        _ => Err(ProtocolError::CorruptPayload),
    }
}

} // verus!
