use vstd::prelude::*;

verus! {

/// The ways in which decoding protocol data can fail.
#[derive(Debug, PartialEq, Eq, Structural, Clone, Copy)]
pub enum ProtocolError {
    /// A VarInt runs past five groups, or the buffer ends inside it.
    MalformedVarInt,
    /// A frame or field declares more bytes than are present.
    TruncatedStream,
    /// A compressed payload fails its length or checksum test.
    CorruptPayload,
    /// A translation key is missing from the translation table.
    TranslationNotFound,
    /// A field holds a value outside the range the decoder accepts.
    ProtocolViolation,
    /// A string field is not valid UTF-8.
    Utf8DecodingFailure,
}

} // verus!
