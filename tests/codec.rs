use mcclient::error::ProtocolError;
use mcclient::frame::{read_frame, write_frame, write_long, write_string};
use mcclient::inflate::inflate;
use mcclient::varint::{read_var_int, var_int_progress_of, write_var_int, VarIntProgress};

fn encode(v: i32) -> Vec<u8> {
    let mut out = Vec::new();
    write_var_int(&mut out, v);
    out
}

#[test]
fn var_int_round_trip_values() {
    let values = [0, 1, 127, 128, 255, 300, 25565, 2097151, 2097152, i32::MAX, i32::MIN, -1, -128];
    for v in values {
        let bytes = encode(v);
        assert_eq!(read_var_int(&bytes), Ok((v, bytes.len())));
    }
}

#[test]
fn var_int_zero_is_one_zero_byte() {
    assert_eq!(encode(0), vec![0x00]);
}

#[test]
fn var_int_minus_one_takes_five_bytes() {
    let bytes = encode(-1);
    assert_eq!(bytes, vec![0xff, 0xff, 0xff, 0xff, 0x0f]);
    for b in &bytes[..4] {
        assert!(b & 0x80 != 0);
    }
    assert!(bytes[4] & 0x80 == 0);
}

#[test]
fn var_int_known_encodings() {
    assert_eq!(encode(1), vec![0x01]);
    assert_eq!(encode(127), vec![0x7f]);
    assert_eq!(encode(128), vec![0x80, 0x01]);
    assert_eq!(encode(255), vec![0xff, 0x01]);
    assert_eq!(encode(25565), vec![0xdd, 0xc7, 0x01]);
    assert_eq!(encode(i32::MAX), vec![0xff, 0xff, 0xff, 0xff, 0x07]);
    assert_eq!(encode(i32::MIN), vec![0x80, 0x80, 0x80, 0x80, 0x08]);
}

#[test]
fn var_int_six_bytes_is_malformed() {
    let bytes = [0x80, 0x80, 0x80, 0x80, 0x80, 0x01];
    assert_eq!(read_var_int(&bytes), Err(ProtocolError::MalformedVarInt));
}

#[test]
fn var_int_truncated_is_malformed() {
    assert_eq!(read_var_int(&[0x80, 0x80]), Err(ProtocolError::MalformedVarInt));
    assert_eq!(read_var_int(&[]), Err(ProtocolError::MalformedVarInt));
}

#[test]
fn var_int_reads_only_its_own_bytes() {
    assert_eq!(read_var_int(&[0xac, 0x02, 0x55, 0x66]), Ok((300, 2)));
}

#[test]
fn var_int_progress_one_byte_at_a_time() {
    assert_eq!(var_int_progress_of(&[]), VarIntProgress::NeedMore);
    assert_eq!(var_int_progress_of(&[0x80]), VarIntProgress::NeedMore);
    assert_eq!(var_int_progress_of(&[0x80, 0x01]), VarIntProgress::Complete(128));
    assert_eq!(var_int_progress_of(&[0x80, 0x80, 0x80, 0x80, 0x80]), VarIntProgress::Malformed);
}

#[test]
fn frame_round_trip_payloads() {
    let sizes = [0usize, 1, 127, 128, 300, 70000];
    for n in sizes {
        let payload: Vec<u8> = (0..n).map(|i| (i % 251) as u8).collect();
        let mut framed = write_frame(&payload);
        let total = framed.len();
        framed.extend_from_slice(&[9, 9, 9]);
        assert_eq!(read_frame(&framed), Ok((payload, total)));
    }
}

#[test]
fn frame_prefix_is_length() {
    assert_eq!(write_frame(&[7, 8, 9]), vec![3, 7, 8, 9]);
}

#[test]
fn frame_shorter_than_declared_is_truncated() {
    assert_eq!(read_frame(&[5, 1, 2]), Err(ProtocolError::TruncatedStream));
}

#[test]
fn frame_negative_length_is_violation() {
    assert_eq!(read_frame(&[0xff, 0xff, 0xff, 0xff, 0x0f]), Err(ProtocolError::ProtocolViolation));
}

#[test]
fn string_and_long_fields() {
    let mut buf = Vec::new();
    write_string(&mut buf, "héllo");
    assert_eq!(buf, vec![6, b'h', 0xc3, 0xa9, b'l', b'l', b'o']);
    let mut buf = Vec::new();
    write_long(&mut buf, 77);
    assert_eq!(buf, vec![0, 0, 0, 0, 0, 0, 0, 77]);
    let mut buf = Vec::new();
    write_long(&mut buf, -2);
    assert_eq!(buf, vec![0xff, 0xff, 0xff, 0xff, 0xff, 0xff, 0xff, 0xfe]);
}

fn compressed(data: &[u8]) -> Vec<u8> {
    yazi::compress(data, yazi::Format::Zlib, yazi::CompressionLevel::Default).unwrap()
}

#[test]
fn inflate_valid_payload() {
    let data = b"hello hello hello world, a chat packet body".to_vec();
    let c = compressed(&data);
    assert_eq!(inflate(&c, data.len()), Ok(data));
}

#[test]
fn inflate_wrong_length_is_corrupt() {
    let data = b"some bytes to squeeze".to_vec();
    let c = compressed(&data);
    assert_eq!(inflate(&c, data.len() + 1), Err(ProtocolError::CorruptPayload));
}

#[test]
fn inflate_single_corrupted_byte_is_caught() {
    // A flip that lands only in the padding bits after the final block
    // leaves the stream meaning the same bytes; every other flip must fail.
    let data = b"the quick brown fox jumps over the lazy dog, twice: the quick brown fox".to_vec();
    let c = compressed(&data);
    let mut failed = 0;
    let mut tried = 0;
    for i in 0..c.len() {
        for flip in [0x01u8, 0x80, 0xff] {
            let mut bad = c.clone();
            bad[i] ^= flip;
            let r = inflate(&bad, data.len());
            tried += 1;
            match r {
                Err(e) => {
                    assert_eq!(e, ProtocolError::CorruptPayload);
                    failed += 1;
                }
                Ok(v) => assert_eq!(v, data, "byte {} flipped by {:#x} gave other bytes", i, flip),
            }
        }
    }
    assert!(failed * 10 >= tried * 9);
}

#[test]
fn inflate_garbage_is_corrupt() {
    assert_eq!(inflate(&[1, 2, 3, 4], 4), Err(ProtocolError::CorruptPayload));
}
