use vstd::prelude::*;
use crate::error::ProtocolError;

verus! {

/// The most groups a 32-bit VarInt may use.
pub const MAX_VAR_INT_GROUPS: usize = 5;

/// The encoding of an unsigned 32-bit pattern: 7-bit groups, least
/// significant first, the high bit of each byte set when more follow.
pub open spec fn var_int_bytes(u: nat) -> Seq<u8>
    decreases u,
{
    if u < 128 {
        seq![u as u8]
    } else {
        seq![((u % 128) + 128) as u8] + var_int_bytes(u / 128)
    }
}

/// The 32-bit two's-complement pattern of `v`, as a natural number.
pub open spec fn u32_bits(v: i32) -> nat {
    if v >= 0 { v as nat } else { (v + 0x1_0000_0000) as nat }
}

/// The encoding of a signed value: that of its two's-complement bits.
pub open spec fn encode_var_int(v: i32) -> Seq<u8> {
    var_int_bytes(u32_bits(v))
}

/// Reads at most `groups` groups from the start of `b`: the unsigned value
/// they spell and the number of bytes they take, or `None` when the
/// sequence runs out or does not end within `groups` bytes.
pub open spec fn var_int_parse(b: Seq<u8>, groups: nat) -> Option<(nat, nat)>
    decreases groups,
{
    if groups == 0 || b.len() == 0 {
        None
    } else if b[0] < 128 {
        Some((b[0] as nat, 1))
    } else {
        match var_int_parse(b.subrange(1, b.len() as int), (groups - 1) as nat) {
            Some((v, n)) => Some((((b[0] - 128) + 128 * v) as nat, n + 1)),
            None => None,
        }
    }
}

/// The signed value of the low 32 bits of `u`.
pub open spec fn low_i32(u: nat) -> i32 {
    let w = u % 0x1_0000_0000;
    if w < 0x8000_0000 { w as i32 } else { (w - 0x1_0000_0000) as i32 }
}

/// Decodes the VarInt at the start of `b`: its value and the bytes it takes.
pub open spec fn decode_var_int(b: Seq<u8>) -> Option<(i32, nat)> {
    match var_int_parse(b, 5) {
        Some((u, n)) => Some((low_i32(u), n)),
        None => None,
    }
}

proof fn lemma_var_int_bytes_len(u: nat, k: nat)
    requires
        1 <= k,
        u < pow128(k),
    ensures
        1 <= var_int_bytes(u).len() <= k,
    decreases u,
{
    reveal_with_fuel(var_int_bytes, 2);
    reveal_with_fuel(pow128, 2);
    if u >= 128 {
        assert(pow128(k) == 128 * pow128((k - 1) as nat));
        lemma_var_int_bytes_len(u / 128, (k - 1) as nat);
    }
}

proof fn lemma_pow128_5()
    ensures
        pow128(5) == 0x8_0000_0000,
{
    reveal_with_fuel(pow128, 6);
}

pub open spec fn pow128(k: nat) -> nat
    decreases k,
{
    if k == 0 { 1 } else { 128 * pow128((k - 1) as nat) }
}

/// Parsing the encoding of `u`, followed by anything, gives back `u` and
/// the encoding's length, whenever `groups` suffices for `u`.
proof fn lemma_parse_var_int_bytes(u: nat, rest: Seq<u8>, groups: nat)
    requires
        1 <= groups,
        u < pow128(groups),
    ensures
        var_int_parse(var_int_bytes(u) + rest, groups) == Some((u, var_int_bytes(u).len())),
    decreases u,
{
    let b = var_int_bytes(u) + rest;
    if u < 128 {
        assert(b[0] == u as u8);
    } else {
        assert(pow128(groups) == 128 * pow128((groups - 1) as nat));
        reveal_with_fuel(pow128, 2);
        lemma_parse_var_int_bytes(u / 128, rest, (groups - 1) as nat);
        assert(b.subrange(1, b.len() as int) =~= var_int_bytes(u / 128) + rest);
    }
}

/// Decoding an encoded value, with anything after it, gives the value and
/// the length of its encoding.
pub proof fn lemma_var_int_round_trip(v: i32, rest: Seq<u8>)
    ensures
        decode_var_int(encode_var_int(v) + rest) == Some((v, encode_var_int(v).len())),
        1 <= encode_var_int(v).len() <= 5,
{
    let u = u32_bits(v);
    lemma_pow128_5();
    lemma_parse_var_int_bytes(u, rest, 5);
    lemma_var_int_bytes_len(u, 5);
    assert(low_i32(u) == v);
}

/// Appends the VarInt encoding of `value` to `buffer`.
pub fn write_var_int(buffer: &mut Vec<u8>, value: i32)
    ensures
        final(buffer)@ == old(buffer)@ + encode_var_int(value),
        1 <= encode_var_int(value).len() <= 5,
{
    proof {
        lemma_pow128_5();
        lemma_var_int_bytes_len(u32_bits(value), 5);
    }
    let mut u: u32 = if value >= 0 {
        value as u32
    } else {
        (value as i64 + 0x1_0000_0000i64) as u32
    };
    let ghost start = buffer@;
    while u >= 128
        invariant
            buffer@ + var_int_bytes(u as nat) == start + encode_var_int(value),
        decreases u,
    {
        let byte: u8 = ((u % 128) + 128) as u8;
        let ghost prev = buffer@;
        buffer.push(byte);
        proof {
            assert(var_int_bytes(u as nat) == seq![byte] + var_int_bytes((u / 128) as nat));
            assert(buffer@ + var_int_bytes((u / 128) as nat) =~= prev + var_int_bytes(u as nat));
        }
        u = u / 128;
    }
    buffer.push(u as u8);
    proof {
        assert(var_int_bytes(u as nat) == seq![u as u8]);
        assert(buffer@ =~= buffer@.drop_last() + var_int_bytes(u as nat));
    }
}

/// A parse never yields more than `groups` bytes or a value of more than
/// `groups` groups.
proof fn lemma_var_int_parse_bounds(b: Seq<u8>, groups: nat)
    ensures
        var_int_parse(b, groups) matches Some((v, n)) ==> 1 <= n <= groups && n <= b.len()
            && v < pow128(n),
    decreases groups,
{
    reveal_with_fuel(pow128, 2);
    if groups > 0 && b.len() > 0 && b[0] >= 128 {
        lemma_var_int_parse_bounds(b.subrange(1, b.len() as int), (groups - 1) as nat);
        if let Some((v, n)) = var_int_parse(b.subrange(1, b.len() as int), (groups - 1) as nat) {
            assert(pow128(n + 1) == 128 * pow128(n));
            assert((b[0] - 128) + 128 * v < 128 * pow128(n)) by (nonlinear_arith)
                requires
                    b[0] - 128 < 128,
                    v < pow128(n),
            ;
        }
    }
}

fn parse_groups(b: &[u8], pos: usize, groups: usize) -> (r: Option<(u64, usize)>)
    requires
        pos <= b@.len(),
        groups <= 5,
    ensures
        match var_int_parse(b@.subrange(pos as int, b@.len() as int), groups as nat) {
            Some((v, n)) => r == Some((v as u64, n as usize)),
            None => r is None,
        },
    decreases groups,
{
    let ghost rest = b@.subrange(pos as int, b@.len() as int);
    proof {
        lemma_var_int_parse_bounds(rest, groups as nat);
        lemma_pow128_5();
        lemma_pow128_mono(groups as nat, 5);
    }
    if groups == 0 || pos >= b.len() {
        return None;
    }
    let first: u8 = b[pos];
    if first < 128 {
        return Some((first as u64, 1));
    }
    proof {
        assert(rest.subrange(1, rest.len() as int) =~= b@.subrange(pos + 1, b@.len() as int));
    }
    match parse_groups(b, pos + 1, groups - 1) {
        Some((v, n)) => {
            proof {
                lemma_var_int_parse_bounds(rest.subrange(1, rest.len() as int), (groups - 1) as nat);
                lemma_pow128_mono(n as nat, 4);
                reveal_with_fuel(pow128, 5);
            }
            Some(((first as u64 - 128) + 128 * v, n + 1))
        },
        None => None,
    }
}

proof fn lemma_pow128_mono(a: nat, b: nat)
    requires
        a <= b,
    ensures
        pow128(a) <= pow128(b),
    decreases b,
{
    if a < b {
        lemma_pow128_mono(a, (b - 1) as nat);
    }
}

/// Reads the VarInt at the start of `buffer`: its value and the number of
/// bytes it takes.
pub fn read_var_int(buffer: &[u8]) -> (r: Result<(i32, usize), ProtocolError>)
    ensures
        match decode_var_int(buffer@) {
            Some((v, n)) => r matches Ok((w, m)) && w == v && m == n,
            None => r == Err::<(i32, usize), ProtocolError>(ProtocolError::MalformedVarInt),
        },
        r matches Ok((_, n)) ==> 1 <= n <= 5 && n <= buffer@.len(),
{
    proof {
        assert(buffer@.subrange(0, buffer@.len() as int) =~= buffer@);
    }
    read_var_int_at(buffer, 0)
}

/// Reads the VarInt that starts at `pos` in `buffer`: its value and the
/// number of bytes it takes.
pub fn read_var_int_at(buffer: &[u8], pos: usize) -> (r: Result<(i32, usize), ProtocolError>)
    requires
        pos <= buffer@.len(),
    ensures
        match decode_var_int(buffer@.subrange(pos as int, buffer@.len() as int)) {
            Some((v, n)) => r matches Ok((w, m)) && w == v && m == n,
            None => r == Err::<(i32, usize), ProtocolError>(ProtocolError::MalformedVarInt),
        },
        r matches Ok((_, n)) ==> 1 <= n <= 5 && pos + n <= buffer@.len(),
{
    let ghost rest = buffer@.subrange(pos as int, buffer@.len() as int);
    proof {
        lemma_var_int_parse_bounds(rest, 5);
        lemma_pow128_5();
        if let Some((v, n)) = var_int_parse(rest, 5) {
            lemma_pow128_mono(n, 5);
        }
    }
    match parse_groups(buffer, pos, MAX_VAR_INT_GROUPS) {
        Some((u, n)) => {
            let w: u64 = u % 0x1_0000_0000;
            let v: i32 = if w < 0x8000_0000 {
                w as i32
            } else {
                (w as i64 - 0x1_0000_0000i64) as i32
            };
            Ok((v, n))
        },
        None => Err(ProtocolError::MalformedVarInt),
    }
}

/// How far a VarInt read one byte at a time has got.
#[derive(Debug, PartialEq, Eq, Structural, Clone, Copy)]
pub enum VarIntProgress {
    /// The bytes so far spell this value.
    Complete(i32),
    /// Every byte so far asks for another.
    NeedMore,
    /// Five bytes have gone by without an end.
    Malformed,
}

/// What the bytes of a VarInt read so far amount to.
pub open spec fn var_int_progress(read: Seq<u8>) -> VarIntProgress {
    match decode_var_int(read) {
        Some((v, _)) => VarIntProgress::Complete(v),
        None => if read.len() < 5 {
            VarIntProgress::NeedMore
        } else {
            VarIntProgress::Malformed
        },
    }
}

/// Tells a reader that takes one byte at a time from a stream whether the
/// bytes `read` so far end a VarInt, call for one more, or are malformed.
pub fn var_int_progress_of(read: &[u8]) -> (r: VarIntProgress)
    ensures
        r == var_int_progress(read@),
{
    match read_var_int(read) {
        Ok((v, _)) => VarIntProgress::Complete(v),
        Err(_) => if read.len() < MAX_VAR_INT_GROUPS {
            VarIntProgress::NeedMore
        } else {
            VarIntProgress::Malformed
        },
    }
}

} // verus!
