//! The packets this client builds and the frames it reads, phase by phase.

use vstd::prelude::*;
use vstd::string::StringSliceAdditionalSpecFns;
use crate::cursor::{blob_field, bytes_field, take_blob, take_bytes, take_var_int, var_int_field};
use crate::error::ProtocolError;
use crate::frame::{
    append_bytes, be_value, frame_bytes, i64_be_bytes, i64_from_be, parse_frame, read_frame,
    slice_to_vec, string_bytes, write_frame, write_long, write_string,
};
use crate::inflate::{inflate, inflate_ok, zlib_decoded};
use crate::player_info::{decode_player_info, player_info_updates, RosterUpdate};
use crate::text::{str_eq, utf8_string, utf8_text};
use crate::varint::{encode_var_int, write_var_int};

verus! {

/// The longest user name the server accepts, in bytes.
pub const MAX_USERNAME_LEN: usize = 16;

/// The longest chat line the server accepts, in bytes.
pub const MAX_CHAT_LEN: usize = 256;

/// The payload of the ping request, which the pong echoes.
pub const PING_PAYLOAD: i64 = 77;

/// Login-Success; after login the ID is reused for a packet this client
/// ignores.
pub const LOGIN_SUCCESS_ID: i32 = 0x02;

/// A chat or system message.
pub const CHAT_MESSAGE_ID: i32 = 0x0F;

/// A keep-alive token from the server, to be echoed at once.
pub const KEEP_ALIVE_ID: i32 = 0x21;

/// A player-info (roster) update.
pub const PLAYER_INFO_ID: i32 = 0x36;

/// The packet ID of Set-Compression in the login phase.
pub const SET_COMPRESSION_ID: i32 = 0x03;

/// The bytes of a keep-alive token.
pub const KEEP_ALIVE_LEN: usize = 8;

/// The two big-endian bytes of a port.
pub open spec fn port_bytes(port: u16) -> Seq<u8> {
    seq![(port / 256) as u8, (port % 256) as u8]
}

/// The handshake packet body (not yet framed).
pub open spec fn handshake_bytes(id: u8, version: i32, ip: &str, port: u16, next: i32) -> Seq<u8> {
    seq![id] + encode_var_int(version) + string_bytes(ip) + port_bytes(port) + encode_var_int(next)
}

/// Builds the body of a handshake: packet ID, protocol version, server
/// address, port, and the state to enter next (1 status, 2 login).
pub fn handshake_packet(id: u8, version: i32, ip: &str, port: u16, number: i32) -> (r: Vec<u8>)
    requires
        ip.spec_bytes().len() <= i32::MAX,
    ensures
        r@ == handshake_bytes(id, version, ip, port, number),
{
    let mut packet: Vec<u8> = Vec::new();
    packet.push(id);
    write_var_int(&mut packet, version);
    write_string(&mut packet, ip);
    packet.push((port / 256) as u8);
    packet.push((port % 256) as u8);
    write_var_int(&mut packet, number);
    proof {
        assert(packet@ =~= handshake_bytes(id, version, ip, port, number));
    }
    packet
}

/// Builds the framed status request: a frame of one byte, the packet ID.
pub fn status_request_packet(id: u8) -> (r: Vec<u8>)
    ensures
        r@ == encode_var_int(1) + seq![id],
{
    let mut packet: Vec<u8> = Vec::new();
    write_var_int(&mut packet, 1);
    packet.push(id);
    proof {
        assert(packet@ =~= encode_var_int(1) + seq![id]);
    }
    packet
}

/// Builds the framed ping request, whose payload is `PING_PAYLOAD`.
pub fn ping_request_packet() -> (r: Vec<u8>)
    ensures
        r@ == frame_bytes(encode_var_int(1) + i64_be_bytes(PING_PAYLOAD)),
{
    let mut packet: Vec<u8> = Vec::new();
    write_var_int(&mut packet, 0x01);
    write_long(&mut packet, PING_PAYLOAD);
    proof {
        assert(packet@ =~= encode_var_int(1) + i64_be_bytes(PING_PAYLOAD));
    }
    write_frame(packet.as_slice())
}

/// Builds the framed Login-Start packet for `username`, or `None` when the
/// name is longer than `MAX_USERNAME_LEN` bytes.
pub fn login_start_packet(username: &str) -> (r: Option<Vec<u8>>)
    ensures
        username.spec_bytes().len() > MAX_USERNAME_LEN <==> r is None,
        r matches Some(v) ==> v@ == frame_bytes(encode_var_int(0) + string_bytes(username)),
{
    if username.as_bytes().len() > MAX_USERNAME_LEN {
        return None;
    }
    let mut packet: Vec<u8> = Vec::new();
    write_var_int(&mut packet, 0x00);
    write_string(&mut packet, username);
    proof {
        assert(packet@ =~= encode_var_int(0) + string_bytes(username));
    }
    Some(write_frame(packet.as_slice()))
}

/// Builds the keep-alive reply: a frame of an uncompressed marker (0x00),
/// the packet ID 0x0F, and the server's token.
pub fn keep_alive_response(token: &[u8]) -> (r: Vec<u8>)
    requires
        token@.len() == KEEP_ALIVE_LEN,
    ensures
        r@ == frame_bytes(seq![0x00u8, 0x0Fu8] + token@),
{
    let mut packet: Vec<u8> = Vec::new();
    packet.push(0x00);
    packet.push(0x0F);
    append_bytes(&mut packet, token);
    proof {
        assert(packet@ =~= seq![0x00u8, 0x0Fu8] + token@);
    }
    write_frame(packet.as_slice())
}

/// Builds a framed chat message: an uncompressed marker (0x00), the packet
/// ID 0x03 and the text; `None` when the text is longer than
/// `MAX_CHAT_LEN` bytes.
pub fn chat_message_packet(message: &str) -> (r: Option<Vec<u8>>)
    ensures
        message.spec_bytes().len() > MAX_CHAT_LEN <==> r is None,
        r matches Some(v) ==> v@ == frame_bytes(seq![0x00u8, 0x03u8] + string_bytes(message)),
{
    if message.as_bytes().len() > MAX_CHAT_LEN {
        return None;
    }
    let mut packet: Vec<u8> = Vec::new();
    packet.push(0x00);
    packet.push(0x03);
    write_string(&mut packet, message);
    proof {
        assert(packet@ =~= seq![0x00u8, 0x03u8] + string_bytes(message));
    }
    Some(write_frame(packet.as_slice()))
}

/// What the operator asked for with one line of input.
#[derive(Debug)]
pub enum OperatorCommand {
    /// Show the local commands.
    Help,
    /// Close the connection and leave.
    Quit,
    /// Show the roster.
    ListPlayers,
    /// Send this framed chat packet.
    Send(Vec<u8>),
    /// The line is too long to send.
    TooLong,
}

/// Interprets one line of operator input (already trimmed): a local
/// command, or a chat message to send.
pub fn operator_command(line: &str) -> (r: OperatorCommand)
    ensures
        line.spec_bytes().len() > MAX_CHAT_LEN ==> r is TooLong,
        line.spec_bytes().len() <= MAX_CHAT_LEN ==> if line@ == "/help"@ {
            r is Help
        } else if line@ == "/quit"@ {
            r is Quit
        } else if line@ == "/all players"@ {
            r is ListPlayers
        } else {
            r matches OperatorCommand::Send(v) && v@ == frame_bytes(
                seq![0x00u8, 0x03u8] + string_bytes(line),
            )
        },
{
    if line.as_bytes().len() > MAX_CHAT_LEN {
        return OperatorCommand::TooLong;
    }
    if str_eq(line, "/help") {
        OperatorCommand::Help
    } else if str_eq(line, "/quit") {
        OperatorCommand::Quit
    } else if str_eq(line, "/all players") {
        OperatorCommand::ListPlayers
    } else {
        match chat_message_packet(line) {
            Some(v) => OperatorCommand::Send(v),
            None => OperatorCommand::TooLong,
        }
    }
}

/// The status reply split into its first frame (with its length prefix)
/// and everything after it.
pub open spec fn status_reply_parts(b: Seq<u8>) -> Result<(Seq<u8>, Seq<u8>), ProtocolError> {
    match parse_frame(b) {
        Ok((_, n)) => Ok((b.subrange(0, n as int), b.subrange(n as int, b.len() as int))),
        Err(e) => Err(e),
    }
}

/// Splits the bytes that the status connection returned into the
/// status-response frame and the pong frame that follows it.
pub fn split_status_reply(buffer: &[u8]) -> (r: Result<(Vec<u8>, Vec<u8>), ProtocolError>)
    ensures
        match status_reply_parts(buffer@) {
            Ok((a, b)) => r matches Ok((x, y)) && x@ == a && y@ == b,
            Err(e) => r matches Err(f) && f == e,
        },
{
    match read_frame(buffer) {
        Ok((_, n)) => Ok((slice_to_vec(buffer, 0, n), slice_to_vec(buffer, n, buffer.len()))),
        Err(e) => Err(e),
    }
}

/// The status response, read from its frame.
#[derive(Debug)]
pub struct StatusResponse {
    pub packet_id: i32,
    pub packet_size: i32,
    pub json_size: i32,
    /// The JSON text describing the server.
    pub json: String,
}

/// The fields of a status-response frame: packet ID, payload length,
/// JSON length and JSON text.
pub open spec fn status_fields(b: Seq<u8>) -> Result<(i32, i32, i32, Seq<char>), ProtocolError> {
    match parse_frame(b) {
        Err(e) => Err(e),
        Ok((p, _)) => match var_int_field(p, 0) {
            Err(e) => Err(e),
            Ok((id, q)) => match var_int_field(p, q) {
                Err(e) => Err(e),
                Ok((len, s)) => match bytes_field(p, s, len as int) {
                    Err(e) => Err(e),
                    Ok((json, _)) => match utf8_text(json) {
                        Some(t) => Ok((id, p.len() as i32, len, t)),
                        None => Err(ProtocolError::Utf8DecodingFailure),
                    },
                },
            },
        },
    }
}

/// Reads a status-response frame.
pub fn status_response(frame: &[u8]) -> (r: Result<StatusResponse, ProtocolError>)
    ensures
        match status_fields(frame@) {
            Ok((id, size, len, t)) => r matches Ok(s) && s.packet_id == id && s.packet_size == size
                && s.json_size == len && s.json@ == t,
            Err(e) => r matches Err(f) && f == e,
        },
{
    let (payload, _) = match read_frame(frame) {
        Ok(x) => x,
        Err(e) => return Err(e),
    };
    let p = payload.as_slice();
    let (packet_id, q) = match take_var_int(p, 0) {
        Ok(x) => x,
        Err(e) => return Err(e),
    };
    let (json_size, s) = match take_var_int(p, q) {
        Ok(x) => x,
        Err(e) => return Err(e),
    };
    let (json_bytes, _) = match take_bytes(p, s, json_size) {
        Ok(x) => x,
        Err(e) => return Err(e),
    };
    let json = match utf8_string(json_bytes) {
        Some(t) => t,
        None => return Err(ProtocolError::Utf8DecodingFailure),
    };
    proof {
        lemma_frame_payload_fits(frame@);
    }
    Ok(StatusResponse { packet_id, packet_size: p.len() as i32, json_size, json })
}

proof fn lemma_frame_payload_fits(b: Seq<u8>)
    ensures
        parse_frame(b) matches Ok((p, _)) ==> p.len() <= i32::MAX,
{
}

/// The pong response, read from its frame.
#[derive(Debug)]
pub struct PongResponse {
    pub packet_id: i32,
    pub packet_size: i32,
    /// The echoed ping payload.
    pub payload: i64,
}

/// The fields of a pong frame: packet ID, payload length, and the eight
/// big-endian bytes of the echoed value, which must end the payload.
pub open spec fn pong_fields(b: Seq<u8>) -> Result<(i32, i32, i64), ProtocolError> {
    match parse_frame(b) {
        Err(e) => Err(e),
        Ok((p, _)) => match var_int_field(p, 0) {
            Err(e) => Err(e),
            Ok((id, q)) => if p.len() - q != 8 {
                Err(ProtocolError::ProtocolViolation)
            } else {
                Ok((id, p.len() as i32, i64_from_be(p.subrange(q as int, p.len() as int))))
            },
        },
    }
}

proof fn lemma_be_value_bound(b: Seq<u8>)
    ensures
        be_value(b) < pow256(b.len()),
    decreases b.len(),
{
    if b.len() > 0 {
        lemma_be_value_bound(b.drop_last());
        let v = be_value(b.drop_last());
        let k = pow256(b.drop_last().len());
        assert(v * 256 + b.last() < k * 256) by (nonlinear_arith)
            requires
                v < k,
                b.last() < 256,
        ;
    }
}

/// 256 to the power `n`.
pub open spec fn pow256(n: nat) -> nat
    decreases n,
{
    if n == 0 { 1 } else { 256 * pow256((n - 1) as nat) }
}

/// The signed value of eight big-endian bytes.
pub fn i64_from_be_bytes(b: &[u8]) -> (r: i64)
    requires
        b@.len() == 8,
    ensures
        r == i64_from_be(b@),
{
    let mut acc: u64 = 0;
    let mut i: usize = 0;
    proof {
        reveal_with_fuel(pow256, 9);
        assert(b@.subrange(0, 0) =~= Seq::<u8>::empty());
    }
    while i < 8
        invariant
            i <= 8,
            b@.len() == 8,
            acc as nat == be_value(b@.subrange(0, i as int)),
            pow256(8) == 0x1_0000_0000_0000_0000,
        decreases 8 - i,
    {
        proof {
            lemma_be_value_bound(b@.subrange(0, i as int));
            lemma_pow256_mono(i as nat, 7);
            assert(b@.subrange(0, i + 1).drop_last() =~= b@.subrange(0, i as int));
            reveal_with_fuel(pow256, 9);
            assert(acc * 256 + b@[i as int] < 0x1_0000_0000_0000_0000) by (nonlinear_arith)
                requires
                    acc < pow256(i as nat),
                    pow256(i as nat) <= pow256(7),
                    pow256(7) == 0x100_0000_0000_0000,
                    b@[i as int] < 256,
            ;
        }
        acc = acc * 256 + b[i] as u64;
        i += 1;
    }
    proof {
        assert(b@.subrange(0, 8) =~= b@);
    }
    if acc < 0x8000_0000_0000_0000 {
        acc as i64
    } else {
        (acc as i128 - 0x1_0000_0000_0000_0000i128) as i64
    }
}

proof fn lemma_pow256_mono(a: nat, b: nat)
    requires
        a <= b,
    ensures
        pow256(a) <= pow256(b),
    decreases b,
{
    if a < b {
        lemma_pow256_mono(a, (b - 1) as nat);
    }
}

/// Reads a pong frame.
pub fn ping_response(frame: &[u8]) -> (r: Result<PongResponse, ProtocolError>)
    ensures
        match pong_fields(frame@) {
            Ok((id, size, v)) => r matches Ok(s) && s.packet_id == id && s.packet_size == size
                && s.payload == v,
            Err(e) => r matches Err(f) && f == e,
        },
{
    let (payload, _) = match read_frame(frame) {
        Ok(x) => x,
        Err(e) => return Err(e),
    };
    let p = payload.as_slice();
    let (packet_id, q) = match take_var_int(p, 0) {
        Ok(x) => x,
        Err(e) => return Err(e),
    };
    if p.len() - q != 8 {
        return Err(ProtocolError::ProtocolViolation);
    }
    let bytes = slice_to_vec(p, q, p.len());
    let value = i64_from_be_bytes(bytes.as_slice());
    proof {
        lemma_frame_payload_fits(frame@);
    }
    Ok(PongResponse { packet_id, packet_size: p.len() as i32, payload: value })
}

/// The compression threshold that a Set-Compression payload announces; its
/// packet ID must be `SET_COMPRESSION_ID`.
pub open spec fn compression_threshold(p: Seq<u8>) -> Result<i32, ProtocolError> {
    match var_int_field(p, 0) {
        Err(e) => Err(e),
        Ok((id, q)) => if id != SET_COMPRESSION_ID {
            Err(ProtocolError::ProtocolViolation)
        } else {
            match var_int_field(p, q) {
                Ok((t, _)) => Ok(t),
                Err(e) => Err(e),
            }
        },
    }
}

/// Reads the payload of the frame that must follow Login-Start: the
/// Set-Compression packet, and the threshold it announces.
pub fn set_compression(payload: &[u8]) -> (r: Result<i32, ProtocolError>)
    ensures
        match compression_threshold(payload@) {
            Ok(t) => r == Ok::<i32, ProtocolError>(t),
            Err(e) => r matches Err(f) && f == e,
        },
{
    let (id, q) = match take_var_int(payload, 0) {
        Ok(x) => x,
        Err(e) => return Err(e),
    };
    if id != SET_COMPRESSION_ID {
        return Err(ProtocolError::ProtocolViolation);
    }
    match take_var_int(payload, q) {
        Ok((t, _)) => Ok(t),
        Err(e) => Err(e),
    }
}

/// The packet ID and body of a play-phase frame payload. A leading data
/// length of 0 marks an uncompressed packet: a VarInt ID, then the body. A
/// positive one gives the size of the zlib stream that follows once
/// inflated; its first byte is the ID.
pub open spec fn play_packet_parts(p: Seq<u8>) -> Result<(i32, Seq<u8>), ProtocolError> {
    match var_int_field(p, 0) {
        Err(e) => Err(e),
        Ok((data_len, q)) => if data_len < 0 {
            Err(ProtocolError::ProtocolViolation)
        } else if data_len == 0 {
            match var_int_field(p, q) {
                Err(e) => Err(e),
                Ok((id, s)) => Ok((id, p.subrange(s as int, p.len() as int))),
            }
        } else if !inflate_ok(p.subrange(q as int, p.len() as int), data_len as nat) {
            Err(ProtocolError::CorruptPayload)
        } else {
            let out = zlib_decoded(p.subrange(q as int, p.len() as int))->Some_0.0;
            Ok((out[0] as i32, out.subrange(1, out.len() as int)))
        },
    }
}

/// Splits a play-phase frame payload into its packet ID and body,
/// inflating it first when it is compressed.
pub fn play_packet(payload: &[u8]) -> (r: Result<(i32, Vec<u8>), ProtocolError>)
    ensures
        match play_packet_parts(payload@) {
            Ok((id, body)) => r matches Ok((i, v)) && i == id && v@ == body,
            Err(e) => r matches Err(f) && f == e,
        },
{
    let (data_len, q) = match take_var_int(payload, 0) {
        Ok(x) => x,
        Err(e) => return Err(e),
    };
    if data_len < 0 {
        return Err(ProtocolError::ProtocolViolation);
    }
    if data_len == 0 {
        let (id, s) = match take_var_int(payload, q) {
            Ok(x) => x,
            Err(e) => return Err(e),
        };
        return Ok((id, slice_to_vec(payload, s, payload.len())));
    }
    let compressed = slice_to_vec(payload, q, payload.len());
    match inflate(compressed.as_slice(), data_len as usize) {
        Err(e) => Err(e),
        Ok(out) => {
            let id = out[0] as i32;
            Ok((id, slice_to_vec(out.as_slice(), 1, out.len())))
        },
    }
}

/// The UUID and user name of a Login-Success body.
pub open spec fn login_fields(b: Seq<u8>) -> Result<(Seq<u8>, Seq<char>), ProtocolError> {
    match bytes_field(b, 0, 16) {
        Err(e) => Err(e),
        Ok((uuid, p)) => match blob_field(b, p) {
            Err(e) => Err(e),
            Ok((name, _)) => match utf8_text(name) {
                Some(t) => Ok((uuid, t)),
                None => Err(ProtocolError::Utf8DecodingFailure),
            },
        },
    }
}

/// Reads a Login-Success body: the player's UUID and user name.
pub fn login_success(body: &[u8]) -> (r: Result<(Vec<u8>, String), ProtocolError>)
    ensures
        match login_fields(body@) {
            Ok((u, n)) => r matches Ok((x, y)) && x@ == u && y@ == n,
            Err(e) => r matches Err(f) && f == e,
        },
{
    let (uuid, p) = match take_bytes(body, 0, 16) {
        Ok(x) => x,
        Err(e) => return Err(e),
    };
    let (name, _) = match take_blob(body, p) {
        Ok(x) => x,
        Err(e) => return Err(e),
    };
    match utf8_string(name) {
        Some(t) => Ok((uuid, t)),
        None => Err(ProtocolError::Utf8DecodingFailure),
    }
}

/// The JSON text of a chat-message body: a length-prefixed UTF-8 string.
pub open spec fn chat_text(b: Seq<u8>) -> Result<Seq<char>, ProtocolError> {
    match blob_field(b, 0) {
        Err(e) => Err(e),
        Ok((t, _)) => match utf8_text(t) {
            Some(s) => Ok(s),
            None => Err(ProtocolError::Utf8DecodingFailure),
        },
    }
}

/// Reads the JSON text of a chat-message body.
pub fn chat_from_server(body: &[u8]) -> (r: Result<String, ProtocolError>)
    ensures
        match chat_text(body@) {
            Ok(t) => r matches Ok(s) && s@ == t,
            Err(e) => r matches Err(f) && f == e,
        },
{
    let (text, _) = match take_blob(body, 0) {
        Ok(x) => x,
        Err(e) => return Err(e),
    };
    match utf8_string(text) {
        Some(s) => Ok(s),
        None => Err(ProtocolError::Utf8DecodingFailure),
    }
}

/// What the read path does with one play-phase packet.
#[derive(Debug)]
pub enum PlayAction {
    /// The login succeeded, for this UUID and user name.
    LoggedIn(Vec<u8>, String),
    /// Render this chat component, given as JSON text.
    Chat(String),
    /// Send this framed keep-alive reply at once.
    KeepAlive(Vec<u8>),
    /// Apply these updates to the roster, in order.
    Roster(Vec<RosterUpdate>),
    /// Nothing to do.
    Ignore,
}

/// Decides what to do with a play-phase packet, given whether Login-Success
/// has been seen; returns that flag as it stands after the packet, and the
/// action.
pub fn play_dispatch(logged_in: bool, packet_id: i32, body: &[u8]) -> (r: Result<(bool, PlayAction), ProtocolError>)
    ensures
        packet_id == LOGIN_SUCCESS_ID && !logged_in ==> match login_fields(body@) {
            Ok((u, n)) => r matches Ok((true, PlayAction::LoggedIn(x, y))) && x@ == u && y@ == n,
            Err(e) => r matches Err(f) && f == e,
        },
        packet_id == LOGIN_SUCCESS_ID && logged_in ==> r matches Ok((true, PlayAction::Ignore)),
        packet_id == CHAT_MESSAGE_ID ==> match chat_text(body@) {
            Ok(t) => r matches Ok((l, PlayAction::Chat(s))) && l == logged_in && s@ == t,
            Err(e) => r matches Err(f) && f == e,
        },
        packet_id == KEEP_ALIVE_ID ==> if body@.len() == KEEP_ALIVE_LEN {
            r matches Ok((l, PlayAction::KeepAlive(v))) && l == logged_in && v@ == frame_bytes(
                seq![0x00u8, 0x0Fu8] + body@,
            )
        } else {
            r matches Err(f) && f == ProtocolError::ProtocolViolation
        },
        packet_id == PLAYER_INFO_ID ==> match player_info_updates(body@) {
            Ok((us, _)) => r matches Ok((l, PlayAction::Roster(v))) && l == logged_in && v@.map_values(
                |u: RosterUpdate| u@,
            ) == us,
            Err(e) => r matches Err(f) && f == e,
        },
        packet_id != LOGIN_SUCCESS_ID && packet_id != CHAT_MESSAGE_ID && packet_id != KEEP_ALIVE_ID
            && packet_id != PLAYER_INFO_ID ==> (r matches Ok((l, PlayAction::Ignore)) && l == logged_in),
{
    if packet_id == LOGIN_SUCCESS_ID {
        if logged_in {
            Ok((true, PlayAction::Ignore))
        } else {
            match login_success(body) {
                Ok((uuid, name)) => Ok((true, PlayAction::LoggedIn(uuid, name))),
                Err(e) => Err(e),
            }
        }
    } else if packet_id == CHAT_MESSAGE_ID {
        match chat_from_server(body) {
            Ok(s) => Ok((logged_in, PlayAction::Chat(s))),
            Err(e) => Err(e),
        }
    } else if packet_id == KEEP_ALIVE_ID {
        if body.len() != KEEP_ALIVE_LEN {
            Err(ProtocolError::ProtocolViolation)
        } else {
            Ok((logged_in, PlayAction::KeepAlive(keep_alive_response(body))))
        }
    } else if packet_id == PLAYER_INFO_ID {
        match decode_player_info(body) {
            Ok((updates, _)) => Ok((logged_in, PlayAction::Roster(updates))),
            Err(e) => Err(e),
        }
    } else {
        Ok((logged_in, PlayAction::Ignore))
    }
}

/// The prefix of the favicon field ahead of its base64 text.
pub const FAVICON_PREFIX: &'static str = "data:image/png;base64,";

/// What the base64 standard engine decodes a text to, or `None` when the
/// text is not valid base64.
pub uninterp spec fn base64_decoded(text: Seq<u8>) -> Option<Seq<u8>>;

/// Relies on `base64::Engine::decode` with the standard alphabet and
/// padding: the decoded bytes, or an error for text that is not valid
/// base64; the result depends on the text alone.
#[verifier::external_body]
fn base64_decode(text: &[u8]) -> (r: Option<Vec<u8>>)
    ensures
        match base64_decoded(text@) {
            Some(d) => r matches Some(v) && v@ == d,
            None => r is None,
        },
{
    base64::Engine::decode(&base64::engine::general_purpose::STANDARD, text).ok()
}

/// The favicon text without its data-URL prefix, when it has one.
pub open spec fn favicon_base64(f: Seq<u8>, prefix: Seq<u8>) -> Seq<u8> {
    if prefix.len() <= f.len() && f.subrange(0, prefix.len() as int) == prefix {
        f.subrange(prefix.len() as int, f.len() as int)
    } else {
        f
    }
}

/// The PNG bytes of a status response's favicon field: the base64 text
/// after the data-URL prefix, decoded; `None` when it is not valid base64.
pub fn favicon_png(favicon: &str) -> (r: Option<Vec<u8>>)
    ensures
        match base64_decoded(favicon_base64(favicon.spec_bytes(), FAVICON_PREFIX.spec_bytes())) {
            Some(d) => r matches Some(v) && v@ == d,
            None => r is None,
        },
{
    let f = favicon.as_bytes();
    let prefix = FAVICON_PREFIX.as_bytes();
    let mut has_prefix = prefix.len() <= f.len();
    let mut i: usize = 0;
    while has_prefix && i < prefix.len()
        invariant
            i <= prefix@.len(),
            has_prefix ==> prefix@.len() <= f@.len(),
            has_prefix ==> forall|k: int| 0 <= k < i ==> f@[k] == prefix@[k],
            !has_prefix ==> !(prefix@.len() <= f@.len() && f@.subrange(0, prefix@.len() as int)
                == prefix@),
        decreases prefix@.len() - i,
    {
        if f[i] != prefix[i] {
            has_prefix = false;
            proof {
                assert(f@.subrange(0, prefix@.len() as int)[i as int] != prefix@[i as int]);
            }
        }
        i += 1;
    }
    if has_prefix {
        proof {
            assert(f@.subrange(0, prefix@.len() as int) =~= prefix@);
        }
        let rest = slice_to_vec(f, prefix.len(), f.len());
        base64_decode(rest.as_slice())
    } else {
        base64_decode(f)
    }
}

} // verus!
