//! Minecraft's "Server List Ping": the bytes the launcher sends, and how it
//! reads what the server answers.
use crate::error::Error;
use crate::text::{concat3, decimal_i32, owned, spec_decimal_signed};
use vstd::prelude::*;
use vstd::utf8::{decode_utf8, encode_utf8, valid_utf8};

verus! {

// ---------------------------------------------------------------------------
// VarInt encoding
// ---------------------------------------------------------------------------

/// The protocol's VarInt: seven bits per byte, least significant group
/// first, the high bit set on every byte but the last. A negative number is
/// written as its 32-bit two's complement pattern.
pub open spec fn spec_varint(u: u32) -> Seq<u8>
    decreases u,
{
    if u < 128 {
        seq![u as u8]
    } else {
        seq![((u % 128) + 128) as u8] + spec_varint(u / 128)
    }
}

fn write_varint_bits(buf: &mut Vec<u8>, v: u32)
    ensures
        final(buf)@ == old(buf)@ + spec_varint(v),
    decreases v,
{
    let low: u8 = (v & 0x7F) as u8;
    let next: u32 = v >> 7;
    proof {
        assert(low == v % 128) by (bit_vector)
            requires
                low == (v & 0x7F) as u8,
        ;
        assert(next == v / 128) by (bit_vector)
            requires
                next == v >> 7,
        ;
    }
    if next != 0 {
        let byte: u8 = low | 0x80;
        assert(byte == low + 128) by (bit_vector)
            requires
                low < 128,
                byte == low | 0x80,
        ;
        let ghost b0 = buf@;
        buf.push(byte);
        write_varint_bits(buf, next);
        assert(buf@ =~= b0 + spec_varint(v));
    } else {
        let ghost b0 = buf@;
        buf.push(low);
        assert(buf@ =~= b0 + spec_varint(v));
    }
}

/// Appends the VarInt of `value`.
pub fn write_varint(buf: &mut Vec<u8>, value: i32)
    ensures
        final(buf)@ == old(buf)@ + spec_varint(value as u32),
{
    write_varint_bits(buf, value as u32);
}

/// Appends a protocol string: the VarInt of its length in UTF-8 bytes, then the bytes.
pub fn write_string(buf: &mut Vec<u8>, s: &str)
    ensures
        final(buf)@ == old(buf)@ + spec_varint((encode_utf8(s@).len() as i32) as u32) + encode_utf8(s@),
{
    let bytes = s.as_bytes();
    write_varint(buf, bytes.len() as i32);
    let ghost b1 = buf@;
    let mut i: usize = 0;
    while i < bytes.len()
        invariant
            i <= bytes@.len(),
            buf@ == b1 + bytes@.take(i as int),
        decreases bytes@.len() - i,
    {
        buf.push(bytes[i]);
        i += 1;
        assert(buf@ =~= b1 + bytes@.take(i as int));
    }
    assert(bytes@.take(bytes@.len() as int) =~= bytes@);
}

/// A packet on the wire: the VarInt of the payload's length, then the
/// payload (the packet id's VarInt and the body).
pub open spec fn spec_frame(packet_id: i32, body: Seq<u8>) -> Seq<u8> {
    let payload = spec_varint(packet_id as u32) + body;
    spec_varint((payload.len() as i32) as u32) + payload
}

fn append_bytes(buf: &mut Vec<u8>, bytes: &[u8])
    ensures
        final(buf)@ == old(buf)@ + bytes@,
{
    let ghost b0 = buf@;
    let mut i: usize = 0;
    while i < bytes.len()
        invariant
            i <= bytes@.len(),
            buf@ == b0 + bytes@.take(i as int),
        decreases bytes@.len() - i,
    {
        buf.push(bytes[i]);
        i += 1;
        assert(buf@ =~= b0 + bytes@.take(i as int));
    }
    assert(bytes@.take(bytes@.len() as int) =~= bytes@);
}

/// The bytes that send one packet.
pub fn frame_packet(packet_id: i32, body: &[u8]) -> (framed: Vec<u8>)
    ensures
        framed@ == spec_frame(packet_id, body@),
{
    let mut payload: Vec<u8> = Vec::new();
    write_varint(&mut payload, packet_id);
    append_bytes(&mut payload, body);
    let mut framed: Vec<u8> = Vec::new();
    write_varint(&mut framed, payload.len() as i32);
    append_bytes(&mut framed, payload.as_slice());
    assert(payload@ =~= spec_varint(packet_id as u32) + body@);
    framed
}

/// The protocol number announced in the handshake; servers ignore its exact
/// value for a status request.
pub const PROTOCOL_VERSION: i32 = 763;

/// The handshake body: protocol version, server address, port (big-endian),
/// and the next state (1: status).
pub open spec fn spec_handshake_body(host: Seq<char>, port: u16) -> Seq<u8> {
    spec_varint(763u32) + spec_varint((encode_utf8(host).len() as i32) as u32) + encode_utf8(host)
        + seq![(port / 256) as u8, (port % 256) as u8] + spec_varint(1u32)
}

pub fn handshake_body(host: &str, port: u16) -> (b: Vec<u8>)
    ensures
        b@ == spec_handshake_body(host@, port),
{
    let mut b: Vec<u8> = Vec::new();
    write_varint(&mut b, PROTOCOL_VERSION);
    write_string(&mut b, host);
    let ghost b1 = b@;
    b.push((port / 256) as u8);
    b.push((port % 256) as u8);
    write_varint(&mut b, 1);
    assert(b@ =~= spec_handshake_body(host@, port));
    b
}

/// What the launcher sends to ask for the status: the handshake packet and
/// then the (empty) status request packet, both with id 0.
pub fn status_request_bytes(host: &str, port: u16) -> (out: Vec<u8>)
    ensures
        out@ == spec_frame(0, spec_handshake_body(host@, port)) + spec_frame(0, Seq::<u8>::empty()),
{
    let hs = handshake_body(host, port);
    let mut out = frame_packet(0, hs.as_slice());
    let empty: Vec<u8> = Vec::new();
    let req = frame_packet(0, empty.as_slice());
    append_bytes(&mut out, req.as_slice());
    out
}

// ---------------------------------------------------------------------------
// VarInt decoding
// ---------------------------------------------------------------------------

#[derive(Debug, Clone, Copy, PartialEq, Eq)]
pub enum VarintFault {
    /// The bytes ended in the middle of the number.
    Truncated,
    /// A fifth byte still announced more.
    TooLong,
}

/// Reading a VarInt at `pos`, `k` bytes read so far, bits gathered in `acc`:
/// the number (or the fault) and where reading stopped.
pub open spec fn read_varint_at(buf: Seq<u8>, pos: int, k: nat, acc: u32) -> (Result<u32, VarintFault>, int)
    decreases 5 - k,
{
    if pos + k < 0 || pos + k >= buf.len() {
        (Err(VarintFault::Truncated), pos + k)
    } else {
        let b = buf[pos + k];
        let acc2 = acc | (((b & 0x7f) as u32) << ((7 * k) as u32));
        if b & 0x80 == 0 {
            (Ok(acc2), pos + k + 1)
        } else if k + 1 >= 5 {
            (Err(VarintFault::TooLong), pos + k + 1)
        } else {
            read_varint_at(buf, pos, k + 1, acc2)
        }
    }
}

pub open spec fn varint_error(f: VarintFault, e: Error) -> bool {
    match f {
        VarintFault::Truncated => e matches Error::Other(m) && m@ == "varint truncado"@,
        VarintFault::TooLong => e matches Error::Other(m) && m@ == "varint demasiado largo"@,
    }
}

/// Reads a VarInt at `*pos` and moves `*pos` past the bytes it read.
pub fn read_varint_from_bytes(buf: &[u8], pos: &mut usize) -> (r: Result<i32, Error>)
    ensures
        ({
            let (res, end) = read_varint_at(buf@, *old(pos) as int, 0, 0);
            &&& *final(pos) as int == end
            &&& match res {
                Ok(u) => r == Ok::<i32, Error>(u as i32),
                Err(f) => r matches Err(e) && varint_error(f, e),
            }
        }),
{
    let start = *pos;
    let mut result: u32 = 0;
    let mut k: usize = 0;
    loop
        invariant
            k < 5,
            start == *old(pos),
            *pos == start + k,
            start + k <= usize::MAX,
            read_varint_at(buf@, start as int, 0, 0) == read_varint_at(buf@, start as int, k as nat, result),
        decreases 5 - k,
    {
        if *pos >= buf.len() {
            return Err(Error::Other(owned("varint truncado")));
        }
        let byte = buf[*pos];
        *pos = *pos + 1;
        let shift: u32 = (7 * k) as u32;
        result = result | (((byte & 0x7F) as u32) << shift);
        if byte & 0x80 == 0 {
            return Ok(result as i32);
        }
        if k + 1 >= 5 {
            return Err(Error::Other(owned("varint demasiado largo")));
        }
        k += 1;
    }
}

proof fn lemma_varint_len(u: u32)
    ensures
        1 <= spec_varint(u).len() <= 5,
        u < 128 ==> spec_varint(u).len() == 1,
        u >= 128 ==> spec_varint(u).len() == 1 + spec_varint(u / 128).len(),
        u < 0x4000 ==> spec_varint(u).len() <= 2,
        u < 0x20_0000 ==> spec_varint(u).len() <= 3,
        u < 0x1000_0000 ==> spec_varint(u).len() <= 4,
    decreases u,
{
    if u >= 128 {
        lemma_varint_len(u / 128);
    }
}

/// Reading the encoding of `u` that starts `k` bytes after `pos` completes
/// the number gathered so far.
proof fn lemma_read_varint_encoding(buf: Seq<u8>, pos: int, k: nat, acc: u32, u: u32)
    requires
        0 <= pos,
        k + spec_varint(u).len() <= 5,
        pos + k + spec_varint(u).len() <= buf.len(),
        buf.subrange(pos + k, pos + k + spec_varint(u).len()) == spec_varint(u),
    ensures
        read_varint_at(buf, pos, k, acc) == (
            Ok::<u32, VarintFault>(acc | (u << ((7 * k) as u32))),
            (pos + k + spec_varint(u).len()) as int,
        ),
    decreases u,
{
    lemma_varint_len(u);
    let b = buf[pos + k];
    assert(b == spec_varint(u)[0]);
    let s: u32 = (7 * k) as u32;
    assert(s <= 28);
    if u < 128 {
        assert(b == u as u8);
        assert(b & 0x80 == 0 && ((b & 0x7f) as u32) == u) by (bit_vector)
            requires
                u < 128,
                b == u as u8,
        ;
    } else {
        let lo = u % 128;
        let hi = u / 128;
        assert(b == (lo + 128) as u8);
        assert(b & 0x80 != 0 && ((b & 0x7f) as u32) == lo) by (bit_vector)
            requires
                lo == u % 128,
                b == (lo + 128) as u8,
        ;
        let acc2 = acc | (lo << s);
        lemma_varint_len(hi);
        assert(buf.subrange(pos + (k + 1), pos + (k + 1) + spec_varint(hi).len()) =~= spec_varint(hi)) by {
            assert(spec_varint(u) =~= seq![b] + spec_varint(hi));
            assert forall|j: int| 0 <= j < spec_varint(hi).len() implies buf.subrange(
                pos + (k + 1),
                pos + (k + 1) + spec_varint(hi).len(),
            )[j] == spec_varint(hi)[j] by {
                assert(buf.subrange(pos + k, pos + k + spec_varint(u).len())[j + 1] == spec_varint(u)[j + 1]);
            }
        }
        lemma_read_varint_encoding(buf, pos, k + 1, acc2, hi);
        let s2: u32 = (7 * (k + 1)) as u32;
        assert(s2 == s + 7);
        assert(acc2 | (hi << s2) == acc | (u << s)) by (bit_vector)
            requires
                acc2 == acc | (lo << s),
                lo == u % 128,
                hi == u / 128,
                s <= 28,
                s2 == s + 7,
        ;
    }
}

/// What one VarInt write gives back when read: the same number, and the
/// reading stops right after the bytes that were written, whatever follows.
pub proof fn lemma_varint_roundtrip(value: i32, before: Seq<u8>, after: Seq<u8>)
    ensures
        read_varint_at(before + spec_varint(value as u32) + after, before.len() as int, 0, 0) == (
            Ok::<u32, VarintFault>(value as u32),
            (before.len() + spec_varint(value as u32).len()) as int,
        ),
        ((value as u32) as i32) == value,
{
    let u = value as u32;
    let buf = before + spec_varint(u) + after;
    lemma_varint_len(u);
    assert(buf.subrange(before.len() as int, (before.len() + spec_varint(u).len()) as int) =~= spec_varint(u));
    lemma_read_varint_encoding(buf, before.len() as int, 0, 0, u);
    assert(0u32 | (u << 0u32) == u) by (bit_vector);
    assert(((value as u32) as i32) == value) by (bit_vector);
}

/// One byte of a VarInt read from the network.
#[derive(Debug, Clone, Copy, PartialEq, Eq)]
pub enum VarintStep {
    /// The number is complete.
    Done(i32),
    /// More bytes follow: the bits gathered so far and the next shift.
    More(u32, u32),
    /// The number announced a sixth byte.
    TooLong,
}

/// Takes in one more byte of a VarInt being read from a stream (`acc` holds
/// the bits so far, `shift` is 7 times the number of bytes read).
pub fn varint_accumulate(acc: u32, shift: u32, byte: u8) -> (r: VarintStep)
    requires
        shift <= 28,
    ensures
        ({
            let acc2 = acc | (((byte & 0x7f) as u32) << shift);
            if byte & 0x80 == 0 {
                r == VarintStep::Done(acc2 as i32)
            } else if shift + 7 >= 35 {
                r == VarintStep::TooLong
            } else {
                r == VarintStep::More(acc2, (shift + 7) as u32)
            }
        }),
{
    let acc2 = acc | (((byte & 0x7F) as u32) << shift);
    if byte & 0x80 == 0 {
        VarintStep::Done(acc2 as i32)
    } else if shift + 7 >= 35 {
        VarintStep::TooLong
    } else {
        VarintStep::More(acc2, shift + 7)
    }
}

// ---------------------------------------------------------------------------
// Strings and packets
// ---------------------------------------------------------------------------

/// `std::str::from_utf8(..).ok()`, owned: the text when the bytes are valid UTF-8.
#[verifier::external_body]
fn utf8_to_string(bytes: &[u8]) -> (r: Option<String>)
    ensures
        r is Some <==> valid_utf8(bytes@),
        r matches Some(s) ==> s@ == decode_utf8(bytes@),
{
    match std::str::from_utf8(bytes) {
        Ok(s) => Some(s.to_string()),
        Err(_) => None,
    }
}

fn copy_range(buf: &[u8], from: usize, to: usize) -> (v: Vec<u8>)
    requires
        from <= to <= buf@.len(),
    ensures
        v@ == buf@.subrange(from as int, to as int),
{
    let mut v: Vec<u8> = Vec::new();
    let mut i = from;
    while i < to
        invariant
            from <= i <= to <= buf@.len(),
            v@ == buf@.subrange(from as int, i as int),
        decreases to - i,
    {
        v.push(buf[i]);
        i += 1;
        assert(v@ =~= buf@.subrange(from as int, i as int));
    }
    v
}

/// The length a string's VarInt announces, as the byte count it stands for
/// (a negative length becomes a count beyond any buffer).
pub open spec fn announced_len(u: u32) -> int {
    ((u as i32) as usize) as int
}

/// Reads a protocol string at `*pos`: its VarInt length, then that many
/// bytes of UTF-8. `*pos` moves past the length, and past the text when it
/// was read.
pub fn read_string_from_bytes(buf: &[u8], pos: &mut usize) -> (r: Result<String, Error>)
    ensures
        ({
            let (res, p1) = read_varint_at(buf@, *old(pos) as int, 0, 0);
            match res {
                Err(f) => *final(pos) as int == p1 && (r matches Err(e) && varint_error(f, e)),
                Ok(u) => {
                    let end = p1 + announced_len(u);
                    if end > buf@.len() || end > usize::MAX {
                        *final(pos) as int == p1 && (r matches Err(Error::Other(m)) && m@
                            == "string truncado en la respuesta del server"@)
                    } else if valid_utf8(buf@.subrange(p1, end)) {
                        *final(pos) as int == end && (r matches Ok(s) && s@ == decode_utf8(
                            buf@.subrange(p1, end),
                        ))
                    } else {
                        *final(pos) as int == p1 && (r matches Err(Error::Other(m)) && m@
                            == "utf8 inválido en la respuesta del server"@)
                    }
                },
            }
        }),
{
    let len_value = match read_varint_from_bytes(buf, pos) {
        Ok(v) => v,
        Err(e) => return Err(e),
    };
    let len = len_value as usize;
    let start = *pos;
    let end = match start.checked_add(len) {
        Some(e) => e,
        None => return Err(Error::Other(owned("string truncado en la respuesta del server"))),
    };
    if end > buf.len() {
        return Err(Error::Other(owned("string truncado en la respuesta del server")));
    }
    let bytes = copy_range(buf, start, end);
    match utf8_to_string(bytes.as_slice()) {
        Some(s) => {
            *pos = end;
            Ok(s)
        },
        None => Err(Error::Other(owned("utf8 inválido en la respuesta del server"))),
    }
}

/// A string written with `write_string` reads back as the same text, and
/// reading ends right after it.
pub proof fn lemma_string_roundtrip(s: Seq<char>, before: Seq<u8>, after: Seq<u8>)
    requires
        encode_utf8(s).len() < 0x8000_0000,
        before.len() + spec_varint(encode_utf8(s).len() as u32).len() + encode_utf8(s).len() <= usize::MAX,
    ensures
        ({
            let n = encode_utf8(s).len();
            let buf = before + spec_varint((n as i32) as u32) + encode_utf8(s) + after;
            let (res, p1) = read_varint_at(buf, before.len() as int, 0, 0);
            &&& res == Ok::<u32, VarintFault>(n as u32)
            &&& p1 == before.len() + spec_varint(n as u32).len()
            &&& announced_len(n as u32) == n
            &&& valid_utf8(buf.subrange(p1, p1 + n))
            &&& decode_utf8(buf.subrange(p1, p1 + n)) == s
        }),
{
    let bytes = encode_utf8(s);
    let n = bytes.len();
    let v: i32 = n as i32;
    assert(v as int == n);
    assert((v as u32) == (n as u32));
    let buf = before + spec_varint(v as u32) + bytes + after;
    assert(buf == (before + spec_varint(v as u32)) + (bytes + after)) by {
        assert(buf =~= (before + spec_varint(v as u32)) + (bytes + after));
    }
    lemma_varint_roundtrip(v, before, bytes + after);
    let p1: int = (before.len() + spec_varint(v as u32).len()) as int;
    assert(buf.subrange(p1, p1 + n) =~= bytes);
    vstd::utf8::encode_utf8_valid_utf8(s);
    vstd::utf8::encode_utf8_decode_utf8(s);
    let x: u64 = n as u64;
    assert(((x as u32) as i32) as usize == x) by (bit_vector)
        requires
            x < 0x8000_0000,
    ;
}

/// The byte count a packet's length VarInt announces, when it is one to
/// read: `None` for a negative length or one above `limit`.
pub fn packet_len(announced: i32, limit: usize) -> (r: Option<usize>)
    ensures
        r == if 0 <= announced <= limit {
            Some(announced as usize)
        } else {
            None::<usize>
        },
{
    if announced < 0 {
        return None;
    }
    let n = announced as usize;
    if n <= limit {
        Some(n)
    } else {
        None
    }
}

/// A packet's id and body, from the bytes of its payload.
pub fn split_packet(payload: &[u8]) -> (r: Result<(i32, Vec<u8>), Error>)
    ensures
        ({
            let (res, p1) = read_varint_at(payload@, 0, 0, 0);
            match res {
                Ok(u) => r matches Ok((id, body)) && id == u as i32 && body@ == payload@.subrange(
                    p1,
                    payload@.len() as int,
                ),
                Err(f) => r matches Err(e) && varint_error(f, e),
            }
        }),
{
    let mut pos: usize = 0;
    let id = match read_varint_from_bytes(payload, &mut pos) {
        Ok(v) => v,
        Err(e) => return Err(e),
    };
    proof {
        lemma_read_varint_stops_inside(payload@, 0, 0, 0);
    }
    let body = copy_range(payload, pos, payload.len());
    Ok((id, body))
}

/// A successful read stops inside the buffer.
proof fn lemma_read_varint_stops_inside(buf: Seq<u8>, pos: int, k: nat, acc: u32)
    requires
        0 <= pos,
    ensures
        read_varint_at(buf, pos, k, acc).0 is Ok ==> read_varint_at(buf, pos, k, acc).1 <= buf.len(),
    decreases 5 - k,
{
    if pos + k < buf.len() {
        let b = buf[pos + k];
        let acc2 = acc | (((b & 0x7f) as u32) << ((7 * k) as u32));
        if b & 0x80 != 0 && k + 1 < 5 {
            lemma_read_varint_stops_inside(buf, pos, k + 1, acc2);
        }
    }
}

/// The status answer must be packet 0; its body is the JSON text of the
/// status, as a protocol string.
pub fn parse_status_body(packet_id: i32, body: &[u8]) -> (r: Result<String, Error>)
    ensures
        packet_id != 0 ==> (r matches Err(Error::Other(m)) && m@ == "respuesta inesperada del server (packet "@
            + spec_decimal_signed(packet_id as int) + ")"@),
        packet_id == 0 ==> ({
            let (res, p1) = read_varint_at(body@, 0, 0, 0);
            match res {
                Err(f) => r matches Err(e) && varint_error(f, e),
                Ok(u) => {
                    let end = p1 + announced_len(u);
                    if end > body@.len() || end > usize::MAX {
                        r matches Err(Error::Other(m)) && m@ == "string truncado en la respuesta del server"@
                    } else if valid_utf8(body@.subrange(p1, end)) {
                        r matches Ok(s) && s@ == decode_utf8(body@.subrange(p1, end))
                    } else {
                        r matches Err(Error::Other(m)) && m@ == "utf8 inválido en la respuesta del server"@
                    }
                },
            }
        }),
{
    if packet_id != 0 {
        let n = decimal_i32(packet_id);
        return Err(Error::Other(concat3("respuesta inesperada del server (packet ", n.as_str(), ")")));
    }
    let mut pos: usize = 0;
    read_string_from_bytes(body, &mut pos)
}

// ---------------------------------------------------------------------------
// Status
// ---------------------------------------------------------------------------

/// A server's status, for the window to show something alive.
#[derive(Debug, Clone)]
pub struct ServerStatus {
    pub online: bool,
    pub players_online: Option<u32>,
    pub players_max: Option<u32>,
    pub motd: Option<String>,
    /// The server icon as a `data:image/png;base64,...` URI, as sent.
    pub favicon: Option<String>,
}

impl ServerStatus {
    /// The status shown when the server cannot be reached or answers badly.
    pub fn offline() -> (s: Self)
        ensures
            !s.online,
            s.players_online is None,
            s.players_max is None,
            s.motd is None,
            s.favicon is None,
    {
        ServerStatus { online: false, players_online: None, players_max: None, motd: None, favicon: None }
    }
}

#[derive(Debug, Clone, Copy)]
pub struct PlayersInfo {
    pub max: u32,
    pub online: u32,
}

/// A server's message of the day: plain text, or a text component whose
/// `extra` parts are given by their `text` field (when it is a string).
#[derive(Debug)]
pub enum Description {
    Text(String),
    Component { text: String, extra_texts: Vec<Option<String>> },
}

/// The part of the status JSON the launcher reads.
#[derive(Debug)]
pub struct StatusResponse {
    pub players: PlayersInfo,
    pub description: Option<Description>,
    pub favicon: Option<String>,
}

/// The texts of the parts that have one, concatenated.
pub open spec fn spec_extra_text(parts: Seq<Option<String>>) -> Seq<char>
    decreases parts.len(),
{
    if parts.len() == 0 {
        Seq::<char>::empty()
    } else {
        spec_extra_text(parts.drop_last()) + match parts.last() {
            Some(t) => t@,
            None => Seq::<char>::empty(),
        }
    }
}

pub open spec fn spec_plain_text(d: Description) -> Seq<char> {
    match d {
        Description::Text(s) => s@,
        Description::Component { text, extra_texts } => text@ + spec_extra_text(extra_texts@),
    }
}

impl Description {
    /// The message as plain text: the text, then the text of each extra part.
    pub fn to_plain_text(&self) -> (s: String)
        ensures
            s@ == spec_plain_text(*self),
    {
        match self {
            Description::Text(s) => s.clone(),
            Description::Component { text, extra_texts } => {
                let mut out = text.clone();
                let mut i: usize = 0;
                assert(extra_texts@.take(0) =~= Seq::<Option<String>>::empty());
                while i < extra_texts.len()
                    invariant
                        i <= extra_texts.len(),
                        out@ == text@ + spec_extra_text(extra_texts@.take(i as int)),
                    decreases extra_texts.len() - i,
                {
                    proof {
                        assert(extra_texts@.take(i + 1).drop_last() =~= extra_texts@.take(i as int));
                        assert(extra_texts@.take(i + 1).last() == extra_texts@[i as int]);
                    }
                    if let Some(t) = &extra_texts[i] {
                        out.append(t.as_str());
                    }
                    i += 1;
                    assert(out@ =~= text@ + spec_extra_text(extra_texts@.take(i as int)));
                }
                assert(extra_texts@.take(extra_texts.len() as int) =~= extra_texts@);
                out
            },
        }
    }
}

/// The status of a server that answered: online, its player counts, its
/// message as plain text, its icon.
pub fn status_from_response(resp: StatusResponse) -> (s: ServerStatus)
    ensures
        s.online,
        s.players_online == Some(resp.players.online),
        s.players_max == Some(resp.players.max),
        match resp.description {
            Some(d) => s.motd matches Some(m) && m@ == spec_plain_text(d),
            None => s.motd is None,
        },
        s.favicon == resp.favicon,
{
    let motd = match &resp.description {
        Some(d) => Some(d.to_plain_text()),
        None => None,
    };
    ServerStatus {
        online: true,
        players_online: Some(resp.players.online),
        players_max: Some(resp.players.max),
        motd,
        favicon: resp.favicon,
    }
}

} // verus!
