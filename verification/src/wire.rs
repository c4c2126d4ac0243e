//! Little-endian integers, padded strings and the eight-byte message header.

use crate::error::ProtocolError;
use vstd::prelude::*;
use vstd::utf8::valid_utf8;

verus! {

/// Bytes of a message header.
pub const HEADER_LEN: usize = 8;

/// The largest argument area that still fits under a 16-bit total length.
pub const MAX_ARGS_LEN: usize = 65527;

/// The two bytes of `x`, least significant first.
pub open spec fn u16_le(x: u16) -> Seq<u8> {
    seq![(x % 256) as u8, (x / 256) as u8]
}

/// The value whose little-endian bytes start at `at`.
pub open spec fn u16_at(bytes: Seq<u8>, at: int) -> u16
    recommends
        0 <= at,
        at + 2 <= bytes.len(),
{
    (bytes[at] as int + bytes[at + 1] as int * 256) as u16
}

/// The four bytes of `x`, least significant first.
pub open spec fn u32_le(x: u32) -> Seq<u8> {
    seq![
        (x % 256) as u8,
        (x / 256 % 256) as u8,
        (x / 65536 % 256) as u8,
        (x / 16777216) as u8,
    ]
}

/// The value whose little-endian bytes start at `at`.
pub open spec fn u32_at(bytes: Seq<u8>, at: int) -> u32
    recommends
        0 <= at,
        at + 4 <= bytes.len(),
{
    (bytes[at] as int + bytes[at + 1] as int * 256 + bytes[at + 2] as int * 65536 + bytes[at
        + 3] as int * 16777216) as u32
}

/// The unsigned value with the same 32 bits as `x`.
pub open spec fn i32_bits(x: i32) -> u32 {
    if x >= 0 {
        x as u32
    } else {
        (x + 0x1_0000_0000) as u32
    }
}

/// The signed value with the same 32 bits as `x`.
pub open spec fn u32_signed(x: u32) -> i32 {
    if x < 0x8000_0000 {
        x as i32
    } else {
        (x - 0x1_0000_0000) as i32
    }
}

/// The four bytes of `x` in two's complement, least significant first.
pub open spec fn i32_le(x: i32) -> Seq<u8> {
    u32_le(i32_bits(x))
}

/// The signed value whose little-endian bytes start at `at`.
pub open spec fn i32_at(bytes: Seq<u8>, at: int) -> i32
    recommends
        0 <= at,
        at + 4 <= bytes.len(),
{
    u32_signed(u32_at(bytes, at))
}

/// Reading back what `u32_le` wrote gives the value again.
pub proof fn lemma_u32_round_trip(x: u32)
    ensures
        u32_le(x).len() == 4,
        u32_at(u32_le(x), 0) == x,
{
    let v = x as int;
    let q1 = v / 256;
    let q2 = q1 / 256;
    let q3 = q2 / 256;
    assert(v == v % 256 + q1 * 256);
    assert(q1 == q1 % 256 + q2 * 256);
    assert(q2 == q2 % 256 + q3 * 256);
    assert(q2 == v / 65536);
    assert(q3 == v / 16777216);
}

/// Writing what `u32_at` read gives the four bytes again.
pub proof fn lemma_u32_bytes_round_trip(bytes: Seq<u8>, at: int)
    requires
        0 <= at,
        at + 4 <= bytes.len(),
    ensures
        u32_le(u32_at(bytes, at)) == bytes.subrange(at, at + 4),
{
    let b0 = bytes[at] as int;
    let b1 = bytes[at + 1] as int;
    let b2 = bytes[at + 2] as int;
    let b3 = bytes[at + 3] as int;
    let hi2 = b2 + b3 * 256;
    let hi1 = b1 + hi2 * 256;
    let v = u32_at(bytes, at) as int;
    assert(v == b0 + hi1 * 256);
    assert(v % 256 == b0 && v / 256 == hi1);
    assert(hi1 % 256 == b1 && hi1 / 256 == hi2);
    assert(v / 65536 == hi2);
    assert(hi2 % 256 == b2 && hi2 / 256 == b3);
    assert(v / 16777216 == b3);
    assert(u32_le(u32_at(bytes, at)) =~= bytes.subrange(at, at + 4));
}

/// The two signed/unsigned readings of 32 bits are inverse to each other.
pub proof fn lemma_i32_round_trip(x: i32, y: u32)
    ensures
        u32_signed(i32_bits(x)) == x,
        i32_bits(u32_signed(y)) == y,
        i32_at(i32_le(x), 0) == x,
{
    lemma_u32_round_trip(i32_bits(x));
}

/// Reading back what `u16_le` wrote gives the value again, and the other way round.
pub proof fn lemma_u16_round_trip(x: u16, bytes: Seq<u8>, at: int)
    requires
        0 <= at,
        at + 2 <= bytes.len(),
    ensures
        u16_le(x).len() == 2,
        u16_at(u16_le(x), 0) == x,
        u16_le(u16_at(bytes, at)) == bytes.subrange(at, at + 2),
{
    assert(u16_le(u16_at(bytes, at)) =~= bytes.subrange(at, at + 2));
}

/// Reads a `u16` at `at`, or nothing when fewer than two bytes follow.
pub fn read_u16(bytes: &[u8], at: usize) -> (value: Option<u16>)
    ensures
        value == if at + 2 <= bytes@.len() {
            Some(u16_at(bytes@, at as int))
        } else {
            None
        },
{
    if bytes.len() < 2 || at > bytes.len() - 2 {
        return None;
    }
    let b0: u16 = bytes[at] as u16;
    let b1: u16 = bytes[at + 1] as u16;
    Some(b0 + b1 * 256)
}

/// Reads a `u32` at `at`, or nothing when fewer than four bytes follow.
pub fn read_u32(bytes: &[u8], at: usize) -> (value: Option<u32>)
    ensures
        value == if at + 4 <= bytes@.len() {
            Some(u32_at(bytes@, at as int))
        } else {
            None
        },
{
    if bytes.len() < 4 || at > bytes.len() - 4 {
        return None;
    }
    let b0: u32 = bytes[at] as u32;
    let b1: u32 = bytes[at + 1] as u32;
    let b2: u32 = bytes[at + 2] as u32;
    let b3: u32 = bytes[at + 3] as u32;
    Some(b0 + b1 * 256 + b2 * 65536 + b3 * 16777216)
}

/// Reads an `i32` at `at`, or nothing when fewer than four bytes follow.
pub fn read_i32(bytes: &[u8], at: usize) -> (value: Option<i32>)
    ensures
        value == if at + 4 <= bytes@.len() {
            Some(i32_at(bytes@, at as int))
        } else {
            None
        },
{
    match read_u32(bytes, at) {
        None => None,
        Some(bits) => Some(signed_of(bits)),
    }
}

/// The signed reading of 32 bits.
pub fn signed_of(bits: u32) -> (value: i32)
    ensures
        value == u32_signed(bits),
{
    if bits < 0x8000_0000 {
        bits as i32
    } else {
        (bits as i64 - 0x1_0000_0000) as i32
    }
}

/// The unsigned reading of 32 bits.
pub fn bits_of(value: i32) -> (bits: u32)
    ensures
        bits == i32_bits(value),
{
    if value >= 0 {
        value as u32
    } else {
        (value as i64 + 0x1_0000_0000) as u32
    }
}

/// Appends the two little-endian bytes of `value`.
pub fn put_u16(out: &mut Vec<u8>, value: u16)
    ensures
        final(out)@ == old(out)@ + u16_le(value),
{
    out.push((value % 256) as u8);
    out.push((value / 256) as u8);
    assert(out@ =~= old(out)@ + u16_le(value));
}

/// Appends the four little-endian bytes of `value`.
pub fn put_u32(out: &mut Vec<u8>, value: u32)
    ensures
        final(out)@ == old(out)@ + u32_le(value),
{
    out.push((value % 256) as u8);
    out.push((value / 256 % 256) as u8);
    out.push((value / 65536 % 256) as u8);
    out.push((value / 16777216) as u8);
    assert(out@ =~= old(out)@ + u32_le(value));
}

/// Appends the four little-endian bytes of `value` in two's complement.
pub fn put_i32(out: &mut Vec<u8>, value: i32)
    ensures
        final(out)@ == old(out)@ + i32_le(value),
{
    put_u32(out, bits_of(value));
}

/// Appends all of `bytes`.
pub fn put_bytes(out: &mut Vec<u8>, bytes: &[u8])
    ensures
        final(out)@ == old(out)@ + bytes@,
{
    let mut i: usize = 0;
    while i < bytes.len()
        invariant
            i <= bytes@.len(),
            out@ == old(out)@ + bytes@.subrange(0, i as int),
        decreases bytes@.len() - i,
    {
        out.push(bytes[i]);
        i += 1;
        assert(out@ =~= old(out)@ + bytes@.subrange(0, i as int));
    }
    assert(bytes@.subrange(0, i as int) =~= bytes@);
}

/// `n` zero bytes.
pub open spec fn zeros(n: nat) -> Seq<u8> {
    Seq::new(n, |i: int| 0u8)
}

/// How many zero bytes follow a string of `content_len` bytes: the terminator
/// and the padding up to the next multiple of four.
pub open spec fn string_tail_len(content_len: nat) -> nat {
    (4 - content_len % 4) as nat
}

/// A string argument on the wire: its length with the terminator counted,
/// its bytes, the terminator, and zero padding to a multiple of four.
pub open spec fn wayland_string(content: Seq<u8>) -> Seq<u8>
    recommends
        content.len() < u32::MAX,
{
    u32_le((content.len() + 1) as u32) + content + zeros(string_tail_len(content.len()))
}

/// The string argument that starts at `at`: its content and the offset of
/// what follows it. Nothing where the length word is missing or zero, the
/// declared length runs past the end, or terminator and padding are not zero.
pub open spec fn string_at(bytes: Seq<u8>, at: int) -> Option<(Seq<u8>, int)>
    recommends
        0 <= at,
{
    if at + 4 > bytes.len() || u32_at(bytes, at) == 0 {
        None
    } else {
        let content_len = (u32_at(bytes, at) - 1) as nat;
        let tail_len = string_tail_len(content_len);
        let end = at + 4 + content_len + tail_len;
        if end > bytes.len() || bytes.subrange(at + 4 + content_len, end) != zeros(tail_len) {
            None
        } else {
            Some((bytes.subrange(at + 4, at + 4 + content_len), end))
        }
    }
}

/// The content of the string argument at `at`.
pub open spec fn string_content(bytes: Seq<u8>, at: int) -> Seq<u8>
    recommends
        string_at(bytes, at) is Some,
{
    match string_at(bytes, at) {
        Some((content, _)) => content,
        None => Seq::empty(),
    }
}

/// The offset of what follows the string argument at `at`.
pub open spec fn string_end(bytes: Seq<u8>, at: int) -> int
    recommends
        string_at(bytes, at) is Some,
{
    match string_at(bytes, at) {
        Some((_, end)) => end,
        None => at,
    }
}

/// A string argument is a multiple of four bytes long.
pub proof fn lemma_wayland_string_len(content: Seq<u8>)
    ensures
        wayland_string(content).len() == 4 + content.len() + string_tail_len(content.len()),
        wayland_string(content).len() % 4 == 0,
        content.len() + 5 <= wayland_string(content).len() <= content.len() + 8,
{
}

/// What `wayland_string` wrote, `string_at` reads back, whatever follows it.
pub proof fn lemma_string_round_trip(content: Seq<u8>, rest: Seq<u8>)
    requires
        content.len() < u32::MAX,
    ensures
        string_at(wayland_string(content) + rest, 0) == Some(
            (content, wayland_string(content).len() as int),
        ),
{
    let w = wayland_string(content);
    let bytes = w + rest;
    let n = content.len() as int;
    let tail = string_tail_len(content.len()) as int;
    lemma_u32_round_trip((n + 1) as u32);
    assert(bytes.subrange(0, 4) =~= u32_le((n + 1) as u32));
    assert(u32_at(bytes, 0) == u32_at(u32_le((n + 1) as u32), 0)) by {
        assert(bytes[0] == u32_le((n + 1) as u32)[0]);
        assert(bytes[1] == u32_le((n + 1) as u32)[1]);
        assert(bytes[2] == u32_le((n + 1) as u32)[2]);
        assert(bytes[3] == u32_le((n + 1) as u32)[3]);
    }
    assert(bytes.subrange(4 + n, 4 + n + tail) =~= zeros(tail as nat));
    assert(bytes.subrange(4, 4 + n) =~= content);
}

/// What `string_at` accepts is exactly what `wayland_string` writes.
pub proof fn lemma_string_bytes_round_trip(bytes: Seq<u8>, at: int)
    requires
        0 <= at,
        string_at(bytes, at) is Some,
    ensures
        match string_at(bytes, at) {
            Some((content, end)) => at < end <= bytes.len() && bytes.subrange(at, end)
                == wayland_string(content),
            None => false,
        },
{
    let (content, end) = string_at(bytes, at)->0;
    let declared = u32_at(bytes, at);
    let n = content.len();
    lemma_u32_bytes_round_trip(bytes, at);
    assert(bytes.subrange(at, end) =~= wayland_string(content));
}

/// A value is read from the four bytes at its place alone.
pub proof fn lemma_u32_at_subrange(bytes: Seq<u8>, at: int)
    requires
        0 <= at,
        at + 4 <= bytes.len(),
    ensures
        u32_at(bytes, at) == u32_at(bytes.subrange(at, at + 4), 0),
{
}

/// A string argument is read from where it stands alone: what stands in
/// front of it makes no difference but to the offsets.
pub proof fn lemma_string_at_shifted(bytes: Seq<u8>, at: int)
    requires
        0 <= at <= bytes.len(),
    ensures
        string_at(bytes, at) == match string_at(bytes.subrange(at, bytes.len() as int), 0) {
            Some((content, end)) => Some((content, at + end)),
            None => None,
        },
{
    let tail = bytes.subrange(at, bytes.len() as int);
    if at + 4 <= bytes.len() {
        assert(u32_at(bytes, at) == u32_at(tail, 0));
        if u32_at(bytes, at) != 0 {
            let content_len = u32_at(bytes, at) - 1;
            let tail_len = string_tail_len(content_len as nat);
            let end = 4 + content_len + tail_len;
            if at + end <= bytes.len() {
                assert(bytes.subrange(at + 4 + content_len, at + end) =~= tail.subrange(
                    4 + content_len,
                    end,
                ));
                assert(bytes.subrange(at + 4, at + 4 + content_len) =~= tail.subrange(
                    4,
                    4 + content_len,
                ));
            }
        }
    }
}

/// Appends `content` as a string argument.
pub fn put_string(out: &mut Vec<u8>, content: &[u8])
    requires
        content@.len() < u32::MAX,
    ensures
        final(out)@ == old(out)@ + wayland_string(content@),
{
    let n: usize = content.len();
    put_u32(out, (n + 1) as u32);
    put_bytes(out, content);
    let tail: usize = 4 - n % 4;
    let mut i: usize = 0;
    while i < tail
        invariant
            i <= tail,
            tail == string_tail_len(content@.len()),
            out@ == old(out)@ + u32_le((content@.len() + 1) as u32) + content@ + zeros(i as nat),
        decreases tail - i,
    {
        out.push(0u8);
        i += 1;
        assert(out@ =~= old(out)@ + u32_le((content@.len() + 1) as u32) + content@ + zeros(
            i as nat,
        ));
    }
    assert(out@ =~= old(out)@ + wayland_string(content@));
}

/// Reads the string argument at `at`: its content and the offset after it.
#[verifier::loop_isolation(false)]
pub fn read_string(bytes: &[u8], at: usize) -> (found: Option<(Vec<u8>, usize)>)
    ensures
        match found {
            Some((content, next)) => string_at(bytes@, at as int) == Some(
                (content@, next as int),
            ),
            None => string_at(bytes@, at as int) is None,
        },
{
    let declared = match read_u32(bytes, at) {
        None => {
            return None;
        },
        Some(d) => d,
    };
    let total: usize = bytes.len();
    if declared == 0 {
        return None;
    }
    let content_len: usize = (declared - 1) as usize;
    let tail: usize = 4 - content_len % 4;
    let start: usize = at + 4;
    if content_len > total - start || tail > total - start - content_len {
        return None;
    }
    let end: usize = start + content_len + tail;
    let mut content: Vec<u8> = Vec::new();
    let mut i: usize = start;
    while i < start + content_len
        invariant
            start <= i <= start + content_len <= bytes@.len(),
            content@ == bytes@.subrange(start as int, i as int),
        decreases start + content_len - i,
    {
        content.push(bytes[i]);
        i += 1;
        assert(content@ =~= bytes@.subrange(start as int, i as int));
    }
    let ghost pad = bytes@.subrange(start + content_len, end as int);
    while i < end
        invariant
            start + content_len <= i <= end <= bytes@.len(),
            end == start + content_len + tail,
            pad == bytes@.subrange(start + content_len, end as int),
            forall|k: int| 0 <= k < i - (start + content_len) ==> pad[k] == 0,
        decreases end - i,
    {
        if bytes[i] != 0 {
            assert(pad[i - (start + content_len)] != 0);
            assert(zeros(tail as nat)[i - (start + content_len)] == 0);
            return None;
        }
        i += 1;
    }
    assert(pad =~= zeros(tail as nat));
    Some((content, end))
}

/// One message: the object it addresses, the selector, and the argument area.
#[derive(Clone, Debug, PartialEq, Eq)]
pub struct Message {
    pub object_id: u32,
    pub op_code: u16,
    pub args: Vec<u8>,
}

/// A message as a value of the model.
pub struct MessageView {
    pub object_id: u32,
    pub op_code: u16,
    pub args: Seq<u8>,
}

impl View for Message {
    type V = MessageView;

    open spec fn view(&self) -> MessageView {
        MessageView { object_id: self.object_id, op_code: self.op_code, args: self.args@ }
    }
}

/// The frame of a message: object id, opcode, total length, argument area.
pub open spec fn frame_of(m: MessageView) -> Seq<u8>
    recommends
        m.args.len() <= MAX_ARGS_LEN,
{
    u32_le(m.object_id) + u16_le(m.op_code) + u16_le((HEADER_LEN + m.args.len()) as u16) + m.args
}

/// A frame is well formed when it holds a header and is as long as the
/// header says.
pub open spec fn well_formed_frame(bytes: Seq<u8>) -> bool {
    bytes.len() >= HEADER_LEN && u16_at(bytes, 6) == bytes.len()
}

/// The message that a well-formed frame carries.
pub open spec fn message_of(bytes: Seq<u8>) -> MessageView
    recommends
        well_formed_frame(bytes),
{
    MessageView {
        object_id: u32_at(bytes, 0),
        op_code: u16_at(bytes, 4),
        args: bytes.subrange(HEADER_LEN as int, bytes.len() as int),
    }
}

/// Encoding what was decoded from a well-formed frame gives the frame again.
pub proof fn lemma_encode_decode(bytes: Seq<u8>)
    requires
        well_formed_frame(bytes),
    ensures
        message_of(bytes).args.len() <= MAX_ARGS_LEN,
        frame_of(message_of(bytes)) == bytes,
{
    let m = message_of(bytes);
    lemma_u32_bytes_round_trip(bytes, 0);
    lemma_u16_round_trip(0, bytes, 4);
    lemma_u16_round_trip(0, bytes, 6);
    assert((HEADER_LEN + m.args.len()) as u16 == u16_at(bytes, 6));
    assert(frame_of(m) =~= bytes.subrange(0, 4) + bytes.subrange(4, 6) + bytes.subrange(6, 8)
        + bytes.subrange(8, bytes.len() as int));
    assert(frame_of(m) =~= bytes);
}

/// An encoded message is a well-formed frame of eight bytes more than its
/// argument area, and decodes to the message.
pub proof fn lemma_decode_encode(m: MessageView)
    requires
        m.args.len() <= MAX_ARGS_LEN,
    ensures
        frame_of(m).len() == HEADER_LEN + m.args.len(),
        well_formed_frame(frame_of(m)),
        message_of(frame_of(m)) == m,
{
    let f = frame_of(m);
    let total = (HEADER_LEN + m.args.len()) as u16;
    lemma_u32_round_trip(m.object_id);
    lemma_u16_round_trip(m.op_code, u16_le(0), 0);
    lemma_u16_round_trip(total, u16_le(0), 0);
    assert(f.len() == HEADER_LEN + m.args.len());
    assert(f[0] == u32_le(m.object_id)[0] && f[1] == u32_le(m.object_id)[1] && f[2] == u32_le(
        m.object_id,
    )[2] && f[3] == u32_le(m.object_id)[3]);
    assert(f[4] == u16_le(m.op_code)[0] && f[5] == u16_le(m.op_code)[1]);
    assert(f[6] == u16_le(total)[0] && f[7] == u16_le(total)[1]);
    assert(u32_at(f, 0) == u32_at(u32_le(m.object_id), 0));
    assert(u16_at(f, 4) == u16_at(u16_le(m.op_code), 0));
    assert(u16_at(f, 6) == u16_at(u16_le(total), 0));
    assert(f.subrange(HEADER_LEN as int, f.len() as int) =~= m.args);
}

impl Message {
    /// The frame of this message; `MalformedFrame` when the argument area is
    /// too long for the 16-bit length field.
    pub fn encode(&self) -> (frame: Result<Vec<u8>, ProtocolError>)
        ensures
            match frame {
                Ok(bytes) => self@.args.len() <= MAX_ARGS_LEN && bytes@ == frame_of(self@),
                Err(e) => self@.args.len() > MAX_ARGS_LEN && e == ProtocolError::MalformedFrame,
            },
    {
        if self.args.len() > MAX_ARGS_LEN {
            return Err(ProtocolError::MalformedFrame);
        }
        let mut bytes: Vec<u8> = Vec::new();
        put_u32(&mut bytes, self.object_id);
        put_u16(&mut bytes, self.op_code);
        put_u16(&mut bytes, (HEADER_LEN + self.args.len()) as u16);
        put_bytes(&mut bytes, self.args.as_slice());
        assert(bytes@ =~= frame_of(self@));
        Ok(bytes)
    }

    /// The message of one whole frame; `MalformedFrame` unless the frame is
    /// well formed.
    pub fn decode(bytes: &[u8]) -> (message: Result<Message, ProtocolError>)
        ensures
            match message {
                Ok(m) => well_formed_frame(bytes@) && m@ == message_of(bytes@),
                Err(e) => !well_formed_frame(bytes@) && e == ProtocolError::MalformedFrame,
            },
    {
        if bytes.len() < HEADER_LEN {
            return Err(ProtocolError::MalformedFrame);
        }
        let object_id = read_u32(bytes, 0).unwrap();
        let op_code = read_u16(bytes, 4).unwrap();
        let total = read_u16(bytes, 6).unwrap();
        if total as usize != bytes.len() {
            return Err(ProtocolError::MalformedFrame);
        }
        let mut args: Vec<u8> = Vec::new();
        let mut i: usize = HEADER_LEN;
        while i < bytes.len()
            invariant
                HEADER_LEN <= i <= bytes@.len(),
                args@ == bytes@.subrange(HEADER_LEN as int, i as int),
            decreases bytes@.len() - i,
        {
            args.push(bytes[i]);
            i += 1;
            assert(args@ =~= bytes@.subrange(HEADER_LEN as int, i as int));
        }
        Ok(Message { object_id, op_code, args })
    }
}

/// Whether `bytes` are well-formed UTF-8, as `core::str::from_utf8` finds:
/// that function returns `Ok` exactly on byte strings that are valid UTF-8.
/// The contract is taken on trust from its documentation; the body is not
/// verified.
#[verifier::external_body]
pub(crate) fn utf8_valid(bytes: &[u8]) -> (valid: bool)
    ensures
        valid == valid_utf8(bytes@),
{
    core::str::from_utf8(bytes).is_ok()
}

/// Whether two byte strings are the same.
pub fn bytes_equal(a: &[u8], b: &[u8]) -> (same: bool)
    ensures
        same == (a@ == b@),
{
    if a.len() != b.len() {
        return false;
    }
    let mut i: usize = 0;
    while i < a.len()
        invariant
            i <= a@.len(),
            a@.len() == b@.len(),
            a@.subrange(0, i as int) == b@.subrange(0, i as int),
        decreases a@.len() - i,
    {
        if a[i] != b[i] {
            return false;
        }
        i += 1;
        assert(a@.subrange(0, i as int) =~= a@.subrange(0, i - 1).push(a@[i - 1]));
        assert(b@.subrange(0, i as int) =~= b@.subrange(0, i - 1).push(b@[i - 1]));
    }
    assert(a@.subrange(0, i as int) =~= a@);
    assert(b@.subrange(0, i as int) =~= b@);
    true
}

} // verus!
