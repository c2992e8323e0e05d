//! The wire format: a four-byte little-endian length header followed by the payload.

use crate::error::{DeliveryError, ReceiveError};
use vstd::prelude::*;

verus! {

/// Number of bytes of the length header that precedes every payload.
pub const HEADER_LEN: usize = 4;

/// The four little-endian bytes of `n`.
pub open spec fn le_bytes(n: u32) -> Seq<u8> {
    seq![
        (n & 0xff) as u8,
        ((n >> 8u32) & 0xff) as u8,
        ((n >> 16u32) & 0xff) as u8,
        ((n >> 24u32) & 0xff) as u8,
    ]
}

/// The number that four bytes denote when read least significant first.
pub open spec fn le_value(b: Seq<u8>) -> int
    recommends
        b.len() == 4,
{
    b[0] as int + 256 * (b[1] as int) + 65536 * (b[2] as int) + 16777216 * (b[3] as int)
}

/// Encodes a payload length as the header that precedes the payload.
pub fn encode_header(len: u32) -> (header: [u8; 4])
    ensures
        header@ == le_bytes(len),
        header@[0] == len % 256,
        header@[1] == (len / 256) % 256,
        header@[2] == (len / 65536) % 256,
        header@[3] == len / 16777216,
{
    proof {
        lemma_header_positional(len);
    }
    let header: [u8; 4] = [
        (len & 0xff) as u8,
        ((len >> 8u32) & 0xff) as u8,
        ((len >> 16u32) & 0xff) as u8,
        ((len >> 24u32) & 0xff) as u8,
    ];
    assert(header@ =~= le_bytes(len));
    header
}

/// Decodes the payload length that a header announces.
pub fn decode_header(header: [u8; 4]) -> (len: u32)
    ensures
        len as int == le_value(header@),
        len == header@[0] + 256 * header@[1] + 65536 * header@[2] + 16777216 * header@[3],
{
    let b0 = header[0];
    let b1 = header[1];
    let b2 = header[2];
    let b3 = header[3];
    let len: u32 = (b0 as u32) | ((b1 as u32) << 8u32) | ((b2 as u32) << 16u32) | ((b3 as u32) << 24u32);
    assert(len == b0 as int + 256 * (b1 as int) + 65536 * (b2 as int) + 16777216 * (b3 as int)) by (bit_vector)
        requires
            len == (b0 as u32) | ((b1 as u32) << 8u32) | ((b2 as u32) << 16u32) | ((b3 as u32) << 24u32),
    ;
    len
}

/// The header of a length holds its digits in base 256, least significant first.
pub proof fn lemma_header_positional(n: u32)
    ensures
        le_bytes(n).len() == 4,
        le_bytes(n)[0] == n % 256,
        le_bytes(n)[1] == (n / 256) % 256,
        le_bytes(n)[2] == (n / 65536) % 256,
        le_bytes(n)[3] == n / 16777216,
{
    assert(((n & 0xff) as u8) as int == n % 256 && (((n >> 8u32) & 0xff) as u8) as int == (n
        / 256) % 256 && (((n >> 16u32) & 0xff) as u8) as int == (n / 65536) % 256 && (((n
        >> 24u32) & 0xff) as u8) as int == n / 16777216) by (bit_vector);
}

/// A header announces the number whose base-256 digits, least significant first, it holds.
pub proof fn lemma_decode_positional(h: Seq<u8>)
    requires
        h.len() == 4,
    ensures
        le_value(h) == h[0] + 256 * h[1] + 65536 * h[2] + 16777216 * h[3],
        le_value(h) % 256 == h[0],
        le_value(h) / 16777216 == h[3],
{
    let v = h[0] + 256 * h[1] + 65536 * h[2] + 16777216 * h[3];
    assert(v % 256 == h[0] as int) by (nonlinear_arith)
        requires
            v == h[0] + 256 * h[1] + 65536 * h[2] + 16777216 * h[3],
            0 <= h[0] < 256,
            0 <= h[1] < 256,
            0 <= h[2] < 256,
            0 <= h[3] < 256,
    ;
    assert(v / 16777216 == h[3] as int) by (nonlinear_arith)
        requires
            v == h[0] + 256 * h[1] + 65536 * h[2] + 16777216 * h[3],
            0 <= h[0] < 256,
            0 <= h[1] < 256,
            0 <= h[2] < 256,
            0 <= h[3] < 256,
    ;
}

/// Reading back the header of a length gives that length.
pub proof fn lemma_header_round_trip(n: u32)
    ensures
        le_bytes(n).len() == 4,
        le_value(le_bytes(n)) == n,
{
    let b = le_bytes(n);
    assert(n == ((n & 0xff) as u8) as int + 256 * (((n >> 8u32) & 0xff) as u8) as int
        + 65536 * (((n >> 16u32) & 0xff) as u8) as int
        + 16777216 * (((n >> 24u32) & 0xff) as u8) as int) by (bit_vector);
}

/// Every header is the encoding of the length it announces.
pub proof fn lemma_header_canonical(h: Seq<u8>)
    requires
        h.len() == 4,
    ensures
        0 <= le_value(h) <= u32::MAX,
        le_bytes(le_value(h) as u32) == h,
{
    let b0 = h[0];
    let b1 = h[1];
    let b2 = h[2];
    let b3 = h[3];
    let n: u32 = (b0 as int + 256 * (b1 as int) + 65536 * (b2 as int) + 16777216 * (b3 as int)) as u32;
    assert(0 <= b0 as int + 256 * (b1 as int) + 65536 * (b2 as int) + 16777216 * (b3 as int) <= u32::MAX);
    assert(
        (n & 0xff) as u8 == b0 && ((n >> 8u32) & 0xff) as u8 == b1
        && ((n >> 16u32) & 0xff) as u8 == b2 && ((n >> 24u32) & 0xff) as u8 == b3
    ) by (bit_vector)
        requires
            n == (b0 as int + 256 * (b1 as int) + 65536 * (b2 as int) + 16777216 * (b3 as int)) as u32,
    ;
    assert(le_bytes(le_value(h) as u32) =~= h);
}

/// The payload that carries `message`: postcard's encoding of an optional message, that is the
/// byte 1 followed by the encoded message, or the lone byte 0 for the farewell (no message).
pub open spec fn payload_of(message: Option<Seq<u8>>) -> Seq<u8> {
    match message {
        Some(m) => seq![1u8] + m,
        None => seq![0u8],
    }
}

/// What a payload carries: `Some(Some(m))` for the message encoded as `m`, `Some(None)` for the
/// farewell, and `None` when the payload is malformed. Bytes after a farewell are ignored.
pub open spec fn carried_by(payload: Seq<u8>) -> Option<Option<Seq<u8>>> {
    if payload.len() == 0 {
        None
    } else if payload[0] == 0 {
        Some(None)
    } else if payload[0] == 1 {
        Some(Some(payload.skip(1)))
    } else {
        None
    }
}

/// The frame that puts `payload` on the wire: its length header, then the payload itself.
pub open spec fn frame_of(payload: Seq<u8>) -> Seq<u8> {
    le_bytes(payload.len() as u32) + payload
}

/// Whether an encoded message of `len` bytes fits in a frame: its payload length must fit in
/// the header, and the whole frame in memory.
pub open spec fn fits_in_frame(len: nat) -> bool {
    len + 1 <= u32::MAX && len + 5 <= usize::MAX
}

/// The encoded message that `message` holds, if it holds one.
pub open spec fn encoded(message: Option<Result<Vec<u8>, postcard::Error>>) -> Option<Seq<u8>> {
    match message {
        Some(Ok(m)) => Some(m@),
        _ => None,
    }
}

/// `postcard::to_extend` of an `Option<()>`: postcard writes `Some(v)` as the byte 1 followed by
/// `v`, `None` as the byte 0, and `()` as nothing; pushing into a `Vec` cannot fail.
#[verifier::external_body]
fn extend_with_presence(buffer: &mut Vec<u8>, presence: Option<()>) -> (res: Result<(), postcard::Error>)
    ensures
        res is Ok,
        final(buffer)@ == old(buffer)@.push(if presence is Some { 1u8 } else { 0u8 }),
{
    match postcard::to_extend(&presence, core::mem::take(buffer)) {
        Ok(extended) => {
            *buffer = extended;
            Ok(())
        },
        Err(err) => Err(err),
    }
}

/// `postcard::take_from_bytes::<Option<()>>`: postcard reads one byte, 0 for `None` and 1 for
/// `Some`, reads `()` as nothing, and hands back the bytes after it; an empty input or any other
/// byte is an error. Which `postcard::Error` comes back (`DeserializeUnexpectedEnd` for an
/// empty input, `DeserializeBadOption` for another byte) is left unsaid: `postcard::Error` is
/// declared here as an opaque outside type, whose variants Verus does not see.
#[verifier::external_body]
fn take_presence(payload: &[u8]) -> (res: Result<(Option<()>, &[u8]), postcard::Error>)
    ensures
        payload@.len() == 0 ==> res is Err,
        payload@.len() > 0 && payload@[0] == 0 ==> res is Ok && res.unwrap().0 is None && res.unwrap().1@ == payload@.skip(1),
        payload@.len() > 0 && payload@[0] == 1 ==> res is Ok && res.unwrap().0 is Some && res.unwrap().1@ == payload@.skip(1),
        payload@.len() > 0 && payload@[0] > 1 ==> res is Err,
{
    postcard::take_from_bytes::<Option<()>>(payload)
}

/// Writes into `buffer` the frame of a message (`Some`) or of the farewell (`None`); the frame
/// depends on the message alone, whatever the buffer held before.
///
/// The message comes already encoded by postcard, or with the error that encoding it gave,
/// which is handed back as a `SerializeError` with `buffer` left as it was.
pub fn compose_frame(buffer: &mut Vec<u8>, message: Option<Result<Vec<u8>, postcard::Error>>) -> (res:
    Result<(), DeliveryError>)
    requires
        message matches Some(Ok(m)) ==> fits_in_frame(m@.len()),
    ensures
        message matches Some(Err(e)) ==> res == Err::<(), DeliveryError>(
            DeliveryError::SerializeError(e),
        ) && final(buffer)@ == old(buffer)@,
        !(message matches Some(Err(_))) ==> res is Ok && final(buffer)@ == frame_of(
            payload_of(encoded(message)),
        ),
        message matches Some(Ok(m)) ==> final(buffer)@.len() == m@.len() + 5 && final(buffer)@[4] == 1 && final(buffer)@.skip(5) == m@,
        message matches Some(Ok(m)) ==> final(buffer)@[0] + 256 * final(buffer)@[1] + 65536 * final(buffer)@[2] + 16777216 * final(buffer)@[3] == m@.len() + 1,
        message is None ==> final(buffer)@ == seq![1u8, 0u8, 0u8, 0u8, 0u8],
{
    let inner: Option<Vec<u8>> = match message {
        None => None,
        Some(Ok(m)) => Some(m),
        Some(Err(e)) => {
            return Err(DeliveryError::SerializeError(e));
        },
    };
    buffer.resize(HEADER_LEN, 0u8);
    let presence: Option<()> = match &inner {
        Some(_) => Some(()),
        None => None,
    };
    let _ = extend_with_presence(buffer, presence);
    let ghost start = buffer@;
    if let Some(m) = &inner {
        let mut i: usize = 0;
        while i < m.len()
            invariant
                0 <= i <= m@.len(),
                start.len() == HEADER_LEN + 1,
                buffer@ == start + m@.take(i as int),
            decreases m@.len() - i,
        {
            buffer.push(m[i]);
            i = i + 1;
            assert(buffer@ =~= start + m@.take(i as int));
        }
        assert(m@.take(m@.len() as int) =~= m@);
    }
    let payload_len = buffer.len() - HEADER_LEN;
    let header = encode_header(payload_len as u32);
    let ghost body = buffer@.skip(HEADER_LEN as int);
    buffer.set(0, header[0]);
    buffer.set(1, header[1]);
    buffer.set(2, header[2]);
    buffer.set(3, header[3]);
    assert(body =~= payload_of(encoded(message)));
    assert(buffer@ =~= le_bytes(payload_len as u32) + body);
    proof {
        lemma_header_round_trip(payload_len as u32);
        lemma_decode_positional(buffer@.take(4));
        assert(buffer@.take(4) =~= le_bytes(payload_len as u32));
        if let Some(m) = &inner {
            assert(buffer@.skip(5) =~= m@);
        } else {
            lemma_header_positional(1);
            assert(buffer@ =~= seq![1u8, 0u8, 0u8, 0u8, 0u8]);
        }
    }
    Ok(())
}

/// Reads what a received payload carries: `Some(m)` for a message whose encoding is `m`,
/// `None` for the farewell, or a `DeserializeError` when the payload is malformed.
pub fn open_payload(payload: &[u8]) -> (res: Result<Option<&[u8]>, ReceiveError>)
    ensures
        carried_by(payload@) is None <==> (res matches Err(ReceiveError::DeserializeError(_))),
        carried_by(payload@) == Some(None::<Seq<u8>>) <==> res matches Ok(None),
        carried_by(payload@) matches Some(Some(m)) ==> (res matches Ok(Some(r)) && r@ == m),
{
    match take_presence(payload) {
        Ok((Some(_), rest)) => Ok(Some(rest)),
        Ok((None, _)) => Ok(None),
        Err(e) => Err(ReceiveError::DeserializeError(e)),
    }
}

/// A message is carried as the byte 1 followed by its encoding, whatever that encoding is
/// (even empty); only the farewell is carried as the lone byte 0.
pub proof fn lemma_payload_marks_presence(v: Vec<u8>, e: postcard::Error)
    ensures
        encoded(Some(Ok(v))) == Some(v@),
        encoded(Some(Err(e))) is None,
        encoded(None) is None,
        payload_of(Some(v@)).len() == v@.len() + 1,
        payload_of(Some(v@))[0] == 1,
        payload_of(Some(v@)).skip(1) == v@,
        payload_of(None) == seq![0u8],
{
    assert(payload_of(Some(v@)).skip(1) =~= v@);
}

/// A frame carries, after its header, exactly the message (or the farewell) it was composed
/// of, and its header announces the length of what follows.
pub proof fn lemma_frame_round_trip(message: Option<Seq<u8>>)
    requires
        message matches Some(m) ==> fits_in_frame(m.len()),
    ensures
        frame_of(payload_of(message)).len() == HEADER_LEN + payload_of(message).len(),
        le_value(frame_of(payload_of(message)).take(HEADER_LEN as int)) == payload_of(message).len(),
        carried_by(frame_of(payload_of(message)).skip(HEADER_LEN as int)) == Some(message),
{
    let p = payload_of(message);
    let f = frame_of(p);
    lemma_header_round_trip(p.len() as u32);
    assert(f.take(HEADER_LEN as int) =~= le_bytes(p.len() as u32));
    assert(f.skip(HEADER_LEN as int) =~= p);
    if let Some(m) = message {
        assert(p.skip(1) =~= m);
    }
}

} // verus!
