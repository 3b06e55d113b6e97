//! Length-prefixed framing: every message on the wire is an eight-byte
//! big-endian length followed by exactly that many payload bytes.

use vstd::arithmetic::div_mod::lemma_div_denominator;
use vstd::prelude::*;
use vstd::slice::slice_subrange;

verus! {

/// Number of bytes of the length prefix that starts every frame.
pub const PREFIX_LEN: usize = 8;

/// Why reading a message from a stream failed.
#[derive(Clone, Copy, Debug, PartialEq, Eq, Structural)]
pub enum ReadError {
    /// The stream ended before the eight bytes of the length prefix had arrived.
    ShortPrefix,
    /// The stream ended before the announced number of payload bytes had arrived.
    ShortPayload,
    /// The frame was complete, but its payload is no value of the expected shape.
    Malformed,
}

/// Why writing a message to a stream failed.
#[derive(Clone, Copy, Debug, PartialEq, Eq, Structural)]
pub enum WriteError {
    /// The value has no serialized form.
    Unserializable,
    /// The stream did not take the length prefix.
    Prefix,
    /// The stream did not take the payload.
    Payload,
}

impl ReadError {
    /// True of the failures of the transport: the stream ended inside a frame.
    /// False of a complete frame whose payload could not be understood.
    pub open spec fn transport(self) -> bool {
        self is ShortPrefix || self is ShortPayload
    }

    /// Tells a failure of the transport from a payload that could not be understood.
    pub fn is_transport(&self) -> (transport: bool)
        ensures
            transport == self.transport(),
    {
        match self {
            ReadError::ShortPrefix => true,
            ReadError::ShortPayload => true,
            ReadError::Malformed => false,
        }
    }
}

/// The number that eight bytes denote when read most significant byte first.
pub open spec fn prefix_value(prefix: Seq<u8>) -> nat
    recommends
        prefix.len() == 8,
{
    (prefix[0] as nat) * 0x0100_0000_0000_0000
        + (prefix[1] as nat) * 0x0001_0000_0000_0000
        + (prefix[2] as nat) * 0x0000_0100_0000_0000
        + (prefix[3] as nat) * 0x0000_0001_0000_0000
        + (prefix[4] as nat) * 0x0000_0000_0100_0000
        + (prefix[5] as nat) * 0x0000_0000_0001_0000
        + (prefix[6] as nat) * 0x0000_0000_0000_0100
        + (prefix[7] as nat)
}

/// The eight bytes that denote `len`, most significant byte first.
pub open spec fn length_prefix(len: nat) -> Seq<u8>
    recommends
        len <= u64::MAX,
{
    seq![
        (len / 0x0100_0000_0000_0000 % 256) as u8,
        (len / 0x0001_0000_0000_0000 % 256) as u8,
        (len / 0x0000_0100_0000_0000 % 256) as u8,
        (len / 0x0000_0001_0000_0000 % 256) as u8,
        (len / 0x0000_0000_0100_0000 % 256) as u8,
        (len / 0x0000_0000_0001_0000 % 256) as u8,
        (len / 0x0000_0000_0000_0100 % 256) as u8,
        (len % 256) as u8,
    ]
}

/// The quotients of `x` by the powers of 256 are reached by dividing by 256
/// over and over.
proof fn lemma_byte_quotients(x: nat)
    ensures
        x / 0x0000_0000_0000_0100 == x / 256,
        x / 0x0000_0000_0001_0000 == x / 256 / 256,
        x / 0x0000_0000_0100_0000 == x / 256 / 256 / 256,
        x / 0x0000_0001_0000_0000 == x / 256 / 256 / 256 / 256,
        x / 0x0000_0100_0000_0000 == x / 256 / 256 / 256 / 256 / 256,
        x / 0x0001_0000_0000_0000 == x / 256 / 256 / 256 / 256 / 256 / 256,
        x / 0x0100_0000_0000_0000 == x / 256 / 256 / 256 / 256 / 256 / 256 / 256,
{
    let x = x as int;
    lemma_div_denominator(x, 0x0000_0000_0000_0100, 256);
    lemma_div_denominator(x, 0x0000_0000_0001_0000, 256);
    lemma_div_denominator(x, 0x0000_0000_0100_0000, 256);
    lemma_div_denominator(x, 0x0000_0001_0000_0000, 256);
    lemma_div_denominator(x, 0x0000_0100_0000_0000, 256);
    lemma_div_denominator(x, 0x0001_0000_0000_0000, 256);
}

/// Reading back the prefix of a length gives that length.
pub proof fn lemma_prefix_value_of_length(len: nat)
    requires
        len <= u64::MAX,
    ensures
        length_prefix(len).len() == 8,
        prefix_value(length_prefix(len)) == len,
{
    lemma_byte_quotients(len);
}

/// Writing the value of a prefix gives the same eight bytes.
pub proof fn lemma_length_of_prefix_value(prefix: Seq<u8>)
    requires
        prefix.len() == 8,
    ensures
        prefix_value(prefix) <= u64::MAX,
        length_prefix(prefix_value(prefix)) == prefix,
{
    let b = |i: int| prefix[i] as nat;
    let t7 = b(0);
    let t6 = t7 * 256 + b(1);
    let t5 = t6 * 256 + b(2);
    let t4 = t5 * 256 + b(3);
    let t3 = t4 * 256 + b(4);
    let t2 = t3 * 256 + b(5);
    let t1 = t2 * 256 + b(6);
    let t0 = t1 * 256 + b(7);
    assert(t0 == prefix_value(prefix));
    assert(t0 / 256 == t1 && t0 % 256 == b(7));
    assert(t1 / 256 == t2 && t1 % 256 == b(6));
    assert(t2 / 256 == t3 && t2 % 256 == b(5));
    assert(t3 / 256 == t4 && t3 % 256 == b(4));
    assert(t4 / 256 == t5 && t4 % 256 == b(3));
    assert(t5 / 256 == t6 && t5 % 256 == b(2));
    assert(t6 / 256 == t7 && t6 % 256 == b(1));
    assert(t7 % 256 == b(0));
    lemma_byte_quotients(t0);
    assert(length_prefix(t0) =~= prefix);
}

/// Encodes a payload length as the prefix of its frame.
pub fn encode_length(len: u64) -> (prefix: [u8; 8])
    ensures
        prefix@ == length_prefix(len as nat),
{
    let prefix: [u8; 8] = [
        (len / 0x0100_0000_0000_0000 % 256) as u8,
        (len / 0x0001_0000_0000_0000 % 256) as u8,
        (len / 0x0000_0100_0000_0000 % 256) as u8,
        (len / 0x0000_0001_0000_0000 % 256) as u8,
        (len / 0x0000_0000_0100_0000 % 256) as u8,
        (len / 0x0000_0000_0001_0000 % 256) as u8,
        (len / 0x0000_0000_0000_0100 % 256) as u8,
        (len % 256) as u8,
    ];
    assert(prefix@ =~= length_prefix(len as nat));
    prefix
}

/// Decodes the prefix of a frame into the length of the payload that follows.
pub fn decode_length(prefix: &[u8; 8]) -> (len: u64)
    ensures
        len == prefix_value(prefix@),
{
    (prefix[0] as u64) * 0x0100_0000_0000_0000
        + (prefix[1] as u64) * 0x0001_0000_0000_0000
        + (prefix[2] as u64) * 0x0000_0100_0000_0000
        + (prefix[3] as u64) * 0x0000_0001_0000_0000
        + (prefix[4] as u64) * 0x0000_0000_0100_0000
        + (prefix[5] as u64) * 0x0000_0000_0001_0000
        + (prefix[6] as u64) * 0x0000_0000_0000_0100
        + (prefix[7] as u64)
}

/// The bytes that carry `payload` on the wire: its length, then the payload
/// itself, untouched.
pub open spec fn frame(payload: Seq<u8>) -> Seq<u8>
    recommends
        payload.len() <= u64::MAX,
{
    length_prefix(payload.len()) + payload
}

/// What reading one message gives when `stream` holds every byte that arrives
/// before the stream ends: the payload of the first frame, or the point at
/// which the stream fell short.
pub open spec fn first_frame(stream: Seq<u8>) -> Result<Seq<u8>, ReadError> {
    if stream.len() < 8 {
        Err(ReadError::ShortPrefix)
    } else if stream.len() - 8 < prefix_value(stream.take(8)) {
        Err(ReadError::ShortPayload)
    } else {
        Ok(stream.subrange(8, 8 + prefix_value(stream.take(8)) as int))
    }
}

/// The bytes of `stream` that follow its first frame.
pub open spec fn after_first_frame(stream: Seq<u8>) -> Seq<u8>
    recommends
        first_frame(stream) is Ok,
{
    stream.skip(8 + prefix_value(stream.take(8)) as int)
}

/// A frame that is read back gives the payload it was made of, whatever bytes
/// the payload holds and whatever follows the frame; what follows is left
/// unread.
pub proof fn lemma_frame_round_trip(payload: Seq<u8>, rest: Seq<u8>)
    requires
        payload.len() <= u64::MAX,
    ensures
        first_frame(frame(payload) + rest) == Ok::<Seq<u8>, ReadError>(payload),
        after_first_frame(frame(payload) + rest) == rest,
{
    let stream = frame(payload) + rest;
    lemma_prefix_value_of_length(payload.len());
    assert(stream.take(8) =~= length_prefix(payload.len()));
    assert(stream.subrange(8, 8 + payload.len() as int) =~= payload);
    assert(stream.skip(8 + payload.len() as int) =~= rest);
}

/// Framing loses nothing of a value. Whatever way of serializing is used, so
/// long as it can be undone, a value that is serialized, framed, read back
/// and deserialized is the value that was written.
pub proof fn lemma_value_round_trip<V>(
    value: V,
    serialize: spec_fn(V) -> Seq<u8>,
    deserialize: spec_fn(Seq<u8>) -> Option<V>,
    rest: Seq<u8>,
)
    requires
        serialize(value).len() <= u64::MAX,
        deserialize(serialize(value)) == Some(value),
    ensures
        first_frame(frame(serialize(value)) + rest) matches Ok(payload) && deserialize(payload)
            == Some(value),
{
    lemma_frame_round_trip(serialize(value), rest);
}

/// A stream that ends inside a frame never yields a value: cut anywhere before
/// its last byte, a frame reads as a failure of the transport, short of the
/// prefix when fewer than eight bytes are left and short of the payload
/// otherwise.
pub proof fn lemma_truncated_frame_falls_short(payload: Seq<u8>, kept: nat)
    requires
        payload.len() <= u64::MAX,
        kept < frame(payload).len(),
    ensures
        kept < 8 ==> first_frame(frame(payload).take(kept as int)) == Err::<Seq<u8>, ReadError>(
            ReadError::ShortPrefix,
        ),
        kept >= 8 ==> first_frame(frame(payload).take(kept as int)) == Err::<Seq<u8>, ReadError>(
            ReadError::ShortPayload,
        ),
{
    let cut = frame(payload).take(kept as int);
    lemma_prefix_value_of_length(payload.len());
    if kept >= 8 {
        assert(cut.take(8) =~= length_prefix(payload.len()));
    }
}

/// Writes one message to `stream`: the length of the serialized value as an
/// eight-byte big-endian prefix, then the serialized value.
pub fn write_serialized(stream: &mut Vec<u8>, payload: &[u8])
    ensures
        final(stream)@ == old(stream)@ + frame(payload@),
{
    let prefix = encode_length(payload.len() as u64);
    stream.extend_from_slice(prefix.as_slice());
    stream.extend_from_slice(payload);
    assert(stream@ =~= old(stream)@ + frame(payload@));
}

/// Reads one message from the front of `stream`, which holds every byte that
/// arrived before the stream ended. Gives the payload still to be deserialized
/// and the bytes that follow the frame, or says where the stream fell short.
pub fn read_deserialized<'a>(stream: &'a [u8]) -> (read: Result<(&'a [u8], &'a [u8]), ReadError>)
    ensures
        match read {
            Ok((payload, rest)) => first_frame(stream@) == Ok::<Seq<u8>, ReadError>(payload@)
                && rest@ == after_first_frame(stream@),
            Err(e) => first_frame(stream@) == Err::<Seq<u8>, ReadError>(e),
        },
{
    if stream.len() < PREFIX_LEN {
        return Err(ReadError::ShortPrefix);
    }
    let prefix: [u8; 8] = [
        stream[0],
        stream[1],
        stream[2],
        stream[3],
        stream[4],
        stream[5],
        stream[6],
        stream[7],
    ];
    assert(prefix@ =~= stream@.take(8));
    let len = decode_length(&prefix);
    if ((stream.len() - PREFIX_LEN) as u64) < len {
        return Err(ReadError::ShortPayload);
    }
    let end = PREFIX_LEN + len as usize;
    let payload = slice_subrange(stream, PREFIX_LEN, end);
    let rest = slice_subrange(stream, end, stream.len());
    Ok((payload, rest))
}

} // verus!
