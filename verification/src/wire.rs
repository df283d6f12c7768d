//! The wire message codec: one datagram carries the sending player's
//! handle and a short ordered run of (frame number, input frame) pairs —
//! the most recent confirmed local frames — so that receivers can
//! de-duplicate by frame number and tolerate packet loss.

use vstd::prelude::*;
use vstd::slice::slice_subrange;
use crate::input::{lemma_encode_of_decoded, spec_decode, spec_encode, DecodeError, InputFrame};

verus! {

/// Number of bytes of a message header: sender and pair count.
pub const HEADER_LEN: usize = 4;

/// Number of bytes of one (frame number, input frame) pair.
pub const PAIR_LEN: usize = 8;

/// A 16-bit value in little-endian bytes.
pub open spec fn spec_u16_le(n: u16) -> Seq<u8> {
    seq![(n % 256) as u8, (n / 256) as u8]
}

/// A 32-bit value in little-endian bytes.
pub open spec fn spec_u32_le(n: u32) -> Seq<u8> {
    seq![
        (n % 256) as u8,
        ((n / 256) % 256) as u8,
        ((n / 65536) % 256) as u8,
        (n / 16777216) as u8,
    ]
}

/// The 32-bit value little-endian bytes denote.
pub open spec fn spec_u32_of_le(b: Seq<u8>) -> u32
    recommends
        b.len() == 4,
{
    (b[0] + b[1] * 256 + b[2] * 65536 + b[3] * 16777216) as u32
}

/// The little-endian bytes of the value four bytes denote are those four
/// bytes: the representation is canonical.
pub proof fn lemma_u32_le_canonical(b: Seq<u8>)
    requires
        b.len() == 4,
    ensures
        spec_u32_le(spec_u32_of_le(b)) == b,
{
    assert(spec_u32_le(spec_u32_of_le(b)) =~= b);
}

/// The bytes of one pair: the frame number, then the encoded input.
pub open spec fn spec_pair_bytes(frame: u32, input: InputFrame) -> Seq<u8> {
    spec_u32_le(frame) + spec_encode(input)
}

/// The bytes of a run of pairs, in order.
pub open spec fn spec_pairs_bytes(pairs: Seq<(u32, InputFrame)>) -> Seq<u8>
    decreases pairs.len(),
{
    if pairs.len() == 0 {
        Seq::empty()
    } else {
        spec_pairs_bytes(pairs.drop_last()) + spec_pair_bytes(pairs.last().0, pairs.last().1)
    }
}

/// A run of pairs occupies eight bytes per pair.
pub proof fn lemma_pairs_bytes_len(pairs: Seq<(u32, InputFrame)>)
    ensures
        spec_pairs_bytes(pairs).len() == PAIR_LEN * pairs.len(),
    decreases pairs.len(),
{
    if pairs.len() > 0 {
        lemma_pairs_bytes_len(pairs.drop_last());
    }
}

/// The bytes of a whole message: the sender's handle and the pair count,
/// sixteen bits each in little-endian, then the pairs.
pub open spec fn spec_message_bytes(sender: u16, pairs: Seq<(u32, InputFrame)>) -> Seq<u8>
    recommends
        pairs.len() < 65536,
{
    spec_u16_le(sender) + spec_u16_le(pairs.len() as u16) + spec_pairs_bytes(pairs)
}

/// The pair count a buffer's header declares.
pub open spec fn spec_declared_count(b: Seq<u8>) -> int
    recommends
        b.len() >= HEADER_LEN,
{
    b[2] + b[3] * 256
}

/// Whether a buffer has a header and exactly the declared pairs after it.
pub open spec fn spec_framing_ok(b: Seq<u8>) -> bool {
    b.len() >= HEADER_LEN && b.len() == HEADER_LEN + PAIR_LEN * spec_declared_count(b)
}

/// The input payload of the buffer's `i`-th pair.
pub open spec fn spec_payload_at(b: Seq<u8>, i: int) -> Seq<u8> {
    b.subrange(HEADER_LEN + PAIR_LEN * i + 4, HEADER_LEN + PAIR_LEN * (i + 1))
}

/// Encode one message.
#[verifier::loop_isolation(false)]
pub fn encode_message(sender: u16, pairs: &Vec<(u32, InputFrame)>) -> (r: Vec<u8>)
    requires
        pairs@.len() < 65536,
    ensures
        r@ == spec_message_bytes(sender, pairs@),
{
    let mut out: Vec<u8> = Vec::new();
    out.push((sender % 256) as u8);
    out.push((sender / 256) as u8);
    let count = pairs.len() as u16;
    out.push((count % 256) as u8);
    out.push((count / 256) as u8);
    proof {
        assert(out@ =~= spec_u16_le(sender) + spec_u16_le(pairs@.len() as u16)
            + spec_pairs_bytes(pairs@.take(0)));
    }
    let mut i: usize = 0;
    while i < pairs.len()
        invariant
            i <= pairs@.len(),
            out@ == spec_u16_le(sender) + spec_u16_le(pairs@.len() as u16) + spec_pairs_bytes(
                pairs@.take(i as int),
            ),
        decreases pairs@.len() - i,
    {
        let (frame, input) = pairs[i];
        out.push((frame % 256) as u8);
        out.push(((frame / 256) % 256) as u8);
        out.push(((frame / 65536) % 256) as u8);
        out.push((frame / 16777216) as u8);
        let mut payload = input.encode();
        out.append(&mut payload);
        proof {
            assert(pairs@.take(i + 1).drop_last() =~= pairs@.take(i as int));
            assert(pairs@.take(i + 1).last() == pairs@[i as int]);
            assert(out@ =~= spec_u16_le(sender) + spec_u16_le(pairs@.len() as u16)
                + spec_pairs_bytes(pairs@.take(i + 1)));
        }
        i = i + 1;
    }
    proof {
        assert(pairs@.take(pairs@.len() as int) =~= pairs@);
    }
    out
}

/// Decode one received datagram.  A buffer that decodes is exactly the
/// encoding of the decoded message, so nothing is misread; a buffer
/// whose length does not match its declared pair count, or that carries
/// an input payload outside the schema, is rejected.
#[verifier::loop_isolation(false)]
pub fn decode_message(bytes: &[u8]) -> (r: Result<(u16, Vec<(u32, InputFrame)>), DecodeError>)
    ensures
        match r {
            Ok(m) => bytes@ == spec_message_bytes(m.0, m.1@) && m.1@.len() < 65536,
            Err(DecodeError::WrongLength) => !spec_framing_ok(bytes@),
            Err(DecodeError::InvalidBits) => spec_framing_ok(bytes@) && (exists|i: int|
                0 <= i < spec_declared_count(bytes@) && spec_decode(
                    #[trigger] spec_payload_at(bytes@, i),
                ) is None),
        },
{
    if bytes.len() < HEADER_LEN {
        return Err(DecodeError::WrongLength);
    }
    let b0 = bytes[0];
    let b1 = bytes[1];
    let sender: u16 = b0 as u16 + b1 as u16 * 256;
    let count: usize = bytes[2] as usize + bytes[3] as usize * 256;
    if bytes.len() - HEADER_LEN != PAIR_LEN * count {
        return Err(DecodeError::WrongLength);
    }
    let mut pairs: Vec<(u32, InputFrame)> = Vec::new();
    let mut i: usize = 0;
    while i < count
        invariant
            i <= count,
            pairs@.len() == i,
            spec_pairs_bytes(pairs@) == bytes@.subrange(
                HEADER_LEN as int,
                HEADER_LEN + PAIR_LEN * i,
            ),
        decreases count - i,
    {
        let off = HEADER_LEN + PAIR_LEN * i;
        let frame: u32 = bytes[off] as u32 + bytes[off + 1] as u32 * 256 + bytes[off + 2] as u32
            * 65536 + bytes[off + 3] as u32 * 16777216;
        let payload = slice_subrange(bytes, off + 4, off + PAIR_LEN);
        let input = match InputFrame::decode(payload) {
            Ok(input) => input,
            Err(_) => {
                proof {
                    assert(payload@ == spec_payload_at(bytes@, i as int));
                    assert(spec_decode(spec_payload_at(bytes@, i as int)) is None);
                }
                return Err(DecodeError::InvalidBits);
            },
        };
        proof {
            lemma_pairs_bytes_len(pairs@);
            assert(pairs@.push((frame, input)).drop_last() =~= pairs@);
            lemma_u32_le_canonical(bytes@.subrange(off as int, off + 4));
            assert(spec_u32_of_le(bytes@.subrange(off as int, off + 4)) == frame);
            lemma_encode_of_decoded(payload@);
            assert(spec_pair_bytes(frame, input) =~= bytes@.subrange(off as int, off + PAIR_LEN));
            assert(spec_pairs_bytes(pairs@.push((frame, input))) =~= bytes@.subrange(
                HEADER_LEN as int,
                HEADER_LEN + PAIR_LEN * (i + 1),
            ));
        }
        pairs.push((frame, input));
        i = i + 1;
    }
    proof {
        assert(spec_u16_le(sender) =~= bytes@.subrange(0, 2));
        assert(spec_u16_le(pairs@.len() as u16) =~= bytes@.subrange(2, HEADER_LEN as int));
        assert(bytes@ =~= spec_message_bytes(sender, pairs@));
    }
    Ok((sender, pairs))
}

} // verus!
