//! The input-frame codec: a fixed-width bitset holding one player's input
//! for exactly one simulation tick, and its lossless wire encoding.

use vstd::prelude::*;

verus! {

/// Number of bytes a single encoded input frame occupies on the wire.
pub const ENCODED_LEN: usize = 4;

/// One player's input for one simulation tick: four meaningful bits.
///
/// Two frames are equal iff their bit patterns are equal; that equality is
/// the basis for misprediction detection.
#[derive(Clone, Copy, PartialEq, Eq, Structural, Debug)]
pub struct InputFrame {
    pub up: bool,
    pub down: bool,
    pub left: bool,
    pub right: bool,
}

/// Rejection of a malformed or undersized wire buffer.
#[derive(Clone, Copy, PartialEq, Eq, Structural, Debug)]
pub enum DecodeError {
    /// The buffer does not hold exactly `ENCODED_LEN` bytes.
    WrongLength,
    /// The buffer has the right size but sets bits outside the schema.
    InvalidBits,
}

/// The packed-bit value of a frame: one bit per direction, below 16.
pub open spec fn spec_bits(f: InputFrame) -> u8 {
    ((if f.up { 1u8 } else { 0u8 }) + (if f.down { 2u8 } else { 0u8 })
        + (if f.left { 4u8 } else { 0u8 }) + (if f.right { 8u8 } else { 0u8 })) as u8
}

/// The frame denoted by a packed-bit value.
pub open spec fn spec_frame_of_bits(b: u8) -> InputFrame {
    InputFrame {
        up: b % 2 == 1,
        down: (b / 2) % 2 == 1,
        left: (b / 4) % 2 == 1,
        right: (b / 8) % 2 == 1,
    }
}

/// The wire encoding of a frame: its packed bits followed by zero padding.
pub open spec fn spec_encode(f: InputFrame) -> Seq<u8> {
    seq![spec_bits(f), 0u8, 0u8, 0u8]
}

/// The decoding of a wire buffer, `None` on a malformed or undersized one.
pub open spec fn spec_decode(bytes: Seq<u8>) -> Option<InputFrame> {
    if bytes.len() != ENCODED_LEN {
        None
    } else if bytes[0] >= 16 || bytes[1] != 0 || bytes[2] != 0 || bytes[3] != 0 {
        None
    } else {
        Some(spec_frame_of_bits(bytes[0]))
    }
}

/// Packing a frame and unpacking the result gives the frame back.
pub proof fn lemma_bits_round_trip(f: InputFrame)
    ensures
        spec_frame_of_bits(spec_bits(f)) == f,
        spec_bits(f) < 16,
{
}

/// Round trip: decoding an encoded frame yields the frame, for every
/// input-frame bit pattern.
pub proof fn lemma_codec_round_trip(f: InputFrame)
    ensures
        spec_decode(spec_encode(f)) == Some(f),
{
    lemma_bits_round_trip(f);
}

/// The other direction: a buffer that decodes is exactly the encoding of
/// what it decodes to, so the wire representation is canonical.
pub proof fn lemma_encode_of_decoded(bytes: Seq<u8>)
    requires
        spec_decode(bytes) is Some,
    ensures
        spec_encode(spec_decode(bytes)->0) == bytes,
{
    assert(spec_encode(spec_decode(bytes)->0) =~= bytes);
}

impl InputFrame {
    /// The frame with no direction pressed.
    pub fn empty() -> (r: InputFrame)
        ensures
            r == (InputFrame { up: false, down: false, left: false, right: false }),
    {
        InputFrame { up: false, down: false, left: false, right: false }
    }

    /// The frame with exactly the given directions pressed.
    pub fn new(up: bool, down: bool, left: bool, right: bool) -> (r: InputFrame)
        ensures
            r == (InputFrame { up, down, left, right }),
    {
        InputFrame { up, down, left, right }
    }

    /// The packed-bit value of this frame.
    pub fn bits(&self) -> (r: u8)
        ensures
            r == spec_bits(*self),
    {
        (if self.up { 1u8 } else { 0u8 }) + (if self.down { 2u8 } else { 0u8 })
            + (if self.left { 4u8 } else { 0u8 }) + (if self.right { 8u8 } else { 0u8 })
    }

    /// The input frame sampled from the four arrow-key states: within
    /// each axis the first pressed direction wins (left over right, up
    /// over down), so opposing directions are never both set.
    pub fn sample_input(
        left_pressed: bool,
        right_pressed: bool,
        up_pressed: bool,
        down_pressed: bool,
    ) -> (r: InputFrame)
        ensures
            r.left == left_pressed,
            r.right == (!left_pressed && right_pressed),
            r.up == up_pressed,
            r.down == (!up_pressed && down_pressed),
    {
        let mut local_input = InputFrame::empty();
        if left_pressed {
            local_input.left = true;
        } else if right_pressed {
            local_input.right = true;
        }
        if up_pressed {
            local_input.up = true;
        } else if down_pressed {
            local_input.down = true;
        }
        local_input
    }

    /// Encode this frame to its fixed-size wire representation.
    pub fn encode(&self) -> (r: Vec<u8>)
        ensures
            r@ == spec_encode(*self),
    {
        let mut out: Vec<u8> = Vec::new();
        out.push(self.bits());
        out.push(0);
        out.push(0);
        out.push(0);
        proof {
            assert(out@ =~= spec_encode(*self));
        }
        out
    }

    /// Decode a wire buffer back to a frame; a buffer of the wrong size or
    /// with bits outside the schema is rejected, never misread.
    pub fn decode(bytes: &[u8]) -> (r: Result<InputFrame, DecodeError>)
        ensures
            match r {
                Ok(f) => spec_decode(bytes@) == Some(f),
                Err(DecodeError::WrongLength) => bytes@.len() != ENCODED_LEN,
                Err(DecodeError::InvalidBits) => bytes@.len() == ENCODED_LEN
                    && spec_decode(bytes@) is None,
            },
    {
        if bytes.len() != ENCODED_LEN {
            return Err(DecodeError::WrongLength);
        }
        let b0 = bytes[0];
        if b0 >= 16 || bytes[1] != 0 || bytes[2] != 0 || bytes[3] != 0 {
            return Err(DecodeError::InvalidBits);
        }
        Ok(InputFrame {
            up: b0 % 2 == 1,
            down: (b0 / 2) % 2 == 1,
            left: (b0 / 4) % 2 == 1,
            right: (b0 / 8) % 2 == 1,
        })
    }
}

} // verus!
