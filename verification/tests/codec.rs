use rollback::input::{DecodeError, InputFrame, ENCODED_LEN};

fn frame_from_bits(bits: u8) -> InputFrame {
    InputFrame::new(bits & 1 != 0, bits & 2 != 0, bits & 4 != 0, bits & 8 != 0)
}

#[test]
fn round_trip_all_bit_patterns() {
    for bits in 0u8..16 {
        let f = frame_from_bits(bits);
        let encoded = f.encode();
        assert_eq!(encoded.len(), ENCODED_LEN);
        let decoded = InputFrame::decode(&encoded).unwrap();
        assert_eq!(decoded, f);
    }
}

#[test]
fn encode_is_packed_bits_and_padding() {
    let f = InputFrame::new(true, false, true, false);
    assert_eq!(f.bits(), 1 + 4);
    assert_eq!(f.encode(), vec![5, 0, 0, 0]);
    let empty = InputFrame::empty();
    assert_eq!(empty.bits(), 0);
    assert_eq!(empty.encode(), vec![0, 0, 0, 0]);
    let all = InputFrame::new(true, true, true, true);
    assert_eq!(all.bits(), 15);
    assert_eq!(all.encode(), vec![15, 0, 0, 0]);
}

#[test]
fn decode_rejects_wrong_length() {
    assert_eq!(InputFrame::decode(&[]), Err(DecodeError::WrongLength));
    assert_eq!(InputFrame::decode(&[1, 0, 0]), Err(DecodeError::WrongLength));
    assert_eq!(InputFrame::decode(&[1, 0, 0, 0, 0]), Err(DecodeError::WrongLength));
}

#[test]
fn decode_rejects_bits_outside_schema() {
    assert_eq!(InputFrame::decode(&[16, 0, 0, 0]), Err(DecodeError::InvalidBits));
    assert_eq!(InputFrame::decode(&[255, 0, 0, 0]), Err(DecodeError::InvalidBits));
    assert_eq!(InputFrame::decode(&[3, 1, 0, 0]), Err(DecodeError::InvalidBits));
    assert_eq!(InputFrame::decode(&[3, 0, 0, 9]), Err(DecodeError::InvalidBits));
}

#[test]
fn equality_is_bit_equality() {
    assert_eq!(frame_from_bits(9), frame_from_bits(9));
    assert_ne!(frame_from_bits(9), frame_from_bits(8));
    assert_ne!(InputFrame::new(true, false, false, false), InputFrame::empty());
}

#[test]
fn sampling_prefers_left_and_up() {
    let f = InputFrame::sample_input(true, true, true, true);
    assert!(f.left && !f.right && f.up && !f.down);
    let g = InputFrame::sample_input(false, true, false, true);
    assert!(!g.left && g.right && !g.up && g.down);
    let none = InputFrame::sample_input(false, false, false, false);
    assert_eq!(none, InputFrame::empty());
}
