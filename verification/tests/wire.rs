use pumpkin_blocks::action::CBlockUpdate;
use pumpkin_blocks::block::{BlockState, PistonBehavior};
use pumpkin_blocks::direction::BlockPos;
use pumpkin_blocks::names::instrument_name;
use pumpkin_blocks::packet::SEncryptionResponse;
use pumpkin_blocks::placement::{BlockEvent, BlockIsReplacing};
use pumpkin_blocks::varint::{decode, encode, to_signed, to_unsigned, ReadingError};

#[test]
fn numbers_take_seven_bits_to_the_byte() {
    assert_eq!(encode(0), vec![0x00]);
    assert_eq!(encode(1), vec![0x01]);
    assert_eq!(encode(127), vec![0x7f]);
    assert_eq!(encode(128), vec![0x80, 0x01]);
    assert_eq!(encode(255), vec![0xff, 0x01]);
    assert_eq!(encode(25565), vec![0xdd, 0xc7, 0x01]);
    assert_eq!(encode(2097151), vec![0xff, 0xff, 0x7f]);
    assert_eq!(encode(2147483647), vec![0xff, 0xff, 0xff, 0xff, 0x07]);
    assert_eq!(encode(to_unsigned(-1)), vec![0xff, 0xff, 0xff, 0xff, 0x0f]);
    assert_eq!(encode(to_unsigned(i32::MIN)), vec![0x80, 0x80, 0x80, 0x80, 0x08]);
}

#[test]
fn numbers_are_read_back() {
    for v in [0u32, 1, 127, 128, 300, 16383, 16384, 25565, 1 << 21, 1 << 28, u32::MAX] {
        let mut bytes = encode(v);
        let n = bytes.len();
        bytes.extend_from_slice(&[0xff, 0x00]);
        assert_eq!(decode(&bytes), Ok((v, n)));
    }
    assert_eq!(decode(&[0xdd, 0xc7, 0x01, 0x55]), Ok((25565, 3)));
    assert_eq!(to_signed(to_unsigned(-7)), -7);
    assert_eq!(to_signed(u32::MAX), -1);
    assert_eq!(to_unsigned(i32::MIN), 0x8000_0000);
}

#[test]
fn numbers_that_end_early_or_go_on_too_long() {
    assert_eq!(decode(&[]), Err(ReadingError::Incomplete));
    assert_eq!(decode(&[0x80]), Err(ReadingError::Incomplete));
    assert_eq!(decode(&[0xff, 0xff, 0xff, 0xff]), Err(ReadingError::Incomplete));
    assert_eq!(decode(&[0x80, 0x80, 0x80, 0x80, 0x80]), Err(ReadingError::TooLarge));
    assert_eq!(decode(&[0x80, 0x80, 0x80, 0x80, 0x80, 0x01]), Err(ReadingError::TooLarge));
    // bits beyond the 32nd are cut off
    assert_eq!(decode(&[0xff, 0xff, 0xff, 0xff, 0x7f]), Ok((u32::MAX, 5)));
}

#[test]
fn verify_token_is_read_by_its_own_length() {
    let bytes = [2, 0xaa, 0xbb, 3, 1, 2, 3, 9, 9];
    let packet = SEncryptionResponse::read(&bytes).unwrap();
    assert_eq!(packet.shared_secret_length, 2);
    assert_eq!(packet.shared_secret, vec![0xaa, 0xbb]);
    assert_eq!(packet.verify_token_length, 3);
    assert_eq!(packet.verify_token, vec![1, 2, 3]);
    assert_eq!(packet.write(), bytes[..7].to_vec());
}

#[test]
fn long_fields_are_read() {
    let secret: Vec<u8> = (0..200u8).collect();
    let packet = SEncryptionResponse {
        shared_secret_length: 200,
        shared_secret: secret.clone(),
        verify_token_length: 0,
        verify_token: vec![],
    };
    let bytes = packet.write();
    assert_eq!(bytes.len(), 2 + 200 + 1);
    let read = SEncryptionResponse::read(&bytes).unwrap();
    assert_eq!(read.shared_secret, secret);
    assert!(read.verify_token.is_empty());
}

#[test]
fn short_packets_are_refused() {
    assert_eq!(SEncryptionResponse::read(&[]).err(), Some(ReadingError::Incomplete));
    assert_eq!(SEncryptionResponse::read(&[2, 1]).err(), Some(ReadingError::Incomplete));
    assert_eq!(SEncryptionResponse::read(&[1, 7]).err(), Some(ReadingError::Incomplete));
    assert_eq!(SEncryptionResponse::read(&[1, 7, 2, 1]).err(), Some(ReadingError::Incomplete));
    // a negative length
    assert_eq!(
        SEncryptionResponse::read(&[0xff, 0xff, 0xff, 0xff, 0x0f, 1]).err(),
        Some(ReadingError::Incomplete)
    );
    assert_eq!(
        SEncryptionResponse::read(&[0x80, 0x80, 0x80, 0x80, 0x80]).err(),
        Some(ReadingError::TooLarge)
    );
    assert!(SEncryptionResponse::read(&[0, 0]).is_ok());
}

#[test]
fn block_update_carries_the_state_id() {
    let update = CBlockUpdate { location: BlockPos::new(1, 2, 3), block_id: 300 };
    assert_eq!(update.block_id_bytes(), vec![0xac, 0x02]);
}

#[test]
fn state_attributes_in_packed_form() {
    let mut s = BlockState {
        id: 4,
        state_flags: 0,
        side_flags: 0,
        instrument: "bass_drum".to_string(),
        luminance: 0,
        piston_behavior: PistonBehavior::Normal,
        hardness: 0,
        collision_shapes: vec![],
        outline_shapes: vec![],
        opacity: None,
        block_entity_type: None,
    };
    assert_eq!(s.packed_opacity(), 255);
    assert_eq!(s.packed_block_entity_type(), 65535);
    s.opacity = Some(15);
    s.block_entity_type = Some(3);
    assert_eq!(s.packed_opacity(), 15);
    assert_eq!(s.packed_block_entity_type(), 3);
    assert_eq!(instrument_name(&s.instrument), "BassDrum");
}

#[test]
fn water_of_level_zero_is_a_source() {
    assert!(BlockIsReplacing::Water(0).water_source());
    assert!(!BlockIsReplacing::Water(1).water_source());
    assert!(!BlockIsReplacing::Itself(0).water_source());
    assert!(!BlockIsReplacing::Other.water_source());
    assert!(!BlockIsReplacing::Nothing.water_source());
    let event = BlockEvent { pos: BlockPos::new(0, 0, 0), kind: 1, data: 2 };
    assert_eq!(event.kind, 1);
}
