use emg_core::packet::{CommandType, Packet, RequestId, RequestIdGenerator, FRAME_LEN};

fn frame_of(command: CommandType, id: u16, payload: &[u8]) -> [u8; 38] {
    Packet::with_payload(command, RequestId(id), payload)
        .expect("payload within limit")
        .serialize()
}

#[test]
fn serialize_lays_out_header_payload_and_crc() {
    let frame = frame_of(CommandType::GetSensors, 0, &[0xFF]);
    assert_eq!(frame.len(), FRAME_LEN);
    assert_eq!(frame[0], 0x02);
    assert_eq!(frame[1], 1);
    assert_eq!(&frame[2..4], &[0x00, 0x00]);
    assert_eq!(frame[4], 0xFF);
    assert!(frame[5..36].iter().all(|b| *b == 0));
    // CRC-16/CCITT-FALSE of 02 01 00 00 FF, little-endian.
    assert_eq!(&frame[36..38], &[0xCB, 0x3D]);
}

#[test]
fn crc_covers_request_id_and_payload() {
    let frame = frame_of(CommandType::SetSpeed, 0x1234, &[0xAA, 0xBB]);
    assert_eq!(&frame[2..4], &[0x34, 0x12]);
    assert_eq!(&frame[36..38], &[0x8C, 0x26]);
    let empty = Packet::new(CommandType::StopMotion, RequestId(7)).serialize();
    assert_eq!(&empty[..4], &[0x04, 0x00, 0x07, 0x00]);
    assert_eq!(&empty[36..38], &[0xA6, 0xD7]);
}

#[test]
fn round_trip_every_command_at_its_limit() {
    let commands = [
        CommandType::SetPosition,
        CommandType::GetSensors,
        CommandType::StartMotion,
        CommandType::StopMotion,
        CommandType::SetSpeed,
        CommandType::GetDeviceInfo,
        CommandType::EmergencyStop,
    ];
    for (k, command) in commands.iter().enumerate() {
        let max = command.max_payload_size() as usize;
        for len in 0..=max {
            let payload: Vec<u8> = (0..len).map(|i| (i * 7 + k) as u8).collect();
            let id = 0xBEEF ^ (len as u16);
            let frame = frame_of(*command, id, &payload);
            let back = Packet::deserialize(&frame).expect("valid frame decodes");
            assert_eq!(back.command(), *command);
            assert_eq!(back.request_id(), RequestId(id));
            assert_eq!(back.body(), &payload[..]);
            assert_eq!(back.serialize(), frame);
        }
    }
}

#[test]
fn oversized_payload_yields_no_packet() {
    assert!(Packet::with_payload(CommandType::StopMotion, RequestId(1), &[1]).is_none());
    assert!(Packet::with_payload(CommandType::SetSpeed, RequestId(1), &[1, 2, 3]).is_none());
    assert!(Packet::with_payload(CommandType::GetSensors, RequestId(1), &[0; 19]).is_none());
    assert!(Packet::with_payload(CommandType::SetPosition, RequestId(1), &[0; 25]).is_none());
    assert!(Packet::with_payload(CommandType::SetPosition, RequestId(1), &[0; 24]).is_some());
}

#[test]
fn deserialize_rejects_wrong_size() {
    let frame = frame_of(CommandType::StartMotion, 3, &[1]);
    assert!(Packet::deserialize(&frame[..37]).is_none());
    let mut longer = frame.to_vec();
    longer.push(0);
    assert!(Packet::deserialize(&longer).is_none());
    assert!(Packet::deserialize(&[]).is_none());
}

#[test]
fn deserialize_rejects_unknown_opcode() {
    let mut frame = frame_of(CommandType::StartMotion, 3, &[1]);
    frame[0] = 0x06;
    assert!(Packet::deserialize(&frame).is_none());
}

#[test]
fn deserialize_rejects_length_over_limit() {
    let mut frame = frame_of(CommandType::StartMotion, 3, &[1]);
    frame[1] = 2;
    assert!(Packet::deserialize(&frame).is_none());
}

#[test]
fn deserialize_rejects_crc_mismatch() {
    let mut frame = frame_of(CommandType::SetSpeed, 9, &[1, 2]);
    frame[36] ^= 0xFF;
    assert!(Packet::deserialize(&frame).is_none());
}

#[test]
fn single_bit_flips_in_covered_bytes_and_crc_are_detected() {
    let frame = frame_of(CommandType::SetPosition, 0x0102, &[9, 8, 7, 6, 5]);
    let covered = 4 + 5;
    let positions = (0..covered).chain(36..38);
    for pos in positions {
        for bit in 0..8 {
            let mut flipped = frame;
            flipped[pos] ^= 1 << bit;
            assert!(Packet::deserialize(&flipped).is_none(), "byte {pos} bit {bit}");
        }
    }
}

#[test]
fn padding_is_outside_the_checksum() {
    let frame = frame_of(CommandType::StartMotion, 1, &[1]);
    let mut flipped = frame;
    flipped[20] ^= 0x10;
    let back = Packet::deserialize(&flipped).expect("padding is not checked");
    assert_eq!(back.body(), &[1]);
}

#[test]
fn request_ids_count_up_and_wrap() {
    let mut ids = RequestIdGenerator::new();
    assert_eq!(RequestId::new(&mut ids), RequestId(0));
    assert_eq!(ids.next_id(), RequestId(1));
    for _ in 2..0xFFFF {
        ids.next_id();
    }
    assert_eq!(ids.next_id(), RequestId(0xFFFF));
    assert_eq!(ids.next_id(), RequestId(0));
}

#[test]
fn command_codes_round_trip() {
    for code in 0..=255u8 {
        if let Some(c) = CommandType::from_code(code) {
            assert_eq!(c.code(), code);
        }
    }
    assert_eq!(CommandType::from_code(0x10), Some(CommandType::GetDeviceInfo));
    assert_eq!(CommandType::from_code(0x16), Some(CommandType::EmergencyStop));
    assert_eq!(CommandType::from_code(0x00), None);
    assert_eq!(CommandType::GetSensors.max_payload_size(), 18);
}
