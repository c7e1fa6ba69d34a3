use spark_ble::spark_message::{
    AppToSparkMsg, BlockHeader, ChunkHeader, Direction, SparkMsgDecoder, SparkMsgEncoder,
    SparkToAppMsg, BLOCK_MAGIC, MAX_BLOCK_SIZE, MAX_CHUNK_SIZE,
};

fn reply_block(
    direction_tag: [u8; 2],
    sequence: u8,
    command: u8,
    sub_command: u8,
    raw: &[u8],
) -> Vec<u8> {
    let packed = SparkMsgEncoder::encode_7bit(raw);
    let checksum = packed.iter().fold(0u8, |acc, b| acc ^ b);
    let mut block = vec![0x01, 0xFE, 0x00, 0x00, direction_tag[0], direction_tag[1]];
    block.push((16 + 6 + packed.len() + 1) as u8);
    block.extend_from_slice(&[0; 9]);
    block.extend_from_slice(&[0xF0, 0x01, sequence, checksum, command, sub_command]);
    block.extend_from_slice(&packed);
    block.push(0xF7);
    block
}

fn from_spark(sequence: u8, command: u8, sub_command: u8, raw: &[u8]) -> Vec<u8> {
    reply_block([0x41, 0xFF], sequence, command, sub_command, raw)
}

fn amp_name(block: &[u8]) -> Option<(u8, String)> {
    match SparkMsgDecoder.decode(block) {
        Some(SparkToAppMsg::AmpName { sequence, name }) => Some((sequence, name)),
        None => None,
    }
}

#[test]
fn constants_fit_together() {
    assert_eq!(BLOCK_MAGIC, 0x01FE_0000);
    assert_eq!(MAX_BLOCK_SIZE, 0xAD);
    assert_eq!(MAX_CHUNK_SIZE, 150);
    assert_eq!(MAX_CHUNK_SIZE + 16 + 6 + 1, MAX_BLOCK_SIZE);
}

#[test]
fn direction_tags() {
    assert_eq!(Direction::ToSpark.tag(), 0x53FE);
    assert_eq!(Direction::FromSpark.tag(), 0x41FF);
}

#[test]
fn opcodes_and_payloads() {
    assert_eq!(AppToSparkMsg::GetAmpName.opcode(), (0x02, 0x11));
    assert_eq!(AppToSparkMsg::GetAmpName.encode_payload(), Vec::<u8>::new());
    assert_eq!(AppToSparkMsg::SetHardwarePreset(3).opcode(), (0x01, 0x38));
    assert_eq!(AppToSparkMsg::SetHardwarePreset(3).encode_payload(), vec![0x00, 0x03]);
}

#[test]
fn block_header_is_big_endian() {
    let header = BlockHeader {
        magic: 0x0102_0304,
        direction: 0x0506,
        size: 0x07,
        _reserved: [8, 9, 10, 11, 12, 13, 14, 15, 16],
    };
    assert_eq!(
        header.to_bytes(),
        [1, 2, 3, 4, 5, 6, 7, 8, 9, 10, 11, 12, 13, 14, 15, 16]
    );
}

#[test]
fn block_header_reads_back() {
    let bytes = [
        0x01, 0xFE, 0x00, 0x00, 0x41, 0xFF, 0x2A, 1, 2, 3, 4, 5, 6, 7, 8, 9, 0xAA, 0xBB,
    ];
    let header = BlockHeader::read_from_prefix(&bytes).expect("sixteen bytes are enough");
    assert_eq!(header.magic, 0x01FE_0000);
    assert_eq!(header.direction, 0x41FF);
    assert_eq!(header.size, 0x2A);
    assert_eq!(header._reserved, [1, 2, 3, 4, 5, 6, 7, 8, 9]);
    assert_eq!(header.to_bytes().to_vec(), bytes[..16].to_vec());
    assert!(BlockHeader::read_from_prefix(&bytes[..15]).is_none());
    assert!(BlockHeader::read_from_prefix(&[]).is_none());
}

#[test]
fn chunk_header_bytes() {
    let header = ChunkHeader {
        start: 0xF0,
        sysex_id: 0x01,
        sequence: 0x22,
        checksum: 0x33,
        command: 0x44,
        sub_command: 0x55,
    };
    assert_eq!(header.to_bytes(), [0xF0, 0x01, 0x22, 0x33, 0x44, 0x55]);
    let read = ChunkHeader::read_from_prefix(&[0xF0, 0x01, 0x22, 0x33, 0x44, 0x55, 0x66])
        .expect("six bytes are enough");
    assert_eq!(read.to_bytes(), header.to_bytes());
    assert!(ChunkHeader::read_from_prefix(&[0xF0, 0x01, 0x22, 0x33, 0x44]).is_none());
}

#[test]
fn get_amp_name_is_one_block() {
    let mut encoder = SparkMsgEncoder::new();
    let blocks = encoder.encode(AppToSparkMsg::GetAmpName);
    assert_eq!(
        blocks,
        vec![vec![
            0x01, 0xFE, 0x00, 0x00, 0x53, 0xFE, 0x17, 0, 0, 0, 0, 0, 0, 0, 0, 0, 0xF0, 0x01, 0x00,
            0x00, 0x02, 0x11, 0xF7,
        ]]
    );
}

#[test]
fn set_hardware_preset_block() {
    let mut encoder = SparkMsgEncoder::new();
    let blocks = encoder.encode(AppToSparkMsg::SetHardwarePreset(2));
    assert_eq!(
        blocks,
        vec![vec![
            0x01, 0xFE, 0x00, 0x00, 0x53, 0xFE, 0x1A, 0, 0, 0, 0, 0, 0, 0, 0, 0, 0xF0, 0x01, 0x00,
            0x02, 0x01, 0x38, 0x00, 0x00, 0x02, 0xF7,
        ]]
    );
}

#[test]
fn checksum_is_xor_of_packed_payload() {
    let mut encoder = SparkMsgEncoder::new();
    let blocks = encoder.encode_command(0x01, 0x02, &[0x81, 0x03, 0x05]);
    assert_eq!(blocks.len(), 1);
    assert_eq!(&blocks[0][22..26], &[0x01, 0x01, 0x03, 0x05]);
    assert_eq!(blocks[0][19], 0x01 ^ 0x01 ^ 0x03 ^ 0x05);
}

#[test]
fn sequence_runs_on_across_messages() {
    let mut encoder = SparkMsgEncoder::new();
    for expected in 0..600usize {
        let msg = if expected % 2 == 0 {
            AppToSparkMsg::GetAmpName
        } else {
            AppToSparkMsg::SetHardwarePreset(1)
        };
        let blocks = encoder.encode(msg);
        assert_eq!(blocks.len(), 1);
        assert_eq!(blocks[0][18], (expected % 256) as u8);
    }
}

#[test]
fn sequence_wraps_after_255() {
    let mut encoder = SparkMsgEncoder::new();
    for _ in 0..255 {
        encoder.encode(AppToSparkMsg::GetAmpName);
    }
    assert_eq!(encoder.encode(AppToSparkMsg::GetAmpName)[0][18], 255);
    assert_eq!(encoder.encode(AppToSparkMsg::GetAmpName)[0][18], 0);
    assert_eq!(encoder.encode(AppToSparkMsg::GetAmpName)[0][18], 1);
}

#[test]
fn long_payload_is_split_into_chunks() {
    let raw: Vec<u8> = (0..7 * 40usize).map(|i| (i * 7) as u8).collect();
    let packed = SparkMsgEncoder::encode_7bit(&raw);
    assert_eq!(packed.len(), 8 * 40);
    let mut encoder = SparkMsgEncoder::new();
    encoder.encode(AppToSparkMsg::GetAmpName);
    let blocks = encoder.encode_command(0x01, 0x01, &raw);
    assert_eq!(blocks.len(), (packed.len() + MAX_CHUNK_SIZE - 1) / MAX_CHUNK_SIZE);
    assert_eq!(blocks.len(), 3);
    assert_eq!(blocks[0].len(), 173);
    assert_eq!(blocks[1].len(), 173);
    assert_eq!(blocks[2].len(), 23 + 20);
    let mut joined: Vec<u8> = Vec::new();
    for (i, block) in blocks.iter().enumerate() {
        assert!(block.len() <= MAX_BLOCK_SIZE);
        assert_eq!(block[6] as usize, block.len());
        assert_eq!(*block.last().unwrap(), 0xF7);
        let (sequence, command, sub_command, payload) =
            SparkMsgDecoder::decode_block(block, Direction::ToSpark).expect("own block parses");
        assert_eq!((sequence, command, sub_command), (1 + i as u8, 0x01, 0x01));
        assert_eq!(block[19], payload.iter().fold(0u8, |acc, b| acc ^ b));
        assert!(SparkMsgDecoder::decode_block(block, Direction::FromSpark).is_none());
        assert!(SparkMsgDecoder.decode(block).is_none());
        joined.extend_from_slice(payload);
    }
    assert_eq!(joined, packed);
    assert_eq!(SparkMsgDecoder::decode_7bit(&joined), raw);
}

#[test]
fn payload_of_exactly_one_chunk() {
    let raw = vec![0x11u8; 132];
    assert_eq!(SparkMsgEncoder::encode_7bit(&raw).len(), 151);
    let raw = vec![0x11u8; 131];
    assert_eq!(SparkMsgEncoder::encode_7bit(&raw).len(), 150);
    let mut encoder = SparkMsgEncoder::new();
    let blocks = encoder.encode_command(0x05, 0x06, &raw);
    assert_eq!(blocks.len(), 1);
    assert_eq!(blocks[0].len(), MAX_BLOCK_SIZE);
    let blocks = encoder.encode_command(0x05, 0x06, &vec![0x11u8; 132]);
    assert_eq!(blocks.len(), 2);
    assert_eq!(blocks[0].len(), MAX_BLOCK_SIZE);
    assert_eq!(blocks[1].len(), 24);
    assert_eq!(blocks[0][18], 1);
    assert_eq!(blocks[1][18], 2);
}

#[test]
fn encode_then_decode_each_message() {
    let mut encoder = SparkMsgEncoder::new();
    let mut next: u8 = 0;
    for msg in [
        AppToSparkMsg::GetAmpName,
        AppToSparkMsg::SetHardwarePreset(0),
        AppToSparkMsg::SetHardwarePreset(4),
        AppToSparkMsg::SetHardwarePreset(0xFF),
    ] {
        let (command, sub_command) = msg.opcode();
        for block in encoder.encode(msg) {
            let (sequence, c, s, payload) =
                SparkMsgDecoder::decode_block(&block, Direction::ToSpark).expect("parses");
            assert_eq!((sequence, c, s), (next, command, sub_command));
            assert_eq!(SparkMsgDecoder::decode_7bit(payload), msg.encode_payload());
            next = next.wrapping_add(1);
        }
    }
}

#[test]
fn decode_rejects_short_blocks() {
    assert!(SparkMsgDecoder.decode(&[]).is_none());
    let block = from_spark(0, 0x03, 0x11, &[0]);
    assert!(block.len() > 23);
    assert!(SparkMsgDecoder.decode(&block[..22]).is_none());
    assert!(SparkMsgDecoder::decode_block(&block[..22], Direction::FromSpark).is_none());
    let empty = from_spark(9, 0x03, 0x11, &[]);
    assert_eq!(empty.len(), 23);
    assert_eq!(
        SparkMsgDecoder::decode_block(&empty, Direction::FromSpark),
        Some((9, 0x03, 0x11, &[][..]))
    );
    assert!(SparkMsgDecoder.decode(&empty).is_none());
}

#[test]
fn decode_rejects_wrong_magic() {
    let mut block = from_spark(0, 0x03, 0x11, &[5, b'S', b'p', b'a', b'r', b'k']);
    assert!(amp_name(&block).is_some());
    block[0] = 0x00;
    assert!(amp_name(&block).is_none());
    let mut swapped = from_spark(0, 0x03, 0x11, &[5, b'S', b'p', b'a', b'r', b'k']);
    swapped[..4].copy_from_slice(&[0x00, 0x00, 0xFE, 0x01]);
    assert!(amp_name(&swapped).is_none());
}

#[test]
fn decode_rejects_wrong_direction() {
    let raw = [5, b'S', b'p', b'a', b'r', b'k'];
    assert!(amp_name(&reply_block([0x53, 0xFE], 0, 0x03, 0x11, &raw)).is_none());
    assert!(amp_name(&reply_block([0xFF, 0x41], 0, 0x03, 0x11, &raw)).is_none());
    assert!(amp_name(&reply_block([0x41, 0xFF], 0, 0x03, 0x11, &raw)).is_some());
}

#[test]
fn decode_rejects_wrong_start_or_vendor() {
    let raw = [5, b'S', b'p', b'a', b'r', b'k'];
    let mut block = from_spark(0, 0x03, 0x11, &raw);
    block[16] = 0xF1;
    assert!(amp_name(&block).is_none());
    let mut block = from_spark(0, 0x03, 0x11, &raw);
    block[17] = 0x02;
    assert!(amp_name(&block).is_none());
}

#[test]
fn decode_drops_unknown_command() {
    let block = from_spark(4, 0x09, 0x99, &[5, b'S', b'p', b'a', b'r', b'k']);
    assert!(SparkMsgDecoder::decode_block(&block, Direction::FromSpark).is_some());
    assert!(SparkMsgDecoder.decode(&block).is_none());
    assert!(SparkMsgDecoder.decode(&from_spark(4, 0x03, 0x12, &[0])).is_none());
    assert!(SparkMsgDecoder.decode(&from_spark(4, 0x02, 0x11, &[0])).is_none());
}

#[test]
fn get_amp_name_then_reply() {
    let mut encoder = SparkMsgEncoder::new();
    encoder.encode(AppToSparkMsg::SetHardwarePreset(1));
    let request = encoder.encode(AppToSparkMsg::GetAmpName);
    let sequence = request[0][18];
    assert_eq!(sequence, 1);
    let reply = from_spark(sequence, 0x03, 0x11, &[5, b'S', b'p', b'a', b'r', b'k']);
    assert_eq!(amp_name(&reply), Some((sequence, String::from("Spark"))));
}

#[test]
fn amp_name_takes_only_counted_bytes() {
    let reply = from_spark(7, 0x03, 0x11, &[3, b'A', b'm', b'p', b'!', b'!']);
    assert_eq!(amp_name(&reply), Some((7, String::from("Amp"))));
    let reply = from_spark(7, 0x03, 0x11, &[0]);
    assert_eq!(amp_name(&reply), Some((7, String::new())));
}

#[test]
fn amp_name_with_high_bytes() {
    let name = "Verstärker €";
    let mut raw = vec![name.len() as u8];
    raw.extend_from_slice(name.as_bytes());
    let reply = from_spark(0xFE, 0x03, 0x11, &raw);
    assert!(reply[22..reply.len() - 1].iter().all(|b| *b < 0x80));
    assert_eq!(amp_name(&reply), Some((0xFE, String::from(name))));
}

#[test]
fn amp_name_cut_short_is_dropped() {
    assert!(amp_name(&from_spark(0, 0x03, 0x11, &[])).is_none());
    assert!(amp_name(&from_spark(0, 0x03, 0x11, &[6, b'S', b'p', b'a', b'r', b'k'])).is_none());
    assert!(amp_name(&from_spark(0, 0x03, 0x11, &[0xFF])).is_none());
}

#[test]
fn amp_name_that_is_not_utf8_is_dropped() {
    assert!(amp_name(&from_spark(0, 0x03, 0x11, &[2, 0xC3, 0x28])).is_none());
    assert!(amp_name(&from_spark(0, 0x03, 0x11, &[1, 0xFF])).is_none());
    assert!(amp_name(&from_spark(0, 0x03, 0x11, &[3, 0xED, 0xA0, 0x80])).is_none());
}

#[test]
fn last_byte_of_block_is_not_payload() {
    let mut reply = from_spark(3, 0x03, 0x11, &[1, b'A']);
    let last = reply.len() - 1;
    reply[last] = b'Z';
    assert_eq!(amp_name(&reply), Some((3, String::from("A"))));
}

#[test]
fn decode_survives_arbitrary_bytes() {
    let mut seed: u32 = 0x1234_5678;
    for len in 0..200usize {
        let mut block = Vec::with_capacity(len);
        for _ in 0..len {
            seed = seed.wrapping_mul(1_664_525).wrapping_add(1_013_904_223);
            block.push((seed >> 24) as u8);
        }
        let _ = SparkMsgDecoder.decode(&block);
        if len >= 23 {
            block[..6].copy_from_slice(&[0x01, 0xFE, 0x00, 0x00, 0x41, 0xFF]);
            block[16] = 0xF0;
            block[17] = 0x01;
            block[20] = 0x03;
            block[21] = 0x11;
            let _ = SparkMsgDecoder.decode(&block);
        }
    }
}
