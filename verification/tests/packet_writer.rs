//! Writing messages in packets.

use mssql_tds::io::packet_writer::{PacketWriter, PACKET_HEADER_SIZE};
use mssql_tds::message::PacketType;

/// The bytes of the packets that are complete.
fn sent(writer: &mut PacketWriter) -> Vec<u8> {
    let mut data = Vec::new();
    for packet in writer.take_packets() {
        data.extend_from_slice(&packet.bytes);
    }
    data
}

#[test]
fn test_write_byte_async() {
    let mut writer = PacketWriter::new(PacketType::TabularResult, 8, None);
    writer.write_byte(0xAB);
    assert_eq!(writer.get_cursor()[8..], vec![0xAB]);
}

#[test]
fn test_write_i16_async() {
    let mut writer = PacketWriter::new(PacketType::TabularResult, 8, None);
    writer.write_i16(0x1234);
    assert_eq!(
        writer.get_cursor()[8..],
        0x1234i16.to_le_bytes()
    );
}

#[test]
fn test_write_u32_async() {
    let mut writer = PacketWriter::new(PacketType::TabularResult, 8, None);
    writer.write_u32(0xDEADBEEF);
    assert_eq!(
        writer.get_cursor()[8..],
        0xDEADBEEFu32.to_le_bytes()
    );
}

#[test]
fn test_write_i64_async() {
    let mut writer = PacketWriter::new(PacketType::TabularResult, 16, None);
    writer.write_i64(0x1122334455667788);
    // The packet is full and complete
    assert_eq!(
        sent(&mut writer)[8..],
        0x1122334455667788i64.to_le_bytes()
    );
}

#[test]
fn test_write_i64_overflow_async() {
    let mut writer = PacketWriter::new(PacketType::TabularResult, 16, None);
    writer.write_i32(0x1234);
    writer.write_i64(0x1122334455667788);
    let sent_data = sent(&mut writer);
    assert_eq!(sent_data[8..12], 0x1234i32.to_le_bytes());
}

#[test]
fn test_finalize_with_data() {
    let mut writer = PacketWriter::new(PacketType::TabularResult, 16, None);
    writer.write_byte(0xAB);
    writer.finalize();
    assert_eq!(
        writer.unchecked_position() as u64,
        PACKET_HEADER_SIZE as u64
    );
    assert_eq!(writer.packet_id(), 2);
}

#[test]
fn test_finalize_without_data() {
    let mut writer = PacketWriter::new(PacketType::TabularResult, 16, None);
    writer.finalize();
    assert_eq!(
        writer.unchecked_position() as u64,
        PACKET_HEADER_SIZE as u64
    );
    assert_eq!(writer.packet_id(), 1);
}

#[test]
fn test_write_at_index() {
    let mut writer = PacketWriter::new(PacketType::TabularResult, 16, None);

    writer.write_byte(0xAB);
    writer.write_byte(0xAB);
    writer.write_byte(0xAB);
    writer.write_byte(0xAB);
    writer.write_byte(0xAB);
    writer.write_byte(0xAB);
    writer.write_byte(0xAB);
    let value: i32 = 1234;
    assert_eq!(
        writer.get_cursor()[8..12],
        [0xAB, 0xAB, 0xAB, 0xAB]
    );
    writer.write_i32_at_index(0, value);
    assert_eq!(
        writer.get_cursor()[8..12],
        value.to_le_bytes()
    );
}

#[test]
fn test_write_string_overflow() {
    let packet_size: usize = 16;
    let mut writer = PacketWriter::new(PacketType::TabularResult, packet_size as u32, None);
    let str_value = "a very very very very very very very very very very very very long string";
    writer.write_string_unicode(str_value);
    writer.finalize();

    let mut string_vec: Vec<u8> = Vec::new();
    let sent_data = sent(&mut writer);
    let data = sent_data;
    let mut chunks = data.len() / packet_size;
    if data.len() % packet_size != 0 {
        chunks += 1;
    }
    for i in 0..chunks {
        let start = i * packet_size;
        let mut end = start + packet_size;
        if end > data.len() {
            end = data.len();
        }
        string_vec.extend_from_slice(&data[start + 8..end]);
    }

    let utf16_units = string_vec
        .chunks_exact(2)
        .map(|chunk| u16::from_le_bytes(chunk.try_into().unwrap()))
        .collect::<Vec<u16>>();

    // get the utf18 value from string_vec
    let utf16_value = String::from_utf16(&utf16_units).unwrap();

    assert_eq!(utf16_value, str_value);
}

#[test]
fn test_has_space_available() {
    let writer = PacketWriter::new(PacketType::TabularResult, 32, None);

    // With packet size 32 and header 8, we have 24 bytes available
    // Should have space for 8 bytes
    assert!(writer.has_space(8), "Should have space for 8 bytes");
}

#[test]
fn test_has_space_within_packet() {
    let mut writer = PacketWriter::new(PacketType::TabularResult, 16, None);

    // Write some data first
    writer.write_i32(0x1234);

    // Now we have 4 bytes remaining in the 8-byte payload.
    // Asking for 4 bytes should return true
    assert!(writer.has_space(4), "Should have space for 4 bytes");
}

#[test]
fn test_has_space_exceeds_packet() {
    let mut writer = PacketWriter::new(PacketType::TabularResult, 16, None);

    // Fill buffer partially (packet size 16, header 8 = 8 bytes available)
    writer.write_i32(0x1234);

    // 4 bytes used, 4 remaining. Asking for 8 bytes exceeds packet boundary
    assert!(
        !writer.has_space(8),
        "Should not have space for 8 bytes (would exceed packet)"
    );
}

#[test]
fn test_write_byte_unchecked() {
    let mut writer = PacketWriter::new(PacketType::TabularResult, 16, None);

    writer.write_byte_unchecked(0xAB);
    writer.write_byte_unchecked(0xCD);

    assert_eq!(
        writer.get_cursor()[8..10],
        [0xAB, 0xCD]
    );
}

#[test]
fn test_write_i32_unchecked() {
    let mut writer = PacketWriter::new(PacketType::TabularResult, 16, None);

    writer.write_i32_unchecked(0x12345678);

    assert_eq!(
        writer.get_cursor()[8..12],
        0x12345678i32.to_le_bytes()
    );
}

#[test]
fn test_write_u16_unchecked() {
    let mut writer = PacketWriter::new(PacketType::TabularResult, 16, None);

    writer.write_u16_unchecked(0xABCD);

    assert_eq!(
        writer.get_cursor()[8..10],
        0xABCDu16.to_le_bytes()
    );
}

#[test]
fn test_write_i64_unchecked() {
    let mut writer = PacketWriter::new(PacketType::TabularResult, 24, None);

    writer.write_i64_unchecked(0x123456789ABCDEF0);

    assert_eq!(
        writer.get_cursor()[8..16],
        0x123456789ABCDEF0i64.to_le_bytes()
    );
}

#[test]
fn test_write_f64_unchecked() {
    let mut writer = PacketWriter::new(PacketType::TabularResult, 24, None);

    let value: f64 = 3.12312312312312;
    writer.write_f64_unchecked(value.to_bits());

    assert_eq!(
        writer.get_cursor()[8..16],
        value.to_le_bytes()
    );
}

#[test]
fn test_write_unchecked() {
    let mut writer = PacketWriter::new(PacketType::TabularResult, 24, None);

    let data = [0x01, 0x02, 0x03, 0x04, 0x05];
    writer.write_unchecked(&data);

    assert_eq!(writer.get_cursor()[8..13], data);
}

#[test]
fn test_unchecked_batch_writes() {
    let mut writer = PacketWriter::new(PacketType::TabularResult, 32, None);

    // Batch write using unchecked methods
    writer.write_byte_unchecked(0x01);
    writer.write_u16_unchecked(0x0203);
    writer.write_i32_unchecked(0x04050607);
    writer.write_i64_unchecked(0x08090A0B0C0D0E0F);

    let buffer = writer.get_cursor();
    assert_eq!(buffer[8], 0x01);
    assert_eq!(buffer[9..11], 0x0203u16.to_le_bytes());
    assert_eq!(buffer[11..15], 0x04050607i32.to_le_bytes());
    assert_eq!(buffer[15..23], 0x08090A0B0C0D0E0Fi64.to_le_bytes());
}

#[test]
fn test_check_overflow_manual() {
    let mut writer = PacketWriter::new(PacketType::TabularResult, 16, None);

    // Fill to capacity
    writer.write_i32(0x1234);
    writer.write_i32(0x5678);

    // Manual overflow check
    writer.check_overflow();

    // Now write more data
    writer.write_i32_unchecked(0x9ABC);

    // Verify the i32 was written correctly
    assert_eq!(
        writer.get_cursor()[8..12],
        0x9ABCi32.to_le_bytes()
    );

    // Verify data was sent
    let sent_data = sent(&mut writer);
    assert!(!sent_data.is_empty());
}

#[test]
fn test_cursor_position_after_overflow() {
    let mut writer = PacketWriter::new(PacketType::TabularResult, 20, None); // Header 8 + payload 12

    // Write data (10 bytes) that is less than payload capacity (12 bytes)
    writer.write_i16(0x1234); // 2 bytes

    // This i64 write (8 bytes) will cause overflow:
    // Total would be 10 bytes, which exceeds 12 byte capacity
    // After write, cursor at 18 (header 8 + 10 bytes)
    // handle_overflow triggers:
    // 1. position() = 10, which is < 12, so no overflow... wait this won't trigger!

    // Let me use a case that actually overflows
    writer.write_i32(0x5678); // 4 more bytes, total 6
    writer.write_i32(0x9ABC); // 4 more bytes, total 10

    // Now write i64 (8 bytes). Total would be 18 bytes.
    // position() after i64 write = 18, max_payload = 12
    // This triggers overflow
    writer.write_i64(0x123456789ABCDEF0);

    // After overflow:
    // 1. First packet sent (header 8 + first 12 bytes of payload)
    // 2. Overflow = 18 - 20 = -2? No wait, cursor is at 26 (8 header + 18 payload)
    //    packet_size = 20, so overflow_length = 26 - 20 = 6
    // 3. Copies 6 bytes from position 20-26 to position 8-14
    // 4. Sets cursor to 8 + 6 = 14
    assert_eq!(
        writer.unchecked_position() as u64,
        (PACKET_HEADER_SIZE + 6) as u64
    );
}

#[test]
fn test_streaming_utf16_write() {
    let mut writer = PacketWriter::new(PacketType::TabularResult, 64, None);

    let test_string = "Hello";
    writer.write_string_unicode(test_string);

    // Verify UTF-16LE encoding
    let buffer = writer.get_cursor();
    let utf16_bytes = &buffer[8..18]; // "Hello" = 5 chars * 2 bytes = 10 bytes

    let utf16_units: Vec<u16> = utf16_bytes
        .chunks_exact(2)
        .map(|chunk| u16::from_le_bytes(chunk.try_into().unwrap()))
        .collect();

    let decoded = String::from_utf16(&utf16_units).unwrap();
    assert_eq!(decoded, test_string);
}

#[test]
fn test_streaming_utf16_odd_byte_boundary() {
    // Test case: packet with odd payload size (21 bytes available)
    // Packet size 29 = 8 (header) + 21 (payload)
    let packet_size = 29;
    let mut writer = PacketWriter::new(PacketType::TabularResult, packet_size, None);

    // String with 12 characters = 24 bytes in UTF-16LE
    // With 21 bytes available: can fit 10 units (20 bytes) + 1 byte of next unit
    // Optimization: use the odd byte for the low byte of the 11th u16
    let test_string = "HelloWorld12";
    writer.write_string_unicode(test_string);
    writer.finalize();

    // Reconstruct the string from all packets
    let mut string_vec: Vec<u8> = Vec::new();
    let sent_data = sent(&mut writer);
    let data = &sent_data;

    // Parse packets - each packet starts with header
    let mut offset = 0;
    let mut first_packet_payload_len = 0;
    while offset < data.len() {
        if offset + 4 > data.len() {
            break;
        }
        let packet_len = u16::from_be_bytes([data[offset + 2], data[offset + 3]]) as usize;
        if offset + packet_len > data.len() {
            break;
        }
        // Extract payload (skip 8-byte header)
        let payload_len = packet_len - 8;
        if first_packet_payload_len == 0 {
            first_packet_payload_len = payload_len;
        }
        string_vec.extend_from_slice(&data[offset + 8..offset + packet_len]);
        offset += packet_len;
    }

    let utf16_units: Vec<u16> = string_vec
        .chunks_exact(2)
        .map(|chunk| u16::from_le_bytes(chunk.try_into().unwrap()))
        .collect();

    let decoded = String::from_utf16(&utf16_units).unwrap();
    assert_eq!(decoded, test_string);

    // Verify we sent multiple packets (string doesn't fit in one packet)
    assert!(
        sent_data.len() > packet_size as usize,
        "Should have sent multiple packets"
    );

    // After optimization: should use all 21 bytes (10 u16 units + 1 byte)
    assert_eq!(
        first_packet_payload_len, 21,
        "Should use all 21 bytes including the odd byte"
    );
}

/// Test that write_async handles very large data without stack overflow.
/// This test reproduces issue #41685 where a 50MB+ string caused a segfault
/// due to deep recursion in write_async (943+ recursive calls).
///
/// The fix converts write_async from a recursive approach to an iterative one.
#[test]
fn test_write_async_large_data_no_stack_overflow() {
    // Use a realistic packet size (4096 bytes, so 4088 bytes payload)
    let packet_size: usize = 4096;
    let mut writer = PacketWriter::new(PacketType::TabularResult, packet_size as u32, None);

    // Create a large byte array that would require many packets
    // 10MB = 10485760 bytes, with 4088 byte payload = ~2565 packets/recursive calls
    // With the OLD recursive approach, this causes stack overflow
    // With the NEW iterative approach, this works fine
    let data_size = 50 * 1024 * 1024; // 10MB - definitely causes stack overflow with recursion
    let large_data: Vec<u8> = (0..data_size).map(|i| (i % 256) as u8).collect();

    writer.write(&large_data);
    writer.finalize();

    // Reconstruct data from packets
    let mut reconstructed: Vec<u8> = Vec::new();
    let sent_data = sent(&mut writer);
    let data = &sent_data;
    let mut offset = 0;

    while offset < data.len() {
        if offset + 4 > data.len() {
            break;
        }
        let packet_len = u16::from_be_bytes([data[offset + 2], data[offset + 3]]) as usize;
        if offset + packet_len > data.len() {
            break;
        }
        // Extract payload (skip 8-byte header)
        reconstructed.extend_from_slice(&data[offset + 8..offset + packet_len]);
        offset += packet_len;
    }

    assert_eq!(reconstructed.len(), large_data.len());
    assert_eq!(reconstructed, large_data);
}

/// Test write_async with data that spans exactly the packet boundary
#[test]
fn test_write_async_exact_packet_boundary() {
    let packet_size: usize = 16; // 8 bytes payload
    let mut writer = PacketWriter::new(PacketType::TabularResult, packet_size as u32, None);

    // Write exactly 8 bytes (fills one packet payload)
    let data = [0x01, 0x02, 0x03, 0x04, 0x05, 0x06, 0x07, 0x08];
    writer.write(&data);
    writer.finalize();

    // Should have sent one complete packet
    let sent_data = sent(&mut writer);
    assert_eq!(sent_data.len(), packet_size);
    assert_eq!(&sent_data[8..16], &data);
}

/// Test write_async with data spanning multiple packets
#[test]
fn test_write_async_multiple_packets() {
    let packet_size: usize = 16; // 8 bytes payload
    let mut writer = PacketWriter::new(PacketType::TabularResult, packet_size as u32, None);

    // Write 24 bytes (needs 3 packets with 8-byte payload each)
    let data: Vec<u8> = (0..24).collect();
    writer.write(&data);
    writer.finalize();

    // Reconstruct and verify
    let mut reconstructed: Vec<u8> = Vec::new();
    let sent = sent(&mut writer);
    let mut offset = 0;

    while offset < sent.len() {
        let packet_len = u16::from_be_bytes([sent[offset + 2], sent[offset + 3]]) as usize;
        reconstructed.extend_from_slice(&sent[offset + 8..offset + packet_len]);
        offset += packet_len;
    }

    assert_eq!(reconstructed, data);
}

#[test]
fn test_zero_timeout_treated_as_infinite() {
    let packet_size: usize = 4096;
    let writer = PacketWriter::new(PacketType::TabularResult, packet_size as u32, Some(0));
    assert!(
        writer.max_timeout_sec().is_none(),
        "timeout=0 should be normalised to None (infinite)"
    );
}

#[test]
fn test_positive_timeout_preserved() {
    let packet_size: usize = 4096;
    let writer = PacketWriter::new(PacketType::TabularResult, packet_size as u32, Some(30));
    assert_eq!(writer.max_timeout_sec(), Some(30));
}

#[test]
fn test_none_timeout_stays_none() {
    let packet_size: usize = 4096;
    let writer = PacketWriter::new(PacketType::TabularResult, packet_size as u32, None);
    assert!(writer.max_timeout_sec().is_none());
}

#[test]
fn a_cancelled_message_ends_with_a_header() {
    let mut writer = PacketWriter::new(PacketType::SqlBatch, 512, None);
    writer.write_i32(7);
    writer.cancel_current_message();
    let packets = writer.take_packets();
    assert_eq!(packets.len(), 1);
    assert_eq!(packets[0].bytes, vec![0x01, 0x03, 0, 8, 0, 0, 1, 0]);
}

#[test]
fn the_packets_of_a_message_are_full_and_numbered() {
    let data: Vec<u8> = (0..2100u32).map(|i| (i % 251) as u8).collect();
    let mut writer = PacketWriter::new(PacketType::SqlBatch, 16, None);
    writer.write(&data);
    writer.finalize();
    let packets = writer.take_packets();
    assert_eq!(packets.len(), 263);
    let mut payload = Vec::new();
    for (i, packet) in packets.iter().enumerate() {
        let bytes = &packet.bytes;
        let last = i == packets.len() - 1;
        assert_eq!(bytes.len(), if last { 12 } else { 16 });
        assert_eq!(bytes[0], 0x01);
        assert_eq!(bytes[1], if last { 1 } else { 0 });
        assert_eq!(u16::from_be_bytes([bytes[2], bytes[3]]) as usize, bytes.len());
        assert_eq!(bytes[6] as usize, (1 + i) % 256);
        assert_eq!(packet.is_first, i == 0);
        payload.extend_from_slice(&bytes[PACKET_HEADER_SIZE..]);
    }
    assert_eq!(payload, data);
}
