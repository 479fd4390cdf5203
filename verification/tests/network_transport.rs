//! Transports: the read buffer, packets, encryption, and attentions.

use byteorder::{BigEndian, ByteOrder};
use mssql_tds::connection::connection_actions::{Platform, TransportContext};
use mssql_tds::connection::transport::buffers::PacketStep;
use mssql_tds::connection::transport::network_transport::{
    after_ack, before_ack, create_base_stream, create_transport_for_version, needs_attention,
    order_addresses, AckReading, AckStep, Attempt, BaseStream, NetworkTransport, PlainStream,
    SequentialConnect, SslRequest, Stream, TransportSetup, TransportSslHandler,
    PRE_NEGOTIATED_PACKET_SIZE,
};
use mssql_tds::error::{Error, ErrorKind, IoErrorKind, TdsResult, TimeoutErrorType};
use mssql_tds::settings::{
    EncryptionSetting, IPAddressPreference, NegotiatedEncryptionSetting, TdsVersion,
};
use mssql_tds::token::{DoneToken, InfoToken, Tokens, DONE_ATTN, DONE_MORE};

fn transport(packet_size: u32) -> NetworkTransport {
    NetworkTransport::new(packet_size, EncryptionSetting::On, false)
}

/// Reads a packet into the buffer, from bytes that have come from a server. Each read gets as much as
/// there is room for.
fn get_new_tds_packet(transport: &mut NetworkTransport, stream: &mut Vec<u8>) -> TdsResult<usize> {
    let buffer = &mut transport.tds_read_buffer;
    let mut assembly = buffer.begin_packet()?;
    loop {
        match buffer.packet_step(&assembly)? {
            PacketStep::Complete(len) => return Ok(len),
            PacketStep::Read(room) => {
                let n = room.min(stream.len());
                let data: Vec<u8> = stream.drain(..n).collect();
                buffer.receive(&mut assembly, &data)?;
            }
        }
    }
}

#[test]
fn test_tds_transport_reset_reader_resizes_buffer_after_packet_size_change() {
    let initial_packet_size: u32 = 4096;
    let negotiated_packet_size: u32 = 8000;

    let mut transport = transport(initial_packet_size);

    // Verify initial state: buffer sized for 4096 packets
    assert_eq!(transport.packet_size, initial_packet_size);
    assert_eq!(transport.tds_read_buffer.working_buffer.len(), 8192); // 4096 * 2
    assert_eq!(transport.tds_read_buffer.max_packet_size, 4096);

    // Simulate packet size negotiation (what happens after login)
    transport.notify_session_setting_change(negotiated_packet_size);

    transport.reset_reader();

    assert_eq!(
        transport.tds_read_buffer.working_buffer.len(),
        16000,
        "Buffer should be resized to 8000 * 2 = 16000 bytes after reset_reader()"
    );
    assert_eq!(
        transport.tds_read_buffer.max_packet_size, 8000,
        "max_packet_size should be updated to 8000"
    );
    assert_eq!(
        transport.tds_read_buffer.buffer_position, 0,
        "buffer_position should be reset to 0"
    );
    assert_eq!(
        transport.tds_read_buffer.buffer_length, 0,
        "buffer_length should be reset to 0"
    );
}

#[test]
fn test_tds_transport_reset_reader_same_size_preserves_buffer() {
    let packet_size: u32 = 4096;
    let mut transport = transport(packet_size);

    // Verify initial buffer size
    let initial_buffer_len = transport.tds_read_buffer.working_buffer.len();
    assert_eq!(initial_buffer_len, 8192);

    // Call reset_reader - packet size hasn't changed
    transport.reset_reader();

    // Buffer size should remain the same (no unnecessary reallocation)
    assert_eq!(
        transport.tds_read_buffer.working_buffer.len(),
        initial_buffer_len
    );
    assert_eq!(transport.tds_read_buffer.max_packet_size, 4096);
}

#[test]
fn a_second_reset_changes_nothing() {
    let mut transport = transport(4096);
    transport.tds_read_buffer.working_buffer[20] = 9;
    transport.tds_read_buffer.buffer_length = 16;
    transport.tds_read_buffer.pending_bytes = 8;
    transport.tds_read_buffer.pending_bytes_offset = 16;
    let buffer = transport.tds_read_buffer.working_buffer.clone();
    for _ in 0..2 {
        transport.reset_reader();
        assert_eq!(transport.tds_read_buffer.working_buffer, buffer);
        assert_eq!(transport.tds_read_buffer.buffer_position, 0);
        assert_eq!(transport.tds_read_buffer.buffer_length, 0);
        assert_eq!(transport.tds_read_buffer.pending_bytes, 0);
        assert_eq!(transport.tds_read_buffer.pending_bytes_offset, 0);
    }

    transport.notify_session_setting_change(512);
    transport.reset_reader();
    assert_eq!(transport.tds_read_buffer.pending_bytes, 0);
    assert_eq!(transport.tds_read_buffer.working_buffer.len(), 1024);
}

#[test]
fn test_get_new_tds_packet_handles_multiple_packets_in_single_read() {
    let packet_size: u32 = 512;
    let mut transport = transport(packet_size);

    let packet1_payload = vec![0xAA; 24]; // 24 bytes of 0xAA
    let packet2_payload = vec![0xBB; 24]; // 24 bytes of 0xBB

    let packet1_total_len: u16 = 8 + packet1_payload.len() as u16; // 32 bytes
    let packet2_total_len: u16 = 8 + packet2_payload.len() as u16; // 32 bytes

    // Build packet 1
    let mut packet1 = vec![0u8; packet1_total_len as usize];
    packet1[0] = 0x04; // TDS_TABULAR_RESULT
    packet1[1] = 0x00; // Not EOM (more packets coming)
    BigEndian::write_u16(&mut packet1[2..4], packet1_total_len);
    packet1[6] = 0x01; // Packet ID
    packet1[8..].copy_from_slice(&packet1_payload);

    // Build packet 2
    let mut packet2 = vec![0u8; packet2_total_len as usize];
    packet2[0] = 0x04; // TDS_TABULAR_RESULT
    packet2[1] = 0x01; // EOM (end of message)
    BigEndian::write_u16(&mut packet2[2..4], packet2_total_len);
    packet2[6] = 0x02; // Packet ID
    packet2[8..].copy_from_slice(&packet2_payload);

    // Both packets come in one read
    let mut stream = packet1.clone();
    stream.extend_from_slice(&packet2);

    let size1 =
        get_new_tds_packet(&mut transport, &mut stream).expect("Failed to read first packet");
    assert_eq!(
        size1, packet1_total_len as usize,
        "First packet size mismatch"
    );

    let packet1_in_buffer = &transport.tds_read_buffer.working_buffer[0..size1];
    assert_eq!(
        packet1_in_buffer,
        &packet1[..],
        "First packet content mismatch"
    );

    // Check that pending_bytes was set correctly for the second packet
    assert_eq!(
        transport.tds_read_buffer.pending_bytes, packet2_total_len as usize,
        "pending_bytes should track the second packet"
    );

    // Reset buffer state to simulate processing the first packet
    transport.tds_read_buffer.buffer_length = 0;
    transport.tds_read_buffer.buffer_position = 0;

    // The second packet comes from the pending bytes
    let size2 =
        get_new_tds_packet(&mut transport, &mut stream).expect("Failed to read second packet");
    assert_eq!(
        size2, packet2_total_len as usize,
        "Second packet size mismatch"
    );

    let packet2_in_buffer = &transport.tds_read_buffer.working_buffer[0..size2];
    assert_eq!(
        packet2_in_buffer,
        &packet2[..],
        "Second packet content mismatch"
    );

    // After reading both packets, pending_bytes should be 0
    assert_eq!(
        transport.tds_read_buffer.pending_bytes, 0,
        "pending_bytes should be 0 after consuming all data"
    );
}

#[test]
fn test_get_new_tds_packet_single_packet_per_read() {
    let packet_size: u32 = 512;
    let mut transport = transport(packet_size);

    // Create a single TDS packet
    let payload = vec![0xCC; 100];
    let total_len: u16 = 8 + payload.len() as u16;

    let mut packet = vec![0u8; total_len as usize];
    packet[0] = 0x04; // TDS_TABULAR_RESULT
    packet[1] = 0x01; // EOM
    BigEndian::write_u16(&mut packet[2..4], total_len);
    packet[6] = 0x01;
    packet[8..].copy_from_slice(&payload);

    let mut stream = packet.clone();
    let size = get_new_tds_packet(&mut transport, &mut stream).expect("Failed to read packet");
    assert_eq!(size, total_len as usize);

    // Verify content
    let packet_in_buffer = &transport.tds_read_buffer.working_buffer[0..size];
    assert_eq!(packet_in_buffer, &packet[..]);

    // No pending bytes
    assert_eq!(transport.tds_read_buffer.pending_bytes, 0);
}

#[test]
fn test_multi_packet_coalescing_behavior_only() {
    let packet_size: u32 = 512;
    let mut transport = transport(packet_size);

    // Create two TDS packets with DIFFERENT payloads so we can verify correct data
    let packet1_payload: Vec<u8> = (0..24).map(|i| i as u8).collect(); // 0, 1, 2, ... 23
    let packet2_payload: Vec<u8> = (0..24).map(|i| (100 + i) as u8).collect(); // 100, ... 123

    let packet1_total_len: u16 = 8 + packet1_payload.len() as u16;
    let packet2_total_len: u16 = 8 + packet2_payload.len() as u16;

    // Build packet 1
    let mut packet1 = vec![0u8; packet1_total_len as usize];
    packet1[0] = 0x04; // TDS_TABULAR_RESULT
    packet1[1] = 0x00; // Not EOM
    BigEndian::write_u16(&mut packet1[2..4], packet1_total_len);
    packet1[6] = 0x01; // Packet ID = 1
    packet1[8..].copy_from_slice(&packet1_payload);

    // Build packet 2
    let mut packet2 = vec![0u8; packet2_total_len as usize];
    packet2[0] = 0x04; // TDS_TABULAR_RESULT
    packet2[1] = 0x01; // EOM
    BigEndian::write_u16(&mut packet2[2..4], packet2_total_len);
    packet2[6] = 0x02; // Packet ID = 2
    packet2[8..].copy_from_slice(&packet2_payload);

    let mut stream = packet1.clone();
    stream.extend_from_slice(&packet2);

    let size1 =
        get_new_tds_packet(&mut transport, &mut stream).expect("Failed to read first packet");
    assert_eq!(size1, packet1_total_len as usize, "First packet size wrong");

    let read_packet1_id = transport.tds_read_buffer.working_buffer[6];
    let read_packet1_payload: Vec<u8> = transport.tds_read_buffer.working_buffer[8..size1].to_vec();
    assert_eq!(
        &read_packet1_payload[..],
        &packet1_payload[..],
        "First packet payload corrupted"
    );
    assert_eq!(read_packet1_id, 0x01, "First packet should have ID=1");

    // The bytes that came after the first packet stay
    transport.tds_read_buffer.reset_to_length(0);

    // Nothing is left to be read: an attempt to would fail
    assert!(stream.is_empty());
    let size2 = get_new_tds_packet(&mut transport, &mut stream).expect("Second packet is lost");
    assert_eq!(
        size2, packet2_total_len as usize,
        "Second packet size wrong"
    );

    let read_packet2_id = transport.tds_read_buffer.working_buffer[6];
    let read_packet2_payload: Vec<u8> = transport.tds_read_buffer.working_buffer[8..size2].to_vec();
    assert_eq!(
        &read_packet2_payload[..],
        &packet2_payload[..],
        "Second packet payload corrupted - got wrong data!"
    );
    assert_eq!(read_packet2_id, 0x02, "Second packet should have ID=2");
}

#[test]
fn test_get_new_tds_packet_bounds_check_on_pending_bytes() {
    let packet_size: u32 = 512;
    let mut transport = transport(packet_size);
    let mut stream: Vec<u8> = Vec::new();

    // The offset points way past the end of the buffer
    let buffer_len = transport.tds_read_buffer.working_buffer.len();
    transport.tds_read_buffer.pending_bytes = 100;
    transport.tds_read_buffer.pending_bytes_offset = buffer_len + 1000; // Way out of bounds

    let result = get_new_tds_packet(&mut transport, &mut stream);
    assert!(
        result.is_err(),
        "Expected error for out-of-bounds pending_bytes_offset"
    );

    let err = result.unwrap_err();
    assert!(
        matches!(err, Error::ProtocolError(_)),
        "Expected ProtocolError, got {:?}",
        err
    );

    // More bytes than the buffer has
    transport.tds_read_buffer.reset_to_length(0);
    transport.tds_read_buffer.pending_bytes = buffer_len + 500; // Larger than buffer
    transport.tds_read_buffer.pending_bytes_offset = 0;

    let result = get_new_tds_packet(&mut transport, &mut stream);
    assert!(
        result.is_err(),
        "Expected error for oversized pending_bytes"
    );

    // No room for the bytes behind the payload
    transport.tds_read_buffer.reset_to_length(buffer_len - 10);
    transport.tds_read_buffer.pending_bytes = 100; // 100 bytes won't fit at dest
    transport.tds_read_buffer.pending_bytes_offset = 0; // src is valid

    let result = get_new_tds_packet(&mut transport, &mut stream);
    assert!(
        result.is_err(),
        "Expected error when dest range exceeds buffer"
    );
}

#[test]
fn test_get_new_tds_packet_validates_packet_length_from_header() {
    let packet_size: u32 = 512;

    // Packet length smaller than header size (8 bytes)
    {
        let mut transport = transport(packet_size);
        let mut malformed_packet = vec![0u8; 16];
        malformed_packet[0] = 0x04; // TDS_TABULAR_RESULT
        malformed_packet[1] = 0x01; // EOM
        BigEndian::write_u16(&mut malformed_packet[2..4], 4); // Invalid: only 4 bytes
        malformed_packet[6] = 0x01;

        let result = get_new_tds_packet(&mut transport, &mut malformed_packet);
        assert!(
            result.is_err(),
            "Expected error for packet length < header size"
        );
        let err = result.unwrap_err();
        assert!(
            matches!(err, Error::ProtocolError(_)),
            "Expected ProtocolError, got {:?}",
            err
        );
    }

    // Packet length larger than negotiated max_packet_size
    {
        let mut transport = transport(packet_size);
        let mut oversized_packet = vec![0u8; 16];
        oversized_packet[0] = 0x04;
        oversized_packet[1] = 0x01;
        BigEndian::write_u16(&mut oversized_packet[2..4], 60000); // Way too large
        oversized_packet[6] = 0x01;

        let result = get_new_tds_packet(&mut transport, &mut oversized_packet);
        assert!(
            result.is_err(),
            "Expected error for packet length > max_packet_size"
        );
        let err = result.unwrap_err();
        assert!(
            matches!(err, Error::ProtocolError(_)),
            "Expected ProtocolError, got {:?}",
            err
        );
    }

    // Valid packet should still work
    {
        let mut transport = transport(packet_size);
        let payload = vec![0xAA; 24];
        let total_len: u16 = 8 + payload.len() as u16;
        let mut valid_packet = vec![0u8; total_len as usize];
        valid_packet[0] = 0x04;
        valid_packet[1] = 0x01;
        BigEndian::write_u16(&mut valid_packet[2..4], total_len);
        valid_packet[6] = 0x01;
        valid_packet[8..].copy_from_slice(&payload);

        let result = get_new_tds_packet(&mut transport, &mut valid_packet);
        assert!(result.is_ok(), "Valid packet should succeed");
        assert_eq!(result.unwrap(), total_len as usize);
    }
}

/// A packet with this payload.
fn packet(id: u8, payload: &[u8]) -> Vec<u8> {
    let mut p = vec![0x04, 0x01, 0, 0, 0, 0, id, 0];
    BigEndian::write_u16(&mut p[2..4], 8 + payload.len() as u16);
    p.extend_from_slice(payload);
    p
}

#[test]
fn packets_are_read_back_however_the_stream_is_cut() {
    for cut in 1..40 {
        let mut transport = transport(64);
        let mut stream: Vec<u8> = Vec::new();
        stream.extend(packet(1, &[1, 2, 3, 4, 5]));
        stream.extend(packet(2, &[6]));
        stream.extend(packet(3, &[7, 8, 9]));
        let mut payload: Vec<u8> = Vec::new();
        let mut at = 0;
        for _ in 0..3 {
            let mut assembly = transport.begin_tds_packet().unwrap();
            loop {
                match transport.read_tds_packet(&assembly).unwrap() {
                    PacketStep::Complete(_) => break,
                    PacketStep::Read(room) => {
                        let n = room.min(cut).min(stream.len() - at);
                        transport
                            .tds_read_buffer
                            .receive(&mut assembly, &stream[at..at + n])
                            .unwrap();
                        at += n;
                    }
                }
            }
            payload.extend(transport.take_payload());
        }
        assert_eq!(payload, vec![1, 2, 3, 4, 5, 6, 7, 8, 9]);
    }
}

#[test]
fn a_stream_that_ends_inside_a_packet_is_closed() {
    let mut transport = transport(64);
    let mut stream = packet(1, &[1, 2, 3]);
    stream.truncate(9);
    let err = get_new_tds_packet(&mut transport, &mut stream).unwrap_err();
    assert_eq!(err.kind(), ErrorKind::ConnectionClosed);
}

#[test]
fn receiving_needs_a_buffer_and_a_stream() {
    let transport = transport(PRE_NEGOTIATED_PACKET_SIZE);
    assert_eq!(transport.packet_size(), 4096);
    assert_eq!(transport.before_receive(0).unwrap_err().kind(), ErrorKind::Usage);
    assert!(transport.before_receive(1).is_ok());
    assert_eq!(
        transport.after_receive(0).unwrap_err().kind(),
        ErrorKind::Io(IoErrorKind::UnexpectedEof)
    );
    assert_eq!(transport.after_receive(5), Ok(5));
}

#[test]
fn encryption_is_switched_on_and_off() {
    let mut transport = NetworkTransport::new(4096, EncryptionSetting::On, true);
    assert_eq!(
        transport.enable_ssl(),
        SslRequest { wrap: true, negotiated: NegotiatedEncryptionSetting::Mandatory }
    );
    assert!(!transport.stream_available);
    transport.ssl_enabled(Ok(())).unwrap();
    assert!(transport.stream_available);
    transport.disable_ssl().unwrap();
    transport.ssl_disabled(true).unwrap();
    assert!(transport.stream_available);
    // A second time there is nothing to go back to
    let err = transport.disable_ssl().unwrap_err();
    assert_eq!(err.kind(), ErrorKind::ImplementationError);
    assert!(!transport.stream_available);
    let err = transport.disable_ssl().unwrap_err();
    assert_eq!(err.kind(), ErrorKind::ImplementationError);
}

#[test]
fn the_agreed_encryption_is_used() {
    let mut transport = NetworkTransport::new(4096, EncryptionSetting::On, false);
    transport.notify_encryption_negotiation(NegotiatedEncryptionSetting::LoginOnly);
    assert_eq!(
        transport.get_encryption_setting(),
        NegotiatedEncryptionSetting::LoginOnly
    );
    assert_eq!(
        transport.enable_ssl(),
        SslRequest { wrap: false, negotiated: NegotiatedEncryptionSetting::LoginOnly }
    );
    let failed = transport.ssl_enabled(Err(Error::ConnectionClosed("gone".to_string())));
    assert_eq!(failed.unwrap_err().kind(), ErrorKind::ConnectionClosed);
    assert!(!transport.stream_available);
    let err = transport.ssl_disabled(false).unwrap_err();
    assert_eq!(err.kind(), ErrorKind::ImplementationError);
}

#[test]
fn strict_encryption_stays_on() {
    let mut transport = NetworkTransport::new(4096, EncryptionSetting::Strict, false);
    let err = transport.disable_ssl().unwrap_err();
    assert_eq!(err.kind(), ErrorKind::Io(IoErrorKind::InvalidInput));
    assert!(transport.stream_available);
}

#[test]
fn plain_streams_do_not_care_for_handshakes() {
    let mut stream = Box::new(PlainStream { id: 7 });
    stream.tls_handshake_starting();
    stream.tls_handshake_completed();
    assert_eq!(*stream, PlainStream { id: 7 });
}

#[test]
fn versions_say_how_encryption_starts() {
    assert_eq!(
        create_transport_for_version(TdsVersion::V7_4),
        Ok(TransportSetup { immediate_tls: None, use_tds74_tls_wrapping: true })
    );
    assert_eq!(
        create_transport_for_version(TdsVersion::V8_0),
        Ok(TransportSetup {
            immediate_tls: Some(NegotiatedEncryptionSetting::Strict),
            use_tds74_tls_wrapping: false,
        })
    );
    let err = create_transport_for_version(TdsVersion::Unknown(7)).unwrap_err();
    assert_eq!(err.kind(), ErrorKind::Protocol);
}

#[test]
fn only_tcp_goes_with_several_subnets() {
    let tcp = TransportContext::Tcp { host: "h".to_string(), port: 1433, instance_name: None };
    assert_eq!(
        create_base_stream(&tcp, true, Platform::Other),
        Ok(BaseStream::Parallel { host: "h".to_string(), port: 1433 })
    );
    assert_eq!(
        create_base_stream(&tcp, false, Platform::Other),
        Ok(BaseStream::Sequential { host: "h".to_string(), port: 1433 })
    );
    let pipe = TransportContext::NamedPipe { pipe_name: "p".to_string() };
    assert_eq!(
        create_base_stream(&pipe, false, Platform::Windows),
        Ok(BaseStream::Pipe { pipe_name: "p".to_string() })
    );
    assert_eq!(
        create_base_stream(&pipe, true, Platform::Windows).unwrap_err().kind(),
        ErrorKind::Usage
    );
    assert_eq!(
        create_base_stream(&pipe, false, Platform::Other).unwrap_err().kind(),
        ErrorKind::Io(IoErrorKind::Unsupported)
    );
    let localdb = TransportContext::LocalDB { instance_name: "v11.0".to_string() };
    assert_eq!(
        create_base_stream(&localdb, false, Platform::Windows),
        Ok(BaseStream::LocalDb { instance_name: "v11.0".to_string() })
    );
}

#[test]
fn shared_memory_is_a_pipe() {
    let default = TransportContext::SharedMemory { instance_name: String::new() };
    assert_eq!(
        create_base_stream(&default, false, Platform::Windows),
        Ok(BaseStream::Pipe { pipe_name: "\\\\.\\pipe\\SQLLocal\\MSSQLSERVER".to_string() })
    );
    let named = TransportContext::SharedMemory { instance_name: "X".to_string() };
    assert_eq!(
        create_base_stream(&named, false, Platform::Windows),
        Ok(BaseStream::Pipe { pipe_name: "\\\\.\\pipe\\SQLLocal\\X".to_string() })
    );
}

#[test]
fn addresses_are_ordered_by_family() {
    let ipv6 = vec![true, false, true, false];
    assert_eq!(
        order_addresses(IPAddressPreference::UsePlatformDefault, &ipv6),
        vec![0, 1, 2, 3]
    );
    assert_eq!(
        order_addresses(IPAddressPreference::IPv4First, &ipv6),
        vec![1, 3, 0, 2]
    );
    assert_eq!(
        order_addresses(IPAddressPreference::IPv6First, &ipv6),
        vec![0, 2, 1, 3]
    );
}

#[test]
fn the_first_address_that_answers_is_taken() {
    let mut connect = SequentialConnect::new(vec![4, 2, 0]);
    assert_eq!(connect.address(), 4);
    assert_eq!(connect.tried(Attempt::TimedOut), Ok(false));
    assert_eq!(connect.address(), 2);
    assert_eq!(connect.tried(Attempt::Connected), Ok(true));
}

#[test]
fn the_last_failure_is_reported() {
    let mut connect = SequentialConnect::new(vec![0, 1]);
    let refused = Error::Io(IoErrorKind::Other, "refused".to_string());
    assert_eq!(connect.tried(Attempt::Failed(refused)), Ok(false));
    let err = connect.tried(Attempt::TimedOut).unwrap_err();
    assert_eq!(err.kind(), ErrorKind::Io(IoErrorKind::TimedOut));
}

fn done(status: u16) -> Tokens {
    Tokens::Done(DoneToken { status, cur_cmd: 0, row_count: 0 })
}

#[test]
fn an_acknowledgement_is_awaited() {
    assert_eq!(before_ack(None, 1_000_000), AckStep::Read(None));
    assert_eq!(before_ack(Some(100), 40), AckStep::Read(Some(60)));
    assert_eq!(before_ack(Some(100), 100), AckStep::Over(false));
    assert_eq!(after_ack(AckReading::Token(done(DONE_MORE))), Ok(None));
    assert_eq!(after_ack(AckReading::Token(done(DONE_ATTN))), Ok(Some(true)));
    let other = Tokens::DoneProc(DoneToken { status: DONE_ATTN, cur_cmd: 0, row_count: 0 });
    assert_eq!(after_ack(AckReading::Token(other)), Ok(None));
    assert_eq!(after_ack(AckReading::TimedOut), Ok(Some(false)));
    let gone = || Error::ConnectionClosed("gone".to_string());
    assert_eq!(after_ack(AckReading::Failed(gone())), Err(gone()));
    let info = Tokens::Info(InfoToken {
        number: 1,
        state: 1,
        severity: 1,
        message: String::new(),
        server_name: String::new(),
        proc_name: String::new(),
        line_number: 1,
    });
    assert_eq!(after_ack(AckReading::Token(info)), Ok(None));
}

#[test]
fn only_interruptions_need_an_attention() {
    assert!(needs_attention(&Error::OperationCancelledError(String::new())));
    assert!(needs_attention(&Error::TimeoutError(TimeoutErrorType::Elapsed)));
    assert!(!needs_attention(&Error::ProtocolError(String::new())));
}

#[test]
fn an_attention_is_a_header() {
    let transport = transport(4096);
    assert_eq!(transport.cancel_read_stream(), vec![0x06, 0x01, 0, 8, 0, 0, 1, 0]);
}
