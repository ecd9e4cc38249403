use zserial::codec::encode;
use zserial::codec::frame_data_size;
use zserial::codec::read_msg;
use zserial::codec::sync_step;
use zserial::codec::SyncState;
use zserial::codec::ZError;

#[test]
fn encode_exact_bytes() {
    // One payload byte: wire size 11, length field little-endian.
    let payload = vec![0xABu8];
    let frame = encode(&payload).unwrap();
    assert_eq!(
        frame,
        vec![0xF0, 0x0F, 0x0F, 0xF0, 0x0B, 0x00, 0xAB, 0xCC, 0x32, 0xCC, 0x32]
    );
}

#[test]
fn encode_length_field_is_little_endian() {
    // 300-byte payload: wire size 310 = 0x0136, so bytes 0x36 then 0x01.
    let payload = vec![0u8; 300];
    let frame = encode(&payload).unwrap();
    assert_eq!(frame[4], 0x36);
    assert_eq!(frame[5], 0x01);
}

#[test]
fn round_trip_small_payload() {
    let payload = vec![1u8, 2, 3];
    let stream = encode(&payload).unwrap();
    let mut pos: usize = 0;
    let mut buff = vec![0u8; 1500];
    let n = read_msg(&stream, &mut pos, &mut buff).unwrap();
    assert_eq!(n, 3);
    assert_eq!(&buff[..n], &[1, 2, 3]);
    assert_eq!(pos, 13);
}

#[test]
fn round_trip_empty_payload() {
    // An empty payload frames and decodes; the whole 10-byte frame is
    // consumed even though zero payload bytes come back.
    let payload: Vec<u8> = Vec::new();
    let stream = encode(&payload).unwrap();
    assert_eq!(stream.len(), 10);
    let mut pos: usize = 0;
    let mut buff = vec![0u8; 1500];
    let n = read_msg(&stream, &mut pos, &mut buff).unwrap();
    assert_eq!(n, 0);
    assert_eq!(pos, 10);
}

#[test]
fn round_trip_max_mtu_payload() {
    let payload: Vec<u8> = (0..1500u32).map(|i| (i % 251) as u8).collect();
    let stream = encode(&payload).unwrap();
    assert_eq!(stream.len(), 1510);
    let mut pos: usize = 0;
    let mut buff = vec![0u8; 1500];
    let n = read_msg(&stream, &mut pos, &mut buff).unwrap();
    assert_eq!(n, 1500);
    assert_eq!(&buff[..n], &payload[..]);
    assert_eq!(pos, 1510);
}

#[test]
fn encode_rejects_oversize_payload() {
    let payload = vec![0u8; 1501];
    assert_eq!(encode(&payload), Err(ZError::PayloadTooLarge));
}

#[test]
fn read_rejects_small_buffer_before_any_read() {
    let stream = encode(&vec![1u8, 2, 3]).unwrap();
    let mut pos: usize = 0;
    let mut buff = vec![0u8; 1499];
    let r = read_msg(&stream, &mut pos, &mut buff);
    assert_eq!(r, Err(ZError::BufferTooSmall));
    assert_eq!(pos, 0);
}

#[test]
fn corrupted_length_under_overhead() {
    // Length field 9 < 10: rejected, and nothing consumed beyond the
    // length field itself.
    let stream = vec![0xF0u8, 0x0F, 0x0F, 0xF0, 0x09, 0x00, 0x55, 0x66, 0x77];
    let mut pos: usize = 0;
    let mut buff = vec![0u8; 1500];
    let r = read_msg(&stream, &mut pos, &mut buff);
    assert_eq!(r, Err(ZError::InvalidFrame));
    assert_eq!(pos, 6);
}

#[test]
fn corrupted_length_exceeding_capacity() {
    // Length field 2000: payload of 1990 cannot fit a 1500-byte buffer.
    let stream = vec![0xF0u8, 0x0F, 0x0F, 0xF0, 0xD0, 0x07];
    let mut pos: usize = 0;
    let mut buff = vec![0u8; 1500];
    let r = read_msg(&stream, &mut pos, &mut buff);
    assert_eq!(r, Err(ZError::InvalidFrame));
    assert_eq!(pos, 6);
}

#[test]
fn truncated_frame_is_transport_error() {
    // Announces 2 payload bytes but the stream ends after one.
    let stream = vec![0xF0u8, 0x0F, 0x0F, 0xF0, 0x0C, 0x00, 0xAA];
    let mut pos: usize = 0;
    let mut buff = vec![0u8; 1500];
    let r = read_msg(&stream, &mut pos, &mut buff);
    assert_eq!(r, Err(ZError::TransportError));
    assert_eq!(pos, stream.len());
}

#[test]
fn stream_ending_after_preamble_is_transport_error() {
    // The preamble is found but the length field never arrives: a short
    // read inside a frame, not a quiet "no sync".
    let stream = vec![0xF0u8, 0x0F, 0x0F, 0xF0];
    let mut pos: usize = 0;
    let mut buff = vec![0u8; 1500];
    assert_eq!(
        read_msg(&stream, &mut pos, &mut buff),
        Err(ZError::TransportError)
    );
    assert_eq!(pos, 4);

    let stream = vec![0xF0u8, 0x0F, 0x0F, 0xF0, 0x0A];
    let mut pos: usize = 0;
    assert_eq!(
        read_msg(&stream, &mut pos, &mut buff),
        Err(ZError::TransportError)
    );
    assert_eq!(pos, 5);
}

#[test]
fn resync_through_noise() {
    let payload = vec![0xAAu8, 0xBB];
    let mut stream = vec![0x11u8, 0x22, 0x33];
    stream.extend(encode(&payload).unwrap());
    let mut pos: usize = 0;
    let mut buff = vec![0u8; 1500];
    let n = read_msg(&stream, &mut pos, &mut buff).unwrap();
    assert_eq!(n, 2);
    assert_eq!(&buff[..n], &[0xAA, 0xBB]);
    assert_eq!(pos, 3 + 12);
}

#[test]
fn resync_through_noise_ending_in_preamble_start() {
    // The last noise byte is the preamble's own first byte; the hunt keeps
    // it as a fresh candidate and still finds the frame.
    let payload = vec![0x42u8];
    let mut stream = vec![0x99u8, 0xF0];
    stream.extend(encode(&payload).unwrap());
    let mut pos: usize = 0;
    let mut buff = vec![0u8; 1500];
    let n = read_msg(&stream, &mut pos, &mut buff).unwrap();
    assert_eq!(n, 1);
    assert_eq!(buff[0], 0x42);
    assert_eq!(pos, stream.len());
}

#[test]
fn broken_preamble_gives_zero_length_then_resync() {
    // Correct first three preamble bytes, wrong fourth: a zero-length
    // result, no error, everything consumed.
    let broken = vec![0xF0u8, 0x0F, 0x0F, 0x00];
    let mut pos: usize = 0;
    let mut buff = vec![0u8; 1500];
    let n = read_msg(&broken, &mut pos, &mut buff).unwrap();
    assert_eq!(n, 0);
    assert_eq!(pos, 4);

    // A later call on a following well-formed frame still synchronizes.
    let stream = encode(&vec![7u8, 8]).unwrap();
    let mut pos2: usize = 0;
    let n2 = read_msg(&stream, &mut pos2, &mut buff).unwrap();
    assert_eq!(n2, 2);
    assert_eq!(&buff[..2], &[7, 8]);
}

#[test]
fn two_frames_back_to_back() {
    let mut stream = encode(&vec![1u8]).unwrap();
    stream.extend(encode(&vec![2u8, 3]).unwrap());
    let mut pos: usize = 0;
    let mut buff = vec![0u8; 1500];
    let n1 = read_msg(&stream, &mut pos, &mut buff).unwrap();
    assert_eq!((n1, buff[0]), (1, 1));
    let n2 = read_msg(&stream, &mut pos, &mut buff).unwrap();
    assert_eq!((n2, buff[0], buff[1]), (2, 2, 3));
    assert_eq!(pos, stream.len());
}

#[test]
fn frame_data_size_checks() {
    assert_eq!(frame_data_size(0x0B, 0x00, 1500), Ok(1));
    assert_eq!(frame_data_size(0x0A, 0x00, 1500), Ok(0));
    assert_eq!(frame_data_size(0x09, 0x00, 1500), Err(ZError::InvalidFrame));
    assert_eq!(frame_data_size(0x00, 0x00, 1500), Err(ZError::InvalidFrame));
    // 0x07D0 = 2000: too large for a 1500-byte destination.
    assert_eq!(frame_data_size(0xD0, 0x07, 1500), Err(ZError::InvalidFrame));
    assert_eq!(frame_data_size(0xD0, 0x07, 1990), Ok(1990));
}

#[test]
fn sync_state_transitions() {
    assert_eq!(sync_step(SyncState::Seek0, 0xF0), SyncState::Seek1);
    assert_eq!(sync_step(SyncState::Seek0, 0x0F), SyncState::Seek0);
    assert_eq!(sync_step(SyncState::Seek1, 0x0F), SyncState::Seek2);
    assert_eq!(sync_step(SyncState::Seek2, 0x0F), SyncState::Seek3);
    assert_eq!(sync_step(SyncState::Seek3, 0xF0), SyncState::Done);
    // A mismatched byte is re-tested as a fresh candidate start.
    assert_eq!(sync_step(SyncState::Seek1, 0xF0), SyncState::Seek1);
    assert_eq!(sync_step(SyncState::Seek2, 0xF0), SyncState::Seek1);
    assert_eq!(sync_step(SyncState::Seek3, 0x00), SyncState::Seek0);
    assert_eq!(sync_step(SyncState::Done, 0x55), SyncState::Done);
}
