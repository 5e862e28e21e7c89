use voice_gateway::crypto::EncryptionMode;
use voice_gateway::error::DiscordError;
use voice_gateway::rtp::{calc_offset, is_rtcp, next_seq, RtpHeader};

#[test]
fn header_bytes_have_fixed_prefix_and_big_endian_fields() {
    let h = RtpHeader { sequence: 0x0102, timestamp: 0x0304_0506, ssrc: 0x0708_090A };
    let b = h.to_bytes();
    assert_eq!(b, vec![0x80, 0x78, 0x01, 0x02, 0x03, 0x04, 0x05, 0x06, 0x07, 0x08, 0x09, 0x0A]);
}

#[test]
fn header_parse_reads_back_written_fields() {
    let h = RtpHeader { sequence: 65535, timestamp: 4_000_000_000, ssrc: 42 };
    assert_eq!(RtpHeader::parse(&h.to_bytes()), h);
}

#[test]
fn sequence_successor_wraps_to_zero() {
    assert_eq!(next_seq(0xFFFF), 0);
    assert_eq!(next_seq(10), 11);
}

#[test]
fn rtcp_is_told_apart_by_second_byte() {
    assert!(is_rtcp(&[0x80, 200, 0, 0]));
    assert!(is_rtcp(&[0x80, 204]));
    assert!(!is_rtcp(&[0x80, 0x78, 0, 0]));
    assert!(!is_rtcp(&[0x80, 205]));
    assert!(!is_rtcp(&[0x80]));
}

#[test]
fn offset_is_zero_without_extension_marker() {
    assert_eq!(calc_offset(&[1, 2, 3, 4, 5, 6]), 0);
    assert_eq!(calc_offset(&[0xBE, 0xDE, 0, 1]), 0);
}

#[test]
fn offset_skips_one_byte_extension_elements() {
    // one element: tag byte 0x10 (one data byte), data, then a byte that is
    // neither 0 nor 2 after it.
    let data = [0xBE, 0xDE, 0x00, 0x01, 0x10, 0xAA, 0x55, 0x77, 0x99];
    // offset: 4 -> 4 + 2 + 1 = 7; byte at 8 is 0x99 -> result 7
    assert_eq!(calc_offset(&data), 7);
    assert_eq!(calc_offset(&[0xBE, 0xDE, 0x00, 0x01, 0x10, 0xAA, 0xBB, 0x77, 0x55, 0x66]), 7);
    let padded = [0xBE, 0xDE, 0x00, 0x02, 0x00, 0x10, 0xAA, 0x00, 0x00, 0x33];
    // first element padding (offset 5), second 0x10 -> 8; byte at 9 is 0x33 -> 8
    assert_eq!(calc_offset(&padded), 8);
    let extra = [0xBE, 0xDE, 0x00, 0x01, 0x10, 0xAA, 0x55, 0x77, 0x02];
    // byte at 8 is 2 -> one more byte skipped
    assert_eq!(calc_offset(&extra), 8);
    let zero_next = [0xBE, 0xDE, 0x00, 0x01, 0x10, 0xAA, 0x55, 0x77, 0x00];
    assert_eq!(calc_offset(&zero_next), 8);
}

#[test]
fn mode_names_round_trip() {
    for m in [
        EncryptionMode::XSalsa20Poly1305,
        EncryptionMode::XSalsa20Poly1305Suffix,
        EncryptionMode::XSalsa20Poly1305Lite,
    ] {
        assert_eq!(EncryptionMode::from_name(m.name()), Ok(m));
    }
    assert_eq!(EncryptionMode::XSalsa20Poly1305Lite.name(), "xsalsa20_poly1305_lite");
    assert!(matches!(EncryptionMode::from_name("aes256"), Err(DiscordError::IoError(_))));
    assert_eq!(EncryptionMode::default_mode(), EncryptionMode::XSalsa20Poly1305);
}

fn header() -> Vec<u8> {
    RtpHeader { sequence: 7, timestamp: 960, ssrc: 99 }.to_bytes()
}

#[test]
fn cipher_round_trip_suffix_and_lite() {
    let key = [3u8; 32];
    for m in [EncryptionMode::XSalsa20Poly1305Suffix, EncryptionMode::XSalsa20Poly1305Lite] {
        let payload = vec![1u8, 2, 3, 4, 5, 6, 7, 8, 9, 10, 11];
        let mut buf = payload.clone();
        m.encrypt(&key, 5, &header(), &mut buf);
        assert_ne!(buf[..payload.len()], payload[..]);
        let mut frame = header();
        frame.extend_from_slice(&buf);
        let h = m.decrypt(&key, &mut frame).unwrap();
        assert_eq!(h, header());
        assert_eq!(frame, payload);
    }
}

#[test]
fn lite_suffix_is_big_endian_counter() {
    let key = [9u8; 32];
    let mut buf = vec![0u8; 20];
    EncryptionMode::XSalsa20Poly1305Lite.encrypt(&key, 0x01020304, &header(), &mut buf);
    assert_eq!(buf.len(), 20 + 16 + 4);
    assert_eq!(&buf[buf.len() - 4..], &[1, 2, 3, 4]);
}

#[test]
fn standard_mode_appends_header_nonce() {
    let key = [9u8; 32];
    let mut buf = vec![5u8; 10];
    EncryptionMode::XSalsa20Poly1305.encrypt_with(&key, 0, &header(), &[0u8; 24], &mut buf);
    assert_eq!(buf.len(), 10 + 16 + 24);
    let mut nonce = header();
    nonce.extend_from_slice(&[0u8; 12]);
    assert_eq!(&buf[buf.len() - 24..], &nonce[..]);
}

#[test]
fn standard_frame_without_suffix_opens() {
    let key = [4u8; 32];
    let payload = vec![42u8; 30];
    let mut buf = payload.clone();
    EncryptionMode::XSalsa20Poly1305.encrypt_with(&key, 0, &header(), &[0u8; 24], &mut buf);
    buf.truncate(buf.len() - 24);
    let mut frame = header();
    frame.extend_from_slice(&buf);
    assert_eq!(EncryptionMode::XSalsa20Poly1305.decrypt(&key, &mut frame).unwrap(), header());
    assert_eq!(frame, payload);
}

#[test]
fn wrong_key_is_encryption_error() {
    let mut buf = vec![1u8; 16];
    EncryptionMode::XSalsa20Poly1305Lite.encrypt(&[1u8; 32], 1, &header(), &mut buf);
    let mut frame = header();
    frame.extend_from_slice(&buf);
    let before = frame.clone();
    assert_eq!(EncryptionMode::XSalsa20Poly1305Lite.decrypt(&[2u8; 32], &mut frame), Err(DiscordError::EncryptionError));
    assert_eq!(frame, before);
}

#[test]
fn short_frame_is_encryption_error() {
    let mut frame = vec![0u8; 20];
    assert_eq!(EncryptionMode::XSalsa20Poly1305Suffix.decrypt(&[0u8; 32], &mut frame), Err(DiscordError::EncryptionError));
    let mut tiny = vec![0u8; 5];
    assert_eq!(EncryptionMode::XSalsa20Poly1305.decrypt(&[0u8; 32], &mut tiny), Err(DiscordError::EncryptionError));
}
