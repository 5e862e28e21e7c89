use voice_gateway::crypto::EncryptionMode;
use voice_gateway::error::DiscordError;
use voice_gateway::payload::SpeakingType;
use voice_gateway::player::{play_action, AudioBuffer, AudioEncoder, Pacer, PlayAction, BUFSIZE};
use voice_gateway::recorder::AudioDecoder;
use voice_gateway::rtp::RtpHeader;
use voice_gateway::state::ConnectionState;

#[test]
fn audio_buffer_extends_within_capacity() {
    let mut b = AudioBuffer::new(vec![9u8; 6], 2);
    assert_eq!(b.as_slice(), &[9, 9]);
    assert_eq!(b.extend_from_slice(&[1, 2, 3]), Ok(()));
    assert_eq!(b.as_slice(), &[9, 9, 1, 2, 3]);
    assert_eq!(b.extend_from_slice(&[4, 5]), Err(DiscordError::EncryptionError));
    assert_eq!(b.len(), 5);
    b.truncate(1);
    assert_eq!(b.as_slice(), &[9]);
    b.truncate(4);
    assert_eq!(b.len(), 1);
    assert!(!b.is_empty());
    b.truncate(0);
    assert!(b.is_empty());
}

#[test]
fn ordered_playback_numbers_and_times_packets() {
    let key = [1u8; 32];
    let mut enc = AudioEncoder::new(key, EncryptionMode::XSalsa20Poly1305Lite, 1234);
    let dec = AudioDecoder::new(key, EncryptionMode::XSalsa20Poly1305Lite);
    let mut state = ConnectionState::Playing;
    let frames: Vec<Option<Vec<u8>>> = vec![Some(vec![1u8; 40]), Some(vec![2u8; 40]), Some(vec![3u8; 40]), None];
    let mut sent = Vec::new();
    for f in frames {
        match play_action(state) {
            PlayAction::PlayFrame => {}
            other => panic!("unexpected {:?}", other),
        }
        match f {
            Some(opus) => {
                let mut d = enc.prepare_packet(&opus).unwrap();
                enc.next_sequence();
                enc.packet_sent();
                assert_eq!(&d[0..2], &[0x80, 0x78]);
                let h = dec.decrypt_from_buffer(&mut d).unwrap().unwrap();
                assert_eq!(d, opus);
                sent.push(h);
            }
            None => state = ConnectionState::Finished,
        }
    }
    assert_eq!(play_action(state), PlayAction::Stop);
    assert_eq!(sent.len(), 3);
    for (i, h) in sent.iter().enumerate() {
        assert_eq!(h.sequence, i as u16);
        assert_eq!(h.timestamp, 960 * i as u32);
        assert_eq!(h.ssrc, 1234);
    }
    assert_eq!(SpeakingType::empty().bits(), 0);
}

#[test]
fn lite_nonces_of_consecutive_packets_follow_each_other() {
    let mut enc = AudioEncoder::new([5u8; 32], EncryptionMode::XSalsa20Poly1305Lite, 1);
    let a = enc.prepare_packet(&[0u8; 10]).unwrap();
    enc.next_sequence();
    // the second datagram is not sent: its counter still moves on
    let b = enc.prepare_packet(&[0u8; 10]).unwrap();
    enc.next_sequence();
    let c = enc.prepare_packet(&[0u8; 10]).unwrap();
    assert_eq!(&c[c.len() - 4..], &[0, 0, 0, 2]);
    assert_eq!(&a[a.len() - 4..], &[0, 0, 0, 0]);
    assert_eq!(&b[b.len() - 4..], &[0, 0, 0, 1]);
    assert_eq!(a.len(), 12 + 10 + 16 + 4);
}

#[test]
fn dropped_send_keeps_timestamp() {
    let mut enc = AudioEncoder::new([5u8; 32], EncryptionMode::XSalsa20Poly1305Suffix, 1);
    let first = enc.prepare_packet(&[0u8; 10]).unwrap();
    // preparing leaves the sequence number where it was
    assert_eq!(RtpHeader::parse(&first).sequence, 0);
    let again = enc.prepare_packet(&[0u8; 10]).unwrap();
    assert_eq!(RtpHeader::parse(&again).sequence, 0);
    enc.next_sequence();
    let d = enc.prepare_packet(&[0u8; 10]).unwrap();
    let h = RtpHeader::parse(&d);
    assert_eq!(h.sequence, 1);
    assert_eq!(h.timestamp, 0);
    assert_eq!(d.len(), 12 + 10 + 16 + 24);
}

#[test]
fn oversized_packet_is_refused() {
    let mut enc = AudioEncoder::new([5u8; 32], EncryptionMode::XSalsa20Poly1305, 1);
    assert!(enc.prepare_packet(&vec![0u8; 1275]).is_ok());
    assert_eq!(enc.prepare_packet(&vec![0u8; BUFSIZE - 12 - 40 + 1]), Err(DiscordError::EncryptionError));
}

#[test]
fn play_action_follows_state() {
    assert_eq!(play_action(ConnectionState::Finished), PlayAction::Stop);
    assert_eq!(play_action(ConnectionState::Paused), PlayAction::WaitWhilePaused);
    assert_eq!(play_action(ConnectionState::Disconnected), PlayAction::AwaitReconnect);
    assert_eq!(play_action(ConnectionState::Connected), PlayAction::PlayFrame);
    assert_eq!(play_action(ConnectionState::Playing), PlayAction::PlayFrame);
}

#[test]
fn pacing_keeps_twenty_millisecond_steps() {
    let mut p = Pacer::new(1_000_000);
    let mut total = 0u64;
    for k in 1..=50u64 {
        p.advance();
        // work finishes 3 ms into the period
        let now = 1_000_000 + (k - 1) * 20_000 + 3_000;
        total = p.sleep_time(now);
        assert_eq!(total, 17_000);
    }
    assert_eq!(total, 17_000);
    // falling behind pulls the deadline up to now
    p.advance();
    assert_eq!(p.sleep_time(5_000_000), 0);
    p.advance();
    assert_eq!(p.sleep_time(5_000_000), 20_000);
}
