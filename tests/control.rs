use voice_gateway::crypto::EncryptionMode;
use voice_gateway::error::{run_outcome, DiscordError, ErrorClass};
use voice_gateway::gateway::{
    discovery_request, parse_discovery, retry_discovery, GatewayAction, GatewayState, VoiceConnector,
    VoiceGatewayBuilder,
};
use voice_gateway::payload::{classify_op, Heartbeat, Hello, InboundKind, OpCode, Outbound, Ready, SessionDescription, SpeakingType};
use voice_gateway::state::ConnectionState;

fn gateway() -> GatewayState {
    let mut b = VoiceGatewayBuilder::new();
    b.endpoint("voice.example.com").user_id("u").server_id("g").session_id("s").token("t");
    b.build(0).unwrap()
}

#[test]
fn discovery_request_layout() {
    let r = discovery_request(0x01020304);
    assert_eq!(r.len(), 70);
    assert_eq!(&r[0..8], &[0, 1, 0, 70, 1, 2, 3, 4]);
    assert!(r[8..].iter().all(|&b| b == 0));
}

#[test]
fn discovery_reply_gives_ip_and_port() {
    let mut reply = [0u8; 70];
    let ip = b"203.0.113.5";
    reply[4..4 + ip.len()].copy_from_slice(ip);
    reply[68] = (50000u16 >> 8) as u8;
    reply[69] = (50000u16 & 0xFF) as u8;
    assert_eq!(parse_discovery(&reply), Ok(("203.0.113.5".to_string(), 50000)));
}

#[test]
fn discovery_reply_errors() {
    let full = [b'1'; 70];
    assert!(matches!(parse_discovery(&full), Err(DiscordError::IoError(_))));
    let mut bad = [0u8; 70];
    bad[4] = 0xFF;
    bad[5] = 0xFE;
    assert!(matches!(parse_discovery(&bad), Err(DiscordError::IoError(_))));
}

#[test]
fn discovery_is_tried_five_times() {
    assert!(retry_discovery(0));
    assert!(retry_discovery(4));
    assert!(!retry_discovery(5));
}

#[test]
fn handshake_reaches_connected() {
    let mut g = gateway();
    let a = g.handle(OpCode::Hello(Hello { heartbeat_interval_ms: 41250 }), 10).unwrap();
    assert!(matches!(a[..], [GatewayAction::SetReadTimeout(1000)]));
    assert_eq!(g.heartbeat_interval_ms, 41250);
    match g.handshake_message(false) {
        Outbound::Identify { server_id, user_id, session_id, token } => {
            assert_eq!((server_id.as_str(), user_id.as_str(), session_id.as_str(), token.as_str()), ("g", "u", "s", "t"));
        }
        _ => panic!("identify expected"),
    }
    let ready = Ready {
        ssrc: 1,
        ip: "10.0.0.1".to_string(),
        port: 5000,
        modes: vec!["xsalsa20_poly1305_lite".to_string(), "xsalsa20_poly1305".to_string()],
    };
    let a = g.handle(OpCode::Ready(ready), 20).unwrap();
    match &a[..] {
        [GatewayAction::OpenUdp { ip, port }] => {
            assert_eq!(ip, "10.0.0.1");
            assert_eq!(*port, 5000);
        }
        _ => panic!("UDP path expected"),
    }
    assert_eq!(g.ssrc, 1);
    assert_eq!(&discovery_request(g.ssrc)[4..8], &[0, 0, 0, 1]);
    match g.udp_discovered("198.51.100.2".to_string(), 40000) {
        Outbound::SelectProtocol { address, port, mode } => {
            assert_eq!(address, "198.51.100.2");
            assert_eq!(port, 40000);
            assert_eq!(mode.name(), "xsalsa20_poly1305_lite");
        }
        _ => panic!("select protocol expected"),
    }
    assert!(!g.session_ready());
    let sd = SessionDescription { mode: "xsalsa20_poly1305_lite".to_string(), secret_key: [1u8; 32] };
    let a = g.handle(OpCode::SessionDescription(sd), 30).unwrap();
    assert!(matches!(a[..], [GatewayAction::SetState(ConnectionState::Connected)]));
    assert!(g.session_ready());
    assert_eq!(g.state, ConnectionState::Connected);
    assert_eq!(g.encryption, EncryptionMode::XSalsa20Poly1305Lite);
}

#[test]
fn unknown_session_mode_is_io_error() {
    let mut g = gateway();
    let sd = SessionDescription { mode: "aes".to_string(), secret_key: [1u8; 32] };
    assert!(matches!(g.handle(OpCode::SessionDescription(sd), 0), Err(DiscordError::IoError(_))));
    assert!(!g.session_ready());
}

#[test]
fn ready_without_known_mode_picks_standard() {
    let r = Ready { ssrc: 1, ip: String::new(), port: 1, modes: vec!["aead_aes256_gcm".to_string()] };
    assert_eq!(r.get_encryption_mode(), vec![]);
    assert_eq!(r.selected_mode(), EncryptionMode::XSalsa20Poly1305);
    let r = Ready {
        ssrc: 1,
        ip: String::new(),
        port: 1,
        modes: vec!["x".to_string(), "xsalsa20_poly1305_suffix".to_string(), "xsalsa20_poly1305".to_string()],
    };
    assert_eq!(r.get_encryption_mode(), vec![EncryptionMode::XSalsa20Poly1305Suffix, EncryptionMode::XSalsa20Poly1305]);
}

#[test]
fn heartbeat_goes_out_once_interval_passed() {
    let mut g = gateway();
    g.handle(OpCode::Hello(Hello { heartbeat_interval_ms: 1000 }), 5_000_000).unwrap();
    assert!(g.poll_heartbeat(5_999_999, Heartbeat(1)).is_none());
    match g.poll_heartbeat(6_000_000, Heartbeat(77)) {
        Some(Outbound::Heartbeat(h)) => assert_eq!(h, Heartbeat(77)),
        _ => panic!("heartbeat expected"),
    }
    assert_eq!(g.last_heartbeat_us, 6_000_000);
    assert!(!g.heartbeat_due(6_500_000));
    assert!(g.heartbeat_due(7_000_000));
}

#[test]
fn no_heartbeat_before_hello() {
    let g = gateway();
    assert!(!g.heartbeat_due(u64::MAX));
}

#[test]
fn heartbeat_from_clock_reading() {
    assert_eq!(Heartbeat::from_elapsed_ms(Some(1_700_000_000_123)), Heartbeat(1_700_000_000_123));
    assert_eq!(Heartbeat::from_elapsed_ms(Some(u128::MAX)), Heartbeat(u64::MAX));
    assert_eq!(Heartbeat::from_elapsed_ms(None), Heartbeat(0));
}

#[test]
fn heartbeat_now_is_after_2020() {
    assert!(Heartbeat::now().0 > 1_577_836_800_000);
}

#[test]
fn round_trips_are_kept_up_to_twenty() {
    let mut g = gateway();
    assert_eq!(g.latency(), None);
    assert_eq!(g.average_latency(), None);
    for i in 1..=25u64 {
        g.last_heartbeat_us = 0;
        g.handle(OpCode::HeartbeatAck(0), i * 1000).unwrap();
    }
    assert_eq!(g.recent_acks.len(), 20);
    assert_eq!(g.latency(), Some(25_000));
    // samples 6..=25 ms: mean 15.5 ms
    assert_eq!(g.average_latency(), Some(15_500));
}

#[test]
fn close_codes_decide_the_run_outcome() {
    let mut g = gateway();
    let (s, e) = g.handle_close(Some(4014));
    assert_eq!(s, ConnectionState::Disconnected);
    assert_eq!(e, DiscordError::ConnectionClosed(4014));
    assert_eq!(run_outcome(e), Ok(()));
    let (_, e) = g.handle_close(Some(4006));
    assert_eq!(e.class(), ErrorClass::TryReconnect);
    assert_eq!(run_outcome(e), Err(DiscordError::ConnectionClosed(4006)));
    let (_, e) = g.handle_close(None);
    assert_eq!(e, DiscordError::ConnectionClosed(4006));
    assert_eq!(run_outcome(DiscordError::ConnectionClosed(1000)), Ok(()));
    assert_eq!(run_outcome(DiscordError::ConnectionClosed(4015)), Ok(()));
}

#[test]
fn client_close_keeps_code() {
    let mut g = gateway();
    assert_eq!(g.close(1000), ConnectionState::Disconnected);
    assert_eq!(g.close_code, 1000);
}

#[test]
fn error_classes() {
    assert_eq!(DiscordError::BuilderMissingRequiredField("x".into()).class(), ErrorClass::MissingField);
    assert_eq!(DiscordError::EncryptionError.class(), ErrorClass::EncryptionFailed);
    assert_eq!(DiscordError::InvalidOpCode(3).class(), ErrorClass::Gateway);
    assert_eq!(DiscordError::ConnectionClosed(1000).class(), ErrorClass::Gateway);
    assert_eq!(DiscordError::WavFileError("w".into()).class(), ErrorClass::InternalIO);
    assert_eq!(DiscordError::WebsocketHandshakeFailed("h".into()).class(), ErrorClass::Tls);
}

#[test]
fn builder_names_first_missing_field() {
    let mut b = VoiceGatewayBuilder::new();
    assert_eq!(b.build(0).err(), Some(DiscordError::BuilderMissingRequiredField("endpoint".to_string())));
    b.endpoint("e");
    b.user_id("");
    assert_eq!(b.build(0).err(), Some(DiscordError::BuilderMissingRequiredField("user_id".to_string())));
    b.user_id("u");
    b.server_id("g");
    b.session_id("s");
    assert_eq!(b.build(0).err(), Some(DiscordError::BuilderMissingRequiredField("token".to_string())));
    b.token("t");
    assert!(b.build(0).is_ok());
}

#[test]
fn connector_with_empty_settings_misses_endpoint() {
    let mut c = VoiceConnector::new();
    assert_eq!(c.builder().build(0).err(), Some(DiscordError::BuilderMissingRequiredField("endpoint".to_string())));
    c.update_connection_config("tok", "guild", "host");
    c.user_id = "me".to_string();
    assert_eq!(c.builder().build(0).err(), Some(DiscordError::BuilderMissingRequiredField("session_id".to_string())));
    c.session_id = "sess".to_string();
    let g = c.builder().build(0).unwrap();
    assert_eq!(g.endpoint, "host");
    assert_eq!(g.token, "tok");
}

#[test]
fn op_codes_are_classified() {
    assert_eq!(classify_op(2), Ok(InboundKind::Ready));
    assert_eq!(classify_op(8), Ok(InboundKind::Hello));
    assert_eq!(classify_op(13), Ok(InboundKind::ClientDisconnect));
    assert_eq!(classify_op(3), Err(DiscordError::InvalidOpCode(3)));
    assert_eq!(classify_op(200), Err(DiscordError::InvalidOpCode(200)));
}

#[test]
fn speaking_message_carries_flags_and_ssrc() {
    let mut g = gateway();
    g.ssrc = 55;
    match g.speaking_message(SpeakingType::microphone()) {
        Outbound::Speaking { speaking, delay, ssrc } => assert_eq!((speaking, delay, ssrc), (1, 0, 55)),
        _ => panic!("speaking expected"),
    }
    assert_eq!(SpeakingType::from_flags(true, false, true).bits(), 5);
    assert_eq!(SpeakingType::soundshare().bits(), 2);
    assert_eq!(SpeakingType::priority().bits(), 4);
    assert_eq!(g.speaking_message(SpeakingType::empty()).op(), 5);
    assert_eq!(g.handshake_message(true).op(), 7);
}
