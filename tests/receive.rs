use voice_gateway::crypto::EncryptionMode;
use voice_gateway::error::DiscordError;
use voice_gateway::queue::{Packet, PacketQueue, PacketResult};
use voice_gateway::recorder::{alignment_padding, decode_packets, mix_layout, mix_order, AudioDecoder, DecodeStep, SsrcPacketQueue};
use voice_gateway::rtp::RtpHeader;

fn packet(seq: u16, ts: u32, len: usize, recv: u64) -> Packet {
    Packet { payload: vec![seq as u8; len], timestamp: ts, sequence: seq, recv_time_us: recv }
}

fn queue_of(seqs: &[u16]) -> PacketQueue {
    let mut q = PacketQueue::new();
    for &s in seqs {
        q.push_back(packet(s, s as u32 * 960, 20, 0));
    }
    q
}

fn drain(q: &mut PacketQueue) -> Vec<Option<u16>> {
    let mut out = Vec::new();
    loop {
        match q.get_packet() {
            PacketResult::Find(p) => out.push(Some(p.sequence)),
            PacketResult::Dropped => out.push(None),
            PacketResult::End => break,
        }
    }
    out
}

#[test]
fn reordered_packets_come_out_in_order() {
    let mut q = queue_of(&[10, 11, 13, 12, 14]);
    assert_eq!(drain(&mut q), vec![Some(10), Some(11), Some(12), Some(13), Some(14)]);
}

#[test]
fn far_jump_is_dropped_then_end() {
    let mut q = queue_of(&[10, 11, 2000]);
    assert_eq!(drain(&mut q), vec![Some(10), Some(11), None]);
    assert!(matches!(q.get_packet(), PacketResult::End));
}

#[test]
fn sequence_wraps_from_ffff_to_zero() {
    let mut q = queue_of(&[0xFFFE, 0xFFFF, 0, 1]);
    assert_eq!(drain(&mut q), vec![Some(0xFFFE), Some(0xFFFF), Some(0), Some(1)]);
}

#[test]
fn lookahead_finds_within_window_only() {
    // marker 0; the packet numbered 1 stands at position 999: found
    let mut seqs: Vec<u16> = vec![0];
    for i in 0..999u16 {
        seqs.push(5000 + i);
    }
    seqs.push(1);
    let mut q = queue_of(&seqs);
    assert!(matches!(q.get_packet(), PacketResult::Find(_)));
    match q.get_packet() {
        PacketResult::Find(p) => assert_eq!(p.sequence, 1),
        _ => panic!("expected the packet at position 999"),
    }
    // at position 1000 it is out of reach
    let mut seqs: Vec<u16> = vec![0];
    for i in 0..1000u16 {
        seqs.push(5000 + i);
    }
    seqs.push(1);
    let mut q = queue_of(&seqs);
    assert!(matches!(q.get_packet(), PacketResult::Find(_)));
    assert!(matches!(q.get_packet(), PacketResult::Dropped));
    assert_eq!(q.len(), 1000);
}

#[test]
fn empty_queue_ends() {
    let mut q = PacketQueue::new();
    assert!(matches!(q.get_packet(), PacketResult::End));
}

fn kinds(steps: &[DecodeStep]) -> Vec<String> {
    steps
        .iter()
        .map(|s| match s {
            DecodeStep::Silence(n) => format!("S{}", n),
            DecodeStep::Decode(p) => format!("D{}", p[0]),
            DecodeStep::Conceal => "C".to_string(),
        })
        .collect()
}

#[test]
fn gap_recovery_decodes_in_order_without_concealment() {
    let mut q = queue_of(&[10, 11, 13, 12, 14]);
    let plan = decode_packets(5, &mut q);
    assert_eq!(plan.ssrc, 5);
    assert_eq!(kinds(&plan.steps), vec!["D10", "D11", "D12", "D13", "D14"]);
}

#[test]
fn dropped_packet_asks_for_concealment() {
    let mut q = queue_of(&[10, 11, 2000]);
    let plan = decode_packets(5, &mut q);
    assert_eq!(kinds(&plan.steps), vec!["D10", "D11", "C"]);
    assert_eq!(q.len(), 0);
}

#[test]
fn timestamp_gap_inserts_silence() {
    let mut q = PacketQueue::new();
    q.push_back(packet(1, 0, 20, 7));
    // 1920 ticks later: 4 * 1920 - 3840 = 3840 zero samples
    q.push_back(packet(2, 1920, 20, 3));
    // one frame later: no silence
    q.push_back(packet(3, 2880, 20, 9));
    // far later: gap counted up to one second, 4 * 48000 - 3840
    q.push_back(packet(4, 2880 + 100000, 20, 9));
    let plan = decode_packets(1, &mut q);
    assert_eq!(kinds(&plan.steps), vec!["D1", "S3840", "D2", "D3", "S188160", "D4"]);
    assert_eq!(plan.start_time_us, Some(3));
}

#[test]
fn short_payload_only_moves_reference() {
    let mut q = PacketQueue::new();
    q.push_back(packet(1, 0, 5, 0));
    q.push_back(packet(2, 2000, 20, 0));
    let plan = decode_packets(1, &mut q);
    // reference 0 from the short packet: 4 * 2000 - 3840 = 4160
    assert_eq!(kinds(&plan.steps), vec!["S4160", "D2"]);
}

#[test]
fn sources_are_kept_apart_in_ascending_order() {
    let mut m = SsrcPacketQueue::new();
    m.push(30, packet(1, 0, 20, 0));
    m.push(10, packet(7, 0, 20, 0));
    m.push(30, packet(2, 960, 20, 0));
    let plans = m.decode();
    assert_eq!(plans.len(), 2);
    assert_eq!(plans[0].ssrc, 10);
    assert_eq!(plans[1].ssrc, 30);
    assert_eq!(kinds(&plans[0].steps), vec!["D7"]);
    assert_eq!(kinds(&plans[1].steps), vec!["D1", "D2"]);
    assert_eq!(m.decode().len(), 0);
}

#[test]
fn two_sources_align_by_start_time() {
    let starts = vec![100_500_000u64, 100_000_000u64];
    assert_eq!(mix_order(&starts), vec![1, 0]);
    let layout = mix_layout(&starts);
    assert_eq!(layout, vec![(1, 0), (0, 48000)]);
    assert_eq!(alignment_padding(100_500_000, 100_000_000), 48000);
}

#[test]
fn mix_order_keeps_ties_in_index_order() {
    assert_eq!(mix_order(&vec![5, 3, 5, 3]), vec![1, 3, 0, 2]);
    assert_eq!(mix_order(&vec![]), Vec::<usize>::new());
}

fn sealed_datagram(m: EncryptionMode, key: &[u8; 32], h: RtpHeader, payload: &[u8]) -> Vec<u8> {
    let header = h.to_bytes();
    let mut buf = payload.to_vec();
    m.encrypt(key, 0, &header, &mut buf);
    let mut d = header;
    d.extend_from_slice(&buf);
    d
}

#[test]
fn receive_files_rtp_by_source_and_strips_extension() {
    let key = [7u8; 32];
    let dec = AudioDecoder::new(key, EncryptionMode::XSalsa20Poly1305Lite);
    let mut m = SsrcPacketQueue::new();
    let h = RtpHeader { sequence: 3, timestamp: 480, ssrc: 77 };
    let mut plain = vec![0xBE, 0xDE, 0x00, 0x01, 0x10, 0xAA, 0x55, 0x77];
    plain.extend_from_slice(&[0x11; 12]);
    let d = sealed_datagram(EncryptionMode::XSalsa20Poly1305Lite, &key, h, &plain);
    assert_eq!(dec.receive(&mut m, d, 123), Ok(true));
    let plans = m.decode();
    assert_eq!(plans.len(), 1);
    assert_eq!(plans[0].ssrc, 77);
    assert_eq!(plans[0].start_time_us, Some(123));
    match &plans[0].steps[0] {
        DecodeStep::Decode(p) => {
            // the extension (seven bytes as walked) is cut off
            let mut expected = vec![0x77u8];
            expected.extend_from_slice(&[0x11u8; 12]);
            assert_eq!(p, &expected);
        }
        _ => panic!("expected a decode step"),
    }
}

#[test]
fn receive_ignores_rtcp_and_rejects_forgery() {
    let key = [7u8; 32];
    let dec = AudioDecoder::new(key, EncryptionMode::XSalsa20Poly1305Suffix);
    let mut m = SsrcPacketQueue::new();
    assert_eq!(dec.receive(&mut m, vec![0x80, 201, 0, 0, 0, 0, 0, 0], 1), Ok(false));
    let h = RtpHeader { sequence: 3, timestamp: 480, ssrc: 77 };
    let mut d = sealed_datagram(EncryptionMode::XSalsa20Poly1305Suffix, &key, h, &[1u8; 30]);
    d[20] ^= 1;
    assert_eq!(dec.receive(&mut m, d, 1), Err(DiscordError::EncryptionError));
    assert_eq!(m.decode().len(), 0);
}

#[test]
fn decrypt_from_buffer_returns_header() {
    let key = [1u8; 32];
    let dec = AudioDecoder::new(key, EncryptionMode::XSalsa20Poly1305Suffix);
    let h = RtpHeader { sequence: 65535, timestamp: 1, ssrc: 2 };
    let mut d = sealed_datagram(EncryptionMode::XSalsa20Poly1305Suffix, &key, h, &[9u8; 15]);
    assert_eq!(dec.decrypt_from_buffer(&mut d), Ok(Some(h)));
    assert_eq!(d, vec![9u8; 15]);
}
