use vstd::prelude::*;
use crate::crypto::{opens_to, sealed_payload, send_nonce, sent_suffix, sent_suffix_len, xsalsa20poly1305_sealed, EncryptionMode};
use crate::error::DiscordError;
use crate::rtp::{header_bytes, parsed_header, u32_be, RtpHeader, SAMPLES_PER_FRAME, RTP_HEADER_LEN};
use crate::state::ConnectionState;

verus! {

/// Interleaved stereo samples in one 20 ms frame at 48 kHz.
pub const PCM_FRAME_SAMPLES: usize = 1920;

/// Largest datagram: an Opus packet of at most 1275 bytes with room for
/// header, tag and nonce.
pub const BUFSIZE: usize = 1363;

/// Length of one frame period, in microseconds.
pub const FRAME_PERIOD_US: u64 = 20000;

/// A byte buffer of fixed capacity whose first `length` bytes are in use.
#[derive(Debug)]
pub struct AudioBuffer {
    slice: Vec<u8>,
    length: usize,
}

impl AudioBuffer {
    /// The bytes in use.
    pub closed spec fn contents(&self) -> Seq<u8> {
        self.slice@.subrange(0, self.length as int)
    }

    /// How many bytes the buffer can hold.
    pub closed spec fn capacity(&self) -> nat {
        self.slice@.len()
    }

    pub closed spec fn wf(&self) -> bool {
        self.length <= self.slice@.len()
    }

    /// A buffer over `slice` whose first `length` bytes are in use.
    pub fn new(slice: Vec<u8>, length: usize) -> (r: AudioBuffer)
        requires
            length <= slice@.len(),
        ensures
            r.wf(),
            r.contents() == slice@.subrange(0, length as int),
            r.capacity() == slice@.len(),
    {
        AudioBuffer { slice, length }
    }

    /// The bytes in use.
    pub fn as_slice(&self) -> (r: &[u8])
        requires
            self.wf(),
        ensures
            r@ == self.contents(),
    {
        &self.slice.as_slice()[0..self.length]
    }

    /// Number of bytes in use.
    pub fn len(&self) -> (r: usize)
        requires
            self.wf(),
        ensures
            r == self.contents().len(),
    {
        self.length
    }

    /// Whether no byte is in use.
    pub fn is_empty(&self) -> (r: bool)
        requires
            self.wf(),
        ensures
            r == (self.contents().len() == 0),
    {
        self.length == 0
    }

    /// Appends `other` when it fits, else fails and changes nothing.
    pub fn extend_from_slice(&mut self, other: &[u8]) -> (r: Result<(), DiscordError>)
        requires
            old(self).wf(),
        ensures
            final(self).wf(),
            final(self).capacity() == old(self).capacity(),
            r is Ok <==> old(self).contents().len() + other@.len() <= old(self).capacity(),
            r is Ok ==> final(self).contents() == old(self).contents() + other@,
            r is Err ==> final(self).contents() == old(self).contents() && r == Err::<(), DiscordError>(DiscordError::EncryptionError),
    {
        if other.len() > self.slice.len() - self.length {
            return Err(DiscordError::EncryptionError);
        }
        let cap = self.slice.len();
        let mut i: usize = 0;
        while i < other.len()
            invariant
                old(self).wf(),
                self.slice@.len() == cap,
                cap == old(self).slice@.len(),
                self.length == old(self).length,
                self.length + other@.len() <= self.slice@.len(),
                0 <= i <= other@.len(),
                forall|j: int| 0 <= j < self.length ==> self.slice@[j] == old(self).slice@[j],
                forall|j: int| 0 <= j < i ==> self.slice@[self.length + j] == other@[j],
            decreases other@.len() - i,
        {
            self.slice.set(self.length + i, other[i]);
            i = i + 1;
        }
        self.length = self.length + other.len();
        assert(self.contents() =~= old(self).contents() + other@);
        Ok(())
    }

    /// Shortens the bytes in use to `len`, zeroing what is cut off; a
    /// longer `len` changes nothing.
    pub fn truncate(&mut self, len: usize)
        requires
            old(self).wf(),
        ensures
            final(self).wf(),
            final(self).capacity() == old(self).capacity(),
            len < old(self).contents().len() ==> final(self).contents() == old(self).contents().subrange(0, len as int),
            len >= old(self).contents().len() ==> final(self).contents() == old(self).contents(),
    {
        if len < self.length {
            let mut i: usize = len;
            while i < self.slice.len()
                invariant
                    len <= i <= self.slice@.len(),
                    self.slice@.len() == old(self).slice@.len(),
                    forall|j: int| 0 <= j < len ==> self.slice@[j] == old(self).slice@[j],
                decreases self.slice@.len() - i,
            {
                self.slice.set(i, 0);
                i = i + 1;
            }
            self.length = len;
            assert(self.contents() =~= old(self).contents().subrange(0, len as int));
        }
    }
}

/// The datagram sent for an Opus packet: the header, then the sealed
/// payload with its nonce suffix.
pub open spec fn datagram(
    m: EncryptionMode,
    key: Seq<u8>,
    h: RtpHeader,
    lite: u32,
    random: Seq<u8>,
    opus: Seq<u8>,
) -> Seq<u8> {
    header_bytes(h) + sealed_payload(m, key, header_bytes(h), lite, random, opus)
}

/// Bytes a sealed payload adds to the Opus packet: the tag and the suffix.
pub open spec fn overhead(m: EncryptionMode) -> int {
    16 + sent_suffix_len(m)
}

/// Turns encoded Opus frames into numbered, timed, sealed RTP datagrams.
pub struct AudioEncoder {
    key: [u8; 32],
    encryption: EncryptionMode,
    sequence: u16,
    timestamp: u32,
    lite_nonce: u32,
    ssrc: u32,
}

impl AudioEncoder {
    pub closed spec fn key(&self) -> Seq<u8> {
        self.key@
    }

    pub closed spec fn mode(&self) -> EncryptionMode {
        self.encryption
    }

    /// Sequence number of the next packet.
    pub closed spec fn sequence(&self) -> u16 {
        self.sequence
    }

    /// RTP timestamp of the next packet.
    pub closed spec fn timestamp(&self) -> u32 {
        self.timestamp
    }

    /// Counter of the lite nonce for the next packet.
    pub closed spec fn lite_nonce(&self) -> u32 {
        self.lite_nonce
    }

    pub closed spec fn ssrc(&self) -> u32 {
        self.ssrc
    }

    /// The header of the next packet.
    pub open spec fn next_header(&self) -> RtpHeader {
        RtpHeader { sequence: self.sequence(), timestamp: self.timestamp(), ssrc: self.ssrc() }
    }

    /// An encoder for the session key, mode and SSRC the handshake gave,
    /// with all counters at zero.
    pub fn new(key: [u8; 32], encryption: EncryptionMode, ssrc: u32) -> (r: AudioEncoder)
        ensures
            r.key() == key@,
            r.mode() == encryption,
            r.ssrc() == ssrc,
            r.sequence() == 0,
            r.timestamp() == 0,
            r.lite_nonce() == 0,
    {
        AudioEncoder { key, encryption, sequence: 0, timestamp: 0, lite_nonce: 0, ssrc }
    }

    /// Builds the datagram for one Opus packet: header with the current
    /// sequence number, timestamp and SSRC, then the payload sealed with the
    /// current nonce. The lite counter moves on by one (wrapping) for every
    /// sealed packet, whether or not it gets out; the sequence number is
    /// left for `next_sequence`. A datagram that would exceed `BUFSIZE` is
    /// an encryption error and changes nothing.
    pub fn prepare_packet(&mut self, opus: &[u8]) -> (r: Result<Vec<u8>, DiscordError>)
        ensures
            final(self).key() == old(self).key(),
            final(self).mode() == old(self).mode(),
            final(self).ssrc() == old(self).ssrc(),
            final(self).timestamp() == old(self).timestamp(),
            final(self).sequence() == old(self).sequence(),
            r is Ok <==> RTP_HEADER_LEN + opus@.len() + overhead(old(self).mode()) <= BUFSIZE,
            r is Ok ==> final(self).lite_nonce() == (old(self).lite_nonce() + 1) % 0x1_0000_0000,
            r is Err ==> final(self).lite_nonce() == old(self).lite_nonce() && r == Err::<Vec<u8>, DiscordError>(DiscordError::EncryptionError),
            r matches Ok(d) ==> d@.len() == RTP_HEADER_LEN + opus@.len() + overhead(old(self).mode()),
            r matches Ok(d) ==> exists|random: Seq<u8>| random.len() == 24 && d@ == datagram(
                old(self).mode(),
                old(self).key(),
                old(self).next_header(),
                old(self).lite_nonce(),
                random,
                opus@,
            ),
    {
        let extra: usize = match self.encryption {
            EncryptionMode::XSalsa20Poly1305Lite => 20,
            _ => 40,
        };
        if opus.len() > BUFSIZE - RTP_HEADER_LEN - extra {
            return Err(DiscordError::EncryptionError);
        }
        let h = RtpHeader { sequence: self.sequence, timestamp: self.timestamp, ssrc: self.ssrc };
        let header = h.to_bytes();
        let mut payload = vstd::slice::slice_to_vec(opus);
        self.encryption.encrypt(&self.key, self.lite_nonce, header.as_slice(), &mut payload);
        let mut packet = AudioBuffer::new(vec![0u8; BUFSIZE], 0);
        assert(packet.contents() =~= Seq::<u8>::empty());
        let r1 = packet.extend_from_slice(header.as_slice());
        let r2 = packet.extend_from_slice(payload.as_slice());
        match (r1, r2) {
            (Ok(()), Ok(())) => {
                self.lite_nonce = self.lite_nonce.wrapping_add(1);
                Ok(vstd::slice::slice_to_vec(packet.as_slice()))
            },
            _ => Err(DiscordError::EncryptionError),
        }
    }

    /// Moves the sequence number on by one (wrapping), after each prepared
    /// packet, whether or not it gets out.
    pub fn next_sequence(&mut self)
        ensures
            final(self).key() == old(self).key(),
            final(self).mode() == old(self).mode(),
            final(self).ssrc() == old(self).ssrc(),
            final(self).timestamp() == old(self).timestamp(),
            final(self).lite_nonce() == old(self).lite_nonce(),
            final(self).sequence() == (old(self).sequence() + 1) % 65536,
    {
        self.sequence = self.sequence.wrapping_add(1);
    }

    /// Records that the datagram went out: the timestamp moves on by one
    /// frame, wrapping.
    pub fn packet_sent(&mut self)
        ensures
            final(self).key() == old(self).key(),
            final(self).mode() == old(self).mode(),
            final(self).ssrc() == old(self).ssrc(),
            final(self).sequence() == old(self).sequence(),
            final(self).lite_nonce() == old(self).lite_nonce(),
            final(self).timestamp() == (old(self).timestamp() + SAMPLES_PER_FRAME) % 0x1_0000_0000,
    {
        self.timestamp = self.timestamp.wrapping_add(SAMPLES_PER_FRAME);
    }
}


/// Every datagram starts with 0x80, 0x78, then the big-endian sequence
/// number, timestamp and SSRC of its header.
pub proof fn lemma_datagram_header(m: EncryptionMode, key: Seq<u8>, h: RtpHeader, lite: u32, random: Seq<u8>, opus: Seq<u8>)
    ensures
        ({
            let d = datagram(m, key, h, lite, random, opus);
            &&& d.len() >= 12
            &&& d[0] == 0x80
            &&& d[1] == 0x78
            &&& d.subrange(2, 4) == crate::rtp::u16_be(h.sequence)
            &&& d.subrange(4, 8) == u32_be(h.timestamp)
            &&& d.subrange(8, 12) == u32_be(h.ssrc)
        }),
{
    let d = datagram(m, key, h, lite, random, opus);
    assert(d.subrange(0, 12) =~= header_bytes(h));
    assert(d.subrange(2, 4) =~= crate::rtp::u16_be(h.sequence));
    assert(d.subrange(4, 8) =~= u32_be(h.timestamp));
    assert(d.subrange(8, 12) =~= u32_be(h.ssrc));
}

/// A datagram sent in the suffix or lite mode opens, on the receiving side,
/// to the Opus packet it carries, and its header reads back as sent.
pub proof fn lemma_datagram_opens(m: EncryptionMode, key: Seq<u8>, h: RtpHeader, lite: u32, random: Seq<u8>, opus: Seq<u8>)
    requires
        m != EncryptionMode::XSalsa20Poly1305,
        random.len() == 24,
    ensures
        opens_to(m, key, datagram(m, key, h, lite, random, opus), opus),
        parsed_header(datagram(m, key, h, lite, random, opus)) == h,
{
    let d = datagram(m, key, h, lite, random, opus);
    crate::crypto::lemma_cipher_round_trip(m, key, header_bytes(h), lite, random, opus);
    crate::rtp::lemma_header_round_trip(h);
    assert(d.subrange(0, 12) =~= header_bytes(h));
    assert(d[2] == header_bytes(h)[2] && d[3] == header_bytes(h)[3]);
    assert(forall|i: int| 0 <= i < 12 ==> d[i] == #[trigger] header_bytes(h)[i]);
}

/// In the lite mode a datagram ends with the four big-endian bytes of the
/// counter it was sealed with; since `prepare_packet` moves the counter on
/// by one modulo 2^32, consecutive datagrams carry consecutive counters.
pub proof fn lemma_lite_nonce_suffix(key: Seq<u8>, h: RtpHeader, lite: u32, random: Seq<u8>, opus: Seq<u8>)
    ensures
        ({
            let d = datagram(EncryptionMode::XSalsa20Poly1305Lite, key, h, lite, random, opus);
            d.subrange(d.len() - 4, d.len() as int) == u32_be(lite)
        }),
{
    let m = EncryptionMode::XSalsa20Poly1305Lite;
    let nonce = send_nonce(m, header_bytes(h), lite, random);
    let d = datagram(m, key, h, lite, random, opus);
    let front = header_bytes(h) + xsalsa20poly1305_sealed(key, nonce, opus);
    assert(d =~= front + sent_suffix(m, nonce));
    assert(sent_suffix(m, nonce) =~= u32_be(lite));
    assert(d.subrange(d.len() - 4, d.len() as int) =~= u32_be(lite));
}

/// The header of frame `k` (counting from 0) of an encoder whose next
/// header was `first`, when each frame is prepared, numbered on and sent.
pub open spec fn frame_header(first: RtpHeader, k: nat) -> RtpHeader {
    RtpHeader {
        sequence: ((first.sequence + k) % 65536) as u16,
        timestamp: ((first.timestamp + SAMPLES_PER_FRAME * k) % 0x1_0000_0000) as u32,
        ssrc: first.ssrc,
    }
}

/// Consecutive frames: `next_sequence` and `packet_sent` take the header of
/// frame `k` to that of frame `k + 1`, so frames sent in a row carry
/// sequence numbers s, s+1, s+2, ... and timestamps t, t+960, t+1920, ...
/// (both wrapping).
pub proof fn lemma_frame_headers(first: RtpHeader, k: nat)
    ensures
        frame_header(first, 0) == first,
        ({
            let h = frame_header(first, k);
            frame_header(first, k + 1) == RtpHeader {
                sequence: ((h.sequence + 1) % 65536) as u16,
                timestamp: ((h.timestamp + SAMPLES_PER_FRAME) % 0x1_0000_0000) as u32,
                ssrc: h.ssrc,
            }
        }),
{
    let s = first.sequence as int;
    let t = first.timestamp as int;
    let kk = k as int;
    assert(((s + kk) % 65536 + 1) % 65536 == (s + kk + 1) % 65536) by (nonlinear_arith);
    assert(((t + 960 * kk) % 0x1_0000_0000 + 960) % 0x1_0000_0000 == (t + 960 * (kk + 1)) % 0x1_0000_0000)
        by (nonlinear_arith);
}

/// What the send loop does next in state `s`.
#[derive(Debug, Clone, Copy, PartialEq, Eq, Structural)]
pub enum PlayAction {
    /// Playback is over: leave the loop.
    Stop,
    /// Block until the state is no longer `Paused`, then look again.
    WaitWhilePaused,
    /// Block until `Connected`, then rebuild encoder and socket (the session
    /// key may have changed) and restart the pacing clock.
    AwaitReconnect,
    /// Read, encode and send one frame.
    PlayFrame,
}

/// The decision at the top of each iteration of the send loop.
pub open spec fn play_action_spec(s: ConnectionState) -> PlayAction {
    match s {
        ConnectionState::Finished => PlayAction::Stop,
        ConnectionState::Paused => PlayAction::WaitWhilePaused,
        ConnectionState::Disconnected => PlayAction::AwaitReconnect,
        _ => PlayAction::PlayFrame,
    }
}

/// Chooses what the send loop does in state `s`.
pub fn play_action(s: ConnectionState) -> (r: PlayAction)
    ensures
        r == play_action_spec(s),
{
    match s {
        ConnectionState::Finished => PlayAction::Stop,
        ConnectionState::Paused => PlayAction::WaitWhilePaused,
        ConnectionState::Disconnected => PlayAction::AwaitReconnect,
        _ => PlayAction::PlayFrame,
    }
}

/// One pacing step: the deadline moves one frame period on, and is pulled
/// up to `now` when the loop has fallen behind.
pub open spec fn pace_step(deadline: int, now: int) -> int {
    if deadline + FRAME_PERIOD_US >= now {
        deadline + FRAME_PERIOD_US
    } else {
        now
    }
}

/// The deadline after iterations that finished their work at `nows`.
pub open spec fn paced(start: int, nows: Seq<int>) -> int
    decreases nows.len(),
{
    if nows.len() == 0 {
        start
    } else {
        pace_step(paced(start, nows.drop_last()), nows.last())
    }
}

/// Pacing: when every iteration finishes its work by its deadline, the
/// deadline after `k` iterations is exactly `k` frame periods after the
/// start; it never runs ahead of that.
pub proof fn lemma_pacing(start: int, nows: Seq<int>)
    ensures
        paced(start, nows) >= start + FRAME_PERIOD_US * nows.len(),
        (forall|i: int| 0 <= i < nows.len() ==> #[trigger] nows[i] <= start + FRAME_PERIOD_US * (i + 1))
            ==> paced(start, nows) == start + FRAME_PERIOD_US * nows.len(),
    decreases nows.len(),
{
    if nows.len() > 0 {
        let prefix = nows.drop_last();
        lemma_pacing(start, prefix);
        if forall|i: int| 0 <= i < nows.len() ==> #[trigger] nows[i] <= start + FRAME_PERIOD_US * (i + 1) {
            assert forall|i: int| 0 <= i < prefix.len() implies #[trigger] prefix[i] <= start + FRAME_PERIOD_US * (i + 1) by {
                assert(prefix[i] == nows[i]);
            }
            assert(nows[nows.len() - 1] <= start + FRAME_PERIOD_US * nows.len());
        }
    }
}

/// One iteration of the send loop moves the `Pacer` as `pace_step` does:
/// `advance`, then `sleep_time` at `now`, away from the clock's end.
pub proof fn lemma_pacer_step(deadline: u64, now: u64)
    requires
        deadline + FRAME_PERIOD_US <= u64::MAX,
    ensures
        ({
            let advanced = deadline + FRAME_PERIOD_US;
            (if advanced >= now { advanced } else { now as int }) == pace_step(deadline as int, now as int)
        }),
{
}

/// The deadline of the send loop on a monotonic clock, in microseconds.
#[derive(Debug)]
pub struct Pacer {
    next_us: u64,
}

impl Pacer {
    pub closed spec fn deadline(&self) -> u64 {
        self.next_us
    }

    /// Starts pacing at `now_us`.
    pub fn new(now_us: u64) -> (r: Pacer)
        ensures
            r.deadline() == now_us,
    {
        Pacer { next_us: now_us }
    }

    /// Moves the deadline one frame period on, at the start of an iteration.
    pub fn advance(&mut self)
        ensures
            final(self).deadline() == if old(self).deadline() + FRAME_PERIOD_US <= u64::MAX {
                old(self).deadline() + FRAME_PERIOD_US
            } else {
                u64::MAX as int
            },
    {
        self.next_us = self.next_us.saturating_add(FRAME_PERIOD_US);
    }

    /// After a frame went out at `now_us`: the deadline is pulled up to
    /// `now_us` if it has passed, and the time left to sleep is returned.
    pub fn sleep_time(&mut self, now_us: u64) -> (r: u64)
        ensures
            final(self).deadline() == if old(self).deadline() >= now_us { old(self).deadline() } else { now_us },
            r == final(self).deadline() - now_us,
    {
        if self.next_us < now_us {
            self.next_us = now_us;
        }
        self.next_us - now_us
    }
}

} // verus!
