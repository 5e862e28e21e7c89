use vstd::prelude::*;
use std::collections::VecDeque;
use vstd::utf8::{decode_utf8, valid_utf8};
use crate::crypto::{mode_name, EncryptionMode};
use crate::error::DiscordError;
use crate::payload::{negotiated_mode, Heartbeat, OpCode, Outbound, SpeakingType};
use crate::rtp::{be16, u32_be, u32_to_be};
use crate::state::ConnectionState;

verus! {

/// How many round-trip samples are kept.
pub const ACK_HISTORY: usize = 20;

/// Read timeout of the control channel once the server said hello.
pub const READ_TIMEOUT_MS: u64 = 1000;

/// Size of the IP discovery request and reply.
pub const DISCOVERY_LEN: usize = 70;

/// How many times IP discovery is tried.
pub const DISCOVERY_ATTEMPTS: u32 = 5;

/// Close code used when the client disconnects.
pub const NORMAL_CLOSE: u16 = 1000;

/// Reason sent with a close frame.
pub fn close_reason() -> (r: &'static str)
    ensures
        r@ == "Closing Connection"@,
{
    "Closing Connection"
}

/// Relies on `std::str::from_utf8`: it accepts exactly the valid UTF-8 byte
/// strings, and the text then decodes from those bytes.
#[verifier::external_body]
fn utf8_text(b: &[u8]) -> (r: Option<String>)
    ensures
        r is Some <==> valid_utf8(b@),
        r matches Some(s) ==> s@ == decode_utf8(b@),
{
    match std::str::from_utf8(b) {
        Ok(s) => Some(s.to_owned()),
        Err(_) => None,
    }
}

/// The IP discovery request for `ssrc`: type 1, length 70, the SSRC, zeros.
pub open spec fn discovery_request_spec(ssrc: u32) -> Seq<u8> {
    seq![0u8, 1u8, 0u8, 70u8] + u32_be(ssrc) + Seq::new(62, |i: int| 0u8)
}

/// Builds the IP discovery request.
pub fn discovery_request(ssrc: u32) -> (r: Vec<u8>)
    ensures
        r@ == discovery_request_spec(ssrc),
        r@.len() == DISCOVERY_LEN,
{
    let mut r: Vec<u8> = vec![0u8, 1u8, 0u8, 70u8];
    let b = u32_to_be(ssrc);
    r.push(b[0]);
    r.push(b[1]);
    r.push(b[2]);
    r.push(b[3]);
    while r.len() < DISCOVERY_LEN
        invariant
            8 <= r@.len() <= DISCOVERY_LEN,
            b@ == u32_be(ssrc),
            r@ == seq![0u8, 1u8, 0u8, 70u8] + b@ + Seq::new((r@.len() - 8) as nat, |i: int| 0u8),
        decreases DISCOVERY_LEN - r@.len(),
    {
        r.push(0u8);
        assert(r@ =~= seq![0u8, 1u8, 0u8, 70u8] + b@ + Seq::new((r@.len() - 8) as nat, |i: int| 0u8));
    }
    r
}

/// The public IP of a discovery reply ends at byte `e`: the first zero
/// byte from byte 4 on.
pub open spec fn ip_ends_at(reply: Seq<u8>, e: int) -> bool {
    &&& 4 <= e < reply.len()
    &&& reply[e] == 0
    &&& forall|m: int| 4 <= m < e ==> reply[m] != 0
}

/// Reads a discovery reply: the public IP is the text at byte 4 up to the
/// first zero byte, the port the big-endian value of bytes 68 and 69. A
/// reply with no zero after byte 4 or whose IP is not UTF-8 is an I/O error.
pub fn parse_discovery(reply: &[u8]) -> (r: Result<(String, u16), DiscordError>)
    requires
        reply@.len() == DISCOVERY_LEN,
    ensures
        r matches Ok((ip, port)) ==> exists|e: int| #[trigger] ip_ends_at(reply@, e)
            && valid_utf8(reply@.subrange(4, e))
            && ip@ == decode_utf8(reply@.subrange(4, e))
            && port == be16(reply@[68], reply@[69]),
        r is Err ==> r->Err_0 is IoError,
        r is Err ==> (forall|e: int| 4 <= e < reply@.len() ==> reply@[e] != 0)
            || exists|e: int| #[trigger] ip_ends_at(reply@, e) && !valid_utf8(reply@.subrange(4, e)),
{
    let mut n: usize = 0;
    while 4 + n < reply.len() && reply[4 + n] != 0
        invariant
            reply@.len() == DISCOVERY_LEN,
            4 + n <= reply@.len(),
            forall|m: int| 4 <= m < 4 + n ==> reply@[m] != 0,
        decreases reply@.len() - n,
    {
        n = n + 1;
    }
    if 4 + n >= reply.len() {
        return Err(DiscordError::IoError("invalid IP found".to_owned()));
    }
    let ip_bytes = &reply[4..4 + n];
    assert(ip_ends_at(reply@, 4 + n as int));
    match utf8_text(ip_bytes) {
        Some(ip) => {
            let port: u16 = (reply[68] as u16) * 256 + (reply[69] as u16);
            Ok((ip, port))
        },
        None => Err(DiscordError::IoError("invalid IP found".to_owned())),
    }
}

/// Whether discovery is tried again after `failed` failed attempts.
pub fn retry_discovery(failed: u32) -> (r: bool)
    ensures
        r == (failed < DISCOVERY_ATTEMPTS),
{
    failed < DISCOVERY_ATTEMPTS
}

/// Something the gateway's owner must do on its behalf.
#[derive(Debug)]
pub enum GatewayAction {
    /// Send this message on the control channel.
    Send(Outbound),
    /// Give reads of the control channel this timeout, in milliseconds.
    SetReadTimeout(u64),
    /// Bind a UDP socket, connect it to the voice server at `ip:port`, run
    /// IP discovery, then hand the result to `udp_discovered`.
    OpenUdp { ip: String, port: u16 },
    /// Set the shared connection state.
    SetState(ConnectionState),
}

/// Sum of the samples of a round-trip history.
pub open spec fn sum_of(s: Seq<u64>) -> int
    decreases s.len(),
{
    if s.len() == 0 {
        0
    } else {
        sum_of(s.drop_last()) + s.last()
    }
}

proof fn lemma_sum_bound(s: Seq<u64>)
    ensures
        0 <= sum_of(s) <= s.len() * 0xffff_ffff_ffff_ffff,
    decreases s.len(),
{
    if s.len() > 0 {
        lemma_sum_bound(s.drop_last());
    }
}

/// Whether a heartbeat is due at `now_us`: at least the interval has passed,
/// in whole milliseconds, since the last one.
pub open spec fn heartbeat_due_spec(last_us: u64, interval_ms: u64, now_us: u64) -> bool {
    now_us >= last_us && (now_us - last_us) / 1000 >= interval_ms
}

/// Heartbeat cadence: after a heartbeat at `sent_us`, the next one goes
/// out at the first poll at least the interval later, so when polls come at
/// most `gap_us` apart it leaves between the interval and the interval plus
/// one millisecond plus `gap_us` after the previous one.
pub proof fn lemma_heartbeat_cadence(sent_us: u64, interval_ms: u64, prev_poll_us: u64, now_us: u64, gap_us: u64)
    requires
        sent_us <= prev_poll_us <= now_us,
        now_us - prev_poll_us <= gap_us,
        !heartbeat_due_spec(sent_us, interval_ms, prev_poll_us),
        heartbeat_due_spec(sent_us, interval_ms, now_us),
    ensures
        interval_ms * 1000 <= now_us - sent_us < interval_ms * 1000 + 1000 + gap_us,
{
    let a = (now_us - sent_us) as int;
    let b = (prev_poll_us - sent_us) as int;
    assert(a / 1000 >= interval_ms ==> a >= interval_ms * 1000) by (nonlinear_arith)
        requires
            a >= 0,
    ;
    assert(b / 1000 < interval_ms ==> b < interval_ms * 1000 + 1000) by (nonlinear_arith)
        requires
            b >= 0,
    ;
}

/// The history after recording `rtt`: the oldest sample leaves when full.
pub open spec fn record_ack(acks: Seq<u64>, rtt: u64) -> Seq<u64> {
    if acks.len() >= ACK_HISTORY {
        acks.subrange(acks.len() - ACK_HISTORY + 1, acks.len() as int).push(rtt)
    } else {
        acks.push(rtt)
    }
}

/// The handshake results and the shared state agree.
pub open spec fn same_handshake(a: GatewayState, b: GatewayState) -> bool {
    &&& a.ssrc == b.ssrc
    &&& a.port == b.port
    &&& a.endpoint_ip == b.endpoint_ip
    &&& a.encryption == b.encryption
    &&& a.secret_key == b.secret_key
    &&& a.state == b.state
}

/// The heartbeat timing and the round-trip history agree.
pub open spec fn same_timing(a: GatewayState, b: GatewayState) -> bool {
    &&& a.heartbeat_interval_ms == b.heartbeat_interval_ms
    &&& a.last_heartbeat_us == b.last_heartbeat_us
    &&& a.acks() == b.acks()
}

/// The identity and the close code agree.
pub open spec fn same_identity(a: GatewayState, b: GatewayState) -> bool {
    &&& a.endpoint == b.endpoint
    &&& a.user_id == b.user_id
    &&& a.server_id == b.server_id
    &&& a.session_id == b.session_id
    &&& a.token == b.token
    &&& a.close_code == b.close_code
}

/// The control-channel state of a voice connection: identity, handshake
/// results, heartbeat timing and the round-trip history. Clocks are in
/// microseconds of a monotonic clock.
pub struct GatewayState {
    pub endpoint: String,
    pub user_id: String,
    pub server_id: String,
    pub session_id: String,
    pub token: String,
    pub heartbeat_interval_ms: u64,
    pub last_heartbeat_us: u64,
    pub ssrc: u32,
    pub port: u16,
    pub encryption: EncryptionMode,
    pub endpoint_ip: String,
    pub recent_acks: VecDeque<u64>,
    pub secret_key: [u8; 32],
    pub close_code: u16,
    pub state: ConnectionState,
}

impl GatewayState {
    /// The round-trip samples, oldest first, in microseconds.
    pub open spec fn acks(&self) -> Seq<u64> {
        self.recent_acks@
    }

    /// At most `ACK_HISTORY` samples are kept.
    pub open spec fn wf(&self) -> bool {
        self.acks().len() <= ACK_HISTORY
    }

    /// The handshake has produced a session key.
    pub open spec fn has_key(&self) -> bool {
        exists|i: int| 0 <= i < 32 && self.secret_key@[i] != 0
    }

    /// A gateway for the given identity, before any message: no heartbeat
    /// interval yet, no key, state `Disconnected`.
    pub fn new(endpoint: String, user_id: String, server_id: String, session_id: String, token: String, now_us: u64) -> (r: GatewayState)
        ensures
            r.wf(),
            r.endpoint == endpoint,
            r.user_id == user_id,
            r.server_id == server_id,
            r.session_id == session_id,
            r.token == token,
            r.heartbeat_interval_ms == u64::MAX,
            r.last_heartbeat_us == now_us,
            r.ssrc == 0,
            r.port == 0,
            r.encryption == EncryptionMode::XSalsa20Poly1305,
            r.endpoint_ip@.len() == 0,
            r.acks().len() == 0,
            r.secret_key@ == Seq::new(32, |i: int| 0u8),
            !r.has_key(),
            r.close_code == 0,
            r.state == ConnectionState::Disconnected,
    {
        let r = GatewayState {
            endpoint,
            user_id,
            server_id,
            session_id,
            token,
            heartbeat_interval_ms: u64::MAX,
            last_heartbeat_us: now_us,
            ssrc: 0,
            port: 0,
            encryption: EncryptionMode::default_mode(),
            endpoint_ip: String::new(),
            recent_acks: VecDeque::new(),
            secret_key: [0u8; 32],
            close_code: 0,
            state: ConnectionState::Disconnected,
        };
        assert(r.secret_key@ =~= Seq::new(32, |i: int| 0u8));
        r
    }

    /// Whether a heartbeat is due at `now_us`.
    pub fn heartbeat_due(&self, now_us: u64) -> (r: bool)
        ensures
            r == heartbeat_due_spec(self.last_heartbeat_us, self.heartbeat_interval_ms, now_us),
    {
        now_us >= self.last_heartbeat_us && (now_us - self.last_heartbeat_us) / 1000 >= self.heartbeat_interval_ms
    }

    /// First part of a poll: when a heartbeat is due, the heartbeat `hb` is
    /// to be sent and the heartbeat clock restarts at `now_us`.
    pub fn poll_heartbeat(&mut self, now_us: u64, hb: Heartbeat) -> (r: Option<Outbound>)
        ensures
            heartbeat_due_spec(old(self).last_heartbeat_us, old(self).heartbeat_interval_ms, now_us) ==> (r matches Some(Outbound::Heartbeat(h)) && h == hb && final(self).last_heartbeat_us == now_us),
            !heartbeat_due_spec(old(self).last_heartbeat_us, old(self).heartbeat_interval_ms, now_us) ==> r is None && final(self).last_heartbeat_us == old(self).last_heartbeat_us,
            final(self).heartbeat_interval_ms == old(self).heartbeat_interval_ms,
            final(self).acks() == old(self).acks(),
            final(self).secret_key == old(self).secret_key,
            final(self).state == old(self).state,
    {
        if self.heartbeat_due(now_us) {
            self.last_heartbeat_us = now_us;
            Some(Outbound::Heartbeat(hb))
        } else {
            None
        }
    }

    /// Records a round trip at `now_us`, measured from the last heartbeat.
    pub fn handle_heartbeat_ack(&mut self, now_us: u64)
        requires
            old(self).wf(),
        ensures
            final(self).wf(),
            final(self).acks() == record_ack(old(self).acks(), if now_us >= old(self).last_heartbeat_us {
                (now_us - old(self).last_heartbeat_us) as u64
            } else {
                0
            }),
            final(self).last_heartbeat_us == old(self).last_heartbeat_us,
            final(self).heartbeat_interval_ms == old(self).heartbeat_interval_ms,
            same_handshake(*final(self), *old(self)),
            same_identity(*final(self), *old(self)),
    {
        let rtt: u64 = if now_us >= self.last_heartbeat_us {
            now_us - self.last_heartbeat_us
        } else {
            0
        };
        if self.recent_acks.len() >= ACK_HISTORY {
            self.recent_acks.pop_front();
        }
        self.recent_acks.push_back(rtt);
    }

    /// Handles one inbound message at `now_us` and says what is to be done.
    /// Hello sets the heartbeat interval, restarts the heartbeat clock and
    /// asks for the read timeout. Ready stores SSRC, port and IP, picks the
    /// first known mode offered and asks for the UDP path. A heartbeat ack
    /// records a round trip. A session description stores mode and key and
    /// moves to `Connected`; an unknown mode there is an I/O error. Other
    /// messages change nothing.
    pub fn handle(&mut self, msg: OpCode, now_us: u64) -> (r: Result<Vec<GatewayAction>, DiscordError>)
        requires
            old(self).wf(),
        ensures
            final(self).wf(),
            same_identity(*final(self), *old(self)),
            match msg {
                OpCode::Hello(h) => r matches Ok(a) && a@.len() == 1 && a@[0] == GatewayAction::SetReadTimeout(READ_TIMEOUT_MS)
                    && final(self).heartbeat_interval_ms == h.heartbeat_interval_ms
                    && final(self).last_heartbeat_us == now_us
                    && final(self).acks() == old(self).acks()
                    && same_handshake(*final(self), *old(self)),
                OpCode::Ready(ready) => r matches Ok(a) && a@.len() == 1
                    && (a@[0] matches GatewayAction::OpenUdp { ip, port } && ip@ == ready.ip@ && port == ready.port)
                    && final(self).ssrc == ready.ssrc
                    && final(self).port == ready.port
                    && final(self).endpoint_ip@ == ready.ip@
                    && final(self).encryption == negotiated_mode(ready.modes@)
                    && final(self).secret_key == old(self).secret_key
                    && final(self).state == old(self).state
                    && same_timing(*final(self), *old(self)),
                OpCode::HeartbeatAck(_) => r matches Ok(a) && a@.len() == 0
                    && final(self).acks() == record_ack(old(self).acks(), if now_us >= old(self).last_heartbeat_us {
                        (now_us - old(self).last_heartbeat_us) as u64
                    } else {
                        0
                    })
                    && final(self).heartbeat_interval_ms == old(self).heartbeat_interval_ms
                    && final(self).last_heartbeat_us == old(self).last_heartbeat_us
                    && same_handshake(*final(self), *old(self)),
                OpCode::SessionDescription(sd) => if exists|m: EncryptionMode| sd.mode@ == mode_name(m) {
                    r matches Ok(a) && a@.len() == 1 && a@[0] == GatewayAction::SetState(ConnectionState::Connected)
                        && sd.mode@ == mode_name(final(self).encryption)
                        && final(self).secret_key == sd.secret_key
                        && final(self).state == ConnectionState::Connected
                        && final(self).ssrc == old(self).ssrc
                        && final(self).port == old(self).port
                        && final(self).endpoint_ip == old(self).endpoint_ip
                        && same_timing(*final(self), *old(self))
                } else {
                    r is Err && r->Err_0 is IoError
                        && same_handshake(*final(self), *old(self))
                        && same_timing(*final(self), *old(self))
                },
                _ => r matches Ok(a) && a@.len() == 0
                    && same_handshake(*final(self), *old(self))
                    && same_timing(*final(self), *old(self)),
            },
    {
        match msg {
            OpCode::Hello(h) => {
                self.heartbeat_interval_ms = h.heartbeat_interval_ms;
                self.last_heartbeat_us = now_us;
                Ok(vec![GatewayAction::SetReadTimeout(READ_TIMEOUT_MS)])
            },
            OpCode::Ready(ready) => {
                self.ssrc = ready.ssrc;
                self.port = ready.port;
                self.encryption = ready.selected_mode();
                self.endpoint_ip = ready.ip.clone();
                Ok(vec![GatewayAction::OpenUdp { ip: ready.ip, port: ready.port }])
            },
            OpCode::HeartbeatAck(_) => {
                self.handle_heartbeat_ack(now_us);
                Ok(Vec::new())
            },
            OpCode::SessionDescription(sd) => {
                match EncryptionMode::from_name(sd.mode.as_str()) {
                    Ok(m) => {
                        self.encryption = m;
                        self.secret_key = sd.secret_key;
                        self.state = ConnectionState::Connected;
                        Ok(vec![GatewayAction::SetState(ConnectionState::Connected)])
                    },
                    Err(e) => Err(e),
                }
            },
            _ => Ok(Vec::new()),
        }
    }

    /// The message that selects the UDP path once discovery found the
    /// public `ip` and `port`.
    pub fn udp_discovered(&self, ip: String, port: u16) -> (r: Outbound)
        ensures
            r == (Outbound::SelectProtocol { address: ip, port, mode: self.encryption }),
    {
        Outbound::SelectProtocol { address: ip, port, mode: self.encryption }
    }

    /// The server closed the channel, with `code` if it sent one: the code
    /// is kept, the state becomes `Disconnected` (returned for the shared
    /// state) and the poll fails with `ConnectionClosed`.
    pub fn handle_close(&mut self, code: Option<u16>) -> (r: (ConnectionState, DiscordError))
        ensures
            final(self).close_code == match code {
                Some(c) => c,
                None => old(self).close_code,
            },
            final(self).state == ConnectionState::Disconnected,
            r.0 == ConnectionState::Disconnected,
            r.1 == DiscordError::ConnectionClosed(final(self).close_code),
            final(self).acks() == old(self).acks(),
            final(self).secret_key == old(self).secret_key,
    {
        match code {
            Some(c) => {
                self.close_code = c;
            },
            None => {},
        }
        self.state = ConnectionState::Disconnected;
        (ConnectionState::Disconnected, DiscordError::ConnectionClosed(self.close_code))
    }

    /// The client closes the channel with `code`: the code is kept and the
    /// state becomes `Disconnected` (returned for the shared state).
    pub fn close(&mut self, code: u16) -> (r: ConnectionState)
        ensures
            final(self).close_code == code,
            final(self).state == ConnectionState::Disconnected,
            r == ConnectionState::Disconnected,
            final(self).acks() == old(self).acks(),
            final(self).secret_key == old(self).secret_key,
    {
        self.close_code = code;
        self.state = ConnectionState::Disconnected;
        ConnectionState::Disconnected
    }

    /// Whether the handshake has produced a session key (any non-zero byte).
    pub fn session_ready(&self) -> (r: bool)
        ensures
            r == self.has_key(),
    {
        let mut i: usize = 0;
        while i < 32
            invariant
                0 <= i <= 32,
                forall|j: int| 0 <= j < i ==> self.secret_key@[j] == 0,
            decreases 32 - i,
        {
            if self.secret_key[i] != 0 {
                return true;
            }
            i = i + 1;
        }
        false
    }

    /// The message sent after Hello: identify on a new session, resume on
    /// a reconnection.
    pub fn handshake_message(&self, resume: bool) -> (r: Outbound)
        ensures
            !resume ==> r == (Outbound::Identify {
                server_id: self.server_id,
                user_id: self.user_id,
                session_id: self.session_id,
                token: self.token,
            }),
            resume ==> r == (Outbound::Resume { token: self.token, server_id: self.server_id, session_id: self.session_id }),
    {
        if resume {
            Outbound::Resume { token: self.token.clone(), server_id: self.server_id.clone(), session_id: self.session_id.clone() }
        } else {
            Outbound::Identify {
                server_id: self.server_id.clone(),
                user_id: self.user_id.clone(),
                session_id: self.session_id.clone(),
                token: self.token.clone(),
            }
        }
    }

    /// The speaking message for `flags`, with no delay and our SSRC.
    pub fn speaking_message(&self, flags: SpeakingType) -> (r: Outbound)
        ensures
            r == (Outbound::Speaking { speaking: flags.bits, delay: 0, ssrc: self.ssrc }),
    {
        Outbound::Speaking { speaking: flags.bits(), delay: 0, ssrc: self.ssrc }
    }

    /// The most recent round trip, in microseconds.
    pub fn latency(&self) -> (r: Option<u64>)
        ensures
            self.acks().len() == 0 ==> r is None,
            self.acks().len() > 0 ==> r == Some(self.acks().last()),
    {
        let n = self.recent_acks.len();
        if n == 0 {
            None
        } else {
            Some(self.recent_acks[n - 1])
        }
    }

    /// The mean of the kept round trips, in microseconds (rounded down).
    pub fn average_latency(&self) -> (r: Option<u64>)
        requires
            self.wf(),
        ensures
            self.acks().len() == 0 ==> r is None,
            self.acks().len() > 0 ==> (r matches Some(v) && v == sum_of(self.acks()) / self.acks().len() as int),
    {
        let n = self.recent_acks.len();
        if n == 0 {
            return None;
        }
        let mut sum: u128 = 0;
        let mut i: usize = 0;
        while i < n
            invariant
                0 <= i <= n,
                n == self.acks().len(),
                n <= ACK_HISTORY,
                sum == sum_of(self.acks().subrange(0, i as int)),
            decreases n - i,
        {
            proof {
                lemma_sum_bound(self.acks().subrange(0, i as int));
                assert(self.acks().subrange(0, i + 1).drop_last() =~= self.acks().subrange(0, i as int));
            }
            sum = sum + self.recent_acks[i] as u128;
            i = i + 1;
        }
        assert(self.acks().subrange(0, n as int) =~= self.acks());
        proof {
            lemma_sum_bound(self.acks());
        }
        let avg: u128 = sum / (n as u128);
        assert(avg <= 0xffff_ffff_ffff_ffff) by (nonlinear_arith)
            requires
                avg == (sum as int) / (n as int),
                1 <= n,
                sum <= n * 0xffff_ffff_ffff_ffff,
        ;
        Some(avg as u64)
    }
}

/// A required field is missing when absent or empty.
pub open spec fn missing(f: Option<String>) -> bool {
    f is None || f->Some_0@.len() == 0
}

/// Collects the identity of a gateway before connecting.
#[derive(Debug, Clone)]
pub struct VoiceGatewayBuilder {
    pub endpoint: Option<String>,
    pub user_id: Option<String>,
    pub server_id: Option<String>,
    pub session_id: Option<String>,
    pub token: Option<String>,
}

impl VoiceGatewayBuilder {
    /// A builder with no field set.
    pub fn new() -> (r: VoiceGatewayBuilder)
        ensures
            r.endpoint is None && r.user_id is None && r.server_id is None && r.session_id is None && r.token is None,
    {
        VoiceGatewayBuilder { endpoint: None, user_id: None, server_id: None, session_id: None, token: None }
    }

    /// Sets the voice server's host name.
    pub fn endpoint(&mut self, endpoint: &str) -> (r: &mut Self)
        ensures
            r.endpoint matches Some(e) && e@ == endpoint@,
            r.user_id == old(self).user_id && r.server_id == old(self).server_id && r.session_id == old(self).session_id && r.token == old(self).token,
            *final(self) == *final(r),
    {
        self.endpoint = Some(endpoint.to_owned());
        self
    }

    /// Sets the user id.
    pub fn user_id(&mut self, user_id: &str) -> (r: &mut Self)
        ensures
            r.user_id matches Some(e) && e@ == user_id@,
            r.endpoint == old(self).endpoint && r.server_id == old(self).server_id && r.session_id == old(self).session_id && r.token == old(self).token,
            *final(self) == *final(r),
    {
        self.user_id = Some(user_id.to_owned());
        self
    }

    /// Sets the server (guild) id.
    pub fn server_id(&mut self, server_id: &str) -> (r: &mut Self)
        ensures
            r.server_id matches Some(e) && e@ == server_id@,
            r.endpoint == old(self).endpoint && r.user_id == old(self).user_id && r.session_id == old(self).session_id && r.token == old(self).token,
            *final(self) == *final(r),
    {
        self.server_id = Some(server_id.to_owned());
        self
    }

    /// Sets the session id.
    pub fn session_id(&mut self, session_id: &str) -> (r: &mut Self)
        ensures
            r.session_id matches Some(e) && e@ == session_id@,
            r.endpoint == old(self).endpoint && r.user_id == old(self).user_id && r.server_id == old(self).server_id && r.token == old(self).token,
            *final(self) == *final(r),
    {
        self.session_id = Some(session_id.to_owned());
        self
    }

    /// Sets the token.
    pub fn token(&mut self, token: &str) -> (r: &mut Self)
        ensures
            r.token matches Some(e) && e@ == token@,
            r.endpoint == old(self).endpoint && r.user_id == old(self).user_id && r.server_id == old(self).server_id && r.session_id == old(self).session_id,
            *final(self) == *final(r),
    {
        self.token = Some(token.to_owned());
        self
    }

    /// The gateway state for the collected identity, or `MissingField`
    /// naming the first field (endpoint, user_id, server_id, session_id,
    /// token) that is absent or empty.
    pub fn build(&self, now_us: u64) -> (r: Result<GatewayState, DiscordError>)
        ensures
            missing(self.endpoint) ==> (r matches Err(DiscordError::BuilderMissingRequiredField(f)) && f@ == "endpoint"@),
            !missing(self.endpoint) && missing(self.user_id) ==> (r matches Err(DiscordError::BuilderMissingRequiredField(f)) && f@ == "user_id"@),
            !missing(self.endpoint) && !missing(self.user_id) && missing(self.server_id) ==> (r matches Err(DiscordError::BuilderMissingRequiredField(f)) && f@ == "server_id"@),
            !missing(self.endpoint) && !missing(self.user_id) && !missing(self.server_id) && missing(self.session_id) ==> (r matches Err(DiscordError::BuilderMissingRequiredField(f)) && f@ == "session_id"@),
            !missing(self.endpoint) && !missing(self.user_id) && !missing(self.server_id) && !missing(self.session_id) && missing(self.token) ==> (r matches Err(DiscordError::BuilderMissingRequiredField(f)) && f@ == "token"@),
            r is Ok <==> !missing(self.endpoint) && !missing(self.user_id) && !missing(self.server_id) && !missing(self.session_id) && !missing(self.token),
            r matches Ok(g) ==> {
                &&& g.wf()
                &&& Some(g.endpoint) == self.endpoint
                &&& Some(g.user_id) == self.user_id
                &&& Some(g.server_id) == self.server_id
                &&& Some(g.session_id) == self.session_id
                &&& Some(g.token) == self.token
                &&& g.heartbeat_interval_ms == u64::MAX
                &&& g.last_heartbeat_us == now_us
                &&& g.acks().len() == 0
                &&& g.ssrc == 0
                &&& g.port == 0
                &&& g.encryption == EncryptionMode::XSalsa20Poly1305
                &&& g.close_code == 0
                &&& !g.has_key()
                &&& g.state == ConnectionState::Disconnected
            },
    {
        let endpoint = match &self.endpoint {
            Some(e) if !e.as_str().is_empty() => e.clone(),
            _ => return Err(DiscordError::BuilderMissingRequiredField("endpoint".to_owned())),
        };
        let user_id = match &self.user_id {
            Some(e) if !e.as_str().is_empty() => e.clone(),
            _ => return Err(DiscordError::BuilderMissingRequiredField("user_id".to_owned())),
        };
        let server_id = match &self.server_id {
            Some(e) if !e.as_str().is_empty() => e.clone(),
            _ => return Err(DiscordError::BuilderMissingRequiredField("server_id".to_owned())),
        };
        let session_id = match &self.session_id {
            Some(e) if !e.as_str().is_empty() => e.clone(),
            _ => return Err(DiscordError::BuilderMissingRequiredField("session_id".to_owned())),
        };
        let token = match &self.token {
            Some(e) if !e.as_str().is_empty() => e.clone(),
            _ => return Err(DiscordError::BuilderMissingRequiredField("token".to_owned())),
        };
        Ok(GatewayState::new(endpoint, user_id, server_id, session_id, token, now_us))
    }
}

/// The connection settings a caller fills in before connecting.
#[derive(Debug, Clone)]
pub struct VoiceConnector {
    pub session_id: String,
    pub user_id: String,
    pub server_id: String,
    pub endpoint: String,
    pub token: String,
}

impl VoiceConnector {
    /// All settings empty.
    pub fn new() -> (r: VoiceConnector)
        ensures
            r.session_id@.len() == 0 && r.user_id@.len() == 0 && r.server_id@.len() == 0,
            r.endpoint@.len() == 0 && r.token@.len() == 0,
    {
        VoiceConnector {
            session_id: String::new(),
            user_id: String::new(),
            server_id: String::new(),
            endpoint: String::new(),
            token: String::new(),
        }
    }

    /// Sets token, server id and endpoint; user and session ids are set
    /// directly.
    pub fn update_connection_config(&mut self, token: &str, server_id: &str, endpoint: &str)
        ensures
            final(self).token@ == token@,
            final(self).server_id@ == server_id@,
            final(self).endpoint@ == endpoint@,
            final(self).user_id == old(self).user_id,
            final(self).session_id == old(self).session_id,
    {
        self.token = token.to_owned();
        self.server_id = server_id.to_owned();
        self.endpoint = endpoint.to_owned();
    }

    /// A builder holding every setting.
    pub fn builder(&self) -> (r: VoiceGatewayBuilder)
        ensures
            r.endpoint == Some(self.endpoint),
            r.session_id == Some(self.session_id),
            r.user_id == Some(self.user_id),
            r.token == Some(self.token),
            r.server_id == Some(self.server_id),
    {
        VoiceGatewayBuilder {
            endpoint: Some(self.endpoint.clone()),
            user_id: Some(self.user_id.clone()),
            server_id: Some(self.server_id.clone()),
            session_id: Some(self.session_id.clone()),
            token: Some(self.token.clone()),
        }
    }
}

} // verus!
