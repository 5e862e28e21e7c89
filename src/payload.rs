use vstd::prelude::*;
use crate::crypto::{mode_name, EncryptionMode};
use crate::error::DiscordError;

verus! {

/// std's wall-clock time, carried through opaquely.
#[verifier::external_type_specification]
#[verifier::external_body]
pub struct ExSystemTime(std::time::SystemTime);

/// std's error for a clock that reads before a given time, carried through
/// opaquely.
#[verifier::external_type_specification]
#[verifier::external_body]
pub struct ExSystemTimeError(std::time::SystemTimeError);

/// Relies on `SystemTime::now`: the current wall-clock time; nothing is
/// promised of its value.
pub assume_specification[ std::time::SystemTime::now ]() -> std::time::SystemTime;

/// Relies on `SystemTime::duration_since`: the time elapsed since `earlier`,
/// or an error when `earlier` is later; nothing is promised of the value.
pub assume_specification[ std::time::SystemTime::duration_since ](
    t: &std::time::SystemTime,
    earlier: std::time::SystemTime,
) -> Result<core::time::Duration, std::time::SystemTimeError>;

/// Relies on `Duration::as_millis`: whole milliseconds of a duration.
pub assume_specification[ core::time::Duration::as_millis ](d: &core::time::Duration) -> u128;

/// Relies on std's `UNIX_EPOCH` constant.
#[verifier::external_body]
fn unix_epoch() -> std::time::SystemTime {
    std::time::UNIX_EPOCH
}

/// Who is speaking, as a bit set: microphone, screen-share sound, priority.
#[derive(Debug, Clone, Copy, PartialEq, Eq, Structural)]
pub struct SpeakingType {
    pub bits: u8,
}

/// The speaking bits of a set of flags.
pub open spec fn speaking_bits(microphone: bool, soundshare: bool, priority: bool) -> u8 {
    ((if microphone { 1int } else { 0 }) + (if soundshare { 2int } else { 0 }) + (if priority { 4int } else { 0 })) as u8
}

impl SpeakingType {
    /// Speaking through the microphone.
    pub fn microphone() -> (r: SpeakingType)
        ensures
            r.bits == 1,
    {
        SpeakingType { bits: 1 }
    }

    /// Sharing screen sound.
    pub fn soundshare() -> (r: SpeakingType)
        ensures
            r.bits == 2,
    {
        SpeakingType { bits: 2 }
    }

    /// Priority speaker.
    pub fn priority() -> (r: SpeakingType)
        ensures
            r.bits == 4,
    {
        SpeakingType { bits: 4 }
    }

    /// Not speaking.
    pub fn empty() -> (r: SpeakingType)
        ensures
            r.bits == 0,
    {
        SpeakingType { bits: 0 }
    }

    /// A flag set from its three flags.
    pub fn from_flags(microphone: bool, soundshare: bool, priority: bool) -> (r: SpeakingType)
        ensures
            r.bits == speaking_bits(microphone, soundshare, priority),
    {
        let mut b: u8 = 0;
        if microphone {
            b = b + 1;
        }
        if soundshare {
            b = b + 2;
        }
        if priority {
            b = b + 4;
        }
        SpeakingType { bits: b }
    }

    /// The bits sent on the wire.
    pub fn bits(&self) -> (r: u8)
        ensures
            r == self.bits,
    {
        self.bits
    }
}

/// A heartbeat carrying the Unix time in milliseconds.
#[derive(Debug, Clone, Copy, PartialEq, Eq, Structural)]
pub struct Heartbeat(pub u64);

impl Heartbeat {
    /// A heartbeat for a clock reading of `ms` milliseconds since the Unix
    /// epoch: saturated to `u64::MAX`, and 0 when the clock reads before the
    /// epoch (`None`).
    pub fn from_elapsed_ms(ms: Option<u128>) -> (r: Heartbeat)
        ensures
            r.0 == match ms {
                Some(m) => if m > u64::MAX { u64::MAX } else { m as u64 },
                None => 0,
            },
    {
        match ms {
            Some(m) => if m > u64::MAX as u128 {
                Heartbeat(u64::MAX)
            } else {
                Heartbeat(m as u64)
            },
            None => Heartbeat(0),
        }
    }

    /// A heartbeat stamped with the current Unix time in milliseconds, as
    /// `from_elapsed_ms` turns the clock reading into one.
    pub fn now() -> (r: Heartbeat) {
        let now = std::time::SystemTime::now();
        let ms = match now.duration_since(unix_epoch()) {
            Ok(d) => Some(d.as_millis()),
            Err(_) => None,
        };
        Self::from_elapsed_ms(ms)
    }
}

/// What the server reports once identified.
#[derive(Debug, Clone)]
pub struct Ready {
    pub ssrc: u32,
    pub ip: String,
    pub port: u16,
    pub modes: Vec<String>,
}

/// The modes among `names` the client knows, in the server's order.
pub open spec fn known_modes(names: Seq<String>) -> Seq<EncryptionMode>
    decreases names.len(),
{
    if names.len() == 0 {
        Seq::empty()
    } else {
        let rest = known_modes(names.drop_last());
        let n = names.last()@;
        if n == mode_name(EncryptionMode::XSalsa20Poly1305) {
            rest.push(EncryptionMode::XSalsa20Poly1305)
        } else if n == mode_name(EncryptionMode::XSalsa20Poly1305Suffix) {
            rest.push(EncryptionMode::XSalsa20Poly1305Suffix)
        } else if n == mode_name(EncryptionMode::XSalsa20Poly1305Lite) {
            rest.push(EncryptionMode::XSalsa20Poly1305Lite)
        } else {
            rest
        }
    }
}

/// The negotiated mode: the first one offered that the client knows,
/// the standard mode if none.
pub open spec fn negotiated_mode(names: Seq<String>) -> EncryptionMode {
    let known = known_modes(names);
    if known.len() > 0 {
        known[0]
    } else {
        EncryptionMode::XSalsa20Poly1305
    }
}

impl Ready {
    /// The offered modes the client knows, in the server's order.
    pub fn get_encryption_mode(&self) -> (r: Vec<EncryptionMode>)
        ensures
            r@ == known_modes(self.modes@),
    {
        let mut r: Vec<EncryptionMode> = Vec::new();
        let mut i: usize = 0;
        while i < self.modes.len()
            invariant
                0 <= i <= self.modes@.len(),
                r@ == known_modes(self.modes@.subrange(0, i as int)),
            decreases self.modes@.len() - i,
        {
            let ghost sub = self.modes@.subrange(0, i + 1);
            assert(sub.drop_last() =~= self.modes@.subrange(0, i as int));
            assert(sub.last() == self.modes@[i as int]);
            proof {
                reveal_strlit("xsalsa20_poly1305");
                reveal_strlit("xsalsa20_poly1305_suffix");
                reveal_strlit("xsalsa20_poly1305_lite");
                assert(mode_name(EncryptionMode::XSalsa20Poly1305).len() == 17);
                assert(mode_name(EncryptionMode::XSalsa20Poly1305Suffix).len() == 24);
                assert(mode_name(EncryptionMode::XSalsa20Poly1305Lite).len() == 22);
                assert(mode_name(EncryptionMode::XSalsa20Poly1305Lite) != mode_name(EncryptionMode::XSalsa20Poly1305Suffix));
            }
            match EncryptionMode::from_name(self.modes[i].as_str()) {
                Ok(m) => {
                    r.push(m);
                },
                Err(_) => {},
            }
            i = i + 1;
        }
        assert(self.modes@.subrange(0, self.modes@.len() as int) =~= self.modes@);
        r
    }

    /// The mode to select: the first known one offered, else the standard one.
    pub fn selected_mode(&self) -> (r: EncryptionMode)
        ensures
            r == negotiated_mode(self.modes@),
    {
        let known = self.get_encryption_mode();
        if known.len() > 0 {
            known[0]
        } else {
            EncryptionMode::default_mode()
        }
    }
}

/// The session key and mode the server settles on.
#[derive(Debug, Clone)]
pub struct SessionDescription {
    pub mode: String,
    pub secret_key: [u8; 32],
}

/// The first message of the server: how often to send heartbeats.
#[derive(Debug, Clone, Copy, PartialEq, Eq, Structural)]
pub struct Hello {
    pub heartbeat_interval_ms: u64,
}

/// The kinds of message the server sends, by operation code.
#[derive(Debug, Clone, Copy, PartialEq, Eq, Structural)]
pub enum InboundKind {
    Ready,
    SessionDescription,
    Speaking,
    HeartbeatAck,
    Hello,
    Resumed,
    ClientConnect,
    ClientDisconnect,
}

/// The operation code of each inbound kind.
pub open spec fn inbound_code(k: InboundKind) -> u8 {
    match k {
        InboundKind::Ready => 2,
        InboundKind::SessionDescription => 4,
        InboundKind::Speaking => 5,
        InboundKind::HeartbeatAck => 6,
        InboundKind::Hello => 8,
        InboundKind::Resumed => 9,
        InboundKind::ClientConnect => 12,
        InboundKind::ClientDisconnect => 13,
    }
}

/// Tells what an inbound message is from its operation code; an unknown
/// code is an `InvalidOpCode` error.
pub fn classify_op(op: u8) -> (r: Result<InboundKind, DiscordError>)
    ensures
        r matches Ok(k) ==> inbound_code(k) == op,
        r is Err ==> r == Err::<InboundKind, DiscordError>(DiscordError::InvalidOpCode(op)),
        (exists|k: InboundKind| inbound_code(k) == op) ==> r is Ok,
{
    match op {
        2 => Ok(InboundKind::Ready),
        4 => Ok(InboundKind::SessionDescription),
        5 => Ok(InboundKind::Speaking),
        6 => Ok(InboundKind::HeartbeatAck),
        8 => Ok(InboundKind::Hello),
        9 => Ok(InboundKind::Resumed),
        12 => Ok(InboundKind::ClientConnect),
        13 => Ok(InboundKind::ClientDisconnect),
        _ => Err(DiscordError::InvalidOpCode(op)),
    }
}

/// An inbound message with the fields the client reads.
#[derive(Debug, Clone)]
pub enum OpCode {
    Ready(Ready),
    SessionDescription(SessionDescription),
    Speaking(u8),
    HeartbeatAck(u64),
    Hello(Hello),
    Resumed,
    ClientConnect,
    ClientDisconnect,
}

/// An outbound message; its operation code is given by `op`.
#[derive(Debug, Clone)]
pub enum Outbound {
    Identify { server_id: String, user_id: String, session_id: String, token: String },
    SelectProtocol { address: String, port: u16, mode: EncryptionMode },
    Heartbeat(Heartbeat),
    Speaking { speaking: u8, delay: u32, ssrc: u32 },
    Resume { token: String, server_id: String, session_id: String },
}

/// The operation code of each outbound message.
pub open spec fn outbound_code(m: Outbound) -> u8 {
    match m {
        Outbound::Identify { .. } => 0,
        Outbound::SelectProtocol { .. } => 1,
        Outbound::Heartbeat(_) => 3,
        Outbound::Speaking { .. } => 5,
        Outbound::Resume { .. } => 7,
    }
}

impl Outbound {
    /// The operation code the message is sent under.
    pub fn op(&self) -> (r: u8)
        ensures
            r == outbound_code(*self),
    {
        match self {
            Outbound::Identify { .. } => 0,
            Outbound::SelectProtocol { .. } => 1,
            Outbound::Heartbeat(_) => 3,
            Outbound::Speaking { .. } => 5,
            Outbound::Resume { .. } => 7,
        }
    }
}

} // verus!
