use vstd::prelude::*;
use xsalsa20poly1305::aead::generic_array::GenericArray;
use xsalsa20poly1305::aead::{Aead, NewAead};
use xsalsa20poly1305::XSalsa20Poly1305;
use crate::error::DiscordError;
use vstd::slice::slice_to_vec;
use crate::rtp::{u32_be, u32_to_be, RTP_HEADER_LEN};

verus! {

/// The error of the `aead` traits (authentication failed), carried through
/// opaquely.
#[verifier::external_type_specification]
#[verifier::external_body]
pub struct ExAeadError(xsalsa20poly1305::aead::Error);

/// Relies on `rand::random`: a value from the thread's generator; nothing
/// is promised of it.
pub assume_specification<T>[ rand::random::<T> ]() -> (r: T)
    where
        rand::distributions::Standard: rand::distributions::Distribution<T>,
;

/// What XSalsa20-Poly1305 produces for a key, a 24-byte nonce and a message
/// with no associated data: the 16-byte tag followed by the ciphertext.
pub uninterp spec fn xsalsa20poly1305_sealed(key: Seq<u8>, nonce: Seq<u8>, msg: Seq<u8>) -> Seq<u8>;

/// Relies on xsalsa20poly1305's `Aead::encrypt`: with empty associated data
/// it cannot fail (it extends a `Vec`), and it returns the tag (16 bytes)
/// followed by the ciphertext, a function of key, nonce and message.
#[verifier::external_body]
fn seal(key: &[u8; 32], nonce: &[u8], msg: &[u8]) -> (r: Result<Vec<u8>, xsalsa20poly1305::aead::Error>)
    requires
        nonce@.len() == 24,
    ensures
        r is Ok,
        r matches Ok(c) ==> c@ == xsalsa20poly1305_sealed(key@, nonce@, msg@),
        r matches Ok(c) ==> c@.len() == msg@.len() + 16,
{
    XSalsa20Poly1305::new(GenericArray::from_slice(key)).encrypt(GenericArray::from_slice(nonce), msg)
}

/// Relies on xsalsa20poly1305's `Aead::decrypt`: it succeeds exactly when the
/// tag at the front authenticates the rest, and then returns the message
/// that sealing under the same key and nonce turns into `ct`. Input shorter
/// than the tag fails. The keystream
/// is XORed onto the message, so no other message seals to the same bytes.
#[verifier::external_body]
fn open(key: &[u8; 32], nonce: &[u8], ct: &[u8]) -> (r: Result<Vec<u8>, xsalsa20poly1305::aead::Error>)
    requires
        nonce@.len() == 24,
    ensures
        ct@.len() < 16 ==> r is Err,
        r matches Ok(p) ==> ct@ == xsalsa20poly1305_sealed(key@, nonce@, p@),
        (exists|m: Seq<u8>| ct@ == #[trigger] xsalsa20poly1305_sealed(key@, nonce@, m)) ==> r is Ok,
        r matches Ok(p) ==> forall|m: Seq<u8>| ct@ == #[trigger] xsalsa20poly1305_sealed(key@, nonce@, m) ==> m == p@,
{
    XSalsa20Poly1305::new(GenericArray::from_slice(key)).decrypt(GenericArray::from_slice(nonce), ct)
}

/// How the 24-byte nonce of each packet is chosen and carried.
#[derive(Debug, Clone, Copy, PartialEq, Eq, Structural)]
pub enum EncryptionMode {
    /// Nonce: the RTP header, zero-padded; sent as a 24-byte suffix.
    XSalsa20Poly1305,
    /// Nonce: 24 random bytes, sent as a suffix.
    XSalsa20Poly1305Suffix,
    /// Nonce: a 32-bit big-endian counter, zero-padded; its 4 bytes are sent.
    XSalsa20Poly1305Lite,
}

/// The wire name of each mode.
pub open spec fn mode_name(m: EncryptionMode) -> Seq<char> {
    match m {
        EncryptionMode::XSalsa20Poly1305 => "xsalsa20_poly1305"@,
        EncryptionMode::XSalsa20Poly1305Suffix => "xsalsa20_poly1305_suffix"@,
        EncryptionMode::XSalsa20Poly1305Lite => "xsalsa20_poly1305_lite"@,
    }
}

/// `n` zero bytes.
pub open spec fn zeros(n: nat) -> Seq<u8> {
    Seq::new(n, |i: int| 0u8)
}

/// The nonce used to seal a packet with RTP header `header`, lite counter
/// `lite` and random bytes `random` (only the suffix mode reads them).
pub open spec fn send_nonce(m: EncryptionMode, header: Seq<u8>, lite: u32, random: Seq<u8>) -> Seq<u8> {
    match m {
        EncryptionMode::XSalsa20Poly1305 => header + zeros(12),
        EncryptionMode::XSalsa20Poly1305Suffix => random,
        EncryptionMode::XSalsa20Poly1305Lite => u32_be(lite) + zeros(20),
    }
}

/// How many bytes of the nonce are sent after the sealed payload.
pub open spec fn sent_suffix_len(m: EncryptionMode) -> int {
    match m {
        EncryptionMode::XSalsa20Poly1305Lite => 4,
        _ => 24,
    }
}

/// The part of the nonce appended to the sealed payload.
pub open spec fn sent_suffix(m: EncryptionMode, nonce: Seq<u8>) -> Seq<u8> {
    match m {
        EncryptionMode::XSalsa20Poly1305Lite => nonce.subrange(0, 4),
        _ => nonce,
    }
}

/// What follows the RTP header on the wire: the sealed payload, then the
/// nonce suffix.
pub open spec fn sealed_payload(
    m: EncryptionMode,
    key: Seq<u8>,
    header: Seq<u8>,
    lite: u32,
    random: Seq<u8>,
    payload: Seq<u8>,
) -> Seq<u8> {
    let nonce = send_nonce(m, header, lite, random);
    xsalsa20poly1305_sealed(key, nonce, payload) + sent_suffix(m, nonce)
}

/// How many trailing bytes of a received frame carry the nonce.
pub open spec fn recv_suffix_len(m: EncryptionMode) -> int {
    match m {
        EncryptionMode::XSalsa20Poly1305 => 0,
        EncryptionMode::XSalsa20Poly1305Suffix => 24,
        EncryptionMode::XSalsa20Poly1305Lite => 4,
    }
}

/// The nonce of a received frame (header, then ciphertext, then suffix).
pub open spec fn recv_nonce(m: EncryptionMode, frame: Seq<u8>) -> Seq<u8> {
    match m {
        EncryptionMode::XSalsa20Poly1305 => frame.subrange(0, 12) + zeros(12),
        EncryptionMode::XSalsa20Poly1305Suffix => frame.subrange(frame.len() - 24, frame.len() as int),
        EncryptionMode::XSalsa20Poly1305Lite => frame.subrange(frame.len() - 4, frame.len() as int)
            + zeros(20),
    }
}

/// The sealed bytes of a received frame, between header and suffix.
pub open spec fn recv_sealed(m: EncryptionMode, frame: Seq<u8>) -> Seq<u8> {
    frame.subrange(12, frame.len() - recv_suffix_len(m))
}

/// `frame` is long enough for its mode and authenticates to `payload`.
pub open spec fn opens_to(m: EncryptionMode, key: Seq<u8>, frame: Seq<u8>, payload: Seq<u8>) -> bool {
    &&& frame.len() >= 12 + recv_suffix_len(m)
    &&& recv_sealed(m, frame) == xsalsa20poly1305_sealed(key, recv_nonce(m, frame), payload)
}

/// `prefix` followed by zero bytes up to `total` bytes.
fn zero_padded(prefix: &[u8], total: usize) -> (r: Vec<u8>)
    requires
        prefix@.len() <= total,
    ensures
        r@ == prefix@ + zeros((total - prefix@.len()) as nat),
{
    let mut r = slice_to_vec(prefix);
    while r.len() < total
        invariant
            prefix@.len() <= r@.len() <= total,
            r@ == prefix@ + zeros((r@.len() - prefix@.len()) as nat),
        decreases total - r.len(),
    {
        r.push(0u8);
        assert(r@ =~= prefix@ + zeros((r@.len() - prefix@.len()) as nat));
    }
    r
}

impl EncryptionMode {
    /// The mode negotiated when the server offers none the client knows.
    pub fn default_mode() -> (r: EncryptionMode)
        ensures
            r == EncryptionMode::XSalsa20Poly1305,
    {
        EncryptionMode::XSalsa20Poly1305
    }

    /// The wire name of the mode.
    pub fn name(&self) -> (r: &'static str)
        ensures
            r@ == mode_name(*self),
    {
        match self {
            EncryptionMode::XSalsa20Poly1305 => "xsalsa20_poly1305",
            EncryptionMode::XSalsa20Poly1305Suffix => "xsalsa20_poly1305_suffix",
            EncryptionMode::XSalsa20Poly1305Lite => "xsalsa20_poly1305_lite",
        }
    }

    /// Parses a wire name; any other text is an I/O error.
    pub fn from_name(s: &str) -> (r: Result<EncryptionMode, DiscordError>)
        ensures
            r matches Ok(m) ==> s@ == mode_name(m),
            r is Err ==> (forall|m: EncryptionMode| s@ != #[trigger] mode_name(m)),
            r is Err ==> r->Err_0 is IoError,
    {
        proof {
            reveal_strlit("xsalsa20_poly1305");
            reveal_strlit("xsalsa20_poly1305_suffix");
            reveal_strlit("xsalsa20_poly1305_lite");
        }
        let owned = s.to_owned();
        if owned == "xsalsa20_poly1305".to_owned() {
            Ok(EncryptionMode::XSalsa20Poly1305)
        } else if owned == "xsalsa20_poly1305_lite".to_owned() {
            Ok(EncryptionMode::XSalsa20Poly1305Lite)
        } else if owned == "xsalsa20_poly1305_suffix".to_owned() {
            Ok(EncryptionMode::XSalsa20Poly1305Suffix)
        } else {
            Err(DiscordError::IoError("Unknown encryption mode".to_owned()))
        }
    }

    /// Seals the payload in `buffer` for the packet whose RTP header is
    /// `header`, then appends the part of the nonce the mode sends. `lite`
    /// is the counter of the lite mode; `random` the nonce of the suffix mode.
    pub fn encrypt_with(&self, key: &[u8; 32], lite: u32, header: &[u8], random: &[u8], buffer: &mut Vec<u8>)
        requires
            header@.len() == RTP_HEADER_LEN,
            random@.len() == 24,
        ensures
            final(buffer)@ == sealed_payload(*self, key@, header@, lite, random@, old(buffer)@),
            final(buffer)@.len() == old(buffer)@.len() + 16 + sent_suffix_len(*self),
    {
        let nonce = match self {
            EncryptionMode::XSalsa20Poly1305 => zero_padded(header, 24),
            EncryptionMode::XSalsa20Poly1305Suffix => slice_to_vec(random),
            EncryptionMode::XSalsa20Poly1305Lite => {
                let be = u32_to_be(lite);
                zero_padded(be.as_slice(), 24)
            },
        };
        assert(nonce@ == send_nonce(*self, header@, lite, random@));
        let mut sealed = match seal(key, nonce.as_slice(), buffer.as_slice()) {
            Ok(c) => c,
            Err(_) => Vec::new(),
        };
        let mut suffix = match self {
            EncryptionMode::XSalsa20Poly1305Lite => slice_to_vec(&nonce.as_slice()[0..4]),
            _ => nonce,
        };
        assert(u32_be(lite).len() == 4);
        sealed.append(&mut suffix);
        *buffer = sealed;
    }

    /// Seals like `encrypt_with`, drawing the nonce of the suffix mode from
    /// the thread's random generator.
    pub fn encrypt(&self, key: &[u8; 32], lite: u32, header: &[u8], buffer: &mut Vec<u8>)
        requires
            header@.len() == RTP_HEADER_LEN,
        ensures
            exists|random: Seq<u8>|
                random.len() == 24 && final(buffer)@ == sealed_payload(*self, key@, header@, lite, random, old(buffer)@),
            final(buffer)@.len() == old(buffer)@.len() + 16 + sent_suffix_len(*self),
    {
        let random: [u8; 24] = rand::random();
        self.encrypt_with(key, lite, header, &random, buffer);
    }

    /// Authenticates and opens a received frame: RTP header, sealed payload,
    /// then the nonce suffix of the mode. On success `buffer` holds the
    /// payload and the header is returned; a frame too short for its mode
    /// or one that does not authenticate is an encryption error and leaves
    /// `buffer` as it was.
    pub fn decrypt(&self, key: &[u8; 32], buffer: &mut Vec<u8>) -> (r: Result<Vec<u8>, DiscordError>)
        ensures
            r is Ok <==> exists|p: Seq<u8>| opens_to(*self, key@, old(buffer)@, p),
            r matches Ok(h) ==> h@ == old(buffer)@.subrange(0, 12) && opens_to(*self, key@, old(buffer)@, final(buffer)@),
            forall|p: Seq<u8>| opens_to(*self, key@, old(buffer)@, p) ==> final(buffer)@ == p,
            r is Err ==> r == Err::<Vec<u8>, DiscordError>(DiscordError::EncryptionError) && final(buffer)@ == old(buffer)@,
            old(buffer)@.len() < 28 + recv_suffix_len(*self) ==> r is Err,
    {
        let len = buffer.len();
        let suffix_len: usize = match self {
            EncryptionMode::XSalsa20Poly1305 => 0,
            EncryptionMode::XSalsa20Poly1305Suffix => 24,
            EncryptionMode::XSalsa20Poly1305Lite => 4,
        };
        if len < RTP_HEADER_LEN + suffix_len {
            return Err(DiscordError::EncryptionError);
        }
        let frame = buffer.as_slice();
        let header = slice_to_vec(&frame[0..12]);
        let nonce = match self {
            EncryptionMode::XSalsa20Poly1305 => zero_padded(&frame[0..12], 24),
            EncryptionMode::XSalsa20Poly1305Suffix => slice_to_vec(&frame[len - 24..len]),
            EncryptionMode::XSalsa20Poly1305Lite => zero_padded(&frame[len - 4..len], 24),
        };
        assert(nonce@ == recv_nonce(*self, old(buffer)@));
        let sealed = &frame[12..len - suffix_len];
        assert(sealed@ == recv_sealed(*self, old(buffer)@));
        match open(key, nonce.as_slice(), sealed) {
            Ok(p) => {
                assert(opens_to(*self, key@, old(buffer)@, p@));
                *buffer = p;
                Ok(header)
            },
            Err(_) => {
                assert forall|p: Seq<u8>| !opens_to(*self, key@, old(buffer)@, p) by {
                    if opens_to(*self, key@, old(buffer)@, p) {
                        assert(sealed@ == xsalsa20poly1305_sealed(key@, nonce@, p));
                    }
                }
                Err(DiscordError::EncryptionError)
            },
        }
    }
}

/// Sealing a payload and opening the resulting frame gives back the payload
/// and the header, in the suffix and lite modes, whatever the key, the
/// counter and the random bytes.
pub proof fn lemma_cipher_round_trip(
    m: EncryptionMode,
    key: Seq<u8>,
    header: Seq<u8>,
    lite: u32,
    random: Seq<u8>,
    payload: Seq<u8>,
)
    requires
        m != EncryptionMode::XSalsa20Poly1305,
        header.len() == 12,
        random.len() == 24,
    ensures
        ({
            let frame = header + sealed_payload(m, key, header, lite, random, payload);
            &&& opens_to(m, key, frame, payload)
            &&& frame.subrange(0, 12) == header
        }),
{
    let nonce = send_nonce(m, header, lite, random);
    let sealed = xsalsa20poly1305_sealed(key, nonce, payload);
    let frame = header + sealed + sent_suffix(m, nonce);
    assert(header + sealed_payload(m, key, header, lite, random, payload) =~= frame);
    assert(frame.subrange(0, 12) =~= header);
    assert(recv_sealed(m, frame) =~= sealed);
    if m == EncryptionMode::XSalsa20Poly1305Lite {
        assert(u32_be(lite).len() == 4);
        assert(recv_nonce(m, frame) =~= nonce);
    } else {
        assert(recv_nonce(m, frame) =~= nonce);
    }
}

/// In the standard mode the receiver takes the nonce from the header: a
/// frame made of the header and the payload sealed under that nonce opens
/// to the payload.
pub proof fn lemma_standard_round_trip(key: Seq<u8>, header: Seq<u8>, payload: Seq<u8>)
    requires
        header.len() == 12,
    ensures
        ({
            let nonce = send_nonce(EncryptionMode::XSalsa20Poly1305, header, 0, seq![]);
            opens_to(EncryptionMode::XSalsa20Poly1305, key, header + xsalsa20poly1305_sealed(key, nonce, payload), payload)
        }),
{
    let nonce = send_nonce(EncryptionMode::XSalsa20Poly1305, header, 0, seq![]);
    let frame = header + xsalsa20poly1305_sealed(key, nonce, payload);
    assert(frame.subrange(0, 12) =~= header);
    assert(recv_sealed(EncryptionMode::XSalsa20Poly1305, frame) =~= xsalsa20poly1305_sealed(key, nonce, payload));
}

} // verus!
