use vstd::prelude::*;

verus! {

/// First byte of every RTP header sent: version 2, no padding, no extension.
pub const RTP_VERSION_BYTE: u8 = 0x80;

/// Second byte of every RTP header sent: the Opus payload type.
pub const RTP_PAYLOAD_TYPE: u8 = 0x78;

/// Length of a fixed RTP header.
pub const RTP_HEADER_LEN: usize = 12;

/// Samples per channel in one 20 ms frame at 48 kHz.
pub const SAMPLES_PER_FRAME: u32 = 960;

/// Big-endian value of two bytes.
pub open spec fn be16(hi: u8, lo: u8) -> int {
    hi as int * 256 + lo as int
}

/// Big-endian value of the four bytes of `s` starting at `i`.
pub open spec fn be32_at(s: Seq<u8>, i: int) -> int {
    s[i] as int * 16777216 + s[i + 1] as int * 65536 + s[i + 2] as int * 256 + s[i + 3] as int
}

/// Big-endian encoding of a 16-bit value.
pub open spec fn u16_be(v: u16) -> Seq<u8> {
    seq![(v / 256) as u8, (v % 256) as u8]
}

/// Big-endian encoding of a 32-bit value.
pub open spec fn u32_be(v: u32) -> Seq<u8> {
    seq![(v / 16777216) as u8, ((v / 65536) % 256) as u8, ((v / 256) % 256) as u8, (v % 256) as u8]
}

/// The sequence number that follows `s`, wrapping from 0xFFFF to 0.
pub open spec fn seq_after(s: u16) -> u16 {
    ((s as int + 1) % 65536) as u16
}

/// Successor of an RTP sequence number, modulo 2^16.
pub fn next_seq(s: u16) -> (r: u16)
    ensures
        r == seq_after(s),
{
    s.wrapping_add(1)
}

/// Big-endian bytes of a 32-bit value.
pub fn u32_to_be(v: u32) -> (r: Vec<u8>)
    ensures
        r@ == u32_be(v),
{
    let r = vec![(v / 16777216) as u8, ((v / 65536) % 256) as u8, ((v / 256) % 256) as u8, (v % 256) as u8];
    assert(r@ =~= u32_be(v));
    r
}

/// Reads a big-endian 32-bit value at `i`.
pub fn be32_from(s: &[u8], i: usize) -> (r: u32)
    requires
        i + 4 <= s@.len(),
    ensures
        r == be32_at(s@, i as int),
{
    (s[i] as u32) * 16777216 + (s[i + 1] as u32) * 65536 + (s[i + 2] as u32) * 256 + (s[i + 3] as u32)
}

/// The three variable fields of an RTP header.
#[derive(Debug, Clone, Copy, PartialEq, Eq, Structural)]
pub struct RtpHeader {
    pub sequence: u16,
    pub timestamp: u32,
    pub ssrc: u32,
}

/// The twelve header bytes of an outgoing packet.
pub open spec fn header_bytes(h: RtpHeader) -> Seq<u8> {
    seq![RTP_VERSION_BYTE, RTP_PAYLOAD_TYPE] + u16_be(h.sequence) + u32_be(h.timestamp) + u32_be(
        h.ssrc,
    )
}

/// The header fields as read from the first twelve bytes of `b`.
pub open spec fn parsed_header(b: Seq<u8>) -> RtpHeader {
    RtpHeader {
        sequence: be16(b[2], b[3]) as u16,
        timestamp: be32_at(b, 4) as u32,
        ssrc: be32_at(b, 8) as u32,
    }
}

impl RtpHeader {
    /// Encodes the header: 0x80, 0x78, then sequence, timestamp and SSRC,
    /// each big-endian.
    pub fn to_bytes(&self) -> (r: Vec<u8>)
        ensures
            r@ == header_bytes(*self),
            r@.len() == RTP_HEADER_LEN,
    {
        let mut r: Vec<u8> = vec![
            RTP_VERSION_BYTE,
            RTP_PAYLOAD_TYPE,
            (self.sequence / 256) as u8,
            (self.sequence % 256) as u8,
        ];
        let ts = u32_to_be(self.timestamp);
        let ss = u32_to_be(self.ssrc);
        let mut i: usize = 0;
        while i < 4
            invariant
                0 <= i <= 4,
                ts@ == u32_be(self.timestamp),
                r@ == seq![RTP_VERSION_BYTE, RTP_PAYLOAD_TYPE] + u16_be(self.sequence) + ts@.subrange(0, i as int),
            decreases 4 - i,
        {
            r.push(ts[i]);
            assert(ts@.subrange(0, i + 1) =~= ts@.subrange(0, i as int).push(ts@[i as int]));
            i = i + 1;
        }
        assert(ts@.subrange(0, 4) =~= ts@);
        let mut j: usize = 0;
        while j < 4
            invariant
                0 <= j <= 4,
                ts@ == u32_be(self.timestamp),
                ss@ == u32_be(self.ssrc),
                r@ == seq![RTP_VERSION_BYTE, RTP_PAYLOAD_TYPE] + u16_be(self.sequence) + ts@ + ss@.subrange(0, j as int),
            decreases 4 - j,
        {
            r.push(ss[j]);
            assert(ss@.subrange(0, j + 1) =~= ss@.subrange(0, j as int).push(ss@[j as int]));
            j = j + 1;
        }
        assert(ss@.subrange(0, 4) =~= ss@);
        assert(r@ =~= header_bytes(*self));
        r
    }

    /// Reads the header fields from the first twelve bytes of `b`.
    pub fn parse(b: &[u8]) -> (r: RtpHeader)
        requires
            b@.len() >= RTP_HEADER_LEN,
        ensures
            r == parsed_header(b@),
    {
        RtpHeader {
            sequence: (b[2] as u16) * 256 + (b[3] as u16),
            timestamp: be32_from(b, 4),
            ssrc: be32_from(b, 8),
        }
    }
}

/// Reading back the header bytes gives the fields that were written.
pub proof fn lemma_header_round_trip(h: RtpHeader)
    ensures
        parsed_header(header_bytes(h)) == h,
{
    let b = header_bytes(h);
    assert(b[2] == (h.sequence / 256) as u8 && b[3] == (h.sequence % 256) as u8);
    assert(b[4] == (h.timestamp / 16777216) as u8);
    assert(b[5] == ((h.timestamp / 65536) % 256) as u8);
    assert(b[6] == ((h.timestamp / 256) % 256) as u8);
    assert(b[7] == (h.timestamp % 256) as u8);
    assert(b[8] == (h.ssrc / 16777216) as u8);
    assert(b[9] == ((h.ssrc / 65536) % 256) as u8);
    assert(b[10] == ((h.ssrc / 256) % 256) as u8);
    assert(b[11] == (h.ssrc % 256) as u8);
    let t = h.timestamp as int;
    let s = h.ssrc as int;
    assert(t == (t / 16777216) * 16777216 + ((t / 65536) % 256) * 65536 + ((t / 256) % 256) * 256
        + t % 256) by (nonlinear_arith)
        requires
            0 <= t < 0x1_0000_0000,
    ;
    assert(s == (s / 16777216) * 16777216 + ((s / 65536) % 256) * 65536 + ((s / 256) % 256) * 256
        + s % 256) by (nonlinear_arith)
        requires
            0 <= s < 0x1_0000_0000,
    ;
}

/// Whether a datagram is an RTCP report: its second byte lies in 200..=204.
pub open spec fn is_rtcp_spec(d: Seq<u8>) -> bool {
    d.len() >= 2 && 200 <= d[1] <= 204
}

/// Tells RTCP reports apart from RTP media by the second byte.
pub fn is_rtcp(datagram: &[u8]) -> (r: bool)
    ensures
        r == is_rtcp_spec(datagram@),
{
    datagram.len() >= 2 && 200 <= datagram[1] && datagram[1] <= 204
}

/// Byte `i` of `d`, reading zero past its end.
pub open spec fn byte_or_zero(d: Seq<u8>, i: int) -> u8 {
    if 0 <= i < d.len() {
        d[i]
    } else {
        0
    }
}

/// Walks `remaining` elements of a one-byte header extension from `offset`:
/// a zero byte is padding, any other byte is followed by its data and one
/// more byte, as many data bytes as its upper nibble says.
pub open spec fn ext_walk(d: Seq<u8>, offset: int, remaining: nat) -> int
    decreases remaining,
{
    if remaining == 0 {
        offset
    } else {
        let b = byte_or_zero(d, offset);
        if b == 0 {
            ext_walk(d, offset + 1, (remaining - 1) as nat)
        } else {
            ext_walk(d, offset + 2 + b as int / 16, (remaining - 1) as nat)
        }
    }
}

/// Number of leading bytes of a decrypted payload that belong to the RTP
/// header extension (0xBE 0xDE profile) and are to be discarded.
pub open spec fn ext_offset(d: Seq<u8>) -> int {
    if d.len() > 4 && d[0] == 0xBE && d[1] == 0xDE {
        let o = ext_walk(d, 4, be16(d[2], d[3]) as nat);
        let b = byte_or_zero(d, o + 1);
        if b == 0 || b == 2 {
            o + 1
        } else {
            o
        }
    } else {
        0
    }
}

fn read_or_zero(d: &[u8], i: usize) -> (r: u8)
    ensures
        r == byte_or_zero(d@, i as int),
{
    if i < d.len() {
        d[i]
    } else {
        0
    }
}

/// Length of the header extension at the front of a decrypted payload, or 0
/// when the payload does not start with the 0xBE 0xDE marker. Bytes past the
/// end of `data` read as zero, so the result may exceed `data.len()`.
pub fn calc_offset(data: &[u8]) -> (r: usize)
    ensures
        r == ext_offset(data@),
{
    if !(data.len() > 4 && data[0] == 0xBE && data[1] == 0xDE) {
        return 0;
    }
    let ext_length: u16 = (data[2] as u16) * 256 + (data[3] as u16);
    let ghost n: nat = ext_length as nat;
    let mut offset: usize = 4;
    let mut i: u16 = 0;
    while i < ext_length
        invariant
            0 <= i <= ext_length,
            ext_length == be16(data@[2], data@[3]),
            4 <= offset <= 4 + 17 * i,
            ext_walk(data@, offset as int, (ext_length - i) as nat) == ext_walk(data@, 4, ext_length as nat),
        decreases ext_length - i,
    {
        let byte = read_or_zero(data, offset);
        if byte == 0 {
            offset = offset + 1;
        } else {
            offset = offset + 2 + (byte / 16) as usize;
        }
        i = i + 1;
    }
    let next = read_or_zero(data, offset + 1);
    if next == 0 || next == 2 {
        offset + 1
    } else {
        offset
    }
}

} // verus!
