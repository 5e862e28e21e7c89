use vstd::prelude::*;
use std::collections::VecDeque;
use crate::rtp::{next_seq, seq_after};

verus! {

/// How far past the front of a queue the expected sequence number is looked
/// for.
pub const LOOKAHEAD: usize = 1000;

/// One received RTP payload with what the decoder needs from its header.
#[derive(Debug, Clone)]
pub struct Packet {
    /// Opus payload, header extension removed.
    pub payload: Vec<u8>,
    /// RTP timestamp, in samples at 48 kHz.
    pub timestamp: u32,
    /// RTP sequence number.
    pub sequence: u16,
    /// Arrival time, in microseconds since the Unix epoch.
    pub recv_time_us: u64,
}

/// What `get_packet` hands out.
#[derive(Debug)]
pub enum PacketResult {
    /// The next packet in sequence order.
    Find(Packet),
    /// The expected packet is missing; the front packet was discarded.
    Dropped,
    /// Nothing is left.
    End,
}

/// Index of the first packet among positions `i..bound` whose sequence
/// number is `want`.
pub open spec fn find_from(q: Seq<Packet>, want: u16, i: int, bound: int) -> Option<int>
    decreases bound - i,
{
    if i >= bound || i >= q.len() {
        None
    } else if q[i].sequence == want {
        Some(i)
    } else {
        find_from(q, want, i + 1, bound)
    }
}

/// One step of draining a queue holding `q` whose last delivered sequence
/// number is `last`: the result, the packets left and the new marker.
/// Without a marker the front packet is delivered. Otherwise the packet
/// numbered right after the marker is looked for among the first
/// `LOOKAHEAD` packets and delivered from wherever it stands; if it is not
/// there, the front packet is discarded and `Dropped` reported.
pub open spec fn pull(q: Seq<Packet>, last: Option<u16>) -> (PacketResult, Seq<Packet>, Option<u16>) {
    if q.len() == 0 {
        (PacketResult::End, q, last)
    } else {
        match last {
            None => (PacketResult::Find(q[0]), q.subrange(1, q.len() as int), Some(q[0].sequence)),
            Some(s) => match find_from(q, seq_after(s), 0, LOOKAHEAD as int) {
                Some(i) => (PacketResult::Find(q[i]), q.remove(i), Some(seq_after(s))),
                None => (PacketResult::Dropped, q.subrange(1, q.len() as int), last),
            },
        }
    }
}

/// A found index lies in the searched range and holds the wanted number;
/// every position searched before it holds another.
pub proof fn lemma_find_from(q: Seq<Packet>, want: u16, i: int, bound: int)
    requires
        0 <= i,
    ensures
        find_from(q, want, i, bound) matches Some(k) ==> i <= k < bound && k < q.len() && q[k].sequence == want
            && forall|j: int| i <= j < k ==> q[j].sequence != want,
        find_from(q, want, i, bound) is None ==> forall|j: int| i <= j < bound && j < q.len() ==> q[j].sequence != want,
    decreases bound - i,
{
    if i < bound && i < q.len() && q[i].sequence != want {
        lemma_find_from(q, want, i + 1, bound);
    }
}

/// The lookahead bound: when the first packet numbered `want` stands at
/// position `g`, the search finds it exactly when `g < LOOKAHEAD`.
pub proof fn lemma_lookahead_bound(q: Seq<Packet>, want: u16, g: int)
    requires
        0 <= g < q.len(),
        q[g].sequence == want,
        forall|j: int| 0 <= j < g ==> q[j].sequence != want,
    ensures
        find_from(q, want, 0, LOOKAHEAD as int) is Some <==> g < LOOKAHEAD,
        g < LOOKAHEAD ==> find_from(q, want, 0, LOOKAHEAD as int) == Some(g),
{
    lemma_find_from(q, want, 0, LOOKAHEAD as int);
}

/// The packets of one source, in arrival order, and the sequence number of
/// the last packet handed out.
pub struct PacketQueue {
    packets: VecDeque<Packet>,
    last: Option<u16>,
}

impl PacketQueue {
    /// The packets waiting, in arrival order.
    pub closed spec fn packets(&self) -> Seq<Packet> {
        self.packets@
    }

    /// The sequence number of the last packet handed out.
    pub closed spec fn last(&self) -> Option<u16> {
        self.last
    }

    /// An empty queue that has handed out nothing yet.
    pub fn new() -> (r: PacketQueue)
        ensures
            r.packets() == Seq::<Packet>::empty(),
            r.last() is None,
    {
        PacketQueue { packets: VecDeque::new(), last: None }
    }

    /// Number of packets waiting.
    pub fn len(&self) -> (r: usize)
        ensures
            r == self.packets().len(),
    {
        self.packets.len()
    }

    /// Appends a packet as it arrives.
    pub fn push_back(&mut self, p: Packet)
        ensures
            final(self).packets() == old(self).packets().push(p),
            final(self).last() == old(self).last(),
    {
        self.packets.push_back(p);
    }

    /// Hands out the next packet in sequence order, as `pull` says.
    pub fn get_packet(&mut self) -> (r: PacketResult)
        ensures
            (r, final(self).packets(), final(self).last()) == pull(old(self).packets(), old(self).last()),
    {
        let ghost q = self.packets@;
        match self.last {
            None => match self.packets.pop_front() {
                Some(p) => {
                    self.last = Some(p.sequence);
                    PacketResult::Find(p)
                },
                None => PacketResult::End,
            },
            Some(s) => {
                if self.packets.len() == 0 {
                    return PacketResult::End;
                }
                let want = next_seq(s);
                let bound: usize = if self.packets.len() < LOOKAHEAD {
                    self.packets.len()
                } else {
                    LOOKAHEAD
                };
                let mut i: usize = 0;
                while i < bound
                    invariant
                        self.packets@ == q,
                        old(self).packets@ == q,
                        old(self).last == Some(s),
                        self.last == Some(s),
                        want == seq_after(s),
                        bound <= q.len(),
                        bound <= LOOKAHEAD,
                        bound == q.len() || bound == LOOKAHEAD,
                        0 <= i <= bound,
                        find_from(q, want, i as int, LOOKAHEAD as int) == find_from(q, want, 0, LOOKAHEAD as int),
                    decreases bound - i,
                {
                    if self.packets[i].sequence == want {
                        match self.packets.remove(i) {
                            Some(p) => {
                                self.last = Some(want);
                                return PacketResult::Find(p);
                            },
                            None => {
                                return PacketResult::End;
                            },
                        }
                    }
                    i = i + 1;
                }
                match self.packets.pop_front() {
                    Some(_) => PacketResult::Dropped,
                    None => PacketResult::End,
                }
            },
        }
    }
}

/// Sequence numbers wrap: a front packet numbered right after the marker,
/// counting 0xFFFF to 0 as consecutive, is delivered as the next one.
pub proof fn lemma_sequence_wrap(q: Seq<Packet>, s: u16)
    requires
        q.len() > 0,
        q[0].sequence == seq_after(s),
    ensures
        pull(q, Some(s)).0 == PacketResult::Find(q[0]),
        pull(q, Some(s)).2 == Some(seq_after(s)),
        s == 0xFFFF ==> seq_after(s) == 0,
{
}

} // verus!
