use vstd::prelude::*;
use crate::crypto::{opens_to, EncryptionMode};
use crate::error::DiscordError;
use crate::queue::{pull, Packet, PacketQueue, PacketResult};
use crate::rtp::{calc_offset, ext_offset, is_rtcp, is_rtcp_spec, parsed_header, RtpHeader};
use std::collections::BTreeMap;
use vstd::slice::slice_to_vec;
use vstd::std_specs::cmp::OrdSpec;
use vstd::std_specs::iter::IteratorSpec;

verus! {

/// Payloads shorter than this carry no audio (silence or keep-alive frames).
pub const MIN_AUDIO_PAYLOAD: usize = 10;

/// One instruction for the Opus decoder of a source, in playback order.
#[derive(Debug)]
pub enum DecodeStep {
    /// Append this many zero samples (interleaved stereo values).
    Silence(usize),
    /// Decode this Opus packet and append its samples.
    Decode(Vec<u8>),
    /// Append one concealment frame for a missing packet.
    Conceal,
}

/// Zero samples inserted before a packet whose timestamp is `ts` when the
/// previous one had `prev`: four samples per tick beyond the first 20 ms
/// (960 ticks), the gap counted up to one second.
pub open spec fn gap_padding(prev: u32, ts: u32) -> int {
    let d = ts as int - prev as int;
    if d > 960 {
        4 * (if d > 48000 { 48000 } else { d }) - 3840
    } else {
        0
    }
}

/// The steps that drain a queue holding `q` with marker `last`, `prev`
/// being the timestamp of the last packet taken as a reference (`n` bounds
/// the number of pulls; draining takes `q.len()`).
pub open spec fn plan_steps(q: Seq<Packet>, last: Option<u16>, prev: Option<u32>, n: nat) -> Seq<DecodeStep>
    decreases n,
{
    if n == 0 {
        seq![]
    } else {
        let (r, q2, l2) = pull(q, last);
        match r {
            PacketResult::End => seq![],
            PacketResult::Dropped => seq![DecodeStep::Conceal] + plan_steps(q2, l2, None, (n - 1) as nat),
            PacketResult::Find(p) => if p.payload@.len() < MIN_AUDIO_PAYLOAD {
                plan_steps(q2, l2, Some(p.timestamp), (n - 1) as nat)
            } else {
                let pad = match prev {
                    Some(t) => if gap_padding(t, p.timestamp) > 0 {
                        seq![DecodeStep::Silence(gap_padding(t, p.timestamp) as usize)]
                    } else {
                        seq![]
                    },
                    None => seq![],
                };
                pad + seq![DecodeStep::Decode(p.payload)] + plan_steps(q2, l2, Some(p.timestamp), (n - 1) as nat)
            },
        }
    }
}

/// The smaller of two optional times.
pub open spec fn min_time(a: Option<u64>, b: u64) -> Option<u64> {
    match a {
        Some(x) => if x <= b { Some(x) } else { Some(b) },
        None => Some(b),
    }
}

/// The earliest arrival time among the packets handed out while draining,
/// starting from `acc`.
pub open spec fn plan_start(q: Seq<Packet>, last: Option<u16>, acc: Option<u64>, n: nat) -> Option<u64>
    decreases n,
{
    if n == 0 {
        acc
    } else {
        let (r, q2, l2) = pull(q, last);
        match r {
            PacketResult::End => acc,
            PacketResult::Dropped => plan_start(q2, l2, acc, (n - 1) as nat),
            PacketResult::Find(p) => plan_start(q2, l2, min_time(acc, p.recv_time_us), (n - 1) as nat),
        }
    }
}

/// Each pull that is not `End` takes exactly one packet; `End` comes only
/// from an empty queue.
pub proof fn lemma_pull_len(q: Seq<Packet>, last: Option<u16>)
    ensures
        (pull(q, last).0 is End) <==> q.len() == 0,
        q.len() > 0 ==> pull(q, last).1.len() == q.len() - 1,
{
    if q.len() > 0 {
        if let Some(s) = last {
            crate::queue::lemma_find_from(q, crate::rtp::seq_after(s), 0, crate::queue::LOOKAHEAD as int);
        }
    }
}

/// What the decoder is to do with one source, and when it started.
#[derive(Debug)]
pub struct SourcePlan {
    /// The source.
    pub ssrc: u32,
    /// Earliest arrival time of its packets, in microseconds.
    pub start_time_us: Option<u64>,
    /// Decoder instructions in playback order.
    pub steps: Vec<DecodeStep>,
}

/// Drains a queue into decoder instructions: each delivered packet of at
/// least `MIN_AUDIO_PAYLOAD` bytes is decoded, preceded by silence when its
/// timestamp lies more than one frame after the reference; shorter packets
/// only move the reference; each drop asks for one concealment frame and
/// clears the reference.
pub fn decode_packets(ssrc: u32, queue: &mut PacketQueue) -> (r: SourcePlan)
    ensures
        r.ssrc == ssrc,
        r.steps@ == plan_steps(old(queue).packets(), old(queue).last(), None, old(queue).packets().len()),
        r.start_time_us == plan_start(old(queue).packets(), old(queue).last(), None, old(queue).packets().len()),
        final(queue).packets().len() == 0,
{
    let ghost q0 = queue.packets();
    let ghost l0 = queue.last();
    let mut steps: Vec<DecodeStep> = Vec::new();
    let mut start: Option<u64> = None;
    let mut prev: Option<u32> = None;
    loop
        invariant
            steps@ + plan_steps(queue.packets(), queue.last(), prev, queue.packets().len())
                == plan_steps(q0, l0, None, q0.len()),
            plan_start(queue.packets(), queue.last(), start, queue.packets().len())
                == plan_start(q0, l0, None, q0.len()),
        ensures
            steps@ == plan_steps(q0, l0, None, q0.len()),
            start == plan_start(q0, l0, None, q0.len()),
            queue.packets().len() == 0,
        decreases queue.packets().len(),
    {
        let ghost q = queue.packets();
        let ghost l = queue.last();
        let ghost before = steps@;
        let ghost prev0 = prev;
        proof {
            lemma_pull_len(q, l);
        }
        match queue.get_packet() {
            PacketResult::Find(p) => {
                let ghost pg = p;
                start = match start {
                    Some(x) => if x <= p.recv_time_us { Some(x) } else { Some(p.recv_time_us) },
                    None => Some(p.recv_time_us),
                };
                if p.payload.len() < MIN_AUDIO_PAYLOAD {
                    prev = Some(p.timestamp);
                } else {
                    let ghost pad_seq = match prev {
                        Some(t) => if gap_padding(t, p.timestamp) > 0 {
                            seq![DecodeStep::Silence(gap_padding(t, p.timestamp) as usize)]
                        } else {
                            seq![]
                        },
                        None => seq![],
                    };
                    match prev {
                        Some(t) => {
                            let d: i64 = p.timestamp as i64 - t as i64;
                            if d > 960 {
                                let c: i64 = if d > 48000 { 48000 } else { d };
                                steps.push(DecodeStep::Silence((4 * c - 3840) as usize));
                            }
                        },
                        None => {},
                    }
                    assert(steps@ == before + pad_seq);
                    let ts = p.timestamp;
                    steps.push(DecodeStep::Decode(p.payload));
                    assert(steps@ == before + pad_seq + seq![DecodeStep::Decode(pg.payload)]);
                    prev = Some(ts);
                }
            },
            PacketResult::Dropped => {
                steps.push(DecodeStep::Conceal);
                prev = None;
            },
            PacketResult::End => {
                break;
            },
        }
        assert(steps@ + plan_steps(queue.packets(), queue.last(), prev, queue.packets().len())
            =~= before + plan_steps(q, l, prev0, q.len()));
    }
    SourcePlan { ssrc, start_time_us: start, steps }
}


/// The keys of `m` in ascending order.
fn sorted_ssrcs(m: &BTreeMap<u32, PacketQueue>) -> (r: Vec<u32>)
    ensures
        r@.to_set() == m@.dom(),
        forall|i: int, j: int| 0 <= i < j < r@.len() ==> r@[i] < r@[j],
{
    let mut r: Vec<u32> = Vec::new();
    let ghost all = vstd::std_specs::btree::spec_keys_iter(m).remaining();
    for k in it: m.keys()
        invariant
            it.seq() == all,
            r@ == all.subrange(0, it.index() as int).map_values(|x: &u32| *x),
    {
        r.push(*k);
        assert(all.subrange(0, it.index() + 1).map_values(|x: &u32| *x) =~= r@);
    }
    proof {
        assert(r@ =~= all.map_values(|x: &u32| *x));
        assert(all.unref() =~= all.map_values(|x: &u32| *x));
        assert(vstd::laws_cmp::obeys_cmp::<u32>());
        assert(vstd::laws_cmp::obeys_cmp::<&u32>());
        assert(vstd::std_specs::btree::increasing_seq(all));
        vstd::std_specs::btree::axiom_increasing_seq_meaning::<&u32>(all);
        assert forall|i: int, j: int| 0 <= i < j < r@.len() implies r@[i] < r@[j] by {
            assert(<&u32 as OrdSpec>::cmp_spec(&all[i], &all[j]) is Less);
        }
    }
    r
}

/// The sources of a list of plans, in order.
pub open spec fn plan_ssrcs(plans: Seq<SourcePlan>) -> Seq<u32> {
    plans.map_values(|p: SourcePlan| p.ssrc)
}

/// Received packets grouped by source (SSRC).
pub struct SsrcPacketQueue {
    queue: BTreeMap<u32, PacketQueue>,
}

impl SsrcPacketQueue {
    /// The queue of each source that sent something.
    pub closed spec fn sources(&self) -> Map<u32, PacketQueue> {
        self.queue@
    }

    /// No queue has been drained yet.
    pub closed spec fn wf(&self) -> bool {
        forall|s: u32| #[trigger] self.queue@.contains_key(s) ==> self.queue@[s].last() is None
    }

    /// The sources that sent something.
    pub open spec fn ssrcs(&self) -> Set<u32> {
        self.sources().dom()
    }

    /// The packets received from source `s` (none if it sent nothing).
    pub open spec fn packets_of(&self, s: u32) -> Seq<Packet> {
        if self.sources().contains_key(s) {
            self.sources()[s].packets()
        } else {
            Seq::empty()
        }
    }

    /// No source yet.
    pub fn new() -> (r: SsrcPacketQueue)
        ensures
            r.wf(),
            r.ssrcs() == Set::<u32>::empty(),
    {
        let r = SsrcPacketQueue { queue: BTreeMap::new() };
        assert(r.ssrcs() =~= Set::<u32>::empty());
        r
    }

    /// Appends `p` to the queue of source `ssrc`, creating it on its first
    /// packet.
    pub fn push(&mut self, ssrc: u32, p: Packet)
        requires
            old(self).wf(),
        ensures
            final(self).wf(),
            final(self).ssrcs() == old(self).ssrcs().insert(ssrc),
            forall|s: u32| #[trigger] final(self).packets_of(s) == if s == ssrc {
                old(self).packets_of(s).push(p)
            } else {
                old(self).packets_of(s)
            },
    {
        broadcast use vstd::std_specs::btree::group_btree_axioms, vstd::laws_cmp::group_laws_cmp;
        let q = match self.queue.remove(&ssrc) {
            Some(mut q) => {
                q.push_back(p);
                q
            },
            None => {
                let mut q = PacketQueue::new();
                q.push_back(p);
                q
            },
        };
        self.queue.insert(ssrc, q);
        assert(self.ssrcs() =~= old(self).ssrcs().insert(ssrc));
        assert forall|s: u32| #[trigger] self.packets_of(s) == if s == ssrc {
            old(self).packets_of(s).push(p)
        } else {
            old(self).packets_of(s)
        } by {
            if s == ssrc && !old(self).sources().contains_key(s) {
                assert(self.packets_of(s) =~= Seq::<Packet>::empty().push(p));
            }
        }
    }

    /// Drains every source, in ascending SSRC order, into its decoder
    /// instructions; the map is left empty.
    pub fn decode(&mut self) -> (r: Vec<SourcePlan>)
        requires
            old(self).wf(),
        ensures
            final(self).wf(),
            final(self).ssrcs() == Set::<u32>::empty(),
            plan_ssrcs(r@).to_set() == old(self).ssrcs(),
            forall|i: int, j: int| 0 <= i < j < r@.len() ==> r@[i].ssrc < r@[j].ssrc,
            forall|i: int| 0 <= i < r@.len() ==> {
                let q = #[trigger] old(self).packets_of(r@[i].ssrc);
                &&& old(self).ssrcs().contains(r@[i].ssrc)
                &&& r@[i].steps@ == plan_steps(q, None, None, q.len())
                &&& r@[i].start_time_us == plan_start(q, None, None, q.len())
            },
    {
        broadcast use vstd::std_specs::btree::group_btree_axioms, vstd::laws_cmp::group_laws_cmp;
        let keys = sorted_ssrcs(&self.queue);
        let ghost old_m = self.queue@;
        let mut plans: Vec<SourcePlan> = Vec::new();
        let mut i: usize = 0;
        while i < keys.len()
            invariant
                old(self).queue@ == old_m,
                old(self).wf(),
                keys@.to_set() == old_m.dom(),
                forall|a: int, b: int| 0 <= a < b < keys@.len() ==> keys@[a] < keys@[b],
                0 <= i <= keys@.len(),
                plans@.len() == i,
                forall|s: u32| #[trigger] self.queue@.contains_key(s) <==> (old_m.contains_key(s) && !keys@.subrange(0, i as int).contains(s)),
                forall|s: u32| #[trigger] self.queue@.contains_key(s) ==> self.queue@[s] == old_m[s],
                forall|a: int| 0 <= a < i ==> (#[trigger] plans@[a]).ssrc == keys@[a],
                forall|a: int| 0 <= a < i ==> {
                    let q = #[trigger] old(self).packets_of(plans@[a].ssrc);
                    &&& old(self).ssrcs().contains(plans@[a].ssrc)
                    &&& plans@[a].steps@ == plan_steps(q, None, None, q.len())
                    &&& plans@[a].start_time_us == plan_start(q, None, None, q.len())
                },
            decreases keys@.len() - i,
        {
            let k = keys[i];
            proof {
                assert(keys@.to_set().contains(k));
                assert(!keys@.subrange(0, i as int).contains(k)) by {
                    if keys@.subrange(0, i as int).contains(k) {
                        let w = choose|w: int| 0 <= w < i && keys@.subrange(0, i as int)[w] == k;
                        assert(keys@[w] < keys@[i as int]);
                    }
                }
                assert(self.queue@.contains_key(k));
            }
            match self.queue.remove(&k) {
                Some(mut q) => {
                    assert(q.last() is None);
                    let plan = decode_packets(k, &mut q);
                    plans.push(plan);
                },
                None => {
                    assert(false);
                },
            }
            proof {
                let pre = keys@.subrange(0, i as int);
                let post = keys@.subrange(0, i + 1);
                assert(post =~= pre.push(k));
                assert forall|s: u32| #[trigger] self.queue@.contains_key(s) <==> (old_m.contains_key(s) && !post.contains(s)) by {
                    if post.contains(s) && s != k {
                        let w = choose|w: int| 0 <= w < post.len() && post[w] == s;
                        assert(pre[w] == s);
                    }
                    if pre.contains(s) {
                        let w = choose|w: int| 0 <= w < pre.len() && pre[w] == s;
                        assert(post[w] == s);
                    }
                    if s == k {
                        assert(post[i as int] == s);
                    }
                }
            }
            i = i + 1;
        }
        proof {
            assert forall|s: u32| !#[trigger] self.queue@.contains_key(s) by {
                if self.queue@.contains_key(s) {
                    assert(keys@.to_set().contains(s));
                    let w = choose|w: int| 0 <= w < keys@.len() && keys@[w] == s;
                    assert(keys@.subrange(0, i as int)[w] == s);
                }
            }
            assert(self.ssrcs() =~= Set::<u32>::empty());
            assert forall|s: u32| plan_ssrcs(plans@).to_set().contains(s) <==> old(self).ssrcs().contains(s) by {
                if old(self).ssrcs().contains(s) {
                    assert(keys@.to_set().contains(s));
                    let w = choose|w: int| 0 <= w < keys@.len() && keys@[w] == s;
                    assert(plan_ssrcs(plans@)[w] == s);
                }
                if plan_ssrcs(plans@).to_set().contains(s) {
                    let w = choose|w: int| 0 <= w < plans@.len() && plan_ssrcs(plans@)[w] == s;
                    assert(plans@[w].ssrc == s);
                }
            }
            assert(plan_ssrcs(plans@).to_set() =~= old(self).ssrcs());
        }
        plans
    }
}

/// The payload left once the header extension is cut off the front.
pub open spec fn strip_extension(pt: Seq<u8>) -> Seq<u8> {
    let o = ext_offset(pt);
    if o >= pt.len() {
        Seq::empty()
    } else {
        pt.subrange(o, pt.len() as int)
    }
}

/// Opens received datagrams and files them by source.
pub struct AudioDecoder {
    key: [u8; 32],
    encryption: EncryptionMode,
}

impl AudioDecoder {
    pub closed spec fn key(&self) -> Seq<u8> {
        self.key@
    }

    pub closed spec fn mode(&self) -> EncryptionMode {
        self.encryption
    }

    /// A decoder for the session key and mode the handshake settled on.
    pub fn new(key: [u8; 32], encryption: EncryptionMode) -> (r: AudioDecoder)
        ensures
            r.key() == key@,
            r.mode() == encryption,
    {
        AudioDecoder { key, encryption }
    }

    /// Opens an RTP datagram in place and returns its header; RTCP reports
    /// are left alone and give `None`.
    pub fn decrypt_from_buffer(&self, buffer: &mut Vec<u8>) -> (r: Result<Option<RtpHeader>, DiscordError>)
        ensures
            is_rtcp_spec(old(buffer)@) ==> r == Ok::<Option<RtpHeader>, DiscordError>(None) && final(buffer)@ == old(buffer)@,
            !is_rtcp_spec(old(buffer)@) ==> (r is Ok <==> exists|p: Seq<u8>| opens_to(self.mode(), self.key(), old(buffer)@, p)),
            r matches Ok(Some(h)) ==> h == parsed_header(old(buffer)@) && opens_to(self.mode(), self.key(), old(buffer)@, final(buffer)@),
            !is_rtcp_spec(old(buffer)@) ==> forall|p: Seq<u8>| opens_to(self.mode(), self.key(), old(buffer)@, p) ==> final(buffer)@ == p,
            r is Err ==> r == Err::<Option<RtpHeader>, DiscordError>(DiscordError::EncryptionError) && final(buffer)@ == old(buffer)@,
            !is_rtcp_spec(old(buffer)@) && r is Ok ==> r matches Ok(Some(_)),
    {
        assert(self.mode() == self.encryption && self.key() == self.key@);
        if is_rtcp(buffer.as_slice()) {
            return Ok(None);
        }
        match self.encryption.decrypt(&self.key, buffer) {
            Ok(raw) => Ok(Some(RtpHeader::parse(raw.as_slice()))),
            Err(e) => Err(e),
        }
    }

    /// Handles one datagram of the receive loop: an RTCP report is ignored
    /// (`Ok(false)`); an RTP packet is opened, its header extension cut
    /// off, and the payload filed under its SSRC with its timestamp,
    /// sequence number and arrival time (`Ok(true)`). A packet that does not
    /// open is an encryption error and files nothing.
    pub fn receive(&self, queue: &mut SsrcPacketQueue, datagram: Vec<u8>, recv_time_us: u64) -> (r: Result<bool, DiscordError>)
        requires
            old(queue).wf(),
        ensures
            final(queue).wf(),
            is_rtcp_spec(datagram@) ==> r == Ok::<bool, DiscordError>(false),
            !is_rtcp_spec(datagram@) ==> (r is Ok <==> exists|p: Seq<u8>| opens_to(self.mode(), self.key(), datagram@, p)),
            r is Err ==> r == Err::<bool, DiscordError>(DiscordError::EncryptionError),
            !is_rtcp_spec(datagram@) && (exists|p: Seq<u8>| opens_to(self.mode(), self.key(), datagram@, p)) ==> r == Ok::<bool, DiscordError>(true),
            r != Ok::<bool, DiscordError>(true) ==> final(queue).ssrcs() == old(queue).ssrcs() && forall|s: u32| #[trigger] final(queue).packets_of(s) == old(queue).packets_of(s),
            r == Ok::<bool, DiscordError>(true) ==> {
                let h = parsed_header(datagram@);
                let got = final(queue).packets_of(h.ssrc);
                &&& final(queue).ssrcs() == old(queue).ssrcs().insert(h.ssrc)
                &&& got.len() == old(queue).packets_of(h.ssrc).len() + 1
                &&& got.drop_last() == old(queue).packets_of(h.ssrc)
                &&& got.last().timestamp == h.timestamp
                &&& got.last().sequence == h.sequence
                &&& got.last().recv_time_us == recv_time_us
                &&& forall|p: Seq<u8>| opens_to(self.mode(), self.key(), datagram@, p) ==> got.last().payload@ == strip_extension(p)
                &&& forall|s: u32| s != h.ssrc ==> #[trigger] final(queue).packets_of(s) == old(queue).packets_of(s)
            },
    {
        let mut buffer = datagram;
        match self.decrypt_from_buffer(&mut buffer) {
            Ok(Some(h)) => {
                let off = calc_offset(buffer.as_slice());
                let payload = if off >= buffer.len() {
                    Vec::new()
                } else {
                    slice_to_vec(&buffer.as_slice()[off..buffer.len()])
                };
                assert(payload@ =~= strip_extension(buffer@));
                let p = Packet { payload, timestamp: h.timestamp, sequence: h.sequence, recv_time_us };
                let ghost pg = p;
                queue.push(h.ssrc, p);
                assert(queue.packets_of(h.ssrc).drop_last() =~= old(queue).packets_of(h.ssrc));
                assert(queue.packets_of(h.ssrc).last() == pg);
                Ok(true)
            },
            Ok(None) => Ok(false),
            Err(e) => Err(e),
        }
    }
}

/// Source `a` is mixed before source `b`: it started earlier, or at the
/// same time with a smaller index.
pub open spec fn mixed_before(starts: Seq<u64>, a: int, b: int) -> bool {
    starts[a] < starts[b] || (starts[a] == starts[b] && a < b)
}

/// The order in which sources are mixed: every index once, ascending by
/// start time, ties kept in index order.
pub fn mix_order(starts: &Vec<u64>) -> (order: Vec<usize>)
    ensures
        order@.len() == starts@.len(),
        forall|i: int| 0 <= i < order@.len() ==> order@[i] < starts@.len(),
        forall|j: usize| j < starts@.len() ==> #[trigger] order@.contains(j),
        forall|i: int, j: int| 0 <= i < j < order@.len() ==> mixed_before(starts@, order@[i] as int, order@[j] as int),
{
    let mut order: Vec<usize> = Vec::new();
    let mut k: usize = 0;
    while k < starts.len()
        invariant
            0 <= k <= starts@.len(),
            order@.len() == k,
            forall|i: int| 0 <= i < order@.len() ==> order@[i] < k,
            forall|j: usize| j < k ==> #[trigger] order@.contains(j),
            forall|i: int, j: int| 0 <= i < j < order@.len() ==> mixed_before(starts@, order@[i] as int, order@[j] as int),
        decreases starts@.len() - k,
    {
        let mut pos: usize = 0;
        while pos < order.len() && starts[order[pos]] <= starts[k]
            invariant
                0 <= pos <= order@.len(),
                order@.len() == k,
                k < starts@.len(),
                forall|i: int| 0 <= i < order@.len() ==> order@[i] < k,
                forall|i: int| 0 <= i < pos ==> starts@[order@[i] as int] <= starts@[k as int],
            decreases order@.len() - pos,
        {
            pos = pos + 1;
        }
        let ghost before = order@;
        order.insert(pos, k);
        proof {
            assert(order@ == before.insert(pos as int, k));
            assert forall|i: int, j: int| 0 <= i < j < order@.len() implies mixed_before(starts@, order@[i] as int, order@[j] as int) by {
                if j < pos {
                } else if j == pos {
                    assert(order@[i] == before[i]);
                } else if i < pos {
                    assert(order@[j] == before[j - 1]);
                    if j - 1 > pos {
                        assert(mixed_before(starts@, before[pos as int] as int, before[j - 1] as int));
                    }
                } else if i == pos {
                    assert(order@[j] == before[j - 1]);
                    if j - 1 > pos {
                        assert(mixed_before(starts@, before[pos as int] as int, before[j - 1] as int));
                    }
                } else {
                    assert(order@[i] == before[i - 1]);
                    assert(order@[j] == before[j - 1]);
                }
            }
            assert forall|j: usize| j < k + 1 implies #[trigger] order@.contains(j) by {
                if j == k {
                    assert(order@[pos as int] == k);
                } else {
                    assert(before.contains(j));
                    let w = choose|w: int| 0 <= w < before.len() && before[w] == j;
                    if w < pos {
                        assert(order@[w] == j);
                    } else {
                        assert(order@[w + 1] == j);
                    }
                }
            }
        }
        k = k + 1;
    }
    order
}

/// Zero samples (interleaved stereo at 48 kHz) placed before a source that
/// started `start - first` microseconds after the earliest one.
pub open spec fn alignment_padding_spec(start: u64, first: u64) -> int {
    ((start - first) * 96000) / 1000000
}

/// Zero samples that align a source starting at `start` with the earliest
/// source, which started at `first`.
pub fn alignment_padding(start: u64, first: u64) -> (r: u64)
    requires
        first <= start,
    ensures
        r == alignment_padding_spec(start, first),
{
    let d: u64 = start - first;
    let wide: u128 = (d as u128) * 96000 / 1000000;
    assert(wide <= d) by (nonlinear_arith)
        requires
            wide == (d as int * 96000) / 1000000,
            d >= 0,
    ;
    wide as u64
}

/// The source indices of a layout, in mixing order.
pub open spec fn layout_sources(r: Seq<(usize, u64)>) -> Seq<usize> {
    r.map_values(|e: (usize, u64)| e.0)
}

/// How the sources are laid out for mixing: each source index in mixing
/// order with the silence that aligns it to the earliest start.
pub fn mix_layout(starts: &Vec<u64>) -> (r: Vec<(usize, u64)>)
    ensures
        r@.len() == starts@.len(),
        forall|j: usize| j < starts@.len() ==> #[trigger] layout_sources(r@).contains(j),
        forall|i: int, j: int| 0 <= i < j < r@.len() ==> mixed_before(starts@, r@[i].0 as int, r@[j].0 as int),
        r@.len() > 0 ==> forall|j: int| 0 <= j < starts@.len() ==> #[trigger] starts@[j] >= starts@[r@[0].0 as int],
        forall|i: int| 0 <= i < r@.len() ==> {
            &&& (#[trigger] r@[i]).0 < starts@.len()
            &&& r@[i].1 == alignment_padding_spec(starts@[r@[i].0 as int], starts@[r@[0].0 as int])
        },
{
    let order = mix_order(starts);
    let mut r: Vec<(usize, u64)> = Vec::new();
    if order.len() == 0 {
        return r;
    }
    let first = starts[order[0]];
    proof {
        assert forall|j: int| 0 <= j < starts@.len() implies starts@[j] >= first by {
            assert(order@.contains(j as usize));
            let w = choose|w: int| 0 <= w < order@.len() && order@[w] == j as usize;
            if w > 0 {
                assert(mixed_before(starts@, order@[0] as int, order@[w] as int));
            }
        }
    }
    let mut i: usize = 0;
    while i < order.len()
        invariant
            0 <= i <= order@.len(),
            order@.len() == starts@.len(),
            order@.len() > 0,
            first == starts@[order@[0] as int],
            forall|j: int| 0 <= j < starts@.len() ==> starts@[j] >= first,
            forall|m: int| 0 <= m < order@.len() ==> order@[m] < starts@.len(),
            r@.len() == i,
            forall|m: int| 0 <= m < i ==> r@[m].0 == order@[m],
            forall|m: int| 0 <= m < i ==> r@[m].1 == alignment_padding_spec(starts@[order@[m] as int], first),
        decreases order@.len() - i,
    {
        let o = order[i];
        r.push((o, alignment_padding(starts[o], first)));
        i = i + 1;
    }
    proof {
        assert forall|j: usize| j < starts@.len() implies #[trigger] layout_sources(r@).contains(j) by {
            assert(order@.contains(j));
            let w = choose|w: int| 0 <= w < order@.len() && order@[w] == j;
            assert(layout_sources(r@)[w] == j);
        }
    }
    r
}

} // verus!
