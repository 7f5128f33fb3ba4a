//! Offline replay of traces: bytes and time that a call would take on the wire.
use crate::constants::{BASE_PACING_MS, KEEPALIVE_FREQ_MS, KEEPALIVE_WIRE, VOICE_OVERHEAD, WAIT_SLICE_MS};
use crate::trace::PacketChainLink;
use vstd::prelude::*;

verus! {

/// Upper bound on the totals of a pass, far above any real trace.
pub const MAX_PASS_TOTAL: u64 = 0x4000_0000_0000_0000;

/// Smallest audio size whose wire size trains the packet-size predictor.
pub const MIN_TRAINING_AUDIO: usize = 4;

/// The wait that follows link `l`: the base pacing delay, plus the silence
/// clamped to `cap` when there is one.
pub open spec fn link_sleep(l: PacketChainLink, cap: Option<u64>) -> nat {
    BASE_PACING_MS as nat + match l {
        PacketChainLink::Silence(d) => match cap {
            Some(c) => if (d as nat) < (c as nat) { d as nat } else { c as nat },
            None => d as nat,
        },
        _ => 0nat,
    }
}

/// Audio bytes that link `l` stands for, where a missing packet takes the size `predicted`.
pub open spec fn link_audio(l: PacketChainLink, predicted: nat) -> nat {
    match l {
        PacketChainLink::Packet(n) => n as nat,
        PacketChainLink::Missing(_) => predicted,
        PacketChainLink::Silence(_) => 0,
    }
}

/// Wire bytes of the voice datagram for link `l`, if one is sent.
pub open spec fn link_voice_bytes(l: PacketChainLink, predicted: nat) -> nat {
    if link_audio(l, predicted) > 0 {
        (link_audio(l, predicted) + VOICE_OVERHEAD) as nat
    } else {
        0
    }
}

/// The wire size that link `l` teaches the predictor: only real packets above
/// signalling size do, never a size the predictor made up itself.
pub open spec fn training_sample(l: PacketChainLink) -> Option<u64> {
    match l {
        PacketChainLink::Packet(n) => if n as usize >= MIN_TRAINING_AUDIO {
            Some((n + VOICE_OVERHEAD) as u64)
        } else {
            None
        },
        _ => None,
    }
}

/// Byte and time totals of a call.
#[derive(Debug)]
pub struct CallStats {
    /// Bytes sent, headers included.
    pub size: u64,
    /// Time elapsed, in milliseconds.
    pub len_ms: u64,
}

impl CallStats {
    pub fn new() -> (r: CallStats)
        ensures
            r.size == 0,
            r.len_ms == 0,
    {
        CallStats { size: 0, len_ms: 0 }
    }

    /// Counts one keepalive.
    pub fn register_keepalive(&mut self)
        requires
            old(self).size + KEEPALIVE_WIRE <= u64::MAX,
        ensures
            final(self).size == old(self).size + KEEPALIVE_WIRE,
            final(self).len_ms == old(self).len_ms,
    {
        self.size = self.size + KEEPALIVE_WIRE;
    }

    /// Counts one voice datagram of `audio_size` audio bytes, and returns the wire
    /// size that should train the predictor, if any: none for a size the
    /// predictor supplied (`prevent_feedback`) or for signalling-sized packets.
    pub fn register_voice(&mut self, audio_size: u64, prevent_feedback: bool) -> (r: Option<u64>)
        requires
            old(self).size + audio_size + VOICE_OVERHEAD <= u64::MAX,
        ensures
            final(self).size == old(self).size + audio_size + VOICE_OVERHEAD,
            final(self).len_ms == old(self).len_ms,
            r == if !prevent_feedback && audio_size >= MIN_TRAINING_AUDIO {
                Some((audio_size + VOICE_OVERHEAD) as u64)
            } else {
                None
            },
    {
        let sz = audio_size + VOICE_OVERHEAD;
        self.size = self.size + sz;
        if !prevent_feedback && audio_size >= MIN_TRAINING_AUDIO as u64 {
            Some(sz)
        } else {
            None
        }
    }

    /// Counts `ms` milliseconds of waiting.
    pub fn sleep(&mut self, ms: u64)
        requires
            old(self).len_ms + ms <= u64::MAX,
        ensures
            final(self).len_ms == old(self).len_ms + ms,
            final(self).size == old(self).size,
    {
        self.len_ms = self.len_ms + ms;
    }
}

/// Handles one link of a replayed trace: counts its voice datagram, if any, and
/// returns the wait that follows it, its audio size, and the predictor's
/// training sample. A missing packet takes the size `predicted` and never trains.
pub fn handle_link(pkt: PacketChainLink, stat: &mut CallStats, max_silence: Option<u64>, predicted: u32) -> (r: (u64, u64, Option<u64>))
    requires
        old(stat).size <= MAX_PASS_TOTAL,
    ensures
        r.0 == link_sleep(pkt, max_silence),
        r.1 == link_audio(pkt, predicted as nat),
        r.2 == training_sample(pkt),
        final(stat).size == old(stat).size + link_voice_bytes(pkt, predicted as nat),
        final(stat).len_ms == old(stat).len_ms,
{
    let (silence, pkt_size, prevent_feedback): (u64, u64, bool) = match pkt {
        PacketChainLink::Packet(p) => (0, p as u64, false),
        PacketChainLink::Missing(_) => (0, predicted as u64, true),
        PacketChainLink::Silence(t) => {
            let out = t as u64;
            let clamped = match max_silence {
                Some(c) => if out < c { out } else { c },
                None => out,
            };
            (clamped, 0, false)
        },
    };
    let sleep_time = silence + BASE_PACING_MS;
    let sample = if pkt_size > 0 {
        stat.register_voice(pkt_size, prevent_feedback)
    } else {
        None
    };
    (sleep_time, pkt_size, sample)
}

/// Totals of a replay pass.
pub struct PassModel {
    pub bytes: nat,
    pub elapsed: nat,
    pub keepalives: nat,
}

/// The pass before any link.
pub open spec fn pass_start() -> PassModel {
    PassModel { bytes: 0, elapsed: 0, keepalives: 0 }
}

/// The pass after one more link: the wait runs in full, and a keepalive goes out
/// at the start and every `KEEPALIVE_FREQ_MS` after it.
pub open spec fn pass_step(m: PassModel, l: PacketChainLink, cap: Option<u64>, predicted: nat) -> PassModel {
    let elapsed = m.elapsed + link_sleep(l, cap);
    let keepalives = elapsed / (KEEPALIVE_FREQ_MS as nat) + 1;
    PassModel {
        bytes: (m.bytes + link_voice_bytes(l, predicted) + KEEPALIVE_WIRE * (keepalives - m.keepalives)) as nat,
        elapsed,
        keepalives,
    }
}

/// The pass after the links of `links`, where `preds[i]` is the predictor's
/// size at link `i`.
pub open spec fn replay_model(links: Seq<PacketChainLink>, cap: Option<u64>, preds: Seq<u32>) -> PassModel
    decreases links.len(),
{
    if links.len() == 0 || preds.len() != links.len() {
        pass_start()
    } else {
        pass_step(
            replay_model(links.drop_last(), cap, preds.drop_last()),
            links.last(),
            cap,
            preds.last() as nat,
        )
    }
}

/// The sum of the waits that follow the links.
pub open spec fn total_sleep(links: Seq<PacketChainLink>, cap: Option<u64>) -> nat
    decreases links.len(),
{
    if links.len() == 0 {
        0
    } else {
        total_sleep(links.drop_last(), cap) + link_sleep(links.last(), cap)
    }
}

/// The wire bytes of the voice datagrams of the links.
pub open spec fn total_voice_bytes(links: Seq<PacketChainLink>, preds: Seq<u32>) -> nat
    decreases links.len(),
{
    if links.len() == 0 || preds.len() != links.len() {
        0
    } else {
        total_voice_bytes(links.drop_last(), preds.drop_last()) + link_voice_bytes(links.last(), preds.last() as nat)
    }
}

/// The totals of a replay are fixed by the trace: the time is the sum of the
/// waits, the keepalives are one at the start and one every
/// `KEEPALIVE_FREQ_MS` after it, and the bytes are those of the voice datagrams
/// and of the keepalives.
pub proof fn lemma_replay_totals(links: Seq<PacketChainLink>, cap: Option<u64>, preds: Seq<u32>)
    requires
        preds.len() == links.len(),
    ensures
        replay_model(links, cap, preds).elapsed == total_sleep(links, cap),
        replay_model(links, cap, preds).keepalives == if links.len() == 0 {
            0
        } else {
            total_sleep(links, cap) / (KEEPALIVE_FREQ_MS as nat) + 1
        },
        replay_model(links, cap, preds).bytes == total_voice_bytes(links, preds) + KEEPALIVE_WIRE
            * replay_model(links, cap, preds).keepalives,
    decreases links.len(),
{
    if links.len() > 0 {
        let prev = replay_model(links.drop_last(), cap, preds.drop_last());
        lemma_replay_totals(links.drop_last(), cap, preds.drop_last());
        let e = total_sleep(links, cap);
        vstd::arithmetic::div_mod::lemma_div_is_ordered(prev.elapsed as int, e as int, 5000);
        assert(prev.keepalives <= e / 5000 + 1);
        assert(KEEPALIVE_WIRE * ((e / 5000 + 1) as int - prev.keepalives) + KEEPALIVE_WIRE * prev.keepalives
            == KEEPALIVE_WIRE * (e / 5000 + 1)) by (nonlinear_arith);
    }
}

/// Replaying a trace twice gives the same totals: the time and the keepalives
/// do not depend on the predictor at all, and the bytes only on the sizes it
/// supplies for missing packets.
pub proof fn lemma_replay_deterministic(links: Seq<PacketChainLink>, cap: Option<u64>, preds_a: Seq<u32>, preds_b: Seq<u32>)
    requires
        preds_a.len() == links.len(),
        preds_b.len() == links.len(),
        forall|i: int| 0 <= i < links.len() && #[trigger] links[i] is Missing ==> preds_a[i] == preds_b[i],
    ensures
        replay_model(links, cap, preds_a) == replay_model(links, cap, preds_b),
    decreases links.len(),
{
    if links.len() > 0 {
        let l = links.drop_last();
        assert forall|i: int| 0 <= i < l.len() && #[trigger] l[i] is Missing implies preds_a.drop_last()[i] == preds_b.drop_last()[i] by {
            assert(links[i] == l[i]);
        }
        lemma_replay_deterministic(l, cap, preds_a.drop_last(), preds_b.drop_last());
        if links.last() is Missing {
            assert(preds_a[links.len() - 1] == preds_b[links.len() - 1]);
        }
    }
}

/// One accounting pass over a trace, with or without a silence ceiling.
pub struct StatsPass {
    stats: CallStats,
    max_silence: Option<u64>,
    keepalives: u64,
    ka_time: u64,
}

impl StatsPass {
    pub closed spec fn view(&self) -> PassModel {
        PassModel {
            bytes: self.stats.size as nat,
            elapsed: self.stats.len_ms as nat,
            keepalives: self.keepalives as nat,
        }
    }

    /// The silence ceiling of this pass.
    pub closed spec fn ceiling(&self) -> Option<u64> {
        self.max_silence
    }

    /// The keepalive clock agrees with the time elapsed.
    pub closed spec fn wf(&self) -> bool {
        ||| (self.keepalives == 0 && self.stats.len_ms == 0 && self.ka_time == KEEPALIVE_FREQ_MS)
        ||| (self.keepalives >= 1 && self.keepalives == self.stats.len_ms / KEEPALIVE_FREQ_MS + 1
            && self.ka_time == self.stats.len_ms % KEEPALIVE_FREQ_MS)
    }

    pub fn new(max_silence: Option<u64>) -> (r: StatsPass)
        ensures
            r.wf(),
            r@ == pass_start(),
            r.ceiling() == max_silence,
    {
        StatsPass { stats: CallStats::new(), max_silence, keepalives: 0, ka_time: KEEPALIVE_FREQ_MS }
    }

    /// Replays one link: counts its voice datagram, then waits the time that
    /// follows it in slices of at most `WAIT_SLICE_MS`, counting a keepalive
    /// whenever one is due. Returns the predictor's training sample.
    pub fn replay_link(&mut self, link: PacketChainLink, predicted: u32) -> (r: Option<u64>)
        requires
            old(self).wf(),
            old(self)@.bytes <= MAX_PASS_TOTAL,
            old(self)@.elapsed <= MAX_PASS_TOTAL,
        ensures
            final(self).wf(),
            final(self)@ == pass_step(old(self)@, link, old(self).ceiling(), predicted as nat),
            final(self).ceiling() == old(self).ceiling(),
            r == training_sample(link),
    {
        let ghost m0 = self@;
        let (mut sleep_time, _size, sample) = handle_link(link, &mut self.stats, self.max_silence, predicted);
        let ghost bytes1 = self.stats.size as int;
        let ghost target = m0.elapsed + link_sleep(link, self.max_silence);
        loop
            invariant
                self.ka_time <= KEEPALIVE_FREQ_MS,
                self.ka_time + KEEPALIVE_FREQ_MS * (self.keepalives - 1) == self.stats.len_ms as int,
                self.keepalives >= m0.keepalives,
                self.keepalives as int <= (self.stats.len_ms as int) / (KEEPALIVE_FREQ_MS as int) + 1,
                self.stats.len_ms + sleep_time == target,
                target <= MAX_PASS_TOTAL + 0x1_0000_0014,
                self.stats.size as int == bytes1 + KEEPALIVE_WIRE * (self.keepalives - m0.keepalives),
                bytes1 <= MAX_PASS_TOTAL + 0x1_0000_0038,
                self.max_silence == old(self).max_silence,
            ensures
                self.ka_time < KEEPALIVE_FREQ_MS,
                sleep_time == 0,
            decreases sleep_time, self.ka_time,
        {
            if self.ka_time >= KEEPALIVE_FREQ_MS {
                self.stats.register_keepalive();
                self.keepalives = self.keepalives + 1;
                self.ka_time = 0;
            }
            if sleep_time == 0 {
                break;
            }
            let time_til_ka = KEEPALIVE_FREQ_MS - self.ka_time;
            let mut micro = if sleep_time < WAIT_SLICE_MS { sleep_time } else { WAIT_SLICE_MS };
            if time_til_ka < micro {
                micro = time_til_ka;
            }
            self.stats.sleep(micro);
            sleep_time = sleep_time - micro;
            self.ka_time = self.ka_time + micro;
        }
        proof {
            let e = self.stats.len_ms as int;
            let k = self.ka_time as int;
            let n = self.keepalives as int;
            assert(k < 5000);
            assert(e / 5000 == n - 1 && e % 5000 == k) by {
                vstd::arithmetic::div_mod::lemma_fundamental_div_mod_converse(e, 5000, n - 1, k);
            }
        }
        sample
    }

    /// The byte and time totals so far.
    pub fn stats(&self) -> (r: &CallStats)
        ensures
            r.size == self@.bytes,
            r.len_ms == self@.elapsed,
    {
        &self.stats
    }

    /// Bytes counted so far, headers and keepalives included.
    pub fn bytes(&self) -> (r: u64)
        ensures
            r == self@.bytes,
    {
        self.stats.size
    }

    /// Milliseconds counted so far.
    pub fn elapsed_ms(&self) -> (r: u64)
        ensures
            r == self@.elapsed,
    {
        self.stats.len_ms
    }
}

} // verus!
