//! The decisions of one simulated call: which trace walk comes next, what each
//! link sends, how each wait is sliced, when keepalives go out and when the call
//! ends. The caller owns the clock, the sockets and the sleeping.
use crate::constants::{BASE_PACING_MS, KEEPALIVE_FREQ_MS, WAIT_SLICE_MS};
use crate::random::random_u64_inclusive;
use crate::trace::PacketChainLink;
use vstd::prelude::*;

verus! {

/// When a call ends.
#[derive(Clone, Copy, Debug, PartialEq, Eq, Structural)]
pub struct CallPlan {
    /// The call keeps drawing traces until this much time has passed.
    pub duration_lb_ms: u64,
    /// The call stops as soon as this much time has passed, if set.
    pub end_ms: Option<u64>,
    /// The end was drawn at random; the call keeps drawing traces until it.
    pub randomise: bool,
    /// The call keeps drawing traces until it is stopped.
    pub constant: bool,
}

/// Call settings that cannot work.
#[derive(Clone, Copy, Debug, PartialEq, Eq, Structural)]
pub enum CallConfigError {
    /// A random duration was asked for without an upper bound.
    NoUpperBound,
    /// A random duration was asked for, but the upper bound is not above the lower.
    EmptyDurationRange,
}

/// The plan for settings `lb`, `ub`, `randomise` and `constant`, where `drawn`
/// stands for a random duration drawn from `lb..ub`.
pub open spec fn plan_spec(lb: u64, ub: Option<u64>, randomise: bool, constant: bool, drawn: u64) -> Result<CallPlan, CallConfigError> {
    if randomise {
        match ub {
            None => Err(CallConfigError::NoUpperBound),
            Some(u) => if u <= lb {
                Err(CallConfigError::EmptyDurationRange)
            } else {
                Ok(CallPlan { duration_lb_ms: lb, end_ms: Some(drawn), randomise, constant })
            },
        }
    } else {
        Ok(CallPlan { duration_lb_ms: lb, end_ms: ub, randomise, constant })
    }
}

/// The plan of a call whose random duration, if any, is `drawn`.
pub fn plan_with_draw(lb: u64, ub: Option<u64>, randomise: bool, constant: bool, drawn: u64) -> (r: Result<CallPlan, CallConfigError>)
    ensures
        r == plan_spec(lb, ub, randomise, constant, drawn),
{
    if randomise {
        match ub {
            None => Err(CallConfigError::NoUpperBound),
            Some(u) => if u <= lb {
                Err(CallConfigError::EmptyDurationRange)
            } else {
                Ok(CallPlan { duration_lb_ms: lb, end_ms: Some(drawn), randomise, constant })
            },
        }
    } else {
        Ok(CallPlan { duration_lb_ms: lb, end_ms: ub, randomise, constant })
    }
}

/// The plan of a call: with `randomise`, its end is drawn uniformly from
/// `lb..ub`; otherwise it ends at `ub`, if set.
pub fn plan_call(lb: u64, ub: Option<u64>, randomise: bool, constant: bool) -> (r: Result<CallPlan, CallConfigError>)
    ensures
        match ub {
            Some(u) if randomise && lb < u => exists|d: u64|
                lb <= d < u && r == #[trigger] plan_spec(lb, ub, randomise, constant, d),
            _ => r == plan_spec(lb, ub, randomise, constant, lb),
        },
{
    let drawn = match ub {
        Some(u) => if randomise && lb < u {
            random_u64_inclusive(lb, u - 1)
        } else {
            lb
        },
        None => lb,
    };
    plan_with_draw(lb, ub, randomise, constant, drawn)
}

/// A trace index drawn uniformly from `0..count`; `None` when there is no trace.
pub fn draw_trace_index(count: usize) -> (r: Option<usize>)
    ensures
        count == 0 <==> r is None,
        r matches Some(i) ==> i < count,
{
    if count == 0 {
        None
    } else {
        Some(random_u64_inclusive(0, (count - 1) as u64) as usize)
    }
}

/// Whether a call that has walked `walked` traces, at `now` ms, draws another.
pub open spec fn keeps_calling(plan: CallPlan, walked: bool, now: nat) -> bool {
    ||| !walked
    ||| plan.constant
    ||| now < plan.duration_lb_ms
    ||| (plan.randomise && (plan.end_ms matches Some(e) && now < e))
}

/// Whether the call's end has come at `now` ms.
pub open spec fn past_end(plan: CallPlan, now: nat) -> bool {
    match plan.end_ms {
        Some(e) => now >= e,
        None => false,
    }
}

/// Whether a keepalive is due at `now` ms, after the last one at `last`.
pub open spec fn keepalive_due(last: Option<u64>, now: nat) -> bool {
    match last {
        None => true,
        Some(t) => now >= t + KEEPALIVE_FREQ_MS,
    }
}

/// The wait that follows link `l` in a live call.
pub open spec fn live_link_sleep(l: PacketChainLink, cap: Option<u64>) -> nat {
    BASE_PACING_MS as nat + match l {
        PacketChainLink::Silence(d) => match cap {
            Some(c) => if (d as nat) < (c as nat) { d as nat } else { c as nat },
            None => d as nat,
        },
        _ => 0nat,
    }
}

/// The audio that link `l` sends in a live call: a voice packet of a nonzero
/// size; a missing packet only stands in for the last size, and sends nothing.
pub open spec fn live_link_send(l: PacketChainLink) -> Option<u16> {
    match l {
        PacketChainLink::Packet(n) => if n > 0 { Some(n) } else { None },
        _ => None,
    }
}

/// The last known packet size after link `l`.
pub open spec fn live_last_known(l: PacketChainLink, last: u16) -> u16 {
    match l {
        PacketChainLink::Packet(n) => n,
        _ => last,
    }
}

/// What the caller is to do next.
#[derive(Clone, Copy, Debug, PartialEq, Eq, Structural)]
pub enum CallAction {
    /// Draw a trace at random (and, with `refresh`, a new identity first), then
    /// ask again with it.
    StartTrace { refresh: bool },
    /// Send a voice datagram carrying this many audio bytes.
    SendVoice { audio: u16 },
    /// Send a keepalive carrying this counter.
    SendKeepalive { count: u64 },
    /// Sleep this many milliseconds, draining the socket.
    Sleep { ms: u64 },
    /// The call is over.
    Finish,
}

/// Where a call stands.
#[derive(Clone, Copy, Debug, PartialEq, Eq, Structural)]
pub enum CallPhase {
    /// Between trace walks.
    Idle,
    /// Walking a trace, before the link at `pos`.
    Walking,
    /// Waiting after a link.
    Waiting,
    /// Over.
    Done,
}

/// The state of a call, as the contracts see it.
pub struct CallModel {
    pub phase: CallPhase,
    pub walked: bool,
    pub pos: nat,
    pub remaining: nat,
    pub last_known: u16,
    pub ka_count: u64,
    pub ka_last: Option<u64>,
}

/// A wait step at `now` ms: the call ends when its end has come or it is
/// stopped; else a due keepalive goes out; else the wait goes on for at most
/// `WAIT_SLICE_MS`. `None` once the wait is over.
pub open spec fn wait_spec(m: CallModel, plan: CallPlan, now: nat, stop: bool) -> (CallModel, Option<CallAction>) {
    if past_end(plan, now) || stop {
        (CallModel { phase: CallPhase::Done, ..m }, Some(CallAction::Finish))
    } else if keepalive_due(m.ka_last, now) {
        (
            CallModel {
                ka_count: if m.ka_count < u64::MAX { (m.ka_count + 1) as u64 } else { m.ka_count },
                ka_last: Some(now as u64),
                ..m
            },
            Some(CallAction::SendKeepalive { count: m.ka_count }),
        )
    } else if m.remaining == 0 {
        (CallModel { phase: CallPhase::Walking, ..m }, None)
    } else if m.remaining < WAIT_SLICE_MS {
        (CallModel { remaining: 0, ..m }, Some(CallAction::Sleep { ms: m.remaining as u64 }))
    } else {
        (
            CallModel { remaining: (m.remaining - WAIT_SLICE_MS) as nat, ..m },
            Some(CallAction::Sleep { ms: WAIT_SLICE_MS }),
        )
    }
}

/// Between walks: another trace is drawn while the call keeps calling (with a
/// fresh keepalive counter when the identity is refreshed); else the call ends.
pub open spec fn idle_spec(m: CallModel, plan: CallPlan, refresh: bool, now: nat) -> (CallModel, CallAction) {
    if keeps_calling(plan, m.walked, now) {
        (
            CallModel {
                phase: CallPhase::Walking,
                walked: true,
                pos: 0,
                ka_count: if refresh { 1 } else { m.ka_count },
                ka_last: if refresh { None } else { m.ka_last },
                ..m
            },
            CallAction::StartTrace { refresh },
        )
    } else {
        (CallModel { phase: CallPhase::Done, ..m }, CallAction::Finish)
    }
}

/// Before the link at `m.pos`: it is taken up and its voice, if any, is sent,
/// else its wait begins; past the last link, the walk is over.
pub open spec fn walking_spec(m: CallModel, plan: CallPlan, cap: Option<u64>, refresh: bool, trace: Seq<PacketChainLink>, now: nat, stop: bool) -> (CallModel, CallAction) {
    if m.pos < trace.len() {
        let l = trace[m.pos as int];
        let m1 = CallModel {
            phase: CallPhase::Waiting,
            pos: m.pos + 1,
            remaining: live_link_sleep(l, cap),
            last_known: live_last_known(l, m.last_known),
            ..m
        };
        match live_link_send(l) {
            Some(n) => (m1, CallAction::SendVoice { audio: n }),
            None => {
                let (m2, a) = wait_spec(m1, plan, now, stop);
                (m2, a.unwrap_or(CallAction::Finish))
            },
        }
    } else {
        idle_spec(CallModel { phase: CallPhase::Idle, ..m }, plan, refresh, now)
    }
}

/// One step of a call at `now` ms, walking `trace`.
pub open spec fn step_spec(m: CallModel, plan: CallPlan, cap: Option<u64>, refresh: bool, trace: Seq<PacketChainLink>, now: nat, stop: bool) -> (CallModel, CallAction) {
    match m.phase {
        CallPhase::Done => (m, CallAction::Finish),
        CallPhase::Idle => idle_spec(m, plan, refresh, now),
        CallPhase::Walking => walking_spec(m, plan, cap, refresh, trace, now, stop),
        CallPhase::Waiting => {
            let (m1, a) = wait_spec(m, plan, now, stop);
            match a {
                Some(a) => (m1, a),
                None => walking_spec(m1, plan, cap, refresh, trace, now, stop),
            }
        },
    }
}

/// A call with no lower bound on its duration, no end and no constant calling
/// ends after its first walk: once that walk is over, the next step finishes.
pub proof fn lemma_single_walk(m: CallModel, plan: CallPlan, cap: Option<u64>, refresh: bool, trace: Seq<PacketChainLink>, now: nat, stop: bool)
    requires
        plan.duration_lb_ms == 0,
        plan.end_ms is None,
        !plan.constant,
        m.walked,
        m.phase == CallPhase::Idle || (m.phase == CallPhase::Walking && m.pos >= trace.len()),
    ensures
        step_spec(m, plan, cap, refresh, trace, now, stop).1 == CallAction::Finish,
        step_spec(m, plan, cap, refresh, trace, now, stop).0.phase == CallPhase::Done,
{
}

/// No sleep is longer than `WAIT_SLICE_MS` or empty, and each keepalive carries
/// the current counter, which then moves on by one.
pub proof fn lemma_step_bounds(m: CallModel, plan: CallPlan, cap: Option<u64>, refresh: bool, trace: Seq<PacketChainLink>, now: nat, stop: bool)
    requires
        m.ka_count < u64::MAX,
    ensures
        step_spec(m, plan, cap, refresh, trace, now, stop).1 matches CallAction::Sleep { ms } ==> 0 < ms <= WAIT_SLICE_MS,
        step_spec(m, plan, cap, refresh, trace, now, stop).1 matches CallAction::SendKeepalive { count } ==> {
            &&& count == m.ka_count
            &&& step_spec(m, plan, cap, refresh, trace, now, stop).0.ka_count == m.ka_count + 1
        },
{
}

/// A new call draws its first trace at once.
pub proof fn lemma_first_walk(m: CallModel, plan: CallPlan, cap: Option<u64>, refresh: bool, trace: Seq<PacketChainLink>, now: nat, stop: bool)
    requires
        !m.walked,
        m.phase == CallPhase::Idle,
    ensures
        step_spec(m, plan, cap, refresh, trace, now, stop).1 == (CallAction::StartTrace { refresh }),
{
}

/// The state of one simulated call.
pub struct CallEngine {
    plan: CallPlan,
    max_silence: Option<u64>,
    refresh: bool,
    phase: CallPhase,
    walked: bool,
    pos: usize,
    remaining: u64,
    last_known: u16,
    ka_count: u64,
    ka_last: Option<u64>,
}

impl CallEngine {
    pub closed spec fn view(&self) -> CallModel {
        CallModel {
            phase: self.phase,
            walked: self.walked,
            pos: self.pos as nat,
            remaining: self.remaining as nat,
            last_known: self.last_known,
            ka_count: self.ka_count,
            ka_last: self.ka_last,
        }
    }

    pub closed spec fn plan(&self) -> CallPlan {
        self.plan
    }

    pub closed spec fn ceiling(&self) -> Option<u64> {
        self.max_silence
    }

    pub closed spec fn refreshes(&self) -> bool {
        self.refresh
    }

    /// A call about to draw its first trace; keepalive counters start at 1.
    pub fn new(plan: CallPlan, max_silence: Option<u64>, refresh: bool) -> (r: CallEngine)
        ensures
            r@ == (CallModel {
                phase: CallPhase::Idle,
                walked: false,
                pos: 0,
                remaining: 0,
                last_known: 0,
                ka_count: 1,
                ka_last: None,
            }),
            r.plan() == plan,
            r.ceiling() == max_silence,
            r.refreshes() == refresh,
    {
        CallEngine {
            plan,
            max_silence,
            refresh,
            phase: CallPhase::Idle,
            walked: false,
            pos: 0,
            remaining: 0,
            last_known: 0,
            ka_count: 1,
            ka_last: None,
        }
    }

    /// One step of a wait at `now` ms: the call ends when its end has come or
    /// it is stopped; else a due keepalive goes out; else the wait goes on for
    /// at most `WAIT_SLICE_MS`. `None` once the wait is over.
    fn wait_step(&mut self, now: u64, stop: bool) -> (r: Option<CallAction>)
        requires
            old(self).phase == CallPhase::Waiting,
        ensures
            (final(self)@, r) == wait_spec(old(self)@, old(self).plan, now as nat, stop),
            final(self).plan == old(self).plan,
            final(self).max_silence == old(self).max_silence,
            final(self).refresh == old(self).refresh,
    {
        let ended = match self.plan.end_ms {
            Some(e) => now >= e,
            None => false,
        };
        if ended || stop {
            self.phase = CallPhase::Done;
            return Some(CallAction::Finish);
        }
        let due = match self.ka_last {
            None => true,
            Some(t) => now >= t && now - t >= KEEPALIVE_FREQ_MS,
        };
        if due {
            let count = self.ka_count;
            if self.ka_count < u64::MAX {
                self.ka_count = self.ka_count + 1;
            }
            self.ka_last = Some(now);
            return Some(CallAction::SendKeepalive { count });
        }
        if self.remaining == 0 {
            self.phase = CallPhase::Walking;
            return None;
        }
        if self.remaining < WAIT_SLICE_MS {
            let ms = self.remaining;
            self.remaining = 0;
            Some(CallAction::Sleep { ms })
        } else {
            self.remaining = self.remaining - WAIT_SLICE_MS;
            Some(CallAction::Sleep { ms: WAIT_SLICE_MS })
        }
    }

    fn start_walk_or_finish(&mut self, now: u64) -> (r: CallAction)
        requires
            old(self).phase == CallPhase::Idle,
        ensures
            (final(self)@, r) == idle_spec(old(self)@, old(self).plan, old(self).refresh, now as nat),
            final(self).plan == old(self).plan,
            final(self).max_silence == old(self).max_silence,
            final(self).refresh == old(self).refresh,
    {
        let keeps = !self.walked || self.plan.constant || now < self.plan.duration_lb_ms || (self.plan.randomise
            && match self.plan.end_ms {
            Some(e) => now < e,
            None => false,
        });
        if keeps {
            self.walked = true;
            self.phase = CallPhase::Walking;
            self.pos = 0;
            if self.refresh {
                self.ka_count = 1;
                self.ka_last = None;
            }
            CallAction::StartTrace { refresh: self.refresh }
        } else {
            self.phase = CallPhase::Done;
            CallAction::Finish
        }
    }

    fn walk(&mut self, trace: &[PacketChainLink], now: u64, stop: bool) -> (r: CallAction)
        requires
            old(self).phase == CallPhase::Walking,
        ensures
            (final(self)@, r) == walking_spec(old(self)@, old(self).plan, old(self).max_silence, old(self).refresh, trace@, now as nat, stop),
            final(self).plan == old(self).plan,
            final(self).max_silence == old(self).max_silence,
            final(self).refresh == old(self).refresh,
    {
        if self.pos < trace.len() {
            let l = trace[self.pos];
            self.pos = self.pos + 1;
            let (silence, send): (u64, Option<u16>) = match l {
                PacketChainLink::Packet(n) => {
                    self.last_known = n;
                    (0, if n > 0 { Some(n) } else { None })
                },
                PacketChainLink::Missing(_) => (0, None),
                PacketChainLink::Silence(d) => {
                    let d = d as u64;
                    let clamped = match self.max_silence {
                        Some(c) => if d < c { d } else { c },
                        None => d,
                    };
                    (clamped, None)
                },
            };
            self.remaining = silence + BASE_PACING_MS;
            self.phase = CallPhase::Waiting;
            match send {
                Some(n) => CallAction::SendVoice { audio: n },
                None => match self.wait_step(now, stop) {
                    Some(a) => a,
                    None => CallAction::Finish,
                },
            }
        } else {
            self.phase = CallPhase::Idle;
            self.start_walk_or_finish(now)
        }
    }

    /// The next thing to do at `now` ms since the call began, walking `trace` (the
    /// trace drawn after the last `StartTrace`), with `stop` raised once the
    /// call is to stop.
    pub fn next(&mut self, trace: &[PacketChainLink], now: u64, stop: bool) -> (r: CallAction)
        ensures
            (final(self)@, r) == step_spec(old(self)@, old(self).plan(), old(self).ceiling(), old(self).refreshes(), trace@, now as nat, stop),
            final(self).plan() == old(self).plan(),
            final(self).ceiling() == old(self).ceiling(),
            final(self).refreshes() == old(self).refreshes(),
    {
        match self.phase {
            CallPhase::Done => CallAction::Finish,
            CallPhase::Idle => self.start_walk_or_finish(now),
            CallPhase::Walking => self.walk(trace, now, stop),
            CallPhase::Waiting => match self.wait_step(now, stop) {
                Some(a) => a,
                None => self.walk(trace, now, stop),
            },
        }
    }
}

} // verus!
