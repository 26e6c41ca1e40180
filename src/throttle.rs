use vstd::prelude::*;
use vstd::arithmetic::power2::{lemma2_to64, lemma_pow2_pos, lemma_pow2_unfold, pow2};

use crate::peer::{
    find_addr, lemma_find_addr_bounds, lemma_find_addr_push, lemma_find_addr_same_keys, position,
    same_keys, PeerAddr,
};
use crate::settings::{Settings, ThrottlePolicy};

verus! {

/// Why a connection attempt was refused. Times are in milliseconds on the
/// caller's monotonic clock.
#[derive(Debug, Clone, Copy, PartialEq, Eq, Structural)]
pub enum AttemptError {
    /// The address is blocked until the given time.
    Blocked { until: u64 },
    /// The attempt came too soon after the previous one.
    TooFast,
    /// The lock around the throttle could not be taken (raised by callers
    /// that share a throttle between threads).
    LockFailed,
}

/// What the throttle remembers of one address.
pub struct AttemptRecord {
    /// The times of the attempts in the current window, oldest first.
    pub attempts: Seq<u64>,
    /// The end of the current block, if any.
    pub blocked_until: Option<u64>,
    /// How many blocks the address has earned.
    pub penalty_count: u32,
    /// The time of the last attempt.
    pub last_seen: u64,
}

/// `x + y`, saturating at `u64::MAX`.
pub open spec fn sat_add(x: u64, y: u64) -> u64 {
    if x + y > u64::MAX {
        u64::MAX
    } else {
        (x + y) as u64
    }
}

/// `x - y`, saturating at 0.
pub open spec fn sat_sub(x: u64, y: u64) -> u64 {
    if x < y {
        0
    } else {
        (x - y) as u64
    }
}

/// `unit * 2^count`, saturating at `u64::MAX`.
pub open spec fn scaled(unit: u64, count: nat) -> u64
    decreases count,
{
    if count == 0 {
        unit
    } else {
        let half = scaled(unit, (count - 1) as nat);
        if 2 * half > u64::MAX {
            u64::MAX
        } else {
            (2 * half) as u64
        }
    }
}

/// The attempts of `q` that are still inside the window at `now`: those
/// older than `window` are dropped from the front.
pub open spec fn evict(q: Seq<u64>, now: u64, window: u64) -> Seq<u64>
    decreases q.len(),
{
    if q.len() > 0 && sat_sub(now, q[0]) > window {
        evict(q.drop_first(), now, window)
    } else {
        q
    }
}

/// The record of an address seen for the first time at `now`.
pub open spec fn fresh_record(now: u64) -> AttemptRecord {
    AttemptRecord { attempts: Seq::empty(), blocked_until: None, penalty_count: 0, last_seen: now }
}

/// One connection attempt at `now` from an address with record `rec` (none:
/// never seen): the new record and the verdict.
pub open spec fn attempt_step(policy: ThrottlePolicy, rec: Option<AttemptRecord>, now: u64) -> (
    AttemptRecord,
    Result<(), AttemptError>,
) {
    let st = match rec {
        Some(r) => r,
        None => fresh_record(now),
    };
    match st.blocked_until {
        Some(until) if now < until => {
            let extended = sat_add(until, scaled(policy.penalty_backoff, st.penalty_count as nat));
            (
                AttemptRecord { blocked_until: Some(extended), last_seen: now, ..st },
                Err(AttemptError::Blocked { until: extended }),
            )
        },
        _ => {
            let kept = evict(st.attempts, now, policy.interval_window);
            let is_fast = kept.len() > 0 && sat_sub(now, kept.last())
                <= policy.fast_attempt_threshold;
            let pushed = kept.push(now);
            if pushed.len() > policy.max_attempts {
                let until = sat_add(now, scaled(policy.block_duration, st.penalty_count as nat));
                (
                    AttemptRecord {
                        attempts: Seq::empty(),
                        blocked_until: Some(until),
                        penalty_count: if st.penalty_count == u32::MAX {
                            u32::MAX
                        } else {
                            (st.penalty_count + 1) as u32
                        },
                        last_seen: now,
                    },
                    Err(AttemptError::Blocked { until }),
                )
            } else {
                (
                    AttemptRecord {
                        attempts: pushed,
                        blocked_until: None,
                        penalty_count: st.penalty_count,
                        last_seen: now,
                    },
                    if is_fast {
                        Err(AttemptError::TooFast)
                    } else {
                        Ok(())
                    },
                )
            }
        },
    }
}

/// After a blocked attempt, the address stays blocked until the time that
/// attempt reported.
pub proof fn lemma_blocked_is_recorded(policy: ThrottlePolicy, rec: Option<AttemptRecord>, now: u64)
    ensures
        attempt_step(policy, rec, now).1 matches Err(AttemptError::Blocked { until }) ==> attempt_step(
            policy,
            rec,
            now,
        ).0.blocked_until == Some(until),
{
}

/// Blocks never shrink: of two consecutive attempts from one address that
/// are both blocked, the second reports an end no earlier than the first;
/// one made while the block lasts extends it by `penalty_backoff * 2^count`
/// (saturating at `u64::MAX`).
/// Where the backoff unit is not zero and the second attempt came while the
/// block lasted, the end moves strictly later (unless it is already the
/// largest time).
pub proof fn lemma_block_monotone(
    policy: ThrottlePolicy,
    rec: Option<AttemptRecord>,
    now1: u64,
    now2: u64,
)
    ensures
        ({
            let (mid, first) = attempt_step(policy, rec, now1);
            let (_, second) = attempt_step(policy, Some(mid), now2);
            match (first, second) {
                (
                    Err(AttemptError::Blocked { until: a }),
                    Err(AttemptError::Blocked { until: b }),
                ) => {
                    &&& a <= b
                    &&& (now2 < a && policy.penalty_backoff > 0 && a < u64::MAX) ==> a < b
                    &&& (now2 < a && a + policy.penalty_backoff * pow2(mid.penalty_count as nat)
                        <= u64::MAX) ==> b == a + policy.penalty_backoff * pow2(
                        mid.penalty_count as nat,
                    )
                },
                _ => true,
            }
        }),
{
    let (mid, first) = attempt_step(policy, rec, now1);
    if let Err(AttemptError::Blocked { until: a }) = first {
        if now2 < a && policy.penalty_backoff > 0 {
            lemma_scaled_positive(policy.penalty_backoff, mid.penalty_count as nat);
        }
        if now2 < a && a + policy.penalty_backoff * pow2(mid.penalty_count as nat) <= u64::MAX {
            lemma_scaled_exact(policy.penalty_backoff, mid.penalty_count as nat);
        }
    }
}

/// The back-off `scaled(unit, count)` is exactly `unit * 2^count` wherever
/// that product fits in a `u64`; it saturates at `u64::MAX` only beyond.
pub proof fn lemma_scaled_exact(unit: u64, count: nat)
    requires
        unit * pow2(count) <= u64::MAX,
    ensures
        scaled(unit, count) == unit * pow2(count),
    decreases count,
{
    if count > 0 {
        let c1 = (count - 1) as nat;
        lemma_pow2_unfold(count);
        lemma_pow2_pos(c1);
        assert(unit * pow2(count) == 2 * (unit * pow2(c1))) by (nonlinear_arith)
            requires pow2(count) == 2 * pow2(c1);
        assert(unit * pow2(c1) <= unit * pow2(count)) by (nonlinear_arith)
            requires pow2(count) == 2 * pow2(c1), pow2(c1) > 0;
        lemma_scaled_exact(unit, c1);
    } else {
        lemma2_to64();
    }
}

proof fn lemma_scaled_positive(unit: u64, count: nat)
    requires
        unit > 0,
    ensures
        scaled(unit, count) > 0,
    decreases count,
{
    if count > 0 {
        lemma_scaled_positive(unit, (count - 1) as nat);
    }
}

proof fn lemma_scaled_fixed(unit: u64, from: nat, count: nat)
    requires
        from <= count,
        scaled(unit, from) == 0 || scaled(unit, from) == u64::MAX,
    ensures
        scaled(unit, count) == scaled(unit, from),
    decreases count - from,
{
    if from < count {
        lemma_scaled_fixed(unit, from, (count - 1) as nat);
    }
}

/// `unit * 2^count`, saturating at `u64::MAX`.
fn scale(unit: u64, count: u32) -> (r: u64)
    ensures
        r == scaled(unit, count as nat),
{
    let mut v = unit;
    let mut i: u32 = 0;
    while i < count
        invariant
            i <= count,
            v == scaled(unit, i as nat),
        decreases count - i,
    {
        if v == 0 || v == u64::MAX {
            proof {
                lemma_scaled_fixed(unit, i as nat, count as nat);
            }
            return v;
        }
        v = if v > u64::MAX / 2 {
            u64::MAX
        } else {
            2 * v
        };
        i += 1;
    }
    v
}

/// Per-address attempt state.
pub struct State {
    attempts: Vec<u64>,
    blocked_until: Option<u64>,
    penalty_count: u32,
    last_seen: u64,
}

impl View for State {
    type V = AttemptRecord;

    closed spec fn view(&self) -> AttemptRecord {
        AttemptRecord {
            attempts: self.attempts@,
            blocked_until: self.blocked_until,
            penalty_count: self.penalty_count,
            last_seen: self.last_seen,
        }
    }
}

impl State {
    fn new(now: u64) -> (r: Self)
        ensures
            r@ == fresh_record(now),
    {
        State { attempts: Vec::new(), blocked_until: None, penalty_count: 0, last_seen: now }
    }

    fn attempt(&mut self, policy: &ThrottlePolicy, now: u64) -> (r: Result<(), AttemptError>)
        ensures
            (final(self)@, r) == attempt_step(*policy, Some(old(self)@), now),
    {
        self.last_seen = now;
        if let Some(until) = self.blocked_until {
            if now < until {
                let backoff = scale(policy.penalty_backoff, self.penalty_count);
                let extended = until.saturating_add(backoff);
                self.blocked_until = Some(extended);
                return Err(AttemptError::Blocked { until: extended });
            }
        }
        self.blocked_until = None;
        let window = policy.interval_window;
        loop
            invariant
                evict(self.attempts@, now, window) == evict(old(self)@.attempts, now, window),
                self.blocked_until is None,
                self.penalty_count == old(self).penalty_count,
                self.last_seen == now,
            ensures
                self.attempts@ == evict(old(self)@.attempts, now, window),
                self.blocked_until is None,
                self.penalty_count == old(self).penalty_count,
                self.last_seen == now,
            decreases self.attempts@.len(),
        {
            if self.attempts.len() == 0 {
                break;
            }
            if now.saturating_sub(self.attempts[0]) > window {
                let ghost q = self.attempts@;
                self.attempts.remove(0);
                assert(self.attempts@ =~= q.drop_first());
            } else {
                break;
            }
        }
        let n = self.attempts.len();
        let is_fast = n > 0 && now.saturating_sub(self.attempts[n - 1])
            <= policy.fast_attempt_threshold;
        self.attempts.push(now);
        if self.attempts.len() > policy.max_attempts {
            let backoff = scale(policy.block_duration, self.penalty_count);
            let block_until = now.saturating_add(backoff);
            self.blocked_until = Some(block_until);
            self.penalty_count = self.penalty_count.saturating_add(1);
            self.attempts.clear();
            return Err(AttemptError::Blocked { until: block_until });
        }
        if is_fast {
            Err(AttemptError::TooFast)
        } else {
            Ok(())
        }
    }
}

/// The record of `a` among `entries`, if it has one.
pub open spec fn record_of(entries: Seq<(PeerAddr, State)>, a: PeerAddr) -> Option<AttemptRecord> {
    if find_addr(entries, a) >= 0 {
        Some(entries[find_addr(entries, a)].1@)
    } else {
        None
    }
}

/// Per-address history of connection attempts, with exponential back-off
/// against addresses that reconnect too often.
pub struct Throttle {
    entries: Vec<(PeerAddr, State)>,
    policy: ThrottlePolicy,
}

impl Throttle {
    /// The record of `a`, if it has made an attempt.
    pub closed spec fn record(&self, a: PeerAddr) -> Option<AttemptRecord> {
        record_of(self.entries@, a)
    }

    /// The policy the throttle applies.
    pub closed spec fn spec_policy(&self) -> ThrottlePolicy {
        self.policy
    }

    /// A throttle with no history that applies the settings' policy.
    pub fn new(settings: Settings) -> (r: Self)
        ensures
            r.spec_policy() == settings.throttle_policy,
            forall|a: PeerAddr| r.record(a) is None,
    {
        Throttle { entries: Vec::new(), policy: settings.throttle_policy }
    }

    /// The policy the throttle applies.
    pub fn policy(&self) -> (r: ThrottlePolicy)
        ensures
            r == self.spec_policy(),
    {
        self.policy
    }

    /// Records a connection attempt from `addr` at `now` (milliseconds on a
    /// monotonic clock) and decides whether to let it through.
    pub fn attempt_connection(&mut self, addr: &PeerAddr, now: u64) -> (r: Result<(), AttemptError>)
        ensures
            final(self).spec_policy() == old(self).spec_policy(),
            (final(self).record(*addr), r) == ({
                let (rec, verdict) = attempt_step(old(self).spec_policy(), old(self).record(*addr), now);
                (Some(rec), verdict)
            }),
            forall|a: PeerAddr| a != *addr ==> final(self).record(a) == old(self).record(a),
    {
        let addr = *addr;
        let policy = self.policy;
        proof {
            lemma_find_addr_bounds(self.entries@, addr);
        }
        match position(&self.entries, addr) {
            Some(i) => {
                let ghost before = self.entries@;
                let (key, mut state) = self.entries.remove(i);
                let r = state.attempt(&policy, now);
                self.entries.insert(i, (key, state));
                proof {
                    assert(same_keys(before, self.entries@)) by {
                        assert forall|j: int| 0 <= j < before.len() implies #[trigger] before[j].0
                            == self.entries@[j].0 by {
                            if j < i {
                                assert(self.entries@[j] == before[j]);
                            } else if j > i {
                                assert(self.entries@[j] == before[j]);
                            }
                        }
                    }
                    assert forall|a: PeerAddr| a != addr implies record_of(self.entries@, a)
                        == record_of(before, a) by {
                        lemma_find_addr_same_keys(before, self.entries@, a);
                        lemma_find_addr_bounds(before, a);
                        if find_addr(before, a) >= 0 {
                            assert(find_addr(before, a) != i);
                        }
                    }
                    lemma_find_addr_same_keys(before, self.entries@, addr);
                }
                r
            },
            None => {
                let ghost before = self.entries@;
                let mut state = State::new(now);
                let r = state.attempt(&policy, now);
                self.entries.push((addr, state));
                proof {
                    lemma_find_addr_push(before, (addr, state), addr);
                    assert forall|a: PeerAddr| a != addr implies record_of(self.entries@, a)
                        == record_of(before, a) by {
                        lemma_find_addr_push(before, (addr, state), a);
                        lemma_find_addr_bounds(before, a);
                        if find_addr(before, a) >= 0 {
                            assert(self.entries@[find_addr(before, a)] == before[find_addr(before, a)]);
                        }
                    }
                }
                r
            },
        }
    }
}

} // verus!
