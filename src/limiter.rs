use vstd::prelude::*;

use crate::peer::{
    find_addr, lemma_find_addr_bounds, lemma_find_addr_push, lemma_find_addr_same_keys, position,
    same_keys, PeerAddr,
};
use crate::settings::{SessionQuota, Settings};

verus! {

/// Why a session could not be acquired.
#[derive(Debug, Clone, Copy, PartialEq, Eq, Structural)]
pub enum AcquireError {
    /// All `max_total` sessions are taken.
    TotalReached { max_total: usize },
    /// `addr` holds all of its `max_per_addr` sessions.
    PerAddressReached { addr: PeerAddr, max_per_addr: usize },
}

/// The sum of the per-address counters of `s`.
pub open spec fn sum_active(s: Seq<(PeerAddr, usize)>) -> nat
    decreases s.len(),
{
    if s.len() == 0 {
        0
    } else {
        sum_active(s.drop_last()) + s.last().1 as nat
    }
}

/// The counter of `a` among `s`: 0 where it has none.
pub open spec fn active_of(s: Seq<(PeerAddr, usize)>, a: PeerAddr) -> nat {
    if find_addr(s, a) >= 0 {
        s[find_addr(s, a)].1 as nat
    } else {
        0
    }
}

proof fn lemma_sum_update(s: Seq<(PeerAddr, usize)>, i: int, x: (PeerAddr, usize))
    requires
        0 <= i < s.len(),
    ensures
        sum_active(s.update(i, x)) + s[i].1 == sum_active(s) + x.1,
    decreases s.len(),
{
    if i < s.len() - 1 {
        assert(s.update(i, x).drop_last() =~= s.drop_last().update(i, x));
        lemma_sum_update(s.drop_last(), i, x);
    } else {
        assert(s.update(i, x).drop_last() =~= s.drop_last());
    }
}

/// What `try_acquire(addr)` makes of `before`, with outcome `r`.
pub open spec fn acquire_effect(
    before: Limiter,
    after: Limiter,
    addr: PeerAddr,
    r: Result<(), AcquireError>,
) -> bool {
    let q = before.quota();
    &&& after.wf()
    &&& after.quota() == q
    &&& forall|a: PeerAddr|
        a != addr ==> after.active(a) == before.active(a) && after.has_entry(a) == before.has_entry(
            a,
        )
    &&& if before.total() >= q.max_total {
        &&& r == Err::<(), AcquireError>(AcquireError::TotalReached { max_total: q.max_total })
        &&& after.total() == before.total()
        &&& after.active(addr) == before.active(addr)
        &&& after.has_entry(addr) == before.has_entry(addr)
    } else if before.active(addr) >= q.max_per_address {
        &&& r == Err::<(), AcquireError>(
            AcquireError::PerAddressReached { addr, max_per_addr: q.max_per_address },
        )
        &&& after.total() == before.total()
        &&& after.active(addr) == before.active(addr)
        &&& after.has_entry(addr)
    } else {
        &&& r == Ok::<(), AcquireError>(())
        &&& after.total() == before.total() + 1
        &&& after.active(addr) == before.active(addr) + 1
        &&& after.has_entry(addr)
    }
}

/// What `release(addr)` makes of `before`: where `addr` holds a session,
/// its counter and the overall counter drop by one; otherwise nothing
/// changes.
pub open spec fn release_effect(before: Limiter, after: Limiter, addr: PeerAddr) -> bool {
    &&& after.wf()
    &&& after.quota() == before.quota()
    &&& forall|a: PeerAddr|
        a != addr ==> after.active(a) == before.active(a) && after.has_entry(a) == before.has_entry(
            a,
        )
    &&& after.has_entry(addr) == before.has_entry(addr)
    &&& if before.active(addr) > 0 {
        &&& after.active(addr) == before.active(addr) - 1
        &&& after.total() == before.total() - 1
    } else {
        after == before
    }
}

/// One call on the limiter: `try_acquire` or `release` for an address.
pub enum SessionOp {
    Acquire(PeerAddr),
    Release(PeerAddr),
}

/// Whether `after` is what the call `op` can make of `before`.
pub open spec fn op_effect(before: Limiter, after: Limiter, op: SessionOp) -> bool {
    match op {
        SessionOp::Acquire(a) => exists|r: Result<(), AcquireError>| acquire_effect(before, after, a, r),
        SessionOp::Release(a) => release_effect(before, after, a),
    }
}

/// Along any sequence of calls, the overall counter stays within the
/// overall ceiling and every per-address counter within the per-address one.
pub proof fn lemma_sessions_bounded(trace: Seq<Limiter>, ops: Seq<SessionOp>)
    requires
        trace.len() == ops.len() + 1,
        trace[0].wf(),
        forall|k: int| 0 <= k < ops.len() ==> op_effect(trace[k], #[trigger] trace[k + 1], ops[k]),
    ensures
        forall|k: int| 0 <= k < trace.len() ==> (#[trigger] trace[k]).wf(),
        forall|k: int, a: PeerAddr|
            0 <= k < trace.len() ==> (#[trigger] trace[k]).total() <= trace[k].quota().max_total
                && #[trigger] trace[k].active(a) <= trace[k].quota().max_per_address,
    decreases ops.len(),
{
    if ops.len() > 0 {
        let n = ops.len() - 1;
        let prefix = trace.drop_last();
        assert forall|k: int| 0 <= k < n implies op_effect(
            prefix[k],
            #[trigger] prefix[k + 1],
            ops.drop_last()[k],
        ) by {
            assert(prefix[k] == trace[k] && prefix[k + 1] == trace[k + 1]);
            assert(op_effect(trace[k], trace[k + 1], ops[k]));
        }
        lemma_sessions_bounded(prefix, ops.drop_last());
        assert(prefix[n] == trace[n]);
        assert(op_effect(trace[n], trace[n + 1], ops[n]));
        assert forall|k: int| 0 <= k < trace.len() implies (#[trigger] trace[k]).wf() by {
            if k < trace.len() - 1 {
                assert(prefix[k] == trace[k]);
            }
        }
    }
    assert forall|k: int, a: PeerAddr| 0 <= k < trace.len() implies (#[trigger] trace[k]).total()
        <= trace[k].quota().max_total && #[trigger] trace[k].active(a)
        <= trace[k].quota().max_per_address by {
        trace[k].lemma_bounds(a);
    }
}

/// Along any sequence of calls, the overall counter equals the sum of the
/// per-address counters.
pub proof fn lemma_sessions_conserved(trace: Seq<Limiter>, ops: Seq<SessionOp>)
    requires
        trace.len() == ops.len() + 1,
        trace[0].wf(),
        forall|k: int| 0 <= k < ops.len() ==> op_effect(trace[k], #[trigger] trace[k + 1], ops[k]),
    ensures
        forall|k: int| 0 <= k < trace.len() ==> (#[trigger] trace[k]).conserved(),
{
    lemma_sessions_bounded(trace, ops);
    assert forall|k: int| 0 <= k < trace.len() implies (#[trigger] trace[k]).conserved() by {
        assert(trace[k].wf());
    }
}

/// Counters of active sessions, overall and per address, held within a
/// quota.
pub struct Limiter {
    total_active: usize,
    sessions: Vec<(PeerAddr, usize)>,
    session_quota: SessionQuota,
}

impl Limiter {
    /// The number of active sessions.
    pub closed spec fn total(&self) -> nat {
        self.total_active as nat
    }

    /// The number of active sessions of `a`.
    pub closed spec fn active(&self, a: PeerAddr) -> nat {
        active_of(self.sessions@, a)
    }

    /// Whether `a` has a counter (it has once tried to acquire a session
    /// within the overall ceiling).
    pub closed spec fn has_entry(&self, a: PeerAddr) -> bool {
        find_addr(self.sessions@, a) >= 0
    }

    /// The quota the limiter enforces.
    pub closed spec fn quota(&self) -> SessionQuota {
        self.session_quota
    }

    /// The overall counter equals the sum of the per-address counters.
    pub closed spec fn conserved(&self) -> bool {
        self.total_active == sum_active(self.sessions@)
    }

    /// Every counter is within its ceiling.
    pub closed spec fn within_quota(&self) -> bool {
        &&& self.total_active <= self.session_quota.max_total
        &&& forall|i: int|
            0 <= i < self.sessions@.len() ==> #[trigger] self.sessions@[i].1
                <= self.session_quota.max_per_address
    }

    /// The counters are within their ceilings, the overall one is the sum of
/// the others, and no address has two counters.
    pub closed spec fn wf(&self) -> bool {
        &&& self.within_quota()
        &&& self.conserved()
        &&& forall|i: int, j: int|
            0 <= i < j < self.sessions@.len() ==> #[trigger] self.sessions@[i].0
                != #[trigger] self.sessions@[j].0
    }

    /// Every counter of a limiter in good standing is within its ceiling.
    pub proof fn lemma_bounds(&self, a: PeerAddr)
        requires
            self.wf(),
        ensures
            self.total() <= self.quota().max_total,
            self.active(a) <= self.quota().max_per_address,
    {
        lemma_find_addr_bounds(self.sessions@, a);
    }

    /// A limiter with no active session that enforces the settings' quota.
    pub fn new(settings: Settings) -> (r: Self)
        ensures
            r.wf(),
            r.conserved(),
            r.quota() == settings.session_quota,
            r.total() == 0,
            forall|a: PeerAddr| r.active(a) == 0 && !r.has_entry(a),
    {
        Limiter { total_active: 0, sessions: Vec::new(), session_quota: settings.session_quota }
    }

    /// A limiter with no active session that enforces `session_quota`.
    pub fn with_session_quota(session_quota: SessionQuota) -> (r: Self)
        ensures
            r.wf(),
            r.conserved(),
            r.quota() == session_quota,
            r.total() == 0,
            forall|a: PeerAddr| r.active(a) == 0 && !r.has_entry(a),
    {
        Limiter { total_active: 0, sessions: Vec::new(), session_quota }
    }

    /// Takes a session for `addr` if both ceilings allow it.
    pub fn try_acquire(&mut self, addr: PeerAddr) -> (r: Result<(), AcquireError>)
        requires
            old(self).wf(),
        ensures
            acquire_effect(*old(self), *final(self), addr, r),
    {
        if self.total_active >= self.session_quota.max_total {
            return Err(AcquireError::TotalReached { max_total: self.session_quota.max_total });
        }
        let ghost before = self.sessions@;
        proof {
            lemma_find_addr_bounds(before, addr);
        }
        let i = match position(&self.sessions, addr) {
            Some(i) => i,
            None => {
                self.sessions.push((addr, 0));
                proof {
                    lemma_find_addr_push(before, (addr, 0usize), addr);
                    assert forall|a: PeerAddr| a != addr implies active_of(self.sessions@, a)
                        == active_of(before, a) && (find_addr(self.sessions@, a) >= 0) == (
                    find_addr(before, a) >= 0) by {
                        lemma_find_addr_push(before, (addr, 0usize), a);
                        lemma_find_addr_bounds(before, a);
                        if find_addr(before, a) >= 0 {
                            assert(self.sessions@[find_addr(before, a)] == before[find_addr(
                                before,
                                a,
                            )]);
                        }
                    }
                    assert(self.sessions@.drop_last() =~= before);
                    assert forall|p: int, q: int|
                        0 <= p < q < self.sessions@.len() implies #[trigger] self.sessions@[p].0
                        != #[trigger] self.sessions@[q].0 by {
                        if q == before.len() {
                            assert(self.sessions@[p] == before[p]);
                        } else {
                            assert(self.sessions@[p] == before[p]);
                            assert(self.sessions@[q] == before[q]);
                        }
                    }
                    assert forall|k: int| 0 <= k < self.sessions@.len() implies #[trigger] self.sessions@[k].1
                        <= self.session_quota.max_per_address by {
                        if k < before.len() {
                            assert(self.sessions@[k] == before[k]);
                        }
                    }
                }
                self.sessions.len() - 1
            },
        };
        let ghost mid = self.sessions@;
        proof {
            lemma_find_addr_bounds(mid, addr);
        }
        let active = self.sessions[i].1;
        if active >= self.session_quota.max_per_address {
            return Err(
                AcquireError::PerAddressReached {
                    addr,
                    max_per_addr: self.session_quota.max_per_address,
                },
            );
        }
        self.total_active = self.total_active + 1;
        self.sessions.set(i, (addr, active + 1));
        proof {
            lemma_sum_update(mid, i as int, (addr, (active + 1) as usize));
            assert(same_keys(mid, self.sessions@)) by {
                assert forall|j: int| 0 <= j < mid.len() implies #[trigger] mid[j].0
                    == self.sessions@[j].0 by {
                    if j != i {
                        assert(self.sessions@[j] == mid[j]);
                    }
                }
            }
            assert forall|a: PeerAddr| a != addr implies active_of(self.sessions@, a) == active_of(
                mid,
                a,
            ) && (find_addr(self.sessions@, a) >= 0) == (find_addr(mid, a) >= 0) by {
                lemma_find_addr_same_keys(mid, self.sessions@, a);
                lemma_find_addr_bounds(mid, a);
            }
            lemma_find_addr_same_keys(mid, self.sessions@, addr);
            assert forall|p: int, q: int|
                0 <= p < q < self.sessions@.len() implies #[trigger] self.sessions@[p].0
                != #[trigger] self.sessions@[q].0 by {
                assert(self.sessions@[p].0 == mid[p].0);
                assert(self.sessions@[q].0 == mid[q].0);
            }
            assert forall|k: int| 0 <= k < self.sessions@.len() implies #[trigger] self.sessions@[k].1
                <= self.session_quota.max_per_address by {
                if k != i {
                    assert(self.sessions@[k] == mid[k]);
                }
            }
        }
        Ok(())
    }

    /// Gives back a session of `addr`: where it holds one, its counter and the
    /// overall counter drop by one; otherwise nothing changes.
    pub fn release(&mut self, addr: PeerAddr)
        requires
            old(self).wf(),
        ensures
            release_effect(*old(self), *final(self), addr),
    {
        let ghost before = self.sessions@;
        proof {
            lemma_find_addr_bounds(before, addr);
        }
        let i = match position(&self.sessions, addr) {
            Some(i) => i,
            None => return,
        };
        let active = self.sessions[i].1;
        if active == 0 {
            return;
        }
        self.sessions.set(i, (addr, active - 1));
        proof {
            lemma_sum_update(before, i as int, (addr, (active - 1) as usize));
        }
        self.total_active = self.total_active - 1;
        proof {
            assert(same_keys(before, self.sessions@)) by {
                assert forall|j: int| 0 <= j < before.len() implies #[trigger] before[j].0
                    == self.sessions@[j].0 by {
                    if j != i {
                        assert(self.sessions@[j] == before[j]);
                    }
                }
            }
            assert forall|a: PeerAddr| a != addr implies active_of(self.sessions@, a) == active_of(
                before,
                a,
            ) && (find_addr(self.sessions@, a) >= 0) == (find_addr(before, a) >= 0) by {
                lemma_find_addr_same_keys(before, self.sessions@, a);
                lemma_find_addr_bounds(before, a);
                if find_addr(before, a) >= 0 {
                    assert(self.sessions@[find_addr(before, a)] == before[find_addr(before, a)]);
                }
            }
            lemma_find_addr_same_keys(before, self.sessions@, addr);
            assert forall|p: int, q: int|
                0 <= p < q < self.sessions@.len() implies #[trigger] self.sessions@[p].0
                != #[trigger] self.sessions@[q].0 by {
                assert(self.sessions@[p].0 == before[p].0);
                assert(self.sessions@[q].0 == before[q].0);
            }
            assert forall|k: int| 0 <= k < self.sessions@.len() implies #[trigger] self.sessions@[k].1
                <= self.session_quota.max_per_address by {
                if k != i {
                    assert(self.sessions@[k] == before[k]);
                } else {
                    assert(before[k].1 <= self.session_quota.max_per_address);
                }
            }
        }
    }

    /// The number of active sessions.
    pub fn total_active_sessions(&self) -> (r: usize)
        ensures
            r == self.total(),
    {
        self.total_active
    }

    /// The number of active sessions of `addr`.
    pub fn active_sessions_for_address(&self, addr: PeerAddr) -> (r: usize)
        ensures
            r == self.active(addr),
    {
        proof {
            lemma_find_addr_bounds(self.sessions@, addr);
        }
        match position(&self.sessions, addr) {
            Some(i) => self.sessions[i].1,
            None => 0,
        }
    }
}

} // verus!
