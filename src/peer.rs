use vstd::prelude::*;

verus! {

/// A client's socket address.
#[derive(Debug, Clone, Copy, PartialEq, Eq, Structural, Hash)]
pub enum PeerAddr {
    /// An IPv4 address (the four octets, most significant first) and port.
    V4 { ip: u32, port: u16 },
    /// An IPv6 address (the sixteen octets, most significant first), port,
    /// flow information and scope.
    V6 { ip: u128, port: u16, flowinfo: u32, scope_id: u32 },
}

/// The remote host of `a`: its IP address, without port, flow information or
/// scope. Sessions and connection attempts are counted per host.
pub open spec fn host_of(a: PeerAddr) -> PeerAddr {
    match a {
        PeerAddr::V4 { ip, .. } => PeerAddr::V4 { ip, port: 0 },
        PeerAddr::V6 { ip, .. } => PeerAddr::V6 { ip, port: 0, flowinfo: 0, scope_id: 0 },
    }
}

impl PeerAddr {
    /// The remote host of this address.
    pub fn host(&self) -> (r: PeerAddr)
        ensures
            r == host_of(*self),
    {
        match *self {
            PeerAddr::V4 { ip, .. } => PeerAddr::V4 { ip, port: 0 },
            PeerAddr::V6 { ip, .. } => PeerAddr::V6 { ip, port: 0, flowinfo: 0, scope_id: 0 },
        }
    }
}

/// The index of the first entry of `s` keyed by `a`, or -1.
pub open spec fn find_addr<V>(s: Seq<(PeerAddr, V)>, a: PeerAddr) -> int
    decreases s.len(),
{
    if s.len() == 0 {
        -1
    } else if find_addr(s.drop_last(), a) >= 0 {
        find_addr(s.drop_last(), a)
    } else if s.last().0 == a {
        s.len() - 1
    } else {
        -1
    }
}

/// Whether `s` and `t` have the same keys at the same places.
pub open spec fn same_keys<V, W>(s: Seq<(PeerAddr, V)>, t: Seq<(PeerAddr, W)>) -> bool {
    s.len() == t.len() && forall|i: int| 0 <= i < s.len() ==> #[trigger] s[i].0 == t[i].0
}

/// The first-match index is -1 or a matching position, and -1 only where
/// nothing matches.
pub proof fn lemma_find_addr_bounds<V>(s: Seq<(PeerAddr, V)>, a: PeerAddr)
    ensures
        -1 <= find_addr(s, a) < s.len(),
        find_addr(s, a) >= 0 ==> s[find_addr(s, a)].0 == a,
        find_addr(s, a) == -1 ==> forall|i: int| 0 <= i < s.len() ==> #[trigger] s[i].0 != a,
    decreases s.len(),
{
    if s.len() > 0 {
        lemma_find_addr_bounds(s.drop_last(), a);
        if find_addr(s, a) == -1 {
            assert forall|i: int| 0 <= i < s.len() implies #[trigger] s[i].0 != a by {
                if i < s.len() - 1 {
                    assert(s.drop_last()[i] == s[i]);
                }
            }
        }
    }
}

/// The first-match index depends on the keys alone.
pub proof fn lemma_find_addr_same_keys<V, W>(s: Seq<(PeerAddr, V)>, t: Seq<(PeerAddr, W)>, a: PeerAddr)
    requires
        same_keys(s, t),
    ensures
        find_addr(s, a) == find_addr(t, a),
    decreases s.len(),
{
    if s.len() > 0 {
        assert(same_keys(s.drop_last(), t.drop_last())) by {
            assert forall|i: int| 0 <= i < s.len() - 1 implies #[trigger] s.drop_last()[i].0
                == t.drop_last()[i].0 by {
                assert(s[i].0 == t[i].0);
            }
        }
        lemma_find_addr_same_keys(s.drop_last(), t.drop_last(), a);
        assert(s.last().0 == t.last().0) by {
            assert(s[s.len() - 1].0 == t[s.len() - 1].0);
        }
    }
}

/// Appending an entry leaves an existing match in place.
pub proof fn lemma_find_addr_push<V>(s: Seq<(PeerAddr, V)>, x: (PeerAddr, V), a: PeerAddr)
    ensures
        find_addr(s.push(x), a) == if find_addr(s, a) >= 0 {
            find_addr(s, a)
        } else if x.0 == a {
            s.len() as int
        } else {
            -1
        },
{
    assert(s.push(x).drop_last() =~= s);
}

/// The position of the first entry keyed by `a`, if any.
pub fn position<V>(s: &Vec<(PeerAddr, V)>, a: PeerAddr) -> (r: Option<usize>)
    ensures
        match r {
            Some(i) => i == find_addr(s@, a),
            None => find_addr(s@, a) == -1,
        },
{
    let mut i: usize = 0;
    while i < s.len()
        invariant
            i <= s@.len(),
            forall|j: int| 0 <= j < i ==> #[trigger] s@[j].0 != a,
        decreases s@.len() - i,
    {
        if s[i].0 == a {
            proof {
                lemma_find_addr_bounds(s@, a);
                lemma_first_match(s@, a, i as int);
            }
            return Some(i);
        }
        i += 1;
    }
    proof {
        lemma_find_addr_bounds(s@, a);
    }
    None
}

proof fn lemma_first_match<V>(s: Seq<(PeerAddr, V)>, a: PeerAddr, i: int)
    requires
        0 <= i < s.len(),
        s[i].0 == a,
        forall|j: int| 0 <= j < i ==> #[trigger] s[j].0 != a,
    ensures
        find_addr(s, a) == i,
    decreases s.len(),
{
    if i < s.len() - 1 {
        assert(s.drop_last()[i] == s[i]);
        assert forall|j: int| 0 <= j < i implies #[trigger] s.drop_last()[j].0 != a by {
            assert(s.drop_last()[j] == s[j]);
        }
        lemma_first_match(s.drop_last(), a, i);
    } else {
        lemma_find_addr_bounds(s.drop_last(), a);
        if find_addr(s.drop_last(), a) >= 0 {
            let k = find_addr(s.drop_last(), a);
            assert(s.drop_last()[k] == s[k]);
        }
    }
}

} // verus!
