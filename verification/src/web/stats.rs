use vstd::prelude::*;

verus! {

/// Bytes one network interface received and transmitted since the last
/// refresh.
pub struct NetworkUsage {
    pub received: u64,
    pub transmitted: u64,
}

/// The integer readings of the system that the panel's stats feed shows.
pub struct SystemSnapshot {
    pub networks: Vec<NetworkUsage>,
    pub memory_total: u64,
    pub memory_used: u64,
    pub memory_available: u64,
    pub memory_free: u64,
}

/// The integer part of the stats feed.
pub struct Stats {
    pub network_received: u64,
    pub network_transmited: u64,
    pub network_total_transmitted: u64,
    pub memory_total: u64,
    pub memory_used: u64,
    pub memory_available: u64,
    pub memory_free: u64,
}

/// Bytes received over all interfaces.
pub open spec fn total_received(ns: Seq<NetworkUsage>) -> int
    decreases ns.len(),
{
    if ns.len() == 0 {
        0
    } else {
        total_received(ns.drop_last()) + ns.last().received
    }
}

/// Bytes transmitted over all interfaces.
pub open spec fn total_transmitted(ns: Seq<NetworkUsage>) -> int
    decreases ns.len(),
{
    if ns.len() == 0 {
        0
    } else {
        total_transmitted(ns.drop_last()) + ns.last().transmitted
    }
}

proof fn lemma_totals_grow(ns: Seq<NetworkUsage>, i: int)
    requires
        0 <= i <= ns.len(),
    ensures
        total_received(ns.take(i)) <= total_received(ns),
        total_transmitted(ns.take(i)) <= total_transmitted(ns),
        0 <= total_received(ns.take(i)),
        0 <= total_transmitted(ns.take(i)),
    decreases ns.len() - i,
{
    if i < ns.len() {
        lemma_totals_grow(ns, i + 1);
        assert(ns.take(i + 1).drop_last() =~= ns.take(i));
        lemma_totals_nonneg(ns.take(i));
    } else {
        assert(ns.take(i) =~= ns);
        lemma_totals_nonneg(ns);
    }
}

proof fn lemma_totals_nonneg(ns: Seq<NetworkUsage>)
    ensures
        0 <= total_received(ns),
        0 <= total_transmitted(ns),
    decreases ns.len(),
{
    if ns.len() > 0 {
        lemma_totals_nonneg(ns.drop_last());
    }
}

/// get the current stats of the system: traffic summed over all interfaces
/// and the memory readings; `None` when the traffic sums overflow a `u64`.
pub fn stats(s: &SystemSnapshot) -> (r: Option<Stats>)
    ensures
        r is None <==> total_received(s.networks@) + total_transmitted(s.networks@) > u64::MAX,
        r matches Some(st) ==> {
            &&& st.network_received == total_received(s.networks@)
            &&& st.network_transmited == total_transmitted(s.networks@)
            &&& st.network_total_transmitted == st.network_received + st.network_transmited
            &&& st.memory_total == s.memory_total
            &&& st.memory_used == s.memory_used
            &&& st.memory_available == s.memory_available
            &&& st.memory_free == s.memory_free
        },
{
    let ghost ns = s.networks@;
    let mut received: u64 = 0;
    let mut transmitted: u64 = 0;
    let mut i: usize = 0;
    while i < s.networks.len()
        invariant
            i <= s.networks.len(),
            ns == s.networks@,
            received == total_received(ns.take(i as int)),
            transmitted == total_transmitted(ns.take(i as int)),
        decreases s.networks.len() - i,
    {
        assert(ns.take(i + 1).drop_last() =~= ns.take(i as int));
        assert(ns.take(i + 1).last() == ns[i as int]);
        proof {
            lemma_totals_grow(ns, i + 1);
            lemma_totals_nonneg(ns);
        }
        let data = &s.networks[i];
        if received > u64::MAX - data.received || transmitted > u64::MAX - data.transmitted {
            return None;
        }
        received = received + data.received;
        transmitted = transmitted + data.transmitted;
        i = i + 1;
    }
    assert(ns.take(ns.len() as int) =~= ns);
    if received > u64::MAX - transmitted {
        return None;
    }
    Some(
        Stats {
            network_received: received,
            network_transmited: transmitted,
            network_total_transmitted: received + transmitted,
            memory_total: s.memory_total,
            memory_used: s.memory_used,
            memory_available: s.memory_available,
            memory_free: s.memory_free,
        },
    )
}

} // verus!
