use vstd::prelude::*;

use crate::eid::EndpointId;
use crate::peer::ClaSender;
use crate::peer::DtnPeer;
use crate::peer::PeerType;
use crate::peer::spec_first_cla;
use crate::peer::system_time_secs;

verus! {

/// The node's record of its known neighbors, keyed by node name. A
/// deployment keeps one such registry per process behind a lock; here it is
/// an explicit value handed to every caller, so tests and tasks construct
/// their own.
pub struct PeerRegistry {
    pub peers: Vec<DtnPeer>,
}

/// The first position at or after `i` whose peer is keyed by `node`.
pub open spec fn spec_find_idx_from(s: Seq<DtnPeer>, node: Seq<char>, i: int) -> Option<int>
    decreases s.len() - i,
{
    if i < 0 || i >= s.len() {
        None
    } else if s[i].node_name_view() == node {
        Some(i)
    } else {
        spec_find_idx_from(s, node, i + 1)
    }
}

/// The first position whose peer is keyed by `node`.
pub open spec fn spec_find_idx(s: Seq<DtnPeer>, node: Seq<char>) -> Option<int> {
    spec_find_idx_from(s, node, 0)
}

/// The first peer keyed by `node`, or `None` where the node is unknown.
pub open spec fn spec_lookup(s: Seq<DtnPeer>, node: Seq<char>) -> Option<DtnPeer> {
    match spec_find_idx(s, node) {
        Some(i) => Some(s[i]),
        None => None,
    }
}

/// What a found position means: it carries `node`, and no earlier position
/// does; a miss means no position at or after `i` carries `node`.
pub proof fn lemma_find_idx_from_props(s: Seq<DtnPeer>, node: Seq<char>, i: int)
    requires
        0 <= i <= s.len(),
    ensures
        match spec_find_idx_from(s, node, i) {
            Some(j) => i <= j < s.len() && s[j].node_name_view() == node && forall|k: int|
                i <= k < j ==> s[k].node_name_view() != node,
            None => forall|k: int| i <= k < s.len() ==> s[k].node_name_view() != node,
        },
    decreases s.len() - i,
{
    if i < s.len() && s[i].node_name_view() != node {
        lemma_find_idx_from_props(s, node, i + 1);
    }
}

/// What one housekeeping sweep leaves of `s` at time `now` under `timeout`:
/// the retained peers, in their stored order.
pub open spec fn spec_sweep(s: Seq<DtnPeer>, now: u64, timeout: u64) -> Seq<DtnPeer>
    decreases s.len(),
{
    if s.len() == 0 {
        Seq::empty()
    } else {
        let rest = spec_sweep(s.drop_last(), now, timeout);
        if s.last().spec_retained(now, timeout) {
            rest.push(s.last())
        } else {
            rest
        }
    }
}

impl PeerRegistry {
    /// Node names are unique across the registry: it behaves as a map keyed
    /// by node name.
    pub open spec fn wf(&self) -> bool {
        forall|a: int, b: int|
            0 <= a < b < self.peers@.len() ==> self.peers@[a].node_name_view()
                != self.peers@[b].node_name_view()
    }

    pub fn new() -> (r: PeerRegistry)
        ensures
            r.wf(),
            r.peers@ == Seq::<DtnPeer>::empty(),
    {
        PeerRegistry { peers: Vec::new() }
    }

    /// Creates or refreshes the record for `peer`'s node: the record keyed by
    /// the same node name is overwritten in place, and an unknown node is
    /// appended. Never fails.
    pub fn insert(&mut self, peer: DtnPeer)
        requires
            old(self).wf(),
        ensures
            final(self).wf(),
            match spec_find_idx(old(self).peers@, peer.node_name_view()) {
                Some(j) => final(self).peers@ == old(self).peers@.update(j, peer),
                None => final(self).peers@ == old(self).peers@.push(peer),
            },
    {
        let node = peer.get_node_name();
        let n = self.peers.len();
        let mut i: usize = 0;
        while i < n
            invariant
                n == self.peers@.len(),
                0 <= i <= n,
                old(self).wf(),
                self.peers@ == old(self).peers@,
                node@ == peer.node_name_view(),
                spec_find_idx(self.peers@, node@) == spec_find_idx_from(
                    self.peers@,
                    node@,
                    i as int,
                ),
            decreases n - i,
        {
            let pn = self.peers[i].get_node_name();
            if pn == node {
                proof {
                    assert(spec_find_idx(self.peers@, node@) == Some(i as int));
                }
                self.peers[i] = peer;
                proof {
                    let s0 = old(self).peers@;
                    let s1 = self.peers@;
                    let gi = i as int;
                    assert(s1 == s0.update(gi, peer));
                    assert(peer.node_name_view() == s0[gi].node_name_view());
                    assert forall|a: int, b: int|
                        0 <= a < b < s1.len() implies s1[a].node_name_view()
                        != s1[b].node_name_view() by {
                        assert(s1[a].node_name_view() == s0[a].node_name_view());
                        assert(s1[b].node_name_view() == s0[b].node_name_view());
                        assert(s0[a].node_name_view() != s0[b].node_name_view());
                    }
                }
                return ;
            }
            i = i + 1;
        }
        proof {
            assert(spec_find_idx(self.peers@, node@) is None);
            lemma_find_idx_from_props(self.peers@, node@, 0);
        }
        self.peers.push(peer);
    }

    /// How many peers the registry holds.
    pub fn len(&self) -> (r: usize)
        ensures
            r == self.peers@.len(),
    {
        self.peers.len()
    }
}

/// The stored peer for the node that `eid` names, found by comparing node
/// names only: identifiers with different service parts resolve to the same
/// record. `None` where the node is unknown.
pub fn peers_get_for_node(registry: &PeerRegistry, eid: &EndpointId) -> (r: Option<DtnPeer>)
    ensures
        match (spec_lookup(registry.peers@, eid.node_name_view()), r) {
            (Some(p), Some(q)) => q@ == p@,
            (None, None) => true,
            _ => false,
        },
{
    let node = eid.node_name();
    let mut i: usize = 0;
    while i < registry.peers.len()
        invariant
            0 <= i <= registry.peers@.len(),
            node@ == eid.node_name_view(),
            spec_find_idx(registry.peers@, node@) == spec_find_idx_from(
                registry.peers@,
                node@,
                i as int,
            ),
        decreases registry.peers@.len() - i,
    {
        let pn = registry.peers[i].get_node_name();
        if pn == node {
            return Some(registry.peers[i].clone());
        }
        i = i + 1;
    }
    None
}

/// The transport-sender descriptor for the node that `eid` names: its
/// stored peer's first advertised binding whose transport name is in
/// `active`. `None` where the node is unknown or none of its transports is
/// active — a normal "no route" outcome, not an error.
pub fn peers_cla_for_node(registry: &PeerRegistry, eid: &EndpointId, active: &Vec<String>) -> (r:
    Option<ClaSender>)
    ensures
        match spec_lookup(registry.peers@, eid.node_name_view()) {
            Some(p) => match (spec_first_cla(p@.cla_list, active.deep_view()), r) {
                (Some(sel), Some(c)) => c.remote@ == p@.addr && c.port == sel.1 && c.agent@
                    == sel.0,
                (None, None) => true,
                _ => false,
            },
            None => r is None,
        },
{
    match peers_get_for_node(registry, eid) {
        Some(peer) => peer.get_first_cla(active),
        None => None,
    }
}

/// Removes every dynamic peer that has not been heard from within `timeout`
/// seconds of `now`, and keeps everything else, in order.
pub fn process_peers_at(registry: &mut PeerRegistry, now: u64, timeout: u64)
    requires
        old(registry).wf(),
    ensures
        final(registry).wf(),
        final(registry).peers@ == spec_sweep(old(registry).peers@, now, timeout),
{
    let ghost s0 = old(registry).peers@;
    let ghost mut k: int = 0;
    let mut i: usize = 0;
    while i < registry.peers.len()
        invariant
            0 <= k <= s0.len(),
            i as int == spec_sweep(s0.subrange(0, k), now, timeout).len(),
            registry.peers@ == spec_sweep(s0.subrange(0, k), now, timeout) + s0.subrange(
                k,
                s0.len() as int,
            ),
        decreases s0.len() - k,
    {
        proof {
            assert(registry.peers@[i as int] == s0[k]);
        }
        let retained = registry.peers[i].con_type == PeerType::Static
            || registry.peers[i].still_valid_at(now, timeout);
        proof {
            assert(retained == s0[k].spec_retained(now, timeout));
            assert(s0.subrange(0, k + 1).drop_last() =~= s0.subrange(0, k));
            assert(s0.subrange(0, k + 1).last() == s0[k]);
        }
        if retained {
            i = i + 1;
            proof {
                assert(registry.peers@ =~= spec_sweep(s0.subrange(0, k + 1), now, timeout)
                    + s0.subrange(k + 1, s0.len() as int));
            }
        } else {
            registry.peers.remove(i);
            proof {
                assert(registry.peers@ =~= spec_sweep(s0.subrange(0, k + 1), now, timeout)
                    + s0.subrange(k + 1, s0.len() as int));
            }
        }
        proof {
            k = k + 1;
        }
    }
    proof {
        assert(k == s0.len());
        assert(s0.subrange(0, s0.len() as int) =~= s0);
        assert(s0.subrange(s0.len() as int, s0.len() as int) =~= Seq::<DtnPeer>::empty());
        assert(registry.peers@ =~= spec_sweep(s0, now, timeout));
        lemma_sweep_preserves_distinct(s0, now, timeout);
    }
}

/// Runs the sweep against the wall clock; the timeout is handed in by the
/// caller, read from live configuration at call time. Whatever the clock
/// says, the result is the sweep for some reading, so no static peer is
/// ever removed.
pub fn process_peers(registry: &mut PeerRegistry, timeout: u64)
    requires
        old(registry).wf(),
    ensures
        final(registry).wf(),
        exists|now: u64|
            final(registry).peers@ == spec_sweep(old(registry).peers@, now, timeout),
        forall|b: int|
            0 <= b < old(registry).peers@.len() && old(registry).peers@[b].con_type
                == PeerType::Static ==> final(registry).peers@.contains(old(registry).peers@[b]),
    {
    let now = system_time_secs();
    process_peers_at(registry, now, timeout);
    proof {
        assert(registry.peers@ == spec_sweep(old(registry).peers@, now, timeout));
        lemma_sweep_retains_exactly(old(registry).peers@, now, timeout);
        assert forall|b: int|
            0 <= b < old(registry).peers@.len() && old(registry).peers@[b].con_type
                == PeerType::Static implies registry.peers@.contains(
            old(registry).peers@[b],
        ) by {
            assert(old(registry).peers@[b].spec_retained(now, timeout));
        }
    }
}

/// Everything the sweep keeps was retained, in the stored order, and
/// everything retained is kept: the sweep removes exactly the expired
/// dynamic peers.
pub proof fn lemma_sweep_retains_exactly(s: Seq<DtnPeer>, now: u64, timeout: u64)
    ensures
        spec_sweep(s, now, timeout).len() <= s.len(),
        forall|a: int| #![trigger spec_sweep(s, now, timeout)[a]]
            0 <= a < spec_sweep(s, now, timeout).len() ==> spec_sweep(s, now, timeout)[
                a
            ].spec_retained(now, timeout) && s.contains(spec_sweep(s, now, timeout)[a]),
        forall|b: int| #![trigger s[b].spec_retained(now, timeout)]
            0 <= b < s.len() && s[b].spec_retained(now, timeout) ==> spec_sweep(
                s,
                now,
                timeout,
            ).contains(s[b]),
    decreases s.len(),
{
    if s.len() > 0 {
        lemma_sweep_retains_exactly(s.drop_last(), now, timeout);
        let rest = spec_sweep(s.drop_last(), now, timeout);
        let r = spec_sweep(s, now, timeout);
        assert(r == if s.last().spec_retained(now, timeout) {
            rest.push(s.last())
        } else {
            rest
        });
        assert forall|b: int|
            0 <= b < s.len() && s[b].spec_retained(now, timeout) implies r.contains(s[b]) by {
            if b < s.len() - 1 {
                assert(s.drop_last()[b] == s[b]);
                assert(s.drop_last()[b].spec_retained(now, timeout));
                assert(rest.contains(s[b]));
                let w = choose|w: int| 0 <= w < rest.len() && rest[w] == s[b];
                assert(r[w] == s[b]);
            } else {
                assert(s[b] == s.last());
                assert(r[r.len() - 1] == s.last());
            }
        }
        assert forall|a: int|
            0 <= a < r.len() implies r[a].spec_retained(now, timeout) && s.contains(r[a]) by {
            if a < rest.len() {
                assert(r[a] == rest[a]);
                assert(rest[a].spec_retained(now, timeout) && s.drop_last().contains(rest[a]));
                let w = choose|w: int| 0 <= w < s.drop_last().len() && s.drop_last()[w] == rest[a];
                assert(s[w] == rest[a]);
            } else {
                assert(r[a] == s.last());
                assert(s[s.len() - 1] == s.last());
            }
        }
    }
}

/// A sweep never makes two records share a node name where none did: the
/// registry stays a map.
pub proof fn lemma_sweep_preserves_distinct(s: Seq<DtnPeer>, now: u64, timeout: u64)
    requires
        forall|a: int, b: int|
            0 <= a < b < s.len() ==> s[a].node_name_view() != s[b].node_name_view(),
    ensures
        forall|a: int, b: int|
            0 <= a < b < spec_sweep(s, now, timeout).len() ==> spec_sweep(
                s,
                now,
                timeout,
            )[a].node_name_view() != spec_sweep(s, now, timeout)[b].node_name_view(),
    decreases s.len(),
{
    if s.len() > 0 {
        assert(forall|a: int, b: int|
            0 <= a < b < s.drop_last().len() ==> s.drop_last()[a].node_name_view()
                != s.drop_last()[b].node_name_view());
        lemma_sweep_preserves_distinct(s.drop_last(), now, timeout);
        lemma_sweep_retains_exactly(s.drop_last(), now, timeout);
        let rest = spec_sweep(s.drop_last(), now, timeout);
        let r = spec_sweep(s, now, timeout);
        assert(r == if s.last().spec_retained(now, timeout) {
            rest.push(s.last())
        } else {
            rest
        });
        if s.last().spec_retained(now, timeout) {
            assert forall|a: int, b: int|
                0 <= a < b < r.len() implies r[a].node_name_view() != r[b].node_name_view() by {
                if b < rest.len() {
                    assert(r[a] == rest[a]);
                    assert(r[b] == rest[b]);
                } else {
                    assert(r[b] == s.last());
                    assert(r[a] == rest[a]);
                    assert(rest[a].spec_retained(now, timeout) && s.drop_last().contains(rest[a]));
                    let w = choose|w: int|
                        0 <= w < s.drop_last().len() && s.drop_last()[w] == rest[a];
                    assert(s[w] == rest[a]);
                    assert(s[w].node_name_view() != s[s.len() - 1].node_name_view());
                }
            }
        }
    }
}

/// Sweeping what a sweep left changes nothing: with no intervening contact
/// a second sweep is a no-op.
pub proof fn lemma_sweep_idempotent(s: Seq<DtnPeer>, now: u64, timeout: u64)
    ensures
        spec_sweep(spec_sweep(s, now, timeout), now, timeout) == spec_sweep(s, now, timeout),
    decreases s.len(),
{
    if s.len() > 0 {
        lemma_sweep_idempotent(s.drop_last(), now, timeout);
        let rest = spec_sweep(s.drop_last(), now, timeout);
        if s.last().spec_retained(now, timeout) {
            lemma_sweep_push(rest, s.last(), now, timeout);
        }
    }
}

/// One step of the sweep: a retained newcomer stays at the end, an expired
/// one never enters.
pub proof fn lemma_sweep_push(s: Seq<DtnPeer>, x: DtnPeer, now: u64, timeout: u64)
    ensures
        spec_sweep(s.push(x), now, timeout) == if x.spec_retained(now, timeout) {
            spec_sweep(s, now, timeout).push(x)
        } else {
            spec_sweep(s, now, timeout)
        },
{
    assert(s.push(x).drop_last() =~= s);
    assert(s.push(x).last() == x);
}

/// Lookup goes by the node component alone: identifiers that share a node
/// name resolve to the same stored peer, whatever their service parts say.
pub proof fn lemma_lookup_by_node_component(
    s: Seq<DtnPeer>,
    e1: EndpointId,
    e2: EndpointId,
)
    requires
        e1.node_name_view() == e2.node_name_view(),
    ensures
        spec_lookup(s, e1.node_name_view()) == spec_lookup(s, e2.node_name_view()),
{
}

} // verus!
