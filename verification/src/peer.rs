use vstd::prelude::*;

use crate::eid::EndpointId;
use crate::eid::EndpointIdView;

verus! {

/// How a peer entered the registry: configured by an operator (`Static`,
/// never expires) or learned through discovery (`Dynamic`, expires when the
/// peer goes silent).
#[derive(Debug, PartialEq, Eq, Structural)]
pub enum PeerType {
    Static,
    Dynamic,
}

impl Clone for PeerType {
    fn clone(&self) -> (r: Self)
        ensures
            r == *self,
    {
        match self {
            PeerType::Static => PeerType::Static,
            PeerType::Dynamic => PeerType::Dynamic,
        }
    }
}

/// Everything needed to hand a bundle to a transport for one peer: the
/// remote address, the optional port the peer advertised, and the name of
/// the convergence-layer agent to use.
#[derive(Debug)]
pub struct ClaSender {
    pub remote: String,
    pub port: Option<u16>,
    pub agent: String,
}

impl Clone for ClaSender {
    fn clone(&self) -> (r: Self)
        ensures
            r == *self,
    {
        ClaSender {
            remote: self.remote.clone(),
            port: self.port,
            agent: self.agent.clone(),
        }
    }
}

/// Relies on std::time::SystemTime::now: the wall clock, read as whole
/// seconds since the Unix epoch. A clock standing before the epoch reads as
/// zero rather than failing. Nothing is promised of the value: two reads may
/// differ, and callers state what holds of any reading.
#[verifier::external_body]
pub fn system_time_secs() -> u64 {
    match std::time::SystemTime::now().duration_since(std::time::UNIX_EPOCH) {
        Ok(d) => d.as_secs(),
        Err(_) => 0,
    }
}

/// One known neighboring node: its identity, where to reach it, how it was
/// learned, the transport bindings it advertises in its order of preference,
/// and when it was last heard from.
#[derive(Debug)]
pub struct DtnPeer {
    pub eid: EndpointId,
    pub addr: String,
    pub con_type: PeerType,
    pub cla_list: Vec<(String, Option<u16>)>,
    pub last_contact: u64,
}

/// The mathematical value of a peer record.
#[verifier::ext_equal]
pub struct DtnPeerView {
    pub eid: EndpointIdView,
    pub addr: Seq<char>,
    pub con_type: PeerType,
    pub cla_list: Seq<(Seq<char>, Option<u16>)>,
    pub last_contact: u64,
}

impl View for DtnPeer {
    type V = DtnPeerView;

    open spec fn view(&self) -> DtnPeerView {
        DtnPeerView {
            eid: self.eid@,
            addr: self.addr@,
            con_type: self.con_type,
            cla_list: self.cla_list@.map_values(|c: (String, Option<u16>)| (c.0@, c.1)),
            last_contact: self.last_contact,
        }
    }
}

/// Whether some entry of `active` is `name`.
pub open spec fn active_contains(active: Seq<Seq<char>>, name: Seq<char>) -> bool {
    exists|i: int| 0 <= i < active.len() && active[i] == name
}

/// The first binding at or after position `i` whose transport name is
/// active, as (name, port); `None` where no later binding is supported.
pub open spec fn spec_first_cla_from(
    cla_list: Seq<(Seq<char>, Option<u16>)>,
    active: Seq<Seq<char>>,
    i: int,
) -> Option<(Seq<char>, Option<u16>)>
    decreases cla_list.len() - i,
{
    if i < 0 || i >= cla_list.len() {
        None
    } else if active_contains(active, cla_list[i].0) {
        Some(cla_list[i])
    } else {
        spec_first_cla_from(cla_list, active, i + 1)
    }
}

/// The first advertised binding whose transport name is active.
pub open spec fn spec_first_cla(
    cla_list: Seq<(Seq<char>, Option<u16>)>,
    active: Seq<Seq<char>>,
) -> Option<(Seq<char>, Option<u16>)> {
    spec_first_cla_from(cla_list, active, 0)
}

impl DtnPeer {
    /// The name of the node this peer record is keyed by.
    pub open spec fn node_name_view(&self) -> Seq<char> {
        self.eid.node_name_view()
    }

    /// Liveness at time `now` under `timeout`: the peer was heard from less
    /// than `timeout` seconds ago. A clock standing before the last contact
    /// counts as fresh contact rather than as elapsed time.
    pub open spec fn spec_still_valid(&self, now: u64, timeout: u64) -> bool {
        now < self.last_contact || now - self.last_contact < timeout
    }

    /// What the sweep keeps: every static peer, and every dynamic peer that
    /// is still valid.
    pub open spec fn spec_retained(&self, now: u64, timeout: u64) -> bool {
        self.con_type == PeerType::Static || self.spec_still_valid(now, timeout)
    }

    /// Builds a peer record with an explicit creation time.
    pub fn new_at(
        eid: EndpointId,
        addr: String,
        con_type: PeerType,
        cla_list: Vec<(String, Option<u16>)>,
        now: u64,
    ) -> (r: DtnPeer)
        ensures
            r.eid == eid,
            r.addr == addr,
            r.con_type == con_type,
            r.cla_list == cla_list,
            r.last_contact == now,
    {
        DtnPeer { eid, addr, con_type, cla_list, last_contact: now }
    }

    /// Builds a peer record with the last contact set to the wall clock's
    /// current reading, whatever that is.
    pub fn new(
        eid: EndpointId,
        addr: String,
        con_type: PeerType,
        cla_list: Vec<(String, Option<u16>)>,
    ) -> (r: DtnPeer)
        ensures
            r.eid == eid,
            r.addr == addr,
            r.con_type == con_type,
            r.cla_list == cla_list,
    {
        let now = system_time_secs();
        DtnPeer::new_at(eid, addr, con_type, cla_list, now)
    }

    /// Records fresh contact at time `now`. The timestamp never decreases:
    /// a clock reading older than the stored contact leaves it unchanged.
    pub fn touch_at(&mut self, now: u64)
        ensures
            final(self).last_contact == if now >= old(self).last_contact {
                now
            } else {
                old(self).last_contact
            },
            final(self).last_contact >= old(self).last_contact,
            final(self).eid == old(self).eid,
            final(self).addr == old(self).addr,
            final(self).con_type == old(self).con_type,
            final(self).cla_list == old(self).cla_list,
    {
        if now >= self.last_contact {
            self.last_contact = now;
        }
    }

    /// Records fresh contact at the wall clock's current reading. Whatever
    /// the clock says, the timestamp never decreases and nothing else
    /// changes.
    pub fn touch(&mut self)
        ensures
            final(self).last_contact >= old(self).last_contact,
            final(self).eid == old(self).eid,
            final(self).addr == old(self).addr,
            final(self).con_type == old(self).con_type,
            final(self).cla_list == old(self).cla_list,
    {
        let now = system_time_secs();
        self.touch_at(now);
    }

    /// Liveness at an explicit time, exactly as `spec_still_valid` states
    /// it.
    pub fn still_valid_at(&self, now: u64, timeout: u64) -> (r: bool)
        ensures
            r == self.spec_still_valid(now, timeout),
    {
        if now < self.last_contact {
            true
        } else {
            now - self.last_contact < timeout
        }
    }

    /// Liveness against the wall clock; the timeout is handed in by the
    /// caller, read from live configuration at call time. The verdict is
    /// the one `spec_still_valid` gives for the clock's reading.
    pub fn still_valid(&self, timeout: u64) -> (r: bool)
        ensures
            exists|now: u64| r == self.spec_still_valid(now, timeout),
    {
        let now = system_time_secs();
        let r = self.still_valid_at(now, timeout);
        proof {
            assert(r == self.spec_still_valid(now, timeout));
        }
        r
    }

    /// The name of the node this peer belongs to, or the empty string where
    /// its identifier names none.
    pub fn get_node_name(&self) -> (r: String)
        ensures
            r@ == self.node_name_view(),
    {
        self.eid.node_name()
    }

    /// The first advertised binding whose transport name is in `active`,
    /// made into a sender descriptor for this peer's address; `None` where
    /// no advertised transport is active. Declaration order decides ties:
    /// peers list their preferred transport first.
    pub fn get_first_cla(&self, active: &Vec<String>) -> (r: Option<ClaSender>)
        ensures
            match (spec_first_cla(self@.cla_list, active.deep_view()), r) {
                (Some(sel), Some(c)) => c.remote@ == self.addr@ && c.port == sel.1
                    && c.agent@ == sel.0,
                (None, None) => true,
                _ => false,
            },
    {
        let mut i: usize = 0;
        while i < self.cla_list.len()
            invariant
                0 <= i <= self.cla_list@.len(),
                spec_first_cla(self@.cla_list, active.deep_view()) == spec_first_cla_from(
                    self@.cla_list,
                    active.deep_view(),
                    i as int,
                ),
            decreases self.cla_list@.len() - i,
        {
            let c = &self.cla_list[i];
            proof {
                let gi = i as int;
                assert(self@.cla_list[gi] == (self.cla_list@[gi].0@, self.cla_list@[gi].1));
            }
            if name_in_list(active, &c.0) {
                let sender = ClaSender {
                    remote: self.addr.clone(),
                    port: c.1,
                    agent: c.0.clone(),
                };
                return Some(sender);
            }
            i = i + 1;
        }
        None
    }
}

/// A static peer is retained by the sweep whatever the clock and the
/// configured timeout say — even a timeout of zero.
pub proof fn lemma_static_always_retained(p: DtnPeer, now: u64, timeout: u64)
    requires
        p.con_type == PeerType::Static,
    ensures
        p.spec_retained(now, timeout),
{
}

/// Immediately after fresh contact — the stored timestamp is at least the
/// clock's reading, as `touch_at` leaves it — a peer is valid under any
/// positive timeout.
pub proof fn lemma_fresh_contact_valid(p: DtnPeer, now: u64, timeout: u64)
    requires
        p.last_contact >= now,
        timeout >= 1,
    ensures
        p.spec_still_valid(now, timeout),
{
}

/// Once at least `timeout` seconds pass after the last contact with no
/// further contact, a peer is no longer valid.
pub proof fn lemma_no_contact_expires(p: DtnPeer, later: u64, timeout: u64)
    requires
        later >= p.last_contact,
        later - p.last_contact >= timeout,
    ensures
        !p.spec_still_valid(later, timeout),
{
}

/// Whether `name` occurs in `list`.
pub fn name_in_list(list: &Vec<String>, name: &String) -> (r: bool)
    ensures
        r == active_contains(list.deep_view(), name@),
{
    let mut j: usize = 0;
    while j < list.len()
        invariant
            0 <= j <= list@.len(),
            forall|k: int| 0 <= k < j ==> list.deep_view()[k] != name@,
        decreases list@.len() - j,
    {
        if list[j] == *name {
            assert(list.deep_view()[j as int] == name@);
            return true;
        }
        j = j + 1;
    }
    assert(forall|k: int| 0 <= k < list.deep_view().len() ==> list.deep_view()[k] != name@);
    false
}

impl Clone for DtnPeer {
    fn clone(&self) -> (r: Self)
        ensures
            r@ == self@,
    {
        let r = DtnPeer {
            eid: self.eid.clone(),
            addr: self.addr.clone(),
            con_type: self.con_type.clone(),
            cla_list: clone_cla_list(&self.cla_list),
            last_contact: self.last_contact,
        };
        proof {
            assert(r@ =~= self@);
        }
        r
    }
}

/// Clones a binding list element by element; `Vec::clone` itself says
/// nothing about the clone of a non-`Copy` element.
fn clone_cla_list(list: &Vec<(String, Option<u16>)>) -> (r: Vec<(String, Option<u16>)>)
    ensures
        r@ == list@,
{
    let mut out: Vec<(String, Option<u16>)> = Vec::new();
    let mut i: usize = 0;
    while i < list.len()
        invariant
            0 <= i <= list@.len(),
            out@ == list@.subrange(0, i as int),
        decreases list@.len() - i,
    {
        let name = list[i].0.clone();
        let port = list[i].1;
        out.push((name, port));
        proof {
            assert(out@ =~= list@.subrange(0, i + 1 as int));
        }
        i = i + 1;
    }
    proof {
        assert(list@.subrange(0, list@.len() as int) =~= list@);
    }
    out
}

} // verus!
