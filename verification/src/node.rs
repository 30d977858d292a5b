use vstd::prelude::*;

use crate::eid::EndpointId;

verus! {

/// What Node Core requires of a local application endpoint: it can say
/// which endpoint identifier it acts as. Users plug their own agents in by
/// implementing this.
pub trait ApplicationAgent: Sized {
    /// The identifier this agent serves.
    spec fn eid_spec(&self) -> EndpointId;

    /// The identifier this agent serves.
    fn eid(&self) -> (r: &EndpointId)
        ensures
            *r == self.eid_spec(),
    ;
}

/// A minimal application agent: it holds the endpoint identifier it serves
/// and nothing else.
pub struct SimpleApplicationAgent {
    pub eid: EndpointId,
}

impl SimpleApplicationAgent {
    pub fn with_eid(eid: EndpointId) -> (r: SimpleApplicationAgent)
        ensures
            r.eid == eid,
    {
        SimpleApplicationAgent { eid }
    }
}

impl ApplicationAgent for SimpleApplicationAgent {
    open spec fn eid_spec(&self) -> EndpointId {
        self.eid
    }

    fn eid(&self) -> (r: &EndpointId) {
        &self.eid
    }
}

/// What Node Core requires of a convergence-layer agent: a stable transport
/// name, matched against the bindings peers advertise.
pub trait ConvergencyLayerAgent: Sized {
    /// The transport name this agent registers under.
    spec fn name_spec(&self) -> Seq<char>;

    /// The transport name this agent registers under.
    fn name(&self) -> (r: &String)
        ensures
            r@ == self.name_spec(),
    ;
}

/// A convergence-layer agent that only carries its transport name; stands
/// in for transports whose send machinery lives elsewhere.
pub struct DummyConvergencyLayerAgent {
    pub name: String,
}

impl DummyConvergencyLayerAgent {
    pub fn with_name(name: String) -> (r: DummyConvergencyLayerAgent)
        ensures
            r.name == name,
    {
        DummyConvergencyLayerAgent { name }
    }
}

impl ConvergencyLayerAgent for DummyConvergencyLayerAgent {
    open spec fn name_spec(&self) -> Seq<char> {
        self.name@
    }

    fn name(&self) -> (r: &String) {
        &self.name
    }
}

/// What Node Core requires of the bundle store it reports from: it can list
/// the identifiers of the bundles it holds. The store itself lives outside
/// this core.
pub trait BundleStore: Sized {
    /// The stored bundle identifiers, in the store's order.
    spec fn ids_spec(&self) -> Seq<Seq<char>>;

    /// The stored bundle identifiers, in the store's order.
    fn bundle_ids(&self) -> (r: Vec<String>)
        ensures
            r.deep_view() == self.ids_spec(),
    ;
}

/// A bundle store that simply remembers identifiers.
pub struct SimpleBundleStore {
    pub ids: Vec<String>,
}

impl SimpleBundleStore {
    pub fn new() -> (r: SimpleBundleStore)
        ensures
            r.ids@.len() == 0,
    {
        SimpleBundleStore { ids: Vec::new() }
    }
}

impl BundleStore for SimpleBundleStore {
    open spec fn ids_spec(&self) -> Seq<Seq<char>> {
        self.ids.deep_view()
    }

    fn bundle_ids(&self) -> (r: Vec<String>) {
        clone_string_vec(&self.ids)
    }
}

/// Clones a list of strings element by element; `Vec::clone` itself says
/// nothing usable about the clone of a non-`Copy` element.
fn clone_string_vec(list: &Vec<String>) -> (r: Vec<String>)
    ensures
        r.deep_view() == list.deep_view(),
{
    let mut out: Vec<String> = Vec::new();
    let mut i: usize = 0;
    while i < list.len()
        invariant
            0 <= i <= list@.len(),
            out@.len() == i,
            forall|k: int| 0 <= k < i ==> out.deep_view()[k] == list.deep_view()[k],
        decreases list@.len() - i,
    {
        out.push(list[i].clone());
        i = i + 1;
    }
    proof {
        assert(out.deep_view() =~= list.deep_view());
    }
    out
}

/// The forwarding strategy plugged into the node when it is built; its
/// forwarding protocol is out of scope here, the core only holds the
/// plug-point.
#[derive(Debug, Clone, Copy, PartialEq, Eq, Structural)]
pub enum RoutingAgent {
    Epidemic,
    Flooding,
}

/// The first position at or after `i` whose agent serves the identifier
/// with URI `uri`.
pub open spec fn spec_find_endpoint_from<A: ApplicationAgent>(
    s: Seq<A>,
    uri: Seq<char>,
    i: int,
) -> Option<int>
    decreases s.len() - i,
{
    if i < 0 || i >= s.len() {
        None
    } else if s[i].eid_spec().uri_view() == uri {
        Some(i)
    } else {
        spec_find_endpoint_from(s, uri, i + 1)
    }
}

/// The first position whose agent serves the identifier with URI `uri`.
pub open spec fn spec_find_endpoint<A: ApplicationAgent>(s: Seq<A>, uri: Seq<char>) -> Option<
    int,
> {
    spec_find_endpoint_from(s, uri, 0)
}

/// The local node's composition point: the application endpoints it hosts,
/// the transports it can use, and the forwarding strategy chosen at
/// construction and kept for the node's lifetime.
pub struct DtnCore<A: ApplicationAgent, C: ConvergencyLayerAgent> {
    pub endpoints: Vec<A>,
    pub cl_list: Vec<C>,
    pub routing_agent: RoutingAgent,
}

impl<A: ApplicationAgent, C: ConvergencyLayerAgent> DtnCore<A, C> {
    /// The registered endpoint identifiers' URIs, in insertion order.
    pub open spec fn eids_view(&self) -> Seq<Seq<char>> {
        self.endpoints@.map_values(|a: A| a.eid_spec().uri_view())
    }

    /// The registered transport names, in insertion order.
    pub open spec fn cla_names_view(&self) -> Seq<Seq<char>> {
        self.cl_list@.map_values(|c: C| c.name_spec())
    }

    /// A fresh node with no endpoints, no transports, and the default
    /// epidemic forwarding strategy.
    pub fn new() -> (r: DtnCore<A, C>)
        ensures
            r.endpoints@.len() == 0,
            r.cl_list@.len() == 0,
            r.routing_agent == RoutingAgent::Epidemic,
    {
        DtnCore { endpoints: Vec::new(), cl_list: Vec::new(), routing_agent: RoutingAgent::Epidemic }
    }

    /// Takes ownership of `aa` and appends it to the endpoint collection.
    /// Nothing checks for a duplicate identifier: keeping identifiers
    /// unique is the caller's contract.
    pub fn register_application_agent(&mut self, aa: A)
        ensures
            final(self).endpoints@ == old(self).endpoints@.push(aa),
            final(self).eids_view() == old(self).eids_view().push(aa.eid_spec().uri_view()),
            final(self).cl_list == old(self).cl_list,
            final(self).routing_agent == old(self).routing_agent,
    {
        self.endpoints.push(aa);
        proof {
            assert(self.eids_view() =~= old(self).eids_view().push(aa.eid_spec().uri_view()));
        }
    }

    /// Removes the first stored endpoint serving `aa`'s identifier, if any;
    /// a never-registered identifier is a no-op, not an error.
    pub fn unregister_application_agent(&mut self, aa: A)
        ensures
            final(self).cl_list == old(self).cl_list,
            final(self).routing_agent == old(self).routing_agent,
            match spec_find_endpoint(old(self).endpoints@, aa.eid_spec().uri_view()) {
                Some(j) => final(self).endpoints@ == old(self).endpoints@.remove(j)
                    && final(self).eids_view() == old(self).eids_view().remove(j),
                None => final(self).endpoints@ == old(self).endpoints@,
            },
    {
        let target = aa.eid();
        let n = self.endpoints.len();
        let mut i: usize = 0;
        while i < n
            invariant
                n == self.endpoints@.len(),
                0 <= i <= n,
                self.endpoints@ == old(self).endpoints@,
                self.cl_list == old(self).cl_list,
                self.routing_agent == old(self).routing_agent,
                target@ == aa.eid_spec()@,
                spec_find_endpoint(self.endpoints@, aa.eid_spec().uri_view())
                    == spec_find_endpoint_from(
                    self.endpoints@,
                    aa.eid_spec().uri_view(),
                    i as int,
                ),
            decreases n - i,
        {
            if self.endpoints[i].eid().same_endpoint(target) {
                self.endpoints.remove(i);
                proof {
                    assert(self.eids_view() =~= old(self).eids_view().remove(i as int));
                }
                return ;
            }
            i = i + 1;
        }
    }

    /// The string forms of all registered endpoint identifiers, in
    /// insertion order.
    pub fn eids(&self) -> (r: Vec<String>)
        ensures
            r.deep_view() == self.eids_view(),
    {
        let mut out: Vec<String> = Vec::new();
        let mut i: usize = 0;
        while i < self.endpoints.len()
            invariant
                0 <= i <= self.endpoints@.len(),
                out@.len() == i,
                out.deep_view() == self.eids_view().subrange(0, i as int),
            decreases self.endpoints@.len() - i,
        {
            let e = self.endpoints[i].eid();
            let u = e.uri.clone();
            let ghost prev = out@;
            out.push(u);
            proof {
                let gi = i as int;
                assert(self.eids_view()[gi] == self.endpoints@[gi].eid_spec().uri_view());
                assert(out@ == prev.push(u));
                assert(out.deep_view() =~= self.eids_view().subrange(0, gi + 1));
            }
            i = i + 1;
        }
        proof {
            assert(out.deep_view() =~= self.eids_view());
        }
        out
    }

    /// The registered transport names, in insertion order: the "currently
    /// active" list that transport resolution matches peer bindings
    /// against.
    pub fn cla_names(&self) -> (r: Vec<String>)
        ensures
            r.deep_view() == self.cla_names_view(),
    {
        let mut out: Vec<String> = Vec::new();
        let mut i: usize = 0;
        while i < self.cl_list.len()
            invariant
                0 <= i <= self.cl_list@.len(),
                out@.len() == i,
                out.deep_view() == self.cla_names_view().subrange(0, i as int),
            decreases self.cl_list@.len() - i,
        {
            let c = self.cl_list[i].name();
            let u = c.clone();
            let ghost prev = out@;
            out.push(u);
            proof {
                let gi = i as int;
                assert(self.cla_names_view()[gi] == self.cl_list@[gi].name_spec());
                assert(out@ == prev.push(u));
                assert(out.deep_view() =~= self.cla_names_view().subrange(0, gi + 1));
            }
            i = i + 1;
        }
        proof {
            assert(out.deep_view() =~= self.cla_names_view());
        }
        out
    }

    /// The bundle identifiers currently held for this node; the core stores
    /// no bundles itself and only reports what the store lists.
    pub fn bundles<S: BundleStore>(&self, store: &S) -> (r: Vec<String>)
        ensures
            r.deep_view() == store.ids_spec(),
    {
        store.bundle_ids()
    }

    /// Whether a bundle addressed to `eid` is for a locally hosted
    /// endpoint, by exact identifier equality.
    pub fn is_in_endpoints(&self, eid: &EndpointId) -> (r: bool)
        ensures
            r == (spec_find_endpoint(self.endpoints@, eid.uri_view()) is Some),
    {
        let mut i: usize = 0;
        while i < self.endpoints.len()
            invariant
                0 <= i <= self.endpoints@.len(),
                spec_find_endpoint(self.endpoints@, eid.uri_view()) == spec_find_endpoint_from(
                    self.endpoints@,
                    eid.uri_view(),
                    i as int,
                ),
            decreases self.endpoints@.len() - i,
        {
            if self.endpoints[i].eid().same_endpoint(eid) {
                return true;
            }
            i = i + 1;
        }
        false
    }

    /// The stored endpoint serving exactly `eid`, or `None`.
    pub fn get_endpoint(&self, eid: &EndpointId) -> (r: Option<&A>)
        ensures
            match (spec_find_endpoint(self.endpoints@, eid.uri_view()), r) {
                (Some(j), Some(a)) => *a == self.endpoints@[j],
                (None, None) => true,
                _ => false,
            },
    {
        let mut i: usize = 0;
        while i < self.endpoints.len()
            invariant
                0 <= i <= self.endpoints@.len(),
                spec_find_endpoint(self.endpoints@, eid.uri_view()) == spec_find_endpoint_from(
                    self.endpoints@,
                    eid.uri_view(),
                    i as int,
                ),
            decreases self.endpoints@.len() - i,
        {
            if self.endpoints[i].eid().same_endpoint(eid) {
                return Some(&self.endpoints[i]);
            }
            i = i + 1;
        }
        None
    }

    /// Exclusive access to the stored endpoint serving exactly `eid`, or
    /// `None` where no endpoint serves it.
    pub fn get_endpoint_mut(&mut self, eid: &EndpointId) -> (r: Option<&mut A>)
        ensures
            match spec_find_endpoint(old(self).endpoints@, eid.uri_view()) {
                Some(j) => r is Some && *(r->Some_0) == old(self).endpoints@[j]
                    && final(self).endpoints@ == old(self).endpoints@.update(
                    j,
                    *final(r->Some_0),
                ),
                None => r is None && final(self).endpoints@ == old(self).endpoints@,
            },
    {
        let mut i: usize = 0;
        while i < self.endpoints.len()
            invariant
                0 <= i <= self.endpoints@.len(),
                self.endpoints@ == old(self).endpoints@,
                spec_find_endpoint(self.endpoints@, eid.uri_view()) == spec_find_endpoint_from(
                    self.endpoints@,
                    eid.uri_view(),
                    i as int,
                ),
            decreases self.endpoints@.len() - i,
        {
            if self.endpoints[i].eid().same_endpoint(eid) {
                return Some(&mut self.endpoints[i]);
            }
            i = i + 1;
        }
        None
    }

    /// The position of the stored endpoint serving exactly `eid`, or
    /// `None`; callers mutate the agent in place through it.
    pub fn get_endpoint_position(&self, eid: &EndpointId) -> (r: Option<usize>)
        ensures
            match (spec_find_endpoint(self.endpoints@, eid.uri_view()), r) {
                (Some(j), Some(p)) => p as int == j,
                (None, None) => true,
                _ => false,
            },
    {
        let mut i: usize = 0;
        while i < self.endpoints.len()
            invariant
                0 <= i <= self.endpoints@.len(),
                spec_find_endpoint(self.endpoints@, eid.uri_view()) == spec_find_endpoint_from(
                    self.endpoints@,
                    eid.uri_view(),
                    i as int,
                ),
            decreases self.endpoints@.len() - i,
        {
            if self.endpoints[i].eid().same_endpoint(eid) {
                return Some(i);
            }
            i = i + 1;
        }
        None
    }
}

impl<A: ApplicationAgent, C: ConvergencyLayerAgent> Default for DtnCore<A, C> {
    fn default() -> (r: Self)
        ensures
            r.endpoints@.len() == 0,
            r.cl_list@.len() == 0,
            r.routing_agent == RoutingAgent::Epidemic,
    {
        DtnCore::new()
    }
}

/// Registering an agent with an identifier the listing does not yet hold
/// adds exactly one occurrence of it: after the append, the identifier is
/// listed exactly once.
pub proof fn lemma_register_lists_once(ids: Seq<Seq<char>>, id: Seq<char>)
    requires
        forall|k: int| 0 <= k < ids.len() ==> ids[k] != id,
    ensures
        count_of(ids.push(id), id) == 1,
{
    lemma_count_of_absent(ids, id);
    assert(ids.push(id).drop_last() =~= ids);
    assert(ids.push(id).last() == id);
}

/// How often `id` occurs in `ids`.
pub open spec fn count_of(ids: Seq<Seq<char>>, id: Seq<char>) -> nat
    decreases ids.len(),
{
    if ids.len() == 0 {
        0
    } else {
        count_of(ids.drop_last(), id) + if ids.last() == id {
            1nat
        } else {
            0nat
        }
    }
}

/// An identifier occurring nowhere is counted zero times.
pub proof fn lemma_count_of_absent(ids: Seq<Seq<char>>, id: Seq<char>)
    requires
        forall|k: int| 0 <= k < ids.len() ==> ids[k] != id,
    ensures
        count_of(ids, id) == 0,
    decreases ids.len(),
{
    if ids.len() > 0 {
        assert(ids.last() == ids[ids.len() - 1]);
        lemma_count_of_absent(ids.drop_last(), id);
    }
}

} // verus!
