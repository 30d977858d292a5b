use vstd::prelude::*;

verus! {

/// The node component that bp7 extracts from an endpoint-identifier URI:
/// `None` where the URI does not parse as an endpoint identifier or names no
/// node. The result depends on the URI alone.
pub uninterp spec fn node_part_of(uri: Seq<char>) -> Option<Seq<char>>;

/// A DTN endpoint identifier: the textual URI together with the node
/// component the URI names (`None` for the null endpoint). All services
/// hosted at one node share the node component while their full URIs differ.
#[derive(Debug)]
pub struct EndpointId {
    pub uri: String,
    pub node: Option<String>,
}

/// The mathematical value of an endpoint identifier.
#[verifier::ext_equal]
pub struct EndpointIdView {
    pub uri: Seq<char>,
    pub node: Option<Seq<char>>,
}

impl View for EndpointId {
    type V = EndpointIdView;

    open spec fn view(&self) -> EndpointIdView {
        EndpointIdView { uri: self.uri@, node: self.node_view() }
    }
}

impl EndpointId {
    /// The full identifier, as a sequence of characters.
    pub open spec fn uri_view(&self) -> Seq<char> {
        self.uri@
    }

    /// The node component, as a sequence of characters.
    pub open spec fn node_view(&self) -> Option<Seq<char>> {
        match self.node {
            Some(n) => Some(n@),
            None => None,
        }
    }

    /// The node name: the node component, or the empty string where there is
    /// none.
    pub open spec fn node_name_view(&self) -> Seq<char> {
        match self.node {
            Some(n) => n@,
            None => Seq::empty(),
        }
    }

    /// Builds an identifier from its parts, as already validated by a caller.
    pub fn new(uri: String, node: Option<String>) -> (r: EndpointId)
        ensures
            r.uri == uri,
            r.node == node,
    {
        EndpointId { uri, node }
    }

    /// Relies on bp7::EndpointID::try_from to validate the URI and on
    /// bp7::EndpointID::node for its node component.
    #[verifier::external_body]
    pub fn from_uri(uri: &str) -> (r: Option<EndpointId>)
        ensures
            match r {
                Some(e) => e.uri_view() == uri@ && e.node_view() == node_part_of(uri@),
                None => true,
            },
    {
        match bp7::EndpointID::try_from(uri) {
            Ok(e) => Some(EndpointId { uri: uri.to_string(), node: e.node() }),
            Err(_) => None,
        }
    }

    /// The node name as a string: the node component, or empty where none.
    pub fn node_name(&self) -> (r: String)
        ensures
            r@ == self.node_name_view(),
    {
        match &self.node {
            Some(n) => n.clone(),
            None => String::new(),
        }
    }

    /// Exact-identifier equality: the full URIs are the same.
    pub fn same_endpoint(&self, other: &EndpointId) -> (r: bool)
        ensures
            r == (self.uri_view() == other.uri_view()),
    {
        self.uri == other.uri
    }

    /// Node-only equality: the identifiers name the same node, whatever the
    /// service part of either says.
    pub fn same_node(&self, other: &EndpointId) -> (r: bool)
        ensures
            r == (self.node_name_view() == other.node_name_view()),
    {
        match (&self.node, &other.node) {
            (Some(a), Some(b)) => *a == *b,
            (None, None) => true,
            (Some(a), None) => {
                let r = a.as_str().is_empty();
                proof {
                    if r {
                        assert(a@ =~= Seq::<char>::empty());
                    }
                }
                r
            },
            (None, Some(b)) => {
                let r = b.as_str().is_empty();
                proof {
                    if r {
                        assert(b@ =~= Seq::<char>::empty());
                    }
                }
                r
            },
        }
    }
}

impl Clone for EndpointId {
    fn clone(&self) -> (r: Self)
        ensures
            r == *self,
    {
        EndpointId { uri: self.uri.clone(), node: clone_opt_string(&self.node) }
    }
}

/// Clones an optional string; `Option::clone` itself carries no
/// specification, so the two cases are written out.
fn clone_opt_string(o: &Option<String>) -> (r: Option<String>)
    ensures
        r == *o,
{
    match o {
        Some(s) => Some(s.clone()),
        None => None,
    }
}

} // verus!
