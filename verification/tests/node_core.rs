use dtn7::eid::EndpointId;
use dtn7::node::{
    ApplicationAgent, BundleStore, ConvergencyLayerAgent, DtnCore, DummyConvergencyLayerAgent,
    RoutingAgent, SimpleApplicationAgent, SimpleBundleStore,
};
use dtn7::stats::DtnStatistics;

type Core = DtnCore<SimpleApplicationAgent, DummyConvergencyLayerAgent>;

fn eid(uri: &str, node: &str) -> EndpointId {
    EndpointId::new(uri.to_string(), Some(node.to_string()))
}

#[test]
fn new_core_is_empty_with_epidemic_strategy() {
    let core = Core::new();
    assert!(core.eids().is_empty());
    assert!(core.cla_names().is_empty());
    assert_eq!(core.routing_agent, RoutingAgent::Epidemic);
    let dflt = Core::default();
    assert!(dflt.eids().is_empty());
    assert_eq!(dflt.routing_agent, RoutingAgent::Epidemic);
}

#[test]
fn register_then_list_then_unregister() {
    let mut core = Core::new();
    let id = eid("dtn://local/app", "local");
    core.register_application_agent(SimpleApplicationAgent::with_eid(id.clone()));
    let listed = core.eids();
    assert_eq!(listed, vec!["dtn://local/app".to_string()]);
    assert_eq!(
        listed.iter().filter(|u| u.as_str() == "dtn://local/app").count(),
        1
    );
    assert!(core.is_in_endpoints(&id));
    core.unregister_application_agent(SimpleApplicationAgent::with_eid(id.clone()));
    assert!(core.eids().is_empty());
    assert!(!core.is_in_endpoints(&id));
}

#[test]
fn unregister_unknown_is_a_no_op() {
    let mut core = Core::new();
    core.register_application_agent(SimpleApplicationAgent::with_eid(eid(
        "dtn://local/app",
        "local",
    )));
    core.unregister_application_agent(SimpleApplicationAgent::with_eid(eid(
        "dtn://other/app",
        "other",
    )));
    assert_eq!(core.eids().len(), 1);
}

#[test]
fn unregister_removes_first_match_only() {
    let mut core = Core::new();
    let id = eid("dtn://local/app", "local");
    core.register_application_agent(SimpleApplicationAgent::with_eid(id.clone()));
    core.register_application_agent(SimpleApplicationAgent::with_eid(id.clone()));
    core.unregister_application_agent(SimpleApplicationAgent::with_eid(id.clone()));
    assert_eq!(core.eids().len(), 1);
}

#[test]
fn endpoint_lookup_uses_exact_identifier() {
    let mut core = Core::new();
    let mailbox = eid("dtn://local/mailbox", "local");
    let admin = eid("dtn://local/admin", "local");
    core.register_application_agent(SimpleApplicationAgent::with_eid(mailbox.clone()));
    assert!(core.get_endpoint(&mailbox).is_some());
    assert!(core.get_endpoint(&admin).is_none());
    assert_eq!(core.get_endpoint_position(&mailbox), Some(0));
    assert_eq!(core.get_endpoint_position(&admin), None);
    let agent = core.get_endpoint_mut(&mailbox).expect("registered");
    assert_eq!(agent.eid().uri, "dtn://local/mailbox");
}

#[test]
fn cla_names_follow_registration_order() {
    let mut core = Core::new();
    core.cl_list.push(DummyConvergencyLayerAgent::with_name("tcp".to_string()));
    core.cl_list.push(DummyConvergencyLayerAgent::with_name("udp".to_string()));
    assert_eq!(core.cla_names(), vec!["tcp".to_string(), "udp".to_string()]);
    assert_eq!(core.cl_list[0].name().as_str(), "tcp");
}

#[test]
fn bundles_reports_what_the_store_lists() {
    let core = Core::new();
    let mut store = SimpleBundleStore::new();
    assert!(core.bundles(&store).is_empty());
    store.ids.push("dtn://a/x-7".to_string());
    store.ids.push("dtn://b/y-9".to_string());
    assert_eq!(
        core.bundles(&store),
        vec!["dtn://a/x-7".to_string(), "dtn://b/y-9".to_string()]
    );
    assert_eq!(store.bundle_ids().len(), 2);
}

#[test]
fn statistics_start_at_zero_and_count_up() {
    let mut stats = DtnStatistics::new();
    assert_eq!(stats.incoming, 0);
    assert_eq!(stats.dups, 0);
    assert_eq!(stats.outgoing, 0);
    assert_eq!(stats.delivered, 0);
    assert_eq!(stats.broken, 0);
    stats.inc_incoming();
    stats.inc_incoming();
    stats.inc_dups();
    stats.inc_outgoing();
    stats.inc_delivered();
    stats.inc_broken();
    assert_eq!(stats.incoming, 2);
    assert_eq!(stats.dups, 1);
    assert_eq!(stats.outgoing, 1);
    assert_eq!(stats.delivered, 1);
    assert_eq!(stats.broken, 1);
    let copy = stats.clone();
    assert_eq!(copy.incoming, 2);
    let dflt = DtnStatistics::default();
    assert_eq!(dflt.broken, 0);
}
