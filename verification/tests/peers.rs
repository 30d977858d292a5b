use dtn7::eid::EndpointId;
use dtn7::peer::{DtnPeer, PeerType};
use dtn7::registry::{
    peers_cla_for_node, peers_get_for_node, process_peers, process_peers_at, PeerRegistry,
};

fn eid(uri: &str, node: &str) -> EndpointId {
    EndpointId::new(uri.to_string(), Some(node.to_string()))
}

fn peer_at(node: &str, addr: &str, con_type: PeerType, last_contact: u64) -> DtnPeer {
    DtnPeer::new_at(
        eid(&format!("dtn://{}/incoming", node), node),
        addr.to_string(),
        con_type,
        vec![("tcp".to_string(), None)],
        last_contact,
    )
}

#[test]
fn static_peer_always_valid_in_sweep() {
    let mut reg = PeerRegistry::new();
    reg.insert(peer_at("stable", "10.0.0.1", PeerType::Static, 0));
    process_peers_at(&mut reg, u64::MAX, 0);
    assert_eq!(reg.len(), 1);
    process_peers_at(&mut reg, 123_456, 0);
    assert_eq!(reg.len(), 1);
}

#[test]
fn touch_then_valid_then_expired() {
    let mut p = peer_at("n", "10.0.0.2", PeerType::Dynamic, 100);
    p.touch_at(200);
    assert_eq!(p.last_contact, 200);
    assert!(p.still_valid_at(200, 5));
    assert!(p.still_valid_at(204, 5));
    assert!(!p.still_valid_at(205, 5));
    assert!(!p.still_valid_at(206, 5));
}

#[test]
fn touch_never_decreases_timestamp() {
    let mut p = peer_at("n", "10.0.0.2", PeerType::Dynamic, u64::MAX);
    p.touch_at(17);
    assert_eq!(p.last_contact, u64::MAX);
    let mut q = peer_at("m", "10.0.0.3", PeerType::Dynamic, 0);
    let before = q.last_contact;
    q.touch();
    assert!(q.last_contact >= before);
}

#[test]
fn clock_backwards_counts_as_fresh() {
    let p = peer_at("n", "10.0.0.2", PeerType::Dynamic, 1000);
    assert!(p.still_valid_at(900, 5));
}

#[test]
fn sweep_removes_exactly_expired_dynamic_peers() {
    let mut reg = PeerRegistry::new();
    reg.insert(peer_at("gone", "10.0.0.4", PeerType::Dynamic, 0));
    reg.insert(peer_at("stays", "10.0.0.5", PeerType::Dynamic, 95));
    reg.insert(peer_at("pinned", "10.0.0.6", PeerType::Static, 0));
    process_peers_at(&mut reg, 100, 10);
    assert_eq!(reg.len(), 2);
    assert!(peers_get_for_node(&reg, &eid("dtn://gone/x", "gone")).is_none());
    assert!(peers_get_for_node(&reg, &eid("dtn://stays/x", "stays")).is_some());
    assert!(peers_get_for_node(&reg, &eid("dtn://pinned/x", "pinned")).is_some());
    // a second sweep with no intervening contact changes nothing
    process_peers_at(&mut reg, 100, 10);
    assert_eq!(reg.len(), 2);
    assert!(peers_get_for_node(&reg, &eid("dtn://stays/x", "stays")).is_some());
    assert!(peers_get_for_node(&reg, &eid("dtn://pinned/x", "pinned")).is_some());
}

#[test]
fn wall_clock_sweep_keeps_static_peers() {
    let mut reg = PeerRegistry::new();
    reg.insert(peer_at("anchor", "10.0.0.7", PeerType::Static, 0));
    process_peers(&mut reg, 0);
    assert_eq!(reg.len(), 1);
}

#[test]
fn first_active_binding_wins() {
    let p = DtnPeer::new_at(
        eid("dtn://node9/incoming", "node9"),
        "192.168.2.1".to_string(),
        PeerType::Dynamic,
        vec![("tcp".to_string(), None), ("udp".to_string(), Some(4556))],
        0,
    );
    let only_udp = vec!["udp".to_string()];
    let sender = p.get_first_cla(&only_udp).expect("udp is active");
    assert_eq!(sender.agent, "udp");
    assert_eq!(sender.port, Some(4556));
    assert_eq!(sender.remote, "192.168.2.1");

    let both = vec!["tcp".to_string(), "udp".to_string()];
    let sender = p.get_first_cla(&both).expect("tcp is active");
    assert_eq!(sender.agent, "tcp");
    assert_eq!(sender.port, None);

    let none_active: Vec<String> = Vec::new();
    assert!(p.get_first_cla(&none_active).is_none());
}

#[test]
fn lookup_matches_on_node_component() {
    let mailbox = EndpointId::from_uri("dtn://node1/mailbox").expect("parses");
    let admin = EndpointId::from_uri("dtn://node1/admin").expect("parses");
    assert_eq!(mailbox.node_name(), "node1");
    assert_eq!(admin.node_name(), "node1");
    assert!(!mailbox.same_endpoint(&admin));
    assert!(mailbox.same_node(&admin));

    let mut reg = PeerRegistry::new();
    reg.insert(DtnPeer::new_at(
        mailbox.clone(),
        "10.1.1.1".to_string(),
        PeerType::Static,
        vec![("tcp".to_string(), None)],
        0,
    ));
    let via_mailbox = peers_get_for_node(&reg, &mailbox).expect("found");
    let via_admin = peers_get_for_node(&reg, &admin).expect("found");
    assert_eq!(via_mailbox.addr, "10.1.1.1");
    assert_eq!(via_admin.addr, "10.1.1.1");
    assert_eq!(via_admin.eid.uri, "dtn://node1/mailbox");
}

#[test]
fn parse_rejects_malformed_and_keeps_null_endpoint_nodeless() {
    assert!(EndpointId::from_uri("not an endpoint").is_none());
    assert!(EndpointId::from_uri("http://node1/x").is_none());
    let none = EndpointId::from_uri("dtn:none").expect("the null endpoint parses");
    assert_eq!(none.node, None);
    assert_eq!(none.node_name(), "");
    let ipn = EndpointId::from_uri("ipn:23.42").expect("ipn parses");
    assert_eq!(ipn.node_name(), "23");
}

#[test]
fn insert_overwrites_same_node() {
    let mut reg = PeerRegistry::new();
    reg.insert(peer_at("n1", "10.0.0.8", PeerType::Dynamic, 5));
    reg.insert(peer_at("n1", "10.0.0.9", PeerType::Dynamic, 6));
    assert_eq!(reg.len(), 1);
    let p = peers_get_for_node(&reg, &eid("dtn://n1/x", "n1")).expect("found");
    assert_eq!(p.addr, "10.0.0.9");
    assert_eq!(p.last_contact, 6);
}

#[test]
fn dynamic_peer_expires_and_resolution_stops() {
    let mut reg = PeerRegistry::new();
    let a = eid("dtn://peer-a/incoming", "peer-a");
    reg.insert(DtnPeer::new_at(
        a.clone(),
        "127.0.0.1".to_string(),
        PeerType::Dynamic,
        vec![("tcp".to_string(), None)],
        1000,
    ));
    let active = vec!["tcp".to_string()];
    let sender = peers_cla_for_node(&reg, &a, &active).expect("resolves while fresh");
    assert_eq!(sender.agent, "tcp");
    assert_eq!(sender.port, None);
    assert_eq!(sender.remote, "127.0.0.1");
    // two seconds pass with no contact, timeout is one second
    process_peers_at(&mut reg, 1002, 1);
    assert_eq!(reg.len(), 0);
    assert!(peers_cla_for_node(&reg, &a, &active).is_none());
}

#[test]
fn static_peer_survives_any_elapsed_time() {
    let mut reg = PeerRegistry::new();
    let b = eid("dtn://peer-b/incoming", "peer-b");
    reg.insert(DtnPeer::new_at(
        b.clone(),
        "127.0.0.2".to_string(),
        PeerType::Static,
        vec![("tcp".to_string(), None)],
        1000,
    ));
    process_peers_at(&mut reg, u64::MAX, 0);
    assert!(peers_get_for_node(&reg, &b).is_some());
}
