use hdn::mesh::{setup_network, Address, Endpoint, Mesh, DIAL_TIMEOUT_SECS};

const PEER_PORT: u16 = 4300;

fn nodes(count: u32) -> Vec<Address> {
    (0..count).map(|i| Address::V4(0x0a00_0001 + i)).collect()
}

fn from(address: Address, port: u16) -> Option<Endpoint> {
    Some(Endpoint { address, port })
}

fn targets(mesh: &Mesh) -> Vec<usize> {
    let mut targets: Vec<usize> = mesh.dial_targets().into_iter().map(|t| t.0).collect();
    targets.sort();
    targets
}

#[test]
fn the_dial_timeout_is_three_seconds() {
    assert_eq!(DIAL_TIMEOUT_SECS, 3);
}

#[test]
fn a_single_node_needs_no_mesh() {
    let mesh = setup_network(nodes(1), PEER_PORT, 0);
    assert!(mesh.is_complete());
    assert!(!mesh.is_awaiting());
    assert_eq!(mesh.workers(), 0);
    assert_eq!(mesh.listener(), None);
    assert!(mesh.dial_targets().is_empty());
    assert!(mesh.into_peers().is_empty());
}

#[test]
fn no_node_needs_no_mesh() {
    let mesh = setup_network(Vec::new(), PEER_PORT, 7);
    assert!(mesh.is_complete());
    assert_eq!(mesh.workers(), 0);
    assert_eq!(mesh.listener(), None);
    assert!(mesh.into_peers().is_empty());
}

#[test]
fn the_first_node_dials_all_others() {
    let all = nodes(4);
    let mesh = setup_network(all.clone(), PEER_PORT, 0);
    assert!(!mesh.is_awaiting());
    assert!(!mesh.is_complete());
    assert_eq!(mesh.workers(), 3);
    assert_eq!(setup_network(all.clone(), PEER_PORT, 1).workers(), 2);
    assert_eq!(mesh.listener(), from(all[0], PEER_PORT));
    let mut targets = mesh.dial_targets();
    targets.sort_by_key(|t| t.0);
    assert_eq!(
        targets,
        vec![
            (1, Endpoint { address: all[1], port: PEER_PORT }),
            (2, Endpoint { address: all[2], port: PEER_PORT }),
            (3, Endpoint { address: all[3], port: PEER_PORT }),
        ]
    );
}

#[test]
fn the_last_node_only_listens() {
    let all = nodes(4);
    let mesh = setup_network(all.clone(), PEER_PORT, 3);
    assert!(mesh.is_awaiting());
    assert!(!mesh.is_complete());
    assert_eq!(mesh.workers(), 0);
    assert_eq!(mesh.listener(), from(all[3], PEER_PORT));
    assert!(mesh.dial_targets().is_empty());
}

#[test]
fn a_middle_node_does_both() {
    let all = nodes(5);
    let mut mesh = setup_network(all.clone(), PEER_PORT, 2);
    assert_eq!(targets(&mesh), vec![3, 4]);
    assert!(mesh.is_awaiting());

    assert!(mesh.connect_to_peer(4, true));
    assert_eq!(targets(&mesh), vec![3]);
    assert_eq!(mesh.try_accept_peer_connection(from(all[0], 50000)), Some(all[0]));
    assert!(mesh.is_awaiting());
    assert!(mesh.connect_to_peer(3, true));
    assert!(mesh.dial_targets().is_empty());
    assert!(!mesh.is_complete());
    assert_eq!(mesh.try_accept_peer_connection(from(all[1], 50001)), Some(all[1]));
    assert!(!mesh.is_awaiting());
    assert!(mesh.is_complete());

    assert_eq!(
        mesh.into_peers(),
        vec![
            Endpoint { address: all[4], port: PEER_PORT },
            Endpoint { address: all[0], port: 50000 },
            Endpoint { address: all[3], port: PEER_PORT },
            Endpoint { address: all[1], port: 50001 },
        ]
    );
}

#[test]
fn a_failed_dial_is_tried_again() {
    let all = nodes(2);
    let mut mesh = setup_network(all.clone(), PEER_PORT, 0);
    for _ in 0..5 {
        assert!(!mesh.connect_to_peer(1, false));
        assert!(!mesh.is_complete());
        assert_eq!(targets(&mesh), vec![1]);
    }
    assert!(mesh.connect_to_peer(1, true));
    assert!(mesh.is_complete());
    assert_eq!(mesh.into_peers(), vec![Endpoint { address: all[1], port: PEER_PORT }]);
}

#[test]
fn a_node_is_connected_to_once() {
    let all = nodes(3);
    let mut mesh = setup_network(all.clone(), PEER_PORT, 0);
    assert!(mesh.connect_to_peer(1, true));
    assert!(mesh.connect_to_peer(1, true));
    assert!(mesh.connect_to_peer(1, false));
    assert!(!mesh.is_complete());
    assert!(mesh.connect_to_peer(2, true));
    assert!(mesh.is_complete());
    assert_eq!(mesh.into_peers().len(), 2);
}

#[test]
fn a_dial_that_was_never_asked_for_is_ignored() {
    let all = nodes(3);
    let mut mesh = setup_network(all.clone(), PEER_PORT, 1);
    assert!(mesh.connect_to_peer(0, true));
    assert!(mesh.connect_to_peer(1, true));
    assert!(mesh.connect_to_peer(3, true));
    assert!(mesh.connect_to_peer(usize::MAX, true));
    assert_eq!(targets(&mesh), vec![2]);
    assert!(mesh.into_peers().is_empty());
}

#[test]
fn a_connection_from_elsewhere_is_ignored() {
    let all = nodes(3);
    let mut mesh = setup_network(all.clone(), PEER_PORT, 2);
    assert_eq!(mesh.try_accept_peer_connection(from(Address::V4(0x7f00_0001), 50000)), None);
    assert_eq!(mesh.try_accept_peer_connection(from(Address::V6(0x0a00_0001), 50000)), None);
    assert_eq!(mesh.try_accept_peer_connection(from(all[2], 50000)), None);
    assert_eq!(mesh.try_accept_peer_connection(None), None);
    assert!(mesh.is_awaiting());
    assert_eq!(mesh.try_accept_peer_connection(from(all[1], 50000)), Some(all[1]));
    assert_eq!(mesh.try_accept_peer_connection(from(all[1], 50001)), None);
    assert_eq!(mesh.try_accept_peer_connection(from(all[0], 50002)), Some(all[0]));
    assert!(mesh.is_complete());
    assert_eq!(
        mesh.into_peers(),
        vec![
            Endpoint { address: all[1], port: 50000 },
            Endpoint { address: all[0], port: 50002 },
        ]
    );
}

#[test]
fn a_later_node_that_connects_is_ignored() {
    let all = nodes(3);
    let mut mesh = setup_network(all.clone(), PEER_PORT, 1);
    assert_eq!(mesh.try_accept_peer_connection(from(all[2], 50000)), None);
    assert!(mesh.is_awaiting());
    assert_eq!(targets(&mesh), vec![2]);
}

/// Every order in which node 1 of three can dial node 2 and hear from node 0,
/// with failures and strangers in between.
#[test]
fn every_interleaving_ends_with_all_peers() {
    let all = nodes(3);
    let stranger = from(Address::V4(1), 1);
    for order in 0..4 {
        let mut mesh = setup_network(all.clone(), PEER_PORT, 1);
        match order {
            0 => {
                mesh.connect_to_peer(2, true);
                mesh.try_accept_peer_connection(from(all[0], 9));
            }
            1 => {
                mesh.try_accept_peer_connection(from(all[0], 9));
                mesh.connect_to_peer(2, true);
            }
            2 => {
                mesh.connect_to_peer(2, false);
                mesh.try_accept_peer_connection(stranger);
                mesh.try_accept_peer_connection(from(all[0], 9));
                mesh.connect_to_peer(2, false);
                mesh.try_accept_peer_connection(from(all[0], 10));
                mesh.connect_to_peer(2, true);
            }
            _ => {
                mesh.try_accept_peer_connection(None);
                mesh.connect_to_peer(2, true);
                mesh.connect_to_peer(2, true);
                mesh.try_accept_peer_connection(from(all[2], 9));
                mesh.try_accept_peer_connection(from(all[0], 9));
            }
        }
        assert!(mesh.is_complete());
        assert_eq!(mesh.into_peers().len(), all.len() - 1);
    }
}

#[test]
fn every_node_of_a_mesh_ends_with_all_others() {
    let all = nodes(6);
    for id in 0..all.len() {
        let mut mesh = setup_network(all.clone(), PEER_PORT, id);
        for earlier in (0..id).rev() {
            assert!(!mesh.is_complete());
            mesh.try_accept_peer_connection(from(all[earlier], 40000));
        }
        for (target, _) in mesh.dial_targets() {
            assert!(!mesh.is_complete());
            mesh.connect_to_peer(target, true);
        }
        assert!(mesh.is_complete());
        assert_eq!(mesh.into_peers().len(), all.len() - 1);
    }
}

#[test]
fn an_address_configured_twice_is_awaited_once() {
    let a = Address::V4(1);
    let b = Address::V4(2);
    let mut mesh = setup_network(vec![a, a, b], PEER_PORT, 2);
    assert_eq!(mesh.try_accept_peer_connection(from(a, 9)), Some(a));
    assert_eq!(mesh.try_accept_peer_connection(from(a, 10)), None);
    assert!(mesh.is_complete());
    assert_eq!(mesh.into_peers().len(), 1);
}
