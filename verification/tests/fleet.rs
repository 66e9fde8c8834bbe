//! End-to-end exercises of the fleet orchestrator: installing, starting,
//! the durable form, and the selection rules.

use node_fleet::allocate;
use node_fleet::apply_start_outcome;
use node_fleet::decode_registry;
use node_fleet::encode_registry;
use node_fleet::get_safenode_install_path;
use node_fleet::is_running_as_root;
use node_fleet::make_service_name;
use node_fleet::needs_start;
use node_fleet::next_free_port;
use node_fleet::outcome_error;
use node_fleet::register_installed;
use node_fleet::resolve_targets;
use node_fleet::should_retry_health_check;
use node_fleet::validate_selection;
use node_fleet::FleetError;
use node_fleet::InstanceStatus;
use node_fleet::Registry;
use node_fleet::Selection;
use node_fleet::StartOutcome;
use node_fleet::SubCmd;
use node_fleet::HEALTH_CHECK_ATTEMPTS;
use node_fleet::PORT_BASE;

fn install_fleet(reg: &mut Registry, count: u16, user: &str, version: &str) {
    let descs = allocate(reg, count, &user.to_string(), &version.to_string());
    assert_eq!(descs.len(), count as usize);
    for d in &descs {
        let handle = d.service_name.clone();
        register_installed(reg, d, &handle).expect("fresh descriptor must register");
    }
}

#[test]
fn install_two_then_start_all() {
    let mut reg = Registry::new();
    install_fleet(&mut reg, 2, "safe", "1.2.0");

    assert_eq!(reg.records.len(), 2);
    assert_eq!(reg.records[0].service_name, "safenode1");
    assert_eq!(reg.records[1].service_name, "safenode2");
    assert_eq!(reg.records[0].rpc_port, PORT_BASE);
    assert_eq!(reg.records[1].rpc_port, PORT_BASE + 1);
    for r in &reg.records {
        assert_eq!(r.status, InstanceStatus::Installed);
        assert_eq!(r.version, "1.2.0");
        assert_eq!(r.user, "safe");
        assert_eq!(r.peer_id, None);
    }

    let sel = validate_selection(None, None).unwrap();
    assert!(matches!(sel, Selection::All));
    let targets = resolve_targets(&reg, &sel).unwrap();
    assert_eq!(targets, vec![0, 1]);

    let peers = ["peer-one", "peer-two"];
    for (n, &i) in targets.iter().enumerate() {
        assert!(needs_start(&reg, i));
        let outcome = StartOutcome::Confirmed(peers[n].to_string());
        apply_start_outcome(&mut reg, i, &outcome);
    }

    assert_eq!(reg.records[0].status, InstanceStatus::Running);
    assert_eq!(reg.records[1].status, InstanceStatus::Running);
    assert_eq!(reg.records[0].peer_id.as_deref(), Some("peer-one"));
    assert_eq!(reg.records[1].peer_id.as_deref(), Some("peer-two"));
    assert_ne!(reg.records[0].peer_id, reg.records[1].peer_id);

    // Persisting after the batch keeps the started state.
    let text = encode_registry(&reg);
    let reloaded = decode_registry(&text).unwrap();
    assert_eq!(reloaded.records.len(), 2);
    assert_eq!(reloaded.records[0].status, InstanceStatus::Running);
    assert_eq!(reloaded.records[1].peer_id.as_deref(), Some("peer-two"));
}

#[test]
fn ordinal_reuse_after_manual_removal() {
    let mut reg = Registry::new();
    install_fleet(&mut reg, 2, "safe", "0.1.0");
    assert_eq!(reg.records[1].service_name, "safenode2");

    // Manually remove the second instance, then install one more.
    reg.records.remove(1);
    install_fleet(&mut reg, 1, "safe", "0.1.0");

    assert_eq!(reg.records.len(), 2);
    assert_eq!(reg.records[1].service_name, "safenode2");
}

#[test]
fn uniqueness_across_installs() {
    let mut reg = Registry::new();
    install_fleet(&mut reg, 3, "safe", "0.1.0");
    install_fleet(&mut reg, 2, "other", "0.2.0");
    assert_eq!(reg.records.len(), 5);
    for i in 0..reg.records.len() {
        for j in 0..reg.records.len() {
            if i != j {
                assert_ne!(reg.records[i].service_name, reg.records[j].service_name);
                assert_ne!(reg.records[i].rpc_port, reg.records[j].rpc_port);
            }
        }
    }
}

#[test]
fn port_scan_skips_taken_ports() {
    let mut reg = Registry::new();
    install_fleet(&mut reg, 2, "safe", "0.1.0");
    // Free the first port; the scan reuses it before going higher.
    reg.records.remove(0);
    let none: Vec<node_fleet::InstanceDescriptor> = Vec::new();
    assert_eq!(next_free_port(&reg, &none), PORT_BASE);
}

#[test]
fn register_duplicate_is_rejected() {
    let mut reg = Registry::new();
    let descs = allocate(&reg, 1, &"safe".to_string(), &"0.1.0".to_string());
    let handle = descs[0].service_name.clone();
    register_installed(&mut reg, &descs[0], &handle).unwrap();
    let before = encode_registry(&reg);
    let err = register_installed(&mut reg, &descs[0], &handle).unwrap_err();
    assert_eq!(
        err,
        FleetError::ServiceRegistrationError { service_name: "safenode1".to_string() }
    );
    assert_eq!(encode_registry(&reg), before);
}

#[test]
fn idempotent_start_changes_nothing() {
    let mut reg = Registry::new();
    install_fleet(&mut reg, 1, "safe", "0.1.0");
    apply_start_outcome(&mut reg, 0, &StartOutcome::Confirmed("peer-a".to_string()));
    assert!(!needs_start(&reg, 0));

    let port_before = reg.records[0].rpc_port;
    // A second start of a running instance is a no-op, whatever the
    // outside work would have reported.
    apply_start_outcome(&mut reg, 0, &StartOutcome::Confirmed("peer-b".to_string()));
    assert_eq!(reg.records[0].peer_id.as_deref(), Some("peer-a"));
    assert_eq!(reg.records[0].rpc_port, port_before);
    assert_eq!(reg.records[0].status, InstanceStatus::Running);
}

#[test]
fn failed_start_leaves_record_as_it_was() {
    let mut reg = Registry::new();
    install_fleet(&mut reg, 1, "safe", "0.1.0");
    apply_start_outcome(&mut reg, 0, &StartOutcome::BackendFailed);
    assert_eq!(reg.records[0].status, InstanceStatus::Installed);
    assert_eq!(reg.records[0].peer_id, None);
    apply_start_outcome(&mut reg, 0, &StartOutcome::HealthCheckTimeout);
    assert_eq!(reg.records[0].status, InstanceStatus::Installed);
    assert_eq!(reg.records[0].peer_id, None);
}

#[test]
fn start_outcome_errors_name_the_instance() {
    let name = "safenode7".to_string();
    assert_eq!(outcome_error(&StartOutcome::Confirmed("p".to_string()), &name), None);
    assert_eq!(
        outcome_error(&StartOutcome::BackendFailed, &name),
        Some(FleetError::ServiceStartError { service_name: name.clone() })
    );
    assert_eq!(
        outcome_error(&StartOutcome::HealthCheckTimeout, &name),
        Some(FleetError::HealthCheckTimeout { service_name: name.clone() })
    );
}

#[test]
fn selection_by_name_and_not_found() {
    let mut reg = Registry::new();
    install_fleet(&mut reg, 2, "safe", "0.1.0");
    let before = encode_registry(&reg);

    let sel = validate_selection(Some("safenode2".to_string()), None).unwrap();
    let targets = resolve_targets(&reg, &sel).unwrap();
    assert_eq!(targets, vec![1]);

    let missing = validate_selection(Some("safenode9".to_string()), None).unwrap();
    let err = resolve_targets(&reg, &missing).unwrap_err();
    assert_eq!(err, FleetError::NotFound);
    assert_eq!(encode_registry(&reg), before);
}

#[test]
fn selection_by_peer_id() {
    let mut reg = Registry::new();
    install_fleet(&mut reg, 2, "safe", "0.1.0");
    let peer = libp2p_identity::PeerId::random().to_base58();
    apply_start_outcome(&mut reg, 1, &StartOutcome::Confirmed(peer.clone()));

    let sel = validate_selection(None, Some(peer)).unwrap();
    let targets = resolve_targets(&reg, &sel).unwrap();
    assert_eq!(targets, vec![1]);

    // A never-started instance has no peer id and cannot be targeted.
    let other = libp2p_identity::PeerId::random().to_base58();
    let sel = validate_selection(None, Some(other)).unwrap();
    assert_eq!(resolve_targets(&reg, &sel).unwrap_err(), FleetError::NotFound);
}

#[test]
fn ambiguous_selection_is_rejected() {
    let err = validate_selection(
        Some("safenode1".to_string()),
        Some("12D3KooWRBhwfeP2Y4TCx1SM6s9rUoHhR5STiGwxBhgFRcw3UERE".to_string()),
    )
    .unwrap_err();
    assert_eq!(err, FleetError::AmbiguousSelection);
}

#[test]
fn malformed_peer_id_matches_nothing() {
    let err = validate_selection(None, Some("not-a-peer-id".to_string())).unwrap_err();
    assert_eq!(err, FleetError::NotFound);
}

#[test]
fn canonical_peer_id_validates() {
    let peer = libp2p_identity::PeerId::random().to_base58();
    assert_eq!(node_fleet::canonical_peer_id(&peer), Some(peer.clone()));
    assert_eq!(node_fleet::canonical_peer_id("definitely not one"), None);
    assert_eq!(node_fleet::canonical_peer_id(""), None);
}

#[test]
fn service_names_carry_ordinals() {
    assert_eq!(make_service_name(1), "safenode1");
    assert_eq!(make_service_name(12), "safenode12");
    assert_eq!(make_service_name(105), "safenode105");
}

#[test]
fn retry_budget_is_bounded() {
    assert!(should_retry_health_check(0));
    assert!(should_retry_health_check(HEALTH_CHECK_ATTEMPTS - 1));
    assert!(!should_retry_health_check(HEALTH_CHECK_ATTEMPTS));
}

#[test]
fn install_requires_root() {
    let install = SubCmd::Install { count: Some(1), user: None, version: None };
    let start = SubCmd::Start { peer_id: None, service_name: None };
    assert!(install.requires_root());
    assert!(!start.requires_root());
}

#[test]
fn root_check_follows_effective_uid() {
    assert_eq!(is_running_as_root(), users::get_effective_uid() == 0);
    assert!(node_fleet::is_root_uid(0));
    assert!(!node_fleet::is_root_uid(1000));
}

#[test]
fn install_path_is_fixed() {
    assert_eq!(get_safenode_install_path(), "/usr/local/bin");
}
