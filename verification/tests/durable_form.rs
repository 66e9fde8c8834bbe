//! The durable registry form: round trips and corruption handling.

use node_fleet::decode_registry;
use node_fleet::encode_registry;
use node_fleet::FleetError;
use node_fleet::InstanceRecord;
use node_fleet::InstanceStatus;
use node_fleet::Registry;

fn record(name: &str, port: u16, peer: Option<&str>, status: InstanceStatus) -> InstanceRecord {
    InstanceRecord {
        service_name: name.to_string(),
        peer_id: peer.map(|p| p.to_string()),
        rpc_port: port,
        version: "0.83.1".to_string(),
        user: "safe".to_string(),
        binary_path: format!("/var/safenode-manager/services/{name}/safenode"),
        data_dir_path: format!("/var/safenode-manager/services/{name}"),
        log_dir_path: format!("/var/log/safenode/{name}"),
        status,
        service_backend_handle: name.to_string(),
    }
}

fn assert_records_equal(a: &InstanceRecord, b: &InstanceRecord) {
    assert_eq!(a.service_name, b.service_name);
    assert_eq!(a.peer_id, b.peer_id);
    assert_eq!(a.rpc_port, b.rpc_port);
    assert_eq!(a.version, b.version);
    assert_eq!(a.user, b.user);
    assert_eq!(a.binary_path, b.binary_path);
    assert_eq!(a.data_dir_path, b.data_dir_path);
    assert_eq!(a.log_dir_path, b.log_dir_path);
    assert_eq!(a.status, b.status);
    assert_eq!(a.service_backend_handle, b.service_backend_handle);
}

#[test]
fn round_trip_preserves_every_field() {
    let reg = Registry {
        records: vec![
            record("safenode1", 8080, None, InstanceStatus::Installed),
            record(
                "safenode2",
                8081,
                Some("12D3KooWRBhwfeP2Y4TCx1SM6s9rUoHhR5STiGwxBhgFRcw3UERE"),
                InstanceStatus::Running,
            ),
            record("safenode3", 8082, Some("peer"), InstanceStatus::Stopped),
        ],
    };
    let text = encode_registry(&reg);
    let reloaded = decode_registry(&text).unwrap();
    assert_eq!(reloaded.records.len(), reg.records.len());
    for (a, b) in reg.records.iter().zip(reloaded.records.iter()) {
        assert_records_equal(a, b);
    }
}

#[test]
fn round_trip_of_empty_registry() {
    let reg = Registry::new();
    let reloaded = decode_registry(&encode_registry(&reg)).unwrap();
    assert_eq!(reloaded.records.len(), 0);
}

#[test]
fn round_trip_keeps_insertion_order() {
    let reg = Registry {
        records: vec![
            record("zeta", 9000, None, InstanceStatus::Added),
            record("alpha", 8500, None, InstanceStatus::Removed),
        ],
    };
    let reloaded = decode_registry(&encode_registry(&reg)).unwrap();
    assert_eq!(reloaded.records[0].service_name, "zeta");
    assert_eq!(reloaded.records[1].service_name, "alpha");
}

#[test]
fn garbage_is_corrupt() {
    assert_eq!(decode_registry("garbage").unwrap_err(), FleetError::CorruptRegistry);
    assert_eq!(decode_registry("").unwrap_err(), FleetError::CorruptRegistry);
}

#[test]
fn truncated_text_is_corrupt() {
    let reg = Registry { records: vec![record("safenode1", 8080, None, InstanceStatus::Installed)] };
    let text = encode_registry(&reg);
    let truncated = &text[..text.len() - 3];
    assert_eq!(decode_registry(truncated).unwrap_err(), FleetError::CorruptRegistry);
}

#[test]
fn trailing_text_is_corrupt() {
    let reg = Registry::new();
    let mut text = encode_registry(&reg);
    text.push('x');
    assert_eq!(decode_registry(&text).unwrap_err(), FleetError::CorruptRegistry);
}

#[test]
fn duplicate_ports_are_corrupt() {
    let reg = Registry {
        records: vec![
            record("safenode1", 8080, None, InstanceStatus::Installed),
            record("safenode2", 8080, None, InstanceStatus::Installed),
        ],
    };
    assert_eq!(decode_registry(&encode_registry(&reg)).unwrap_err(), FleetError::CorruptRegistry);
}

#[test]
fn duplicate_names_are_corrupt() {
    let reg = Registry {
        records: vec![
            record("safenode1", 8080, None, InstanceStatus::Installed),
            record("safenode1", 8081, None, InstanceStatus::Installed),
        ],
    };
    assert_eq!(decode_registry(&encode_registry(&reg)).unwrap_err(), FleetError::CorruptRegistry);
}

#[test]
fn number_fields_are_fixed_width() {
    // An empty registry is one count field: twenty zero digits.
    let text = encode_registry(&Registry::new());
    assert_eq!(text, "0".repeat(20));
}
