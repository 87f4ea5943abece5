use unlim_connector::paths::UnlimPath;
use unlim_connector::status::{
    connector_status, is_connected, preferred_status, status_connected, status_local_port,
    status_mode, PortMapping, StatusValue,
};

fn tcp(port: u64) -> PortMapping {
    PortMapping { proto: Some("tcp".to_string()), local_port: Some(port) }
}

fn value(mode: Option<&str>, mappings: Option<Vec<PortMapping>>) -> StatusValue {
    StatusValue { mode: mode.map(|m| m.to_string()), port_mappings: mappings }
}

#[test]
fn selects_lowest_connected_local_port() {
    let values = vec![
        value(Some("client"), Some(vec![tcp(25571)])),
        value(Some("client"), Some(vec![tcp(25565)])),
    ];
    assert_eq!(status_local_port(preferred_status(&values).unwrap()), Some(25565));
}

#[test]
fn mode_defaults_to_idle() {
    assert_eq!(status_mode(&value(None, None)), "idle");
    assert!(!status_connected(&value(None, None)));
    for m in ["idle", "stopped", "unknown", "unavailable"] {
        assert!(!status_connected(&value(Some(m), None)));
    }
    assert!(status_connected(&value(Some("client"), None)));
    assert!(status_connected(&value(Some(""), None)));
}

#[test]
fn local_port_is_least_tcp_port() {
    let v = value(
        Some("client"),
        Some(vec![
            PortMapping { proto: Some("udp".to_string()), local_port: Some(1) },
            tcp(30000),
            PortMapping { proto: Some("tcp".to_string()), local_port: None },
            tcp(25570),
            PortMapping { proto: None, local_port: Some(2) },
        ]),
    );
    assert_eq!(status_local_port(&v), Some(25570));
    assert_eq!(status_local_port(&value(Some("client"), Some(vec![]))), None);
    assert_eq!(status_local_port(&value(Some("client"), None)), None);
}

#[test]
fn preferred_status_ties_and_fallbacks() {
    let values = vec![
        value(Some("idle"), Some(vec![tcp(1)])),
        value(Some("client"), Some(vec![tcp(25565)])),
        value(Some("host"), Some(vec![tcp(25565)])),
    ];
    assert_eq!(status_mode(preferred_status(&values).unwrap()), "client");
    let idle = vec![value(Some("idle"), None), value(Some("stopped"), Some(vec![tcp(5)]))];
    assert_eq!(status_mode(preferred_status(&idle).unwrap()), "idle");
    assert!(preferred_status(&Vec::new()).is_none());
    let no_port = vec![value(Some("client"), None), value(Some("host"), Some(vec![tcp(9)]))];
    assert_eq!(status_mode(preferred_status(&no_port).unwrap()), "host");
}

#[test]
fn any_connected_instance() {
    assert!(!is_connected(&vec![]));
    assert!(!is_connected(&vec![value(Some("idle"), None)]));
    assert!(is_connected(&vec![value(Some("idle"), None), value(Some("client"), None)]));
}

fn path(parts: &[&str]) -> UnlimPath {
    UnlimPath { parts: parts.iter().map(|p| p.to_string()).collect() }
}

#[test]
fn status_of_connector() {
    let exe = path(&["C:\\AppData", "Woollest SMP Connector", "unlim", "unlim.exe"]);
    let values = vec![
        value(Some("client"), Some(vec![tcp(25580)])),
        value(Some("idle"), None),
    ];
    let s = connector_status(Some(&exe), &values, Some("1.5.82".to_string()), Some(&exe), "0.2.0".to_string());
    assert!(s.installed);
    assert!(s.connected);
    assert_eq!(s.detail, "接続中 (client / 2重起動)");
    assert_eq!(s.local_address, "127.0.0.1:25580");
    assert_eq!(s.unlim_version, Some("1.5.82".to_string()));
    assert!(s.managed_unlim);
    assert_eq!(s.app_version, "0.2.0");

    let one = vec![value(Some("client"), None)];
    let other = path(&["unlim.exe"]);
    let s = connector_status(Some(&other), &one, None, Some(&exe), "0.2.0".to_string());
    assert_eq!(s.detail, "接続中 (client)");
    assert_eq!(s.local_address, "127.0.0.1:25565");
    assert!(!s.managed_unlim);

    let s = connector_status(Some(&other), &vec![value(None, None)], None, None, String::new());
    assert!(!s.connected);
    assert_eq!(s.detail, "未接続");

    let s = connector_status(None, &values, Some("x".to_string()), Some(&exe), String::new());
    assert!(!s.installed);
    assert!(!s.connected);
    assert_eq!(s.detail, "Unlimを準備中");
    assert_eq!(s.local_address, "127.0.0.1:25565");
    assert_eq!(s.unlim_version, None);
    assert!(!s.managed_unlim);
}
