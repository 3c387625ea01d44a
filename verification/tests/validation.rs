//! Tests of configuration validation.

use aeolus::config::{
    is_yaml_file, map_servers, parse_mac, Config, RawServer, DEFAULT_LOG_FILE,
    DEFAULT_NETWORK_INTERFACE,
};

const HOST: [u8; 6] = [0x02, 0x00, 0x00, 0x00, 0x00, 0x01];

fn raw(mac: &str, ip: u32) -> RawServer {
    RawServer { mac: mac.as_bytes().to_vec(), ip }
}

#[test]
fn parse_mac_accepts_six_pairs() {
    let mac = parse_mac(&b"52:54:00:94:df:10".to_vec());
    assert_eq!(mac, Some([0x52, 0x54, 0x00, 0x94, 0xdf, 0x10]));
}

#[test]
fn parse_mac_accepts_upper_case_and_single_digits() {
    assert_eq!(
        parse_mac(&b"AB:cd:EF:01:2:f".to_vec()),
        Some([0xab, 0xcd, 0xef, 0x01, 0x02, 0x0f])
    );
    assert_eq!(parse_mac(&b"0:0:0:0:0:0".to_vec()), Some([0u8; 6]));
}

#[test]
fn parse_mac_rejects_wrong_shapes() {
    // Five pairs only.
    assert_eq!(parse_mac(&b"52:54:00:94:df".to_vec()), None);
    // Seven pairs.
    assert_eq!(parse_mac(&b"52:54:00:94:df:10:11".to_vec()), None);
    // Non-hexadecimal digits.
    assert_eq!(parse_mac(&b"zz:54:00:94:df:10".to_vec()), None);
    // A three-digit group.
    assert_eq!(parse_mac(&b"525:4:00:94:df:10".to_vec()), None);
    // Empty groups and empty text.
    assert_eq!(parse_mac(&b"52::00:94:df:10".to_vec()), None);
    assert_eq!(parse_mac(&b"".to_vec()), None);
    // Trailing colon.
    assert_eq!(parse_mac(&b"52:54:00:94:df:10:".to_vec()), None);
}

#[test]
fn map_servers_builds_healthy_servers() {
    let servers = map_servers(&vec![raw("52:54:00:94:df:10", 7), raw("1:2:3:4:5:6", 9)]).unwrap();
    assert_eq!(servers.len(), 2);
    assert_eq!(servers[0].get_mac_address(), [0x52, 0x54, 0x00, 0x94, 0xdf, 0x10]);
    assert_eq!(servers[0].get_ip_address(), 7);
    assert!(servers[0].is_healthy());
    assert_eq!(servers[1].get_mac_address(), [1, 2, 3, 4, 5, 6]);
}

#[test]
fn malformed_mac_rejects_configuration() {
    // The five-pair MAC makes startup fail with the exact diagnostic.
    let err = map_servers(&vec![raw("52:54:00:94:df", 7)]).unwrap_err();
    assert_eq!(err.description, "Invalid MAC address.");

    let err = Config::parse(None, vec![raw("52:54:00:94:df", 7)], None, None, HOST).unwrap_err();
    assert_eq!(err.description, "Invalid MAC address.");
}

#[test]
fn config_defaults() {
    let config = Config::parse(None, vec![raw("1:2:3:4:5:6", 9)], None, None, HOST).unwrap();
    assert_eq!(config.ports, vec![80]);
    assert_eq!(config.log_file, DEFAULT_LOG_FILE);
    assert_eq!(config.iface, DEFAULT_NETWORK_INTERFACE);
    assert_eq!(config.host_mac_address, HOST);
    assert_eq!(config.servers.len(), 1);
}

#[test]
fn config_explicit_values_kept() {
    let config = Config::parse(
        Some(vec![8080, 443]),
        vec![raw("1:2:3:4:5:6", 9)],
        Some("/tmp/lb.log".to_string()),
        Some("eth0".to_string()),
        HOST,
    )
    .unwrap();
    assert_eq!(config.ports, vec![8080, 443]);
    assert_eq!(config.log_file, "/tmp/lb.log");
    assert_eq!(config.iface, "eth0");
}

#[test]
fn yaml_extension_check() {
    assert!(is_yaml_file(&b"aeolus.yaml".to_vec()));
    assert!(is_yaml_file(&b"aeolus.yml".to_vec()));
    assert!(is_yaml_file(&b"AEOLUS.YAML".to_vec()));
    assert!(is_yaml_file(&b"config.YmL".to_vec()));
    assert!(!is_yaml_file(&b"aeolus.json".to_vec()));
    assert!(!is_yaml_file(&b"aeolus.yaml.bak".to_vec()));
    assert!(!is_yaml_file(&b"yaml".to_vec()));
    assert!(!is_yaml_file(&b"".to_vec()));
    assert!(!is_yaml_file(&b".ym".to_vec()));
    assert!(is_yaml_file(&b".yml".to_vec()));
}
