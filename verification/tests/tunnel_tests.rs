use std::path::PathBuf;
use tunnel_manager::tunnel::Tunnel;

fn make_tunnel(name: &str) -> Tunnel {
    Tunnel {
        name: name.to_string(),
        local_port: None,
        remote_forward: None,
        remote_port: None,
        user: None,
        hostname: None,
        port: None,
        identity_file: None,
        identities_only: false,
    }
}

// --- socket_path ---

#[test]
fn test_socket_path_format() {
    let t = make_tunnel("my-tunnel");
    let p = t.socket_path();
    assert_eq!(PathBuf::from(p), PathBuf::from("/tmp/tunnel-manager-my-tunnel.sock"));
}

// --- parse_forward ---

#[test]
fn test_parse_forward_basic() {
    let (lp, rf, rp) = Tunnel::parse_forward("8080 remote-host:80");
    assert_eq!(lp, Some(8080));
    assert_eq!(rf, Some("remote-host".to_string()));
    assert_eq!(rp, Some(80));
}

#[test]
fn test_parse_forward_with_bind_addr() {
    let (lp, rf, rp) = Tunnel::parse_forward("127.0.0.1:8080 remote-host:80");
    assert_eq!(lp, Some(8080));
    assert_eq!(rf, Some("remote-host".to_string()));
    assert_eq!(rp, Some(80));
}

#[test]
fn test_parse_forward_ip_remote() {
    let (lp, rf, rp) = Tunnel::parse_forward("9000 192.168.1.100:443");
    assert_eq!(lp, Some(9000));
    assert_eq!(rf, Some("192.168.1.100".to_string()));
    assert_eq!(rp, Some(443));
}

#[test]
fn test_parse_forward_remote_no_port() {
    let (lp, rf, rp) = Tunnel::parse_forward("8080 remote-host");
    assert_eq!(lp, Some(8080));
    assert_eq!(rf, Some("remote-host".to_string()));
    assert_eq!(rp, None);
}

#[test]
fn test_parse_forward_single_part() {
    let (lp, rf, rp) = Tunnel::parse_forward("8080");
    assert_eq!(lp, None);
    assert_eq!(rf, None);
    assert_eq!(rp, None);
}

#[test]
fn test_parse_forward_empty() {
    let (lp, rf, rp) = Tunnel::parse_forward("");
    assert_eq!(lp, None);
    assert_eq!(rf, None);
    assert_eq!(rp, None);
}

// --- display_info ---

#[test]
fn test_display_info_all_fields() {
    let t = Tunnel {
        name: "test".to_string(),
        local_port: Some(8080),
        remote_forward: Some("remote-host".to_string()),
        remote_port: Some(80),
        user: Some("alice".to_string()),
        hostname: Some("example.com".to_string()),
        port: Some(22),
        identity_file: Some("~/.ssh/id_rsa".to_string()),
        identities_only: true,
    };
    let info = t.display_info();
    assert!(info.contains("Local Port : 8080"));
    assert!(info.contains("Remote Host: remote-host"));
    assert!(info.contains("Remote Port: 80"));
    assert!(info.contains("User       : alice"));
    assert!(info.contains("Hostname   : example.com"));
    assert!(info.contains("SSH Port   : 22"));
    assert!(info.contains("IdentFile  : ~/.ssh/id_rsa"));
    assert!(info.contains("Ident. Only: yes"));
}

#[test]
fn test_display_info_none_fields_show_dash() {
    let t = make_tunnel("test");
    let info = t.display_info();
    assert!(info.contains("Local Port : -"));
    assert!(info.contains("Remote Host: -"));
    assert!(info.contains("Remote Port: -"));
    assert!(info.contains("User       : -"));
    assert!(info.contains("Hostname   : -"));
    assert!(info.contains("SSH Port   : -"));
    assert!(info.contains("IdentFile  : -"));
    assert!(info.contains("Ident. Only: no"));
}

#[test]
fn test_display_info_identities_only_false() {
    let mut t = make_tunnel("test");
    t.identities_only = false;
    assert!(t.display_info().contains("Ident. Only: no"));
}
