use tunnel_manager::decimal::u16_to_string;
use tunnel_manager::tunnel::{tunnel_name_from_socket_file, Tunnel};
use tunnel_manager::TunnelManager;

#[test]
fn forward_roundtrip_without_bind() {
    for (lp, host, rp) in [(0u16, "a", 0u16), (65535, "remote host", 1), (22, "x:y", 443)] {
        let text = format!("{} {}:{}", lp, host, rp);
        assert_eq!(
            Tunnel::parse_forward(&text),
            (Some(lp), Some(host.to_string()), Some(rp))
        );
    }
}

#[test]
fn forward_roundtrip_with_bind() {
    let text = format!("{}:{} {}:{}", "::1", 7000, "db.internal", 5432);
    assert_eq!(
        Tunnel::parse_forward(&text),
        (Some(7000), Some("db.internal".to_string()), Some(5432))
    );
}

#[test]
fn forward_port_text_follows_u16_parsing() {
    assert_eq!(Tunnel::parse_forward("+80 h:+81"), (Some(80), Some("h".to_string()), Some(81)));
    assert_eq!(Tunnel::parse_forward("0080 h:00"), (Some(80), Some("h".to_string()), Some(0)));
    assert_eq!(Tunnel::parse_forward("65536 h:1"), (None, Some("h".to_string()), Some(1)));
    assert_eq!(Tunnel::parse_forward("-1 h:"), (None, Some("h".to_string()), None));
    assert_eq!(Tunnel::parse_forward("+ h:x"), (None, Some("h".to_string()), None));
    assert_eq!(Tunnel::parse_forward("８０ h:1"), (None, Some("h".to_string()), Some(1)));
}

#[test]
fn forward_splits_at_first_space_and_last_colon() {
    assert_eq!(
        Tunnel::parse_forward(" remote:80"),
        (None, Some("remote".to_string()), Some(80))
    );
    assert_eq!(
        Tunnel::parse_forward("1 a b:c:9"),
        (Some(1), Some("a b:c".to_string()), Some(9))
    );
    assert_eq!(Tunnel::parse_forward("a:b:12 "), (Some(12), Some(String::new()), None));
}

#[test]
fn decimal_text_of_ports() {
    assert_eq!(u16_to_string(0), "0");
    assert_eq!(u16_to_string(7), "7");
    assert_eq!(u16_to_string(10), "10");
    assert_eq!(u16_to_string(65535), "65535");
}

#[test]
fn socket_names_roundtrip() {
    for name in ["my-tunnel", "a", "tunnel-manager-x.sock"] {
        let path = TunnelManager::socket_path(name);
        let file = path.strip_prefix("/tmp/").unwrap();
        assert_eq!(tunnel_name_from_socket_file(file), Some(name.to_string()));
    }
}

#[test]
fn socket_file_names_that_are_not_tunnels() {
    assert_eq!(tunnel_name_from_socket_file("tunnel-manager-.sock"), None);
    assert_eq!(tunnel_name_from_socket_file("tunnel-manager-x"), None);
    assert_eq!(tunnel_name_from_socket_file("other-x.sock"), None);
    assert_eq!(tunnel_name_from_socket_file(""), None);
}

#[test]
fn manager_and_tunnel_agree_on_socket_path() {
    let t = Tunnel {
        name: "web".to_string(),
        local_port: None,
        remote_forward: None,
        remote_port: None,
        user: None,
        hostname: None,
        port: None,
        identity_file: None,
        identities_only: false,
    };
    assert_eq!(t.socket_path(), TunnelManager::socket_path("web"));
    assert_eq!(TunnelManager::socket_path("web"), "/tmp/tunnel-manager-web.sock");
}

#[test]
fn display_info_exact_text() {
    let t = Tunnel {
        name: "t".to_string(),
        local_port: Some(1),
        remote_forward: None,
        remote_port: Some(65535),
        user: Some("u".to_string()),
        hostname: None,
        port: None,
        identity_file: Some("k".to_string()),
        identities_only: true,
    };
    assert_eq!(
        t.display_info(),
        "Local Port : 1\nRemote Host: -\nRemote Port: 65535\nUser       : u\nHostname   : -\nSSH Port   : -\nIdentFile  : k\nIdent. Only: yes"
    );
}
