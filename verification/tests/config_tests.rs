use tunnel_manager::tunnel::Tunnel;

// --- parse_content ---

#[test]
fn test_parse_content_full_tunnel() {
    let content = "\
Host my-tunnel
    LocalForward 8080 remote-host:80
    User alice
    HostName example.com
    Port 22
    IdentityFile ~/.ssh/id_rsa
    IdentitiesOnly yes
";
    let tunnels = Tunnel::parse_content(content);
    assert_eq!(tunnels.len(), 1);
    let t = &tunnels[0];
    assert_eq!(t.name, "my-tunnel");
    assert_eq!(t.local_port, Some(8080));
    assert_eq!(t.remote_forward, Some("remote-host".to_string()));
    assert_eq!(t.remote_port, Some(80));
    assert_eq!(t.user, Some("alice".to_string()));
    assert_eq!(t.hostname, Some("example.com".to_string()));
    assert_eq!(t.port, Some(22));
    assert_eq!(t.identity_file, Some("~/.ssh/id_rsa".to_string()));
    assert!(t.identities_only);
}

#[test]
fn test_parse_content_multiple_tunnels() {
    let content = "\
Host tunnel-a
    LocalForward 8080 host-a:80

Host tunnel-b
    LocalForward 9090 host-b:443
";
    let tunnels = Tunnel::parse_content(content);
    assert_eq!(tunnels.len(), 2);
    assert_eq!(tunnels[0].name, "tunnel-a");
    assert_eq!(tunnels[0].local_port, Some(8080));
    assert_eq!(tunnels[1].name, "tunnel-b");
    assert_eq!(tunnels[1].local_port, Some(9090));
}

#[test]
fn test_parse_content_host_without_forward_skipped() {
    let content = "\
Host plain-host
    HostName example.com
    User bob

Host tunnel-host
    LocalForward 8080 remote:80
";
    let tunnels = Tunnel::parse_content(content);
    assert_eq!(tunnels.len(), 1);
    assert_eq!(tunnels[0].name, "tunnel-host");
}

#[test]
fn test_parse_content_remote_forward() {
    let content = "\
Host my-tunnel
    RemoteForward 8080 localhost:80
";
    let tunnels = Tunnel::parse_content(content);
    assert_eq!(tunnels.len(), 1);
    assert_eq!(tunnels[0].local_port, Some(8080));
    assert_eq!(tunnels[0].remote_forward, Some("localhost".to_string()));
    assert_eq!(tunnels[0].remote_port, Some(80));
}

#[test]
fn test_parse_content_identities_only_no() {
    let content = "\
Host my-tunnel
    LocalForward 8080 remote:80
    IdentitiesOnly no
";
    let tunnels = Tunnel::parse_content(content);
    assert_eq!(tunnels.len(), 1);
    assert!(!tunnels[0].identities_only);
}

#[test]
fn test_parse_content_case_insensitive_keys() {
    let content = "\
HOST ci-tunnel
    LOCALFORWARD 8080 remote:80
    USER alice
    HOSTNAME example.com
    PORT 22
    IDENTITYFILE ~/.ssh/id_rsa
    IDENTITIESONLY YES
";
    let tunnels = Tunnel::parse_content(content);
    assert_eq!(tunnels.len(), 1);
    let t = &tunnels[0];
    assert_eq!(t.user, Some("alice".to_string()));
    assert_eq!(t.hostname, Some("example.com".to_string()));
    assert_eq!(t.port, Some(22));
    assert!(t.identities_only);
}

#[test]
fn test_parse_content_comments_and_blank_lines_ignored() {
    let content = "\
# This is a comment
Host my-tunnel

    # another comment
    LocalForward 8080 remote:80
";
    let tunnels = Tunnel::parse_content(content);
    assert_eq!(tunnels.len(), 1);
    assert_eq!(tunnels[0].local_port, Some(8080));
}

#[test]
fn test_parse_content_bind_address_in_local_forward() {
    let content = "\
Host my-tunnel
    LocalForward 127.0.0.1:8080 remote:80
";
    let tunnels = Tunnel::parse_content(content);
    assert_eq!(tunnels.len(), 1);
    assert_eq!(tunnels[0].local_port, Some(8080));
}

#[test]
fn test_parse_content_empty() {
    let tunnels = Tunnel::parse_content("");
    assert!(tunnels.is_empty());
}
