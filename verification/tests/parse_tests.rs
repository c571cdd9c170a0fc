use tunnel_manager::config::{ConfigParser, Directive, LineCaptures};
use tunnel_manager::tunnel::Tunnel;

#[test]
fn every_parsed_tunnel_has_a_forward() {
    let content = "Host a\n  User x\nHost b\n  RemoteForward 9 h\nHost c\n  LocalForward 1 h:2\nHost d\n";
    let tunnels = Tunnel::parse_content(content);
    let names: Vec<&str> = tunnels.iter().map(|t| t.name.as_str()).collect();
    assert_eq!(names, vec!["b", "c"]);
    for t in &tunnels {
        assert!(t.local_port.is_some() || t.remote_forward.is_some());
    }
}

#[test]
fn settings_before_the_first_host_are_dropped() {
    let content = "User root\nLocalForward 1 h:2\nHost a\n  Port 2222\n";
    assert!(Tunnel::parse_content(content).is_empty());
}

#[test]
fn later_settings_replace_earlier_ones() {
    let content = "Host a\n LocalForward 1 h:2\n LocalForward 3 k:4\n Port 22\n Port 70000\n";
    let tunnels = Tunnel::parse_content(content);
    assert_eq!(tunnels.len(), 1);
    assert_eq!(tunnels[0].local_port, Some(3));
    assert_eq!(tunnels[0].remote_forward, Some("k".to_string()));
    assert_eq!(tunnels[0].remote_port, Some(4));
    assert_eq!(tunnels[0].port, None);
}

#[test]
fn non_digit_port_line_is_ignored() {
    let content = "Host a\n LocalForward 1 h:2\n Port 22\n Port abc\n";
    let tunnels = Tunnel::parse_content(content);
    assert_eq!(tunnels[0].port, Some(22));
}

#[test]
fn crlf_tabs_and_padding() {
    let content = "Host\t  spaced-name  \r\n\tLocalForward   127.0.0.1:8080 remote:80  \r\n\tIdentitiesOnly  YeS\r\n";
    let tunnels = Tunnel::parse_content(content);
    assert_eq!(tunnels.len(), 1);
    assert_eq!(tunnels[0].name, "spaced-name");
    assert_eq!(tunnels[0].local_port, Some(8080));
    assert_eq!(tunnels[0].remote_port, Some(80));
    assert!(tunnels[0].identities_only);
}

#[test]
fn identities_only_other_values_are_false() {
    for v in ["no", "yess", "y", "true"] {
        let content = format!("Host a\n LocalForward 1 h:2\n IdentitiesOnly {}\n", v);
        assert!(!Tunnel::parse_content(&content)[0].identities_only);
    }
}

#[test]
fn content_without_trailing_newline() {
    let tunnels = Tunnel::parse_content("Host a\nLocalForward 1 h:2");
    assert_eq!(tunnels.len(), 1);
    assert_eq!(tunnels[0].name, "a");
}

#[test]
fn captures_decide_in_keyword_order() {
    let caps = LineCaptures {
        host: None,
        user: Some(" bob ".to_string()),
        hostname: Some("ignored".to_string()),
        port: None,
        identity_file: None,
        identities_only: None,
        forward: None,
    };
    assert!(matches!(caps.directive(), Directive::User(u) if u == "bob"));
    let caps = LineCaptures {
        host: None,
        user: None,
        hostname: None,
        port: Some("99999".to_string()),
        identity_file: None,
        identities_only: None,
        forward: Some("1 h:2".to_string()),
    };
    assert!(matches!(caps.directive(), Directive::Port(None)));
    let caps = LineCaptures {
        host: None,
        user: None,
        hostname: None,
        port: None,
        identity_file: None,
        identities_only: None,
        forward: Some(" 5 h:6 ".to_string()),
    };
    assert!(matches!(caps.directive(), Directive::Forward(Some(5), Some(h), Some(6)) if h == "h"));
}

#[test]
fn parser_closes_sections_on_host() {
    let mut p = ConfigParser::new();
    p.apply(Directive::Host("a".to_string()));
    p.apply(Directive::Forward(Some(1), Some("h".to_string()), Some(2)));
    p.apply(Directive::Host("b".to_string()));
    p.apply(Directive::User("u".to_string()));
    p.apply(Directive::Ignored);
    let tunnels = p.finish();
    assert_eq!(tunnels.len(), 1);
    assert_eq!(tunnels[0].name, "a");
    assert_eq!(tunnels[0].user, None);
}
