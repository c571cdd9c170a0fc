use tunnel_manager::tui::{Key, TuiAction};
use tunnel_manager::{TuiState, Tunnel, TunnelInfo};

fn tunnel(name: &str, lp: Option<u16>) -> Tunnel {
    Tunnel {
        name: name.to_string(),
        local_port: lp,
        remote_forward: Some("r".to_string()),
        remote_port: Some(80),
        user: None,
        hostname: Some("h".to_string()),
        port: Some(22),
        identity_file: None,
        identities_only: false,
    }
}

fn state(n: usize) -> TuiState {
    let active = vec!["t1".to_string()];
    let infos = (0..n)
        .map(|i| TunnelInfo::new(tunnel(&format!("t{}", i), Some(8000 + i as u16)), &active))
        .collect();
    TuiState::new(infos)
}

#[test]
fn tunnel_info_from_tunnel() {
    let active = vec!["x".to_string(), "y".to_string()];
    let info = TunnelInfo::new(tunnel("y", None), &active);
    assert!(info.active);
    assert_eq!(info.local_port, 0);
    let info = TunnelInfo::new(tunnel("z", Some(9)), &active);
    assert!(!info.active);
    assert_eq!(info.local_port, 9);
}

#[test]
fn navigation_stays_in_the_list() {
    let mut s = state(3);
    assert_eq!(s.handle_key(Key::Up), TuiAction::Stay);
    assert_eq!(s.selected, 0);
    s.handle_key(Key::Down);
    s.handle_key(Key::Down);
    s.handle_key(Key::Down);
    assert_eq!(s.selected, 2);
    s.handle_key(Key::Up);
    assert_eq!(s.selected, 1);
    s.handle_key(Key::Down);
    s.handle_key(Key::Up);
    assert_eq!(s.selected, 1);
}

#[test]
fn open_and_close_flow() {
    let mut s = state(3);
    // t0 is inactive: 'c' refuses, 'o' asks to open it.
    assert_eq!(s.handle_key(Key::Char('c')), TuiAction::Stay);
    assert_eq!(s.status_msg, "Tunnel 't0' not active");
    assert_eq!(s.handle_key(Key::Char('o')), TuiAction::Open(0));
    s.finish_open(0, Err("no route".to_string()));
    assert_eq!(s.status_msg, "Failed to open 't0': no route");
    assert!(!s.tunnels[0].active);
    s.finish_open(0, Ok(()));
    assert!(s.tunnels[0].active);
    assert_eq!(s.status_msg, "Opened tunnel 't0'");
    assert_eq!(s.handle_key(Key::Char('o')), TuiAction::Stay);
    assert_eq!(s.status_msg, "Tunnel 't0' already active");
    assert_eq!(s.handle_key(Key::Char('c')), TuiAction::Close(0));
    s.finish_close(0, Err("busy".to_string()));
    assert_eq!(s.status_msg, "Failed to close 't0': busy");
    s.finish_close(0, Ok(()));
    assert!(!s.tunnels[0].active);
    assert_eq!(s.status_msg, "Closed tunnel 't0'");
    assert_eq!(s.handle_key(Key::Char('x')), TuiAction::Stay);
    assert!(!s.quit);
    assert_eq!(s.handle_key(Key::Char('q')), TuiAction::Stay);
    assert!(s.quit);
}

#[test]
fn scrolling_keeps_selection_visible() {
    let mut s = state(10);
    assert_eq!(s.scroll_window(3), (0, 3));
    for _ in 0..5 {
        s.handle_key(Key::Down);
    }
    assert_eq!(s.scroll_window(3), (3, 6));
    for _ in 0..4 {
        s.handle_key(Key::Up);
    }
    assert_eq!(s.scroll_window(3), (1, 4));
    assert_eq!(s.scroll_window(100), (1, 10));
    assert_eq!(s.scroll_window(0), (2, 2));
}

#[test]
fn texts() {
    let mut s = state(2);
    assert_eq!(s.item_text(0), "> ○ t0");
    assert_eq!(s.item_text(1), "● t1");
    assert_eq!(s.status_text(), "[Future features here]");
    assert_eq!(
        s.details_text(),
        "Status: INACTIVE\nRemote: r\nLocal: 8000\nUser: -\nHost: h\nPort: 22\nIdentityFile: -"
    );
    s.handle_key(Key::Down);
    assert_eq!(s.item_text(1), "> ● t1");
    assert!(s.details_text().starts_with("Status: ACTIVE\n"));
    s.handle_key(Key::Char('o'));
    assert_eq!(s.status_text(), "Tunnel 't1' already active");
}
