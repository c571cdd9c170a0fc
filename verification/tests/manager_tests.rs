use tunnel_manager::manager::{
    already_running_error, close_outcome, control_args, liveness, open_args, open_outcome,
    open_step, ControlRequest,
};

#[test]
fn ssh_arguments() {
    assert_eq!(
        open_args("/tmp/tunnel-manager-a.sock", "a"),
        vec!["-N", "-f", "-M", "-S", "/tmp/tunnel-manager-a.sock", "-o ExitOnForwardFailure=yes", "a"]
    );
    assert_eq!(
        control_args("/s", ControlRequest::Check, "a"),
        vec!["-S", "/s", "-O", "check", "a"]
    );
    assert_eq!(
        control_args("/s", ControlRequest::Exit, "a"),
        vec!["-S", "/s", "-O", "exit", "a"]
    );
}

#[test]
fn outcome_messages() {
    assert_eq!(already_running_error("a"), "Tunnel a already running");
    assert_eq!(open_outcome("a", true, "x"), Ok(()));
    assert_eq!(
        open_outcome("a", false, "boom"),
        Err("SSH failed to open tunnel [a]:\nboom".to_string())
    );
    let closed = close_outcome("a", true, "");
    assert_eq!(closed.result, Ok(()));
    assert!(closed.remove_socket);
    let failed = close_outcome("a", false, "gone");
    assert_eq!(failed.result, Err("Failed to close tunnel a: gone".to_string()));
    assert!(!failed.remove_socket);
    assert_eq!(open_step(false, "a"), Ok(()));
    assert_eq!(open_step(true, "a"), Err("Tunnel a already running".to_string()));
}

#[test]
fn liveness_verdicts() {
    let v = liveness(true, Some(true));
    assert!(v.active && !v.remove_socket);
    let v = liveness(true, Some(false));
    assert!(!v.active && v.remove_socket);
    let v = liveness(true, None);
    assert!(!v.active && v.remove_socket);
    let v = liveness(false, None);
    assert!(!v.active && !v.remove_socket);
}
