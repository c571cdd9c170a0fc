//! The decisions around the `ssh` control-master processes that keep tunnels
//! open: which arguments `ssh` gets, and what its exit status means.
//! Running `ssh` and touching the socket files is left to the caller.
use vstd::prelude::*;
use crate::tunnel::{spec_socket_path, socket_path_for};

verus! {

/// Manages tunnels by name.
pub struct TunnelManager;

impl TunnelManager {
    /// A manager.
    pub fn new() -> (res: Self)
        ensures
            res == TunnelManager,
    {
        TunnelManager
    }

    /// The path of the control socket of the tunnel called `name`.
    pub fn socket_path(name: &str) -> (res: String)
        ensures
            res@ == spec_socket_path(name@),
    {
        socket_path_for(name)
    }
}

/// A request sent to a running control master with `ssh -O`.
#[derive(Clone, Copy, Debug, PartialEq, Eq, Structural)]
pub enum ControlRequest {
    /// Ask whether the master is running.
    Check,
    /// Ask the master to exit.
    Exit,
}

/// The word `ssh -O` takes for a request.
pub open spec fn request_word(r: ControlRequest) -> Seq<char> {
    match r {
        ControlRequest::Check => "check"@,
        ControlRequest::Exit => "exit"@,
    }
}

/// The character sequences of a list of strings.
pub open spec fn string_views(v: Seq<String>) -> Seq<Seq<char>> {
    v.map_values(|s: String| s@)
}

/// `s` as a new `String`.
fn owned(s: &str) -> (res: String)
    ensures
        res@ == s@,
{
    s.to_owned()
}

/// The arguments of the `ssh` that opens a tunnel in the background as a
/// control master on `socket`, failing if a forward cannot be set up:
/// `-N -f -M -S <socket> "-o ExitOnForwardFailure=yes" <name>`.
pub fn open_args(socket: &str, name: &str) -> (res: Vec<String>)
    ensures
        string_views(res@) == seq![
            "-N"@,
            "-f"@,
            "-M"@,
            "-S"@,
            socket@,
            "-o ExitOnForwardFailure=yes"@,
            name@,
        ],
{
    let mut v: Vec<String> = Vec::new();
    v.push(owned("-N"));
    v.push(owned("-f"));
    v.push(owned("-M"));
    v.push(owned("-S"));
    v.push(owned(socket));
    v.push(owned("-o ExitOnForwardFailure=yes"));
    v.push(owned(name));
    assert(string_views(v@) =~= seq![
        "-N"@,
        "-f"@,
        "-M"@,
        "-S"@,
        socket@,
        "-o ExitOnForwardFailure=yes"@,
        name@,
    ]);
    v
}

/// The arguments of the `ssh` that sends `request` to the control master on
/// `socket`: `-S <socket> -O <check|exit> <name>`.
pub fn control_args(socket: &str, request: ControlRequest, name: &str) -> (res: Vec<String>)
    ensures
        string_views(res@) == seq!["-S"@, socket@, "-O"@, request_word(request), name@],
{
    let mut v: Vec<String> = Vec::new();
    v.push(owned("-S"));
    v.push(owned(socket));
    v.push(owned("-O"));
    match request {
        ControlRequest::Check => v.push(owned("check")),
        ControlRequest::Exit => v.push(owned("exit")),
    }
    v.push(owned(name));
    assert(string_views(v@) =~= seq!["-S"@, socket@, "-O"@, request_word(request), name@]);
    v
}

/// The error when asked to open a tunnel that is already running.
pub open spec fn spec_already_running(name: Seq<char>) -> Seq<char> {
    "Tunnel "@ + name + " already running"@
}

/// `Tunnel <name> already running`.
pub fn already_running_error(name: &str) -> (res: String)
    ensures
        res@ == spec_already_running(name@),
{
    let mut out = String::new();
    out.append("Tunnel ");
    out.append(name);
    out.append(" already running");
    assert(out@ =~= spec_already_running(name@));
    out
}

/// The error when `ssh` could not open a tunnel.
pub open spec fn spec_open_failed(name: Seq<char>, stderr: Seq<char>) -> Seq<char> {
    "SSH failed to open tunnel ["@ + name + "]:\n"@ + stderr
}

/// The error when `ssh` could not close a tunnel.
pub open spec fn spec_close_failed(name: Seq<char>, stderr: Seq<char>) -> Seq<char> {
    "Failed to close tunnel "@ + name + ": "@ + stderr
}

/// The outcome of opening the tunnel `name`, from whether `ssh` exited
/// successfully and what it wrote to its standard error.
pub fn open_outcome(name: &str, succeeded: bool, stderr: &str) -> (res: Result<(), String>)
    ensures
        succeeded ==> res is Ok,
        !succeeded ==> (res matches Err(e) && e@ == spec_open_failed(name@, stderr@)),
{
    if succeeded {
        Ok(())
    } else {
        let mut out = String::new();
        out.append("SSH failed to open tunnel [");
        out.append(name);
        out.append("]:\n");
        out.append(stderr);
        assert(out@ =~= spec_open_failed(name@, stderr@));
        Err(out)
    }
}

/// What closing a tunnel decides: its result, and whether the socket file
/// is to be removed.
pub struct CloseOutcome {
    pub result: Result<(), String>,
    /// The control master exited, so its socket file is to be removed.
    pub remove_socket: bool,
}

/// The outcome of closing the tunnel `name`, from whether `ssh -O exit`
/// exited successfully and what it wrote to its standard error: on success
/// the socket file is removed.
pub fn close_outcome(name: &str, succeeded: bool, stderr: &str) -> (res: CloseOutcome)
    ensures
        succeeded ==> res.result is Ok,
        !succeeded ==> (res.result matches Err(e) && e@ == spec_close_failed(name@, stderr@)),
        res.remove_socket == succeeded,
{
    if succeeded {
        CloseOutcome { result: Ok(()), remove_socket: true }
    } else {
        let mut out = String::new();
        out.append("Failed to close tunnel ");
        out.append(name);
        out.append(": ");
        out.append(stderr);
        assert(out@ =~= spec_close_failed(name@, stderr@));
        CloseOutcome { result: Err(out), remove_socket: false }
    }
}

/// Whether opening the tunnel `name` may go on to run `ssh`: it may not
/// when the tunnel is already active, and the error says so.
pub fn open_step(active: bool, name: &str) -> (res: Result<(), String>)
    ensures
        !active ==> res is Ok,
        active ==> (res matches Err(e) && e@ == spec_already_running(name@)),
{
    if active {
        Err(already_running_error(name))
    } else {
        Ok(())
    }
}

/// What a liveness check decides.
#[derive(Clone, Copy, Debug, PartialEq, Eq, Structural)]
pub struct CheckVerdict {
    /// The tunnel is running.
    pub active: bool,
    /// The socket file is stale and should be removed.
    pub remove_socket: bool,
}

/// Whether a tunnel is running, from whether its socket file exists and,
/// when it does, the outcome of `ssh -O check` on it (`Some` of the exit
/// status's success, or `None` when `ssh` could not be run; with no socket
/// file `ssh` is not run). The tunnel is active only when the socket exists
/// and the check succeeded; an existing socket whose check failed is stale
/// and is to be removed.
pub fn liveness(socket_exists: bool, check: Option<bool>) -> (res: CheckVerdict)
    ensures
        res.active == (socket_exists && check == Some(true)),
        res.remove_socket == (socket_exists && !res.active),
{
    if !socket_exists {
        return CheckVerdict { active: false, remove_socket: false };
    }
    match check {
        Some(true) => CheckVerdict { active: true, remove_socket: false },
        _ => CheckVerdict { active: false, remove_socket: true },
    }
}

} // verus!
