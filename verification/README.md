# tunnel_manager

A command-line tool that manages SSH tunnels defined in `~/.ssh/config`
(`Host` sections with `LocalForward`/`RemoteForward`), keeping each tunnel
open as an `ssh` control master on `/tmp/tunnel-manager-<name>.sock`.

## Layout

- `src/` — the verified library (Verus):
  - `text.rs`: whitespace, trimming, line and character helpers;
  - `decimal.rs`: port numbers read as `u16::from_str` reads them and
    written as `Display` writes them, with the round trip proved;
  - `tunnel.rs`: the `Tunnel` record, the forward parser, control-socket
    names and the tunnel summary;
  - `config.rs`: reading tunnels out of a configuration text (keyword
    matching through the `regex` crate, the section state machine);
  - `manager.rs`: `ssh` arguments, outcome messages and liveness verdicts;
  - `tui.rs`: the interactive list's state and key handling.
- `app/` — the executable: argument parsing (`clap`), running `ssh`, the file
  system, and drawing the terminal interface (`ratatui`, `crossterm`).
- `tests/` — tests of the library.
