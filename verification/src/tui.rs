//! The interactive tunnel list: its state and how it reacts to keys.
//!
//! Drawing the screen and reading keys is left to the caller, which hands
//! each key to [`TuiState::handle_key`], performs the action it returns
//! (opening or closing a tunnel), and reports the outcome back with
//! [`TuiState::finish_open`] or [`TuiState::finish_close`].
use vstd::prelude::*;
use crate::decimal::{decimal, append_decimal};
use crate::tunnel::{Tunnel, TunnelModel, field_text, port_text, opt_chars};
use crate::manager::string_views;

verus! {

/// A tunnel as the list shows it.
pub struct TunnelInfo {
    pub tunnel: Tunnel,
    pub active: bool,
    pub local_port: u16,
}

/// The abstract value of a [`TunnelInfo`].
pub struct TunnelInfoModel {
    pub tunnel: TunnelModel,
    pub active: bool,
    pub local_port: u16,
}

impl View for TunnelInfo {
    type V = TunnelInfoModel;

    open spec fn view(&self) -> TunnelInfoModel {
        TunnelInfoModel { tunnel: self.tunnel@, active: self.active, local_port: self.local_port }
    }
}

impl TunnelInfo {
    /// The list entry of `tunnel`: active when its name is one of
    /// `active_names`, showing its local port (0 when it has none).
    pub fn new(tunnel: Tunnel, active_names: &Vec<String>) -> (res: TunnelInfo)
        ensures
            res.tunnel == tunnel,
            res.active == string_views(active_names@).contains(tunnel.name@),
            res.local_port == (match tunnel.local_port {
                Some(p) => p,
                None => 0,
            }),
    {
        let mut active = false;
        let mut i: usize = 0;
        while i < active_names.len()
            invariant
                i <= active_names@.len(),
                active == exists|j: int| 0 <= j < i && active_names@[j]@ == tunnel.name@,
            decreases active_names@.len() - i,
        {
            if active_names[i] == tunnel.name {
                active = true;
            }
            i = i + 1;
        }
        proof {
            let names = string_views(active_names@);
            if active {
                let j = choose|j: int| 0 <= j < i && active_names@[j]@ == tunnel.name@;
                assert(names[j] == tunnel.name@);
            }
        }
        let local_port = match tunnel.local_port {
            Some(p) => p,
            None => 0,
        };
        TunnelInfo { tunnel, active, local_port }
    }
}

/// A key press, as far as the list cares.
#[derive(Clone, Copy, Debug, PartialEq, Eq, Structural)]
pub enum Key {
    Char(char),
    Up,
    Down,
    Other,
}

/// What the caller is to do after a key.
#[derive(Clone, Copy, Debug, PartialEq, Eq, Structural)]
pub enum TuiAction {
    /// Nothing.
    Stay,
    /// Open the tunnel at this position, then call `finish_open`.
    Open(usize),
    /// Close the tunnel at this position, then call `finish_close`.
    Close(usize),
}

/// The abstract value of a [`TuiState`].
pub struct TuiModel {
    pub tunnels: Seq<TunnelInfoModel>,
    pub selected: usize,
    pub scroll_offset: usize,
    pub status: Seq<char>,
    pub quit: bool,
}

/// The list's state.
pub struct TuiState {
    pub tunnels: Vec<TunnelInfo>,
    pub selected: usize,
    pub scroll_offset: usize,
    pub status_msg: String,
    pub quit: bool,
}

/// The abstract values of the list entries.
pub open spec fn info_models(v: Seq<TunnelInfo>) -> Seq<TunnelInfoModel> {
    v.map_values(|t: TunnelInfo| t@)
}

impl View for TuiState {
    type V = TuiModel;

    open spec fn view(&self) -> TuiModel {
        TuiModel {
            tunnels: info_models(self.tunnels@),
            selected: self.selected,
            scroll_offset: self.scroll_offset,
            status: self.status_msg@,
            quit: self.quit,
        }
    }
}

/// The selection is on an entry (or at 0 when there is none), and the
/// scroll offset is within the list.
pub open spec fn tui_wf(m: TuiModel) -> bool {
    &&& (m.tunnels.len() == 0 ==> m.selected == 0)
    &&& (m.tunnels.len() > 0 ==> m.selected < m.tunnels.len())
    &&& m.scroll_offset <= m.tunnels.len()
    &&& m.tunnels.len() <= usize::MAX
}

/// Keys that act on the selected tunnel.
pub open spec fn acts_on_selection(key: Key) -> bool {
    key == Key::Char('o') || key == Key::Char('c')
}

/// The message for opening a tunnel that is already active.
pub open spec fn msg_already_active(name: Seq<char>) -> Seq<char> {
    "Tunnel '"@ + name + "' already active"@
}

/// The message for closing a tunnel that is not active.
pub open spec fn msg_not_active(name: Seq<char>) -> Seq<char> {
    "Tunnel '"@ + name + "' not active"@
}

/// The message after opening a tunnel.
pub open spec fn msg_opened(name: Seq<char>) -> Seq<char> {
    "Opened tunnel '"@ + name + "'"@
}

/// The message after failing to open a tunnel.
pub open spec fn msg_open_failed(name: Seq<char>, err: Seq<char>) -> Seq<char> {
    "Failed to open '"@ + name + "': "@ + err
}

/// The message after closing a tunnel.
pub open spec fn msg_closed(name: Seq<char>) -> Seq<char> {
    "Closed tunnel '"@ + name + "'"@
}

/// The message after failing to close a tunnel.
pub open spec fn msg_close_failed(name: Seq<char>, err: Seq<char>) -> Seq<char> {
    "Failed to close '"@ + name + "': "@ + err
}

/// How the list reacts to a key: `q` quits; Down and Up move the selection
/// within the list; `o` asks to open the selected tunnel unless it is
/// active, `c` asks to close it unless it is inactive (in those two cases
/// only the status message changes); other keys do nothing.
pub open spec fn spec_handle_key(m: TuiModel, key: Key) -> (TuiModel, TuiAction) {
    match key {
        Key::Char(c) => if c == 'q' {
            (TuiModel { quit: true, ..m }, TuiAction::Stay)
        } else if c == 'o' {
            let t = m.tunnels[m.selected as int];
            if t.active {
                (TuiModel { status: msg_already_active(t.tunnel.name), ..m }, TuiAction::Stay)
            } else {
                (m, TuiAction::Open(m.selected))
            }
        } else if c == 'c' {
            let t = m.tunnels[m.selected as int];
            if !t.active {
                (TuiModel { status: msg_not_active(t.tunnel.name), ..m }, TuiAction::Stay)
            } else {
                (m, TuiAction::Close(m.selected))
            }
        } else {
            (m, TuiAction::Stay)
        },
        Key::Down => if m.selected + 1 < m.tunnels.len() {
            (TuiModel { selected: (m.selected + 1) as usize, ..m }, TuiAction::Stay)
        } else {
            (m, TuiAction::Stay)
        },
        Key::Up => if m.selected > 0 {
            (TuiModel { selected: (m.selected - 1) as usize, ..m }, TuiAction::Stay)
        } else {
            (m, TuiAction::Stay)
        },
        Key::Other => (m, TuiAction::Stay),
    }
}

/// The entry at `idx` with its active flag set to `active`.
pub open spec fn with_active(m: TuiModel, idx: int, active: bool) -> Seq<TunnelInfoModel> {
    m.tunnels.update(idx, TunnelInfoModel { active, ..m.tunnels[idx] })
}

/// The outcome of opening the tunnel at `idx`: on success it is marked
/// active; the status message reports the outcome.
pub open spec fn spec_finish_open(m: TuiModel, idx: int, result: Result<(), Seq<char>>) -> TuiModel {
    let name = m.tunnels[idx].tunnel.name;
    match result {
        Ok(()) => TuiModel { tunnels: with_active(m, idx, true), status: msg_opened(name), ..m },
        Err(e) => TuiModel { status: msg_open_failed(name, e), ..m },
    }
}

/// The outcome of closing the tunnel at `idx`: on success it is marked
/// inactive; the status message reports the outcome.
pub open spec fn spec_finish_close(m: TuiModel, idx: int, result: Result<(), Seq<char>>) -> TuiModel {
    let name = m.tunnels[idx].tunnel.name;
    match result {
        Ok(()) => TuiModel { tunnels: with_active(m, idx, false), status: msg_closed(name), ..m },
        Err(e) => TuiModel { status: msg_close_failed(name, e), ..m },
    }
}

/// The characters of an error message.
pub open spec fn result_chars(r: Result<(), String>) -> Result<(), Seq<char>> {
    match r {
        Ok(()) => Ok(()),
        Err(e) => Err(e@),
    }
}

/// The first row shown after scrolling so that the selection is visible
/// in a list `height` rows tall.
pub open spec fn spec_scroll_offset(selected: usize, offset: usize, height: usize) -> usize {
    if selected < offset {
        selected
    } else if selected >= offset + height {
        (selected + 1 - height) as usize
    } else {
        offset
    }
}

/// The text of the list entry at `i`: a filled or hollow circle for an
/// active or inactive tunnel, the name, and `> ` before the selected one.
pub open spec fn spec_item_text(m: TuiModel, i: int) -> Seq<char> {
    let t = m.tunnels[i];
    let text = (if t.active {
        "●"@
    } else {
        "○"@
    }) + " "@ + t.tunnel.name;
    if i == m.selected {
        "> "@ + text
    } else {
        text
    }
}

/// The details of the selected tunnel.
pub open spec fn spec_details_text(t: TunnelInfoModel) -> Seq<char> {
    "Status: "@ + (if t.active {
        "ACTIVE"@
    } else {
        "INACTIVE"@
    }) + "\nRemote: "@ + field_text(t.tunnel.remote_forward) + "\nLocal: "@ + decimal(
        t.local_port as nat,
    ) + "\nUser: "@ + field_text(t.tunnel.user) + "\nHost: "@ + field_text(t.tunnel.hostname)
        + "\nPort: "@ + port_text(t.tunnel.port) + "\nIdentityFile: "@ + field_text(
        t.tunnel.identity_file,
    )
}

/// The text of the status panel: the last message, or a placeholder.
pub open spec fn spec_status_text(m: TuiModel) -> Seq<char> {
    if m.status.len() == 0 {
        "[Future features here]"@
    } else {
        m.status
    }
}

/// Moving down and then up returns to the same state, when there is an
/// entry below the selection.
pub proof fn lemma_down_then_up(m: TuiModel)
    requires
        tui_wf(m),
        m.selected + 1 < m.tunnels.len(),
    ensures
        spec_handle_key(spec_handle_key(m, Key::Down).0, Key::Up).0 == m,
{
    let m1 = spec_handle_key(m, Key::Down).0;
    assert(m1.selected == m.selected + 1);
    let m2 = spec_handle_key(m1, Key::Up).0;
    assert(m2.selected == m.selected);
}

/// Moving up and then down returns to the same state, when there is an
/// entry above the selection.
pub proof fn lemma_up_then_down(m: TuiModel)
    requires
        tui_wf(m),
        m.selected > 0,
    ensures
        spec_handle_key(spec_handle_key(m, Key::Up).0, Key::Down).0 == m,
{
}

/// Once the selected tunnel has been opened successfully, `o` no longer
/// asks to open it (it reports that it is already active) and `c` asks to
/// close it.
pub proof fn lemma_opened_tunnel_keys(m: TuiModel)
    requires
        tui_wf(m),
        m.tunnels.len() > 0,
    ensures
        ({
            let opened = spec_finish_open(m, m.selected as int, Ok(()));
            &&& spec_handle_key(opened, Key::Char('o')) == (
                TuiModel { status: msg_already_active(m.tunnels[m.selected as int].tunnel.name), ..opened },
                TuiAction::Stay,
            )
            &&& spec_handle_key(opened, Key::Char('c')).1 == TuiAction::Close(m.selected)
        }),
{
}

/// Closing a tunnel successfully after opening it successfully gives back
/// the list entries as they were before, when it was inactive.
pub proof fn lemma_close_undoes_open(m: TuiModel, idx: int)
    requires
        tui_wf(m),
        0 <= idx < m.tunnels.len(),
        !m.tunnels[idx].active,
    ensures
        spec_finish_close(spec_finish_open(m, idx, Ok(())), idx, Ok(())).tunnels == m.tunnels,
{
    let r = spec_finish_close(spec_finish_open(m, idx, Ok(())), idx, Ok(())).tunnels;
    assert(r =~= m.tunnels);
}

/// No key changes the list's entries.
pub proof fn lemma_keys_keep_entries(m: TuiModel, key: Key)
    requires
        tui_wf(m),
        acts_on_selection(key) ==> m.tunnels.len() > 0,
    ensures
        spec_handle_key(m, key).0.tunnels == m.tunnels,
{
}

/// Each line of the details shows its own field of the selected tunnel:
/// the status line reads `ACTIVE` exactly when the tunnel is active; the
/// remote host, local port, user, host name and SSH port each stand between
/// their own label and the next label; and the text ends with the identity
/// file line.
pub proof fn lemma_details_lines(t: TunnelInfoModel)
    ensures
        t.active ==> ("Status: "@ + "ACTIVE"@ + "\nRemote: "@).is_prefix_of(spec_details_text(t)),
        !t.active ==> ("Status: "@ + "INACTIVE"@ + "\nRemote: "@).is_prefix_of(spec_details_text(t)),
        crate::text::has_infix(
            spec_details_text(t),
            "\nRemote: "@ + field_text(t.tunnel.remote_forward) + "\nLocal: "@,
        ),
        crate::text::has_infix(
            spec_details_text(t),
            "\nLocal: "@ + decimal(t.local_port as nat) + "\nUser: "@,
        ),
        crate::text::has_infix(spec_details_text(t), "\nUser: "@ + field_text(t.tunnel.user) + "\nHost: "@),
        crate::text::has_infix(
            spec_details_text(t),
            "\nHost: "@ + field_text(t.tunnel.hostname) + "\nPort: "@,
        ),
        crate::text::has_infix(
            spec_details_text(t),
            "\nPort: "@ + port_text(t.tunnel.port) + "\nIdentityFile: "@,
        ),
        ("\nIdentityFile: "@ + field_text(t.tunnel.identity_file)).is_suffix_of(spec_details_text(t)),
{
    let p0 = "Status: "@;
    let p1 = if t.active {
        "ACTIVE"@
    } else {
        "INACTIVE"@
    };
    let p2 = "\nRemote: "@;
    let p3 = field_text(t.tunnel.remote_forward);
    let p4 = "\nLocal: "@;
    let p5 = decimal(t.local_port as nat);
    let p6 = "\nUser: "@;
    let p7 = field_text(t.tunnel.user);
    let p8 = "\nHost: "@;
    let p9 = field_text(t.tunnel.hostname);
    let p10 = "\nPort: "@;
    let p11 = port_text(t.tunnel.port);
    let p12 = "\nIdentityFile: "@;
    let p13 = field_text(t.tunnel.identity_file);
    let s = spec_details_text(t);
    assert(s == p0 + p1 + p2 + p3 + p4 + p5 + p6 + p7 + p8 + p9 + p10 + p11 + p12 + p13);
    assert((p0 + p1 + p2).is_prefix_of(p0 + p1 + p2)) by {
        assert((p0 + p1 + p2).subrange(0, (p0 + p1 + p2).len() as int) =~= p0 + p1 + p2);
    }
    crate::text::lemma_prefix_extend(p0 + p1 + p2, p0 + p1 + p2, p3);
    crate::text::lemma_prefix_extend(p0 + p1 + p2, p0 + p1 + p2 + p3, p4);
    crate::text::lemma_prefix_extend(p0 + p1 + p2, p0 + p1 + p2 + p3 + p4, p5);
    crate::text::lemma_prefix_extend(p0 + p1 + p2, p0 + p1 + p2 + p3 + p4 + p5, p6);
    crate::text::lemma_prefix_extend(p0 + p1 + p2, p0 + p1 + p2 + p3 + p4 + p5 + p6, p7);
    crate::text::lemma_prefix_extend(p0 + p1 + p2, p0 + p1 + p2 + p3 + p4 + p5 + p6 + p7, p8);
    crate::text::lemma_prefix_extend(p0 + p1 + p2, p0 + p1 + p2 + p3 + p4 + p5 + p6 + p7 + p8, p9);
    crate::text::lemma_prefix_extend(p0 + p1 + p2, p0 + p1 + p2 + p3 + p4 + p5 + p6 + p7 + p8 + p9, p10);
    crate::text::lemma_prefix_extend(p0 + p1 + p2, p0 + p1 + p2 + p3 + p4 + p5 + p6 + p7 + p8 + p9 + p10, p11);
    crate::text::lemma_prefix_extend(p0 + p1 + p2, p0 + p1 + p2 + p3 + p4 + p5 + p6 + p7 + p8 + p9 + p10 + p11, p12);
    crate::text::lemma_prefix_extend(p0 + p1 + p2, p0 + p1 + p2 + p3 + p4 + p5 + p6 + p7 + p8 + p9 + p10 + p11 + p12, p13);
    crate::text::lemma_infix_last3(p0 + p1, p2, p3, p4);
    crate::text::lemma_infix_extend(p0 + p1 + p2 + p3 + p4, p2 + p3 + p4, p5);
    crate::text::lemma_infix_extend(p0 + p1 + p2 + p3 + p4 + p5, p2 + p3 + p4, p6);
    crate::text::lemma_infix_extend(p0 + p1 + p2 + p3 + p4 + p5 + p6, p2 + p3 + p4, p7);
    crate::text::lemma_infix_extend(p0 + p1 + p2 + p3 + p4 + p5 + p6 + p7, p2 + p3 + p4, p8);
    crate::text::lemma_infix_extend(p0 + p1 + p2 + p3 + p4 + p5 + p6 + p7 + p8, p2 + p3 + p4, p9);
    crate::text::lemma_infix_extend(p0 + p1 + p2 + p3 + p4 + p5 + p6 + p7 + p8 + p9, p2 + p3 + p4, p10);
    crate::text::lemma_infix_extend(p0 + p1 + p2 + p3 + p4 + p5 + p6 + p7 + p8 + p9 + p10, p2 + p3 + p4, p11);
    crate::text::lemma_infix_extend(p0 + p1 + p2 + p3 + p4 + p5 + p6 + p7 + p8 + p9 + p10 + p11, p2 + p3 + p4, p12);
    crate::text::lemma_infix_extend(p0 + p1 + p2 + p3 + p4 + p5 + p6 + p7 + p8 + p9 + p10 + p11 + p12, p2 + p3 + p4, p13);
    crate::text::lemma_infix_last3(p0 + p1 + p2 + p3, p4, p5, p6);
    crate::text::lemma_infix_extend(p0 + p1 + p2 + p3 + p4 + p5 + p6, p4 + p5 + p6, p7);
    crate::text::lemma_infix_extend(p0 + p1 + p2 + p3 + p4 + p5 + p6 + p7, p4 + p5 + p6, p8);
    crate::text::lemma_infix_extend(p0 + p1 + p2 + p3 + p4 + p5 + p6 + p7 + p8, p4 + p5 + p6, p9);
    crate::text::lemma_infix_extend(p0 + p1 + p2 + p3 + p4 + p5 + p6 + p7 + p8 + p9, p4 + p5 + p6, p10);
    crate::text::lemma_infix_extend(p0 + p1 + p2 + p3 + p4 + p5 + p6 + p7 + p8 + p9 + p10, p4 + p5 + p6, p11);
    crate::text::lemma_infix_extend(p0 + p1 + p2 + p3 + p4 + p5 + p6 + p7 + p8 + p9 + p10 + p11, p4 + p5 + p6, p12);
    crate::text::lemma_infix_extend(p0 + p1 + p2 + p3 + p4 + p5 + p6 + p7 + p8 + p9 + p10 + p11 + p12, p4 + p5 + p6, p13);
    crate::text::lemma_infix_last3(p0 + p1 + p2 + p3 + p4 + p5, p6, p7, p8);
    crate::text::lemma_infix_extend(p0 + p1 + p2 + p3 + p4 + p5 + p6 + p7 + p8, p6 + p7 + p8, p9);
    crate::text::lemma_infix_extend(p0 + p1 + p2 + p3 + p4 + p5 + p6 + p7 + p8 + p9, p6 + p7 + p8, p10);
    crate::text::lemma_infix_extend(p0 + p1 + p2 + p3 + p4 + p5 + p6 + p7 + p8 + p9 + p10, p6 + p7 + p8, p11);
    crate::text::lemma_infix_extend(p0 + p1 + p2 + p3 + p4 + p5 + p6 + p7 + p8 + p9 + p10 + p11, p6 + p7 + p8, p12);
    crate::text::lemma_infix_extend(p0 + p1 + p2 + p3 + p4 + p5 + p6 + p7 + p8 + p9 + p10 + p11 + p12, p6 + p7 + p8, p13);
    crate::text::lemma_infix_last3(p0 + p1 + p2 + p3 + p4 + p5 + p6 + p7, p8, p9, p10);
    crate::text::lemma_infix_extend(p0 + p1 + p2 + p3 + p4 + p5 + p6 + p7 + p8 + p9 + p10, p8 + p9 + p10, p11);
    crate::text::lemma_infix_extend(p0 + p1 + p2 + p3 + p4 + p5 + p6 + p7 + p8 + p9 + p10 + p11, p8 + p9 + p10, p12);
    crate::text::lemma_infix_extend(p0 + p1 + p2 + p3 + p4 + p5 + p6 + p7 + p8 + p9 + p10 + p11 + p12, p8 + p9 + p10, p13);
    crate::text::lemma_infix_last3(p0 + p1 + p2 + p3 + p4 + p5 + p6 + p7 + p8 + p9, p10, p11, p12);
    crate::text::lemma_infix_extend(p0 + p1 + p2 + p3 + p4 + p5 + p6 + p7 + p8 + p9 + p10 + p11 + p12, p10 + p11 + p12, p13);
    assert(s.subrange(s.len() - (p12 + p13).len(), s.len() as int) =~= p12 + p13);
}

/// What each key may change. Only `q` quits, and it changes nothing else;
/// every other key leaves `quit` as it was. Only Up and Down move the
/// selection: Down by one when there is an entry below, Up by one when there
/// is one above. Only `o` and `c` set a message or ask for an action, and
/// the action is on the selected entry. Any other key changes nothing.
pub proof fn lemma_key_effects(m: TuiModel, key: Key)
    requires
        tui_wf(m),
        acts_on_selection(key) ==> m.tunnels.len() > 0,
    ensures
        ({
            let (r, a) = spec_handle_key(m, key);
            &&& key == Key::Char('q') ==> r == TuiModel { quit: true, ..m } && a == TuiAction::Stay
            &&& key != Key::Char('q') ==> r.quit == m.quit
            &&& key != Key::Up && key != Key::Down ==> r.selected == m.selected
            &&& key == Key::Down ==> (if m.selected + 1 < m.tunnels.len() {
                r.selected == m.selected + 1
            } else {
                r.selected == m.selected
            })
            &&& key == Key::Up ==> (if m.selected > 0 {
                r.selected == m.selected - 1
            } else {
                r.selected == m.selected
            })
            &&& r.tunnels == m.tunnels && r.scroll_offset == m.scroll_offset
            &&& !acts_on_selection(key) ==> a == TuiAction::Stay && r.status == m.status
            &&& a matches TuiAction::Open(i) ==> i == m.selected && !m.tunnels[i as int].active
            &&& a matches TuiAction::Close(i) ==> i == m.selected && m.tunnels[i as int].active
            &&& (key == Key::Other || (key matches Key::Char(c) && c != 'q' && c != 'o' && c != 'c'))
                ==> r == m && a == TuiAction::Stay
        }),
{
}

/// A failed open or close changes no entry and nothing but the message; a
/// successful one changes only the active flag of its own entry (to active
/// after opening, inactive after closing).
pub proof fn lemma_outcome_effects(m: TuiModel, idx: int, e: Seq<char>)
    requires
        tui_wf(m),
        0 <= idx < m.tunnels.len(),
    ensures
        ({
            let f = spec_finish_open(m, idx, Err(e));
            f.tunnels == m.tunnels && f.selected == m.selected && f.scroll_offset == m.scroll_offset
                && f.quit == m.quit
        }),
        ({
            let f = spec_finish_close(m, idx, Err(e));
            f.tunnels == m.tunnels && f.selected == m.selected && f.scroll_offset == m.scroll_offset
                && f.quit == m.quit
        }),
        ({
            let o = spec_finish_open(m, idx, Ok(())).tunnels;
            let c = spec_finish_close(m, idx, Ok(())).tunnels;
            &&& o.len() == m.tunnels.len() && c.len() == m.tunnels.len()
            &&& o[idx].active && !c[idx].active
            &&& o[idx].tunnel == m.tunnels[idx].tunnel && c[idx].tunnel == m.tunnels[idx].tunnel
            &&& o[idx].local_port == m.tunnels[idx].local_port
            &&& c[idx].local_port == m.tunnels[idx].local_port
            &&& forall|j: int| 0 <= j < m.tunnels.len() && j != idx ==> o[j] == m.tunnels[j] && c[j]
                == m.tunnels[j]
        }),
{
}

/// A list entry's text ends with its tunnel's name, starts with `> `
/// exactly when it is the selected entry, and otherwise starts with the
/// filled circle for an active tunnel and the hollow one for an inactive
/// tunnel.
pub proof fn lemma_item_text_shape(m: TuiModel, i: int)
    requires
        0 <= i < m.tunnels.len(),
    ensures
        m.tunnels[i].tunnel.name.is_suffix_of(spec_item_text(m, i)),
        i == m.selected ==> ("> "@).is_prefix_of(spec_item_text(m, i)),
        i != m.selected && m.tunnels[i].active ==> ("●"@).is_prefix_of(spec_item_text(m, i)),
        i != m.selected && !m.tunnels[i].active ==> ("○"@).is_prefix_of(spec_item_text(m, i)),
        i != m.selected ==> spec_item_text(m, i)[0] != '>',
{
    reveal_strlit("●");
    reveal_strlit("○");
    reveal_strlit(" ");
    reveal_strlit("> ");
    let t = spec_item_text(m, i);
    let n = m.tunnels[i].tunnel.name;
    let marker = if m.tunnels[i].active {
        "●"@
    } else {
        "○"@
    };
    let text = marker + " "@ + n;
    assert(text.subrange(text.len() - n.len(), text.len() as int) =~= n);
    assert(text.subrange(0, marker.len() as int) =~= marker);
    if i == m.selected {
        assert(t == "> "@ + text);
        assert(t.subrange(t.len() - n.len(), t.len() as int) =~= n);
        assert(t.subrange(0, 2) =~= "> "@);
    } else {
        assert(t == text);
        assert(t[0] == marker[0]);
    }
}

fn append_field(out: &mut String, o: &Option<String>)
    ensures
        final(out)@ == old(out)@ + field_text(opt_chars(*o)),
{
    match o {
        Some(s) => out.append(s.as_str()),
        None => out.append("-"),
    }
}

impl TuiState {
    /// The list over `tunnels`, the first one selected, no message.
    pub fn new(tunnels: Vec<TunnelInfo>) -> (res: TuiState)
        ensures
            res@ == (TuiModel {
                tunnels: info_models(tunnels@),
                selected: 0,
                scroll_offset: 0,
                status: Seq::empty(),
                quit: false,
            }),
            tui_wf(res@),
    {
        assert(tunnels@.len() == tunnels.len());
        TuiState { tunnels, selected: 0, scroll_offset: 0, status_msg: String::new(), quit: false }
    }

    /// Reacts to a key; see [`spec_handle_key`].
    pub fn handle_key(&mut self, key: Key) -> (res: TuiAction)
        requires
            tui_wf(old(self)@),
            acts_on_selection(key) ==> old(self).tunnels@.len() > 0,
        ensures
            (final(self)@, res) == spec_handle_key(old(self)@, key),
            tui_wf(final(self)@),
    {
        let ghost m = self@;
        match key {
            Key::Char(c) => {
                if c == 'q' {
                    self.quit = true;
                    TuiAction::Stay
                } else if c == 'o' {
                    let sel = self.selected;
                    assert(self.tunnels@[sel as int]@ == m.tunnels[sel as int]);
                    if self.tunnels[sel].active {
                        let mut msg = String::new();
                        msg.append("Tunnel '");
                        msg.append(self.tunnels[sel].tunnel.name.as_str());
                        msg.append("' already active");
                        assert(msg@ =~= msg_already_active(m.tunnels[sel as int].tunnel.name));
                        self.status_msg = msg;
                        TuiAction::Stay
                    } else {
                        TuiAction::Open(sel)
                    }
                } else if c == 'c' {
                    let sel = self.selected;
                    assert(self.tunnels@[sel as int]@ == m.tunnels[sel as int]);
                    if !self.tunnels[sel].active {
                        let mut msg = String::new();
                        msg.append("Tunnel '");
                        msg.append(self.tunnels[sel].tunnel.name.as_str());
                        msg.append("' not active");
                        assert(msg@ =~= msg_not_active(m.tunnels[sel as int].tunnel.name));
                        self.status_msg = msg;
                        TuiAction::Stay
                    } else {
                        TuiAction::Close(sel)
                    }
                } else {
                    TuiAction::Stay
                }
            },
            Key::Down => {
                let len = self.tunnels.len();
                if len > 0 && self.selected < len - 1 {
                    self.selected = self.selected + 1;
                }
                TuiAction::Stay
            },
            Key::Up => {
                if self.selected > 0 {
                    self.selected = self.selected - 1;
                }
                TuiAction::Stay
            },
            Key::Other => TuiAction::Stay,
        }
    }

    /// Sets the active flag of the entry at `idx`.
    fn set_active(&mut self, idx: usize, active: bool)
        requires
            idx < old(self).tunnels@.len(),
        ensures
            final(self)@ == (TuiModel { tunnels: with_active(old(self)@, idx as int, active), ..old(self)@ }),
    {
        let mut info = self.tunnels.remove(idx);
        info.active = active;
        self.tunnels.insert(idx, info);
        assert(info_models(self.tunnels@) =~= with_active(old(self)@, idx as int, active));
    }

    /// Records the outcome of opening the tunnel at `idx`.
    pub fn finish_open(&mut self, idx: usize, result: Result<(), String>)
        requires
            tui_wf(old(self)@),
            idx < old(self).tunnels@.len(),
        ensures
            final(self)@ == spec_finish_open(old(self)@, idx as int, result_chars(result)),
            tui_wf(final(self)@),
    {
        let ghost m = self@;
        assert(self.tunnels@[idx as int]@ == m.tunnels[idx as int]);
        let mut msg = String::new();
        match result {
            Ok(()) => {
                msg.append("Opened tunnel '");
                msg.append(self.tunnels[idx].tunnel.name.as_str());
                msg.append("'");
                assert(msg@ =~= msg_opened(m.tunnels[idx as int].tunnel.name));
                self.set_active(idx, true);
            },
            Err(e) => {
                msg.append("Failed to open '");
                msg.append(self.tunnels[idx].tunnel.name.as_str());
                msg.append("': ");
                msg.append(e.as_str());
                assert(msg@ =~= msg_open_failed(m.tunnels[idx as int].tunnel.name, e@));
            },
        }
        self.status_msg = msg;
    }

    /// Records the outcome of closing the tunnel at `idx`.
    pub fn finish_close(&mut self, idx: usize, result: Result<(), String>)
        requires
            tui_wf(old(self)@),
            idx < old(self).tunnels@.len(),
        ensures
            final(self)@ == spec_finish_close(old(self)@, idx as int, result_chars(result)),
            tui_wf(final(self)@),
    {
        let ghost m = self@;
        assert(self.tunnels@[idx as int]@ == m.tunnels[idx as int]);
        let mut msg = String::new();
        match result {
            Ok(()) => {
                msg.append("Closed tunnel '");
                msg.append(self.tunnels[idx].tunnel.name.as_str());
                msg.append("'");
                assert(msg@ =~= msg_closed(m.tunnels[idx as int].tunnel.name));
                self.set_active(idx, false);
            },
            Err(e) => {
                msg.append("Failed to close '");
                msg.append(self.tunnels[idx].tunnel.name.as_str());
                msg.append("': ");
                msg.append(e.as_str());
                assert(msg@ =~= msg_close_failed(m.tunnels[idx as int].tunnel.name, e@));
            },
        }
        self.status_msg = msg;
    }

    /// Scrolls so that the selection shows in a list `height` rows tall and
    /// returns the range of entries to show.
    pub fn scroll_window(&mut self, height: usize) -> (res: (usize, usize))
        requires
            tui_wf(old(self)@),
            old(self).tunnels@.len() > 0,
        ensures
            final(self)@ == (TuiModel {
                scroll_offset: spec_scroll_offset(old(self).selected, old(self).scroll_offset, height),
                ..old(self)@
            }),
            res.0 == final(self).scroll_offset,
            res.1 == if final(self).scroll_offset + height < final(self).tunnels@.len() {
                final(self).scroll_offset + height
            } else {
                final(self).tunnels@.len() as int
            },
            tui_wf(final(self)@),
            res.0 <= res.1 <= final(self).tunnels@.len(),
            height > 0 ==> res.0 <= final(self).selected < res.1,
    {
        let total = self.tunnels.len();
        if self.selected < self.scroll_offset {
            self.scroll_offset = self.selected;
        } else if self.selected - self.scroll_offset >= height {
            self.scroll_offset = self.selected + 1 - height;
        }
        let end = if total - self.scroll_offset <= height {
            total
        } else {
            self.scroll_offset + height
        };
        (self.scroll_offset, end)
    }

    /// The text of the list entry at `i`.
    pub fn item_text(&self, i: usize) -> (res: String)
        requires
            i < self.tunnels@.len(),
        ensures
            res@ == spec_item_text(self@, i as int),
    {
        let t = &self.tunnels[i];
        assert(self.tunnels@[i as int]@ == self@.tunnels[i as int]);
        let mut out = String::new();
        if i == self.selected {
            out.append("> ");
        }
        if t.active {
            out.append("●");
        } else {
            out.append("○");
        }
        out.append(" ");
        out.append(t.tunnel.name.as_str());
        assert(out@ =~= spec_item_text(self@, i as int));
        out
    }

    /// The details of the selected tunnel.
    pub fn details_text(&self) -> (res: String)
        requires
            self.selected < self.tunnels@.len(),
        ensures
            res@ == spec_details_text(self@.tunnels[self.selected as int]),
    {
        let t = &self.tunnels[self.selected];
        assert(self.tunnels@[self.selected as int]@ == self@.tunnels[self.selected as int]);
        let mut out = String::new();
        out.append("Status: ");
        if t.active {
            out.append("ACTIVE");
        } else {
            out.append("INACTIVE");
        }
        out.append("\nRemote: ");
        append_field(&mut out, &t.tunnel.remote_forward);
        out.append("\nLocal: ");
        append_decimal(&mut out, t.local_port);
        out.append("\nUser: ");
        append_field(&mut out, &t.tunnel.user);
        out.append("\nHost: ");
        append_field(&mut out, &t.tunnel.hostname);
        out.append("\nPort: ");
        match t.tunnel.port {
            Some(p) => append_decimal(&mut out, p),
            None => out.append("-"),
        }
        out.append("\nIdentityFile: ");
        append_field(&mut out, &t.tunnel.identity_file);
        assert(out@ =~= spec_details_text(self@.tunnels[self.selected as int]));
        out
    }

    /// The text of the status panel.
    pub fn status_text(&self) -> (res: String)
        ensures
            res@ == spec_status_text(self@),
    {
        let mut out = String::new();
        if self.status_msg.as_str().is_empty() {
            out.append("[Future features here]");
        } else {
            out.append(self.status_msg.as_str());
        }
        assert(out@ =~= spec_status_text(self@));
        out
    }
}

} // verus!
