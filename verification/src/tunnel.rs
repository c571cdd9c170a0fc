//! Tunnel definitions: the fields read from one `Host` section, the
//! forward specification parser, the control-socket naming scheme and the
//! human-readable summary.
use vstd::prelude::*;
use crate::decimal::{decimal, parse_u16_chars, spec_parse_u16, append_decimal};
use crate::text::{chars_of, find_first, find_last, string_from_chars, lemma_first_index, lemma_last_index};

verus! {

/// A tunnel: a `Host` section of the SSH configuration that forwards a port.
#[derive(Debug, Clone)]
pub struct Tunnel {
    pub name: String,
    pub local_port: Option<u16>,
    pub remote_forward: Option<String>,
    pub remote_port: Option<u16>,
    pub user: Option<String>,
    pub hostname: Option<String>,
    pub port: Option<u16>,
    pub identity_file: Option<String>,
    pub identities_only: bool,
}

/// The abstract value of a [`Tunnel`]: its strings as character sequences.
pub struct TunnelModel {
    pub name: Seq<char>,
    pub local_port: Option<u16>,
    pub remote_forward: Option<Seq<char>>,
    pub remote_port: Option<u16>,
    pub user: Option<Seq<char>>,
    pub hostname: Option<Seq<char>>,
    pub port: Option<u16>,
    pub identity_file: Option<Seq<char>>,
    pub identities_only: bool,
}

/// The characters of an optional string.
pub open spec fn opt_chars(o: Option<String>) -> Option<Seq<char>> {
    match o {
        Some(s) => Some(s@),
        None => None,
    }
}

impl View for Tunnel {
    type V = TunnelModel;

    open spec fn view(&self) -> TunnelModel {
        TunnelModel {
            name: self.name@,
            local_port: self.local_port,
            remote_forward: opt_chars(self.remote_forward),
            remote_port: self.remote_port,
            user: opt_chars(self.user),
            hostname: opt_chars(self.hostname),
            port: self.port,
            identity_file: opt_chars(self.identity_file),
            identities_only: self.identities_only,
        }
    }
}

/// Directory that holds the control sockets.
pub const SOCKET_DIR: &'static str = "/tmp";

/// Start of every control socket's file name.
pub const SOCKET_PREFIX: &'static str = "tunnel-manager-";

/// End of every control socket's file name.
pub const SOCKET_SUFFIX: &'static str = ".sock";

/// The file name of the control socket of the tunnel called `name`.
pub open spec fn spec_socket_file_name(name: Seq<char>) -> Seq<char> {
    SOCKET_PREFIX@ + name + SOCKET_SUFFIX@
}

/// The path of the control socket of the tunnel called `name`:
/// `/tmp/tunnel-manager-<name>.sock`.
pub open spec fn spec_socket_path(name: Seq<char>) -> Seq<char> {
    SOCKET_DIR@ + "/"@ + spec_socket_file_name(name)
}

/// The tunnel name that a file name in the socket directory stands for:
/// the part between the prefix and the suffix, when the file name has both
/// and that part is not empty.
pub open spec fn spec_name_from_socket_file(file: Seq<char>) -> Option<Seq<char>> {
    let p = SOCKET_PREFIX@;
    let x = SOCKET_SUFFIX@;
    let rest = file.skip(p.len() as int);
    let name = if x.is_suffix_of(rest) { rest.take(rest.len() - x.len()) } else { Seq::empty() };
    if p.is_prefix_of(file) && x.is_suffix_of(file) && name.len() > 0 {
        Some(name)
    } else {
        None
    }
}

/// Writes the path of the control socket of `name`.
pub(crate) fn socket_path_for(name: &str) -> (res: String)
    ensures
        res@ == spec_socket_path(name@),
{
    let mut out = String::new();
    out.append(SOCKET_DIR);
    out.append("/");
    out.append(SOCKET_PREFIX);
    out.append(name);
    out.append(SOCKET_SUFFIX);
    assert(out@ =~= spec_socket_path(name@));
    out
}

/// Whether `s` starts with `p`.
fn starts_with_chars(s: &Vec<char>, p: &Vec<char>) -> (res: bool)
    ensures
        res == p@.is_prefix_of(s@),
{
    if p.len() > s.len() {
        return false;
    }
    let mut i: usize = 0;
    while i < p.len()
        invariant
            p@.len() <= s@.len(),
            i <= p@.len(),
            forall|j: int| 0 <= j < i ==> p@[j] == s@[j],
        decreases p@.len() - i,
    {
        if p[i] != s[i] {
            assert(s@.subrange(0, p@.len() as int)[i as int] != p@[i as int]);
            return false;
        }
        i = i + 1;
    }
    assert(s@.subrange(0, p@.len() as int) =~= p@);
    true
}

/// Whether `s[lo..]` ends with `x`.
fn ends_with_chars(s: &Vec<char>, lo: usize, x: &Vec<char>) -> (res: bool)
    requires
        lo <= s@.len(),
    ensures
        res == x@.is_suffix_of(s@.skip(lo as int)),
{
    let ghost r = s@.skip(lo as int);
    if x.len() > s.len() - lo {
        return false;
    }
    let start = s.len() - x.len();
    let mut i: usize = 0;
    while i < x.len()
        invariant
            lo <= start,
            start + x@.len() == s@.len(),
            s@.len() == s.len(),
            r == s@.skip(lo as int),
            i <= x@.len(),
            forall|j: int| 0 <= j < i ==> x@[j] == s@[start + j],
        decreases x@.len() - i,
    {
        if x[i] != s[start + i] {
            assert(r.subrange(r.len() - x@.len(), r.len() as int)[i as int] != x@[i as int]);
            return false;
        }
        i = i + 1;
    }
    assert(r.subrange(r.len() - x@.len(), r.len() as int) =~= x@);
    true
}

/// The tunnel name that the socket file `file_name` stands for, if any.
pub fn tunnel_name_from_socket_file(file_name: &str) -> (res: Option<String>)
    ensures
        opt_chars(res) == spec_name_from_socket_file(file_name@),
{
    let f = chars_of(file_name);
    let p = chars_of(SOCKET_PREFIX);
    let x = chars_of(SOCKET_SUFFIX);
    if !starts_with_chars(&f, &p) || !ends_with_chars(&f, 0, &x) {
        assert(f@.skip(0) =~= f@);
        return None;
    }
    assert(f@.skip(0) =~= f@);
    let lo = p.len();
    if !ends_with_chars(&f, lo, &x) {
        return None;
    }
    let hi = f.len() - x.len();
    if lo >= hi {
        assert(f@.skip(lo as int).take(f@.skip(lo as int).len() - x@.len()).len() == 0);
        return None;
    }
    let name = string_from_chars(&f, lo, hi);
    assert(name@ =~= f@.skip(lo as int).take(f@.skip(lo as int).len() - x@.len()));
    Some(name)
}

/// Naming a socket and reading the name back from its file name give the
/// tunnel's name again, for every non-empty name.
pub proof fn lemma_socket_name_roundtrip(name: Seq<char>)
    ensures
        spec_name_from_socket_file(spec_socket_file_name(name)) == (if name.len() > 0 {
            Some(name)
        } else {
            None
        }),
{
    let p = SOCKET_PREFIX@;
    let x = SOCKET_SUFFIX@;
    let f = spec_socket_file_name(name);
    assert(f.subrange(0, p.len() as int) =~= p);
    assert(f.subrange(f.len() - x.len(), f.len() as int) =~= x);
    let rest = f.skip(p.len() as int);
    assert(rest =~= name + x);
    assert(rest.subrange(rest.len() - x.len(), rest.len() as int) =~= x);
    assert(rest.take(rest.len() - x.len()) =~= name);
}

/// Every name read back from a socket file names that very file: the file
/// name is the prefix, the name and the suffix, and the name is not empty.
pub proof fn lemma_socket_name_names_file(file: Seq<char>)
    ensures
        spec_name_from_socket_file(file) matches Some(n) ==> n.len() > 0 && file
            == spec_socket_file_name(n),
{
    let p = SOCKET_PREFIX@;
    let x = SOCKET_SUFFIX@;
    if let Some(n) = spec_name_from_socket_file(file) {
        let rest = file.skip(p.len() as int);
        assert(file =~= file.subrange(0, p.len() as int) + rest);
        assert(rest =~= rest.take(rest.len() - x.len()) + rest.subrange(
            rest.len() - x.len(),
            rest.len() as int,
        ));
        assert(file =~= p + n + x);
    }
}

/// What `Tunnel::parse_forward` gives for a `LocalForward`/`RemoteForward`
/// value: split at the first space into a local part and a remote part;
/// the local port follows the last `:` of the local part (or is the whole
/// part), the remote host precedes the last `:` of the remote part and the
/// remote port follows it (without a `:`, the remote part is the host and
/// there is no port). Without a space, nothing is found.
pub open spec fn spec_parse_forward(raw: Seq<char>) -> (Option<u16>, Option<Seq<char>>, Option<u16>) {
    match raw.index_of_first(' ') {
        None => (None, None, None),
        Some(i) => {
            let local = raw.take(i);
            let remote = raw.skip(i + 1);
            let lp = match local.index_of_last(':') {
                Some(j) => spec_parse_u16(local.skip(j + 1)),
                None => spec_parse_u16(local),
            };
            match remote.index_of_last(':') {
                Some(j) => (lp, Some(remote.take(j)), spec_parse_u16(remote.skip(j + 1))),
                None => (lp, Some(remote), None),
            }
        },
    }
}

/// Parses a forward held in `chars[lo..hi]`.
pub(crate) fn parse_forward_chars(chars: &Vec<char>, lo: usize, hi: usize) -> (res: (
    Option<u16>,
    Option<String>,
    Option<u16>,
))
    requires
        lo <= hi <= chars@.len(),
    ensures
        (res.0, opt_chars(res.1), res.2) == spec_parse_forward(chars@.subrange(lo as int, hi as int)),
{
    let ghost raw = chars@.subrange(lo as int, hi as int);
    let sp = find_first(chars, ' ', lo, hi);
    proof {
        lemma_first_index(raw, ' ', sp - lo);
    }
    if sp == hi {
        return (None, None, None);
    }
    let ghost local = raw.take(sp - lo);
    let ghost remote = raw.skip(sp - lo + 1);
    assert(local =~= chars@.subrange(lo as int, sp as int));
    assert(remote =~= chars@.subrange(sp + 1, hi as int));
    let lc = find_last(chars, ':', lo, sp);
    proof {
        lemma_last_index(local, ':', match lc { Some(k) => Some(k - lo), None => None::<int> });
    }
    let local_port = match lc {
        Some(k) => {
            assert(local.skip(k - lo + 1) =~= chars@.subrange(k + 1, sp as int));
            parse_u16_chars(chars, k + 1, sp)
        },
        None => parse_u16_chars(chars, lo, sp),
    };
    let rc = find_last(chars, ':', sp + 1, hi);
    proof {
        lemma_last_index(remote, ':', match rc { Some(k) => Some(k - sp - 1), None => None::<int> });
    }
    match rc {
        Some(k) => {
            assert(remote.take(k - sp - 1) =~= chars@.subrange(sp + 1, k as int));
            assert(remote.skip(k - sp) =~= chars@.subrange(k + 1, hi as int));
            let host = string_from_chars(chars, sp + 1, k);
            let remote_port = parse_u16_chars(chars, k + 1, hi);
            (local_port, Some(host), remote_port)
        },
        None => {
            let host = string_from_chars(chars, sp + 1, hi);
            (local_port, Some(host), None)
        },
    }
}

/// Without a space a forward value gives nothing; with one it always gives
/// a remote host, and a remote port only when the part after the first
/// space holds a `:`.
pub proof fn lemma_forward_shape(raw: Seq<char>)
    ensures
        !raw.contains(' ') ==> spec_parse_forward(raw) == (None::<u16>, None::<Seq<char>>, None::<u16>),
        raw.contains(' ') ==> spec_parse_forward(raw).1 is Some,
        spec_parse_forward(raw).2 is Some ==> raw.contains(' ') && raw.skip(
            raw.index_of_first(' ').unwrap() + 1,
        ).contains(':'),
{
    raw.index_of_first_ensures(' ');
    if let Some(i) = raw.index_of_first(' ') {
        raw.skip(i + 1).index_of_last_ensures(':');
    }
}

/// A forward value written as `[bind:]local_port remote_host:remote_port`.
pub open spec fn forward_text(bind: Option<Seq<char>>, local_port: u16, host: Seq<char>, remote_port: u16) -> Seq<char> {
    let pre = match bind {
        Some(b) => b + seq![':'],
        None => Seq::<char>::empty(),
    };
    pre + decimal(local_port as nat) + seq![' '] + host + seq![':'] + decimal(remote_port as nat)
}

/// Parsing a forward value written as `[bind:]local_port remote_host:remote_port`
/// gives back its local port, remote host and remote port, whatever the
/// host, for every bind address without a space.
pub proof fn lemma_forward_roundtrip(bind: Option<Seq<char>>, local_port: u16, host: Seq<char>, remote_port: u16)
    requires
        bind matches Some(b) ==> !b.contains(' '),
    ensures
        spec_parse_forward(forward_text(bind, local_port, host, remote_port)) == (
            Some(local_port),
            Some(host),
            Some(remote_port),
        ),
{
    let pre = match bind {
        Some(b) => b + seq![':'],
        None => Seq::<char>::empty(),
    };
    let d1 = decimal(local_port as nat);
    let d2 = decimal(remote_port as nat);
    crate::decimal::lemma_decimal_digits(local_port as nat);
    crate::decimal::lemma_decimal_digits(remote_port as nat);
    crate::decimal::lemma_parse_decimal(local_port);
    crate::decimal::lemma_parse_decimal(remote_port);
    let raw = forward_text(bind, local_port, host, remote_port);
    let k: int = pre.len() as int + d1.len() as int;
    assert(raw =~= pre + d1 + seq![' '] + host + seq![':'] + d2);
    assert forall|j: int| 0 <= j < k implies raw[j] != ' ' by {
        if j < pre.len() {
            if let Some(b) = bind {
                if j < b.len() {
                    assert(raw[j] == b[j]);
                }
            }
        } else {
            assert(raw[j] == d1[j - pre.len()]);
            assert(crate::decimal::is_digit(d1[j - pre.len()]));
        }
    }
    assert(raw[k] == ' ');
    crate::text::lemma_first_index(raw, ' ', k);
    let local = raw.take(k);
    let remote = raw.skip(k + 1);
    assert(local =~= pre + d1);
    assert(remote =~= host + seq![':'] + d2);
    assert forall|j: int| 0 <= j < d1.len() implies d1[j] != ':' by {
        assert(crate::decimal::is_digit(d1[j]));
    }
    assert forall|j: int| 0 <= j < d2.len() implies d2[j] != ':' by {
        assert(crate::decimal::is_digit(d2[j]));
    }
    match bind {
        Some(b) => {
            assert forall|j: int| b.len() < j < local.len() implies local[j] != ':' by {
                assert(local[j] == d1[j - b.len() - 1]);
            }
            crate::text::lemma_last_index(local, ':', Some(b.len() as int));
            assert(local.skip(b.len() as int + 1) =~= d1);
        },
        None => {
            assert(local =~= d1);
            crate::text::lemma_last_index(local, ':', None);
        },
    }
    assert forall|j: int| host.len() < j < remote.len() implies remote[j] != ':' by {
        assert(remote[j] == d2[j - host.len() - 1]);
    }
    crate::text::lemma_last_index(remote, ':', Some(host.len() as int));
    assert(remote.take(host.len() as int) =~= host);
    assert(remote.skip(host.len() as int + 1) =~= d2);
}

/// The text shown for an optional port: its decimal value or `-`.
pub open spec fn port_text(p: Option<u16>) -> Seq<char> {
    match p {
        Some(v) => decimal(v as nat),
        None => "-"@,
    }
}

/// The text shown for an optional string: the string or `-`.
pub open spec fn field_text(o: Option<Seq<char>>) -> Seq<char> {
    match o {
        Some(s) => s,
        None => "-"@,
    }
}

/// The summary of a tunnel: eight labelled lines, `-` standing for an
/// absent value and `yes`/`no` for `IdentitiesOnly`.
pub open spec fn spec_display_info(t: TunnelModel) -> Seq<char> {
    "Local Port : "@ + port_text(t.local_port) + "\nRemote Host: "@ + field_text(t.remote_forward)
        + "\nRemote Port: "@ + port_text(t.remote_port) + "\nUser       : "@ + field_text(t.user)
        + "\nHostname   : "@ + field_text(t.hostname) + "\nSSH Port   : "@ + port_text(t.port)
        + "\nIdentFile  : "@ + field_text(t.identity_file) + "\nIdent. Only: "@ + (
    if t.identities_only {
        "yes"@
    } else {
        "no"@
    })
}

/// Each line of the summary shows its own field and nothing else decides
/// it: it starts with the local port line; the remote host, remote port,
/// user, host name, SSH port and identity file each stand between their own
/// label and the next label; and the last line reads `Ident. Only: yes`
/// exactly when `identities_only` holds (`no` otherwise), whatever the
/// identity file.
pub proof fn lemma_display_info_lines(t: TunnelModel)
    ensures
        ("Local Port : "@ + port_text(t.local_port) + "\nRemote Host: "@).is_prefix_of(
            spec_display_info(t),
        ),
        crate::text::has_infix(
            spec_display_info(t),
            "\nRemote Host: "@ + field_text(t.remote_forward) + "\nRemote Port: "@,
        ),
        crate::text::has_infix(
            spec_display_info(t),
            "\nRemote Port: "@ + port_text(t.remote_port) + "\nUser       : "@,
        ),
        crate::text::has_infix(
            spec_display_info(t),
            "\nUser       : "@ + field_text(t.user) + "\nHostname   : "@,
        ),
        crate::text::has_infix(
            spec_display_info(t),
            "\nHostname   : "@ + field_text(t.hostname) + "\nSSH Port   : "@,
        ),
        crate::text::has_infix(
            spec_display_info(t),
            "\nSSH Port   : "@ + port_text(t.port) + "\nIdentFile  : "@,
        ),
        crate::text::has_infix(
            spec_display_info(t),
            "\nIdentFile  : "@ + field_text(t.identity_file) + "\nIdent. Only: "@,
        ),
        t.identities_only ==> ("\nIdent. Only: "@ + "yes"@).is_suffix_of(spec_display_info(t)),
        !t.identities_only ==> ("\nIdent. Only: "@ + "no"@).is_suffix_of(spec_display_info(t)),
{
    let l1 = "Local Port : "@;
    let l2 = "\nRemote Host: "@;
    let l3 = "\nRemote Port: "@;
    let l4 = "\nUser       : "@;
    let l5 = "\nHostname   : "@;
    let l6 = "\nSSH Port   : "@;
    let l7 = "\nIdentFile  : "@;
    let l8 = "\nIdent. Only: "@;
    let v1 = port_text(t.local_port);
    let v2 = field_text(t.remote_forward);
    let v3 = port_text(t.remote_port);
    let v4 = field_text(t.user);
    let v5 = field_text(t.hostname);
    let v6 = port_text(t.port);
    let v7 = field_text(t.identity_file);
    let v8 = if t.identities_only {
        "yes"@
    } else {
        "no"@
    };
    let s = spec_display_info(t);
    assert(s == l1 + v1 + l2 + v2 + l3 + v3 + l4 + v4 + l5 + v5 + l6 + v6 + l7 + v7 + l8 + v8);
    assert((l1 + v1 + l2).is_prefix_of(l1 + v1 + l2)) by { assert((l1 + v1 + l2).subrange(0, (l1 + v1 + l2).len() as int) =~= l1 + v1 + l2); }
    crate::text::lemma_prefix_extend(l1 + v1 + l2, l1 + v1 + l2, v2);
    crate::text::lemma_prefix_extend(l1 + v1 + l2, l1 + v1 + l2 + v2, l3);
    crate::text::lemma_prefix_extend(l1 + v1 + l2, l1 + v1 + l2 + v2 + l3, v3);
    crate::text::lemma_prefix_extend(l1 + v1 + l2, l1 + v1 + l2 + v2 + l3 + v3, l4);
    crate::text::lemma_prefix_extend(l1 + v1 + l2, l1 + v1 + l2 + v2 + l3 + v3 + l4, v4);
    crate::text::lemma_prefix_extend(l1 + v1 + l2, l1 + v1 + l2 + v2 + l3 + v3 + l4 + v4, l5);
    crate::text::lemma_prefix_extend(l1 + v1 + l2, l1 + v1 + l2 + v2 + l3 + v3 + l4 + v4 + l5, v5);
    crate::text::lemma_prefix_extend(l1 + v1 + l2, l1 + v1 + l2 + v2 + l3 + v3 + l4 + v4 + l5 + v5, l6);
    crate::text::lemma_prefix_extend(l1 + v1 + l2, l1 + v1 + l2 + v2 + l3 + v3 + l4 + v4 + l5 + v5 + l6, v6);
    crate::text::lemma_prefix_extend(l1 + v1 + l2, l1 + v1 + l2 + v2 + l3 + v3 + l4 + v4 + l5 + v5 + l6 + v6, l7);
    crate::text::lemma_prefix_extend(l1 + v1 + l2, l1 + v1 + l2 + v2 + l3 + v3 + l4 + v4 + l5 + v5 + l6 + v6 + l7, v7);
    crate::text::lemma_prefix_extend(l1 + v1 + l2, l1 + v1 + l2 + v2 + l3 + v3 + l4 + v4 + l5 + v5 + l6 + v6 + l7 + v7, l8);
    crate::text::lemma_prefix_extend(l1 + v1 + l2, l1 + v1 + l2 + v2 + l3 + v3 + l4 + v4 + l5 + v5 + l6 + v6 + l7 + v7 + l8, v8);
    crate::text::lemma_infix_last3(l1 + v1, l2, v2, l3);
    crate::text::lemma_infix_extend(l1 + v1 + l2 + v2 + l3, l2 + v2 + l3, v3);
    crate::text::lemma_infix_extend(l1 + v1 + l2 + v2 + l3 + v3, l2 + v2 + l3, l4);
    crate::text::lemma_infix_extend(l1 + v1 + l2 + v2 + l3 + v3 + l4, l2 + v2 + l3, v4);
    crate::text::lemma_infix_extend(l1 + v1 + l2 + v2 + l3 + v3 + l4 + v4, l2 + v2 + l3, l5);
    crate::text::lemma_infix_extend(l1 + v1 + l2 + v2 + l3 + v3 + l4 + v4 + l5, l2 + v2 + l3, v5);
    crate::text::lemma_infix_extend(l1 + v1 + l2 + v2 + l3 + v3 + l4 + v4 + l5 + v5, l2 + v2 + l3, l6);
    crate::text::lemma_infix_extend(l1 + v1 + l2 + v2 + l3 + v3 + l4 + v4 + l5 + v5 + l6, l2 + v2 + l3, v6);
    crate::text::lemma_infix_extend(l1 + v1 + l2 + v2 + l3 + v3 + l4 + v4 + l5 + v5 + l6 + v6, l2 + v2 + l3, l7);
    crate::text::lemma_infix_extend(l1 + v1 + l2 + v2 + l3 + v3 + l4 + v4 + l5 + v5 + l6 + v6 + l7, l2 + v2 + l3, v7);
    crate::text::lemma_infix_extend(l1 + v1 + l2 + v2 + l3 + v3 + l4 + v4 + l5 + v5 + l6 + v6 + l7 + v7, l2 + v2 + l3, l8);
    crate::text::lemma_infix_extend(l1 + v1 + l2 + v2 + l3 + v3 + l4 + v4 + l5 + v5 + l6 + v6 + l7 + v7 + l8, l2 + v2 + l3, v8);
    crate::text::lemma_infix_last3(l1 + v1 + l2 + v2, l3, v3, l4);
    crate::text::lemma_infix_extend(l1 + v1 + l2 + v2 + l3 + v3 + l4, l3 + v3 + l4, v4);
    crate::text::lemma_infix_extend(l1 + v1 + l2 + v2 + l3 + v3 + l4 + v4, l3 + v3 + l4, l5);
    crate::text::lemma_infix_extend(l1 + v1 + l2 + v2 + l3 + v3 + l4 + v4 + l5, l3 + v3 + l4, v5);
    crate::text::lemma_infix_extend(l1 + v1 + l2 + v2 + l3 + v3 + l4 + v4 + l5 + v5, l3 + v3 + l4, l6);
    crate::text::lemma_infix_extend(l1 + v1 + l2 + v2 + l3 + v3 + l4 + v4 + l5 + v5 + l6, l3 + v3 + l4, v6);
    crate::text::lemma_infix_extend(l1 + v1 + l2 + v2 + l3 + v3 + l4 + v4 + l5 + v5 + l6 + v6, l3 + v3 + l4, l7);
    crate::text::lemma_infix_extend(l1 + v1 + l2 + v2 + l3 + v3 + l4 + v4 + l5 + v5 + l6 + v6 + l7, l3 + v3 + l4, v7);
    crate::text::lemma_infix_extend(l1 + v1 + l2 + v2 + l3 + v3 + l4 + v4 + l5 + v5 + l6 + v6 + l7 + v7, l3 + v3 + l4, l8);
    crate::text::lemma_infix_extend(l1 + v1 + l2 + v2 + l3 + v3 + l4 + v4 + l5 + v5 + l6 + v6 + l7 + v7 + l8, l3 + v3 + l4, v8);
    crate::text::lemma_infix_last3(l1 + v1 + l2 + v2 + l3 + v3, l4, v4, l5);
    crate::text::lemma_infix_extend(l1 + v1 + l2 + v2 + l3 + v3 + l4 + v4 + l5, l4 + v4 + l5, v5);
    crate::text::lemma_infix_extend(l1 + v1 + l2 + v2 + l3 + v3 + l4 + v4 + l5 + v5, l4 + v4 + l5, l6);
    crate::text::lemma_infix_extend(l1 + v1 + l2 + v2 + l3 + v3 + l4 + v4 + l5 + v5 + l6, l4 + v4 + l5, v6);
    crate::text::lemma_infix_extend(l1 + v1 + l2 + v2 + l3 + v3 + l4 + v4 + l5 + v5 + l6 + v6, l4 + v4 + l5, l7);
    crate::text::lemma_infix_extend(l1 + v1 + l2 + v2 + l3 + v3 + l4 + v4 + l5 + v5 + l6 + v6 + l7, l4 + v4 + l5, v7);
    crate::text::lemma_infix_extend(l1 + v1 + l2 + v2 + l3 + v3 + l4 + v4 + l5 + v5 + l6 + v6 + l7 + v7, l4 + v4 + l5, l8);
    crate::text::lemma_infix_extend(l1 + v1 + l2 + v2 + l3 + v3 + l4 + v4 + l5 + v5 + l6 + v6 + l7 + v7 + l8, l4 + v4 + l5, v8);
    crate::text::lemma_infix_last3(l1 + v1 + l2 + v2 + l3 + v3 + l4 + v4, l5, v5, l6);
    crate::text::lemma_infix_extend(l1 + v1 + l2 + v2 + l3 + v3 + l4 + v4 + l5 + v5 + l6, l5 + v5 + l6, v6);
    crate::text::lemma_infix_extend(l1 + v1 + l2 + v2 + l3 + v3 + l4 + v4 + l5 + v5 + l6 + v6, l5 + v5 + l6, l7);
    crate::text::lemma_infix_extend(l1 + v1 + l2 + v2 + l3 + v3 + l4 + v4 + l5 + v5 + l6 + v6 + l7, l5 + v5 + l6, v7);
    crate::text::lemma_infix_extend(l1 + v1 + l2 + v2 + l3 + v3 + l4 + v4 + l5 + v5 + l6 + v6 + l7 + v7, l5 + v5 + l6, l8);
    crate::text::lemma_infix_extend(l1 + v1 + l2 + v2 + l3 + v3 + l4 + v4 + l5 + v5 + l6 + v6 + l7 + v7 + l8, l5 + v5 + l6, v8);
    crate::text::lemma_infix_last3(l1 + v1 + l2 + v2 + l3 + v3 + l4 + v4 + l5 + v5, l6, v6, l7);
    crate::text::lemma_infix_extend(l1 + v1 + l2 + v2 + l3 + v3 + l4 + v4 + l5 + v5 + l6 + v6 + l7, l6 + v6 + l7, v7);
    crate::text::lemma_infix_extend(l1 + v1 + l2 + v2 + l3 + v3 + l4 + v4 + l5 + v5 + l6 + v6 + l7 + v7, l6 + v6 + l7, l8);
    crate::text::lemma_infix_extend(l1 + v1 + l2 + v2 + l3 + v3 + l4 + v4 + l5 + v5 + l6 + v6 + l7 + v7 + l8, l6 + v6 + l7, v8);
    crate::text::lemma_infix_last3(l1 + v1 + l2 + v2 + l3 + v3 + l4 + v4 + l5 + v5 + l6 + v6, l7, v7, l8);
    crate::text::lemma_infix_extend(l1 + v1 + l2 + v2 + l3 + v3 + l4 + v4 + l5 + v5 + l6 + v6 + l7 + v7 + l8, l7 + v7 + l8, v8);
    assert(s.subrange(s.len() - (l8 + v8).len(), s.len() as int) =~= l8 + v8);
}

fn append_port(out: &mut String, p: Option<u16>)
    ensures
        final(out)@ == old(out)@ + port_text(p),
{
    match p {
        Some(v) => append_decimal(out, v),
        None => out.append("-"),
    }
}

fn append_field(out: &mut String, o: &Option<String>)
    ensures
        final(out)@ == old(out)@ + field_text(opt_chars(*o)),
{
    match o {
        Some(s) => out.append(s.as_str()),
        None => out.append("-"),
    }
}

impl Tunnel {
    /// The path of this tunnel's control socket.
    pub fn socket_path(&self) -> (res: String)
        ensures
            res@ == spec_socket_path(self.name@),
    {
        socket_path_for(self.name.as_str())
    }

    /// Parse a LocalForward/RemoteForward value into (local_port, remote_host, remote_port).
    /// Format: "[bind_addr:]local_port remote_host:remote_port"
    pub fn parse_forward(raw: &str) -> (res: (Option<u16>, Option<String>, Option<u16>))
        ensures
            (res.0, opt_chars(res.1), res.2) == spec_parse_forward(raw@),
    {
        let chars = chars_of(raw);
        assert(chars@.subrange(0, chars@.len() as int) =~= raw@);
        parse_forward_chars(&chars, 0, chars.len())
    }

    /// A multi-line summary of the tunnel's settings.
    pub fn display_info(&self) -> (res: String)
        ensures
            res@ == spec_display_info(self@),
    {
        let mut out = String::new();
        out.append("Local Port : ");
        append_port(&mut out, self.local_port);
        out.append("\nRemote Host: ");
        append_field(&mut out, &self.remote_forward);
        out.append("\nRemote Port: ");
        append_port(&mut out, self.remote_port);
        out.append("\nUser       : ");
        append_field(&mut out, &self.user);
        out.append("\nHostname   : ");
        append_field(&mut out, &self.hostname);
        out.append("\nSSH Port   : ");
        append_port(&mut out, self.port);
        out.append("\nIdentFile  : ");
        append_field(&mut out, &self.identity_file);
        out.append("\nIdent. Only: ");
        if self.identities_only {
            out.append("yes");
        } else {
            out.append("no");
        }
        assert(out@ =~= spec_display_info(self@));
        out
    }
}

} // verus!
