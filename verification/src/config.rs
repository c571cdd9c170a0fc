//! Reading tunnel definitions out of an SSH client configuration.
//!
//! Each line is trimmed; blank lines and `#` comments are skipped. The other
//! lines are matched, in order, against the keyword patterns below (with the
//! `regex` crate); the first that matches decides what the line sets. A `Host`
//! line closes the section before it, which becomes a tunnel when it has a
//! host name and a forward.
use vstd::prelude::*;
use crate::decimal::spec_parse_u16;
use crate::text::{chars_of, trim, trim_range, string_from_chars};
use crate::tunnel::{Tunnel, TunnelModel, opt_chars, spec_parse_forward, parse_forward_chars};

verus! {

/// `regex::Regex`, held opaquely.
#[verifier::external_type_specification]
#[verifier::external_body]
pub struct ExRegex(regex::Regex);

/// Whether `regex::Regex::new` accepts `pattern`.
pub uninterp spec fn regex_compiles(pattern: Seq<char>) -> bool;

/// The text of capture group `group` in the first match that the regex
/// compiled from `pattern` finds in `text`; `None` when there is no match or
/// the group takes no part in it.
pub uninterp spec fn regex_capture(pattern: Seq<char>, text: Seq<char>, group: nat) -> Option<Seq<char>>;

/// A compiled regular expression together with the pattern it was compiled
/// from. Its fields are private to this module and only [`Pattern::compile`]
/// builds one, so the two always agree; [`Pattern::capture`] relies on it.
pub(crate) struct Pattern {
    regex: regex::Regex,
    source: Ghost<Seq<char>>,
}

impl Pattern {
    /// The pattern this regular expression was compiled from.
    pub(crate) closed spec fn source(&self) -> Seq<char> {
        self.source@
    }

    /// Compiles `pattern` with `regex::Regex::new`.
    ///
    /// Trusted: the result is `Some` exactly when `Regex::new` returns `Ok`
    /// (named by `regex_compiles`), and then it records `pattern` as its
    /// source. Which patterns compile is not stated.
    #[verifier::external_body]
    pub(crate) fn compile(pattern: &str) -> (res: Option<Pattern>)
        ensures
            res is Some <==> regex_compiles(pattern@),
            res matches Some(p) ==> p.source() == pattern@,
    {
        match regex::Regex::new(pattern) {
            Ok(regex) => Some(Pattern { regex, source: Ghost(pattern@) }),
            Err(_) => None,
        }
    }

    /// The text of capture group `group` in the first match in `text`.
    ///
    /// Trusted: calls `regex::Regex::captures` and then `Captures::get`; the
    /// result is the named `regex_capture` of this pattern's source, the
    /// text and the group. What the regular expression matches is not
    /// stated.
    #[verifier::external_body]
    pub(crate) fn capture(&self, text: &str, group: usize) -> (res: Option<String>)
        ensures
            opt_chars(res) == regex_capture(self.source(), text@, group as nat),
    {
        match self.regex.captures(text) {
            Some(caps) => match caps.get(group) {
                Some(m) => Some(m.as_str().to_string()),
                None => None,
            },
            None => None,
        }
    }
}

/// `Host <name>`.
pub const HOST_PATTERN: &'static str = r"(?i)^Host\s+(.+)$";

/// `User <name>`.
pub const USER_PATTERN: &'static str = r"(?i)^User\s+(.+)$";

/// `Hostname <address>`.
pub const HOSTNAME_PATTERN: &'static str = r"(?i)^Hostname\s+(.+)$";

/// `Port <digits>`.
pub const PORT_PATTERN: &'static str = r"(?i)^Port\s+(\d+)$";

/// `IdentityFile <path>`.
pub const IDENTITY_FILE_PATTERN: &'static str = r"(?i)^IdentityFile\s+(.+)$";

/// `IdentitiesOnly <yes|no>`.
pub const IDENTITIES_ONLY_PATTERN: &'static str = r"(?i)^IdentitiesOnly\s+(.+)$";

/// `LocalForward <spec>` or `RemoteForward <spec>`; the spec is group 2.
pub const FORWARD_PATTERN: &'static str = r"(?i)^(LocalForward|RemoteForward)\s+(.+)$";

/// Whether all seven keyword patterns compile.
pub open spec fn all_patterns_compile() -> bool {
    &&& regex_compiles(HOST_PATTERN@)
    &&& regex_compiles(USER_PATTERN@)
    &&& regex_compiles(HOSTNAME_PATTERN@)
    &&& regex_compiles(PORT_PATTERN@)
    &&& regex_compiles(IDENTITY_FILE_PATTERN@)
    &&& regex_compiles(IDENTITIES_ONLY_PATTERN@)
    &&& regex_compiles(FORWARD_PATTERN@)
}

/// What each keyword pattern captures from one line.
pub struct LineCaptures {
    pub host: Option<String>,
    pub user: Option<String>,
    pub hostname: Option<String>,
    pub port: Option<String>,
    pub identity_file: Option<String>,
    pub identities_only: Option<String>,
    pub forward: Option<String>,
}

/// The compiled keyword patterns.
pub struct ConfigPatterns {
    host: Pattern,
    user: Pattern,
    hostname: Pattern,
    port: Pattern,
    identity_file: Pattern,
    identities_only: Pattern,
    forward: Pattern,
}

impl ConfigPatterns {
    /// The patterns' sources are the keyword patterns.
    pub closed spec fn wf(&self) -> bool {
        &&& self.host.source() == HOST_PATTERN@
        &&& self.user.source() == USER_PATTERN@
        &&& self.hostname.source() == HOSTNAME_PATTERN@
        &&& self.port.source() == PORT_PATTERN@
        &&& self.identity_file.source() == IDENTITY_FILE_PATTERN@
        &&& self.identities_only.source() == IDENTITIES_ONLY_PATTERN@
        &&& self.forward.source() == FORWARD_PATTERN@
    }

    /// Compiles the seven keyword patterns; `None` if one of them does not
    /// compile.
    pub fn new() -> (res: Option<ConfigPatterns>)
        ensures
            res is Some <==> all_patterns_compile(),
            res matches Some(p) ==> p.wf(),
    {
        let host = Pattern::compile(HOST_PATTERN);
        let user = Pattern::compile(USER_PATTERN);
        let hostname = Pattern::compile(HOSTNAME_PATTERN);
        let port = Pattern::compile(PORT_PATTERN);
        let identity_file = Pattern::compile(IDENTITY_FILE_PATTERN);
        let identities_only = Pattern::compile(IDENTITIES_ONLY_PATTERN);
        let forward = Pattern::compile(FORWARD_PATTERN);
        match (host, user, hostname, port, identity_file, identities_only, forward) {
            (
                Some(host),
                Some(user),
                Some(hostname),
                Some(port),
                Some(identity_file),
                Some(identities_only),
                Some(forward),
            ) => Some(
                ConfigPatterns {
                    host,
                    user,
                    hostname,
                    port,
                    identity_file,
                    identities_only,
                    forward,
                },
            ),
            _ => None,
        }
    }

    /// Matches one (trimmed) line against every keyword pattern.
    pub fn captures(&self, line: &str) -> (res: LineCaptures)
        requires
            self.wf(),
        ensures
            opt_chars(res.host) == regex_capture(HOST_PATTERN@, line@, 1),
            opt_chars(res.user) == regex_capture(USER_PATTERN@, line@, 1),
            opt_chars(res.hostname) == regex_capture(HOSTNAME_PATTERN@, line@, 1),
            opt_chars(res.port) == regex_capture(PORT_PATTERN@, line@, 1),
            opt_chars(res.identity_file) == regex_capture(IDENTITY_FILE_PATTERN@, line@, 1),
            opt_chars(res.identities_only) == regex_capture(IDENTITIES_ONLY_PATTERN@, line@, 1),
            opt_chars(res.forward) == regex_capture(FORWARD_PATTERN@, line@, 2),
    {
        LineCaptures {
            host: self.host.capture(line, 1),
            user: self.user.capture(line, 1),
            hostname: self.hostname.capture(line, 1),
            port: self.port.capture(line, 1),
            identity_file: self.identity_file.capture(line, 1),
            identities_only: self.identities_only.capture(line, 1),
            forward: self.forward.capture(line, 2),
        }
    }
}

/// What one configuration line sets.
pub enum Directive {
    Host(String),
    User(String),
    Hostname(String),
    Port(Option<u16>),
    IdentityFile(String),
    IdentitiesOnly(bool),
    Forward(Option<u16>, Option<String>, Option<u16>),
    Ignored,
}

/// The abstract value of a [`Directive`].
pub enum DirectiveModel {
    Host(Seq<char>),
    User(Seq<char>),
    Hostname(Seq<char>),
    Port(Option<u16>),
    IdentityFile(Seq<char>),
    IdentitiesOnly(bool),
    Forward(Option<u16>, Option<Seq<char>>, Option<u16>),
    Ignored,
}

impl View for Directive {
    type V = DirectiveModel;

    open spec fn view(&self) -> DirectiveModel {
        match self {
            Directive::Host(s) => DirectiveModel::Host(s@),
            Directive::User(s) => DirectiveModel::User(s@),
            Directive::Hostname(s) => DirectiveModel::Hostname(s@),
            Directive::Port(p) => DirectiveModel::Port(*p),
            Directive::IdentityFile(s) => DirectiveModel::IdentityFile(s@),
            Directive::IdentitiesOnly(b) => DirectiveModel::IdentitiesOnly(*b),
            Directive::Forward(lp, rf, rp) => DirectiveModel::Forward(*lp, opt_chars(*rf), *rp),
            Directive::Ignored => DirectiveModel::Ignored,
        }
    }
}

/// ASCII upper-case letters turned to lower case; other characters unchanged.
pub open spec fn ascii_lower(c: char) -> char {
    if 'A' <= c && c <= 'Z' {
        ((c as int) + 32) as char
    } else {
        c
    }
}

/// Whether `s` equals `yes` up to ASCII case, as `eq_ignore_ascii_case` decides.
pub open spec fn is_yes(s: Seq<char>) -> bool {
    &&& s.len() == 3
    &&& ascii_lower(s[0]) == 'y'
    &&& ascii_lower(s[1]) == 'e'
    &&& ascii_lower(s[2]) == 's'
}

/// The directive of a line, from what the keyword patterns captured in it:
/// the first pattern that matched decides. Names, paths and forward values
/// are trimmed; the port is parsed as a `u16` (`None` if it does not fit).
pub open spec fn spec_directive(
    host: Option<Seq<char>>,
    user: Option<Seq<char>>,
    hostname: Option<Seq<char>>,
    port: Option<Seq<char>>,
    identity_file: Option<Seq<char>>,
    identities_only: Option<Seq<char>>,
    forward: Option<Seq<char>>,
) -> DirectiveModel {
    if let Some(c) = host {
        DirectiveModel::Host(trim(c))
    } else if let Some(c) = user {
        DirectiveModel::User(trim(c))
    } else if let Some(c) = hostname {
        DirectiveModel::Hostname(trim(c))
    } else if let Some(c) = port {
        DirectiveModel::Port(spec_parse_u16(c))
    } else if let Some(c) = identity_file {
        DirectiveModel::IdentityFile(trim(c))
    } else if let Some(c) = identities_only {
        DirectiveModel::IdentitiesOnly(is_yes(trim(c)))
    } else if let Some(c) = forward {
        let f = spec_parse_forward(trim(c));
        DirectiveModel::Forward(f.0, f.1, f.2)
    } else {
        DirectiveModel::Ignored
    }
}

/// `s` with surrounding whitespace removed, as a new `String`.
fn trimmed(s: &str) -> (res: String)
    ensures
        res@ == trim(s@),
{
    let chars = chars_of(s);
    let (a, b) = trim_range(&chars, 0, chars.len());
    assert(chars@.subrange(0, chars@.len() as int) =~= s@);
    string_from_chars(&chars, a, b)
}

/// Whether `s`, once trimmed, is `yes` in any ASCII case.
fn trimmed_is_yes(s: &str) -> (res: bool)
    ensures
        res == is_yes(trim(s@)),
{
    let chars = chars_of(s);
    let (a, b) = trim_range(&chars, 0, chars.len());
    assert(chars@.subrange(0, chars@.len() as int) =~= s@);
    let ghost t = chars@.subrange(a as int, b as int);
    if b - a != 3 {
        return false;
    }
    assert(t[0] == chars@[a as int] && t[1] == chars@[a + 1] && t[2] == chars@[a + 2]);
    lower_is(chars[a], 'y') && lower_is(chars[a + 1], 'e') && lower_is(chars[a + 2], 's')
}

/// Whether `c` lower-cases (ASCII only) to `lower`.
fn lower_is(c: char, lower: char) -> (res: bool)
    ensures
        res == (ascii_lower(c) == lower),
{
    if 'A' <= c && c <= 'Z' {
        let l = ((c as u32) + 32) as u8;
        assert(ascii_lower(c) == ((c as int) + 32) as char);
        (l as char) == lower
    } else {
        c == lower
    }
}

impl LineCaptures {
    /// The directive these captures stand for.
    pub fn directive(&self) -> (res: Directive)
        ensures
            res@ == spec_directive(
                opt_chars(self.host),
                opt_chars(self.user),
                opt_chars(self.hostname),
                opt_chars(self.port),
                opt_chars(self.identity_file),
                opt_chars(self.identities_only),
                opt_chars(self.forward),
            ),
    {
        if let Some(c) = &self.host {
            Directive::Host(trimmed(c.as_str()))
        } else if let Some(c) = &self.user {
            Directive::User(trimmed(c.as_str()))
        } else if let Some(c) = &self.hostname {
            Directive::Hostname(trimmed(c.as_str()))
        } else if let Some(c) = &self.port {
            let chars = chars_of(c.as_str());
            assert(chars@.subrange(0, chars@.len() as int) =~= c@);
            Directive::Port(crate::decimal::parse_u16_chars(&chars, 0, chars.len()))
        } else if let Some(c) = &self.identity_file {
            Directive::IdentityFile(trimmed(c.as_str()))
        } else if let Some(c) = &self.identities_only {
            Directive::IdentitiesOnly(trimmed_is_yes(c.as_str()))
        } else if let Some(c) = &self.forward {
            let chars = chars_of(c.as_str());
            let (a, b) = trim_range(&chars, 0, chars.len());
            assert(chars@.subrange(0, chars@.len() as int) =~= c@);
            let (lp, rf, rp) = parse_forward_chars(&chars, a, b);
            Directive::Forward(lp, rf, rp)
        } else {
            Directive::Ignored
        }
    }
}

/// The state of a parse: the tunnels found so far, the name of the open
/// `Host` section (if one is open) and the settings seen since it opened.
/// The `name` of `pending` is not used.
pub struct ParserModel {
    pub tunnels: Seq<TunnelModel>,
    pub host: Option<Seq<char>>,
    pub pending: TunnelModel,
}

/// No settings.
pub open spec fn blank_settings() -> TunnelModel {
    TunnelModel {
        name: Seq::empty(),
        local_port: None,
        remote_forward: None,
        remote_port: None,
        user: None,
        hostname: None,
        port: None,
        identity_file: None,
        identities_only: false,
    }
}

/// The state before the first line.
pub open spec fn initial_model() -> ParserModel {
    ParserModel { tunnels: Seq::empty(), host: None, pending: blank_settings() }
}

/// Whether a section's settings define a tunnel: a local port or a remote
/// host was given.
pub open spec fn has_forward(t: TunnelModel) -> bool {
    t.local_port is Some || t.remote_forward is Some
}

/// Closing a section: when it has a host name and a forward, its settings
/// under that name are added to the tunnels.
pub open spec fn spec_flush(
    tunnels: Seq<TunnelModel>,
    host: Option<Seq<char>>,
    settings: TunnelModel,
) -> Seq<TunnelModel> {
    match host {
        Some(name) => if has_forward(settings) {
            tunnels.push(TunnelModel { name, ..settings })
        } else {
            tunnels
        },
        None => tunnels,
    }
}

/// One directive applied to the state: `Host` closes the open section and
/// opens a new one with no settings; the others set their fields of the
/// open section (a forward sets the local port, remote host and remote port
/// together); an ignored line changes nothing.
pub open spec fn spec_apply(m: ParserModel, d: DirectiveModel) -> ParserModel {
    let p = m.pending;
    match d {
        DirectiveModel::Host(name) => ParserModel {
            tunnels: spec_flush(m.tunnels, m.host, p),
            host: Some(name),
            pending: blank_settings(),
        },
        DirectiveModel::User(u) => ParserModel { pending: TunnelModel { user: Some(u), ..p }, ..m },
        DirectiveModel::Hostname(h) => ParserModel {
            pending: TunnelModel { hostname: Some(h), ..p },
            ..m
        },
        DirectiveModel::Port(port) => ParserModel { pending: TunnelModel { port, ..p }, ..m },
        DirectiveModel::IdentityFile(f) => ParserModel {
            pending: TunnelModel { identity_file: Some(f), ..p },
            ..m
        },
        DirectiveModel::IdentitiesOnly(b) => ParserModel {
            pending: TunnelModel { identities_only: b, ..p },
            ..m
        },
        DirectiveModel::Forward(lp, rf, rp) => ParserModel {
            pending: TunnelModel { local_port: lp, remote_forward: rf, remote_port: rp, ..p },
            ..m
        },
        DirectiveModel::Ignored => m,
    }
}

/// The tunnels of a finished parse: the open section is closed.
pub open spec fn spec_finish(m: ParserModel) -> Seq<TunnelModel> {
    spec_flush(m.tunnels, m.host, m.pending)
}

/// The abstract values of a list of tunnels.
pub open spec fn tunnel_models(v: Seq<Tunnel>) -> Seq<TunnelModel> {
    v.map_values(|t: Tunnel| t@)
}

/// A parse in progress over directives.
pub struct ConfigParser {
    tunnels: Vec<Tunnel>,
    current_host: Option<String>,
    pending: Tunnel,
}

impl View for ConfigParser {
    type V = ParserModel;

    closed spec fn view(&self) -> ParserModel {
        ParserModel {
            tunnels: tunnel_models(self.tunnels@),
            host: opt_chars(self.current_host),
            pending: TunnelModel { name: Seq::empty(), ..self.pending@ },
        }
    }
}

/// A tunnel with no name and no settings.
fn blank_tunnel() -> (res: Tunnel)
    ensures
        res@ == blank_settings(),
{
    Tunnel {
        name: String::new(),
        local_port: None,
        remote_forward: None,
        remote_port: None,
        user: None,
        hostname: None,
        port: None,
        identity_file: None,
        identities_only: false,
    }
}

/// Adds the section `settings`, named `host`, to `tunnels` when it is a tunnel.
fn flush(tunnels: &mut Vec<Tunnel>, host: Option<String>, settings: Tunnel)
    ensures
        tunnel_models(final(tunnels)@) == spec_flush(
            tunnel_models(old(tunnels)@),
            opt_chars(host),
            settings@,
        ),
{
    if let Some(name) = host {
        if settings.local_port.is_some() || settings.remote_forward.is_some() {
            let mut t = settings;
            t.name = name;
            tunnels.push(t);
            assert(tunnel_models(tunnels@) =~= tunnel_models(old(tunnels)@).push(t@));
        }
    }
}

impl ConfigParser {
    /// Applies one line of a configuration: trims it, skips it when blank or
    /// a comment, and otherwise applies its directive.
    pub fn apply_line(&mut self, patterns: &ConfigPatterns, chars: &Vec<char>, lo: usize, hi: usize)
        requires
            patterns.wf(),
            lo <= hi <= chars@.len(),
        ensures
            final(self)@ == spec_apply_line(old(self)@, chars@.subrange(lo as int, hi as int)),
    {
        let (a, b) = trim_range(chars, lo, hi);
        if a < b && chars[a] != '#' {
            let line = string_from_chars(chars, a, b);
            let caps = patterns.captures(line.as_str());
            let d = caps.directive();
            self.apply(d);
        }
    }

    /// A parser before the first line.
    pub fn new() -> (res: ConfigParser)
        ensures
            res@ == initial_model(),
    {
        let res = ConfigParser { tunnels: Vec::new(), current_host: None, pending: blank_tunnel() };
        assert(res@.tunnels =~= Seq::<TunnelModel>::empty());
        res
    }

    /// Applies one directive.
    pub fn apply(&mut self, d: Directive)
        ensures
            final(self)@ == spec_apply(old(self)@, d@),
    {
        match d {
            Directive::Host(name) => {
                let mut settings = blank_tunnel();
                std::mem::swap(&mut settings, &mut self.pending);
                let mut host = Some(name);
                std::mem::swap(&mut host, &mut self.current_host);
                flush(&mut self.tunnels, host, settings);
            },
            Directive::User(u) => {
                self.pending.user = Some(u);
            },
            Directive::Hostname(h) => {
                self.pending.hostname = Some(h);
            },
            Directive::Port(p) => {
                self.pending.port = p;
            },
            Directive::IdentityFile(f) => {
                self.pending.identity_file = Some(f);
            },
            Directive::IdentitiesOnly(b) => {
                self.pending.identities_only = b;
            },
            Directive::Forward(lp, rf, rp) => {
                self.pending.local_port = lp;
                self.pending.remote_forward = rf;
                self.pending.remote_port = rp;
            },
            Directive::Ignored => {},
        }
    }

    /// Closes the open section and returns the tunnels found.
    pub fn finish(self) -> (res: Vec<Tunnel>)
        ensures
            tunnel_models(res@) == spec_finish(self@),
    {
        let ConfigParser { tunnels, current_host, pending } = self;
        let mut tunnels = tunnels;
        flush(&mut tunnels, current_host, pending);
        tunnels
    }
}

/// The lines of `s`: the pieces between newlines, with no piece after a
/// final newline. (`str::lines` also drops a `\r` before each newline; every
/// line is trimmed before use, so the two agree on what is parsed.)
pub open spec fn split_lines(s: Seq<char>) -> Seq<Seq<char>>
    decreases s.len(),
{
    match s.index_of_first('\n') {
        Some(i) => {
            proof {
                s.index_of_first_ensures('\n');
            }
            seq![s.take(i)] + split_lines(s.skip(i + 1))
        },
        None => if s.len() == 0 {
            Seq::empty()
        } else {
            seq![s]
        },
    }
}

/// The directive of a trimmed, non-blank, non-comment line.
pub open spec fn spec_line_directive(line: Seq<char>) -> DirectiveModel {
    spec_directive(
        regex_capture(HOST_PATTERN@, line, 1),
        regex_capture(USER_PATTERN@, line, 1),
        regex_capture(HOSTNAME_PATTERN@, line, 1),
        regex_capture(PORT_PATTERN@, line, 1),
        regex_capture(IDENTITY_FILE_PATTERN@, line, 1),
        regex_capture(IDENTITIES_ONLY_PATTERN@, line, 1),
        regex_capture(FORWARD_PATTERN@, line, 2),
    )
}

/// One line applied to the state: blank lines and comments change nothing.
pub open spec fn spec_apply_line(m: ParserModel, line: Seq<char>) -> ParserModel {
    let t = trim(line);
    if t.len() == 0 || t[0] == '#' {
        m
    } else {
        spec_apply(m, spec_line_directive(t))
    }
}

/// Lines applied to the state, first to last.
pub open spec fn spec_apply_lines(m: ParserModel, lines: Seq<Seq<char>>) -> ParserModel
    decreases lines.len(),
{
    if lines.len() == 0 {
        m
    } else {
        spec_apply_lines(spec_apply_line(m, lines[0]), lines.drop_first())
    }
}

/// The tunnels that a configuration text defines, in the order of their
/// `Host` lines (none if a keyword pattern does not compile).
pub open spec fn spec_parse_content(content: Seq<char>) -> Seq<TunnelModel> {
    if all_patterns_compile() {
        spec_finish(spec_apply_lines(initial_model(), split_lines(content)))
    } else {
        Seq::empty()
    }
}

/// Splitting at the first newline, at position `k` (or `k == s.len()` when
/// there is none).
proof fn lemma_split_lines_step(s: Seq<char>, k: int)
    requires
        0 <= k <= s.len(),
        s.len() > 0,
        forall|j: int| 0 <= j < k ==> s[j] != '\n',
        k < s.len() ==> s[k] == '\n',
    ensures
        k < s.len() ==> split_lines(s) == seq![s.take(k)] + split_lines(s.skip(k + 1)),
        k == s.len() ==> split_lines(s) == seq![s],
{
    crate::text::lemma_first_index(s, '\n', k);
}

/// An empty text has no lines.
proof fn lemma_split_lines_empty()
    ensures
        split_lines(Seq::<char>::empty()) == Seq::<Seq<char>>::empty(),
{
    Seq::<char>::empty().index_of_first_ensures('\n');
}

/// Applying a first line and then the rest.
proof fn lemma_apply_lines_cons(m: ParserModel, line: Seq<char>, rest: Seq<Seq<char>>)
    ensures
        spec_apply_lines(m, seq![line] + rest) == spec_apply_lines(spec_apply_line(m, line), rest),
{
    assert((seq![line] + rest).drop_first() =~= rest);
    assert((seq![line] + rest)[0] == line);
}

/// Every tunnel in `tunnels` has a forward.
pub open spec fn all_have_forward(tunnels: Seq<TunnelModel>) -> bool {
    forall|i: int| 0 <= i < tunnels.len() ==> has_forward(#[trigger] tunnels[i])
}

proof fn lemma_flush_keeps_forward(tunnels: Seq<TunnelModel>, host: Option<Seq<char>>, p: TunnelModel)
    requires
        all_have_forward(tunnels),
    ensures
        all_have_forward(spec_flush(tunnels, host, p)),
{
    let r = spec_flush(tunnels, host, p);
    assert forall|i: int| 0 <= i < r.len() implies has_forward(#[trigger] r[i]) by {
        if i < tunnels.len() {
            assert(r[i] == tunnels[i]);
        }
    }
}

proof fn lemma_apply_lines_keeps_forward(m: ParserModel, lines: Seq<Seq<char>>)
    requires
        all_have_forward(m.tunnels),
    ensures
        all_have_forward(spec_apply_lines(m, lines).tunnels),
    decreases lines.len(),
{
    if lines.len() > 0 {
        let t = trim(lines[0]);
        if !(t.len() == 0 || t[0] == '#') {
            if let DirectiveModel::Host(_) = spec_line_directive(t) {
                lemma_flush_keeps_forward(m.tunnels, m.host, m.pending);
            }
        }
        lemma_apply_lines_keeps_forward(spec_apply_line(m, lines[0]), lines.drop_first());
    }
}

/// Every tunnel read from a configuration has a forward: a local port or a
/// remote host. (`Host` sections without a forward are skipped.)
pub proof fn lemma_parsed_tunnels_have_forward(content: Seq<char>)
    ensures
        all_have_forward(spec_parse_content(content)),
{
    if all_patterns_compile() {
        let m = spec_apply_lines(initial_model(), split_lines(content));
        lemma_apply_lines_keeps_forward(initial_model(), split_lines(content));
        lemma_flush_keeps_forward(m.tunnels, m.host, m.pending);
    }
}

/// Splitting a text whose first part ends at a line end splits the parts.
proof fn lemma_split_lines_concat(a: Seq<char>, b: Seq<char>)
    requires
        a.len() == 0 || a.last() == '\n',
    ensures
        split_lines(a + b) == split_lines(a) + split_lines(b),
    decreases a.len(),
{
    if a.len() == 0 {
        assert(a + b =~= b);
        assert(a =~= Seq::<char>::empty());
        lemma_split_lines_empty();
        assert(Seq::<Seq<char>>::empty() + split_lines(b) =~= split_lines(b));
    } else {
        a.index_of_first_ensures('\n');
        let k = a.index_of_first('\n').unwrap();
        let ab = a + b;
        assert forall|j: int| 0 <= j < k implies ab[j] != '\n' by {
            assert(ab[j] == a[j]);
        }
        assert(ab[k] == a[k]);
        lemma_split_lines_step(ab, k);
        lemma_split_lines_step(a, k);
        assert(ab.take(k) =~= a.take(k));
        let rest = a.skip(k + 1);
        assert(ab.skip(k + 1) =~= rest + b);
        if rest.len() > 0 {
            assert(rest.last() == a.last());
        }
        lemma_split_lines_concat(rest, b);
        assert(split_lines(ab) == seq![a.take(k)] + split_lines(rest + b));
        assert(split_lines(a) == seq![a.take(k)] + split_lines(rest));
        assert(seq![a.take(k)] + (split_lines(rest) + split_lines(b)) =~= (seq![a.take(k)]
            + split_lines(rest)) + split_lines(b));
    }
}

/// Applying two runs of lines one after the other.
proof fn lemma_apply_lines_concat(m: ParserModel, first: Seq<Seq<char>>, second: Seq<Seq<char>>)
    ensures
        spec_apply_lines(m, first + second) == spec_apply_lines(spec_apply_lines(m, first), second),
    decreases first.len(),
{
    if first.len() == 0 {
        assert(first + second =~= second);
    } else {
        assert((first + second)[0] == first[0]);
        assert((first + second).drop_first() =~= first.drop_first() + second);
        lemma_apply_lines_concat(spec_apply_line(m, first[0]), first.drop_first(), second);
    }
}

/// Blank lines and comment lines are ignored: inserting one at a line
/// boundary anywhere in a configuration does not change its tunnels.
pub proof fn lemma_blank_and_comment_lines_ignored(before: Seq<char>, line: Seq<char>, after: Seq<char>)
    requires
        before.len() == 0 || before.last() == '\n',
        !line.contains('\n'),
        trim(line).len() == 0 || trim(line)[0] == '#',
    ensures
        spec_parse_content(before + line + seq!['\n'] + after) == spec_parse_content(before + after),
{
    let rest = line + seq!['\n'] + after;
    assert(before + line + seq!['\n'] + after =~= before + rest);
    lemma_split_lines_concat(before, rest);
    lemma_split_lines_concat(before, after);
    assert forall|j: int| 0 <= j < line.len() implies rest[j] != '\n' by {
        assert(rest[j] == line[j]);
        assert(!(line[j] == '\n'));
    }
    assert(rest[line.len() as int] == '\n');
    lemma_split_lines_step(rest, line.len() as int);
    assert(rest.take(line.len() as int) =~= line);
    assert(rest.skip(line.len() as int + 1) =~= after);
    let a = split_lines(before);
    let m = spec_apply_lines(initial_model(), a);
    lemma_apply_lines_concat(initial_model(), a, seq![line] + split_lines(after));
    lemma_apply_lines_concat(initial_model(), a, split_lines(after));
    lemma_apply_lines_cons(m, line, split_lines(after));
}

/// A comment line is ignored: inserting, at a line boundary anywhere in a
/// configuration, a line made of spaces or tabs, then `#`, then any text
/// (a commented-out `Host` or forward, say) does not change its tunnels.
pub proof fn lemma_comment_line_ignored(
    before: Seq<char>,
    indent: Seq<char>,
    text: Seq<char>,
    after: Seq<char>,
)
    requires
        before.len() == 0 || before.last() == '\n',
        forall|i: int| 0 <= i < indent.len() ==> (#[trigger] indent[i] == ' ' || indent[i] == '\t'),
        !text.contains('\n'),
    ensures
        spec_parse_content(before + indent + seq!['#'] + text + seq!['\n'] + after)
            == spec_parse_content(before + after),
{
    let rest = seq!['#'] + text;
    let line = indent + rest;
    assert forall|i: int| 0 <= i < indent.len() implies crate::text::spec_is_whitespace(
        #[trigger] indent[i],
    ) by {
        assert(indent[i] == ' ' || indent[i] == '\t');
    }
    crate::text::lemma_trim_first_character(indent, rest);
    assert(!line.contains('\n')) by {
        assert forall|j: int| 0 <= j < line.len() implies line[j] != '\n' by {
            if j < indent.len() {
                assert(line[j] == indent[j]);
            } else if j == indent.len() {
                assert(line[j] == '#');
            } else {
                assert(line[j] == text[j - indent.len() - 1]);
            }
        }
    }
    assert(before + indent + seq!['#'] + text + seq!['\n'] + after =~= before + line + seq!['\n']
        + after);
    lemma_blank_and_comment_lines_ignored(before, line, after);
}

/// The name a line gives to a `Host` section, if it is a `Host` line.
pub open spec fn host_line_name(line: Seq<char>) -> Option<Seq<char>> {
    let t = trim(line);
    if t.len() == 0 || t[0] == '#' {
        None
    } else {
        match regex_capture(HOST_PATTERN@, t, 1) {
            Some(c) => Some(trim(c)),
            None => None,
        }
    }
}

/// `name` is the name given by one of `lines`.
pub open spec fn named_by_line(lines: Seq<Seq<char>>, name: Seq<char>) -> bool {
    exists|k: int| 0 <= k < lines.len() && #[trigger] host_line_name(lines[k]) == Some(name)
}

/// Every name in the state (of a tunnel, or of the open section) is given
/// by one of `lines`.
pub open spec fn names_from(m: ParserModel, lines: Seq<Seq<char>>) -> bool {
    &&& forall|i: int| 0 <= i < m.tunnels.len() ==> named_by_line(lines, #[trigger] m.tunnels[i].name)
    &&& m.host matches Some(h) ==> named_by_line(lines, h)
}

proof fn lemma_flush_names(m: ParserModel, lines: Seq<Seq<char>>)
    requires
        names_from(m, lines),
    ensures
        forall|i: int| 0 <= i < spec_flush(m.tunnels, m.host, m.pending).len() ==> named_by_line(
            lines,
            #[trigger] spec_flush(m.tunnels, m.host, m.pending)[i].name,
        ),
{
    let r = spec_flush(m.tunnels, m.host, m.pending);
    assert forall|i: int| 0 <= i < r.len() implies named_by_line(lines, #[trigger] r[i].name) by {
        if i < m.tunnels.len() {
            assert(r[i] == m.tunnels[i]);
        }
    }
}

proof fn lemma_apply_lines_names(m: ParserModel, all: Seq<Seq<char>>, off: int)
    requires
        0 <= off <= all.len(),
        names_from(m, all),
    ensures
        names_from(spec_apply_lines(m, all.skip(off)), all),
    decreases all.len() - off,
{
    let lines = all.skip(off);
    if lines.len() > 0 {
        let line = lines[0];
        assert(line == all[off]);
        let m1 = spec_apply_line(m, line);
        let t = trim(line);
        if !(t.len() == 0 || t[0] == '#') {
            if let DirectiveModel::Host(n) = spec_line_directive(t) {
                lemma_flush_names(m, all);
                assert(host_line_name(all[off]) == Some(n));
            }
        }
        assert(names_from(m1, all));
        assert(lines.drop_first() =~= all.skip(off + 1));
        lemma_apply_lines_names(m1, all, off + 1);
    }
}

/// Every tunnel read from a configuration is named by one of its `Host`
/// lines: the trimmed text that the `Host` pattern captures there.
pub proof fn lemma_tunnel_names_from_host_lines(content: Seq<char>)
    ensures
        forall|i: int|
            0 <= i < spec_parse_content(content).len() ==> named_by_line(
                split_lines(content),
                #[trigger] spec_parse_content(content)[i].name,
            ),
{
    if all_patterns_compile() {
        let all = split_lines(content);
        assert(all.skip(0) =~= all);
        lemma_apply_lines_names(initial_model(), all, 0);
        lemma_flush_names(spec_apply_lines(initial_model(), all), all);
    }
}

/// The directives of those `lines` that are neither blank nor comments, in
/// order.
pub open spec fn directives_of_lines(lines: Seq<Seq<char>>) -> Seq<DirectiveModel>
    decreases lines.len(),
{
    if lines.len() == 0 {
        Seq::empty()
    } else {
        let t = trim(lines[0]);
        let first = if t.len() == 0 || t[0] == '#' {
            Seq::empty()
        } else {
            seq![spec_line_directive(t)]
        };
        first + directives_of_lines(lines.drop_first())
    }
}

/// The directives of a configuration text, line by line.
pub open spec fn config_directives(content: Seq<char>) -> Seq<DirectiveModel> {
    directives_of_lines(split_lines(content))
}

/// Directives applied to the state, first to last.
pub open spec fn apply_directives(m: ParserModel, ds: Seq<DirectiveModel>) -> ParserModel
    decreases ds.len(),
{
    if ds.len() == 0 {
        m
    } else {
        spec_apply(apply_directives(m, ds.drop_last()), ds.last())
    }
}

/// The value of the last `User` directive of a section, if any.
pub open spec fn last_user(sec: Seq<DirectiveModel>) -> Option<Seq<char>>
    decreases sec.len(),
{
    if sec.len() == 0 {
        None
    } else if let DirectiveModel::User(u) = sec.last() {
        Some(u)
    } else {
        last_user(sec.drop_last())
    }
}

/// The value of the last `Hostname` directive of a section, if any.
pub open spec fn last_hostname(sec: Seq<DirectiveModel>) -> Option<Seq<char>>
    decreases sec.len(),
{
    if sec.len() == 0 {
        None
    } else if let DirectiveModel::Hostname(h) = sec.last() {
        Some(h)
    } else {
        last_hostname(sec.drop_last())
    }
}

/// The port of the last `Port` directive of a section (`None` when there is
/// none, or when that port does not fit in a `u16`).
pub open spec fn last_port(sec: Seq<DirectiveModel>) -> Option<u16>
    decreases sec.len(),
{
    if sec.len() == 0 {
        None
    } else if let DirectiveModel::Port(p) = sec.last() {
        p
    } else {
        last_port(sec.drop_last())
    }
}

/// The value of the last `IdentityFile` directive of a section, if any.
pub open spec fn last_identity_file(sec: Seq<DirectiveModel>) -> Option<Seq<char>>
    decreases sec.len(),
{
    if sec.len() == 0 {
        None
    } else if let DirectiveModel::IdentityFile(f) = sec.last() {
        Some(f)
    } else {
        last_identity_file(sec.drop_last())
    }
}

/// The value of the last `IdentitiesOnly` directive of a section (`false`
/// when there is none).
pub open spec fn last_identities_only(sec: Seq<DirectiveModel>) -> bool
    decreases sec.len(),
{
    if sec.len() == 0 {
        false
    } else if let DirectiveModel::IdentitiesOnly(b) = sec.last() {
        b
    } else {
        last_identities_only(sec.drop_last())
    }
}

/// The parsed value of the last forward directive of a section (nothing
/// when there is none).
pub open spec fn last_forward(sec: Seq<DirectiveModel>) -> (Option<u16>, Option<Seq<char>>, Option<u16>)
    decreases sec.len(),
{
    if sec.len() == 0 {
        (None, None, None)
    } else if let DirectiveModel::Forward(lp, rf, rp) = sec.last() {
        (lp, rf, rp)
    } else {
        last_forward(sec.drop_last())
    }
}

/// The settings of a section: for each kind of setting, the last directive
/// of that kind wins.
pub open spec fn section_settings(sec: Seq<DirectiveModel>) -> TunnelModel {
    let f = last_forward(sec);
    TunnelModel {
        name: Seq::empty(),
        local_port: f.0,
        remote_forward: f.1,
        remote_port: f.2,
        user: last_user(sec),
        hostname: last_hostname(sec),
        port: last_port(sec),
        identity_file: last_identity_file(sec),
        identities_only: last_identities_only(sec),
    }
}

/// The position of the last `Host` directive, if any.
pub open spec fn last_host(ds: Seq<DirectiveModel>) -> Option<int>
    decreases ds.len(),
{
    if ds.len() == 0 {
        None
    } else if ds.last() is Host {
        Some(ds.len() - 1)
    } else {
        last_host(ds.drop_last())
    }
}

/// The name a `Host` directive gives.
pub open spec fn host_name(d: DirectiveModel) -> Seq<char> {
    match d {
        DirectiveModel::Host(n) => n,
        _ => Seq::empty(),
    }
}

/// The tunnel of the section named `name` with directives `sec`, when its
/// settings have a forward.
pub open spec fn section_tunnel(name: Seq<char>, sec: Seq<DirectiveModel>) -> Seq<TunnelModel> {
    let st = section_settings(sec);
    if has_forward(st) {
        seq![TunnelModel { name, ..st }]
    } else {
        Seq::empty()
    }
}

/// The tunnels of a run of directives, section by section: each `Host`
/// directive opens a section made of the directives up to the next `Host`
/// (or the end); in the order of the `Host` directives, each section whose
/// settings have a forward gives a tunnel named by its `Host` directive.
/// Directives before the first `Host` give nothing.
pub open spec fn tunnels_of(ds: Seq<DirectiveModel>) -> Seq<TunnelModel>
    decreases ds.len(),
{
    match last_host(ds) {
        Some(h) => if 0 <= h < ds.len() {
            tunnels_of(ds.take(h)) + section_tunnel(host_name(ds[h]), ds.skip(h + 1))
        } else {
            Seq::empty()
        },
        None => Seq::empty(),
    }
}

proof fn lemma_last_host_bounds(ds: Seq<DirectiveModel>)
    ensures
        last_host(ds) matches Some(h) ==> 0 <= h < ds.len() && ds[h] is Host,
    decreases ds.len(),
{
    if ds.len() > 0 && !(ds.last() is Host) {
        lemma_last_host_bounds(ds.drop_last());
    }
}

proof fn lemma_apply_directives_concat(m: ParserModel, a: Seq<DirectiveModel>, b: Seq<DirectiveModel>)
    ensures
        apply_directives(m, a + b) == apply_directives(apply_directives(m, a), b),
    decreases b.len(),
{
    if b.len() == 0 {
        assert(a + b =~= a);
    } else {
        assert((a + b).drop_last() =~= a + b.drop_last());
        assert((a + b).last() == b.last());
        lemma_apply_directives_concat(m, a, b.drop_last());
    }
}

proof fn lemma_lines_to_directives(m: ParserModel, lines: Seq<Seq<char>>)
    ensures
        spec_apply_lines(m, lines) == apply_directives(m, directives_of_lines(lines)),
    decreases lines.len(),
{
    if lines.len() == 0 {
    } else {
        let t = trim(lines[0]);
        let first = if t.len() == 0 || t[0] == '#' {
            Seq::<DirectiveModel>::empty()
        } else {
            seq![spec_line_directive(t)]
        };
        let rest = directives_of_lines(lines.drop_first());
        lemma_lines_to_directives(spec_apply_line(m, lines[0]), lines.drop_first());
        lemma_apply_directives_concat(m, first, rest);
        if first.len() == 0 {
            assert(apply_directives(m, first) == m);
        } else {
            assert(first.drop_last() =~= Seq::<DirectiveModel>::empty());
            assert(apply_directives(m, first.drop_last()) == m);
            assert(first.last() == spec_line_directive(t));
            assert(apply_directives(m, first) == spec_apply(m, spec_line_directive(t)));
        }
    }
}

/// The state after directives: the tunnels of the sections closed so far,
/// the open section's name, and its settings.
proof fn lemma_apply_directives_sections(ds: Seq<DirectiveModel>)
    ensures
        ({
            let m = apply_directives(initial_model(), ds);
            match last_host(ds) {
                Some(h) => {
                    &&& m.tunnels == tunnels_of(ds.take(h))
                    &&& m.host == Some(host_name(ds[h]))
                    &&& m.pending == section_settings(ds.skip(h + 1))
                },
                None => m.tunnels == Seq::<TunnelModel>::empty() && m.host is None,
            }
        }),
    decreases ds.len(),
{
    if ds.len() > 0 {
        let prev = ds.drop_last();
        let d = ds.last();
        lemma_apply_directives_sections(prev);
        lemma_last_host_bounds(prev);
        lemma_last_host_bounds(ds);
        let m0 = apply_directives(initial_model(), prev);
        let m = apply_directives(initial_model(), ds);
        assert(m == spec_apply(m0, d));
        if d is Host {
            assert(ds.take(ds.len() - 1) =~= prev);
            assert(ds.skip(ds.len() as int) =~= Seq::<DirectiveModel>::empty());
            match last_host(prev) {
                Some(h) => {
                    let sec = prev.skip(h + 1);
                    let st = section_settings(sec);
                    assert(tunnels_of(prev) == tunnels_of(prev.take(h)) + section_tunnel(
                        host_name(prev[h]),
                        sec,
                    ));
                    if has_forward(st) {
                        assert(tunnels_of(prev.take(h)).push(
                            TunnelModel { name: host_name(prev[h]), ..m0.pending },
                        ) =~= tunnels_of(prev.take(h)) + seq![
                            TunnelModel { name: host_name(prev[h]), ..st },
                        ]);
                    } else {
                        assert(tunnels_of(prev.take(h)) + Seq::<TunnelModel>::empty()
                            =~= tunnels_of(prev.take(h)));
                    }
                },
                None => {},
            }
        } else {
            assert(last_host(ds) == last_host(prev));
            match last_host(prev) {
                Some(h) => {
                    assert(ds.take(h) =~= prev.take(h));
                    assert(ds[h] == prev[h]);
                    let sec = ds.skip(h + 1);
                    assert(sec.drop_last() =~= prev.skip(h + 1));
                    assert(sec.last() == d);
                },
                None => {},
            }
        }
    }
}

/// The tunnels of a configuration, section by section: when the keyword
/// patterns compile, they are [`tunnels_of`] the configuration's directives.
/// In the order of the `Host` lines, each section (the lines up to the next
/// `Host` line) whose settings have a forward gives one tunnel, named by its
/// `Host` line; for each kind of setting, its last line in the section wins;
/// lines before the first `Host` line give nothing.
pub proof fn lemma_parse_content_by_sections(content: Seq<char>)
    ensures
        spec_parse_content(content) == (if all_patterns_compile() {
            tunnels_of(config_directives(content))
        } else {
            Seq::empty()
        }),
{
    if all_patterns_compile() {
        let ds = config_directives(content);
        lemma_lines_to_directives(initial_model(), split_lines(content));
        lemma_apply_directives_sections(ds);
        lemma_last_host_bounds(ds);
        match last_host(ds) {
            Some(h) => {
                let st = section_settings(ds.skip(h + 1));
                let m = apply_directives(initial_model(), ds);
                if has_forward(st) {
                    assert(m.tunnels.push(TunnelModel { name: host_name(ds[h]), ..m.pending })
                        =~= m.tunnels + seq![TunnelModel { name: host_name(ds[h]), ..st }]);
                } else {
                    assert(m.tunnels + Seq::<TunnelModel>::empty() =~= m.tunnels);
                }
            },
            None => {},
        }
    }
}

impl Tunnel {
    /// The tunnels that the configuration text `content` defines.
    pub fn parse_content(content: &str) -> (res: Vec<Tunnel>)
        ensures
            tunnel_models(res@) == spec_parse_content(content@),
    {
        let patterns = match ConfigPatterns::new() {
            Some(p) => p,
            None => {
                let res: Vec<Tunnel> = Vec::new();
                assert(tunnel_models(res@) =~= Seq::<TunnelModel>::empty());
                return res;
            },
        };
        let chars = chars_of(content);
        let mut parser = ConfigParser::new();
        let mut start: usize = 0;
        assert(chars@.skip(0) =~= chars@);
        while start < chars.len()
            invariant
                patterns.wf(),
                start <= chars@.len(),
                chars@ == content@,
                spec_apply_lines(parser@, split_lines(chars@.skip(start as int))) == spec_apply_lines(
                    initial_model(),
                    split_lines(content@),
                ),
            decreases chars@.len() - start,
        {
            let nl = crate::text::find_first(&chars, '\n', start, chars.len());
            let ghost s = chars@.skip(start as int);
            proof {
                lemma_split_lines_step(s, nl - start);
                assert(s.take(nl - start) =~= chars@.subrange(start as int, nl as int));
            }
            let ghost before = parser@;
            parser.apply_line(&patterns, &chars, start, nl);
            if nl < chars.len() {
                proof {
                    assert(s.skip(nl - start + 1) =~= chars@.skip(nl + 1));
                    lemma_apply_lines_cons(before, s.take(nl - start), split_lines(s.skip(nl - start + 1)));
                }
                start = nl + 1;
            } else {
                proof {
                    assert(s =~= chars@.subrange(start as int, nl as int));
                    assert(chars@.skip(chars@.len() as int) =~= Seq::<char>::empty());
                    lemma_apply_lines_cons(before, s, Seq::empty());
                    assert(seq![s] + Seq::<Seq<char>>::empty() =~= seq![s]);
                    lemma_split_lines_empty();
                }
                start = chars.len();
            }
        }
        proof {
            assert(chars@.skip(start as int) =~= Seq::<char>::empty());
            lemma_split_lines_empty();
        }
        parser.finish()
    }
}

} // verus!
