//! From a saved SFTP connection and the SSH configuration to the endpoints to connect to.

use vstd::prelude::*;
use vstd::slice::slice_subrange;

use crate::ip_address::{ipv6_words, parse_ipv6};
use crate::model::connection::{clone_texts, ConnectionSpec, SftpAuth};
use crate::net::error::NetError;
use crate::net::ssh_config::{
    any_host_breaker, has_host_breaker, is_none_word, is_ssh_error, no_params, params_for,
    ssh_error, ConfigView, HostParams, ParamsView, SshConfig, MAX_SSH_HOST_BYTES, MAX_SSH_USER_BYTES,
};
use crate::numerals::{decimal, parse_unsigned, to_decimal, unsigned_value};
use crate::path_text::{components, same_components};
use crate::pieces::{
    contains_char, copy_chars, count_char, count_of, extend_chars, find_any, first_of, has_prefix,
    starts_with, texts, trim, trimmed,
};
use crate::text::{
    any_control, any_space_or_control, ascii_control, ascii_space, byte_len, chars_of, has_control,
    has_space_or_control, is_ascii_control, is_ascii_space, is_word, plus, string_of, text_of,
    to_ascii_lower, utf8_len,
};

verus! {

/// The bounds that a connection keeps, in seconds.
#[derive(Debug, Clone, Copy, PartialEq, Eq, Structural)]
pub struct ConnectionLimits {
    pub min_timeout: u64,
    pub max_timeout: u64,
    pub min_keepalive: u64,
    pub max_keepalive: u64,
}

/// What the machine says of the local user.
#[derive(Debug, PartialEq, Eq)]
pub struct LocalIdentity {
    /// The home directory, if there is one.
    pub home: Option<String>,
    /// The login name; empty if unknown.
    pub user: String,
}

pub ghost struct IdentityView {
    pub home: Option<Seq<char>>,
    pub user: Seq<char>,
}

impl View for LocalIdentity {
    type V = IdentityView;

    open spec fn view(&self) -> IdentityView {
        IdentityView { home: text_of(self.home), user: self.user@ }
    }
}

#[derive(Debug, PartialEq, Eq)]
pub struct SshEndpoint {
    pub host: String,
    pub port: u16,
    pub user: String,
    pub identity_files: Vec<String>,
    pub connect_timeout: u64,
    pub keepalive_interval: Option<u64>,
}

pub ghost struct EndpointView {
    pub host: Seq<char>,
    pub port: u16,
    pub user: Seq<char>,
    pub identity_files: Seq<Seq<char>>,
    pub connect_timeout: u64,
    pub keepalive_interval: Option<u64>,
}

impl View for SshEndpoint {
    type V = EndpointView;

    open spec fn view(&self) -> EndpointView {
        EndpointView {
            host: self.host@,
            port: self.port,
            user: self.user@,
            identity_files: texts(self.identity_files@),
            connect_timeout: self.connect_timeout,
            keepalive_interval: self.keepalive_interval,
        }
    }
}

#[derive(Debug, PartialEq, Eq)]
pub struct ResolvedSshConnection {
    pub target: SshEndpoint,
    pub jump: Option<SshEndpoint>,
}

pub ghost struct ResolvedView {
    pub target: EndpointView,
    pub jump: Option<EndpointView>,
}

pub open spec fn endpoint_of(e: Option<SshEndpoint>) -> Option<EndpointView> {
    match e {
        Some(x) => Some(x@),
        None => None,
    }
}

impl View for ResolvedSshConnection {
    type V = ResolvedView;

    open spec fn view(&self) -> ResolvedView {
        ResolvedView { target: self.target@, jump: endpoint_of(self.jump) }
    }
}

// --- single values -----------------------------------------------------------------------------

/// A host is not empty or long, needs no expansion and holds nothing that no host name holds.
pub open spec fn host_allowed(host: Seq<char>) -> bool {
    &&& host.len() > 0
    &&& utf8_len(host) <= MAX_SSH_HOST_BYTES
    &&& !host.contains('%')
    &&& !has_host_breaker(host)
}

/// Characters that no user name may hold.
pub open spec fn breaks_user(c: char) -> bool {
    is_ascii_control(c) || is_ascii_space(c) || c == '@' || c == ':'
}

pub open spec fn user_allowed(user: Seq<char>) -> bool {
    &&& user.len() > 0
    &&& utf8_len(user) <= MAX_SSH_USER_BYTES
    &&& forall|i: int| 0 <= i < user.len() ==> !breaks_user(#[trigger] user[i])
}

pub fn validate_host(host: &str, label: &str) -> (r: Result<(), NetError>)
    ensures
        r is Ok <==> host_allowed(host@),
        r matches Err(e) ==> is_ssh_error(e, label@ + " resolves to an invalid host"@),
{
    let chars: Vec<char> = chars_of(host);
    if chars.len() == 0 || byte_len(host) > MAX_SSH_HOST_BYTES || contains_char(&chars, '%')
        || any_host_breaker(&chars) {
        return Err(NetError::Ssh(plus(label.to_owned(), " resolves to an invalid host")));
    }
    Ok(())
}

pub fn validate_user(user: &str, label: &str) -> (r: Result<(), NetError>)
    ensures
        r is Ok <==> user_allowed(user@),
        r matches Err(e) ==> is_ssh_error(e, label@ + " resolves to an invalid user"@),
{
    let chars: Vec<char> = chars_of(user);
    let mut bad: bool = chars.len() == 0 || byte_len(user) > MAX_SSH_USER_BYTES;
    let mut i: usize = 0;
    while i < chars.len()
        invariant
            i <= chars@.len(),
            chars@ == user@,
            !bad ==> user@.len() > 0 && utf8_len(user@) <= MAX_SSH_USER_BYTES,
            !bad ==> forall|j: int| 0 <= j < i ==> !breaks_user(#[trigger] user@[j]),
            bad ==> !user_allowed(user@),
        decreases chars@.len() - i,
    {
        let c: char = chars[i];
        if ascii_control(c) || ascii_space(c) || c == '@' || c == ':' {
            assert(breaks_user(user@[i as int]));
            bad = true;
        }
        i += 1;
    }
    if bad {
        return Err(NetError::Ssh(plus(label.to_owned(), " resolves to an invalid user")));
    }
    Ok(())
}

pub open spec fn range_text(low: u64, high: u64) -> Seq<char> {
    decimal(low as nat) + "–"@ + decimal(high as nat) + " seconds"@
}

pub fn range_message(before: &str, low: u64, high: u64) -> (r: String)
    ensures
        r@ == before@ + range_text(low, high),
{
    let a: String = string_of(&to_decimal(low));
    let b: String = string_of(&to_decimal(high));
    let out: String = plus(
        plus(plus(plus(before.to_owned(), a.as_str()), "–"), b.as_str()),
        " seconds",
    );
    assert(out@ =~= before@ + range_text(low, high));
    out
}

/// The explicit number of seconds, else the configured one, else 20; it must lie in range.
pub open spec fn timeout_seconds(
    explicit: Option<u64>,
    configured: Option<u64>,
    limits: ConnectionLimits,
) -> Result<u64, Seq<char>> {
    let seconds = match explicit {
        Some(s) => s,
        None => match configured {
            Some(s) => s,
            None => 20,
        },
    };
    if limits.min_timeout <= seconds <= limits.max_timeout {
        Ok(seconds)
    } else {
        Err("SSH ConnectTimeout must be "@ + range_text(limits.min_timeout, limits.max_timeout))
    }
}

pub fn safe_timeout(
    explicit: Option<u64>,
    configured: Option<u64>,
    limits: &ConnectionLimits,
) -> (r: Result<u64, NetError>)
    ensures
        r is Ok <==> timeout_seconds(explicit, configured, *limits) is Ok,
        r matches Ok(s) ==> timeout_seconds(explicit, configured, *limits) == Ok::<u64, Seq<char>>(
            s,
        ),
        r matches Err(e) ==> timeout_seconds(explicit, configured, *limits) matches Err(m)
            && is_ssh_error(e, m),
{
    let seconds: u64 = match explicit {
        Some(s) => s,
        None => match configured {
            Some(s) => s,
            None => 20,
        },
    };
    if seconds < limits.min_timeout || limits.max_timeout < seconds {
        return Err(
            NetError::Ssh(
                range_message(
                    "SSH ConnectTimeout must be ",
                    limits.min_timeout,
                    limits.max_timeout,
                ),
            ),
        );
    }
    Ok(seconds)
}

/// Zero switches the keepalive off; without any setting it is sent every 20 seconds.
pub open spec fn keepalive_seconds(
    explicit: Option<u64>,
    configured: Option<u64>,
    limits: ConnectionLimits,
) -> Result<Option<u64>, Seq<char>> {
    let chosen = match explicit {
        Some(s) => Some(s),
        None => configured,
    };
    match chosen {
        None => Ok(Some(20)),
        Some(s) => if s == 0 {
            Ok(None)
        } else if limits.min_keepalive <= s <= limits.max_keepalive {
            Ok(Some(s))
        } else {
            Err(
                "SSH ServerAliveInterval must be 0 or "@ + range_text(
                    limits.min_keepalive,
                    limits.max_keepalive,
                ),
            )
        },
    }
}

pub fn safe_keepalive(
    explicit: Option<u64>,
    configured: Option<u64>,
    limits: &ConnectionLimits,
) -> (r: Result<Option<u64>, NetError>)
    ensures
        r is Ok <==> keepalive_seconds(explicit, configured, *limits) is Ok,
        r matches Ok(s) ==> keepalive_seconds(explicit, configured, *limits) == Ok::<
            Option<u64>,
            Seq<char>,
        >(s),
        r matches Err(e) ==> keepalive_seconds(explicit, configured, *limits) matches Err(m)
            && is_ssh_error(e, m),
{
    let chosen: Option<u64> = if explicit.is_some() {
        explicit
    } else {
        configured
    };
    match chosen {
        None => Ok(Some(20)),
        Some(s) => {
            if s == 0 {
                return Ok(None);
            }
            if s < limits.min_keepalive || limits.max_keepalive < s {
                return Err(
                    NetError::Ssh(
                        range_message(
                            "SSH ServerAliveInterval must be 0 or ",
                            limits.min_keepalive,
                            limits.max_keepalive,
                        ),
                    ),
                );
            }
            Ok(Some(s))
        },
    }
}

// --- identity files ----------------------------------------------------------------------------

/// What the percent tokens of an identity path stand for.
pub ghost struct TokenValues {
    pub home: Seq<char>,
    pub host: Seq<char>,
    pub alias: Seq<char>,
    pub user: Seq<char>,
    pub local_user: Seq<char>,
}

/// The path with its percent tokens replaced.
pub open spec fn expanded(raw: Seq<char>, values: TokenValues) -> Result<Seq<char>, Seq<char>>
    decreases raw.len(),
{
    if raw.len() == 0 {
        Ok(Seq::empty())
    } else if raw[0] != '%' {
        match expanded(raw.skip(1), values) {
            Ok(rest) => Ok(seq![raw[0]] + rest),
            Err(e) => Err(e),
        }
    } else if raw.len() == 1 {
        Err("SSH IdentityFile ends with an incomplete % token"@)
    } else {
        match token_value(raw[1], values) {
            None => Err("SSH IdentityFile uses unsupported token %"@ + seq![raw[1]]),
            Some(v) => match expanded(raw.skip(2), values) {
                Ok(rest) => Ok(v + rest),
                Err(e) => Err(e),
            },
        }
    }
}

pub open spec fn token_value(c: char, values: TokenValues) -> Option<Seq<char>> {
    if c == '%' {
        Some(seq!['%'])
    } else if c == 'd' {
        Some(values.home)
    } else if c == 'h' {
        Some(values.host)
    } else if c == 'n' {
        Some(values.alias)
    } else if c == 'r' {
        Some(values.user)
    } else if c == 'u' && values.local_user.len() > 0 {
        Some(values.local_user)
    } else {
        None
    }
}

/// `b` seen from the directory `a`.
pub open spec fn path_join(a: Seq<char>, b: Seq<char>) -> Seq<char> {
    if b.len() > 0 && b[0] == '/' {
        b
    } else if a.len() == 0 || a.last() == '/' {
        a + b
    } else {
        a + seq!['/'] + b
    }
}

pub fn join_path(a: &[char], b: &[char]) -> (r: Vec<char>)
    ensures
        r@ == path_join(a@, b@),
{
    if b.len() > 0 && b[0] == '/' {
        return copy_chars(b);
    }
    let mut out: Vec<char> = copy_chars(a);
    if a.len() > 0 && a[a.len() - 1] != '/' {
        out.push('/');
    }
    extend_chars(&mut out, b);
    assert(out@ =~= path_join(a@, b@));
    out
}

/// The identity file that a configured path names for a host.
pub open spec fn identity_path(
    raw: Seq<char>,
    alias: Seq<char>,
    host: Seq<char>,
    user: Seq<char>,
    local: IdentityView,
) -> Result<Seq<char>, Seq<char>> {
    if utf8_len(raw) > 4096 || has_control(raw) {
        Err("SSH IdentityFile path is invalid or too long"@)
    } else {
        match local.home {
            None => Err("home directory unavailable"@),
            Some(home) => match expanded(
                raw,
                TokenValues { home, host, alias, user, local_user: local.user },
            ) {
                Err(e) => Err(e),
                Ok(path) => if path.len() > 0 && path[0] == '/' {
                    Ok(path)
                } else {
                    Ok(path_join(path_join(home, ".ssh"@), path))
                },
            },
        }
    }
}

fn expand(
    raw: &[char],
    home: &[char],
    host: &[char],
    alias: &[char],
    user: &[char],
    local_user: &[char],
) -> (r: Result<Vec<char>, NetError>)
    ensures
        ({
            let values = TokenValues {
                home: home@,
                host: host@,
                alias: alias@,
                user: user@,
                local_user: local_user@,
            };
            &&& r is Ok <==> expanded(raw@, values) is Ok
            &&& r matches Ok(path) ==> expanded(raw@, values) == Ok::<Seq<char>, Seq<char>>(path@)
            &&& r matches Err(e) ==> expanded(raw@, values) matches Err(m) && is_ssh_error(e, m)
        }),
{
    let ghost values = TokenValues {
        home: home@,
        host: host@,
        alias: alias@,
        user: user@,
        local_user: local_user@,
    };
    let mut out: Vec<char> = Vec::new();
    let mut i: usize = 0;
    assert(raw@.skip(0) =~= raw@);
    while i < raw.len()
        invariant
            i <= raw@.len(),
            values == (TokenValues {
                home: home@,
                host: host@,
                alias: alias@,
                user: user@,
                local_user: local_user@,
            }),
            expanded(raw@.skip(i as int), values) matches Ok(rest) ==> expanded(raw@, values)
                == Ok::<Seq<char>, Seq<char>>(out@ + rest),
            expanded(raw@.skip(i as int), values) matches Err(m) ==> expanded(raw@, values) == Err::<
                Seq<char>,
                Seq<char>,
            >(m),
        decreases raw@.len() - i,
    {
        let ghost rest = raw@.skip(i as int);
        let ghost before = out@;
        let c: char = raw[i];
        assert(rest[0] == c);
        if c != '%' {
            out.push(c);
            assert(rest.skip(1) =~= raw@.skip(i + 1));
            assert(forall|t: Seq<char>| before + (seq![c] + t) =~= #[trigger] (out@ + t));
            i += 1;
        } else {
            if i + 1 == raw.len() {
                return Err(ssh_error("SSH IdentityFile ends with an incomplete % token"));
            }
            let token: char = raw[i + 1];
            assert(rest[1] == token);
            assert(rest.skip(2) =~= raw@.skip(i + 2));
            let percent: [char; 1] = ['%'];
            assert(percent@ =~= seq!['%']);
            let value: &[char] = if token == '%' {
                percent.as_slice()
            } else if token == 'd' {
                home
            } else if token == 'h' {
                host
            } else if token == 'n' {
                alias
            } else if token == 'r' {
                user
            } else if token == 'u' && local_user.len() > 0 {
                local_user
            } else {
                let mut message: String = "SSH IdentityFile uses unsupported token %".to_owned();
                message.push(token);
                assert(message@ =~= "SSH IdentityFile uses unsupported token %"@ + seq![token]);
                return Err(NetError::Ssh(message));
            };
            extend_chars(&mut out, value);
            assert(token_value(token, values) == Some(value@));
            assert(forall|t: Seq<char>| before + (value@ + t) =~= #[trigger] (out@ + t));
            i += 2;
        }
    }
    assert(raw@.skip(i as int).len() == 0);
    assert(out@ + Seq::<char>::empty() =~= out@);
    Ok(out)
}

pub fn expand_identity_path(
    raw: &str,
    alias: &str,
    host: &str,
    user: &str,
    local: &LocalIdentity,
) -> (r: Result<String, NetError>)
    ensures
        r is Ok <==> identity_path(raw@, alias@, host@, user@, local@) is Ok,
        r matches Ok(path) ==> identity_path(raw@, alias@, host@, user@, local@) == Ok::<
            Seq<char>,
            Seq<char>,
        >(path@),
        r matches Err(e) ==> identity_path(raw@, alias@, host@, user@, local@) matches Err(m)
            && is_ssh_error(e, m),
{
    let chars: Vec<char> = chars_of(raw);
    if byte_len(raw) > 4096 || any_control(&chars) {
        return Err(ssh_error("SSH IdentityFile path is invalid or too long"));
    }
    match &local.home {
        None => Err(ssh_error("home directory unavailable")),
        Some(home_text) => {
            let home: Vec<char> = chars_of(home_text.as_str());
            match expand(
                &chars,
                &home,
                &chars_of(host),
                &chars_of(alias),
                &chars_of(user),
                &chars_of(local.user.as_str()),
            ) {
                Err(e) => Err(e),
                Ok(path) => {
                    if path.len() > 0 && path[0] == '/' {
                        return Ok(string_of(&path));
                    }
                    let base: Vec<char> = join_path(&home, &chars_of(".ssh"));
                    Ok(string_of(&join_path(&base, &path)))
                },
            }
        },
    }
}

/// The identity files of the configured paths, or the first refusal.
pub open spec fn identity_paths(
    raw: Seq<Seq<char>>,
    alias: Seq<char>,
    host: Seq<char>,
    user: Seq<char>,
    local: IdentityView,
) -> Result<Seq<Seq<char>>, Seq<char>>
    decreases raw.len(),
{
    if raw.len() == 0 {
        Ok(Seq::empty())
    } else {
        match identity_paths(raw.drop_last(), alias, host, user, local) {
            Err(e) => Err(e),
            Ok(front) => match identity_path(raw.last(), alias, host, user, local) {
                Err(e) => Err(e),
                Ok(path) => Ok(front.push(path)),
            },
        }
    }
}

proof fn lemma_identities_fail(
    raw: Seq<Seq<char>>,
    n: int,
    alias: Seq<char>,
    host: Seq<char>,
    user: Seq<char>,
    local: IdentityView,
)
    requires
        0 <= n <= raw.len(),
        identity_paths(raw.take(n), alias, host, user, local) is Err,
    ensures
        identity_paths(raw, alias, host, user, local) == identity_paths(
            raw.take(n),
            alias,
            host,
            user,
            local,
        ),
    decreases raw.len() - n,
{
    if n < raw.len() {
        assert(raw.drop_last().take(n) =~= raw.take(n));
        lemma_identities_fail(raw.drop_last(), n, alias, host, user, local);
    } else {
        assert(raw.take(n) =~= raw);
    }
}

pub fn identities(
    raw: &Vec<String>,
    alias: &str,
    host: &str,
    user: &str,
    local: &LocalIdentity,
) -> (r: Result<Vec<String>, NetError>)
    ensures
        r is Ok <==> identity_paths(texts(raw@), alias@, host@, user@, local@) is Ok,
        r matches Ok(paths) ==> identity_paths(texts(raw@), alias@, host@, user@, local@) == Ok::<
            Seq<Seq<char>>,
            Seq<char>,
        >(texts(paths@)),
        r matches Err(e) ==> identity_paths(texts(raw@), alias@, host@, user@, local@) matches Err(
            m,
        ) && is_ssh_error(e, m),
{
    let ghost all = texts(raw@);
    let mut out: Vec<String> = Vec::new();
    let mut i: usize = 0;
    assert(texts(out@) =~= Seq::<Seq<char>>::empty());
    assert(all.take(0) =~= Seq::<Seq<char>>::empty());
    while i < raw.len()
        invariant
            i <= raw@.len(),
            all == texts(raw@),
            identity_paths(all.take(i as int), alias@, host@, user@, local@) == Ok::<
                Seq<Seq<char>>,
                Seq<char>,
            >(texts(out@)),
        decreases raw@.len() - i,
    {
        assert(all.take(i + 1).drop_last() =~= all.take(i as int));
        assert(all.take(i + 1).last() == raw@[i as int]@);
        match expand_identity_path(raw[i].as_str(), alias, host, user, local) {
            Err(e) => {
                proof {
                    lemma_identities_fail(all, i + 1, alias@, host@, user@, local@);
                }
                return Err(e);
            },
            Ok(path) => {
                let ghost before = out@;
                let ghost p = path@;
                out.push(path);
                assert(texts(out@) =~= texts(before).push(p));
            },
        }
        i += 1;
    }
    assert(all.take(all.len() as int) =~= all);
    Ok(out)
}

/// A list of paths without those that name the same path as the one directly before them.
pub open spec fn without_repeats(v: Seq<Seq<char>>) -> Seq<Seq<char>>
    decreases v.len(),
{
    if v.len() == 0 {
        v
    } else {
        let front = without_repeats(v.drop_last());
        if v.len() > 1 && components(v[v.len() - 2]) == components(v.last()) {
            front
        } else {
            front.push(v.last())
        }
    }
}

pub fn dedup(v: &Vec<String>) -> (r: Vec<String>)
    ensures
        texts(r@) == without_repeats(texts(v@)),
{
    let ghost all = texts(v@);
    let mut out: Vec<String> = Vec::new();
    let mut i: usize = 0;
    assert(texts(out@) =~= Seq::<Seq<char>>::empty());
    assert(all.take(0) =~= Seq::<Seq<char>>::empty());
    while i < v.len()
        invariant
            i <= v@.len(),
            all == texts(v@),
            texts(out@) == without_repeats(all.take(i as int)),
        decreases v@.len() - i,
    {
        assert(all.take(i + 1).drop_last() =~= all.take(i as int));
        assert(all.take(i + 1).last() == v@[i as int]@);
        assert(i > 0 ==> all.take(i + 1)[i - 1] == v@[i - 1]@);
        if !(i > 0 && same_components(v[i - 1].as_str(), v[i].as_str())) {
            let ghost before = out@;
            out.push(v[i].clone());
            assert(texts(out@) =~= texts(before).push(v@[i as int]@));
        }
        i += 1;
    }
    assert(all.take(all.len() as int) =~= all);
    out
}

// --- the jump host -----------------------------------------------------------------------------

#[derive(Debug, PartialEq, Eq)]
pub struct JumpReference {
    pub alias: String,
    pub user: Option<String>,
    pub port: Option<u16>,
}

pub ghost struct JumpView {
    pub alias: Seq<char>,
    pub user: Option<Seq<char>>,
    pub port: Option<u16>,
}

impl View for JumpReference {
    type V = JumpView;

    open spec fn view(&self) -> JumpView {
        JumpView { alias: self.alias@, user: text_of(self.user), port: self.port }
    }
}

/// A port from 1 to 65535.
pub open spec fn port_number(s: Seq<char>) -> Option<u16> {
    match unsigned_value(s, 65535) {
        Some(n) => if n != 0 {
            Some(n as u16)
        } else {
            None
        },
        None => None,
    }
}

pub fn parse_port(s: &[char]) -> (r: Option<u16>)
    ensures
        r == port_number(s@),
{
    match parse_unsigned(s, 65535) {
        Some(n) => if n == 0 {
            None
        } else {
            Some(n as u16)
        },
        None => None,
    }
}

/// The last position of a character, or -1.
pub open spec fn last_of(s: Seq<char>, c: char) -> int
    decreases s.len(),
{
    if s.len() == 0 {
        -1
    } else if s.last() == c {
        s.len() - 1
    } else {
        last_of(s.drop_last(), c)
    }
}

/// The last position of a character, counted from one; zero for none.
pub fn find_last(s: &[char], c: char) -> (r: usize)
    ensures
        r == last_of(s@, c) + 1,
        r <= s@.len(),
        r > 0 ==> s@[r - 1] == c,
{
    let mut i: usize = s.len();
    assert(s@.take(i as int) =~= s@);
    while i > 0 && s[i - 1] != c
        invariant
            i <= s@.len(),
            last_of(s@, c) == last_of(s@.take(i as int), c),
        decreases i,
    {
        assert(s@.take(i as int).drop_last() =~= s@.take(i - 1));
        assert(s@.take(i as int).last() == s@[i - 1]);
        i -= 1;
    }
    assert(i > 0 ==> s@.take(i as int).last() == s@[i - 1]);
    i
}

/// Host and port of `host`, `host:port` or `[address]:port`.
pub open spec fn jump_authority(s: Seq<char>) -> Result<(Seq<char>, Option<u16>), Seq<char>> {
    if s.len() > 0 && s[0] == '[' {
        let rest = s.skip(1);
        let close = first_of(rest, seq![']']);
        if close >= rest.len() {
            Err("ProxyJump IPv6 address is missing ]"@)
        } else {
            let host = rest.take(close);
            let after = rest.skip(close + 1);
            if ipv6_words(host) is None {
                Err("ProxyJump bracketed host is not valid IPv6"@)
            } else if after.len() == 0 {
                Ok((host, None))
            } else if after[0] == ':' && port_number(after.skip(1)) is Some {
                Ok((host, port_number(after.skip(1))))
            } else {
                Err("ProxyJump port must be 1–65535"@)
            }
        }
    } else if count_of(s, ':') == 1 {
        let at = last_of(s, ':');
        if port_number(s.skip(at + 1)) is Some {
            Ok((s.take(at), port_number(s.skip(at + 1))))
        } else {
            Err("ProxyJump port must be 1–65535"@)
        }
    } else if s.contains(':') {
        Err("ProxyJump IPv6 addresses must be enclosed in brackets"@)
    } else {
        Ok((s, None))
    }
}

/// A text without the scheme of an SSH URI.
pub open spec fn without_scheme(s: Seq<char>) -> Seq<char> {
    if has_prefix(s, "ssh://"@) {
        s.skip(6)
    } else {
        s
    }
}

/// The jump host that a text names: none for `none`, else exactly one `[user@]host[:port]`.
pub open spec fn jump_reference(text: Seq<char>) -> Result<Option<JumpView>, Seq<char>> {
    let value = trimmed(text);
    if is_none_word(value) {
        Ok(None)
    } else if value.len() == 0 || utf8_len(value) > 512 || value.contains(',')
        || has_space_or_control(value) {
        Err("ProxyJump must contain exactly one [user@]host[:port] entry"@)
    } else {
        let reference = without_scheme(value);
        if reference.contains('/') || reference.contains('?') || reference.contains('#') {
            Err("ProxyJump URI contains unsupported components"@)
        } else {
            let at = last_of(reference, '@');
            if at >= 0 && !user_allowed(reference.take(at)) {
                Err("ProxyJump resolves to an invalid user"@)
            } else {
                match jump_authority(reference.skip(at + 1)) {
                    Err(e) => Err(e),
                    Ok((host, port)) => if !host_allowed(host) {
                        Err("ProxyJump resolves to an invalid host"@)
                    } else {
                        Ok(
                            Some(
                                JumpView {
                                    alias: host,
                                    user: if at >= 0 {
                                        Some(reference.take(at))
                                    } else {
                                        None
                                    },
                                    port,
                                },
                            ),
                        )
                    },
                }
            }
        }
    }
}

fn parse_jump_authority(s: &[char]) -> (r: Result<(String, Option<u16>), NetError>)
    ensures
        r is Ok <==> jump_authority(s@) is Ok,
        r matches Ok(pair) ==> jump_authority(s@) == Ok::<(Seq<char>, Option<u16>), Seq<char>>(
            (pair.0@, pair.1),
        ),
        r matches Err(e) ==> jump_authority(s@) matches Err(m) && is_ssh_error(e, m),
{
    if s.len() > 0 && s[0] == '[' {
        let rest: &[char] = slice_subrange(s, 1, s.len());
        assert(rest@ =~= s@.skip(1));
        let bracket: [char; 1] = [']'];
        assert(bracket@ =~= seq![']']);
        let close: usize = find_any(rest, bracket.as_slice());
        if close >= rest.len() {
            return Err(ssh_error("ProxyJump IPv6 address is missing ]"));
        }
        let host: &[char] = slice_subrange(rest, 0, close);
        let after: &[char] = slice_subrange(rest, close + 1, rest.len());
        assert(host@ =~= rest@.take(close as int));
        assert(after@ =~= rest@.skip(close + 1));
        if parse_ipv6(host).is_none() {
            return Err(ssh_error("ProxyJump bracketed host is not valid IPv6"));
        }
        if after.len() == 0 {
            return Ok((string_of(host), None));
        }
        if after[0] == ':' {
            let number: &[char] = slice_subrange(after, 1, after.len());
            assert(number@ =~= after@.skip(1));
            let port: Option<u16> = parse_port(number);
            if port.is_some() {
                return Ok((string_of(host), port));
            }
        }
        return Err(ssh_error("ProxyJump port must be 1–65535"));
    }
    if count_char(s, ':') == 1 {
        let at: usize = find_last(s, ':');
        proof {
            lemma_counted_is_found(s@, ':');
        }
        let host: &[char] = slice_subrange(s, 0, at - 1);
        let number: &[char] = slice_subrange(s, at, s.len());
        assert(host@ =~= s@.take(at - 1));
        assert(number@ =~= s@.skip(at as int));
        let port: Option<u16> = parse_port(number);
        if port.is_some() {
            return Ok((string_of(host), port));
        }
        return Err(ssh_error("ProxyJump port must be 1–65535"));
    }
    if contains_char(s, ':') {
        return Err(ssh_error("ProxyJump IPv6 addresses must be enclosed in brackets"));
    }
    Ok((string_of(s), None))
}

proof fn lemma_counted_is_found(s: Seq<char>, c: char)
    requires
        count_of(s, c) > 0,
    ensures
        last_of(s, c) >= 0,
    decreases s.len(),
{
    if s.last() != c {
        lemma_counted_is_found(s.drop_last(), c);
    }
}

pub fn parse_jump_reference(value: &str) -> (r: Result<Option<JumpReference>, NetError>)
    ensures
        r is Ok <==> jump_reference(value@) is Ok,
        r matches Ok(Some(j)) ==> jump_reference(value@) == Ok::<Option<JumpView>, Seq<char>>(
            Some(j@),
        ),
        r matches Ok(None) ==> jump_reference(value@) == Ok::<Option<JumpView>, Seq<char>>(None),
        r matches Err(e) ==> jump_reference(value@) matches Err(m) && is_ssh_error(e, m),
{
    let all: Vec<char> = chars_of(value);
    let chars: &[char] = trim(&all);
    if is_word(&to_ascii_lower(chars), "none") {
        return Ok(None);
    }
    let text: String = string_of(chars);
    if chars.len() == 0 || byte_len(text.as_str()) > 512 || contains_char(chars, ',')
        || any_space_or_control(chars) {
        return Err(ssh_error("ProxyJump must contain exactly one [user@]host[:port] entry"));
    }
    let scheme: Vec<char> = chars_of("ssh://");
    proof {
        reveal_strlit("ssh://");
    }
    let reference: &[char] = if starts_with(chars, &scheme) {
        slice_subrange(chars, 6, chars.len())
    } else {
        chars
    };
    assert(reference@ =~= without_scheme(chars@));
    if contains_char(reference, '/') || contains_char(reference, '?') || contains_char(
        reference,
        '#',
    ) {
        return Err(ssh_error("ProxyJump URI contains unsupported components"));
    }
    let at: usize = find_last(reference, '@');
    let user: Option<String> = if at > 0 {
        let name: &[char] = slice_subrange(reference, 0, at - 1);
        assert(name@ =~= reference@.take(at - 1));
        let name_text: String = string_of(name);
        match validate_user(name_text.as_str(), "ProxyJump") {
            Err(e) => {
                assert("ProxyJump resolves to an invalid user"@ =~= "ProxyJump"@
                    + " resolves to an invalid user"@) by {
                    reveal_strlit("ProxyJump resolves to an invalid user");
                    reveal_strlit("ProxyJump");
                    reveal_strlit(" resolves to an invalid user");
                }
                return Err(e);
            },
            Ok(_) => {},
        }
        Some(name_text)
    } else {
        None
    };
    let authority: &[char] = slice_subrange(reference, at, reference.len());
    assert(authority@ =~= reference@.skip(at as int));
    match parse_jump_authority(authority) {
        Err(e) => Err(e),
        Ok((alias, port)) => match validate_host(alias.as_str(), "ProxyJump") {
            Err(e) => {
                assert("ProxyJump resolves to an invalid host"@ =~= "ProxyJump"@
                    + " resolves to an invalid host"@) by {
                    reveal_strlit("ProxyJump resolves to an invalid host");
                    reveal_strlit("ProxyJump");
                    reveal_strlit(" resolves to an invalid host");
                }
                Err(e)
            },
            Ok(_) => Ok(Some(JumpReference { alias, user, port })),
        },
    }
}

/// Validate a single non-executing SFTP jump reference before it is persisted.
pub fn validate_ssh_proxy_jump(value: &str) -> (r: Result<(), String>)
    ensures
        r is Ok <==> jump_reference(value@) is Ok,
        r matches Err(e) ==> jump_reference(value@) matches Err(m) && e@ == "SFTP/SSH error: "@ + m,
{
    match parse_jump_reference(value) {
        Ok(_) => Ok(()),
        Err(e) => Err(e.message()),
    }
}

/// An accepted jump reference carries no password: its user name holds neither `:` nor `@`, and its
/// host holds nothing that no host name holds.
pub proof fn jump_reference_carries_no_password(text: Seq<char>)
    requires
        jump_reference(text) matches Ok(Some(_)),
    ensures
        ({
            let jump = jump_reference(text)->Ok_0->0;
            &&& host_allowed(jump.alias)
            &&& !jump.alias.contains('@')
            &&& jump.user matches Some(user) ==> user_allowed(user) && !user.contains(':')
                && !user.contains('@')
        }),
{
    let jump = jump_reference(text)->Ok_0->0;
    if jump.alias.contains('@') {
        let i = choose|i: int| 0 <= i < jump.alias.len() && jump.alias[i] == '@';
        assert(crate::net::ssh_config::breaks_host(jump.alias[i]));
    }
    if let Some(user) = jump.user {
        if user.contains(':') {
            let i = choose|i: int| 0 <= i < user.len() && user[i] == ':';
            assert(!breaks_user(user[i]));
        }
        if user.contains('@') {
            let i = choose|i: int| 0 <= i < user.len() && user[i] == '@';
            assert(!breaks_user(user[i]));
        }
    }
}

// --- the whole connection ----------------------------------------------------------------------

pub open spec fn value_or(a: Option<Seq<char>>, b: Seq<char>) -> Seq<char> {
    match a {
        Some(x) => x,
        None => b,
    }
}

/// Host, user, port and identity files of the target.
pub open spec fn target_part(spec: ConnectionSpec, params: ParamsView, local: IdentityView) -> Result<
    (Seq<char>, Seq<char>, u16, Seq<Seq<char>>),
    Seq<char>,
> {
    let host = value_or(params.host_name, spec.host@);
    let user = value_or(params.user, spec.user@);
    let port = match params.port {
        Some(p) => p,
        None => spec.spec_effective_port(),
    };
    if params.proxy_command {
        Err(
            "ProxyCommand is configured for this host and is intentionally not executed; use ProxyJump or HTTP/SOCKS5 proxy instead"@,
        )
    } else if !host_allowed(host) {
        Err("SSH host"@ + " resolves to an invalid host"@)
    } else if !user_allowed(user) {
        Err("SSH host"@ + " resolves to an invalid user"@)
    } else if port == 0 {
        Err("SSH host resolves to port 0"@)
    } else {
        let files = match spec.sftp_private_key {
            Some(path) => Ok(seq![path@]),
            None => identity_paths(params.identity_files, spec.host@, host, user, local),
        };
        match files {
            Err(e) => Err(e),
            Ok(files) => if spec.sftp_auth == SftpAuth::PrivateKey && without_repeats(files).len()
                == 0 {
                Err(
                    "private-key authentication needs a selected key or IdentityFile in ~/.ssh/config"@,
                )
            } else {
                Ok((host, user, port, without_repeats(files)))
            },
        }
    }
}

/// The jump host: the one of the connection, else the configured one.
pub open spec fn chosen_jump(spec: ConnectionSpec, params: ParamsView) -> Result<
    Option<JumpView>,
    Seq<char>,
> {
    match spec.ssh_proxy_jump {
        Some(text) => jump_reference(text@),
        None => match params.proxy_jump {
            Some(text) => jump_reference(text),
            None => Ok(None),
        },
    }
}

/// The endpoint of the jump host. What the reference says counts before what the configuration
/// says; a jump host never has a jump host of its own.
pub open spec fn jump_endpoint(
    spec: ConnectionSpec,
    jump: JumpView,
    params: ParamsView,
    target_files: Seq<Seq<char>>,
    local: IdentityView,
    limits: ConnectionLimits,
) -> Result<EndpointView, Seq<char>> {
    let host = value_or(params.host_name, jump.alias);
    let user = match jump.user {
        Some(u) => u,
        None => value_or(params.user, spec.user@),
    };
    let port = match jump.port {
        Some(p) => p,
        None => match params.port {
            Some(p) => p,
            None => 22,
        },
    };
    if params.proxy_command {
        Err("ProxyCommand is configured for the jump host and is intentionally not executed"@)
    } else if params.proxy_jump is Some && !is_none_word(params.proxy_jump->0) {
        Err("nested or multi-hop ProxyJump chains are not supported"@)
    } else if !host_allowed(host) {
        Err("ProxyJump"@ + " resolves to an invalid host"@)
    } else if !user_allowed(user) {
        Err("ProxyJump"@ + " resolves to an invalid user"@)
    } else {
        match identity_paths(params.identity_files, jump.alias, host, user, local) {
            Err(e) => Err(e),
            Ok(files) => {
                let files = if files.len() == 0 && spec.sftp_auth == SftpAuth::PrivateKey {
                    target_files
                } else {
                    files
                };
                match timeout_seconds(spec.timeout_secs, params.connect_timeout, limits) {
                    Err(e) => Err(e),
                    Ok(connect_timeout) => match keepalive_seconds(
                        spec.keepalive_interval_secs,
                        params.server_alive_interval,
                        limits,
                    ) {
                        Err(e) => Err(e),
                        Ok(keepalive_interval) => Ok(
                            EndpointView {
                                host,
                                port,
                                user,
                                identity_files: without_repeats(files),
                                connect_timeout,
                                keepalive_interval,
                            },
                        ),
                    },
                }
            },
        }
    }
}

pub open spec fn params_or_none(config: Option<ConfigView>, alias: Seq<char>) -> ParamsView {
    match config {
        Some(c) => params_for(c, alias),
        None => no_params(),
    }
}

/// What the configuration says of the target, where it is to be used.
pub open spec fn target_params(spec: ConnectionSpec, config: Option<ConfigView>) -> ParamsView {
    if spec.use_ssh_config {
        params_or_none(config, spec.host@)
    } else {
        no_params()
    }
}

/// Where a saved connection leads.
pub open spec fn resolved(
    spec: ConnectionSpec,
    config: Option<ConfigView>,
    local: IdentityView,
    limits: ConnectionLimits,
) -> Result<ResolvedView, Seq<char>> {
    let params = target_params(spec, config);
    match target_part(spec, params, local) {
        Err(e) => Err(e),
        Ok((host, user, port, identity_files)) => match chosen_jump(spec, params) {
            Err(e) => Err(e),
            Ok(jump) => match timeout_seconds(spec.timeout_secs, params.connect_timeout, limits) {
                Err(e) => Err(e),
                Ok(connect_timeout) => match keepalive_seconds(
                    spec.keepalive_interval_secs,
                    params.server_alive_interval,
                    limits,
                ) {
                    Err(e) => Err(e),
                    Ok(keepalive_interval) => {
                        let target = EndpointView {
                            host,
                            port,
                            user,
                            identity_files,
                            connect_timeout,
                            keepalive_interval,
                        };
                        match jump {
                            None => Ok(ResolvedView { target, jump: None }),
                            Some(j) => match jump_endpoint(
                                spec,
                                j,
                                params_or_none(config, j.alias),
                                identity_files,
                                local,
                                limits,
                            ) {
                                Err(e) => Err(e),
                                Ok(e) => Ok(ResolvedView { target, jump: Some(e) }),
                            },
                        }
                    },
                },
            },
        },
    }
}

fn text_or(a: &Option<String>, b: &String) -> (r: String)
    ensures
        r@ == value_or(text_of(*a), b@),
{
    match a {
        Some(x) => x.clone(),
        None => b.clone(),
    }
}

fn resolve_target(spec: &ConnectionSpec, params: &HostParams, local: &LocalIdentity) -> (r: Result<
    (String, String, u16, Vec<String>),
    NetError,
>)
    ensures
        r is Ok <==> target_part(*spec, params@, local@) is Ok,
        r matches Ok(t) ==> target_part(*spec, params@, local@) == Ok::<
            (Seq<char>, Seq<char>, u16, Seq<Seq<char>>),
            Seq<char>,
        >((t.0@, t.1@, t.2, texts(t.3@))),
        r matches Err(e) ==> target_part(*spec, params@, local@) matches Err(m) && is_ssh_error(
            e,
            m,
        ),
{
    if params.proxy_command {
        return Err(
            ssh_error(
                "ProxyCommand is configured for this host and is intentionally not executed; use ProxyJump or HTTP/SOCKS5 proxy instead",
            ),
        );
    }
    let host: String = text_or(&params.host_name, &spec.host);
    match validate_host(host.as_str(), "SSH host") {
        Err(e) => {
            return Err(e);
        },
        Ok(_) => {},
    }
    let user: String = text_or(&params.user, &spec.user);
    match validate_user(user.as_str(), "SSH host") {
        Err(e) => {
            return Err(e);
        },
        Ok(_) => {},
    }
    let port: u16 = match params.port {
        Some(p) => p,
        None => spec.effective_port(),
    };
    if port == 0 {
        return Err(ssh_error("SSH host resolves to port 0"));
    }
    let files: Vec<String> = match &spec.sftp_private_key {
        Some(path) => {
            let mut v: Vec<String> = Vec::new();
            v.push(path.clone());
            assert(texts(v@) =~= seq![path@]);
            v
        },
        None => match identities(
            &params.identity_files,
            spec.host.as_str(),
            host.as_str(),
            user.as_str(),
            local,
        ) {
            Err(e) => {
                return Err(e);
            },
            Ok(v) => v,
        },
    };
    let files: Vec<String> = dedup(&files);
    assert(texts(files@).len() == files@.len());
    if spec.sftp_auth == SftpAuth::PrivateKey && files.len() == 0 {
        return Err(
            ssh_error(
                "private-key authentication needs a selected key or IdentityFile in ~/.ssh/config",
            ),
        );
    }
    Ok((host, user, port, files))
}

fn choose_jump(spec: &ConnectionSpec, params: &HostParams) -> (r: Result<
    Option<JumpReference>,
    NetError,
>)
    ensures
        r is Ok <==> chosen_jump(*spec, params@) is Ok,
        r matches Ok(Some(j)) ==> chosen_jump(*spec, params@) == Ok::<Option<JumpView>, Seq<char>>(
            Some(j@),
        ),
        r matches Ok(None) ==> chosen_jump(*spec, params@) == Ok::<Option<JumpView>, Seq<char>>(
            None,
        ),
        r matches Err(e) ==> chosen_jump(*spec, params@) matches Err(m) && is_ssh_error(e, m),
{
    match &spec.ssh_proxy_jump {
        Some(text) => parse_jump_reference(text.as_str()),
        None => match &params.proxy_jump {
            Some(text) => parse_jump_reference(text.as_str()),
            None => Ok(None),
        },
    }
}

fn resolve_jump(
    spec: &ConnectionSpec,
    jump: &JumpReference,
    params: &HostParams,
    target_files: &Vec<String>,
    local: &LocalIdentity,
    limits: &ConnectionLimits,
) -> (r: Result<SshEndpoint, NetError>)
    ensures
        ({
            let wanted = jump_endpoint(
                *spec,
                jump@,
                params@,
                texts(target_files@),
                local@,
                *limits,
            );
            &&& r is Ok <==> wanted is Ok
            &&& r matches Ok(e) ==> wanted == Ok::<EndpointView, Seq<char>>(e@)
            &&& r matches Err(e) ==> wanted matches Err(m) && is_ssh_error(e, m)
        }),
{
    if params.proxy_command {
        return Err(
            ssh_error(
                "ProxyCommand is configured for the jump host and is intentionally not executed",
            ),
        );
    }
    if let Some(nested) = &params.proxy_jump {
        let chars: Vec<char> = chars_of(nested.as_str());
        if !is_word(&to_ascii_lower(&chars), "none") {
            return Err(ssh_error("nested or multi-hop ProxyJump chains are not supported"));
        }
    }
    let host: String = text_or(&params.host_name, &jump.alias);
    match validate_host(host.as_str(), "ProxyJump") {
        Err(e) => {
            return Err(e);
        },
        Ok(_) => {},
    }
    let user: String = match &jump.user {
        Some(u) => u.clone(),
        None => text_or(&params.user, &spec.user),
    };
    match validate_user(user.as_str(), "ProxyJump") {
        Err(e) => {
            return Err(e);
        },
        Ok(_) => {},
    }
    let port: u16 = match jump.port {
        Some(p) => p,
        None => match params.port {
            Some(p) => p,
            None => 22,
        },
    };
    let own: Vec<String> = match identities(
        &params.identity_files,
        jump.alias.as_str(),
        host.as_str(),
        user.as_str(),
        local,
    ) {
        Err(e) => {
            return Err(e);
        },
        Ok(v) => v,
    };
    assert(texts(own@).len() == own@.len());
    let files: Vec<String> = if own.len() == 0 && spec.sftp_auth == SftpAuth::PrivateKey {
        clone_texts(target_files)
    } else {
        own
    };
    let identity_files: Vec<String> = dedup(&files);
    match safe_timeout(spec.timeout_secs, params.connect_timeout, limits) {
        Err(e) => Err(e),
        Ok(connect_timeout) => match safe_keepalive(
            spec.keepalive_interval_secs,
            params.server_alive_interval,
            limits,
        ) {
            Err(e) => Err(e),
            Ok(keepalive_interval) => Ok(
                SshEndpoint { host, port, user, identity_files, connect_timeout, keepalive_interval },
            ),
        },
    }
}

pub open spec fn config_view(config: Option<&SshConfig>) -> Option<ConfigView> {
    match config {
        Some(c) => Some(c@),
        None => None,
    }
}

fn query_or_none(config: Option<&SshConfig>, alias: &str) -> (r: HostParams)
    ensures
        r@ == params_or_none(config_view(config), alias@),
{
    match config {
        Some(c) => c.query(alias),
        None => HostParams::new(),
    }
}

/// Resolve a connection against a configuration, which must be there when the connection asks for
/// it. No command is ever executed.
pub fn resolve_with_config(
    spec: &ConnectionSpec,
    config: Option<&SshConfig>,
    local: &LocalIdentity,
    limits: &ConnectionLimits,
) -> (r: Result<ResolvedSshConnection, NetError>)
    requires
        spec.use_ssh_config ==> config is Some,
    ensures
        r is Ok <==> resolved(*spec, config_view(config), local@, *limits) is Ok,
        r matches Ok(c) ==> resolved(*spec, config_view(config), local@, *limits) == Ok::<
            ResolvedView,
            Seq<char>,
        >(c@),
        r matches Err(e) ==> resolved(*spec, config_view(config), local@, *limits) matches Err(m)
            && is_ssh_error(e, m),
{
    let params: HostParams = if spec.use_ssh_config {
        query_or_none(config, spec.host.as_str())
    } else {
        HostParams::new()
    };
    let (host, user, port, identity_files) = match resolve_target(spec, &params, local) {
        Err(e) => {
            return Err(e);
        },
        Ok(t) => t,
    };
    let jump: Option<JumpReference> = match choose_jump(spec, &params) {
        Err(e) => {
            return Err(e);
        },
        Ok(j) => j,
    };
    let connect_timeout: u64 = match safe_timeout(
        spec.timeout_secs,
        params.connect_timeout,
        limits,
    ) {
        Err(e) => {
            return Err(e);
        },
        Ok(t) => t,
    };
    let keepalive_interval: Option<u64> = match safe_keepalive(
        spec.keepalive_interval_secs,
        params.server_alive_interval,
        limits,
    ) {
        Err(e) => {
            return Err(e);
        },
        Ok(k) => k,
    };
    let target: SshEndpoint = SshEndpoint {
        host,
        port,
        user,
        identity_files,
        connect_timeout,
        keepalive_interval,
    };
    match jump {
        None => Ok(ResolvedSshConnection { target, jump: None }),
        Some(reference) => {
            let jump_params: HostParams = query_or_none(config, reference.alias.as_str());
            match resolve_jump(
                spec,
                &reference,
                &jump_params,
                &target.identity_files,
                local,
                limits,
            ) {
                Err(e) => Err(e),
                Ok(endpoint) => Ok(ResolvedSshConnection { target, jump: Some(endpoint) }),
            }
        },
    }
}

/// How far a connection depends on the configuration file.
#[derive(Debug, Clone, Copy, PartialEq, Eq, Structural)]
pub enum ConfigNeed {
    /// The file is not read.
    Ignored,
    /// The file is read if it exists.
    Optional,
    /// The file must exist.
    Required,
}

pub fn config_need(spec: &ConnectionSpec) -> (r: ConfigNeed)
    ensures
        r == (if spec.use_ssh_config {
            ConfigNeed::Required
        } else if spec.ssh_proxy_jump is Some {
            ConfigNeed::Optional
        } else {
            ConfigNeed::Ignored
        }),
{
    if spec.use_ssh_config {
        ConfigNeed::Required
    } else if spec.ssh_proxy_jump.is_some() {
        ConfigNeed::Optional
    } else {
        ConfigNeed::Ignored
    }
}

/// What came of reading the configuration file.
#[derive(Debug, PartialEq, Eq)]
pub enum ConfigRead {
    Text(String),
    /// It could not be read; `missing` says that there is no such file.
    Failed { error: NetError, missing: bool },
}

/// The configuration in a file, none if there is no file and none is required.
pub fn load_config(required: bool, read: ConfigRead) -> (r: Result<Option<SshConfig>, NetError>)
    ensures
        read matches ConfigRead::Text(text) ==> ({
            &&& r is Ok <==> crate::net::ssh_config::config_of(text@) is Ok
            &&& r matches Ok(c) ==> c matches Some(config) && crate::net::ssh_config::config_of(
                text@,
            ) == Ok::<ConfigView, Seq<char>>(config@)
            &&& r matches Err(e) ==> crate::net::ssh_config::config_of(text@) matches Err(m)
                && is_ssh_error(e, m)
        }),
        read matches ConfigRead::Failed { error, missing } ==> if !required && missing
            && error is Ssh {
            r matches Ok(None)
        } else {
            r matches Err(e) && e == error
        },
{
    match read {
        ConfigRead::Text(text) => match crate::net::ssh_config::parse_config_text(text.as_str()) {
            Ok(config) => Ok(Some(config)),
            Err(e) => Err(e),
        },
        ConfigRead::Failed { error, missing } => {
            if !required && missing && matches!(error, NetError::Ssh(_)) {
                Ok(None)
            } else {
                Err(error)
            }
        },
    }
}

/// The file must be a regular one of at most 1 MiB.
pub fn check_config_file(is_file: bool, len: u64) -> (r: Result<(), NetError>)
    ensures
        r is Ok <==> is_file && len <= crate::net::ssh_config::MAX_SSH_CONFIG_BYTES,
        r matches Err(e) ==> is_ssh_error(
            e,
            "~/.ssh/config must be a regular file no larger than 1 MiB"@,
        ),
{
    if !is_file || len > crate::net::ssh_config::MAX_SSH_CONFIG_BYTES {
        return Err(ssh_error("~/.ssh/config must be a regular file no larger than 1 MiB"));
    }
    Ok(())
}

/// What was read must not exceed 1 MiB either.
pub fn check_config_bytes(read: u64) -> (r: Result<(), NetError>)
    ensures
        r is Ok <==> read <= crate::net::ssh_config::MAX_SSH_CONFIG_BYTES,
        r matches Err(e) ==> is_ssh_error(e, "~/.ssh/config exceeds 1 MiB"@),
{
    if read > crate::net::ssh_config::MAX_SSH_CONFIG_BYTES {
        return Err(ssh_error("~/.ssh/config exceeds 1 MiB"));
    }
    Ok(())
}

/// A configured command is never executed: the target with one is refused, and so is the jump host,
/// whether the connection or the configuration names it.
pub proof fn commands_are_never_executed(
    spec: ConnectionSpec,
    config: Option<ConfigView>,
    local: IdentityView,
    limits: ConnectionLimits,
)
    ensures
        target_params(spec, config).proxy_command ==> resolved(spec, config, local, limits) is Err,
        (chosen_jump(spec, target_params(spec, config)) matches Ok(Some(jump)) && params_or_none(
            config,
            jump.alias,
        ).proxy_command) ==> resolved(spec, config, local, limits) is Err,
{
}

/// A resolved connection leads to allowed hosts and users on real ports, within the limits.
pub proof fn resolved_endpoints_are_valid(
    spec: ConnectionSpec,
    config: Option<ConfigView>,
    local: IdentityView,
    limits: ConnectionLimits,
)
    requires
        resolved(spec, config, local, limits) is Ok,
    ensures
        ({
            let c = resolved(spec, config, local, limits)->Ok_0;
            &&& host_allowed(c.target.host) && user_allowed(c.target.user) && c.target.port != 0
            &&& limits.min_timeout <= c.target.connect_timeout <= limits.max_timeout
            &&& c.jump matches Some(j) ==> host_allowed(j.host) && user_allowed(j.user)
                && limits.min_timeout <= j.connect_timeout <= limits.max_timeout
        }),
{
}

/// At most one jump: the configuration of a jump host may not name another.
pub proof fn jump_chains_are_refused(
    spec: ConnectionSpec,
    config: Option<ConfigView>,
    local: IdentityView,
    limits: ConnectionLimits,
    jump: JumpView,
)
    requires
        chosen_jump(spec, target_params(spec, config)) == Ok::<Option<JumpView>, Seq<char>>(
            Some(jump),
        ),
        params_or_none(config, jump.alias).proxy_jump matches Some(next) && !is_none_word(next),
    ensures
        resolved(spec, config, local, limits) is Err,
{
}

} // verus!
