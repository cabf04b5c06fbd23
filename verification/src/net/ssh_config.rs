//! Restricted, non-executing OpenSSH client configuration for SFTP.
//!
//! The parser is used only for declarative host aliases. `ProxyCommand`, `Match` and the inclusion
//! of other files are rejected: nothing that the configuration supplies is ever launched, and no
//! graph of files is followed.

use vstd::prelude::*;
use vstd::utf8::encode_utf8;

use crate::model::connection::clone_text;
use crate::net::error::NetError;
use crate::numerals::{decimal, parse_unsigned, to_decimal, unsigned_value};
use crate::pieces::{
    contains_char, copy_chars, lines, text_lines, texts, views,
};
use crate::text::{
    ascii_control, ascii_lowercase, ascii_space, byte_len, chars_of, is_ascii_control,
    is_ascii_space, is_word, lemma_utf8_len_push, plus, string_of, text_of, to_ascii_lower,
    utf8_len, width_of,
};
use crate::wildcard::{matches_wildcard, wildcard_matches};

verus! {

pub const MAX_SSH_CONFIG_BYTES: u64 = 1048576;

pub const MAX_SSH_HOST_BYTES: usize = 253;

pub const MAX_SSH_USER_BYTES: usize = 256;

pub const MAX_SSH_CONFIG_SECTIONS: usize = 4096;

pub const MAX_SSH_CONFIG_TOKENS_PER_LINE: usize = 128;

pub const MAX_SSH_TOKEN_BYTES: usize = 4096;

pub const MAX_SSH_IDENTITY_FILES: usize = 64;

/// What a configuration says of a host. Times are in seconds.
#[derive(Debug, PartialEq, Eq)]
pub struct HostParams {
    pub host_name: Option<String>,
    pub user: Option<String>,
    pub port: Option<u16>,
    pub identity_files: Vec<String>,
    pub proxy_jump: Option<String>,
    pub connect_timeout: Option<u64>,
    pub server_alive_interval: Option<u64>,
    pub proxy_command: bool,
}

pub ghost struct ParamsView {
    pub host_name: Option<Seq<char>>,
    pub user: Option<Seq<char>>,
    pub port: Option<u16>,
    pub identity_files: Seq<Seq<char>>,
    pub proxy_jump: Option<Seq<char>>,
    pub connect_timeout: Option<u64>,
    pub server_alive_interval: Option<u64>,
    pub proxy_command: bool,
}

impl View for HostParams {
    type V = ParamsView;

    open spec fn view(&self) -> ParamsView {
        ParamsView {
            host_name: text_of(self.host_name),
            user: text_of(self.user),
            port: self.port,
            identity_files: texts(self.identity_files@),
            proxy_jump: text_of(self.proxy_jump),
            connect_timeout: self.connect_timeout,
            server_alive_interval: self.server_alive_interval,
            proxy_command: self.proxy_command,
        }
    }
}

pub open spec fn no_params() -> ParamsView {
    ParamsView {
        host_name: None,
        user: None,
        port: None,
        identity_files: Seq::empty(),
        proxy_jump: None,
        connect_timeout: None,
        server_alive_interval: None,
        proxy_command: false,
    }
}

pub open spec fn first_of_two<T>(a: Option<T>, b: Option<T>) -> Option<T> {
    match a {
        Some(x) => Some(x),
        None => b,
    }
}

/// What remains of the room for identity files.
pub open spec fn identity_room(used: nat, more: nat) -> nat {
    if used >= MAX_SSH_IDENTITY_FILES {
        0
    } else if more <= MAX_SSH_IDENTITY_FILES - used {
        more
    } else {
        (MAX_SSH_IDENTITY_FILES - used) as nat
    }
}

/// The first value of a setting counts; identity files add up, and so does a proxy command.
pub open spec fn merged(a: ParamsView, b: ParamsView) -> ParamsView {
    ParamsView {
        host_name: first_of_two(a.host_name, b.host_name),
        user: first_of_two(a.user, b.user),
        port: first_of_two(a.port, b.port),
        identity_files: a.identity_files + b.identity_files.take(
            identity_room(a.identity_files.len(), b.identity_files.len()) as int,
        ),
        proxy_jump: first_of_two(a.proxy_jump, b.proxy_jump),
        connect_timeout: first_of_two(a.connect_timeout, b.connect_timeout),
        server_alive_interval: first_of_two(a.server_alive_interval, b.server_alive_interval),
        proxy_command: a.proxy_command || b.proxy_command,
    }
}

fn first_text(a: Option<String>, b: &Option<String>) -> (r: Option<String>)
    ensures
        text_of(r) == first_of_two(text_of(a), text_of(*b)),
{
    if a.is_some() {
        a
    } else {
        clone_text(b)
    }
}

impl HostParams {
    pub fn new() -> (r: Self)
        ensures
            r@ == no_params(),
    {
        let identity_files: Vec<String> = Vec::new();
        assert(texts(identity_files@) =~= Seq::<Seq<char>>::empty());
        HostParams {
            host_name: None,
            user: None,
            port: None,
            identity_files,
            proxy_jump: None,
            connect_timeout: None,
            server_alive_interval: None,
            proxy_command: false,
        }
    }

    /// Add what a further block says.
    pub fn merge_first(self, other: &HostParams) -> (r: HostParams)
        ensures
            r@ == merged(self@, other@),
    {
        let ghost a = texts(self.identity_files@);
        let ghost b = texts(other.identity_files@);
        let mut identity_files: Vec<String> = self.identity_files;
        let mut i: usize = 0;
        assert(a + b.take(0) =~= a);
        while i < other.identity_files.len() && identity_files.len() < MAX_SSH_IDENTITY_FILES
            invariant
                i <= other.identity_files@.len(),
                b == texts(other.identity_files@),
                texts(identity_files@) == a + b.take(i as int),
                i > 0 ==> identity_files@.len() <= MAX_SSH_IDENTITY_FILES,
            decreases other.identity_files@.len() - i,
        {
            let ghost before = identity_files@;
            identity_files.push(other.identity_files[i].clone());
            assert(texts(identity_files@) =~= texts(before).push(b[i as int]));
            assert(a + b.take(i + 1) =~= (a + b.take(i as int)).push(b[i as int]));
            i += 1;
        }
        assert(texts(identity_files@).len() == identity_files@.len());
        assert(i == identity_room(a.len(), b.len()));
        HostParams {
            host_name: first_text(self.host_name, &other.host_name),
            user: first_text(self.user, &other.user),
            port: if self.port.is_some() {
                self.port
            } else {
                other.port
            },
            identity_files,
            proxy_jump: first_text(self.proxy_jump, &other.proxy_jump),
            connect_timeout: if self.connect_timeout.is_some() {
                self.connect_timeout
            } else {
                other.connect_timeout
            },
            server_alive_interval: if self.server_alive_interval.is_some() {
                self.server_alive_interval
            } else {
                other.server_alive_interval
            },
            proxy_command: self.proxy_command || other.proxy_command,
        }
    }
}

#[derive(Debug, PartialEq, Eq)]
pub struct HostBlock {
    pub patterns: Vec<String>,
    pub params: HostParams,
}

pub ghost struct BlockView {
    pub patterns: Seq<Seq<char>>,
    pub params: ParamsView,
}

impl View for HostBlock {
    type V = BlockView;

    open spec fn view(&self) -> BlockView {
        BlockView { patterns: texts(self.patterns@), params: self.params@ }
    }
}

#[derive(Debug, PartialEq, Eq)]
pub struct SshConfig {
    pub global: HostParams,
    pub hosts: Vec<HostBlock>,
}

pub ghost struct ConfigView {
    pub global: ParamsView,
    pub hosts: Seq<BlockView>,
}

pub open spec fn block_views(v: Seq<HostBlock>) -> Seq<BlockView> {
    v.map_values(|b: HostBlock| b@)
}

impl View for SshConfig {
    type V = ConfigView;

    open spec fn view(&self) -> ConfigView {
        ConfigView { global: self.global@, hosts: block_views(self.hosts@) }
    }
}

// --- host patterns -----------------------------------------------------------------------------

pub open spec fn is_negated(pattern: Seq<char>) -> bool {
    pattern.len() > 0 && pattern[0] == '!'
}

/// A pattern without the mark of negation.
pub open spec fn bare_pattern(pattern: Seq<char>) -> Seq<char> {
    if is_negated(pattern) {
        pattern.skip(1)
    } else {
        pattern
    }
}

/// The pattern, mark aside, describes the alias, whatever the case of either.
pub open spec fn pattern_hits(pattern: Seq<char>, alias: Seq<char>) -> bool {
    matches_wildcard(
        encode_utf8(ascii_lowercase(bare_pattern(pattern))),
        encode_utf8(ascii_lowercase(alias)),
    )
}

/// Some pattern describes the alias, and none of those is negated.
pub open spec fn block_applies(patterns: Seq<Seq<char>>, alias: Seq<char>) -> bool {
    &&& exists|i: int|
        0 <= i < patterns.len() && pattern_hits(#[trigger] patterns[i], alias) && !is_negated(
            patterns[i],
        )
    &&& forall|i: int|
        0 <= i < patterns.len() && pattern_hits(#[trigger] patterns[i], alias) ==> !is_negated(
            patterns[i],
        )
}

fn without_mark(pattern: &str) -> (r: Vec<char>)
    ensures
        r@ == bare_pattern(pattern@),
{
    let chars: Vec<char> = chars_of(pattern);
    if chars.len() > 0 && chars[0] == '!' {
        let rest: Vec<char> = copy_chars(vstd::slice::slice_subrange(&chars, 1, chars.len()));
        assert(rest@ =~= pattern@.skip(1));
        rest
    } else {
        chars
    }
}

pub fn host_matches(patterns: &[String], alias: &str) -> (r: bool)
    ensures
        r == block_applies(texts(patterns@), alias@),
{
    let alias_chars: Vec<char> = chars_of(alias);
    let lower: String = string_of(&to_ascii_lower(&alias_chars));
    let ghost all = texts(patterns@);
    let mut positive: bool = false;
    let mut i: usize = 0;
    while i < patterns.len()
        invariant
            i <= patterns@.len(),
            all == texts(patterns@),
            lower@ == ascii_lowercase(alias@),
            positive == exists|j: int|
                0 <= j < i && pattern_hits(#[trigger] all[j], alias@) && !is_negated(all[j]),
            forall|j: int|
                0 <= j < i && pattern_hits(#[trigger] all[j], alias@) ==> !is_negated(all[j]),
        decreases patterns@.len() - i,
    {
        let bare: Vec<char> = without_mark(patterns[i].as_str());
        let pattern: String = string_of(&to_ascii_lower(&bare));
        assert(all[i as int] == patterns@[i as int]@);
        let hit: bool = wildcard_matches(
            pattern.as_str().as_bytes(),
            lower.as_str().as_bytes(),
        );
        assert(hit == pattern_hits(all[i as int], alias@));
        if hit {
            let chars: Vec<char> = chars_of(patterns[i].as_str());
            if chars.len() > 0 && chars[0] == '!' {
                assert(is_negated(all[i as int]));
                return false;
            }
            positive = true;
        }
        i += 1;
    }
    positive
}

/// What the blocks that apply to an alias add to the settings so far, in their order.
pub open spec fn queried(hosts: Seq<BlockView>, alias: Seq<char>, so_far: ParamsView) -> ParamsView
    decreases hosts.len(),
{
    if hosts.len() == 0 {
        so_far
    } else {
        let before = queried(hosts.drop_last(), alias, so_far);
        if block_applies(hosts.last().patterns, alias) {
            merged(before, hosts.last().params)
        } else {
            before
        }
    }
}

/// Everything that a configuration says of an alias.
pub open spec fn params_for(config: ConfigView, alias: Seq<char>) -> ParamsView {
    queried(config.hosts, alias, merged(no_params(), config.global))
}

impl SshConfig {
    pub fn new() -> (r: Self)
        ensures
            r@ == (ConfigView { global: no_params(), hosts: Seq::empty() }),
    {
        let hosts: Vec<HostBlock> = Vec::new();
        assert(block_views(hosts@) =~= Seq::<BlockView>::empty());
        SshConfig { global: HostParams::new(), hosts }
    }

    pub fn query(&self, alias: &str) -> (r: HostParams)
        ensures
            r@ == params_for(self@, alias@),
    {
        let mut params: HostParams = HostParams::new().merge_first(&self.global);
        let ghost start = params@;
        let ghost all = self@.hosts;
        let mut i: usize = 0;
        assert(all.take(0) =~= Seq::<BlockView>::empty());
        while i < self.hosts.len()
            invariant
                i <= self.hosts@.len(),
                all == block_views(self.hosts@),
                params@ == queried(all.take(i as int), alias@, start),
            decreases self.hosts@.len() - i,
        {
            assert(all.take(i + 1).drop_last() =~= all.take(i as int));
            assert(all.take(i + 1).last() == self.hosts@[i as int]@);
            if host_matches(&self.hosts[i].patterns, alias) {
                params = params.merge_first(&self.hosts[i].params);
            }
            i += 1;
        }
        assert(all.take(all.len() as int) =~= all);
        params
    }
}

// --- the words of a line -----------------------------------------------------------------------

pub ghost struct TokenState {
    pub tokens: Seq<Seq<char>>,
    pub token: Seq<char>,
    pub quote: Option<char>,
    pub escaped: bool,
}

pub open spec fn fresh_tokens() -> TokenState {
    TokenState { tokens: Seq::empty(), token: Seq::empty(), quote: None, escaped: false }
}

/// The character stands outside quotes and is not part of an escape.
pub open spec fn is_bare(st: TokenState, c: char) -> bool {
    !st.escaped && c != '\\' && st.quote is None
}

/// The token read so far is complete.
pub open spec fn closed(st: TokenState) -> TokenState {
    TokenState { tokens: st.tokens.push(st.token), token: Seq::empty(), ..st }
}

pub open spec fn token_step(st: TokenState, c: char) -> TokenState {
    if st.escaped {
        TokenState { token: st.token.push(c), escaped: false, ..st }
    } else if c == '\\' {
        TokenState { escaped: true, ..st }
    } else if st.quote is Some {
        if st.quote == Some(c) {
            TokenState { quote: None, ..st }
        } else {
            TokenState { token: st.token.push(c), ..st }
        }
    } else if c == '\'' || c == '"' {
        TokenState { quote: Some(c), ..st }
    } else if c == '=' && st.tokens.len() == 0 && st.token.len() > 0 {
        closed(st)
    } else if c == '=' && st.tokens.len() == 1 && st.token.len() == 0 {
        st
    } else if is_ascii_space(c) {
        if st.token.len() > 0 {
            closed(st)
        } else {
            st
        }
    } else {
        TokenState { token: st.token.push(c), ..st }
    }
}

pub open spec fn over_limit(st: TokenState) -> bool {
    st.tokens.len() > MAX_SSH_CONFIG_TOKENS_PER_LINE || utf8_len(st.token) > MAX_SSH_TOKEN_BYTES
}

/// The state at the end of a line or at a comment; none where a limit is exceeded.
pub open spec fn scanned(s: Seq<char>, st: TokenState) -> Option<TokenState>
    decreases s.len(),
{
    if s.len() == 0 {
        Some(st)
    } else if is_bare(st, s[0]) && s[0] == '#' {
        Some(st)
    } else {
        let next = token_step(st, s[0]);
        if is_bare(st, s[0]) && over_limit(next) {
            None
        } else {
            scanned(s.skip(1), next)
        }
    }
}

pub open spec fn line_message(n: nat, what: Seq<char>) -> Seq<char> {
    "~/.ssh/config line "@ + decimal(n) + what
}

/// The words of a line, or why it is refused.
pub open spec fn line_tokens(line: Seq<char>, n: nat) -> Result<Seq<Seq<char>>, Seq<char>> {
    match scanned(line, fresh_tokens()) {
        None => Err(line_message(n, " exceeds a safety limit"@)),
        Some(st) => if st.escaped || st.quote is Some {
            Err(line_message(n, " has an unfinished escape or quote"@))
        } else {
            let tokens = if st.token.len() > 0 {
                st.tokens.push(st.token)
            } else {
                st.tokens
            };
            if tokens.len() > MAX_SSH_CONFIG_TOKENS_PER_LINE {
                Err(line_message(n, " has too many fields"@))
            } else {
                Ok(tokens)
            }
        },
    }
}

pub open spec fn is_ssh_error(e: NetError, message: Seq<char>) -> bool {
    e matches NetError::Ssh(m) && m@ == message
}

pub fn ssh_error(message: &str) -> (r: NetError)
    ensures
        is_ssh_error(r, message@),
{
    NetError::Ssh(message.to_owned())
}

/// A message around a line number.
fn numbered(before: &str, n: usize, after: &str) -> (r: String)
    ensures
        r@ == before@ + decimal(n as nat) + after@,
{
    let number: String = string_of(&to_decimal(n as u64));
    plus(plus(before.to_owned(), number.as_str()), after)
}

fn line_error(n: usize, what: &str) -> (r: NetError)
    ensures
        is_ssh_error(r, line_message(n as nat, what@)),
{
    NetError::Ssh(numbered("~/.ssh/config line ", n, what))
}

#[verifier::loop_isolation(false)]
pub fn tokenize_config_line(line: &[char], line_number: usize) -> (r: Result<
    Vec<Vec<char>>,
    NetError,
>)
    ensures
        r is Ok <==> line_tokens(line@, line_number as nat) is Ok,
        r matches Ok(tokens) ==> line_tokens(line@, line_number as nat) == Ok::<
            Seq<Seq<char>>,
            Seq<char>,
        >(views(tokens@)),
        r matches Err(e) ==> line_tokens(line@, line_number as nat) matches Err(m) && is_ssh_error(
            e,
            m,
        ),
{
    let mut tokens: Vec<Vec<char>> = Vec::new();
    let mut token: Vec<char> = Vec::new();
    let mut width: usize = 0;
    let mut quote: Option<char> = None;
    let mut escaped: bool = false;
    let ghost mut st = fresh_tokens();
    let mut i: usize = 0;
    let mut comment: bool = false;
    assert(views(tokens@) =~= Seq::<Seq<char>>::empty());
    assert(line@.skip(0) =~= line@);
    assert(utf8_len(token@) == 0);
    while i < line.len() && !comment
        invariant
            i <= line@.len(),
            st == (TokenState { tokens: views(tokens@), token: token@, quote, escaped }),
            width <= MAX_SSH_TOKEN_BYTES ==> width == utf8_len(token@),
            width > MAX_SSH_TOKEN_BYTES ==> utf8_len(token@) > MAX_SSH_TOKEN_BYTES,
            width <= MAX_SSH_TOKEN_BYTES + 4,
            !comment ==> scanned(line@, fresh_tokens()) == scanned(line@.skip(i as int), st),
            comment ==> scanned(line@, fresh_tokens()) == Some(st),
        decreases line@.len() - i + if comment {
            0int
        } else {
            1int
        },
    {
        let c: char = line[i];
        let ghost rest = line@.skip(i as int);
        assert(rest[0] == c);
        assert(rest.skip(1) =~= line@.skip(i + 1));
        let ghost before = st;
        let ghost old_tokens = tokens@;
        let ghost old_token = token@;
        proof {
            lemma_utf8_len_push(token@, c);
        }
        let bare: bool = !escaped && c != '\\' && quote.is_none();
        if bare && c == '#' {
            comment = true;
        } else {
            let mut keep: bool = false;
            let mut close: bool = false;
            if escaped {
                keep = true;
                escaped = false;
            } else if c == '\\' {
                escaped = true;
            } else if let Some(delimiter) = quote {
                if c == delimiter {
                    quote = None;
                } else {
                    keep = true;
                }
            } else if c == '\'' || c == '"' {
                quote = Some(c);
            } else if c == '=' && tokens.len() == 0 && token.len() > 0 {
                close = true;
            } else if c == '=' && tokens.len() == 1 && token.len() == 0 {
            } else if ascii_space(c) {
                if token.len() > 0 {
                    close = true;
                }
            } else {
                keep = true;
            }
            if keep {
                token.push(c);
                if width <= MAX_SSH_TOKEN_BYTES {
                    width += width_of(c);
                }
            }
            if close {
                tokens.push(token);
                assert(views(tokens@) =~= views(old_tokens).push(old_token));
                token = Vec::new();
                width = 0;
                assert(token@ =~= Seq::<char>::empty());
            }
            proof {
                st = token_step(before, c);
            }
            if bare && (tokens.len() > MAX_SSH_CONFIG_TOKENS_PER_LINE || width
                > MAX_SSH_TOKEN_BYTES) {
                return Err(line_error(line_number, " exceeds a safety limit"));
            }
            i += 1;
        }
    }
    assert(scanned(line@, fresh_tokens()) == Some(st));
    if escaped || quote.is_some() {
        return Err(line_error(line_number, " has an unfinished escape or quote"));
    }
    if token.len() > 0 {
        let ghost old_tokens = tokens@;
        let ghost last = token@;
        tokens.push(token);
        assert(views(tokens@) =~= views(old_tokens).push(last));
    }
    if tokens.len() > MAX_SSH_CONFIG_TOKENS_PER_LINE {
        return Err(line_error(line_number, " has too many fields"));
    }
    Ok(tokens)
}

// --- the settings of a file --------------------------------------------------------------------

/// A host pattern, mark aside, is not empty or long and holds nothing that no host name holds.
pub open spec fn pattern_allowed(pattern: Seq<char>) -> bool {
    let bare = bare_pattern(pattern);
    &&& bare.len() > 0
    &&& utf8_len(bare) <= MAX_SSH_HOST_BYTES
    &&& !has_host_breaker(bare)
}

/// Characters that no host may hold.
pub open spec fn breaks_host(c: char) -> bool {
    is_ascii_control(c) || is_ascii_space(c) || c == '/' || c == '@' || c == '[' || c == ']'
}

pub open spec fn has_host_breaker(s: Seq<char>) -> bool {
    exists|i: int| 0 <= i < s.len() && breaks_host(#[trigger] s[i])
}

pub fn any_host_breaker(s: &[char]) -> (r: bool)
    ensures
        r == has_host_breaker(s@),
{
    let mut i: usize = 0;
    while i < s.len()
        invariant
            i <= s@.len(),
            forall|j: int| 0 <= j < i ==> !breaks_host(#[trigger] s@[j]),
        decreases s@.len() - i,
    {
        let c: char = s[i];
        if ascii_control(c) || ascii_space(c) || c == '/' || c == '@' || c == '[' || c == ']' {
            assert(breaks_host(s@[i as int]));
            return true;
        }
        i += 1;
    }
    false
}

pub open spec fn field_message(field: Seq<char>, n: nat, what: Seq<char>) -> Seq<char> {
    "~/.ssh/config "@ + field + " on line "@ + decimal(n) + what
}

/// The only value of a setting.
pub open spec fn one_value(args: Seq<Seq<char>>, field: Seq<char>, n: nat) -> Result<
    Seq<char>,
    Seq<char>,
> {
    if args.len() != 1 {
        Err(field_message(field, n, " needs exactly one value"@))
    } else {
        Ok(args[0])
    }
}

pub open spec fn is_none_word(s: Seq<char>) -> bool {
    ascii_lowercase(s) == "none"@
}

/// What a setting other than `Host` does to the settings of its block.
pub open spec fn directive(params: ParamsView, field: Seq<char>, args: Seq<Seq<char>>, n: nat) -> Result<
    ParamsView,
    Seq<char>,
> {
    if field == "include"@ {
        Err(
            "SSH config Include is not supported; merge the required Host block into ~/.ssh/config"@,
        )
    } else if field == "match"@ {
        Err(
            "SSH config Match blocks are not supported because their conditions may execute commands"@,
        )
    } else if field == "hostname"@ {
        match one_value(args, "HostName"@, n) {
            Err(e) => Err(e),
            Ok(v) => Ok(
                ParamsView { host_name: first_of_two(params.host_name, Some(v)), ..params },
            ),
        }
    } else if field == "user"@ {
        match one_value(args, "User"@, n) {
            Err(e) => Err(e),
            Ok(v) => Ok(ParamsView { user: first_of_two(params.user, Some(v)), ..params }),
        }
    } else if field == "port"@ {
        match one_value(args, "Port"@, n) {
            Err(e) => Err(e),
            Ok(v) => match unsigned_value(v, 65535) {
                Some(p) => if p != 0 {
                    Ok(ParamsView { port: first_of_two(params.port, Some(p as u16)), ..params })
                } else {
                    Err(field_message("Port"@, n, " must be 1–65535"@))
                },
                None => Err(field_message("Port"@, n, " must be 1–65535"@)),
            },
        }
    } else if field == "identityfile"@ {
        if args.len() == 0 {
            Err(field_message("IdentityFile"@, n, " has no path"@))
        } else if params.identity_files.len() + args.len() > MAX_SSH_IDENTITY_FILES {
            Err("~/.ssh/config contains more than 64 matching IdentityFile entries"@)
        } else {
            Ok(ParamsView { identity_files: params.identity_files + args, ..params })
        }
    } else if field == "connecttimeout"@ {
        match one_value(args, "ConnectTimeout"@, n) {
            Err(e) => Err(e),
            Ok(v) => match unsigned_value(v, u64::MAX as nat) {
                Some(t) => Ok(
                    ParamsView {
                        connect_timeout: first_of_two(params.connect_timeout, Some(t as u64)),
                        ..params
                    },
                ),
                None => Err(field_message("ConnectTimeout"@, n, " is invalid"@)),
            },
        }
    } else if field == "serveraliveinterval"@ {
        match one_value(args, "ServerAliveInterval"@, n) {
            Err(e) => Err(e),
            Ok(v) => match unsigned_value(v, u64::MAX as nat) {
                Some(t) => Ok(
                    ParamsView {
                        server_alive_interval: first_of_two(
                            params.server_alive_interval,
                            Some(t as u64),
                        ),
                        ..params
                    },
                ),
                None => Err(field_message("ServerAliveInterval"@, n, " is invalid"@)),
            },
        }
    } else if field == "proxyjump"@ {
        match one_value(args, "ProxyJump"@, n) {
            Err(e) => Err(e),
            Ok(v) => Ok(
                ParamsView { proxy_jump: first_of_two(params.proxy_jump, Some(v)), ..params },
            ),
        }
    } else if field == "proxycommand"@ && !(args.len() > 0 && is_none_word(args[0])) {
        Ok(ParamsView { proxy_command: true, ..params })
    } else {
        Ok(params)
    }
}

pub open spec fn all_patterns_allowed(patterns: Seq<Seq<char>>) -> bool {
    forall|i: int| 0 <= i < patterns.len() ==> pattern_allowed(#[trigger] patterns[i])
}

/// What a line does to the configuration read so far. Settings belong to the last `Host` block, or
/// to all hosts before the first.
pub open spec fn config_step(
    config: ConfigView,
    field: Seq<char>,
    args: Seq<Seq<char>>,
    n: nat,
) -> Result<ConfigView, Seq<char>> {
    if field == "host"@ {
        if args.len() == 0 {
            Err(field_message("Host"@, n, " has no patterns"@))
        } else if config.hosts.len() >= MAX_SSH_CONFIG_SECTIONS {
            Err("~/.ssh/config has too many Host sections"@)
        } else if !all_patterns_allowed(args) {
            Err(field_message("Host pattern"@, n, " is invalid"@))
        } else {
            Ok(
                ConfigView {
                    hosts: config.hosts.push(BlockView { patterns: args, params: no_params() }),
                    ..config
                },
            )
        }
    } else if config.hosts.len() > 0 {
        match directive(config.hosts.last().params, field, args, n) {
            Err(e) => Err(e),
            Ok(params) => Ok(
                ConfigView {
                    hosts: config.hosts.drop_last().push(
                        BlockView { params, ..config.hosts.last() },
                    ),
                    ..config
                },
            ),
        }
    } else {
        match directive(config.global, field, args, n) {
            Err(e) => Err(e),
            Ok(params) => Ok(ConfigView { global: params, ..config }),
        }
    }
}

/// What the lines from number `n` on do to the configuration read so far.
pub open spec fn config_from(all: Seq<Seq<char>>, n: nat, config: ConfigView) -> Result<
    ConfigView,
    Seq<char>,
>
    decreases all.len(),
{
    if all.len() == 0 {
        Ok(config)
    } else {
        match line_tokens(all[0], n) {
            Err(e) => Err(e),
            Ok(tokens) => if tokens.len() == 0 {
                config_from(all.skip(1), n + 1, config)
            } else {
                match config_step(config, ascii_lowercase(tokens[0]), tokens.skip(1), n) {
                    Err(e) => Err(e),
                    Ok(next) => config_from(all.skip(1), n + 1, next),
                }
            },
        }
    }
}

/// The configuration that a text denotes.
pub open spec fn config_of(text: Seq<char>) -> Result<ConfigView, Seq<char>> {
    if text.contains('\0') {
        Err("~/.ssh/config contains NUL"@)
    } else {
        config_from(text_lines(text), 1, ConfigView { global: no_params(), hosts: Seq::empty() })
    }
}

fn field_error(field: &str, n: usize, what: &str) -> (r: NetError)
    ensures
        is_ssh_error(r, field_message(field@, n as nat, what@)),
{
    let start: String = plus(plus("~/.ssh/config ".to_owned(), field), " on line ");
    let number: String = string_of(&to_decimal(n as u64));
    NetError::Ssh(plus(plus(start, number.as_str()), what))
}

fn one_argument(args: &Vec<Vec<char>>, field: &str, n: usize) -> (r: Result<String, NetError>)
    ensures
        r is Ok <==> one_value(views(args@), field@, n as nat) is Ok,
        r matches Ok(v) ==> one_value(views(args@), field@, n as nat) == Ok::<Seq<char>, Seq<char>>(
            v@,
        ),
        r matches Err(e) ==> one_value(views(args@), field@, n as nat) matches Err(m)
            && is_ssh_error(e, m),
{
    if args.len() != 1 {
        return Err(field_error(field, n, " needs exactly one value"));
    }
    assert(views(args@)[0] == args@[0]@);
    Ok(string_of(&args[0]))
}

fn set_text(slot: Option<String>, value: String) -> (r: Option<String>)
    ensures
        text_of(r) == first_of_two(text_of(slot), Some(value@)),
{
    if slot.is_some() {
        slot
    } else {
        Some(value)
    }
}

fn strings_of(args: &Vec<Vec<char>>, out: &mut Vec<String>)
    ensures
        texts(final(out)@) == texts(old(out)@) + views(args@),
{
    let ghost start = texts(out@);
    let ghost all = views(args@);
    let mut i: usize = 0;
    assert(start + all.take(0) =~= start);
    while i < args.len()
        invariant
            i <= args@.len(),
            all == views(args@),
            texts(out@) == start + all.take(i as int),
        decreases args@.len() - i,
    {
        let ghost before = out@;
        out.push(string_of(&args[i]));
        assert(texts(out@) =~= texts(before).push(all[i as int]));
        assert(start + all.take(i + 1) =~= (start + all.take(i as int)).push(all[i as int]));
        i += 1;
    }
    assert(all.take(all.len() as int) =~= all);
}

fn seconds_value(value: &str) -> (r: Option<u64>)
    ensures
        r is Some <==> unsigned_value(value@, u64::MAX as nat) is Some,
        r matches Some(n) ==> unsigned_value(value@, u64::MAX as nat) == Some(n as nat),
{
    let chars: Vec<char> = chars_of(value);
    parse_unsigned(&chars, u64::MAX)
}

fn none_word(s: &[char]) -> (r: bool)
    ensures
        r == is_none_word(s@),
{
    is_word(&to_ascii_lower(s), "none")
}

fn apply_directive(
    params: HostParams,
    field: &[char],
    args: &Vec<Vec<char>>,
    n: usize,
) -> (r: Result<HostParams, NetError>)
    ensures
        r is Ok <==> directive(params@, field@, views(args@), n as nat) is Ok,
        r matches Ok(p) ==> directive(params@, field@, views(args@), n as nat) == Ok::<
            ParamsView,
            Seq<char>,
        >(p@),
        r matches Err(e) ==> directive(params@, field@, views(args@), n as nat) matches Err(m)
            && is_ssh_error(e, m),
{
    if is_word(field, "include") {
        return Err(
            ssh_error(
                "SSH config Include is not supported; merge the required Host block into ~/.ssh/config",
            ),
        );
    }
    if is_word(field, "match") {
        return Err(
            ssh_error(
                "SSH config Match blocks are not supported because their conditions may execute commands",
            ),
        );
    }
    if is_word(field, "hostname") {
        return match one_argument(args, "HostName", n) {
            Err(e) => Err(e),
            Ok(v) => Ok(HostParams { host_name: set_text(params.host_name, v), ..params }),
        };
    }
    if is_word(field, "user") {
        return match one_argument(args, "User", n) {
            Err(e) => Err(e),
            Ok(v) => Ok(HostParams { user: set_text(params.user, v), ..params }),
        };
    }
    if is_word(field, "port") {
        return match one_argument(args, "Port", n) {
            Err(e) => Err(e),
            Ok(v) => {
                let chars: Vec<char> = chars_of(v.as_str());
                match parse_unsigned(&chars, 65535) {
                    Some(port) => {
                        if port == 0 {
                            return Err(field_error("Port", n, " must be 1–65535"));
                        }
                        let port: Option<u16> = if params.port.is_some() {
                            params.port
                        } else {
                            Some(port as u16)
                        };
                        Ok(HostParams { port, ..params })
                    },
                    None => Err(field_error("Port", n, " must be 1–65535")),
                }
            },
        };
    }
    if is_word(field, "identityfile") {
        if args.len() == 0 {
            return Err(field_error("IdentityFile", n, " has no path"));
        }
        if params.identity_files.len() > MAX_SSH_IDENTITY_FILES || args.len()
            > MAX_SSH_IDENTITY_FILES - params.identity_files.len() {
            return Err(
                ssh_error("~/.ssh/config contains more than 64 matching IdentityFile entries"),
            );
        }
        let mut identity_files: Vec<String> = params.identity_files;
        strings_of(args, &mut identity_files);
        return Ok(HostParams { identity_files, ..params });
    }
    if is_word(field, "connecttimeout") {
        return match one_argument(args, "ConnectTimeout", n) {
            Err(e) => Err(e),
            Ok(v) => match seconds_value(v.as_str()) {
                Some(t) => {
                    let connect_timeout: Option<u64> = if params.connect_timeout.is_some() {
                        params.connect_timeout
                    } else {
                        Some(t)
                    };
                    Ok(HostParams { connect_timeout, ..params })
                },
                None => Err(field_error("ConnectTimeout", n, " is invalid")),
            },
        };
    }
    if is_word(field, "serveraliveinterval") {
        return match one_argument(args, "ServerAliveInterval", n) {
            Err(e) => Err(e),
            Ok(v) => match seconds_value(v.as_str()) {
                Some(t) => {
                    let server_alive_interval: Option<u64> = if params.server_alive_interval.is_some() {
                        params.server_alive_interval
                    } else {
                        Some(t)
                    };
                    Ok(HostParams { server_alive_interval, ..params })
                },
                None => Err(field_error("ServerAliveInterval", n, " is invalid")),
            },
        };
    }
    if is_word(field, "proxyjump") {
        return match one_argument(args, "ProxyJump", n) {
            Err(e) => Err(e),
            Ok(v) => Ok(HostParams { proxy_jump: set_text(params.proxy_jump, v), ..params }),
        };
    }
    if is_word(field, "proxycommand") {
        assert(args@.len() > 0 ==> views(args@)[0] == args@[0]@);
        if !(args.len() > 0 && none_word(&args[0])) {
            return Ok(HostParams { proxy_command: true, ..params });
        }
    }
    Ok(params)
}

fn allowed_pattern(pattern: &[char]) -> (r: bool)
    ensures
        r == pattern_allowed(pattern@),
{
    let text: String = string_of(pattern);
    let bare: Vec<char> = without_mark(text.as_str());
    let bare_text: String = string_of(&bare);
    bare.len() > 0 && byte_len(bare_text.as_str()) <= MAX_SSH_HOST_BYTES && !any_host_breaker(&bare)
}

fn allowed_patterns(patterns: &Vec<Vec<char>>) -> (r: bool)
    ensures
        r == all_patterns_allowed(views(patterns@)),
{
    let mut i: usize = 0;
    while i < patterns.len()
        invariant
            i <= patterns@.len(),
            forall|j: int|
                0 <= j < i ==> pattern_allowed(#[trigger] views(patterns@)[j]),
        decreases patterns@.len() - i,
    {
        assert(views(patterns@)[i as int] == patterns@[i as int]@);
        if !allowed_pattern(&patterns[i]) {
            return false;
        }
        i += 1;
    }
    true
}

fn apply_line(config: SshConfig, field: &[char], args: &Vec<Vec<char>>, n: usize) -> (r: Result<
    SshConfig,
    NetError,
>)
    ensures
        r is Ok <==> config_step(config@, field@, views(args@), n as nat) is Ok,
        r matches Ok(c) ==> config_step(config@, field@, views(args@), n as nat) == Ok::<
            ConfigView,
            Seq<char>,
        >(c@),
        r matches Err(e) ==> config_step(config@, field@, views(args@), n as nat) matches Err(m)
            && is_ssh_error(e, m),
{
    let ghost before = config@;
    let global: HostParams = config.global;
    let mut hosts: Vec<HostBlock> = config.hosts;
    let ghost blocks = hosts@;
    assert(before.hosts == block_views(blocks));
    if is_word(field, "host") {
        if args.len() == 0 {
            return Err(field_error("Host", n, " has no patterns"));
        }
        if hosts.len() >= MAX_SSH_CONFIG_SECTIONS {
            return Err(ssh_error("~/.ssh/config has too many Host sections"));
        }
        if !allowed_patterns(args) {
            return Err(field_error("Host pattern", n, " is invalid"));
        }
        let mut patterns: Vec<String> = Vec::new();
        assert(texts(patterns@) =~= Seq::<Seq<char>>::empty());
        strings_of(args, &mut patterns);
        assert(texts(patterns@) =~= views(args@));
        hosts.push(HostBlock { patterns, params: HostParams::new() });
        assert(block_views(hosts@) =~= block_views(blocks).push(hosts@.last()@));
        return Ok(SshConfig { global, hosts });
    }
    match hosts.pop() {
        Some(block) => {
            assert(before.hosts.last() == block@);
            assert(block_views(hosts@) =~= before.hosts.drop_last());
            let ghost front = hosts@;
            match apply_directive(block.params, field, args, n) {
                Err(e) => Err(e),
                Ok(params) => {
                    hosts.push(HostBlock { patterns: block.patterns, params });
                    assert(block_views(hosts@) =~= block_views(front).push(hosts@.last()@));
                    Ok(SshConfig { global, hosts })
                },
            }
        },
        None => match apply_directive(global, field, args, n) {
            Err(e) => Err(e),
            Ok(global) => {
                assert(block_views(hosts@) =~= before.hosts);
                Ok(SshConfig { global, hosts })
            },
        },
    }
}

/// Read a configuration. Nothing is executed and no other file is read.
pub fn parse_config_text(text: &str) -> (r: Result<SshConfig, NetError>)
    ensures
        r is Ok <==> config_of(text@) is Ok,
        r matches Ok(config) ==> config_of(text@) == Ok::<ConfigView, Seq<char>>(config@),
        r matches Err(e) ==> config_of(text@) matches Err(m) && is_ssh_error(e, m),
{
    let chars: Vec<char> = chars_of(text);
    if contains_char(&chars, '\0') {
        return Err(ssh_error("~/.ssh/config contains NUL"));
    }
    let all: Vec<Vec<char>> = lines(&chars);
    let ghost rows = views(all@);
    let mut config: SshConfig = SshConfig::new();
    let mut i: usize = 0;
    assert(rows.skip(0) =~= rows);
    while i < all.len()
        invariant
            i <= all@.len(),
            rows == views(all@),
            config_of(text@) == config_from(rows.skip(i as int), (i + 1) as nat, config@),
        decreases all@.len() - i,
    {
        let ghost rest = rows.skip(i as int);
        assert(rest[0] == all@[i as int]@);
        assert(rest.skip(1) =~= rows.skip(i + 1));
        let n: usize = i + 1;
        match tokenize_config_line(&all[i], n) {
            Err(e) => {
                return Err(e);
            },
            Ok(tokens) => {
                if tokens.len() > 0 {
                    let ghost words = views(tokens@);
                    let mut args: Vec<Vec<char>> = tokens;
                    let first: Vec<char> = args.remove(0);
                    assert(words[0] == first@);
                    assert(views(args@) =~= words.skip(1));
                    let field: Vec<char> = to_ascii_lower(&first);
                    match apply_line(config, &field, &args, n) {
                        Err(e) => {
                            return Err(e);
                        },
                        Ok(next) => {
                            config = next;
                        },
                    }
                }
            },
        }
        i += 1;
    }
    assert(rows.skip(i as int).len() == 0);
    Ok(config)
}

/// The first value that a configuration gives to a setting counts, whatever follows.
pub proof fn first_value_wins(hosts: Seq<BlockView>, alias: Seq<char>, so_far: ParamsView)
    ensures
        ({
            let all = queried(hosts, alias, so_far);
            &&& so_far.host_name is Some ==> all.host_name == so_far.host_name
            &&& so_far.user is Some ==> all.user == so_far.user
            &&& so_far.port is Some ==> all.port == so_far.port
            &&& so_far.proxy_jump is Some ==> all.proxy_jump == so_far.proxy_jump
            &&& so_far.connect_timeout is Some ==> all.connect_timeout == so_far.connect_timeout
            &&& so_far.server_alive_interval is Some ==> all.server_alive_interval
                == so_far.server_alive_interval
        }),
    decreases hosts.len(),
{
    if hosts.len() > 0 {
        first_value_wins(hosts.drop_last(), alias, so_far);
    }
}

/// A proxy command in any block that applies is never lost, however many blocks follow.
pub proof fn proxy_command_is_never_lost(
    hosts: Seq<BlockView>,
    alias: Seq<char>,
    so_far: ParamsView,
    i: int,
)
    requires
        0 <= i < hosts.len(),
        block_applies(hosts[i].patterns, alias),
        hosts[i].params.proxy_command,
    ensures
        queried(hosts, alias, so_far).proxy_command,
    decreases hosts.len(),
{
    if i < hosts.len() - 1 {
        assert(hosts.drop_last()[i] == hosts[i]);
        proxy_command_is_never_lost(hosts.drop_last(), alias, so_far, i);
    }
}

} // verus!
