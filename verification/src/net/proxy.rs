//! Bounded, credential-free HTTP CONNECT and SOCKS5 tunnels.
//!
//! Connection metadata may contain only `http://host:port` or `socks5://host:port`. User
//! information is rejected so a password can never leak into saved connections, exports,
//! diagnostics or synchronization. SOCKS5 uses remote DNS for host names; HTTP CONNECT sends only
//! the target authority.

use vstd::prelude::*;
use vstd::slice::slice_subrange;
use vstd::utf8::{decode_utf8, encode_utf8, valid_utf8};

use crate::ip_address::{ipv4_octets, ipv6_words, parse_ipv4, parse_ipv6};
use crate::net::error::{IoFailure, IoKind};
use crate::net::search::{split_words, words};
use crate::net::ssh_resolve::{find_last, last_of, parse_port, port_number};
use crate::net::safe::append_bytes;
use crate::numerals::{decimal, parse_unsigned, to_decimal, unsigned_value};
use crate::pieces::{
    contains_char, find_any, first_of, has_prefix, lines, starts_with, text_lines, trim, trimmed,
    views,
};
use crate::text::{
    any_control, any_space_or_control, ascii_control, ascii_lowercase, ascii_space, byte_len, chars_of, has_control, has_space_or_control,
    is_ascii_control, is_ascii_space, is_word, plus, string_of, to_ascii_lower, utf8_len,
};

verus! {

pub const MAX_PROXY_HOST_BYTES: usize = 253;

pub const MAX_TARGET_HOST_BYTES: usize = 255;

pub const MAX_HTTP_RESPONSE_HEADER_BYTES: usize = 16384;

#[derive(Debug, Clone, Copy, PartialEq, Eq, Structural)]
pub enum ProxyKind {
    HttpConnect,
    Socks5,
}

#[derive(Debug, PartialEq, Eq)]
pub struct ProxyEndpoint {
    pub kind: ProxyKind,
    pub host: String,
    pub port: u16,
}

pub ghost struct ProxyView {
    pub kind: ProxyKind,
    pub host: Seq<char>,
    pub port: u16,
}

impl View for ProxyEndpoint {
    type V = ProxyView;

    open spec fn view(&self) -> ProxyView {
        ProxyView { kind: self.kind, host: self.host@, port: self.port }
    }
}

/// The first position at which a text occurs, or -1.
pub open spec fn first_occurrence(s: Seq<char>, needle: Seq<char>) -> int
    decreases s.len(),
{
    if has_prefix(s, needle) {
        0
    } else if s.len() == 0 {
        -1
    } else {
        let k = first_occurrence(s.skip(1), needle);
        if k < 0 {
            -1
        } else {
            k + 1
        }
    }
}

/// The first position at which a text occurs, if it does.
pub fn find_text(s: &[char], needle: &[char]) -> (r: Option<usize>)
    ensures
        r matches Some(i) ==> i == first_occurrence(s@, needle@) && i + needle@.len() <= s@.len(),
        r is None ==> first_occurrence(s@, needle@) == -1,
{
    let mut i: usize = 0;
    assert(s@.skip(0) =~= s@);
    while i <= s.len()
        invariant
            i <= s@.len() + 1,
            i <= s@.len() ==> ({
                let k = first_occurrence(s@.skip(i as int), needle@);
                first_occurrence(s@, needle@) == if k < 0 {
                    -1
                } else {
                    k + i
                }
            }),
            i == s@.len() + 1 ==> first_occurrence(s@, needle@) == -1,
        decreases s@.len() + 1 - i,
    {
        let rest: &[char] = slice_subrange(s, i, s.len());
        assert(rest@ =~= s@.skip(i as int));
        if starts_with(rest, needle) {
            return Some(i);
        }
        if i == s.len() {
            return None;
        }
        assert(rest@.skip(1) =~= s@.skip(i + 1));
        i += 1;
    }
    None
}

/// Characters that an authority may not hold.
pub open spec fn breaks_authority(c: char) -> bool {
    is_ascii_space(c) || c == '/' || c == '?' || c == '#'
}

pub open spec fn has_authority_breaker(s: Seq<char>) -> bool {
    exists|i: int| 0 <= i < s.len() && breaks_authority(#[trigger] s[i])
}

/// Host and port text of `host:port` or `[address]:port`.
pub open spec fn proxy_authority(s: Seq<char>) -> Result<(Seq<char>, Seq<char>), Seq<char>> {
    if s.len() > 0 && s[0] == '[' {
        let rest = s.skip(1);
        let close = first_of(rest, seq![']']);
        if close >= rest.len() {
            Err("proxy IPv6 address is missing a closing bracket"@)
        } else {
            let host = rest.take(close);
            let after = rest.skip(close + 1);
            if after.len() == 0 || after[0] != ':' {
                Err("proxy URL is missing a port"@)
            } else if ipv6_words(host) is None {
                Err("bracketed proxy host is not a valid IPv6 address"@)
            } else {
                Ok((host, after.skip(1)))
            }
        }
    } else {
        let at = last_of(s, ':');
        if at < 0 {
            Err("proxy URL is missing a port"@)
        } else if s.take(at).contains(':') {
            Err("proxy IPv6 addresses must be enclosed in brackets"@)
        } else {
            Ok((s.take(at), s.skip(at + 1)))
        }
    }
}

pub open spec fn proxy_scheme(s: Seq<char>) -> Option<ProxyKind> {
    if ascii_lowercase(s) == "http"@ {
        Some(ProxyKind::HttpConnect)
    } else if ascii_lowercase(s) == "socks5"@ {
        Some(ProxyKind::Socks5)
    } else {
        None
    }
}

/// The proxy that a URL names, or why it is refused.
pub open spec fn proxy_of(text: Seq<char>) -> Result<ProxyView, Seq<char>> {
    let value = trimmed(text);
    let cut = first_occurrence(value, seq![':', '/', '/']);
    if value.len() == 0 {
        Err("proxy URL is empty"@)
    } else if utf8_len(value) > 512 || has_control(value) {
        Err("proxy URL is too long or contains control characters"@)
    } else if cut < 0 {
        Err("proxy URL must start with http:// or socks5://"@)
    } else {
        let authority = value.skip(cut + 3);
        match proxy_scheme(value.take(cut)) {
            None => Err("only http:// and socks5:// proxies are supported"@),
            Some(kind) => if authority.contains('@') {
                Err("proxy credentials in URLs are not allowed"@)
            } else if has_authority_breaker(authority) {
                Err("proxy URL must contain only a host and port"@)
            } else {
                match proxy_authority(authority) {
                    Err(e) => Err(e),
                    Ok((host, port)) => if host.len() == 0 || utf8_len(host) > MAX_PROXY_HOST_BYTES
                        || has_space_or_control(host) {
                        Err("proxy host is empty, too long, or invalid"@)
                    } else {
                        match port_number(port) {
                            None => Err("proxy port must be between 1 and 65535"@),
                            Some(port) => Ok(ProxyView { kind, host, port }),
                        }
                    },
                }
            },
        }
    }
}

fn any_authority_breaker(s: &[char]) -> (r: bool)
    ensures
        r == has_authority_breaker(s@),
{
    let mut i: usize = 0;
    while i < s.len()
        invariant
            i <= s@.len(),
            forall|j: int| 0 <= j < i ==> !breaks_authority(#[trigger] s@[j]),
        decreases s@.len() - i,
    {
        let c: char = s[i];
        if ascii_space(c) || c == '/' || c == '?' || c == '#' {
            assert(breaks_authority(s@[i as int]));
            return true;
        }
        i += 1;
    }
    false
}

fn parse_proxy_authority(s: &[char]) -> (r: Result<(Vec<char>, Vec<char>), String>)
    ensures
        r is Ok <==> proxy_authority(s@) is Ok,
        r matches Ok(pair) ==> proxy_authority(s@) == Ok::<(Seq<char>, Seq<char>), Seq<char>>(
            (pair.0@, pair.1@),
        ),
        r matches Err(e) ==> proxy_authority(s@) == Err::<(Seq<char>, Seq<char>), Seq<char>>(e@),
{
    if s.len() > 0 && s[0] == '[' {
        let rest: &[char] = slice_subrange(s, 1, s.len());
        assert(rest@ =~= s@.skip(1));
        let bracket: [char; 1] = [']'];
        assert(bracket@ =~= seq![']']);
        let close: usize = find_any(rest, bracket.as_slice());
        if close >= rest.len() {
            return Err("proxy IPv6 address is missing a closing bracket".to_owned());
        }
        let host: &[char] = slice_subrange(rest, 0, close);
        let after: &[char] = slice_subrange(rest, close + 1, rest.len());
        assert(host@ =~= rest@.take(close as int));
        assert(after@ =~= rest@.skip(close + 1));
        if after.len() == 0 || after[0] != ':' {
            return Err("proxy URL is missing a port".to_owned());
        }
        if parse_ipv6(host).is_none() {
            return Err("bracketed proxy host is not a valid IPv6 address".to_owned());
        }
        let port: &[char] = slice_subrange(after, 1, after.len());
        assert(port@ =~= after@.skip(1));
        return Ok((crate::pieces::copy_chars(host), crate::pieces::copy_chars(port)));
    }
    let at: usize = find_last(s, ':');
    if at == 0 {
        return Err("proxy URL is missing a port".to_owned());
    }
    let host: &[char] = slice_subrange(s, 0, at - 1);
    let port: &[char] = slice_subrange(s, at, s.len());
    assert(host@ =~= s@.take(at - 1));
    assert(port@ =~= s@.skip(at as int));
    if contains_char(host, ':') {
        return Err("proxy IPv6 addresses must be enclosed in brackets".to_owned());
    }
    Ok((crate::pieces::copy_chars(host), crate::pieces::copy_chars(port)))
}

pub fn parse_proxy_url(value: &str) -> (r: Result<ProxyEndpoint, String>)
    ensures
        r is Ok <==> proxy_of(value@) is Ok,
        r matches Ok(p) ==> proxy_of(value@) == Ok::<ProxyView, Seq<char>>(p@),
        r matches Err(e) ==> proxy_of(value@) == Err::<ProxyView, Seq<char>>(e@),
{
    let all: Vec<char> = chars_of(value);
    let chars: &[char] = trim(&all);
    if chars.len() == 0 {
        return Err("proxy URL is empty".to_owned());
    }
    let text: String = string_of(chars);
    if byte_len(text.as_str()) > 512 || any_control(chars) {
        return Err("proxy URL is too long or contains control characters".to_owned());
    }
    let marker: [char; 3] = [':', '/', '/'];
    assert(marker@ =~= seq![':', '/', '/']);
    let cut: usize = match find_text(chars, marker.as_slice()) {
        None => {
            return Err("proxy URL must start with http:// or socks5://".to_owned());
        },
        Some(i) => i,
    };
    let scheme: &[char] = slice_subrange(chars, 0, cut);
    let authority: &[char] = slice_subrange(chars, cut + 3, chars.len());
    assert(scheme@ =~= chars@.take(cut as int));
    assert(authority@ =~= chars@.skip(cut + 3));
    let lower: Vec<char> = to_ascii_lower(scheme);
    let kind: ProxyKind = if is_word(&lower, "http") {
        ProxyKind::HttpConnect
    } else if is_word(&lower, "socks5") {
        ProxyKind::Socks5
    } else {
        return Err("only http:// and socks5:// proxies are supported".to_owned());
    };
    if contains_char(authority, '@') {
        return Err("proxy credentials in URLs are not allowed".to_owned());
    }
    if any_authority_breaker(authority) {
        return Err("proxy URL must contain only a host and port".to_owned());
    }
    match parse_proxy_authority(authority) {
        Err(e) => Err(e),
        Ok((host, port_text)) => {
            let host_text: String = string_of(&host);
            if host.len() == 0 || byte_len(host_text.as_str()) > MAX_PROXY_HOST_BYTES
                || any_space_or_control(&host) {
                return Err("proxy host is empty, too long, or invalid".to_owned());
            }
            match parse_port(&port_text) {
                None => Err("proxy port must be between 1 and 65535".to_owned()),
                Some(port) => Ok(ProxyEndpoint { kind, host: host_text, port }),
            }
        },
    }
}

/// Validate a persisted proxy setting without opening a socket.
pub fn validate_proxy_url(value: &str) -> (r: Result<(), String>)
    ensures
        r is Ok <==> proxy_of(value@) is Ok,
        r matches Err(e) ==> proxy_of(value@) == Err::<ProxyView, Seq<char>>(e@),
{
    match parse_proxy_url(value) {
        Ok(_) => Ok(()),
        Err(e) => Err(e),
    }
}

/// An accepted proxy setting holds no user information after its scheme.
pub proof fn accepted_proxy_has_no_credentials(text: Seq<char>)
    requires
        proxy_of(text) is Ok,
    ensures
        ({
            let value = trimmed(text);
            let cut = first_occurrence(value, seq![':', '/', '/']);
            &&& cut >= 0
            &&& proxy_scheme(value.take(cut)) is Some
            &&& !value.skip(cut + 3).contains('@')
            &&& proxy_of(text)->Ok_0.port != 0
        }),
{
}

// --- the target --------------------------------------------------------------------------------

pub open spec fn breaks_target(c: char) -> bool {
    is_ascii_control(c) || is_ascii_space(c) || c == '[' || c == ']' || c == '/' || c == '@'
}

pub open spec fn target_host_allowed(host: Seq<char>) -> bool {
    &&& host.len() > 0
    &&& utf8_len(host) <= MAX_TARGET_HOST_BYTES
    &&& forall|i: int| 0 <= i < host.len() ==> !breaks_target(#[trigger] host[i])
}

pub open spec fn io_failure(e: IoFailure, kind: IoKind, detail: Seq<char>) -> bool {
    e.kind == kind && e.detail@ == detail
}

pub fn validate_target(host: &str, port: u16) -> (r: Result<(), IoFailure>)
    ensures
        r is Ok <==> port != 0 && target_host_allowed(host@),
        r matches Err(e) ==> io_failure(
            e,
            IoKind::InvalidInput,
            if port == 0 {
                "proxy target port must not be zero"@
            } else {
                "proxy target host is empty, too long, or invalid"@
            },
        ),
{
    if port == 0 {
        return Err(IoFailure::new(IoKind::InvalidInput, "proxy target port must not be zero"));
    }
    let chars: Vec<char> = chars_of(host);
    let mut bad: bool = chars.len() == 0 || byte_len(host) > MAX_TARGET_HOST_BYTES;
    let mut i: usize = 0;
    while i < chars.len()
        invariant
            i <= chars@.len(),
            chars@ == host@,
            !bad ==> host@.len() > 0 && utf8_len(host@) <= MAX_TARGET_HOST_BYTES,
            !bad ==> forall|j: int| 0 <= j < i ==> !breaks_target(#[trigger] host@[j]),
            bad ==> !target_host_allowed(host@),
        decreases chars@.len() - i,
    {
        let c: char = chars[i];
        if ascii_control(c) || ascii_space(c) || c == '[' || c == ']' || c == '/' || c == '@' {
            assert(breaks_target(host@[i as int]));
            bad = true;
        }
        i += 1;
    }
    if bad {
        return Err(
            IoFailure::new(
                IoKind::InvalidInput,
                "proxy target host is empty, too long, or invalid",
            ),
        );
    }
    Ok(())
}

/// Which proxy to open a tunnel through; the target is checked first.
pub fn plan_tunnel(proxy_url: &str, target_host: &str, target_port: u16) -> (r: Result<
    ProxyEndpoint,
    IoFailure,
>)
    ensures
        r is Ok <==> target_port != 0 && target_host_allowed(target_host@) && proxy_of(
            proxy_url@,
        ) is Ok,
        r matches Ok(p) ==> proxy_of(proxy_url@) == Ok::<ProxyView, Seq<char>>(p@),
        r matches Err(e) ==> e.kind == IoKind::InvalidInput && (if target_port == 0 {
            e.detail@ == "proxy target port must not be zero"@
        } else if !target_host_allowed(target_host@) {
            e.detail@ == "proxy target host is empty, too long, or invalid"@
        } else {
            proxy_of(proxy_url@) == Err::<ProxyView, Seq<char>>(e.detail@)
        }),
{
    match validate_target(target_host, target_port) {
        Err(e) => Err(e),
        Ok(_) => match parse_proxy_url(proxy_url) {
            Ok(p) => Ok(p),
            Err(m) => Err(IoFailure { kind: IoKind::InvalidInput, detail: m }),
        },
    }
}

/// Host and port as one text, an IPv6 address in brackets.
pub open spec fn authority_text(host: Seq<char>, port: u16) -> Seq<char> {
    if ipv6_words(host) is Some {
        "["@ + host + "]:"@ + decimal(port as nat)
    } else {
        host + ":"@ + decimal(port as nat)
    }
}

pub fn authority(host: &str, port: u16) -> (r: String)
    ensures
        r@ == authority_text(host@, port),
{
    let number: String = string_of(&to_decimal(port as u64));
    let chars: Vec<char> = chars_of(host);
    if parse_ipv6(&chars).is_some() {
        plus(plus(plus("[".to_owned(), host), "]:"), number.as_str())
    } else {
        plus(plus(host.to_owned(), ":"), number.as_str())
    }
}

// --- HTTP CONNECT ------------------------------------------------------------------------------

pub open spec fn connect_request_text(host: Seq<char>, port: u16) -> Seq<char> {
    let target = authority_text(host, port);
    "CONNECT "@ + target + " HTTP/1.1\r\nHost: "@ + target
        + "\r\nProxy-Connection: keep-alive\r\n\r\n"@
}

/// The request that opens a tunnel.
pub fn connect_request(host: &str, port: u16) -> (r: String)
    ensures
        r@ == connect_request_text(host@, port),
{
    let target: String = authority(host, port);
    let head: String = plus(plus("CONNECT ".to_owned(), target.as_str()), " HTTP/1.1\r\nHost: ");
    plus(plus(head, target.as_str()), "\r\nProxy-Connection: keep-alive\r\n\r\n")
}

/// The bytes end in an empty line.
pub open spec fn header_complete(header: Seq<u8>) -> bool {
    header.len() >= 4 && header[header.len() - 4] == 13 && header[header.len() - 3] == 10
        && header[header.len() - 2] == 13 && header[header.len() - 1] == 10
}

#[derive(Debug, Clone, Copy, PartialEq, Eq, Structural)]
pub enum HeaderProgress {
    /// Read one more byte, and no more: what follows the header belongs to the tunnel.
    NeedByte,
    Complete,
    TooLong,
}

pub fn header_progress(header: &[u8]) -> (r: HeaderProgress)
    ensures
        r == (if header_complete(header@) && header@.len() <= MAX_HTTP_RESPONSE_HEADER_BYTES {
            HeaderProgress::Complete
        } else if header@.len() < MAX_HTTP_RESPONSE_HEADER_BYTES {
            HeaderProgress::NeedByte
        } else {
            HeaderProgress::TooLong
        }),
{
    let n: usize = header.len();
    if n <= MAX_HTTP_RESPONSE_HEADER_BYTES && n >= 4 && header[n - 4] == 13 && header[n - 3] == 10
        && header[n - 2] == 13 && header[n - 1] == 10 {
        HeaderProgress::Complete
    } else if n < MAX_HTTP_RESPONSE_HEADER_BYTES {
        HeaderProgress::NeedByte
    } else {
        HeaderProgress::TooLong
    }
}

/// `std::str::from_utf8` accepts exactly the valid UTF-8 encodings, and gives the text that they
/// encode.
#[verifier::external_body]
pub(crate) fn utf8_text(bytes: &[u8]) -> (r: Option<String>)
    ensures
        r is Some <==> valid_utf8(bytes@),
        r matches Some(s) ==> s@ == decode_utf8(bytes@),
{
    match std::str::from_utf8(bytes) {
        Ok(s) => Some(s.to_owned()),
        Err(_) => None,
    }
}

pub open spec fn first_line(text: Seq<char>) -> Seq<char> {
    if text_lines(text).len() > 0 {
        text_lines(text)[0]
    } else {
        Seq::empty()
    }
}

/// The status that a response header reports.
pub open spec fn http_status(text: Seq<char>) -> Option<nat> {
    let parts = words(first_line(text));
    if parts.len() >= 2 && (parts[0] == "HTTP/1.0"@ || parts[0] == "HTTP/1.1"@) {
        unsigned_value(parts[1], 65535)
    } else {
        None
    }
}

/// What the complete header of a proxy's response means.
pub open spec fn http_outcome(header: Seq<u8>) -> Result<(), (IoKind, Seq<char>)> {
    if !header_complete(header) {
        Err((IoKind::InvalidData, "HTTP proxy response headers exceed 16 KiB"@))
    } else if !valid_utf8(header) {
        Err((IoKind::InvalidData, "HTTP proxy returned non-UTF-8 response headers"@))
    } else {
        match http_status(decode_utf8(header)) {
            None => Err((IoKind::InvalidData, "HTTP proxy returned a malformed status line"@)),
            Some(code) => if code == 200 {
                Ok(())
            } else if code == 407 {
                Err(
                    (
                        IoKind::PermissionDenied,
                        "HTTP proxy requires authentication; credentials in connection metadata are intentionally unsupported"@,
                    ),
                )
            } else {
                Err(
                    (
                        IoKind::ConnectionRefused,
                        "HTTP proxy refused the tunnel (status "@ + decimal(code) + ")"@,
                    ),
                )
            },
        }
    }
}

pub fn http_connect(header: &[u8]) -> (r: Result<(), IoFailure>)
    ensures
        r is Ok <==> http_outcome(header@) is Ok,
        r matches Err(e) ==> http_outcome(header@) == Err::<(), (IoKind, Seq<char>)>(
            (e.kind, e.detail@),
        ),
{
    let n: usize = header.len();
    if !(n >= 4 && header[n - 4] == 13 && header[n - 3] == 10 && header[n - 2] == 13 && header[n
        - 1] == 10) {
        return Err(
            IoFailure::new(IoKind::InvalidData, "HTTP proxy response headers exceed 16 KiB"),
        );
    }
    let text: String = match utf8_text(header) {
        None => {
            return Err(
                IoFailure::new(
                    IoKind::InvalidData,
                    "HTTP proxy returned non-UTF-8 response headers",
                ),
            );
        },
        Some(t) => t,
    };
    let chars: Vec<char> = chars_of(text.as_str());
    let rows: Vec<Vec<char>> = lines(&chars);
    let mut status: Vec<char> = Vec::new();
    if rows.len() > 0 {
        status = crate::pieces::copy_chars(&rows[0]);
        assert(views(rows@)[0] == rows@[0]@);
    }
    assert(status@ =~= first_line(text@));
    let parts: Vec<Vec<char>> = split_words(&status);
    let mut code: Option<u64> = None;
    if parts.len() >= 2 {
        assert(words(status@)[0] == parts@[0]@ && words(status@)[1] == parts@[1]@);
        if is_word(&parts[0], "HTTP/1.0") || is_word(&parts[0], "HTTP/1.1") {
            code = parse_unsigned(&parts[1], 65535);
        }
    }
    match code {
        None => Err(
            IoFailure::new(IoKind::InvalidData, "HTTP proxy returned a malformed status line"),
        ),
        Some(code) => {
            if code == 200 {
                Ok(())
            } else if code == 407 {
                Err(
                    IoFailure::new(
                        IoKind::PermissionDenied,
                        "HTTP proxy requires authentication; credentials in connection metadata are intentionally unsupported",
                    ),
                )
            } else {
                let number: String = string_of(&to_decimal(code));
                let m: String = plus(
                    plus("HTTP proxy refused the tunnel (status ".to_owned(), number.as_str()),
                    ")",
                );
                Err(IoFailure { kind: IoKind::ConnectionRefused, detail: m })
            }
        },
    }
}

// --- SOCKS5 ------------------------------------------------------------------------------------

/// Version 5, one method: no authentication.
pub fn socks5_greeting() -> (r: Vec<u8>)
    ensures
        r@ == seq![5u8, 1, 0],
{
    let mut out: Vec<u8> = Vec::new();
    out.push(5);
    out.push(1);
    out.push(0);
    assert(out@ =~= seq![5u8, 1, 0]);
    out
}

/// What the two bytes of the proxy's choice of method mean.
pub fn socks5_method(version: u8, method: u8) -> (r: Result<(), IoFailure>)
    ensures
        r is Ok <==> version == 5 && method == 0,
        r matches Err(e) ==> if version == 5 && method == 0xff {
            io_failure(
                e,
                IoKind::PermissionDenied,
                "SOCKS5 proxy does not allow unauthenticated connections"@,
            )
        } else {
            io_failure(
                e,
                IoKind::InvalidData,
                "SOCKS5 proxy returned an invalid greeting"@,
            )
        },
{
    if version == 5 && method == 0 {
        Ok(())
    } else if version == 5 && method == 0xff {
        Err(
            IoFailure::new(
                IoKind::PermissionDenied,
                "SOCKS5 proxy does not allow unauthenticated connections",
            ),
        )
    } else {
        Err(IoFailure::new(IoKind::InvalidData, "SOCKS5 proxy returned an invalid greeting"))
    }
}

pub open spec fn high_byte(w: u16) -> u8 {
    (w / 256) as u8
}

pub open spec fn low_byte(w: u16) -> u8 {
    (w % 256) as u8
}

/// Words in network byte order.
pub open spec fn word_bytes(w: Seq<u16>) -> Seq<u8>
    decreases w.len(),
{
    if w.len() == 0 {
        Seq::empty()
    } else {
        word_bytes(w.drop_last()).push(high_byte(w.last())).push(low_byte(w.last()))
    }
}

/// Address type and address of a target: an IPv4 address, an IPv6 address, or a name for the proxy
/// to look up.
pub open spec fn socks5_address(host: Seq<char>) -> Seq<u8> {
    if ipv4_octets(host) is Some {
        seq![1u8] + ipv4_octets(host)->0
    } else if ipv6_words(host) is Some {
        seq![4u8] + word_bytes(ipv6_words(host)->0)
    } else {
        seq![3u8, utf8_len(host) as u8] + encode_utf8(host)
    }
}

pub open spec fn is_address(host: Seq<char>) -> bool {
    ipv4_octets(host) is Some || ipv6_words(host) is Some
}

fn append_words(out: &mut Vec<u8>, w: &Vec<u16>)
    ensures
        final(out)@ == old(out)@ + word_bytes(w@),
{
    let ghost start = out@;
    let mut i: usize = 0;
    assert(start + word_bytes(w@.take(0)) =~= start);
    while i < w.len()
        invariant
            i <= w@.len(),
            out@ == start + word_bytes(w@.take(i as int)),
        decreases w@.len() - i,
    {
        assert(w@.take(i + 1).drop_last() =~= w@.take(i as int));
        let word: u16 = w[i];
        out.push((word / 256) as u8);
        out.push((word % 256) as u8);
        assert(out@ =~= start + word_bytes(w@.take(i + 1)));
        i += 1;
    }
    assert(w@.take(w@.len() as int) =~= w@);
}

/// The request to connect to a target.
pub fn socks5_request(host: &str, port: u16) -> (r: Result<Vec<u8>, IoFailure>)
    ensures
        r is Ok <==> is_address(host@) || utf8_len(host@) <= 255,
        r matches Ok(request) ==> request@ == seq![5u8, 1, 0] + socks5_address(host@) + seq![
            high_byte(port),
            low_byte(port),
        ],
        r matches Err(e) ==> io_failure(
            e,
            IoKind::InvalidInput,
            "SOCKS5 target host exceeds 255 bytes"@,
        ),
{
    let mut out: Vec<u8> = socks5_greeting();
    let chars: Vec<char> = chars_of(host);
    match parse_ipv4(&chars) {
        Some(octets) => {
            out.push(1);
            append_bytes(&mut out, &octets);
        },
        None => match parse_ipv6(&chars) {
            Some(w) => {
                out.push(4);
                append_words(&mut out, &w);
            },
            None => {
                let bytes: &[u8] = host.as_bytes();
                if bytes.len() > 255 {
                    return Err(
                        IoFailure::new(
                            IoKind::InvalidInput,
                            "SOCKS5 target host exceeds 255 bytes",
                        ),
                    );
                }
                out.push(3);
                out.push(bytes.len() as u8);
                append_bytes(&mut out, bytes);
            },
        },
    }
    assert(out@ =~= seq![5u8, 1, 0] + socks5_address(host@));
    out.push((port / 256) as u8);
    out.push((port % 256) as u8);
    assert(out@ =~= seq![5u8, 1, 0] + socks5_address(host@) + seq![
        high_byte(port),
        low_byte(port),
    ]);
    Ok(out)
}

/// What remains to be read of a successful reply.
#[derive(Debug, Clone, Copy, PartialEq, Eq, Structural)]
pub enum BoundAddress {
    /// This many bytes.
    Fixed(usize),
    /// One byte with the length of a name, then the name and the port.
    Named,
}

/// What the first four bytes of the proxy's reply mean.
pub fn socks5_reply(version: u8, code: u8, reserved: u8, kind: u8) -> (r: Result<
    BoundAddress,
    IoFailure,
>)
    ensures
        r is Ok <==> version == 5 && reserved == 0 && code == 0 && (kind == 1 || kind == 3 || kind
            == 4),
        r matches Ok(b) ==> b == (if kind == 1 {
            BoundAddress::Fixed(6)
        } else if kind == 4 {
            BoundAddress::Fixed(18)
        } else {
            BoundAddress::Named
        }),
        r matches Err(e) ==> if version != 5 || reserved != 0 {
            io_failure(e, IoKind::InvalidData, "SOCKS5 proxy returned a malformed reply"@)
        } else if code != 0 {
            io_failure(
                e,
                IoKind::ConnectionRefused,
                "SOCKS5 proxy refused the tunnel (reply "@ + decimal(code as nat) + ")"@,
            )
        } else {
            io_failure(
                e,
                IoKind::InvalidData,
                "SOCKS5 proxy returned an invalid bound-address type"@,
            )
        },
{
    if version != 5 || reserved != 0 {
        return Err(IoFailure::new(IoKind::InvalidData, "SOCKS5 proxy returned a malformed reply"));
    }
    if code != 0 {
        let number: String = string_of(&to_decimal(code as u64));
        let m: String = plus(
            plus("SOCKS5 proxy refused the tunnel (reply ".to_owned(), number.as_str()),
            ")",
        );
        return Err(IoFailure { kind: IoKind::ConnectionRefused, detail: m });
    }
    if kind == 1 {
        Ok(BoundAddress::Fixed(6))
    } else if kind == 4 {
        Ok(BoundAddress::Fixed(18))
    } else if kind == 3 {
        Ok(BoundAddress::Named)
    } else {
        Err(
            IoFailure::new(
                IoKind::InvalidData,
                "SOCKS5 proxy returned an invalid bound-address type",
            ),
        )
    }
}

} // verus!
