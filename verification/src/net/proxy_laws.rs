//! What proxy settings mean and what is said to a proxy.

use vstd::prelude::*;
use vstd::utf8::encode_utf8;

use crate::ip_address::{ipv4_octets, ipv6_words, is_octet};
use crate::net::error::{IoFailure, IoKind};
use crate::net::proxy::{
    connect_request, first_line, first_occurrence, has_authority_breaker, http_connect, http_status,
    plan_tunnel, proxy_of, socks5_method, socks5_reply, socks5_request, BoundAddress, ProxyEndpoint,
    ProxyKind, ProxyView,
};
use crate::net::search::words;
use crate::net::ssh_laws::lemma_last_of;
use crate::net::ssh_resolve::port_number;
use crate::numerals::{decimal, decimal_reads_back, digits_value, is_digit};
use crate::pattern_laws::lemma_bytes_add;
use crate::pieces::{
    has_prefix, lemma_one_piece, lemma_trimmed_fixed, split_any, split_at_separator, text_lines,
    trimmed, without_return,
};
use crate::text::{
    ascii_lowercase, has_control, has_space_or_control, is_ascii_control, is_ascii_space, is_control,
    is_white_space, utf8_len,
};
use crate::text_laws::words_come_apart_at_white_space;

verus! {

/// A host that a proxy setting may name.
pub open spec fn is_plain_host(host: Seq<char>) -> bool {
    &&& host.len() > 0
    &&& utf8_len(host) <= 253
    &&& forall|i: int|
        0 <= i < host.len() ==> {
            let c = #[trigger] host[i];
            &&& c != ':' && c != '@' && c != '/' && c != '?' && c != '#' && c != '['
            &&& !is_ascii_space(c) && !is_ascii_control(c) && !is_control(c) && !is_white_space(c)
        }
}

/// A text begins with a scheme that holds no colon: the colon after it is the first.
proof fn lemma_cut(scheme: Seq<char>, rest: Seq<char>)
    requires
        forall|i: int| 0 <= i < scheme.len() ==> #[trigger] scheme[i] != ':',
    ensures
        first_occurrence(scheme + seq![':', '/', '/'] + rest, seq![':', '/', '/'])
            == scheme.len(),
    decreases scheme.len(),
{
    let mark = seq![':', '/', '/'];
    let s = scheme + mark + rest;
    if scheme.len() == 0 {
        assert(s.take(3) =~= mark);
    } else {
        assert(s[0] == scheme[0]);
        if has_prefix(s, mark) {
            assert(s.take(3)[0] == mark[0]);
        }
        assert(s.skip(1) =~= scheme.skip(1) + mark + rest);
        lemma_cut(scheme.skip(1), rest);
    }
}

proof fn lemma_proxy_url(scheme: Seq<char>, kind: ProxyKind, host: Seq<char>, port: u16)
    requires
        scheme == "http"@ && kind == ProxyKind::HttpConnect || scheme == "socks5"@ && kind
            == ProxyKind::Socks5,
        is_plain_host(host),
        port != 0,
    ensures
        proxy_of(scheme + seq![':', '/', '/'] + (host + seq![':'] + decimal(port as nat))) == Ok::<
            ProxyView,
            Seq<char>,
        >(ProxyView { kind, host, port }),
{
    reveal_strlit("http");
    reveal_strlit("socks5");
    let digits = decimal(port as nat);
    decimal_reads_back(port as nat);
    let place = host + seq![':'] + digits;
    let mark = seq![':', '/', '/'];
    let url = scheme + mark + place;
    let n = host.len() as int;
    assert(scheme.len() == 4 || scheme.len() == 6);
    assert(ascii_lowercase(scheme) =~= scheme);
    assert(forall|i: int| 0 <= i < digits.len() ==> is_digit(#[trigger] digits[i]));
    assert forall|i: int| 0 <= i < place.len() implies ({
        let c = #[trigger] place[i];
        &&& c != '@' && c != '/' && c != '?' && c != '#' && c != '['
        &&& !is_ascii_space(c) && !is_ascii_control(c) && !is_control(c)
        &&& i != n ==> c != ':'
    }) by {
        if i < n {
            assert(place[i] == host[i]);
        } else if i > n {
            assert(place[i] == digits[i - n - 1]);
        }
    }
    assert(url[0] == scheme[0]);
    assert(url.last() == digits[digits.len() - 1]);
    assert(is_digit(url.last()));
    lemma_trimmed_fixed(url);
    assert forall|i: int| 0 <= i < url.len() implies !is_control(#[trigger] url[i]) by {
        let k = scheme.len() as int;
        if i < k {
            assert(url[i] == scheme[i]);
        } else if i < k + 3 {
            assert(url[i] == mark[i - k]);
        } else {
            assert(url[i] == place[i - k - 3]);
        }
    }
    assert(!has_control(url));
    assert(utf8_len(url) <= 512) by {
        lemma_bytes_add(scheme + mark, place);
        lemma_bytes_add(host + seq![':'], digits);
        lemma_bytes_add(host, seq![':']);
        lemma_ascii_len(scheme + mark);
        lemma_ascii_len(seq![':']);
        lemma_ascii_len(digits);
        lemma_short(port as nat);
    }
    lemma_cut(scheme, place);
    assert(url.take(scheme.len() as int) =~= scheme);
    assert(url.skip(scheme.len() as int + 3) =~= place);
    assert(place[n] == ':');
    lemma_last_of(place, ':', n);
    assert(place.take(n) =~= host);
    assert(place.skip(n + 1) =~= digits);
    assert(!host.contains(':'));
    assert(place[0] == host[0]);
    assert(!place.contains('@'));
    assert(!has_authority_breaker(place));
    assert(!has_space_or_control(host));
    if kind == ProxyKind::Socks5 {
        assert("socks5"@.len() != "http"@.len());
    }
    assert(port_number(digits) == Some(port));
}

proof fn lemma_not_below_zero(c: char)
    ensures
        '\0' <= c,
{
}

proof fn lemma_ascii_len(s: Seq<char>)
    requires
        forall|i: int| 0 <= i < s.len() ==> #[trigger] s[i] <= '\u{7f}',
    ensures
        utf8_len(s) == s.len(),
{
    assert forall|i: int| 0 <= i < s.len() implies '\0' <= #[trigger] s[i] <= '\u{7f}' by {
        lemma_not_below_zero(s[i]);
    }
    assert(vstd::utf8::is_ascii_chars(s));
    vstd::utf8::is_ascii_chars_encode_utf8(s);
}

/// A port has at most five digits.
proof fn lemma_short(n: nat)
    requires
        n <= 65535,
    ensures
        decimal(n).len() <= 5,
{
    reveal_with_fuel(decimal, 6);
}

/// A setting of scheme, host and port is the proxy of that kind, at that host and that port.
pub proof fn proxy_settings_are_read_by_their_parts(host: Seq<char>, port: u16)
    requires
        is_plain_host(host),
        port != 0,
    ensures
        proxy_of("http"@ + seq![':', '/', '/'] + (host + seq![':'] + decimal(port as nat))) == Ok::<
            ProxyView,
            Seq<char>,
        >(ProxyView { kind: ProxyKind::HttpConnect, host, port }),
        proxy_of("socks5"@ + seq![':', '/', '/'] + (host + seq![':'] + decimal(port as nat))) == Ok::<
            ProxyView,
            Seq<char>,
        >(ProxyView { kind: ProxyKind::Socks5, host, port }),
{
    lemma_proxy_url("http"@, ProxyKind::HttpConnect, host, port);
    lemma_proxy_url("socks5"@, ProxyKind::Socks5, host, port);
}

/// No setting with credentials, with white space or control characters inside, or without a scheme
/// and a port names a proxy.
pub proof fn odd_proxy_settings_are_refused(text: Seq<char>)
    ensures
        trimmed(text).len() == 0 ==> proxy_of(text) is Err,
        has_control(trimmed(text)) ==> proxy_of(text) is Err,
        utf8_len(trimmed(text)) > 512 ==> proxy_of(text) is Err,
        first_occurrence(trimmed(text), seq![':', '/', '/']) < 0 ==> proxy_of(text) is Err,
        proxy_of(text) matches Ok(p) ==> p.port != 0 && p.host.len() > 0 && utf8_len(p.host) <= 253,
{
}

/// A tunnel goes to the proxy that the setting names, and only for a target with a host and a port.
pub proof fn tunnels_go_through_the_proxy_of_the_setting(
    setting: &str,
    host: &str,
    port: u16,
    r: Result<ProxyEndpoint, IoFailure>,
)
    requires
        call_ensures(plan_tunnel, (setting, host, port), r),
    ensures
        port == 0 ==> r is Err,
        host@.len() == 0 ==> r is Err,
        utf8_len(host@) > 255 ==> r is Err,
        forall|i: int|
            0 <= i < host@.len() && (is_ascii_space(#[trigger] host@[i]) || is_ascii_control(host@[i])
                || host@[i] == '/' || host@[i] == '@' || host@[i] == '[' || host@[i] == ']')
                ==> r is Err,
        r matches Ok(p) ==> proxy_of(setting@) == Ok::<ProxyView, Seq<char>>(
            ProxyView { kind: p.kind, host: p.host@, port: p.port },
        ),
        r matches Err(e) ==> e.kind == IoKind::InvalidInput,
{
}

/// A proxy is asked for the target twice over, in the request line and as the host, an IPv6 address
/// in brackets; the request ends in an empty line.
pub proof fn connect_requests_name_the_target(host: &str, port: u16, r: String)
    requires
        call_ensures(connect_request, (host, port), r),
    ensures
        ({
            let place = if ipv6_words(host@) is Some {
                "["@ + host@ + "]:"@ + decimal(port as nat)
            } else {
                host@ + ":"@ + decimal(port as nat)
            };
            r@ == "CONNECT "@ + place + " HTTP/1.1\r\nHost: "@ + place
                + "\r\nProxy-Connection: keep-alive\r\n\r\n"@
        }),
{
}

/// The status line of an answer says the code that stands in it.
pub proof fn status_lines_are_read(old: bool, code: u16, reason: Seq<char>, rest: Seq<char>)
    requires
        forall|i: int| 0 <= i < reason.len() ==> #[trigger] reason[i] != '\n',
    ensures
        http_status(
            (if old {
                "HTTP/1.0"@
            } else {
                "HTTP/1.1"@
            }) + seq![' '] + (decimal(code as nat) + seq![' '] + reason) + seq!['\r', '\n'] + rest,
        ) == Some(code as nat),
{
    let version = if old {
        "HTTP/1.0"@
    } else {
        "HTTP/1.1"@
    };
    reveal_strlit("HTTP/1.0");
    reveal_strlit("HTTP/1.1");
    let digits = decimal(code as nat);
    decimal_reads_back(code as nat);
    let line = version + seq![' '] + (digits + seq![' '] + reason);
    let text = line + seq!['\r', '\n'] + rest;
    let nl = seq!['\n'];
    assert(text =~= line.push('\r') + seq!['\n'] + rest);
    assert(nl.contains('\n')) by {
        assert(nl[0] == '\n');
    }
    split_at_separator(line.push('\r'), '\n', rest, nl);
    assert(forall|i: int| 0 <= i < digits.len() ==> is_digit(#[trigger] digits[i]));
    assert forall|i: int| 0 <= i < line.push('\r').len() implies !nl.contains(
        #[trigger] line.push('\r')[i],
    ) by {
        let k = version.len() as int;
        let c = line.push('\r')[i];
        if i < k {
            assert(c == version[i]);
        } else if k < i < k + 1 + digits.len() {
            assert(c == digits[i - k - 1]);
        } else if k + 1 + digits.len() < i < line.len() {
            assert(c == reason[i - k - 2 - digits.len()]);
        }
        assert(c != '\n');
    }
    lemma_one_piece(line.push('\r'), nl);
    let parts = split_any(text, nl);
    assert(split_any(rest, nl).len() > 0);
    assert(parts[0] == line.push('\r'));
    assert(parts.drop_last()[0] == line.push('\r'));
    assert(without_return(line.push('\r')) =~= line);
    assert(text_lines(text)[0] == line);
    assert(first_line(text) == line);
    assert forall|i: int| 0 <= i < version.len() implies !is_white_space(#[trigger] version[i]) by {}
    words_come_apart_at_white_space(version, ' ', digits + seq![' '] + reason);
    words_come_apart_at_white_space(digits, ' ', reason);
    assert(words(line)[0] == version);
    assert(words(line)[1] == digits);
}

/// A tunnel is open exactly if the answer says so with status 200; a demand for credentials and every
/// other status are told apart.
pub proof fn only_success_opens_a_tunnel(header: &[u8], code: nat, r: Result<(), IoFailure>)
    requires
        call_ensures(http_connect, (header,), r),
        vstd::utf8::valid_utf8(header@),
        header@.len() >= 4,
        header@.skip(header@.len() - 4) == seq![13u8, 10, 13, 10],
        http_status(vstd::utf8::decode_utf8(header@)) == Some(code),
    ensures
        r is Ok <==> code == 200,
        code == 407 ==> (r matches Err(e) && e.kind == IoKind::PermissionDenied),
        code != 200 && code != 407 ==> (r matches Err(e) && e.kind == IoKind::ConnectionRefused
            && e.detail@ == "HTTP proxy refused the tunnel (status "@ + decimal(code) + ")"@),
{
    let n = header@.len() as int;
    assert(header@.skip(n - 4)[0] == header@[n - 4]);
    assert(header@.skip(n - 4)[1] == header@[n - 3]);
    assert(header@.skip(n - 4)[2] == header@[n - 2]);
    assert(header@.skip(n - 4)[3] == header@[n - 1]);
}

/// What is no complete answer opens nothing.
pub proof fn incomplete_answers_open_nothing(header: &[u8], r: Result<(), IoFailure>)
    requires
        call_ensures(http_connect, (header,), r),
        header@.len() < 4 || header@.skip(header@.len() - 4) != seq![13u8, 10, 13, 10]
            || !vstd::utf8::valid_utf8(header@),
    ensures
        r matches Err(e) && e.kind == IoKind::InvalidData,
{
    if header@.len() >= 4 {
        let n = header@.len() as int;
        if header@[n - 4] == 13 && header@[n - 3] == 10 && header@[n - 2] == 13 && header@[n - 1] == 10 {
            assert(header@.skip(n - 4) =~= seq![13u8, 10, 13, 10]);
        }
    }
}

/// A dotted address stands for its four numbers.
pub proof fn dotted_addresses_are_read(a: u8, b: u8, c: u8, d: u8)
    ensures
        ipv4_octets(
            decimal(a as nat) + seq!['.'] + (decimal(b as nat) + seq!['.'] + (decimal(c as nat) + seq![
                '.',
            ] + decimal(d as nat))),
        ) == Some(seq![a, b, c, d]),
{
    let dot = seq!['.'];
    assert(dot.contains('.')) by {
        assert(dot[0] == '.');
    }
    lemma_octet(a);
    lemma_octet(b);
    lemma_octet(c);
    lemma_octet(d);
    let (ta, tb, tc, td) = (decimal(a as nat), decimal(b as nat), decimal(c as nat), decimal(d as nat));
    split_at_separator(ta, '.', tb + dot + (tc + dot + td), dot);
    split_at_separator(tb, '.', tc + dot + td, dot);
    split_at_separator(tc, '.', td, dot);
    let parts = split_any(ta + dot + (tb + dot + (tc + dot + td)), dot);
    assert(parts =~= seq![ta, tb, tc, td]);
    assert(crate::ip_address::dot() == dot);
}

proof fn lemma_octet(n: u8)
    ensures
        is_octet(decimal(n as nat)),
        digits_value(decimal(n as nat)) == n,
        split_any(decimal(n as nat), seq!['.']) == seq![decimal(n as nat)],
{
    let s = decimal(n as nat);
    decimal_reads_back(n as nat);
    reveal_with_fuel(decimal, 4);
    assert(forall|i: int| 0 <= i < s.len() ==> is_digit(#[trigger] s[i]));
    assert forall|i: int| 0 <= i < s.len() implies !seq!['.'].contains(#[trigger] s[i]) by {}
    lemma_one_piece(s, seq!['.']);
}

/// The request to a SOCKS5 proxy: version 5, connect, the target as an address of four bytes, of
/// sixteen, or as a name with its length, and the port with its high byte first.
pub proof fn socks5_requests_name_the_target(
    host: &str,
    port: u16,
    r: Result<Vec<u8>, IoFailure>,
)
    requires
        call_ensures(socks5_request, (host, port), r),
    ensures
        ipv4_octets(host@) matches Some(octets) ==> (r matches Ok(bytes) && bytes@ == seq![5u8, 1, 0, 1]
            + octets + seq![(port / 256) as u8, (port % 256) as u8]),
        ipv4_octets(host@) is None && ipv6_words(host@) is Some ==> (r matches Ok(bytes) && bytes@[3]
            == 4),
        ipv4_octets(host@) is None && ipv6_words(host@) is None && utf8_len(host@) <= 255 ==> (r
            matches Ok(bytes) && bytes@ == seq![5u8, 1, 0, 3, utf8_len(host@) as u8] + encode_utf8(
            host@,
        ) + seq![(port / 256) as u8, (port % 256) as u8]),
        ipv4_octets(host@) is None && ipv6_words(host@) is None && utf8_len(host@) > 255 ==> r is Err,
{
    if let Ok(bytes) = r {
        if let Some(octets) = ipv4_octets(host@) {
            assert(bytes@ =~= seq![5u8, 1, 0, 1] + octets + seq![
                (port / 256) as u8,
                (port % 256) as u8,
            ]);
        } else if ipv6_words(host@) is Some {
            assert((seq![5u8, 1, 0] + (seq![4u8] + crate::net::proxy::word_bytes(
                ipv6_words(host@)->0,
            )))[3] == 4);
        } else {
            assert(bytes@ =~= seq![5u8, 1, 0, 3, utf8_len(host@) as u8] + encode_utf8(host@) + seq![
                (port / 256) as u8,
                (port % 256) as u8,
            ]);
        }
    }
}

/// A SOCKS5 proxy has opened the tunnel exactly if it answers in version 5, asks for no login and
/// reports no failure; then the length of the address that follows is known.
pub proof fn socks5_answers_are_read(
    version: u8,
    method: u8,
    code: u8,
    reserved: u8,
    kind: u8,
    login: Result<(), IoFailure>,
    reply: Result<BoundAddress, IoFailure>,
)
    requires
        call_ensures(socks5_method, (version, method), login),
        call_ensures(socks5_reply, (version, code, reserved, kind), reply),
    ensures
        login is Ok <==> version == 5 && method == 0,
        version == 5 && method == 255 ==> (login matches Err(e) && e.kind == IoKind::PermissionDenied),
        version == 5 && reserved == 0 && code == 0 && kind == 1 ==> reply == Ok::<_, IoFailure>(
            BoundAddress::Fixed(6),
        ),
        version == 5 && reserved == 0 && code == 0 && kind == 4 ==> reply == Ok::<_, IoFailure>(
            BoundAddress::Fixed(18),
        ),
        version == 5 && reserved == 0 && code == 0 && kind == 3 ==> reply == Ok::<_, IoFailure>(
            BoundAddress::Named,
        ),
        version != 5 || reserved != 0 || code != 0 || (kind != 1 && kind != 3 && kind != 4) ==> reply
            is Err,
        version == 5 && reserved == 0 && code != 0 ==> (reply matches Err(e) && e.kind
            == IoKind::ConnectionRefused),
{
}

} // verus!
