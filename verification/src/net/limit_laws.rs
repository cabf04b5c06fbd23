//! The limits that connections, configurations and answers are held to.

use vstd::prelude::*;

use crate::model::ConnectionSpec;
use crate::net::error::{IoFailure, NetError};
use crate::net::partial::discards_fragment;
use crate::net::proxy::{header_progress, validate_target, HeaderProgress};
use crate::net::safe::{same_path, starts_with_path, PathParts};
use crate::net::ssh_resolve::{
    check_config_bytes, check_config_file, config_need, parse_port, safe_keepalive, safe_timeout,
    ConfigNeed, ConnectionLimits,
};
use crate::numerals::{decimal, decimal_reads_back};
use crate::text::{is_ascii_control, is_ascii_space, utf8_len};

verus! {

/// The time of an attempt is the connection's own, else that of the configuration, else twenty
/// seconds; out of range it is refused.
pub proof fn timeouts_have_their_order(
    explicit: Option<u64>,
    configured: Option<u64>,
    limits: &ConnectionLimits,
    r: Result<u64, NetError>,
)
    requires
        call_ensures(safe_timeout, (explicit, configured, limits), r),
    ensures
        explicit matches Some(n) ==> (limits.min_timeout <= n <= limits.max_timeout ==> r == Ok::<
            u64,
            NetError,
        >(n)),
        explicit matches Some(n) ==> (n < limits.min_timeout || n > limits.max_timeout ==> r is Err),
        explicit is None ==> (configured matches Some(n) ==> (limits.min_timeout <= n
            <= limits.max_timeout ==> r == Ok::<u64, NetError>(n))),
        explicit is None ==> (configured matches Some(n) ==> (n < limits.min_timeout || n
            > limits.max_timeout ==> r is Err)),
        explicit is None && configured is None && limits.min_timeout <= 20 <= limits.max_timeout ==> r
            == Ok::<u64, NetError>(20),
{
}

/// The keepalive is the connection's own, else that of the configuration, else every twenty seconds;
/// zero switches it off.
pub proof fn keepalives_have_their_order(
    explicit: Option<u64>,
    configured: Option<u64>,
    limits: &ConnectionLimits,
    r: Result<Option<u64>, NetError>,
)
    requires
        call_ensures(safe_keepalive, (explicit, configured, limits), r),
    ensures
        explicit == Some(0u64) ==> r == Ok::<Option<u64>, NetError>(None),
        explicit matches Some(n) ==> (n > 0 && limits.min_keepalive <= n <= limits.max_keepalive ==> r
            == Ok::<Option<u64>, NetError>(Some(n))),
        explicit matches Some(n) ==> (n > 0 && (n < limits.min_keepalive || n > limits.max_keepalive)
            ==> r is Err),
        explicit is None && configured == Some(0u64) ==> r == Ok::<Option<u64>, NetError>(None),
        explicit is None ==> (configured matches Some(n) ==> (n > 0 && limits.min_keepalive <= n
            <= limits.max_keepalive ==> r == Ok::<Option<u64>, NetError>(Some(n)))),
        explicit is None && configured is None ==> r == Ok::<Option<u64>, NetError>(Some(20)),
{
}

/// The configuration is needed where the connection uses it, looked at where a jump may be an alias
/// of it, and else left alone; only a regular file of a sensible size is read.
pub proof fn configurations_are_read_where_needed(
    spec: &ConnectionSpec,
    need: ConfigNeed,
    is_file: bool,
    len: u64,
    f: Result<(), NetError>,
    b: Result<(), NetError>,
)
    requires
        call_ensures(config_need, (spec,), need),
        call_ensures(check_config_file, (is_file, len), f),
        call_ensures(check_config_bytes, (len,), b),
    ensures
        spec.use_ssh_config ==> need == ConfigNeed::Required,
        !spec.use_ssh_config && spec.ssh_proxy_jump is Some ==> need == ConfigNeed::Optional,
        !spec.use_ssh_config && spec.ssh_proxy_jump is None ==> need == ConfigNeed::Ignored,
        f is Ok <==> is_file && len <= 1048576,
        b is Ok <==> len <= 1048576,
{
}

/// A port is a number from 1 on.
pub proof fn ports_are_numbers(s: &[char], r: Option<u16>, n: nat)
    requires
        call_ensures(parse_port, (s,), r),
        s@ == decimal(n),
    ensures
        0 < n <= 65535 ==> (r matches Some(p) && p == n),
        n == 0 || n > 65535 ==> r is None,
{
    decimal_reads_back(n);
}

/// A target has a port and a host of bounded length without white space, controls, brackets, slashes
/// and login signs.
pub proof fn targets_are_hosts_with_ports(host: &str, port: u16, r: Result<(), IoFailure>)
    requires
        call_ensures(validate_target, (host, port), r),
    ensures
        r is Ok <==> port != 0 && host@.len() > 0 && utf8_len(host@) <= 255 && (forall|i: int|
            0 <= i < host@.len() ==> {
                let c = #[trigger] host@[i];
                !is_ascii_control(c) && !is_ascii_space(c) && c != '[' && c != ']' && c != '/' && c
                    != '@'
            }),
{
    if r is Ok {
        assert forall|i: int| 0 <= i < host@.len() implies ({
            let c = #[trigger] host@[i];
            !is_ascii_control(c) && !is_ascii_space(c) && c != '[' && c != ']' && c != '/' && c != '@'
        }) by {
            assert(!crate::net::proxy::breaks_target(host@[i]));
        }
    } else if port != 0 && host@.len() > 0 && utf8_len(host@) <= 255 {
        let i = choose|i: int|
            0 <= i < host@.len() && crate::net::proxy::breaks_target(#[trigger] host@[i]);
        assert(crate::net::proxy::breaks_target(host@[i]));
    }
}

/// The header of an answer is read byte by byte up to its empty line, and no further than its limit.
pub proof fn headers_end_at_their_empty_line(header: &[u8], r: HeaderProgress)
    requires
        call_ensures(header_progress, (header,), r),
    ensures
        header@.len() >= 4 && header@.len() <= 16384 && header@[header@.len() - 4] == 13
            && header@[header@.len() - 3] == 10 && header@[header@.len() - 2] == 13
            && header@[header@.len() - 1] == 10 ==> r is Complete,
        header@.len() < 4 ==> r is NeedByte,
        4 <= header@.len() < 16384 && header@[header@.len() - 1] != 10 ==> r is NeedByte,
        header@.len() > 16384 ==> r is TooLong,
        header@.len() == 16384 && header@[header@.len() - 1] != 10 ==> r is TooLong,
{
}

/// A path lies below another if it begins with all of its parts.
pub proof fn paths_begin_with_their_roots(p: &PathParts, root: &PathParts, r: bool, same: bool)
    requires
        call_ensures(starts_with_path, (p, root), r),
        call_ensures(same_path, (p, root), same),
    ensures
        r <==> p@.absolute == root@.absolute && root@.parts.len() <= p@.parts.len() && forall|i: int|
            0 <= i < root@.parts.len() ==> #[trigger] p@.parts[i] == root@.parts[i],
        same <==> p@ == root@,
        same ==> r,
{
    let n = root@.parts.len() as int;
    if root@.parts.len() <= p@.parts.len() {
        if forall|i: int| 0 <= i < n ==> #[trigger] p@.parts[i] == root@.parts[i] {
            assert(p@.parts.take(n) =~= root@.parts);
        }
        if p@.parts.take(n) == root@.parts {
            assert forall|i: int| 0 <= i < n implies #[trigger] p@.parts[i] == root@.parts[i] by {
                assert(p@.parts.take(n)[i] == p@.parts[i]);
            }
        }
    }
    if same {
        assert(p@.parts.take(n) =~= root@.parts);
    }
}

/// Only the fragment of a job with a token is discarded.
pub proof fn only_tokens_have_fragments(token: u64, r: bool)
    requires
        call_ensures(discards_fragment, (token,), r),
    ensures
        r <==> token != 0,
{
}

} // verus!
