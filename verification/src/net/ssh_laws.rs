//! What a resolved SSH connection has from where.

use vstd::prelude::*;

use crate::model::connection::{ConnectionSpec, SftpAuth};
use crate::model::Protocol;
use crate::net::ssh_config::{is_none_word, no_params, params_for, ConfigView};
use crate::ip_address::ipv6_words;
use crate::net::ssh_resolve::{
    jump_authority,
    expanded, host_allowed, identity_path, jump_reference, last_of, path_join, port_number,
    resolved, user_allowed, without_repeats, ConnectionLimits, IdentityView, JumpView, TokenValues,
};
use crate::numerals::{decimal, decimal_reads_back, is_digit};
use crate::path_text::components;
use crate::pieces::lemma_first_of;
use crate::pieces::{count_of, has_prefix, lemma_trimmed_fixed};
use crate::text::{
    ascii_lowercase, has_control, is_ascii_control, is_ascii_space, is_white_space, utf8_len,
};

verus! {

/// The target of a connection that uses the configuration: each value comes from the configuration
/// of its host where that says something, and from the saved connection where it does not. Host, user
/// and port are not mixed up with one another, and what the saved connection says of timeout and
/// keepalive counts before the configuration.
pub proof fn the_configuration_says_where_the_target_is(
    spec: ConnectionSpec,
    config: ConfigView,
    local: IdentityView,
    limits: ConnectionLimits,
)
    requires
        spec.use_ssh_config,
        resolved(spec, Some(config), local, limits) is Ok,
    ensures
        ({
            let said = params_for(config, spec.host@);
            let target = resolved(spec, Some(config), local, limits)->Ok_0.target;
            &&& said.host_name matches Some(host) ==> target.host == host
            &&& said.host_name is None ==> target.host == spec.host@
            &&& said.user matches Some(user) ==> target.user == user
            &&& said.user is None ==> target.user == spec.user@
            &&& said.port matches Some(port) ==> target.port == port
            &&& said.port is None && spec.port != 0 ==> target.port == spec.port
            &&& said.port is None && spec.port == 0 && spec.protocol == Protocol::Sftp ==> target.port
                == 22
            &&& spec.timeout_secs matches Some(n) ==> target.connect_timeout == n
            &&& spec.timeout_secs is None ==> (said.connect_timeout matches Some(n)
                ==> target.connect_timeout == n)
            &&& spec.timeout_secs is None && said.connect_timeout is None ==> target.connect_timeout
                == 20
            &&& spec.keepalive_interval_secs matches Some(n) ==> target.keepalive_interval == if n
                == 0 {
                None
            } else {
                Some(n)
            }
            &&& spec.keepalive_interval_secs is None ==> (said.server_alive_interval matches Some(n)
                ==> target.keepalive_interval == if n == 0 {
                None
            } else {
                Some(n)
            })
            &&& spec.keepalive_interval_secs is None && said.server_alive_interval is None
                ==> target.keepalive_interval == Some(20u64)
        }),
{
}

/// A connection that does not use the configuration goes where it says, whatever the configuration
/// says of its host.
pub proof fn unused_configurations_do_not_count(
    spec: ConnectionSpec,
    config: Option<ConfigView>,
    local: IdentityView,
    limits: ConnectionLimits,
)
    requires
        !spec.use_ssh_config,
        resolved(spec, config, local, limits) is Ok,
    ensures
        ({
            let target = resolved(spec, config, local, limits)->Ok_0.target;
            &&& target.host == spec.host@
            &&& target.user == spec.user@
            &&& spec.port != 0 ==> target.port == spec.port
            &&& spec.port == 0 && spec.protocol == Protocol::Sftp ==> target.port == 22
            &&& target.connect_timeout == (match spec.timeout_secs {
                Some(n) => n,
                None => 20,
            })
            &&& spec.ssh_proxy_jump is None ==> resolved(spec, config, local, limits)->Ok_0.jump is None
        }),
{
}

/// Which keys the target is offered: the selected one alone where one is selected, and none where
/// neither the connection nor the configuration names one. With private-key authentication there is
/// always one.
pub proof fn the_selected_key_is_offered(
    spec: ConnectionSpec,
    config: Option<ConfigView>,
    local: IdentityView,
    limits: ConnectionLimits,
)
    requires
        resolved(spec, config, local, limits) is Ok,
    ensures
        ({
            let target = resolved(spec, config, local, limits)->Ok_0.target;
            &&& spec.sftp_private_key matches Some(key) ==> target.identity_files == seq![key@]
            &&& spec.sftp_auth == SftpAuth::PrivateKey ==> target.identity_files.len() > 0
            &&& spec.sftp_private_key is None && !spec.use_ssh_config ==> target.identity_files.len()
                == 0
        }),
{
    reveal_with_fuel(without_repeats, 2);
    if let Some(key) = spec.sftp_private_key {
        assert(seq![key@].drop_last() =~= Seq::<Seq<char>>::empty());
        assert(Seq::<Seq<char>>::empty().push(key@) =~= seq![key@]);
    }
}

/// The text that names the jump host: what the connection says, else the configuration of the target,
/// where it is used.
pub open spec fn names_jump(spec: ConnectionSpec, config: Option<ConfigView>, text: Seq<char>) -> bool {
    match spec.ssh_proxy_jump {
        Some(saved) => text == saved@,
        None => spec.use_ssh_config && config is Some && params_for(config->0, spec.host@).proxy_jump
            == Some(text),
    }
}

/// The jump host is the one that is named, and what its name says of user and port counts before the
/// configuration, which counts before the user of the connection and the standard port. Its host may
/// have another name in the configuration.
pub proof fn the_jump_goes_where_its_name_says(
    spec: ConnectionSpec,
    config: Option<ConfigView>,
    local: IdentityView,
    limits: ConnectionLimits,
    text: Seq<char>,
)
    requires
        spec.use_ssh_config ==> config is Some,
        resolved(spec, config, local, limits) is Ok,
        names_jump(spec, config, text),
    ensures
        ({
            let c = resolved(spec, config, local, limits)->Ok_0;
            match jump_reference(text) {
                Err(_) => false,
                Ok(None) => c.jump is None,
                Ok(Some(named)) => {
                    let said = match config {
                        Some(config) => params_for(config, named.alias),
                        None => no_params(),
                    };
                    &&& c.jump matches Some(jump)
                    &&& said.host_name matches Some(host) ==> jump.host == host
                    &&& said.host_name is None ==> jump.host == named.alias
                    &&& named.port matches Some(port) ==> jump.port == port
                    &&& named.port is None ==> (said.port matches Some(port) ==> jump.port == port)
                    &&& named.port is None && said.port is None ==> jump.port == 22
                    &&& named.user matches Some(user) ==> jump.user == user
                    &&& named.user is None ==> (said.user matches Some(user) ==> jump.user == user)
                    &&& named.user is None && said.user is None ==> jump.user == spec.user@
                    &&& spec.timeout_secs matches Some(n) ==> jump.connect_timeout == n
                    &&& spec.sftp_auth == SftpAuth::PrivateKey && said.identity_files.len() == 0
                        ==> jump.identity_files == without_repeats(c.target.identity_files)
                    &&& spec.sftp_auth != SftpAuth::PrivateKey && said.identity_files.len() == 0
                        ==> jump.identity_files.len() == 0
                },
            }
        }),
{
}

/// Without a name for a jump host there is no jump.
pub proof fn no_jump_without_a_name(
    spec: ConnectionSpec,
    config: Option<ConfigView>,
    local: IdentityView,
    limits: ConnectionLimits,
)
    requires
        resolved(spec, config, local, limits) is Ok,
        spec.ssh_proxy_jump is None,
        !spec.use_ssh_config || config is None || params_for(config->0, spec.host@).proxy_jump is None,
    ensures
        resolved(spec, config, local, limits)->Ok_0.jump is None,
{
}

// --- the name of a jump host -------------------------------------------------------------------

/// Nothing in the text has a meaning of its own in the name of a jump host.
pub open spec fn is_plain_word(s: Seq<char>) -> bool {
    s.len() > 0 && forall|i: int|
        0 <= i < s.len() ==> {
            let c = #[trigger] s[i];
            &&& !is_white_space(c)
            &&& !is_ascii_space(c)
            &&& !is_ascii_control(c)
            &&& c != ',' && c != '/' && c != '?' && c != '#' && c != '@' && c != ':' && c != '['
            &&& c != ']' && c != '%'
        }
}

/// Where a character occurs last.
pub proof fn lemma_last_of(s: Seq<char>, c: char, n: int)
    requires
        -1 <= n < s.len(),
        n >= 0 ==> s[n] == c,
        forall|i: int| n < i < s.len() ==> #[trigger] s[i] != c,
    ensures
        last_of(s, c) == n,
    decreases s.len(),
{
    if s.len() > 0 && n < s.len() - 1 {
        assert(s[s.len() - 1] != c);
        lemma_last_of(s.drop_last(), c, n);
    }
}

proof fn lemma_count_none(s: Seq<char>, c: char)
    requires
        forall|i: int| 0 <= i < s.len() ==> #[trigger] s[i] != c,
    ensures
        count_of(s, c) == 0,
    decreases s.len(),
{
    if s.len() > 0 {
        assert(s[s.len() - 1] != c);
        lemma_count_none(s.drop_last(), c);
    }
}

proof fn lemma_count_one(a: Seq<char>, c: char, b: Seq<char>)
    requires
        forall|i: int| 0 <= i < a.len() ==> #[trigger] a[i] != c,
        forall|i: int| 0 <= i < b.len() ==> #[trigger] b[i] != c,
    ensures
        count_of(a + seq![c] + b, c) == 1,
    decreases b.len(),
{
    let s = a + seq![c] + b;
    if b.len() == 0 {
        assert(s.drop_last() =~= a);
        lemma_count_none(a, c);
    } else {
        assert(s.drop_last() =~= a + seq![c] + b.drop_last());
        assert(s.last() == b[b.len() - 1]);
        lemma_count_one(a, c, b.drop_last());
    }
}

proof fn lemma_not_none(text: Seq<char>, n: int)
    requires
        0 <= n < text.len(),
        text[n] == '@',
    ensures
        !is_none_word(text),
{
    reveal_strlit("none");
    let low = ascii_lowercase(text);
    if low == "none"@ {
        assert(low.len() == 4);
        assert(low[n] == '@');
        assert(low[0] == 'n' && low[1] == 'o' && low[2] == 'n' && low[3] == 'e');
        assert(n == 0 || n == 1 || n == 2 || n == 3);
    }
}

/// A jump host that is written as `user@host:port` is read with exactly that user, host and port.
#[verifier::rlimit(40)]
pub proof fn jump_names_read_back(user: Seq<char>, host: Seq<char>, port: u16)
    requires
        is_plain_word(user),
        user_allowed(user),
        is_plain_word(host),
        host_allowed(host),
        port > 0,
        utf8_len(user + seq!['@'] + (host + seq![':'] + decimal(port as nat))) <= 512,
    ensures
        jump_reference(user + seq!['@'] + (host + seq![':'] + decimal(port as nat))) == Ok::<
            Option<JumpView>,
            Seq<char>,
        >(Some(JumpView { alias: host, user: Some(user), port: Some(port) })),
{
    let digits = decimal(port as nat);
    decimal_reads_back(port as nat);
    let place = host + seq![':'] + digits;
    let text = user + seq!['@'] + place;
    let n = user.len() as int;
    let m = host.len() as int;
    assert forall|i: int| 0 <= i < digits.len() implies is_digit(#[trigger] digits[i]) by {}
    assert forall|i: int| 0 <= i < text.len() implies ({
        let c = #[trigger] text[i];
        &&& c != ',' && c != '/' && c != '?' && c != '#' && c != '['
        &&& !is_ascii_space(c) && !is_ascii_control(c)
        &&& i > n ==> c != '@'
    }) by {
        if i < n {
            assert(text[i] == user[i]);
        } else if i > n {
            assert(text[i] == place[i - n - 1]);
            if i - n - 1 < m {
                assert(text[i] == host[i - n - 1]);
            } else if i - n - 1 > m {
                assert(text[i] == digits[i - n - 1 - m - 1]);
            }
        }
    }
    assert(text[0] == user[0]);
    assert(text.last() == digits[digits.len() - 1]);
    assert(!is_white_space(text.last())) by {
        assert(is_digit(text.last()));
    }
    lemma_trimmed_fixed(text);
    assert(text[n] == '@');
    lemma_not_none(text, n);
    assert(!has_prefix(text, "ssh://"@)) by {
        reveal_strlit("ssh://");
        if has_prefix(text, "ssh://"@) {
            assert(text.take(6)[4] == '/');
            assert(text[4] == '/');
        }
    }
    assert(text[n] == '@');
    lemma_last_of(text, '@', n);
    assert(text.take(n) =~= user);
    assert(text.skip(n + 1) =~= place);
    assert(place[0] == host[0]);
    assert forall|i: int| 0 <= i < digits.len() implies #[trigger] digits[i] != ':' by {}
    lemma_count_one(host, ':', digits);
    assert(place[m] == ':');
    assert forall|i: int| m < i < place.len() implies #[trigger] place[i] != ':' by {
        assert(place[i] == digits[i - m - 1]);
    }
    lemma_last_of(place, ':', m);
    assert(place.take(m) =~= host);
    assert(place.skip(m + 1) =~= digits);
    assert(digits[0] != '+');
    assert(port_number(digits) == Some(port));
}

/// A bare host names that host, and neither user nor port.
pub proof fn bare_jump_names_read_back(host: Seq<char>)
    requires
        is_plain_word(host),
        host_allowed(host),
        !is_none_word(host),
        utf8_len(host) <= 512,
    ensures
        jump_reference(host) == Ok::<Option<JumpView>, Seq<char>>(
            Some(JumpView { alias: host, user: None, port: None }),
        ),
{
    assert(!is_white_space(host[0]) && !is_white_space(host[host.len() - 1]));
    lemma_trimmed_fixed(host);
    assert(!has_prefix(host, "ssh://"@)) by {
        reveal_strlit("ssh://");
        if has_prefix(host, "ssh://"@) {
            assert(host.take(6)[4] == '/');
            assert(host[4] == '/');
        }
    }
    lemma_last_of(host, '@', -1);
    assert(host.skip(0) =~= host);
    assert(host[0] != '[');
    lemma_count_none(host, ':');
}

// --- identity files ----------------------------------------------------------------------------

/// A path without percent signs is taken as it is: from the root where it says so, else from the
/// directory `.ssh` of the home directory.
pub proof fn plain_identity_paths_stay(
    raw: Seq<char>,
    alias: Seq<char>,
    host: Seq<char>,
    user: Seq<char>,
    home: Seq<char>,
    local_user: Seq<char>,
)
    requires
        utf8_len(raw) <= 4096,
        !has_control(raw),
        !raw.contains('%'),
    ensures
        identity_path(
            raw,
            alias,
            host,
            user,
            IdentityView { home: Some(home), user: local_user },
        ) == Ok::<Seq<char>, Seq<char>>(
            if raw.len() > 0 && raw[0] == '/' {
                raw
            } else {
                path_join(path_join(home, ".ssh"@), raw)
            },
        ),
{
    lemma_plain_expansion(raw, TokenValues { home, host, alias, user, local_user });
}

proof fn lemma_plain_expansion(raw: Seq<char>, values: TokenValues)
    requires
        !raw.contains('%'),
    ensures
        expanded(raw, values) == Ok::<Seq<char>, Seq<char>>(raw),
    decreases raw.len(),
{
    if raw.len() > 0 {
        assert(raw.contains(raw[0]));
        let rest = raw.skip(1);
        assert(!rest.contains('%')) by {
            if rest.contains('%') {
                let i = choose|i: int| 0 <= i < rest.len() && rest[i] == '%';
                assert(raw[i + 1] == '%');
            }
        }
        lemma_plain_expansion(rest, values);
        assert(seq![raw[0]] + rest =~= raw);
    } else {
        assert(raw =~= Seq::empty());
    }
}

/// Each token stands for its own value wherever it occurs: `%h` for the host, `%n` for the name that
/// was asked for, `%r` for the remote user, `%u` for the local one, `%d` for the home directory and
/// `%%` for a percent sign. What stands before it and after it is not touched by it.
pub proof fn tokens_stand_for_their_values(
    before: Seq<char>,
    token: char,
    after: Seq<char>,
    values: TokenValues,
)
    requires
        !before.contains('%'),
        expanded(after, values) is Ok,
    ensures
        ({
            let whole = expanded(before + seq!['%', token] + after, values);
            let rest = expanded(after, values)->Ok_0;
            &&& token == '%' ==> whole == Ok::<Seq<char>, Seq<char>>(before + seq!['%'] + rest)
            &&& token == 'd' ==> whole == Ok::<Seq<char>, Seq<char>>(before + values.home + rest)
            &&& token == 'h' ==> whole == Ok::<Seq<char>, Seq<char>>(before + values.host + rest)
            &&& token == 'n' ==> whole == Ok::<Seq<char>, Seq<char>>(before + values.alias + rest)
            &&& token == 'r' ==> whole == Ok::<Seq<char>, Seq<char>>(before + values.user + rest)
            &&& token == 'u' && values.local_user.len() > 0 ==> whole == Ok::<Seq<char>, Seq<char>>(
                before + values.local_user + rest,
            )
            &&& token == 'u' && values.local_user.len() == 0 ==> whole is Err
            &&& token != '%' && token != 'd' && token != 'h' && token != 'n' && token != 'r' && token
                != 'u' ==> whole is Err
        }),
    decreases before.len(),
{
    let text = before + seq!['%', token] + after;
    if before.len() == 0 {
        assert(text[0] == '%' && text[1] == token);
        assert(text.skip(2) =~= after);
        let rest = expanded(after, values)->Ok_0;
        assert(before + seq!['%'] + rest =~= seq!['%'] + rest);
        assert(before + values.home + rest =~= values.home + rest);
        assert(before + values.host + rest =~= values.host + rest);
        assert(before + values.alias + rest =~= values.alias + rest);
        assert(before + values.user + rest =~= values.user + rest);
        assert(before + values.local_user + rest =~= values.local_user + rest);
    } else {
        assert(before.contains(before[0]));
        let front = before.skip(1);
        assert(!front.contains('%')) by {
            if front.contains('%') {
                let i = choose|i: int| 0 <= i < front.len() && front[i] == '%';
                assert(before[i + 1] == '%');
            }
        }
        tokens_stand_for_their_values(front, token, after, values);
        assert(text.skip(1) =~= front + seq!['%', token] + after);
        assert(text[0] == before[0]);
        let rest = expanded(after, values)->Ok_0;
        let c = seq![before[0]];
        assert(before =~= c + front);
        assert(c + (front + seq!['%'] + rest) =~= before + seq!['%'] + rest);
        assert(c + (front + values.home + rest) =~= before + values.home + rest);
        assert(c + (front + values.host + rest) =~= before + values.host + rest);
        assert(c + (front + values.alias + rest) =~= before + values.alias + rest);
        assert(c + (front + values.user + rest) =~= before + values.user + rest);
        assert(c + (front + values.local_user + rest) =~= before + values.local_user + rest);
    }
}

/// Of paths that follow one another and name the same one, the first stays; all others stay too, and
/// in their order.
pub proof fn only_repeats_are_dropped(v: Seq<Seq<char>>)
    ensures
        (forall|i: int|
            0 < i < v.len() ==> components(#[trigger] v[i]) != components(v[i - 1])) ==> without_repeats(
            v,
        ) == v,
        v.len() > 0 ==> without_repeats(v).len() > 0 && without_repeats(v)[0] == v[0] && components(
            without_repeats(v).last(),
        ) == components(v.last()),
        forall|i: int|
            0 < i < without_repeats(v).len() ==> components(#[trigger] without_repeats(v)[i])
                != components(without_repeats(v)[i - 1]),
        forall|i: int| 0 <= i < without_repeats(v).len() ==> v.contains(#[trigger] without_repeats(v)[i]),
    decreases v.len(),
{
    if v.len() > 0 {
        let front = v.drop_last();
        only_repeats_are_dropped(front);
        let kept = without_repeats(front);
        let all = without_repeats(v);
        if forall|i: int| 0 < i < v.len() ==> components(#[trigger] v[i]) != components(v[i - 1]) {
            assert forall|i: int| 0 < i < front.len() implies components(#[trigger] front[i])
                != components(front[i - 1]) by {
                assert(front[i] == v[i]);
            }
            if v.len() > 1 {
                assert(components(v[v.len() - 1]) != components(v[v.len() - 2]));
            }
            assert(all =~= v);
        }
        assert forall|i: int| 0 <= i < all.len() implies v.contains(#[trigger] all[i]) by {
            if i < kept.len() {
                assert(all[i] == kept[i]);
                assert(front.contains(kept[i]));
                let j = choose|j: int| 0 <= j < front.len() && front[j] == kept[i];
                assert(v[j] == kept[i]);
            } else {
                assert(v[v.len() - 1] == all[i]);
            }
        }
        if v.len() > 1 {
            assert(front.last() == v[v.len() - 2]);
        }
        assert forall|i: int| 0 < i < all.len() implies components(#[trigger] all[i]) != components(
            all[i - 1],
        ) by {
            if i < kept.len() {
                assert(all[i] == kept[i]);
                assert(all[i - 1] == kept[i - 1]);
            } else {
                assert(all[i - 1] == kept.last());
            }
        }
    }
}

/// A host has a length within its limit and none of the characters that no host has; a user likewise.
pub proof fn hosts_and_users_are_bounded(s: Seq<char>)
    ensures
        host_allowed(s) <==> s.len() > 0 && utf8_len(s) <= 253 && (forall|i: int|
            0 <= i < s.len() ==> {
                let c = #[trigger] s[i];
                !is_ascii_control(c) && !is_ascii_space(c) && c != '%' && c != '/' && c != '@' && c != '['
                    && c != ']'
            }),
        user_allowed(s) <==> s.len() > 0 && utf8_len(s) <= 256 && (forall|i: int|
            0 <= i < s.len() ==> {
                let c = #[trigger] s[i];
                !is_ascii_control(c) && !is_ascii_space(c) && c != '@' && c != ':'
            }),
{
    if host_allowed(s) {
        assert forall|i: int| 0 <= i < s.len() implies ({
            let c = #[trigger] s[i];
            !is_ascii_control(c) && !is_ascii_space(c) && c != '%' && c != '/' && c != '@' && c != '['
                && c != ']'
        }) by {
            assert(s.contains(s[i]));
            assert(!crate::net::ssh_config::breaks_host(s[i]));
        }
    } else if s.len() > 0 && utf8_len(s) <= 253 {
        if s.contains('%') {
            let i = choose|i: int| 0 <= i < s.len() && s[i] == '%';
            assert(s[i] == '%');
        } else {
            let i = choose|i: int|
                0 <= i < s.len() && crate::net::ssh_config::breaks_host(#[trigger] s[i]);
            assert(crate::net::ssh_config::breaks_host(s[i]));
        }
    }
    if user_allowed(s) {
        assert forall|i: int| 0 <= i < s.len() implies ({
            let c = #[trigger] s[i];
            !is_ascii_control(c) && !is_ascii_space(c) && c != '@' && c != ':'
        }) by {
            assert(!crate::net::ssh_resolve::breaks_user(s[i]));
        }
    } else if s.len() > 0 && utf8_len(s) <= 256 {
        let i = choose|i: int|
            0 <= i < s.len() && crate::net::ssh_resolve::breaks_user(#[trigger] s[i]);
        assert(crate::net::ssh_resolve::breaks_user(s[i]));
    }
}

/// An address in brackets is the host between them, with the port behind them where there is one.
pub proof fn bracketed_addresses_are_read(address: Seq<char>, port: u16)
    requires
        ipv6_words(address) is Some,
        !address.contains(']'),
        port != 0,
    ensures
        jump_authority(seq!['['] + address + seq![']']) == Ok::<
            (Seq<char>, Option<u16>),
            Seq<char>,
        >((address, None)),
        jump_authority(seq!['['] + address + seq![']', ':'] + decimal(port as nat)) == Ok::<
            (Seq<char>, Option<u16>),
            Seq<char>,
        >((address, Some(port))),
        jump_authority(seq!['['] + address) is Err,
{
    let n = address.len() as int;
    let close = seq![']'];
    assert(close[0] == ']');
    assert(close.contains(']'));
    let digits = decimal(port as nat);
    decimal_reads_back(port as nat);
    assert forall|i: int| 0 <= i < n implies !close.contains(#[trigger] address[i]) by {
        assert(address.contains(address[i]));
    }
    let a = seq!['['] + address + close;
    assert(a.skip(1) =~= address + close);
    lemma_first_of(address + close, close, n);
    assert((address + close).take(n) =~= address);
    assert((address + close).skip(n + 1) =~= Seq::<char>::empty());
    let b = seq!['['] + address + seq![']', ':'] + digits;
    let rest = address + seq![']', ':'] + digits;
    assert(b.skip(1) =~= rest);
    lemma_first_of(rest, close, n);
    assert(rest.take(n) =~= address);
    assert(rest.skip(n + 1) =~= seq![':'] + digits);
    assert((seq![':'] + digits).skip(1) =~= digits);
    let c = seq!['['] + address;
    assert(c.skip(1) =~= address);
    lemma_first_of(address, close, n);
}

} // verus!
