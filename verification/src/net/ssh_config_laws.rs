//! What the lines of an OpenSSH configuration say, and of which hosts.

use vstd::prelude::*;
use vstd::utf8::encode_utf8;

use crate::net::error::NetError;
use crate::net::ssh_config::{
    parse_config_text, HostParams, SshConfig,
    block_applies, closed, config_from, config_step, directive, fresh_tokens, line_tokens,
    no_params, over_limit, params_for, pattern_allowed, pattern_hits, scanned, token_step,
    BlockView, ConfigView, ParamsView, TokenState,
};
use crate::net::ssh_config_growth::lemma_lines_follow;
use crate::numerals::{decimal, decimal_reads_back};
use crate::pattern_laws::{is_literal, lemma_bytes_add, lemma_one_char, literal_patterns_describe_themselves};
use crate::pieces::text_lines;
use crate::text::{ascii_lowercase, is_ascii_space, utf8_len};
use crate::wildcard::star_matches_all;

verus! {

/// A word that needs no quotes: it holds no white space, quote, backslash, comment sign or equals
/// sign.
pub open spec fn is_plain_word(w: Seq<char>) -> bool {
    &&& w.len() > 0
    &&& utf8_len(w) <= 4096
    &&& forall|i: int|
        0 <= i < w.len() ==> !is_ascii_space(#[trigger] w[i]) && w[i] != '\'' && w[i] != '"' && w[i]
            != '\\' && w[i] != '#' && w[i] != '='
}

/// A plain word is read into the token, and no further.
proof fn lemma_scan_word(w: Seq<char>, rest: Seq<char>, st: TokenState)
    requires
        forall|i: int|
            0 <= i < w.len() ==> !is_ascii_space(#[trigger] w[i]) && w[i] != '\'' && w[i] != '"'
                && w[i] != '\\' && w[i] != '#' && w[i] != '=',
        !st.escaped,
        st.quote is None,
        st.tokens.len() <= 128,
        utf8_len(st.token + w) <= 4096,
    ensures
        scanned(w + rest, st) == scanned(rest, TokenState { token: st.token + w, ..st }),
    decreases w.len(),
{
    if w.len() == 0 {
        assert(w + rest =~= rest);
        assert(st.token + w =~= st.token);
    } else {
        let c = w[0];
        let next = TokenState { token: st.token.push(c), ..st };
        assert((w + rest)[0] == c);
        assert(token_step(st, c) == next);
        assert(next.token + w.skip(1) =~= st.token + w);
        lemma_bytes_add(next.token, w.skip(1));
        assert(!over_limit(next));
        assert((w + rest).skip(1) =~= w.skip(1) + rest);
        lemma_scan_word(w.skip(1), rest, next);
    }
}

/// Two words with white space between them are two words, and so are a name and a value around an
/// equals sign.
pub proof fn words_are_read_as_they_stand(a: Seq<char>, b: Seq<char>, n: nat)
    requires
        is_plain_word(a),
        is_plain_word(b),
    ensures
        line_tokens(a + seq![' '] + b, n) == Ok::<Seq<Seq<char>>, Seq<char>>(seq![a, b]),
        line_tokens(a + seq!['\t'] + b, n) == Ok::<Seq<Seq<char>>, Seq<char>>(seq![a, b]),
        line_tokens(a + seq!['='] + b, n) == Ok::<Seq<Seq<char>>, Seq<char>>(seq![a, b]),
        line_tokens(a, n) == Ok::<Seq<Seq<char>>, Seq<char>>(seq![a]),
        line_tokens(Seq::empty(), n) == Ok::<Seq<Seq<char>>, Seq<char>>(Seq::empty()),
{
    lemma_two_words(a, ' ', b, Seq::empty());
    lemma_two_words(a, '\t', b, Seq::empty());
    lemma_two_words(a, '=', b, Seq::empty());
    assert(a + seq![' '] + b + Seq::empty() =~= a + seq![' '] + b);
    assert(a + seq!['\t'] + b + Seq::empty() =~= a + seq!['\t'] + b);
    assert(a + seq!['='] + b + Seq::empty() =~= a + seq!['='] + b);
    let both = TokenState { tokens: seq![a], token: b, quote: None, escaped: false };
    assert(scanned(Seq::empty(), both) == Some(both));
    assert(both.tokens.push(b) =~= seq![a, b]);
    lemma_scan_word(a, Seq::empty(), fresh_tokens());
    assert(a + Seq::<char>::empty() =~= a);
    assert(fresh_tokens().token + a =~= a);
    assert(Seq::<Seq<char>>::empty().push(a) =~= seq![a]);
}

/// After two words the first is complete and the second stands in the token.
proof fn lemma_two_words(a: Seq<char>, between: char, b: Seq<char>, rest: Seq<char>)
    requires
        is_plain_word(a),
        is_plain_word(b),
        between == ' ' || between == '\t' || between == '=',
    ensures
        scanned(a + seq![between] + b + rest, fresh_tokens()) == scanned(
            rest,
            TokenState { tokens: seq![a], token: b, quote: None, escaped: false },
        ),
{
    let st = fresh_tokens();
    let tail = seq![between] + b + rest;
    assert(a + seq![between] + b + rest =~= a + tail);
    assert(st.token + a =~= a);
    lemma_scan_word(a, tail, st);
    let read = TokenState { token: a, ..st };
    let after = TokenState { tokens: seq![a], token: Seq::empty(), quote: None, escaped: false };
    assert(tail[0] == between);
    assert(read.tokens.push(a) =~= seq![a]);
    assert(token_step(read, between) == after);
    assert(!over_limit(after)) by {
        assert(encode_utf8(Seq::<char>::empty()).len() == 0);
    }
    assert(tail.skip(1) =~= b + rest);
    assert(after.token + b =~= b);
    lemma_scan_word(b, rest, after);
}

/// What follows a comment sign after white space is not read.
pub proof fn comments_are_passed_over(a: Seq<char>, b: Seq<char>, comment: Seq<char>, n: nat)
    requires
        is_plain_word(a),
        is_plain_word(b),
    ensures
        line_tokens(a + seq![' '] + b + (seq![' ', '#'] + comment), n) == Ok::<
            Seq<Seq<char>>,
            Seq<char>,
        >(seq![a, b]),
        line_tokens(seq!['#'] + comment, n) == Ok::<Seq<Seq<char>>, Seq<char>>(Seq::empty()),
{
    let tail = seq![' ', '#'] + comment;
    lemma_two_words(a, ' ', b, tail);
    let both = TokenState { tokens: seq![a], token: b, quote: None, escaped: false };
    let after = closed(both);
    assert(tail[0] == ' ');
    assert(tail.skip(1)[0] == '#');
    assert(after.tokens =~= seq![a, b]);
    assert(!over_limit(after)) by {
        assert(encode_utf8(Seq::<char>::empty()).len() == 0);
    }
    assert(token_step(both, ' ') == after);
    assert(scanned(tail.skip(1), after) == Some(after));
    assert(scanned(tail, both) == Some(after));
    assert((seq!['#'] + comment)[0] == '#');
}

/// Between quotes every character but the quote and the backslash is part of the word.
proof fn lemma_scan_quoted(t: Seq<char>, rest: Seq<char>, st: TokenState)
    requires
        forall|i: int| 0 <= i < t.len() ==> #[trigger] t[i] != '"' && t[i] != '\\',
        !st.escaped,
        st.quote == Some('"'),
    ensures
        scanned(t + rest, st) == scanned(rest, TokenState { token: st.token + t, ..st }),
    decreases t.len(),
{
    if t.len() == 0 {
        assert(t + rest =~= rest);
        assert(st.token + t =~= st.token);
    } else {
        let next = TokenState { token: st.token.push(t[0]), ..st };
        assert((t + rest)[0] == t[0]);
        assert(token_step(st, t[0]) == next);
        assert(next.token + t.skip(1) =~= st.token + t);
        assert((t + rest).skip(1) =~= t.skip(1) + rest);
        lemma_scan_quoted(t.skip(1), rest, next);
    }
}

/// A value between quotes is one word, white space and comment signs included.
pub proof fn quotes_keep_a_word_together(a: Seq<char>, t: Seq<char>, n: nat)
    requires
        is_plain_word(a),
        t.len() > 0,
        forall|i: int| 0 <= i < t.len() ==> #[trigger] t[i] != '"' && t[i] != '\\',
    ensures
        line_tokens(a + seq![' ', '"'] + t + seq!['"'], n) == Ok::<Seq<Seq<char>>, Seq<char>>(
            seq![a, t],
        ),
{
    let st = fresh_tokens();
    let tail = seq![' ', '"'] + t + seq!['"'];
    assert(a + seq![' ', '"'] + t + seq!['"'] =~= a + tail);
    assert(st.token + a =~= a);
    lemma_scan_word(a, tail, st);
    let read = TokenState { token: a, ..st };
    let after = TokenState { tokens: seq![a], token: Seq::empty(), quote: None, escaped: false };
    let inside = TokenState { quote: Some('"'), ..after };
    assert(tail[0] == ' ');
    assert(read.tokens.push(a) =~= seq![a]);
    assert(token_step(read, ' ') == after);
    assert(encode_utf8(Seq::<char>::empty()).len() == 0);
    assert(!over_limit(after));
    assert(tail.skip(1)[0] == '"');
    assert(token_step(after, '"') == inside);
    assert(!over_limit(inside));
    assert(scanned(tail, read) == scanned(tail.skip(1), after));
    assert(scanned(tail.skip(1), after) == scanned(tail.skip(1).skip(1), inside));
    assert(tail.skip(1).skip(1) =~= t + seq!['"']);
    lemma_scan_quoted(t, seq!['"'], inside);
    let full = TokenState { token: t, ..inside };
    assert(inside.token + t =~= t);
    let end = TokenState { quote: None, ..full };
    assert(token_step(full, '"') == end);
    assert(seq!['"'].skip(1) =~= Seq::<char>::empty());
    assert(scanned(Seq::empty(), end) == Some(end));
    assert(scanned(seq!['"'], full) == Some(end));
    assert(end.tokens.push(t) =~= seq![a, t]);
}

/// A pattern without wildcards names one host, whatever the case of either; the mark of negation does
/// not change which host is meant, and `*` means them all.
pub proof fn patterns_name_hosts(pattern: Seq<char>, alias: Seq<char>)
    ensures
        is_literal(pattern) && !(pattern.len() > 0 && pattern[0] == '!') ==> (pattern_hits(
            pattern,
            alias,
        ) <==> ascii_lowercase(pattern) == ascii_lowercase(alias)),
        !(pattern.len() > 0 && pattern[0] == '!') ==> (pattern_hits(seq!['!'] + pattern, alias)
            <==> pattern_hits(pattern, alias)),
        pattern_hits(seq!['*'], alias),
{
    let lower = ascii_lowercase(pattern);
    if is_literal(pattern) && !(pattern.len() > 0 && pattern[0] == '!') {
        assert(is_literal(lower)) by {
            if lower.contains('*') {
                let i = choose|i: int| 0 <= i < lower.len() && lower[i] == '*';
                assert(pattern[i] == '*');
            }
            if lower.contains('?') {
                let i = choose|i: int| 0 <= i < lower.len() && lower[i] == '?';
                assert(pattern[i] == '?');
            }
        }
        literal_patterns_describe_themselves(lower, ascii_lowercase(alias));
    }
    assert((seq!['!'] + pattern).skip(1) =~= pattern);
    assert(ascii_lowercase(seq!['*']) =~= seq!['*']);
    lemma_one_char('*');
    star_matches_all(encode_utf8(ascii_lowercase(alias)));
}

/// A block applies to a host that one of its patterns means, unless a negated one means it too; a
/// block none of whose patterns means the host does not apply.
pub proof fn negated_patterns_take_hosts_out(patterns: Seq<Seq<char>>, alias: Seq<char>, i: int)
    requires
        0 <= i < patterns.len(),
    ensures
        pattern_hits(patterns[i], alias) && patterns[i].len() > 0 && patterns[i][0] == '!'
            ==> !block_applies(patterns, alias),
        pattern_hits(patterns[i], alias) && (forall|j: int|
            0 <= j < patterns.len() && pattern_hits(#[trigger] patterns[j], alias) ==> patterns[j].len()
                == 0 || patterns[j][0] != '!') ==> block_applies(patterns, alias),
        (forall|j: int| 0 <= j < patterns.len() ==> !pattern_hits(#[trigger] patterns[j], alias))
            ==> !block_applies(patterns, alias),
{
}

proof fn lemma_names()
    ensures
        "include"@ != "match"@,
        "include"@ != "hostname"@,
        "include"@ != "user"@,
        "include"@ != "port"@,
        "include"@ != "identityfile"@,
        "include"@ != "connecttimeout"@,
        "include"@ != "serveraliveinterval"@,
        "include"@ != "proxyjump"@,
        "include"@ != "proxycommand"@,
        "include"@ != "host"@,
        "include"@ != "none"@,
        "match"@ != "hostname"@,
        "match"@ != "user"@,
        "match"@ != "port"@,
        "match"@ != "identityfile"@,
        "match"@ != "connecttimeout"@,
        "match"@ != "serveraliveinterval"@,
        "match"@ != "proxyjump"@,
        "match"@ != "proxycommand"@,
        "match"@ != "host"@,
        "match"@ != "none"@,
        "hostname"@ != "user"@,
        "hostname"@ != "port"@,
        "hostname"@ != "identityfile"@,
        "hostname"@ != "connecttimeout"@,
        "hostname"@ != "serveraliveinterval"@,
        "hostname"@ != "proxyjump"@,
        "hostname"@ != "proxycommand"@,
        "hostname"@ != "host"@,
        "hostname"@ != "none"@,
        "user"@ != "port"@,
        "user"@ != "identityfile"@,
        "user"@ != "connecttimeout"@,
        "user"@ != "serveraliveinterval"@,
        "user"@ != "proxyjump"@,
        "user"@ != "proxycommand"@,
        "user"@ != "host"@,
        "user"@ != "none"@,
        "port"@ != "identityfile"@,
        "port"@ != "connecttimeout"@,
        "port"@ != "serveraliveinterval"@,
        "port"@ != "proxyjump"@,
        "port"@ != "proxycommand"@,
        "port"@ != "host"@,
        "port"@ != "none"@,
        "identityfile"@ != "connecttimeout"@,
        "identityfile"@ != "serveraliveinterval"@,
        "identityfile"@ != "proxyjump"@,
        "identityfile"@ != "proxycommand"@,
        "identityfile"@ != "host"@,
        "identityfile"@ != "none"@,
        "connecttimeout"@ != "serveraliveinterval"@,
        "connecttimeout"@ != "proxyjump"@,
        "connecttimeout"@ != "proxycommand"@,
        "connecttimeout"@ != "host"@,
        "connecttimeout"@ != "none"@,
        "serveraliveinterval"@ != "proxyjump"@,
        "serveraliveinterval"@ != "proxycommand"@,
        "serveraliveinterval"@ != "host"@,
        "serveraliveinterval"@ != "none"@,
        "proxyjump"@ != "proxycommand"@,
        "proxyjump"@ != "host"@,
        "proxyjump"@ != "none"@,
        "proxycommand"@ != "host"@,
        "proxycommand"@ != "none"@,
        "host"@ != "none"@,
{
    reveal_strlit("include");
    reveal_strlit("match");
    reveal_strlit("hostname");
    reveal_strlit("user");
    reveal_strlit("port");
    reveal_strlit("identityfile");
    reveal_strlit("connecttimeout");
    reveal_strlit("serveraliveinterval");
    reveal_strlit("proxyjump");
    reveal_strlit("proxycommand");
    reveal_strlit("host");
    reveal_strlit("none");
    assert("include"@.len() == 7);
    assert("match"@.len() == 5);
    assert("hostname"@.len() == 8);
    assert("user"@.len() == 4);
    assert("port"@.len() == 4);
    assert("identityfile"@.len() == 12);
    assert("connecttimeout"@.len() == 14);
    assert("serveraliveinterval"@.len() == 19);
    assert("proxyjump"@.len() == 9);
    assert("proxycommand"@.len() == 12);
    assert("host"@.len() == 4);
    assert("none"@.len() == 4);
    assert("user"@[0] != "port"@[0]);
    assert("user"@[0] != "host"@[0]);
    assert("user"@[0] != "none"@[0]);
    assert("port"@[0] != "host"@[0]);
    assert("port"@[0] != "none"@[0]);
    assert("identityfile"@[0] != "proxycommand"@[0]);
    assert("host"@[0] != "none"@[0]);
}

/// Nothing but one setting changes, and that one only where it had no value yet.
pub open spec fn sets(before: ParamsView, after: ParamsView, value: ParamsView) -> bool {
    &&& after.host_name == if before.host_name is None {
        value.host_name
    } else {
        before.host_name
    }
    &&& after.user == if before.user is None {
        value.user
    } else {
        before.user
    }
    &&& after.port == if before.port is None {
        value.port
    } else {
        before.port
    }
    &&& after.proxy_jump == if before.proxy_jump is None {
        value.proxy_jump
    } else {
        before.proxy_jump
    }
    &&& after.connect_timeout == if before.connect_timeout is None {
        value.connect_timeout
    } else {
        before.connect_timeout
    }
    &&& after.server_alive_interval == if before.server_alive_interval is None {
        value.server_alive_interval
    } else {
        before.server_alive_interval
    }
    &&& after.identity_files == before.identity_files + value.identity_files
    &&& after.proxy_command == (before.proxy_command || value.proxy_command)
}

/// Each setting gives its value to what it is named after, and to nothing else; a value that is
/// already there stays, but identity files add up.
pub proof fn settings_say_what_they_are_named_after(
    params: ParamsView,
    value: Seq<char>,
    number: u64,
    port: u16,
    n: nat,
)
    requires
        port != 0,
        params.identity_files.len() < 64,
    ensures
        directive(params, "hostname"@, seq![value], n) matches Ok(p) && sets(
            params,
            p,
            (ParamsView { host_name: Some(value), ..no_params() }),
        ),
        directive(params, "user"@, seq![value], n) matches Ok(p) && sets(
            params,
            p,
            (ParamsView { user: Some(value), ..no_params() }),
        ),
        directive(params, "proxyjump"@, seq![value], n) matches Ok(p) && sets(
            params,
            p,
            (ParamsView { proxy_jump: Some(value), ..no_params() }),
        ),
        directive(params, "identityfile"@, seq![value], n) matches Ok(p) && sets(
            params,
            p,
            (ParamsView { identity_files: seq![value], ..no_params() }),
        ),
        directive(params, "port"@, seq![decimal(port as nat)], n) matches Ok(p) && sets(
            params,
            p,
            (ParamsView { port: Some(port), ..no_params() }),
        ),
        directive(params, "connecttimeout"@, seq![decimal(number as nat)], n) matches Ok(p) && sets(
            params,
            p,
            (ParamsView { connect_timeout: Some(number), ..no_params() }),
        ),
        directive(params, "serveraliveinterval"@, seq![decimal(number as nat)], n) matches Ok(p)
            && sets(
            params,
            p,
            (ParamsView { server_alive_interval: Some(number), ..no_params() }),
        ),
        ascii_lowercase(value) != "none"@ ==> (directive(params, "proxycommand"@, seq![value], n)
            matches Ok(p) && sets(
            params,
            p,
            (ParamsView { proxy_command: true, ..no_params() }),
        )),
        ascii_lowercase(value) == "none"@ ==> directive(params, "proxycommand"@, seq![value], n) == Ok::<
            ParamsView,
            Seq<char>,
        >(params),
{
    lemma_names();
    decimal_reads_back(port as nat);
    decimal_reads_back(number as nat);
    assert(params.identity_files + Seq::<Seq<char>>::empty() =~= params.identity_files);
}

/// What would read other files or run commands is refused, and so is a setting without its one value
/// or with a port that is none.
pub proof fn unsafe_settings_are_refused(params: ParamsView, args: Seq<Seq<char>>, n: nat)
    ensures
        directive(params, "include"@, args, n) is Err,
        directive(params, "match"@, args, n) is Err,
        args.len() != 1 ==> directive(params, "hostname"@, args, n) is Err,
        args.len() != 1 ==> directive(params, "user"@, args, n) is Err,
        args.len() != 1 ==> directive(params, "port"@, args, n) is Err,
        args.len() != 1 ==> directive(params, "proxyjump"@, args, n) is Err,
        args.len() != 1 ==> directive(params, "connecttimeout"@, args, n) is Err,
        args.len() != 1 ==> directive(params, "serveraliveinterval"@, args, n) is Err,
        args.len() == 0 ==> directive(params, "identityfile"@, args, n) is Err,
        directive(params, "port"@, seq![decimal(0)], n) is Err,
        directive(params, "port"@, seq![decimal(65536)], n) is Err,
        params.identity_files.len() + args.len() > 64 ==> directive(
            params,
            "identityfile"@,
            args,
            n,
        ) is Err,
{
    lemma_names();
    decimal_reads_back(0);
    decimal_reads_back(65536);
}

/// A setting with another name changes nothing.
pub proof fn other_settings_are_passed_over(
    params: ParamsView,
    field: Seq<char>,
    args: Seq<Seq<char>>,
    n: nat,
)
    requires
        field != "include"@,
        field != "match"@,
        field != "hostname"@,
        field != "user"@,
        field != "port"@,
        field != "identityfile"@,
        field != "connecttimeout"@,
        field != "serveraliveinterval"@,
        field != "proxyjump"@,
        field != "proxycommand"@,
    ensures
        directive(params, field, args, n) == Ok::<ParamsView, Seq<char>>(params),
{
}

/// A `Host` line begins a block of its own for its patterns, with no settings yet; what was read
/// before stays.
pub proof fn host_lines_begin_a_block(config: ConfigView, patterns: Seq<Seq<char>>, n: nat)
    requires
        patterns.len() > 0,
        config.hosts.len() < 4096,
        forall|i: int| 0 <= i < patterns.len() ==> pattern_allowed(#[trigger] patterns[i]),
    ensures
        config_step(config, "host"@, patterns, n) matches Ok(next) && {
            &&& next.global == config.global
            &&& next.hosts.len() == config.hosts.len() + 1
            &&& forall|i: int| 0 <= i < config.hosts.len() ==> next.hosts[i] == config.hosts[i]
            &&& next.hosts.last().patterns == patterns
            &&& next.hosts.last().params == no_params()
        },
        config_step(config, "host"@, Seq::empty(), n) is Err,
{
}

/// A setting belongs to the block that it stands in, and before the first block to all hosts. Nothing
/// else changes.
pub proof fn settings_belong_to_their_block(
    config: ConfigView,
    field: Seq<char>,
    args: Seq<Seq<char>>,
    n: nat,
)
    requires
        field != "host"@,
        config_step(config, field, args, n) is Ok,
    ensures
        ({
            let next = config_step(config, field, args, n)->Ok_0;
            let last = config.hosts.len() - 1;
            &&& next.hosts.len() == config.hosts.len()
            &&& config.hosts.len() == 0 ==> directive(config.global, field, args, n) == Ok::<
                ParamsView,
                Seq<char>,
            >(next.global)
            &&& config.hosts.len() > 0 ==> {
                &&& next.global == config.global
                &&& forall|i: int| 0 <= i < last ==> next.hosts[i] == config.hosts[i]
                &&& next.hosts[last].patterns == config.hosts[last].patterns
                &&& directive(config.hosts[last].params, field, args, n) == Ok::<
                    ParamsView,
                    Seq<char>,
                >(next.hosts[last].params)
            }
        }),
{
}

/// A line of a name and a value is the setting of that name, whatever the case of the name; a line
/// without words says nothing.
pub proof fn a_line_is_a_setting(config: ConfigView, name: Seq<char>, value: Seq<char>, n: nat)
    requires
        is_plain_word(name),
        is_plain_word(value),
    ensures
        config_from(seq![name + seq![' '] + value], n, config) == config_step(
            config,
            ascii_lowercase(name),
            seq![value],
            n,
        ),
        config_from(seq![Seq::<char>::empty()], n, config) == Ok::<ConfigView, Seq<char>>(config),
{
    words_are_read_as_they_stand(name, value, n);
    let line = name + seq![' '] + value;
    assert(seq![line].skip(1) =~= Seq::<Seq<char>>::empty());
    assert(seq![Seq::<char>::empty()].skip(1) =~= Seq::<Seq<char>>::empty());
    assert(seq![name, value].skip(1) =~= seq![value]);
    reveal_with_fuel(config_from, 2);
}

/// Lines are read one after the other, and the first that is refused refuses the file.
pub proof fn lines_are_read_in_order(
    a: Seq<Seq<char>>,
    b: Seq<Seq<char>>,
    n: nat,
    config: ConfigView,
)
    ensures
        config_from(a, n, config) matches Ok(next) ==> config_from(a + b, n, config) == config_from(
            b,
            n + a.len(),
            next,
        ),
        config_from(a, n, config) is Err ==> config_from(a + b, n, config) is Err,
{
    lemma_lines_follow(a, b, n, config);
}

/// The blocks that apply to a host are asked in their order: a further one adds what is still missing,
/// and one that does not apply adds nothing.
pub proof fn blocks_add_what_is_missing(config: ConfigView, block: BlockView, alias: Seq<char>)
    ensures
        ({
            let before = params_for(config, alias);
            let grown = ConfigView { hosts: config.hosts.push(block), ..config };
            let after = params_for(grown, alias);
            &&& !block_applies(block.patterns, alias) ==> after == before
            &&& block_applies(block.patterns, alias) && before.identity_files.len()
                + block.params.identity_files.len() <= 64 ==> sets(before, after, block.params)
        }),
{
    let grown = config.hosts.push(block);
    assert(grown.drop_last() =~= config.hosts);
    let files = block.params.identity_files;
    assert(files.take(files.len() as int) =~= files);
}

/// Before any block, a host has what is said of all hosts.
pub proof fn hosts_without_blocks_have_what_all_have(global: ParamsView, alias: Seq<char>)
    requires
        global.identity_files.len() <= 64,
    ensures
        params_for(ConfigView { global, hosts: Seq::empty() }, alias) == global,
{
    let files = global.identity_files;
    assert(files.take(files.len() as int) =~= files);
    assert(no_params().identity_files + files =~= files);
}

/// An equals sign may have white space around it.
pub proof fn equals_signs_may_stand_alone(a: Seq<char>, b: Seq<char>, n: nat)
    requires
        is_plain_word(a),
        is_plain_word(b),
    ensures
        line_tokens(a + seq![' ', '=', ' '] + b, n) == Ok::<Seq<Seq<char>>, Seq<char>>(seq![a, b]),
{
    let st = fresh_tokens();
    let tail = seq![' ', '=', ' '] + b;
    assert(a + seq![' ', '=', ' '] + b =~= a + tail);
    assert(st.token + a =~= a);
    lemma_scan_word(a, tail, st);
    let read = TokenState { token: a, ..st };
    let after = TokenState { tokens: seq![a], token: Seq::empty(), quote: None, escaped: false };
    assert(encode_utf8(Seq::<char>::empty()).len() == 0);
    assert(read.tokens.push(a) =~= seq![a]);
    assert(tail[0] == ' ');
    assert(token_step(read, ' ') == after);
    assert(!over_limit(after));
    assert(tail.skip(1)[0] == '=');
    assert(token_step(after, '=') == after);
    assert(tail.skip(1).skip(1)[0] == ' ');
    assert(token_step(after, ' ') == after);
    assert(tail.skip(1).skip(1).skip(1) =~= b + Seq::empty());
    assert(scanned(tail, read) == scanned(tail.skip(1), after));
    assert(scanned(tail.skip(1), after) == scanned(tail.skip(1).skip(1), after));
    assert(scanned(tail.skip(1).skip(1), after) == scanned(b + Seq::empty(), after));
    assert(after.token + b =~= b);
    lemma_scan_word(b, Seq::empty(), after);
    let both = TokenState { token: b, ..after };
    assert(scanned(Seq::empty(), both) == Some(both));
    assert(both.tokens.push(b) =~= seq![a, b]);
}

/// A configuration is what its lines say, read from the first on with nothing said before; a text
/// with a zero character is none.
pub proof fn configurations_are_read_line_by_line(text: &str, r: Result<SshConfig, NetError>)
    requires
        call_ensures(parse_config_text, (text,), r),
    ensures
        text@.contains('\0') ==> r is Err,
        !text@.contains('\0') ==> match config_from(
            text_lines(text@),
            1,
            ConfigView { global: no_params(), hosts: Seq::empty() },
        ) {
            Ok(config) => r matches Ok(found) && found@ == config,
            Err(message) => r matches Err(NetError::Ssh(m)) && m@ == message,
        },
{
}

/// What a configuration says of a host is what its blocks for the host say.
pub proof fn queries_give_what_is_said(config: &SshConfig, alias: &str, r: HostParams)
    requires
        call_ensures(SshConfig::query, (config, alias), r),
    ensures
        r@ == params_for(config@, alias@),
{
}

} // verus!
