//! What further lines may add to an OpenSSH configuration: never another value in place of the first.

use vstd::prelude::*;

use crate::net::ssh_config::{
    config_from, config_of, config_step, directive, fresh_tokens, line_tokens, merged, no_params,
    params_for, queried, scanned, token_step, ConfigView, ParamsView, TokenState,
};
use crate::pieces::{split_any, split_at_separator, text_lines, without_return};
use crate::text::ascii_lowercase;

verus! {

/// Every value that `a` has is the value that `b` has, and a proxy command stays.
pub open spec fn keeps(a: ParamsView, b: ParamsView) -> bool {
    &&& a.host_name is Some ==> b.host_name == a.host_name
    &&& a.user is Some ==> b.user == a.user
    &&& a.port is Some ==> b.port == a.port
    &&& a.proxy_jump is Some ==> b.proxy_jump == a.proxy_jump
    &&& a.connect_timeout is Some ==> b.connect_timeout == a.connect_timeout
    &&& a.server_alive_interval is Some ==> b.server_alive_interval == a.server_alive_interval
    &&& a.proxy_command ==> b.proxy_command
}

proof fn lemma_directive_keeps(params: ParamsView, field: Seq<char>, args: Seq<Seq<char>>, n: nat)
    ensures
        directive(params, field, args, n) matches Ok(next) ==> keeps(params, next),
{
}

proof fn lemma_step_keeps(
    config: ConfigView,
    field: Seq<char>,
    args: Seq<Seq<char>>,
    n: nat,
    alias: Seq<char>,
)
    ensures
        config_step(config, field, args, n) matches Ok(next) ==> keeps(
            params_for(config, alias),
            params_for(next, alias),
        ),
{
    if let Ok(next) = config_step(config, field, args, n) {
        let base = merged(no_params(), config.global);
        if field == "host"@ {
            assert(next.hosts.drop_last() =~= config.hosts);
        } else if config.hosts.len() > 0 {
            let last = config.hosts.last();
            lemma_directive_keeps(last.params, field, args, n);
            assert(next.hosts.drop_last() =~= config.hosts.drop_last());
            assert(next.hosts.last().patterns == last.patterns);
        } else {
            lemma_directive_keeps(config.global, field, args, n);
            assert(queried(config.hosts, alias, base) == base);
        }
    }
}

proof fn lemma_lines_keep(all: Seq<Seq<char>>, n: nat, config: ConfigView, alias: Seq<char>)
    ensures
        config_from(all, n, config) matches Ok(next) ==> keeps(
            params_for(config, alias),
            params_for(next, alias),
        ),
    decreases all.len(),
{
    if all.len() > 0 && config_from(all, n, config) is Ok {
        let tokens = line_tokens(all[0], n)->Ok_0;
        if tokens.len() == 0 {
            lemma_lines_keep(all.skip(1), n + 1, config, alias);
        } else {
            let field = ascii_lowercase(tokens[0]);
            lemma_step_keeps(config, field, tokens.skip(1), n, alias);
            let next = config_step(config, field, tokens.skip(1), n)->Ok_0;
            lemma_lines_keep(all.skip(1), n + 1, next, alias);
        }
    }
}

/// Lines are read one after the other.
pub proof fn lemma_lines_follow(a: Seq<Seq<char>>, b: Seq<Seq<char>>, n: nat, config: ConfigView)
    ensures
        config_from(a + b, n, config) == match config_from(a, n, config) {
            Ok(next) => config_from(b, n + a.len(), next),
            Err(e) => Err(e),
        },
    decreases a.len(),
{
    let all = a + b;
    if a.len() == 0 {
        assert(all =~= b);
    } else {
        assert(all[0] == a[0]);
        assert(all.skip(1) =~= a.skip(1) + b);
        if let Ok(tokens) = line_tokens(a[0], n) {
            if tokens.len() == 0 {
                lemma_lines_follow(a.skip(1), b, n + 1, config);
            } else if let Ok(next) = config_step(
                config,
                ascii_lowercase(tokens[0]),
                tokens.skip(1),
                n,
            ) {
                lemma_lines_follow(a.skip(1), b, n + 1, next);
            }
        }
    }
}

/// A carriage return at the end of a line changes none of its words.
proof fn lemma_scanned_with_return(s: Seq<char>, st: TokenState)
    ensures
        scanned(s.push('\r'), st) matches Some(whole) ==> {
            &&& scanned(s, st) matches Some(part)
            &&& !part.escaped && part.quote is None ==> whole == part || (part.token.len() > 0
                && whole == crate::net::ssh_config::closed(part))
        },
    decreases s.len(),
{
    reveal_with_fuel(scanned, 2);
    let whole = s.push('\r');
    if s.len() == 0 {
        assert(whole.skip(1) =~= s);
        assert(whole[0] == '\r');
    } else {
        assert(whole[0] == s[0]);
        assert(whole.skip(1) =~= s.skip(1).push('\r'));
        lemma_scanned_with_return(s.skip(1), token_step(st, s[0]));
    }
}

proof fn lemma_words_without_return(line: Seq<char>, n: nat, m: nat)
    requires
        line_tokens(line, n) is Ok,
        line_tokens(without_return(line), m) is Ok,
    ensures
        line_tokens(without_return(line), m)->Ok_0 == line_tokens(line, n)->Ok_0,
{
    let bare = without_return(line);
    if bare != line {
        assert(bare.push('\r') =~= line);
        lemma_scanned_with_return(bare, fresh_tokens());
    }
}

/// One line read under two numbers, with and without a carriage return.
proof fn lemma_one_line(line: Seq<char>, n: nat, config: ConfigView)
    requires
        config_from(seq![line], n, config) is Ok,
        config_from(seq![without_return(line)], n, config) is Ok,
    ensures
        config_from(seq![line], n, config) == config_from(seq![without_return(line)], n, config),
{
    reveal_with_fuel(config_from, 2);
    let bare = without_return(line);
    assert(seq![line].skip(1) =~= Seq::<Seq<char>>::empty());
    assert(seq![bare].skip(1) =~= Seq::<Seq<char>>::empty());
    lemma_words_without_return(line, n, n);
}

proof fn lemma_blank_line(n: nat, config: ConfigView)
    ensures
        config_from(seq![Seq::<char>::empty()], n, config) == Ok::<ConfigView, Seq<char>>(config),
{
    reveal_with_fuel(config_from, 2);
    let blank = seq![Seq::<char>::empty()];
    assert(blank.skip(1) =~= Seq::<Seq<char>>::empty());
}

/// A setting that a text gives a value is kept when further lines follow: the first value counts for
/// every alias, later lines never override it, and a proxy command is never lost.
pub proof fn further_lines_override_nothing(
    text: Seq<char>,
    more: Seq<char>,
    config: ConfigView,
    grown: ConfigView,
    alias: Seq<char>,
)
    requires
        config_of(text) == Ok::<ConfigView, Seq<char>>(config),
        config_of(text + seq!['\n'] + more) == Ok::<ConfigView, Seq<char>>(grown),
    ensures
        keeps(params_for(config, alias), params_for(grown, alias)),
{
    let feed = seq!['\n'];
    assert(feed[0] == '\n');
    split_at_separator(text, '\n', more, feed);
    let first = split_any(text, feed);
    let second = split_any(more, feed);
    let bare = |p: Seq<char>| without_return(p);
    let ended = first.map_values(bare);
    let whole = text + feed + more;
    assert(text_lines(whole) =~= ended + text_lines(more)) by {
        let parts = first + second;
        assert(parts.last() == second.last());
        assert(parts.drop_last().map_values(bare) =~= ended + second.drop_last().map_values(bare));
    }
    let start = ConfigView { global: no_params(), hosts: Seq::empty() };
    lemma_lines_follow(ended, text_lines(more), 1, start);
    let reached = config_from(ended, 1, start)->Ok_0;
    let front = first.drop_last().map_values(bare);
    let last = first.last();
    assert(ended =~= front + seq![without_return(last)]);
    lemma_lines_follow(front, seq![without_return(last)], 1, start);
    let at = config_from(front, 1, start)->Ok_0;
    if last.len() == 0 {
        assert(last =~= Seq::<char>::empty());
        assert(without_return(last) =~= Seq::<char>::empty());
        assert(text_lines(text) =~= front);
        lemma_blank_line(1 + front.len(), at);
    } else {
        assert(text_lines(text) =~= front + seq![last]);
        lemma_lines_follow(front, seq![last], 1, start);
        lemma_one_line(last, 1 + front.len(), at);
    }
    assert(reached == config);
    lemma_lines_keep(text_lines(more), 1 + ended.len(), config, alias);
}

} // verus!
