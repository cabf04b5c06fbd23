//! Private sibling names used to make remote uploads transactional.
//!
//! Uploading directly to the destination destroys the previous file as soon as the transfer starts.
//! A private sibling keeps the old destination intact until every byte has been accepted and the
//! remote data channel has closed successfully.

use vstd::prelude::*;
use vstd::slice::slice_subrange;

use crate::lexical::same;
use crate::net::error::NetError;
use crate::net::safe::{any_low_byte, has_low_byte};
use crate::numerals::{hex_padded, to_hex};
use crate::pieces::{copy_chars, drop_end_while, extend_chars, only, trim_end_char};
use crate::text::{chars_of, string_of};

verus! {

#[derive(Debug, PartialEq, Eq)]
pub struct RemoteStagingPaths {
    pub temporary: String,
    pub backup: String,
}

/// The position of the last `/`, or -1.
pub open spec fn last_slash(s: Seq<char>) -> int
    decreases s.len(),
{
    if s.len() == 0 {
        -1
    } else if s.last() == '/' {
        s.len() - 1
    } else {
        last_slash(s.drop_last())
    }
}

pub proof fn lemma_last_slash(s: Seq<char>, n: int)
    requires
        -1 <= n < s.len(),
        n >= 0 ==> s[n] == '/',
        forall|i: int| n < i < s.len() ==> #[trigger] s[i] != '/',
    ensures
        last_slash(s) == n,
    decreases s.len(),
{
    if s.len() > 0 && n < s.len() - 1 {
        assert(s.last() != '/');
        lemma_last_slash(s.drop_last(), n);
    }
}

pub proof fn lemma_last_slash_bounds(s: Seq<char>)
    ensures
        -1 <= last_slash(s) < s.len(),
        last_slash(s) >= 0 ==> s[last_slash(s)] == '/',
        forall|i: int| last_slash(s) < i < s.len() ==> #[trigger] s[i] != '/',
    decreases s.len(),
{
    if s.len() > 0 && s.last() != '/' {
        let t = s.drop_last();
        lemma_last_slash_bounds(t);
        assert forall|i: int| last_slash(s) < i < s.len() implies #[trigger] s[i] != '/' by {
            if i < t.len() {
                assert(t[i] == s[i]);
            }
        }
    }
}

/// The position of the last `/`, counted from one; zero for none.
pub fn find_last_slash(s: &[char]) -> (r: usize)
    ensures
        r == last_slash(s@) + 1,
        r <= s@.len(),
{
    let mut i: usize = s.len();
    while i > 0 && s[i - 1] != '/'
        invariant
            i <= s@.len(),
            forall|j: int| i <= j < s@.len() ==> #[trigger] s@[j] != '/',
        decreases i,
    {
        i -= 1;
    }
    proof {
        lemma_last_slash(s@, i - 1);
    }
    i
}

/// The directory of a path without trailing slashes; empty for a bare name.
pub open spec fn parent_of(path: Seq<char>) -> Seq<char> {
    if last_slash(path) == 0 {
        seq!['/']
    } else if last_slash(path) > 0 {
        path.take(last_slash(path))
    } else {
        Seq::empty()
    }
}

/// The last component of a path without trailing slashes.
pub open spec fn name_of(path: Seq<char>) -> Seq<char> {
    path.skip(last_slash(path) + 1)
}

/// A path without its trailing slashes.
pub open spec fn without_trailing_slashes(path: Seq<char>) -> Seq<char> {
    drop_end_while(path, only('/'))
}

/// Why no upload may be staged for a destination.
pub open spec fn staging_refusal(destination: Seq<char>) -> Option<Seq<char>> {
    let path = without_trailing_slashes(destination);
    if has_low_byte(destination) {
        Some("remote path contains a control character (CRLF/NUL injection guard)"@)
    } else if path.len() == 0 {
        Some("upload destination must name a file"@)
    } else if name_of(path).len() == 0 || name_of(path) == seq!['.'] || name_of(path) == seq![
        '.',
        '.',
    ] {
        Some("upload destination must name a safe file"@)
    } else {
        None
    }
}

pub open spec fn staging_name(role: Seq<char>, token: Seq<char>) -> Seq<char> {
    ".gmacftp-"@ + role + seq!['-'] + token
}

/// A name in the directory of the destination.
pub open spec fn sibling_of(destination: Seq<char>, name: Seq<char>) -> Seq<char> {
    let parent = parent_of(without_trailing_slashes(destination));
    if parent.len() == 0 {
        name
    } else if parent == seq!['/'] {
        seq!['/'] + name
    } else {
        parent + seq!['/'] + name
    }
}

/// The two names that a destination and the tokens give.
pub open spec fn staged_at(
    paths: RemoteStagingPaths,
    destination: Seq<char>,
    token: Seq<char>,
    backup: u128,
) -> bool {
    &&& paths.temporary@ == sibling_of(destination, staging_name("upload"@, token))
    &&& paths.backup@ == sibling_of(
        destination,
        staging_name("backup"@, hex_padded(backup as nat, 32)),
    )
}

pub open spec fn refused(e: NetError, message: Seq<char>) -> bool {
    e matches NetError::InvalidPath(m) && m@ == message
}

/// `rand::random::<u128>`: some number, different from call to call. Nothing is claimed of it.
#[verifier::external_body]
pub(crate) fn random_token() -> u128 {
    rand::random::<u128>()
}

fn sibling(parent: &[char], role: &str, token: &[char]) -> (r: String)
    ensures
        r@ == (if parent@.len() == 0 {
            staging_name(role@, token@)
        } else if parent@ == seq!['/'] {
            seq!['/'] + staging_name(role@, token@)
        } else {
            parent@ + seq!['/'] + staging_name(role@, token@)
        }),
{
    let mut name: Vec<char> = chars_of(".gmacftp-");
    extend_chars(&mut name, &chars_of(role));
    name.push('-');
    extend_chars(&mut name, token);
    assert(name@ =~= staging_name(role@, token@));
    if parent.len() == 0 {
        return string_of(&name);
    }
    let mut out: Vec<char> = Vec::new();
    if parent.len() == 1 && parent[0] == '/' {
        assert(parent@ =~= seq!['/']);
        out.push('/');
    } else {
        extend_chars(&mut out, parent);
        out.push('/');
    }
    extend_chars(&mut out, &name);
    assert(out@ =~= (if parent@ == seq!['/'] {
        seq!['/'] + name@
    } else {
        parent@ + seq!['/'] + name@
    }));
    string_of(&out)
}

impl RemoteStagingPaths {
    /// The names for given tokens.
    pub fn build(destination: &str, temporary_token: &str, backup_token: u128) -> (r: Result<
        Self,
        NetError,
    >)
        ensures
            r is Ok <==> staging_refusal(destination@) is None,
            r matches Ok(paths) ==> staged_at(
                paths,
                destination@,
                temporary_token@,
                backup_token,
            ),
            r matches Err(e) ==> staging_refusal(destination@) matches Some(m) && refused(e, m),
    {
        if any_low_byte(destination) {
            return Err(
                NetError::InvalidPath(
                    "remote path contains a control character (CRLF/NUL injection guard)".to_owned(),
                ),
            );
        }
        let chars: Vec<char> = chars_of(destination);
        let path: &[char] = trim_end_char(&chars, '/');
        if path.len() == 0 {
            return Err(NetError::InvalidPath("upload destination must name a file".to_owned()));
        }
        let at: usize = find_last_slash(path);
        let root: [char; 1] = ['/'];
        let here: [char; 1] = ['.'];
        let up: [char; 2] = ['.', '.'];
        assert(root@ =~= seq!['/'] && here@ =~= seq!['.'] && up@ =~= seq!['.', '.']);
        let name: &[char] = slice_subrange(path, at, path.len());
        assert(name@ =~= name_of(path@));
        if name.len() == 0 || same(name, here.as_slice()) || same(name, up.as_slice()) {
            return Err(
                NetError::InvalidPath("upload destination must name a safe file".to_owned()),
            );
        }
        let parent: Vec<char> = if at == 0 {
            Vec::new()
        } else if at == 1 {
            copy_chars(root.as_slice())
        } else {
            copy_chars(slice_subrange(path, 0, at - 1))
        };
        assert(parent@ =~= parent_of(path@)) by {
            if at > 1 {
                assert(path@.subrange(0, at - 1) =~= path@.take(last_slash(path@)));
            }
        }
        let token: Vec<char> = chars_of(temporary_token);
        let backup: Vec<char> = to_hex(backup_token, 32);
        Ok(
            RemoteStagingPaths {
                temporary: sibling(&parent, "upload", &token),
                backup: sibling(&parent, "backup", &backup),
            },
        )
    }

    /// Fresh names for one attempt.
    pub fn for_destination(destination: &str) -> (r: Result<Self, NetError>)
        ensures
            r is Ok <==> staging_refusal(destination@) is None,
            r matches Ok(paths) ==> exists|a: u128, b: u128|
                #[trigger] staged_at(paths, destination@, hex_padded(a as nat, 32), b),
            r matches Err(e) ==> staging_refusal(destination@) matches Some(m) && refused(e, m),
    {
        let a: u128 = random_token();
        let token: String = string_of(&to_hex(a, 32));
        Self::build(destination, token.as_str(), random_token())
    }

    /// Names of which the temporary one is the same for every attempt with one token. The backup
    /// exists only during the final promotion and is never resumed, so it is fresh.
    pub fn for_resumable_destination(destination: &str, token: u64) -> (r: Result<Self, NetError>)
        ensures
            r is Ok <==> token != 0 && staging_refusal(destination@) is None,
            r matches Ok(paths) ==> exists|b: u128|
                staged_at(paths, destination@, hex_padded(token as nat, 16), b),
            r matches Err(e) ==> if token == 0 {
                refused(e, "upload resume token must not be zero"@)
            } else {
                staging_refusal(destination@) matches Some(m) && refused(e, m)
            },
    {
        if token == 0 {
            return Err(NetError::InvalidPath("upload resume token must not be zero".to_owned()));
        }
        let text: String = string_of(&to_hex(token as u128, 16));
        let b: u128 = random_token();
        Self::build(destination, text.as_str(), b)
    }
}

proof fn lemma_sibling_parent(destination: Seq<char>, name: Seq<char>)
    requires
        !name.contains('/'),
    ensures
        parent_of(sibling_of(destination, name)) == parent_of(
            without_trailing_slashes(destination),
        ) || parent_of(without_trailing_slashes(destination)).len() == 0,
        parent_of(without_trailing_slashes(destination)).len() == 0 ==> parent_of(
            sibling_of(destination, name),
        ).len() == 0,
        name_of(sibling_of(destination, name)) == name,
{
    let path = without_trailing_slashes(destination);
    let parent = parent_of(path);
    let whole = sibling_of(destination, name);
    lemma_last_slash_bounds(path);
    assert forall|i: int| 0 <= i < name.len() implies #[trigger] name[i] != '/' by {
        assert(name.contains(name[i]));
    }
    if parent.len() == 0 {
        lemma_last_slash(whole, -1);
        assert(name_of(whole) =~= name);
    } else if parent == seq!['/'] {
        lemma_last_slash(whole, 0);
        assert(name_of(whole) =~= name);
    } else {
        lemma_last_slash(whole, parent.len() as int);
        assert(name_of(whole) =~= name);
        assert(whole.take(parent.len() as int) =~= parent);
    }
}

/// The staging names lie in the directory of the destination, and they differ from each other.
pub proof fn staging_names_are_siblings(
    paths: RemoteStagingPaths,
    destination: Seq<char>,
    token: Seq<char>,
    backup: u128,
)
    requires
        staged_at(paths, destination, token, backup),
        !token.contains('/'),
    ensures
        ({
            let parent = parent_of(without_trailing_slashes(destination));
            &&& parent.len() > 0 ==> parent_of(paths.temporary@) == parent && parent_of(
                paths.backup@,
            ) == parent
            &&& parent.len() == 0 ==> parent_of(paths.temporary@).len() == 0 && parent_of(
                paths.backup@,
            ).len() == 0
            &&& paths.temporary@ != paths.backup@
        }),
{
    reveal_strlit(".gmacftp-");
    reveal_strlit("upload");
    reveal_strlit("backup");
    let up = staging_name("upload"@, token);
    let back = staging_name("backup"@, hex_padded(backup as nat, 32));
    lemma_hex_has_no_slash(backup as nat, 32);
    lemma_no_slash(up, token, "upload"@);
    lemma_no_slash(back, hex_padded(backup as nat, 32), "backup"@);
    lemma_sibling_parent(destination, up);
    lemma_sibling_parent(destination, back);
    assert(up[9] == 'u');
    assert(back[9] == 'b');
    assert(name_of(paths.temporary@) == up);
    assert(name_of(paths.backup@) == back);
}

proof fn lemma_no_slash(name: Seq<char>, token: Seq<char>, role: Seq<char>)
    requires
        name == staging_name(role, token),
        !token.contains('/'),
        role == "upload"@ || role == "backup"@,
    ensures
        !name.contains('/'),
{
    reveal_strlit(".gmacftp-");
    reveal_strlit("upload");
    reveal_strlit("backup");
    if name.contains('/') {
        let i = choose|i: int| 0 <= i < name.len() && name[i] == '/';
        if i >= 16 {
            assert(token[i - 16] == name[i]);
        } else if i >= 9 && i < 15 {
            assert(role[i - 9] == name[i]);
        }
    }
}

proof fn lemma_hex_has_no_slash(n: nat, width: nat)
    ensures
        !hex_padded(n, width).contains('/'),
    decreases width,
{
    if width > 0 {
        lemma_hex_has_no_slash(n / 16, (width - 1) as nat);
        let s = hex_padded(n, width);
        if s.contains('/') {
            let i = choose|i: int| 0 <= i < s.len() && s[i] == '/';
            if i < s.len() - 1 {
                assert(hex_padded(n / 16, (width - 1) as nat)[i] == '/');
            }
        }
    }
}

} // verus!
