//! Remote paths.

use vstd::prelude::*;
use vstd::slice::slice_subrange;

use crate::net::error::NetError;
use crate::net::ftp::transport::FtpFailure;
use crate::net::safe::{
    has_low_byte, lemma_low_bytes_are_low_chars, lemma_low_bytes_of_prefix, safe_component,
    validate_ftp_path, validate_remote_component,
};
use crate::net::staging::{
    find_last_slash, last_slash, lemma_last_slash_bounds, parent_of, without_trailing_slashes,
};
use crate::pieces::{
    copy_chars, extend_chars, first_of, lemma_first_of_bounds, split, split_any, texts, trim,
    trim_end_char, trimmed, views,
};
use crate::text::{chars_of, is_word, string_of};

verus! {

/// An entry of a directory, as an absolute path.
pub open spec fn joined_path(dir: Seq<char>, name: Seq<char>) -> Seq<char> {
    without_trailing_slashes(dir) + seq!['/'] + name
}

pub fn join_remote_path(dir: &str, name: &str) -> (r: String)
    ensures
        r@ == joined_path(dir@, name@),
{
    let chars: Vec<char> = chars_of(dir);
    let mut out: Vec<char> = copy_chars(trim_end_char(&chars, '/'));
    out.push('/');
    let tail: Vec<char> = chars_of(name);
    extend_chars(&mut out, &tail);
    assert(out@ =~= joined_path(dir@, name@));
    string_of(&out)
}

/// The directory of a remote path: `/a/b/c.txt` is in `/a/b`, `/c.txt` in `/`. A bare name has none.
pub fn parent_remote(remote_path: &str) -> (r: Option<String>)
    ensures
        ({
            let parent = parent_of(without_trailing_slashes(remote_path@));
            &&& r is None <==> parent.len() == 0
            &&& r matches Some(p) ==> p@ == parent
        }),
{
    let chars: Vec<char> = chars_of(remote_path);
    let path: &[char] = trim_end_char(&chars, '/');
    let at: usize = find_last_slash(path);
    proof {
        lemma_last_slash_bounds(path@);
    }
    if at == 0 {
        None
    } else if at == 1 {
        Some(string_of(slice_subrange(path, 0, 1)))
    } else {
        Some(string_of(slice_subrange(path, 0, at - 1)))
    }
}

proof fn lemma_trailing_slashes(path: Seq<char>)
    ensures
        without_trailing_slashes(path).len() <= path.len(),
        without_trailing_slashes(path) == path.take(without_trailing_slashes(path).len() as int),
        without_trailing_slashes(path).len() > 0 ==> without_trailing_slashes(path).last() != '/',
    decreases path.len(),
{
    if path.len() > 0 && path.last() == '/' {
        lemma_trailing_slashes(path.drop_last());
        let n = without_trailing_slashes(path).len() as int;
        assert(path.drop_last().take(n) =~= path.take(n));
    } else {
        assert(path.take(path.len() as int) =~= path);
    }
}

/// The directory of a path without C0 control bytes has none either.
pub proof fn lemma_parent_is_safe(path: Seq<char>)
    requires
        !has_low_byte(path),
    ensures
        !has_low_byte(parent_of(without_trailing_slashes(path))),
{
    let trimmed_path = without_trailing_slashes(path);
    lemma_trailing_slashes(path);
    lemma_last_slash_bounds(trimmed_path);
    let parent = parent_of(trimmed_path);
    let n = parent.len() as int;
    if last_slash(trimmed_path) == 0 {
        assert(parent =~= path.take(1));
    } else {
        assert(parent =~= path.take(n));
    }
    lemma_low_bytes_of_prefix(path, parent);
}

/// The non-empty components of a path.
pub open spec fn segments(parts: Seq<Seq<char>>) -> Seq<Seq<char>>
    decreases parts.len(),
{
    if parts.len() == 0 {
        Seq::empty()
    } else if parts.last().len() == 0 {
        segments(parts.drop_last())
    } else {
        segments(parts.drop_last()).push(parts.last())
    }
}

/// The path of the first components below the root.
pub open spec fn absolute(parts: Seq<Seq<char>>) -> Seq<char>
    decreases parts.len(),
{
    if parts.len() == 0 {
        Seq::empty()
    } else {
        absolute(parts.drop_last()) + seq!['/'] + parts.last()
    }
}

/// A directory and everything above it, from the top.
pub open spec fn ancestry(remote_dir: Seq<char>) -> Seq<Seq<char>> {
    let parts = segments(split_any(remote_dir, seq!['/']));
    Seq::new(parts.len(), |i: int| absolute(parts.take(i + 1)))
}

pub proof fn lemma_no_ancestry(remote_dir: Seq<char>)
    requires
        remote_dir.len() == 0,
    ensures
        ancestry(remote_dir) == Seq::<Seq<char>>::empty(),
{
    reveal_with_fuel(segments, 2);
    let parts = split_any(remote_dir, seq!['/']);
    assert(parts =~= seq![remote_dir]);
    assert(parts.drop_last() =~= Seq::empty());
    assert(ancestry(remote_dir) =~= Seq::empty());
}

/// The directories to make, in order, so that `remote_dir` exists: `mkdir -p`.
pub fn mkdirs(remote_dir: &str) -> (r: Result<Vec<String>, NetError>)
    ensures
        r is Ok <==> !has_low_byte(remote_dir@),
        r matches Ok(dirs) ==> texts(dirs@) == ancestry(remote_dir@),
        r matches Err(e) ==> e matches NetError::InvalidPath(m) && m@
            == "remote path contains a control character (CRLF/NUL injection guard)"@,
{
    match validate_ftp_path(remote_dir) {
        Err(e) => {
            return Err(e);
        },
        Ok(()) => {},
    }
    let chars: Vec<char> = chars_of(remote_dir);
    let separator: [char; 1] = ['/'];
    assert(separator@ =~= seq!['/']);
    let parts: Vec<Vec<char>> = split(&chars, separator.as_slice());
    let ghost all = split_any(remote_dir@, seq!['/']);
    let mut dirs: Vec<String> = Vec::new();
    let mut path: Vec<char> = Vec::new();
    let mut i: usize = 0;
    proof {
        assert(segments(all.take(0)) =~= Seq::empty());
        assert(path@ =~= absolute(segments(all.take(0))));
    }
    while i < parts.len()
        invariant
            i <= parts@.len(),
            views(parts@) == all,
            path@ == absolute(segments(all.take(i as int))),
            dirs@.len() == segments(all.take(i as int)).len(),
            forall|k: int|
                0 <= k < dirs@.len() ==> (#[trigger] dirs@[k])@ == absolute(
                    segments(all.take(i as int)).take(k + 1),
                ),
        decreases parts@.len() - i,
    {
        let ghost before = segments(all.take(i as int));
        let ghost after = segments(all.take(i + 1));
        let ghost made = dirs@;
        proof {
            assert(all.take(i + 1).drop_last() =~= all.take(i as int));
            assert(all.take(i + 1).last() == parts@[i as int]@);
        }
        if parts[i].len() > 0 {
            path.push('/');
            extend_chars(&mut path, &parts[i]);
            proof {
                assert(after =~= before.push(parts@[i as int]@));
                assert(after.drop_last() =~= before);
                assert(path@ =~= absolute(after));
            }
            dirs.push(string_of(&path));
            proof {
                assert forall|k: int| 0 <= k < dirs@.len() implies (#[trigger] dirs@[k])@
                    == absolute(after.take(k + 1)) by {
                    if k < made.len() {
                        assert(dirs@[k] == made[k]);
                        assert(after.take(k + 1) =~= before.take(k + 1));
                    } else {
                        assert(after.take(k + 1) =~= after);
                    }
                }
            }
        }
        i += 1;
    }
    assert(all.take(all.len() as int) =~= all);
    assert(texts(dirs@) =~= ancestry(remote_dir@));
    Ok(dirs)
}

/// Each directory is made inside the one that was made before it, and the first one in the root.
pub proof fn directories_are_made_from_the_top(remote_dir: Seq<char>, i: int)
    requires
        0 <= i < ancestry(remote_dir).len(),
    ensures
        ({
            let parts = segments(split_any(remote_dir, seq!['/']));
            ancestry(remote_dir)[i] == (if i == 0 {
                Seq::<char>::empty()
            } else {
                ancestry(remote_dir)[i - 1]
            }) + seq!['/'] + parts[i]
        }),
{
    let parts = segments(split_any(remote_dir, seq!['/']));
    assert(parts.take(i + 1).drop_last() =~= parts.take(i));
    assert(parts.take(i + 1).last() == parts[i]);
    assert(ancestry(remote_dir)[i] == absolute(parts.take(i + 1)));
    if i == 0 {
        assert(parts.take(0) =~= Seq::empty());
        assert(absolute(parts.take(0)) =~= Seq::empty());
    } else {
        assert(ancestry(remote_dir)[i - 1] == absolute(parts.take(i)));
    }
}

/// The length of the path that the parts make up, with a slash before each of them.
spec fn spelled_len(parts: Seq<Seq<char>>) -> nat
    decreases parts.len(),
{
    if parts.len() == 0 {
        0
    } else {
        spelled_len(parts.drop_last()) + 1 + parts.last().len()
    }
}

proof fn lemma_absolute_len(parts: Seq<Seq<char>>, n: int)
    requires
        0 <= n <= parts.len(),
    ensures
        absolute(parts.take(n)).len() == spelled_len(parts.take(n)),
        spelled_len(parts.take(n)) <= spelled_len(parts),
        n > 0 ==> absolute(parts.take(n)).len() > 0 && absolute(parts.take(n))[0] == '/',
    decreases parts.len(),
{
    assert(parts.take(parts.len() as int) =~= parts);
    if n == parts.len() {
        if n > 0 {
            let front = parts.drop_last();
            lemma_absolute_len(front, front.len() as int);
            assert(front.take(front.len() as int) =~= front);
        }
    } else {
        lemma_absolute_len(parts.drop_last(), n);
        assert(parts.drop_last().take(n) =~= parts.take(n));
    }
}

proof fn lemma_spelled_front(first: Seq<char>, rest: Seq<Seq<char>>)
    ensures
        spelled_len(seq![first] + rest) == 1 + first.len() + spelled_len(rest),
    decreases rest.len(),
{
    let all = seq![first] + rest;
    if rest.len() == 0 {
        assert(all.drop_last() =~= Seq::empty());
        assert(all.last() == first);
        assert(spelled_len(all.drop_last()) == 0);
    } else {
        assert(all.drop_last() =~= seq![first] + rest.drop_last());
        assert(all.last() == rest.last());
        lemma_spelled_front(first, rest.drop_last());
    }
}

proof fn lemma_split_len(s: Seq<char>)
    ensures
        spelled_len(split_any(s, seq!['/'])) == s.len() + 1,
    decreases s.len(),
{
    let i = first_of(s, seq!['/']);
    lemma_first_of_bounds(s, seq!['/']);
    if i < s.len() {
        lemma_split_len(s.skip(i + 1));
        lemma_spelled_front(s.take(i), split_any(s.skip(i + 1), seq!['/']));
    } else {
        lemma_spelled_front(s, Seq::empty());
        assert(seq![s] + Seq::<Seq<char>>::empty() =~= seq![s]);
    }
}

/// The components that are not empty spell no more than all of them, and less where the first one
/// is empty.
proof fn lemma_segments_len(parts: Seq<Seq<char>>)
    ensures
        spelled_len(segments(parts)) <= spelled_len(parts),
        parts.len() > 0 && parts[0].len() == 0 ==> spelled_len(segments(parts)) < spelled_len(
            parts,
        ),
    decreases parts.len(),
{
    if parts.len() > 0 {
        let front = parts.drop_last();
        lemma_segments_len(front);
        if parts.last().len() > 0 {
            let kept = segments(front).push(parts.last());
            assert(kept.drop_last() =~= segments(front));
            if parts[0].len() == 0 {
                assert(front[0] == parts[0]);
            }
        }
    }
}

/// The directories above a file do not have the path of the file.
pub proof fn lemma_ancestry_is_above(destination: Seq<char>, i: int)
    requires
        without_trailing_slashes(destination).len() > 0,
        0 <= i < ancestry(parent_of(without_trailing_slashes(destination))).len(),
    ensures
        ancestry(parent_of(without_trailing_slashes(destination)))[i] != destination,
{
    let path = without_trailing_slashes(destination);
    lemma_trailing_slashes(destination);
    lemma_last_slash_bounds(path);
    let parent = parent_of(path);
    let pieces = split_any(parent, seq!['/']);
    let parts = segments(pieces);
    let dir = ancestry(parent)[i];
    assert(dir == absolute(parts.take(i + 1)));
    lemma_absolute_len(parts, i + 1);
    lemma_segments_len(pieces);
    lemma_split_len(parent);
    if destination[0] == '/' {
        assert(path[0] == destination[0]);
        if parent.len() > 0 {
            assert(parent[0] == '/');
            assert(seq!['/'][0] == '/');
            assert(first_of(parent, seq!['/']) == 0);
            assert(pieces[0] =~= Seq::<char>::empty());
        }
    }
}

/// A single directory can be made at this path.
pub fn create_dir(path: &str) -> (r: Result<(), NetError>)
    ensures
        r is Ok <==> !has_low_byte(path@),
        r matches Err(e) ==> e matches NetError::InvalidPath(m) && m@
            == "remote path contains a control character (CRLF/NUL injection guard)"@,
{
    validate_ftp_path(path)
}

/// The answer to one `MKD`: reply 550 usually means that the directory exists and is tolerated, any
/// other failure stops the upload before the transfer starts.
pub fn after_make_dir(outcome: Result<(), FtpFailure>) -> (r: Result<(), NetError>)
    ensures
        r is Ok <==> (outcome matches Err(failure) ==> failure.answered(550)),
        r matches Err(e) ==> outcome is Err && e == NetError::Ftp(outcome->Err_0.text),
{
    match outcome {
        Ok(()) => Ok(()),
        Err(failure) => if failure.has_code(550) {
            Ok(())
        } else {
            Err(failure.into_error())
        },
    }
}

/// The directory at which a traversal starts: a blank path stands for the root.
pub open spec fn traversal_root(root_dir: Seq<char>) -> Seq<char> {
    if trimmed(root_dir).len() == 0 {
        "/"@
    } else {
        root_dir
    }
}

pub fn start_directory(root_dir: &str) -> (r: String)
    ensures
        r@ == traversal_root(root_dir@),
{
    let chars: Vec<char> = chars_of(root_dir);
    if trim(&chars).len() == 0 {
        "/".to_owned()
    } else {
        root_dir.to_owned()
    }
}

/// A path without the slashes and the `.` components at its end.
pub open spec fn tidy_end(s: Seq<char>) -> Seq<char>
    decreases s.len(),
{
    if s.len() > 1 && (s.last() == '/' || (s.last() == '.' && s[s.len() - 2] == '/')) {
        tidy_end(s.drop_last())
    } else {
        s
    }
}

proof fn lemma_tidy_end(s: Seq<char>)
    ensures
        tidy_end(s).len() <= s.len(),
        tidy_end(s) == s.take(tidy_end(s).len() as int),
    decreases s.len(),
{
    if s.len() > 1 && (s.last() == '/' || (s.last() == '.' && s[s.len() - 2] == '/')) {
        lemma_tidy_end(s.drop_last());
        let n = tidy_end(s).len() as int;
        assert(s.drop_last().take(n) =~= s.take(n));
    } else {
        assert(s.take(s.len() as int) =~= s);
    }
}

fn tidy(s: &[char]) -> (r: &[char])
    ensures
        r@ == tidy_end(s@),
{
    let mut n: usize = s.len();
    assert(s@.take(n as int) =~= s@);
    while n > 1 && (s[n - 1] == '/' || (s[n - 1] == '.' && s[n - 2] == '/'))
        invariant
            n <= s@.len(),
            tidy_end(s@.take(n as int)) == tidy_end(s@),
        decreases n,
    {
        assert(s@.take(n as int).drop_last() =~= s@.take(n - 1));
        n -= 1;
    }
    slice_subrange(s, 0, n)
}

/// The last component of a path, where it names something: not the root, `.` or `..`.
pub open spec fn file_name_of(path: Seq<char>) -> Option<Seq<char>> {
    let tidied = tidy_end(path);
    let name = tidied.skip(last_slash(tidied) + 1);
    if name.len() == 0 || name == "."@ || name == ".."@ {
        None
    } else {
        Some(name)
    }
}

/// The directory of the last component; the root where there is none.
pub open spec fn directory_of(path: Seq<char>) -> Seq<char> {
    let tidied = tidy_end(path);
    let at = last_slash(tidied);
    if at <= 0 {
        "/"@
    } else {
        tidy_end(tidied.take(at))
    }
}

/// Where to look for the metadata of a path.
#[derive(Debug, PartialEq, Eq)]
pub struct InspectTarget {
    pub directory: String,
    pub name: String,
}

/// Split a path into the directory to list and the name to look for in it. Both can be sent to the
/// server.
pub fn inspect(remote_path: &str) -> (r: Result<InspectTarget, NetError>)
    ensures
        r is Ok <==> !has_low_byte(remote_path@) && (file_name_of(remote_path@) matches Some(name)
            && safe_component(name)),
        r matches Ok(target) ==> file_name_of(remote_path@) == Some(target.name@)
            && target.directory@ == directory_of(remote_path@) && !has_low_byte(target.directory@),
        r matches Err(e) ==> (e matches NetError::InvalidPath(m) && (m@ == (if has_low_byte(
            remote_path@,
        ) {
            "remote path contains a control character (CRLF/NUL injection guard)"@
        } else if file_name_of(remote_path@) is None {
            "remote metadata path has no filename"@
        } else {
            "server returned an unsafe file name"@
        }))),
{
    match validate_ftp_path(remote_path) {
        Err(e) => {
            return Err(e);
        },
        Ok(()) => {},
    }
    let chars: Vec<char> = chars_of(remote_path);
    let path: &[char] = tidy(&chars);
    let at: usize = find_last_slash(path);
    proof {
        lemma_last_slash_bounds(path@);
    }
    let last: &[char] = slice_subrange(path, at, path.len());
    assert(last@ =~= path@.skip(at as int));
    if last.len() == 0 || is_word(last, ".") || is_word(last, "..") {
        return Err(NetError::InvalidPath("remote metadata path has no filename".to_owned()));
    }
    let name: String = string_of(last);
    match validate_remote_component(name.as_str()) {
        Err(e) => {
            return Err(e);
        },
        Ok(()) => {},
    }
    let directory: String = if at <= 1 {
        "/".to_owned()
    } else {
        string_of(tidy(slice_subrange(path, 0, at - 1)))
    };
    proof {
        lemma_tidy_end(remote_path@);
        if at <= 1 {
            reveal_strlit("/");
            lemma_low_bytes_are_low_chars(directory@);
        } else {
            let before = path@.take(at - 1);
            lemma_tidy_end(before);
            assert(directory@ == tidy_end(before));
            assert(directory@ =~= remote_path@.take(directory@.len() as int));
            lemma_low_bytes_of_prefix(remote_path@, directory@);
        }
    }
    Ok(InspectTarget { directory, name })
}

} // verus!
