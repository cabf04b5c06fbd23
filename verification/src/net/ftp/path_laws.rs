//! Which directories are made for a path, and what the parts of a path are.

use vstd::prelude::*;

use crate::net::ftp::paths::{absolute, ancestry, joined_path, segments};
use crate::net::staging::{
    last_slash, lemma_last_slash, lemma_last_slash_bounds, name_of, parent_of, without_trailing_slashes,
};
use crate::pieces::{lemma_one_piece, split_any, split_at_separator};

verus! {

proof fn lemma_grown(up: Seq<char>, name: Seq<char>)
    requires
        !name.contains('/'),
    ensures
        split_any(up + seq!['/'] + name, seq!['/']) == split_any(up, seq!['/']).push(name),
{
    let slash = seq!['/'];
    assert(slash.contains('/')) by {
        assert(slash[0] == '/');
    }
    split_at_separator(up, '/', name, slash);
    assert forall|i: int| 0 <= i < name.len() implies !slash.contains(#[trigger] name[i]) by {
        assert(name.contains(name[i]));
    }
    lemma_one_piece(name, slash);
    assert(split_any(up, slash) + seq![name] =~= split_any(up, slash).push(name));
}

/// For the root, and for no path at all, nothing is made.
pub proof fn nothing_is_made_for_the_root()
    ensures
        ancestry(Seq::empty()).len() == 0,
        ancestry(seq!['/']).len() == 0,
{
    let none = Seq::<char>::empty();
    lemma_one_piece(none, seq!['/']);
    assert(segments(seq![none]).len() == 0) by {
        reveal_with_fuel(segments, 2);
        assert(seq![none].drop_last().len() == 0);
    }
    slashes_make_nothing(none);
    assert(none + seq!['/'] =~= seq!['/']);
}

/// A slash at the end changes nothing.
pub proof fn slashes_make_nothing(up: Seq<char>)
    ensures
        ancestry(up + seq!['/']) == ancestry(up),
{
    let none = Seq::<char>::empty();
    lemma_grown(up, none);
    assert(up + seq!['/'] + none =~= up + seq!['/']);
    let pieces = split_any(up, seq!['/']);
    assert(pieces.push(none).drop_last() =~= pieces);
    assert(segments(pieces.push(none)) == segments(pieces));
}

/// For one directory more, exactly that directory is made, after all those above it, and inside the
/// last of them.
pub proof fn one_more_directory_is_made_last(up: Seq<char>, name: Seq<char>)
    requires
        name.len() > 0,
        !name.contains('/'),
    ensures
        ancestry(up + seq!['/'] + name) == ancestry(up).push(
            (if ancestry(up).len() == 0 {
                Seq::<char>::empty()
            } else {
                ancestry(up).last()
            }) + seq!['/'] + name,
        ),
{
    lemma_grown(up, name);
    let pieces = split_any(up, seq!['/']);
    assert(pieces.push(name).drop_last() =~= pieces);
    let above = segments(pieces);
    let parts = above.push(name);
    assert(segments(pieces.push(name)) == parts);
    let grown = ancestry(up + seq!['/'] + name);
    let old_one = ancestry(up);
    assert forall|i: int| 0 <= i < above.len() implies #[trigger] grown[i] == old_one[i] by {
        assert(parts.take(i + 1) =~= above.take(i + 1));
    }
    assert(parts.take(parts.len() as int) =~= parts);
    assert(parts.drop_last() =~= above);
    assert(absolute(parts) == absolute(above) + seq!['/'] + name);
    if above.len() > 0 {
        assert(above.take(above.len() as int) =~= above);
        assert(old_one.last() == absolute(above));
    }
    assert(grown =~= old_one.push(absolute(parts)));
}

/// An absolute path below the root, without empty components and without a slash at its end.
pub open spec fn is_plain(dir: Seq<char>) -> bool {
    &&& dir.len() > 1
    &&& dir[0] == '/'
    &&& dir.last() != '/'
    &&& forall|i: int| 0 <= i < dir.len() - 1 && #[trigger] dir[i] == '/' ==> dir[i + 1] != '/'
}

/// The directories that are made for a path are the path itself, last, and every directory above
/// it but the root.
pub proof fn every_directory_on_the_way_is_made(dir: Seq<char>)
    requires
        is_plain(dir),
    ensures
        ancestry(dir).len() > 0,
        ancestry(dir).last() == dir,
        forall|p: int|
            0 < p < dir.len() && dir[p] == '/' ==> ancestry(dir).contains(#[trigger] dir.take(p)),
        forall|i: int|
            0 <= i < ancestry(dir).len() - 1 ==> parent_of(#[trigger] ancestry(dir)[i + 1])
                == ancestry(dir)[i],
        parent_of(ancestry(dir)[0]) == seq!['/'],
    decreases dir.len(),
{
    let k = last_slash(dir);
    lemma_last_slash_bounds(dir);
    assert(k >= 0) by {
        if k < 0 {
            assert(dir[0] != '/');
        }
    }
    assert(k < dir.len() - 1);
    let up = dir.take(k);
    let name = dir.skip(k + 1);
    assert(dir =~= up + seq!['/'] + name);
    assert(!name.contains('/')) by {
        if name.contains('/') {
            let i = choose|i: int| 0 <= i < name.len() && name[i] == '/';
            assert(dir[i + k + 1] == '/');
        }
    }
    one_more_directory_is_made_last(up, name);
    nothing_is_made_for_the_root();
    let all = ancestry(dir);
    if k == 0 {
        assert(up =~= Seq::<char>::empty());
        assert(all.last() =~= dir);
        assert(parent_of(dir) == seq!['/']);
    } else {
        assert(up[0] == '/');
        assert(dir[k - 1] != '/');
        assert(k > 1) by {
            if k == 1 {
                assert(dir[0] == '/' && dir[1] == '/');
            }
        }
        assert(up.last() == dir[k - 1]);
        assert forall|i: int| 0 <= i < up.len() - 1 && #[trigger] up[i] == '/' implies up[i + 1] != '/' by {
            assert(dir[i] == '/');
        }
        every_directory_on_the_way_is_made(up);
        let before = ancestry(up);
        assert(all.last() =~= dir);
        assert forall|p: int| 0 < p < dir.len() && dir[p] == '/' implies all.contains(
            #[trigger] dir.take(p),
        ) by {
            assert(p <= k);
            if p < k {
                assert(up[p] == '/');
                assert(up.take(p) =~= dir.take(p));
                assert(before.contains(up.take(p)));
                let n = choose|n: int| 0 <= n < before.len() && before[n] == up.take(p);
                assert(all[n] == before[n]);
            } else {
                assert(all[before.len() - 1] == before.last());
            }
        }
        assert forall|i: int| 0 <= i < all.len() - 1 implies parent_of(#[trigger] all[i + 1])
            == all[i] by {
            assert(all[i] == before[i]);
            if i + 1 < before.len() {
                assert(all[i + 1] == before[i + 1]);
            } else {
                assert(all[i + 1] == dir);
            }
        }
        assert(all[0] == before[0]);
    }
}

/// The folder and the name of a path make up the path again, and the name holds no slash.
pub proof fn folder_and_name_make_up_the_path(path: Seq<char>)
    ensures
        !name_of(path).contains('/'),
        last_slash(path) < 0 ==> parent_of(path).len() == 0 && name_of(path) == path,
        last_slash(path) == 0 ==> parent_of(path) == seq!['/'] && seq!['/'] + name_of(path) == path,
        last_slash(path) > 0 ==> parent_of(path) + seq!['/'] + name_of(path) == path,
{
    let k = last_slash(path);
    lemma_last_slash_bounds(path);
    let name = name_of(path);
    if name.contains('/') {
        let i = choose|i: int| 0 <= i < name.len() && name[i] == '/';
        assert(path[i + k + 1] == '/');
    }
    if k < 0 {
        assert(path.skip(0) =~= path);
    } else if k == 0 {
        assert(seq!['/'] + name =~= path);
    } else {
        assert(path.take(k) + seq!['/'] + name =~= path);
    }
}

/// An entry of a folder has that folder above it and keeps its name.
pub proof fn joined_paths_come_apart(dir: Seq<char>, name: Seq<char>)
    requires
        !name.contains('/'),
    ensures
        name_of(joined_path(dir, name)) == name,
        without_trailing_slashes(dir).len() > 0 ==> parent_of(joined_path(dir, name))
            == without_trailing_slashes(dir),
        without_trailing_slashes(dir).len() == 0 ==> joined_path(dir, name) == seq!['/'] + name
            && parent_of(joined_path(dir, name)) == seq!['/'],
{
    let bare = without_trailing_slashes(dir);
    let path = joined_path(dir, name);
    let n = bare.len() as int;
    assert forall|i: int| n < i < path.len() implies #[trigger] path[i] != '/' by {
        assert(path[i] == name[i - n - 1]);
        assert(name.contains(name[i - n - 1]));
    }
    assert(path[n] == '/');
    lemma_last_slash(path, n);
    assert(path.skip(n + 1) =~= name);
    assert(path.take(n) =~= bare);
    if n == 0 {
        assert(path =~= seq!['/'] + name);
    }
}

} // verus!
