//! Local paths as texts, by the components that they name.

use vstd::prelude::*;

use crate::lexical::same;
use crate::pieces::{split, split_any, views};
use crate::text::chars_of;

verus! {

/// What a path names: slashes that repeat or stand at the end, and dots behind the first component,
/// make no difference.
pub ghost struct Components {
    pub absolute: bool,
    /// A relative path starts with a dot.
    pub dotted: bool,
    pub names: Seq<Seq<char>>,
}

/// A piece between two slashes that is a component of its own.
pub open spec fn is_component(piece: Seq<char>) -> bool {
    piece.len() > 0 && piece != seq!['.']
}

/// The components among the pieces.
pub open spec fn component_names(pieces: Seq<Seq<char>>) -> Seq<Seq<char>>
    decreases pieces.len(),
{
    if pieces.len() == 0 {
        pieces
    } else {
        let front = component_names(pieces.drop_last());
        if is_component(pieces.last()) {
            front.push(pieces.last())
        } else {
            front
        }
    }
}

pub open spec fn components(path: Seq<char>) -> Components {
    let pieces = split_any(path, seq!['/']);
    Components {
        absolute: path.len() > 0 && path[0] == '/',
        dotted: pieces[0] == seq!['.'],
        names: component_names(pieces),
    }
}

fn is_dot(piece: &[char]) -> (r: bool)
    ensures
        r == (piece@ == seq!['.']),
{
    let r: bool = piece.len() == 1 && piece[0] == '.';
    assert(r ==> piece@ =~= seq!['.']);
    r
}

fn names_among(pieces: &Vec<Vec<char>>) -> (r: Vec<&Vec<char>>)
    ensures
        r@.map_values(|name: &Vec<char>| name@) == component_names(views(pieces@)),
{
    let ghost all = views(pieces@);
    let mut names: Vec<&Vec<char>> = Vec::new();
    let mut i: usize = 0;
    assert(names@.map_values(|name: &Vec<char>| name@) =~= Seq::<Seq<char>>::empty());
    while i < pieces.len()
        invariant
            i <= pieces@.len(),
            all == views(pieces@),
            names@.map_values(|name: &Vec<char>| name@) == component_names(all.take(i as int)),
        decreases pieces@.len() - i,
    {
        assert(all.take(i + 1).drop_last() =~= all.take(i as int));
        assert(all.take(i + 1).last() == pieces@[i as int]@);
        let piece: &Vec<char> = &pieces[i];
        if piece.len() > 0 && !is_dot(piece) {
            let ghost before = names@;
            names.push(piece);
            assert(names@.map_values(|name: &Vec<char>| name@) =~= before.map_values(
                |name: &Vec<char>| name@,
            ).push(piece@));
        }
        i += 1;
    }
    assert(all.take(all.len() as int) =~= all);
    names
}

/// Two texts name the same path.
pub fn same_components(a: &str, b: &str) -> (r: bool)
    ensures
        r == (components(a@) == components(b@)),
{
    let slash: [char; 1] = ['/'];
    assert(slash@ =~= seq!['/']);
    let a_chars: Vec<char> = chars_of(a);
    let b_chars: Vec<char> = chars_of(b);
    let a_pieces: Vec<Vec<char>> = split(&a_chars, slash.as_slice());
    let b_pieces: Vec<Vec<char>> = split(&b_chars, slash.as_slice());
    assert(views(a_pieces@)[0] == a_pieces@[0]@);
    assert(views(b_pieces@)[0] == b_pieces@[0]@);
    let a_absolute: bool = a_chars.len() > 0 && a_chars[0] == '/';
    let b_absolute: bool = b_chars.len() > 0 && b_chars[0] == '/';
    if a_absolute != b_absolute || is_dot(&a_pieces[0]) != is_dot(&b_pieces[0]) {
        return false;
    }
    let a_names: Vec<&Vec<char>> = names_among(&a_pieces);
    let b_names: Vec<&Vec<char>> = names_among(&b_pieces);
    let ghost a_all = component_names(views(a_pieces@));
    let ghost b_all = component_names(views(b_pieces@));
    assert(a_all.len() == a_names@.len() && b_all.len() == b_names@.len());
    if a_names.len() != b_names.len() {
        return false;
    }
    let mut i: usize = 0;
    while i < a_names.len()
        invariant
            i <= a_names@.len() == b_names@.len(),
            a_all == a_names@.map_values(|name: &Vec<char>| name@),
            b_all == b_names@.map_values(|name: &Vec<char>| name@),
            a_all == components(a@).names,
            b_all == components(b@).names,
            forall|j: int| 0 <= j < i ==> #[trigger] a_all[j] == b_all[j],
        decreases a_names@.len() - i,
    {
        assert(a_all[i as int] == a_names@[i as int]@);
        assert(b_all[i as int] == b_names@[i as int]@);
        if !same(a_names[i], b_names[i]) {
            return false;
        }
        i += 1;
    }
    assert(a_all =~= b_all);
    true
}

} // verus!
