//! What a line of a listing says of one file.

use vstd::prelude::*;
use vstd::utf8::encode_utf8;

use crate::model::entry::{entry_views, sorted_entries, EntryView, RemoteEntry};
use crate::net::error::NetError;
use crate::net::ftp::entries::{
    gathered, line_meaning, line_named, listing_result, posix_metadata, reports, LineMeaning,
    ListedView,
};
use crate::net::search::words;
use crate::pieces::trimmed;
use crate::sorting::{is_stable_order, RowKey};

verus! {

/// The permissions of a line are those that its mode spells out: each of the nine bits stands for
/// the letter at its own place, from the owner's `r` down to the `x` of all others. The owner and the
/// group are the third and the fourth word.
pub proof fn permissions_are_spelled_out(line: Seq<char>)
    requires
        words(line).len() > 0,
        encode_utf8(words(line)[0]).len() >= 10,
        encode_utf8(words(line)[0])[0] == 45 || encode_utf8(words(line)[0])[0] == 100
            || encode_utf8(words(line)[0])[0] == 108,
    ensures
        ({
            let mode = encode_utf8(words(line)[0]);
            let (permissions, owner, group) = posix_metadata(line);
            &&& permissions matches Some(bits)
            &&& bits < 512
            &&& (bits / 256) % 2 == 1 <==> mode[1] == 'r' as u8
            &&& (bits / 128) % 2 == 1 <==> mode[2] == 'w' as u8
            &&& (bits / 64) % 2 == 1 <==> mode[3] == 'x' as u8 || mode[3] == 's' as u8 || mode[3]
                == 't' as u8
            &&& (bits / 32) % 2 == 1 <==> mode[4] == 'r' as u8
            &&& (bits / 16) % 2 == 1 <==> mode[5] == 'w' as u8
            &&& (bits / 8) % 2 == 1 <==> mode[6] == 'x' as u8 || mode[6] == 's' as u8 || mode[6]
                == 't' as u8
            &&& (bits / 4) % 2 == 1 <==> mode[7] == 'r' as u8
            &&& (bits / 2) % 2 == 1 <==> mode[8] == 'w' as u8
            &&& bits % 2 == 1 <==> mode[9] == 'x' as u8 || mode[9] == 's' as u8 || mode[9]
                == 't' as u8
            &&& words(line).len() > 2 ==> owner == Some(words(line)[2])
            &&& words(line).len() <= 2 ==> owner is None
            &&& words(line).len() > 3 ==> group == Some(words(line)[3])
            &&& words(line).len() <= 3 ==> group is None
        }),
{
}

/// A line that does not begin with a mode says nothing of permissions, owner and group.
pub proof fn other_lines_say_nothing_of_permissions(line: Seq<char>)
    requires
        words(line).len() == 0 || encode_utf8(words(line)[0]).len() < 10 || (encode_utf8(
            words(line)[0],
        )[0] != 45 && encode_utf8(words(line)[0])[0] != 100 && encode_utf8(words(line)[0])[0] != 108),
    ensures
        posix_metadata(line).0 is None,
        posix_metadata(line).1 is None,
        posix_metadata(line).2 is None,
{
}

/// An entry has its name, kind, size and time from what was read out of the line, and the rest from
/// the line itself. Neither the folder itself nor the one above it is an entry, and a name that could
/// lead elsewhere is refused.
pub proof fn entries_hold_what_was_read(
    line: Seq<char>,
    file: ListedView,
    r: Result<Option<RemoteEntry>, NetError>,
)
    requires
        reports(r, line_meaning(line, Some(file))),
    ensures
        trimmed(line).len() == 0 || file.name == "."@ || file.name == ".."@ ==> r
            == Ok::<Option<RemoteEntry>, NetError>(None),
        trimmed(line).len() > 0 && file.name != "."@ && file.name != ".."@ && (file.name.len() == 0
            || file.name.contains('/')) ==> r is Err,
        r matches Ok(Some(entry)) ==> {
            &&& entry.name@ == file.name
            &&& entry.is_dir == file.is_dir
            &&& entry.size == file.size
            &&& entry.mtime == file.mtime
            &&& entry.permissions == posix_metadata(trimmed(line)).0
            &&& entry.owner matches Some(owner) ==> posix_metadata(trimmed(line)).1 == Some(owner@)
            &&& entry.owner is None ==> posix_metadata(trimmed(line)).1 is None
            &&& entry.group matches Some(group) ==> posix_metadata(trimmed(line)).2 == Some(group@)
            &&& entry.group is None ==> posix_metadata(trimmed(line)).2 is None
            &&& !entry.name@.contains('/')
            &&& entry.name@ != "."@ && entry.name@ != ".."@
        },
{
}

/// A line that could not be read is no entry and no failure.
pub proof fn unreadable_lines_are_passed_over(line: Seq<char>, r: Result<Option<RemoteEntry>, NetError>)
    requires
        reports(r, line_meaning(line, None)),
    ensures
        r == Ok::<Option<RemoteEntry>, NetError>(None),
{
}

proof fn lemma_gathered(
    lines: Seq<Seq<char>>,
    parsed: Seq<Option<ListedView>>,
    found: Seq<EntryView>,
    limit: nat,
    i: int,
)
    requires
        parsed.len() == lines.len(),
        gathered(lines, parsed, found, limit) is Some,
        found.len() + lines.len() <= limit,
    ensures
        found.is_prefix_of(gathered(lines, parsed, found, limit)->0),
        0 <= i < lines.len() ==> !(line_meaning(lines[i], parsed[i]) is Unsafe),
        0 <= i < lines.len() ==> (line_meaning(lines[i], parsed[i]) matches LineMeaning::Entry(entry)
            ==> gathered(lines, parsed, found, limit)->0.contains(entry)),
    decreases lines.len(),
{
    if lines.len() > 0 {
        let all = gathered(lines, parsed, found, limit)->0;
        match line_meaning(lines[0], parsed[0]) {
            LineMeaning::Entry(entry) => {
                let next = found.push(entry);
                lemma_gathered(lines.skip(1), parsed.skip(1), next, limit, i - 1);
                assert(next[found.len() as int] == entry);
                assert(all[found.len() as int] == next[found.len() as int]);
                assert(found =~= all.take(found.len() as int)) by {
                    assert(next =~= all.take(next.len() as int));
                    assert forall|k: int| 0 <= k < found.len() implies found[k] == all[k] by {
                        assert(next[k] == all.take(next.len() as int)[k]);
                    }
                }
            },
            LineMeaning::Nothing => {
                lemma_gathered(lines.skip(1), parsed.skip(1), found, limit, i - 1);
            },
            LineMeaning::Unsafe => {},
        }
        if i > 0 && i < lines.len() {
            assert(lines.skip(1)[i - 1] == lines[i]);
            assert(parsed.skip(1)[i - 1] == parsed[i]);
        }
    }
}

/// A listing that is accepted holds an entry for every line that says one, and one unsafe name among
/// the lines refuses the listing as a whole. So far as the listing is no longer than what may be
/// kept of it.
pub proof fn listings_hold_every_entry(
    r: Result<Vec<RemoteEntry>, NetError>,
    lines: Seq<Seq<char>>,
    parsed: Seq<Option<ListedView>>,
    i: int,
)
    requires
        parsed.len() == lines.len(),
        lines.len() <= crate::net::ftp::listing::MAX_LISTING_ENTRIES,
        listing_result(r, lines, parsed),
        0 <= i < lines.len(),
    ensures
        line_meaning(lines[i], parsed[i]) is Unsafe ==> r is Err,
        line_meaning(lines[i], parsed[i]) matches LineMeaning::Entry(entry) ==> (r matches Ok(entries)
            ==> exists|k: int| 0 <= k < entries@.len() && (#[trigger] entries@[k])@ == entry),
{
    let limit = crate::net::ftp::listing::MAX_LISTING_ENTRIES as nat;
    if gathered(lines, parsed, Seq::empty(), limit) is Some {
        let all = gathered(lines, parsed, Seq::empty(), limit)->0;
        lemma_gathered(lines, parsed, Seq::empty(), limit, i);
        if let LineMeaning::Entry(entry) = line_meaning(lines[i], parsed[i]) {
            let sorted = r->Ok_0@;
            let unsorted = choose|unsorted: Seq<RemoteEntry>|
                entry_views(unsorted) == all && #[trigger] sorted_entries(unsorted, sorted);
            let n = choose|n: int| 0 <= n < all.len() && all[n] == entry;
            assert(unsorted[n]@ == all[n]) by {
                assert(entry_views(unsorted)[n] == unsorted[n]@);
            }
            assert(unsorted.len() == all.len());
            lemma_sorting_keeps(unsorted, sorted, n, limit);
        }
    }
}

proof fn lemma_sorting_keeps(
    entries: Seq<RemoteEntry>,
    sorted: Seq<RemoteEntry>,
    n: int,
    limit: nat,
)
    requires
        sorted_entries(entries, sorted),
        0 <= n < entries.len(),
    ensures
        exists|k: int| 0 <= k < sorted.len() && #[trigger] sorted[k] == entries[n],
{
    let (keys, order) = choose|keys: Seq<RowKey>, order: Seq<usize>| #[trigger]
        crate::model::entry::entry_keys(entries, keys) && #[trigger] is_stable_order(keys, false, order)
            && crate::model::entry::rearranged(entries, order, sorted);
    crate::sorting::lemma_order_complete(entries.len(), order);
    lemma_counts_fit(order, n);
    assert(order.contains(n as usize));
    let k = choose|k: int| 0 <= k < order.len() && order[k] == n as usize;
    assert(sorted[k] == entries[order[k] as int]);
}

/// As many different numbers as there are below a bound reach up to the bound.
proof fn lemma_counts_fit(order: Seq<usize>, n: int)
    requires
        order.no_duplicates(),
        forall|i: int| 0 <= i < order.len() ==> (#[trigger] order[i]) < order.len(),
        0 <= n < order.len(),
    ensures
        n <= usize::MAX,
{
    if n > usize::MAX {
        let numbers = order.map_values(|x: usize| x as int);
        assert(numbers.no_duplicates()) by {
            assert forall|a: int, b: int|
                0 <= a < numbers.len() && 0 <= b < numbers.len() && a != b implies numbers[a]
                != numbers[b] by {
                assert(order[a] != order[b]);
            }
        }
        numbers.unique_seq_to_set();
        let all = vstd::set_lib::set_int_range(0, usize::MAX + 1);
        vstd::set_lib::lemma_int_range(0, usize::MAX + 1);
        assert(numbers.to_set().subset_of(all)) by {
            assert forall|x: int| numbers.to_set().contains(x) implies all.contains(x) by {
                let a = choose|a: int| 0 <= a < numbers.len() && numbers[a] == x;
                assert(x == order[a] as int);
            }
        }
        vstd::set_lib::lemma_len_subset(numbers.to_set(), all);
    }
}

/// The line of a name is the first that was read with exactly this name, whichever stands after it.
pub proof fn the_first_line_of_a_name_counts(parsed: Seq<Option<ListedView>>, name: Seq<char>, from: int)
    requires
        0 <= from <= parsed.len(),
    ensures
        match line_named(parsed, name, from) {
            Some(i) => {
                &&& from <= i < parsed.len()
                &&& parsed[i] matches Some(file) && file.name == name
                &&& forall|k: int|
                    from <= k < i ==> !((#[trigger] parsed[k]) matches Some(file) && file.name == name)
            },
            None => forall|k: int|
                from <= k < parsed.len() ==> !((#[trigger] parsed[k]) matches Some(file) && file.name
                    == name),
        },
    decreases parsed.len() - from,
{
    if from < parsed.len() && !(parsed[from] matches Some(file) && file.name == name) {
        the_first_line_of_a_name_counts(parsed, name, from + 1);
    }
}

} // verus!
