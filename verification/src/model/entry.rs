//! One entry of a directory listing.

use vstd::prelude::*;

use super::connection::clone_text;
use crate::sorting::{is_stable_order, stable_order, RowKey, SortValue};
use crate::text::{chars_of, lowercase, text_of, to_lowercase};

verus! {

#[derive(Debug, PartialEq, Eq)]
pub struct RemoteEntry {
    pub name: String,
    pub is_dir: bool,
    /// Size in bytes (0 for directories).
    pub size: u64,
    /// Modification time as a Unix timestamp (seconds), if reported.
    pub mtime: Option<i64>,
    /// Unix permission bits, when exposed by the server listing.
    pub permissions: Option<u32>,
    /// Owner name or numeric uid, when exposed by the server listing.
    pub owner: Option<String>,
    /// Group name or numeric gid, when exposed by the server listing.
    pub group: Option<String>,
}

pub ghost struct EntryView {
    pub name: Seq<char>,
    pub is_dir: bool,
    pub size: u64,
    pub mtime: Option<i64>,
    pub permissions: Option<u32>,
    pub owner: Option<Seq<char>>,
    pub group: Option<Seq<char>>,
}

impl View for RemoteEntry {
    type V = EntryView;

    open spec fn view(&self) -> EntryView {
        EntryView {
            name: self.name@,
            is_dir: self.is_dir,
            size: self.size,
            mtime: self.mtime,
            permissions: self.permissions,
            owner: text_of(self.owner),
            group: text_of(self.group),
        }
    }
}

/// The views of a sequence of entries.
pub open spec fn entry_views(entries: Seq<RemoteEntry>) -> Seq<EntryView> {
    entries.map_values(|e: RemoteEntry| e@)
}

impl Clone for RemoteEntry {
    fn clone(&self) -> (r: Self)
        ensures
            r == *self,
    {
        RemoteEntry {
            name: self.name.clone(),
            is_dir: self.is_dir,
            size: self.size,
            mtime: self.mtime,
            permissions: self.permissions,
            owner: clone_text(&self.owner),
            group: clone_text(&self.group),
        }
    }
}

impl RemoteEntry {
    /// Sort key: directories first, then case-insensitive by name.
    pub fn sort_key(&self) -> (r: (bool, String))
        ensures
            r.0 == !self.is_dir,
            r.1@ == lowercase(self.name@),
    {
        (!self.is_dir, to_lowercase(self.name.as_str()))
    }
}

/// `key` is the sort key of `entry`.
pub open spec fn is_entry_key(entry: RemoteEntry, key: RowKey) -> bool {
    &&& key.after == !entry.is_dir
    &&& key.value matches SortValue::Text(t)
    &&& t@ == lowercase(entry.name@)
}

/// `keys` are the sort keys of `entries`.
pub open spec fn entry_keys(entries: Seq<RemoteEntry>, keys: Seq<RowKey>) -> bool {
    &&& keys.len() == entries.len()
    &&& forall|i: int|
        0 <= i < entries.len() ==> is_entry_key(entries[i], #[trigger] keys[i])
}

/// `sorted` holds the entries, rearranged by `order`.
pub open spec fn rearranged(
    entries: Seq<RemoteEntry>,
    order: Seq<usize>,
    sorted: Seq<RemoteEntry>,
) -> bool {
    &&& sorted.len() == order.len()
    &&& forall|i: int| 0 <= i < order.len() ==> #[trigger] sorted[i] == entries[order[i] as int]
}

/// `sorted` is the stable arrangement of the entries by their sort keys.
pub open spec fn sorted_entries(entries: Seq<RemoteEntry>, sorted: Seq<RemoteEntry>) -> bool {
    exists|keys: Seq<RowKey>, order: Seq<usize>| #[trigger]
        entry_keys(entries, keys) && #[trigger] is_stable_order(keys, false, order) && rearranged(
            entries,
            order,
            sorted,
        )
}

/// Put the entries in listing order: directories first, then by name without regard to case.
/// Entries with the same key keep their order.
pub fn sort_entries(entries: &mut Vec<RemoteEntry>)
    ensures
        sorted_entries(old(entries)@, final(entries)@),
{
    let ghost before = entries@;
    let mut keys: Vec<RowKey> = Vec::new();
    let mut i: usize = 0;
    while i < entries.len()
        invariant
            i <= entries@.len(),
            entries@ == before,
            keys@.len() == i,
            forall|j: int|
                0 <= j < i ==> is_entry_key(before[j], #[trigger] keys@[j]),
        decreases entries@.len() - i,
    {
        let key: (bool, String) = entries[i].sort_key();
        keys.push(RowKey { after: key.0, value: SortValue::Text(chars_of(key.1.as_str())) });
        i += 1;
    }
    assert(entry_keys(before, keys@));
    let order: Vec<usize> = stable_order(&keys, false);
    let mut sorted: Vec<RemoteEntry> = Vec::new();
    let mut k: usize = 0;
    while k < order.len()
        invariant
            k <= order@.len(),
            entries@ == before,
            is_stable_order(keys@, false, order@),
            keys@.len() == before.len(),
            sorted@.len() == k,
            forall|j: int| 0 <= j < k ==> #[trigger] sorted@[j] == before[order@[j] as int],
        decreases order@.len() - k,
    {
        sorted.push(entries[order[k]].clone());
        k += 1;
    }
    assert(rearranged(before, order@, sorted@));
    *entries = sorted;
}

/// In listing order no file stands before a directory.
pub proof fn directories_come_first(
    entries: Seq<RemoteEntry>,
    sorted: Seq<RemoteEntry>,
    i: int,
    j: int,
)
    requires
        sorted_entries(entries, sorted),
        0 <= i < j < sorted.len(),
        !sorted[i].is_dir,
    ensures
        !sorted[j].is_dir,
{
    let (keys, order) = choose|keys: Seq<RowKey>, order: Seq<usize>| #[trigger]
        entry_keys(entries, keys) && #[trigger] is_stable_order(keys, false, order) && rearranged(
            entries,
            order,
            sorted,
        );
    assert(sorted[i] == entries[order[i] as int]);
    assert(sorted[j] == entries[order[j] as int]);
    assert(keys[order[i] as int].after);
    crate::sorting::marked_rows_come_last(keys, false, order, i, j);
    assert(keys[order[j] as int].after);
}

} // verus!
