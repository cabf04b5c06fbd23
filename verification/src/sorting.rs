//! Stable sorting of rows by a key, directories first.

use vstd::prelude::*;

use crate::lexical::{at_most, lemma_lex_total, lemma_lex_transitive, lex_le};

verus! {

/// What a row is sorted by.
pub enum SortValue {
    Number(i128),
    Text(Vec<char>),
}

pub struct RowKey {
    /// Rows that come after all rows without this mark; files come after directories.
    pub after: bool,
    pub value: SortValue,
}

pub open spec fn value_le(a: SortValue, b: SortValue) -> bool {
    match (a, b) {
        (SortValue::Number(x), SortValue::Number(y)) => x <= y,
        (SortValue::Text(x), SortValue::Text(y)) => lex_le(x@, y@),
        (SortValue::Number(_), SortValue::Text(_)) => true,
        (SortValue::Text(_), SortValue::Number(_)) => false,
    }
}

/// `a` may stand before `b`. The mark is never reversed, the value is when `descending`.
pub open spec fn row_le(a: RowKey, b: RowKey, descending: bool) -> bool {
    if a.after != b.after {
        b.after
    } else if descending {
        value_le(b.value, a.value)
    } else {
        value_le(a.value, b.value)
    }
}

/// Row `i` stands before row `j`: its key is smaller, or equal and the row came first.
pub open spec fn row_before(keys: Seq<RowKey>, descending: bool, i: int, j: int) -> bool {
    &&& row_le(keys[i], keys[j], descending)
    &&& row_le(keys[j], keys[i], descending) ==> i < j
}

/// `order` holds every row number once, in stably sorted order.
pub open spec fn is_stable_order(keys: Seq<RowKey>, descending: bool, order: Seq<usize>) -> bool {
    &&& order.len() == keys.len()
    &&& forall|i: int| 0 <= i < order.len() ==> (#[trigger] order[i]) < keys.len()
    &&& order.no_duplicates()
    &&& forall|i: int, j: int|
        0 <= i < j < order.len() ==> row_before(
            keys,
            descending,
            #[trigger] order[i] as int,
            #[trigger] order[j] as int,
        )
}

proof fn lemma_value_total(a: SortValue, b: SortValue)
    ensures
        value_le(a, b) || value_le(b, a),
{
    if let (SortValue::Text(x), SortValue::Text(y)) = (a, b) {
        lemma_lex_total(x@, y@);
    }
}

proof fn lemma_value_transitive(a: SortValue, b: SortValue, c: SortValue)
    requires
        value_le(a, b),
        value_le(b, c),
    ensures
        value_le(a, c),
{
    if let (SortValue::Text(x), SortValue::Text(y)) = (a, b) {
        if let SortValue::Text(z) = c {
            lemma_lex_transitive(x@, y@, z@);
        }
    }
}

pub proof fn lemma_row_total(a: RowKey, b: RowKey, descending: bool)
    ensures
        row_le(a, b, descending) || row_le(b, a, descending),
{
    lemma_value_total(a.value, b.value);
}

pub proof fn lemma_row_transitive(a: RowKey, b: RowKey, c: RowKey, descending: bool)
    requires
        row_le(a, b, descending),
        row_le(b, c, descending),
    ensures
        row_le(a, c, descending),
{
    if a.after == b.after && b.after == c.after {
        if descending {
            lemma_value_transitive(c.value, b.value, a.value);
        } else {
            lemma_value_transitive(a.value, b.value, c.value);
        }
    }
}

proof fn lemma_before_transitive(keys: Seq<RowKey>, descending: bool, i: int, j: int, k: int)
    requires
        row_before(keys, descending, i, j),
        row_before(keys, descending, j, k),
    ensures
        row_before(keys, descending, i, k),
{
    lemma_row_transitive(keys[i], keys[j], keys[k], descending);
    if row_le(keys[k], keys[i], descending) {
        lemma_row_transitive(keys[k], keys[i], keys[j], descending);
        lemma_row_transitive(keys[j], keys[k], keys[i], descending);
    }
}

fn value_at_most(a: &SortValue, b: &SortValue) -> (r: bool)
    ensures
        r == value_le(*a, *b),
{
    match (a, b) {
        (SortValue::Number(x), SortValue::Number(y)) => *x <= *y,
        (SortValue::Text(x), SortValue::Text(y)) => at_most(x, y),
        (SortValue::Number(_), SortValue::Text(_)) => true,
        (SortValue::Text(_), SortValue::Number(_)) => false,
    }
}

fn row_at_most(a: &RowKey, b: &RowKey, descending: bool) -> (r: bool)
    ensures
        r == row_le(*a, *b, descending),
{
    if a.after != b.after {
        b.after
    } else if descending {
        value_at_most(&b.value, &a.value)
    } else {
        value_at_most(&a.value, &b.value)
    }
}

/// The row numbers in `order` lie in a range and stand in sorted order.
spec fn sorted_rows(
    keys: Seq<RowKey>,
    descending: bool,
    order: Seq<usize>,
    from: int,
    to: int,
) -> bool {
    &&& forall|i: int| 0 <= i < order.len() ==> from <= #[trigger] order[i] < to
    &&& forall|i: int, j: int|
        0 <= i < j < order.len() ==> row_before(
            keys,
            descending,
            #[trigger] order[i] as int,
            #[trigger] order[j] as int,
        )
}

fn merge(
    keys: &Vec<RowKey>,
    descending: bool,
    left: &Vec<usize>,
    right: &Vec<usize>,
    Ghost(from): Ghost<int>,
    Ghost(mid): Ghost<int>,
    Ghost(to): Ghost<int>,
) -> (r: Vec<usize>)
    requires
        0 <= from <= mid <= to <= keys@.len(),
        sorted_rows(keys@, descending, left@, from, mid),
        sorted_rows(keys@, descending, right@, mid, to),
        left@.len() + right@.len() <= usize::MAX,
    ensures
        r@.len() == left@.len() + right@.len(),
        sorted_rows(keys@, descending, r@, from, to),
{
    let mut out: Vec<usize> = Vec::new();
    let mut a: usize = 0;
    let mut b: usize = 0;
    while a < left.len() || b < right.len()
        invariant
            a <= left@.len(),
            b <= right@.len(),
            out@.len() == a + b,
            0 <= from <= mid <= to <= keys@.len(),
            sorted_rows(keys@, descending, left@, from, mid),
            sorted_rows(keys@, descending, right@, mid, to),
            sorted_rows(keys@, descending, out@, from, to),
            forall|i: int, j: int|
                0 <= i < out@.len() && a <= j < left@.len() ==> row_before(
                    keys@,
                    descending,
                    #[trigger] out@[i] as int,
                    #[trigger] left@[j] as int,
                ),
            forall|i: int, j: int|
                0 <= i < out@.len() && b <= j < right@.len() ==> row_before(
                    keys@,
                    descending,
                    #[trigger] out@[i] as int,
                    #[trigger] right@[j] as int,
                ),
        decreases left@.len() - a + right@.len() - b,
    {
        let take_left: bool = if a == left.len() {
            false
        } else if b == right.len() {
            true
        } else {
            row_at_most(&keys[left[a]], &keys[right[b]], descending)
        };
        let ghost before = out@;
        if take_left {
            let row: usize = left[a];
            proof {
                assert forall|j: int| b <= j < right@.len() implies row_before(
                    keys@,
                    descending,
                    row as int,
                    #[trigger] right@[j] as int,
                ) by {
                    assert(row_before(keys@, descending, row as int, right@[b as int] as int));
                    if j > b {
                        lemma_before_transitive(
                            keys@,
                            descending,
                            row as int,
                            right@[b as int] as int,
                            right@[j] as int,
                        );
                    }
                }
            }
            out.push(row);
            a += 1;
        } else {
            let row: usize = right[b];
            proof {
                assert forall|j: int| a <= j < left@.len() implies row_before(
                    keys@,
                    descending,
                    row as int,
                    #[trigger] left@[j] as int,
                ) by {
                    lemma_row_total(keys@[row as int], keys@[left@[a as int] as int], descending);
                    assert(row_before(keys@, descending, row as int, left@[a as int] as int));
                    if j > a {
                        lemma_before_transitive(
                            keys@,
                            descending,
                            row as int,
                            left@[a as int] as int,
                            left@[j] as int,
                        );
                    }
                }
            }
            out.push(row);
            b += 1;
        }
        assert(forall|i: int| 0 <= i < before.len() ==> out@[i] == before[i]);
    }
    out
}

fn sort_range(keys: &Vec<RowKey>, descending: bool, from: usize, to: usize) -> (r: Vec<usize>)
    requires
        from <= to <= keys@.len(),
    ensures
        r@.len() == to - from,
        sorted_rows(keys@, descending, r@, from as int, to as int),
    decreases to - from,
{
    if to - from <= 1 {
        let mut out: Vec<usize> = Vec::new();
        if from < to {
            out.push(from);
        }
        out
    } else {
        let mid: usize = from + (to - from) / 2;
        let left: Vec<usize> = sort_range(keys, descending, from, mid);
        let right: Vec<usize> = sort_range(keys, descending, mid, to);
        merge(
            keys,
            descending,
            &left,
            &right,
            Ghost(from as int),
            Ghost(mid as int),
            Ghost(to as int),
        )
    }
}

/// The row numbers in stably sorted order.
pub fn stable_order(keys: &Vec<RowKey>, descending: bool) -> (r: Vec<usize>)
    ensures
        is_stable_order(keys@, descending, r@),
{
    let out: Vec<usize> = sort_range(keys, descending, 0, keys.len());
    assert(out@.no_duplicates()) by {
        assert forall|i: int, j: int| 0 <= i < j < out@.len() implies out@[i] != out@[j] by {
            assert(row_before(keys@, descending, out@[i] as int, out@[j] as int));
        }
    }
    out
}

/// No two different orders of the same rows are stably sorted.
pub proof fn stable_order_is_unique(
    keys: Seq<RowKey>,
    descending: bool,
    a: Seq<usize>,
    b: Seq<usize>,
)
    requires
        is_stable_order(keys, descending, a),
        is_stable_order(keys, descending, b),
    ensures
        a == b,
{
    lemma_order_complete(keys.len(), a);
    lemma_order_complete(keys.len(), b);
    lemma_same_prefix(keys, descending, a, b, keys.len() as int);
    assert(a =~= b);
}

/// A stable order holds every row number.
pub proof fn lemma_order_complete(n: nat, order: Seq<usize>)
    requires
        order.len() == n,
        order.no_duplicates(),
        forall|i: int| 0 <= i < order.len() ==> (#[trigger] order[i]) < n,
    ensures
        forall|row: usize| row < n ==> order.contains(row),
{
    let seen: Set<int> = order.map_values(|x: usize| x as int).to_set();
    let all: Set<int> = vstd::set_lib::set_int_range(0, n as int);
    let rows = order.map_values(|x: usize| x as int);
    vstd::set_lib::lemma_int_range(0, n as int);
    assert(rows.no_duplicates());
    rows.unique_seq_to_set();
    assert(seen.subset_of(all)) by {
        assert forall|x: int| seen.contains(x) implies all.contains(x) by {
            let i = choose|i: int| 0 <= i < rows.len() && rows[i] == x;
            assert(order[i] < n);
        }
    }
    vstd::set_lib::lemma_subset_equality(seen, all);
    assert forall|row: usize| row < n implies order.contains(row) by {
        assert(all.contains(row as int));
        let i = choose|i: int| 0 <= i < rows.len() && rows[i] == row as int;
        assert(order[i] == row);
    }
}

proof fn lemma_same_prefix(
    keys: Seq<RowKey>,
    descending: bool,
    a: Seq<usize>,
    b: Seq<usize>,
    n: int,
)
    requires
        is_stable_order(keys, descending, a),
        is_stable_order(keys, descending, b),
        0 <= n <= keys.len(),
        forall|row: usize| row < keys.len() ==> a.contains(row),
        forall|row: usize| row < keys.len() ==> b.contains(row),
    ensures
        forall|i: int| 0 <= i < n ==> a[i] == b[i],
    decreases n,
{
    if n > 0 {
        lemma_same_prefix(keys, descending, a, b, n - 1);
        let x = a[n - 1];
        let y = b[n - 1];
        if x != y {
            let p = choose|p: int| 0 <= p < b.len() && b[p] == x;
            let q = choose|q: int| 0 <= q < a.len() && a[q] == y;
            assert(b.contains(x) && a.contains(y));
            if p < n - 1 {
                assert(a[p] == x);
            }
            if q < n - 1 {
                assert(b[q] == y);
            }
            assert(row_before(keys, descending, b[n - 1] as int, b[p] as int));
            assert(row_before(keys, descending, a[n - 1] as int, a[q] as int));
        }
    }
}

/// A row without the mark never follows a row with it.
pub proof fn marked_rows_come_last(
    keys: Seq<RowKey>,
    descending: bool,
    order: Seq<usize>,
    i: int,
    j: int,
)
    requires
        is_stable_order(keys, descending, order),
        0 <= i < j < order.len(),
        keys[order[i] as int].after,
    ensures
        keys[order[j] as int].after,
{
    assert(row_before(keys, descending, order[i] as int, order[j] as int));
}

} // verus!
