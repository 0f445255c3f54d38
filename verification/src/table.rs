//! The process table: which rows of a snapshot are shown, and in what order.
//!
//! A row is the position of a process in the snapshot's list. The table is
//! a sequence of rows; the records themselves stay where they are.

use crate::process::{lemma_ranking_is_total_preorder, matches_lowered, ranks_at_or_before,
    ranks_before, record_matches, ProcessRecord, SortKey};
use crate::text::{lowercase_chars, lowercase_of};
use vstd::multiset::Multiset;
use vstd::prelude::*;
use vstd::relations::{sorted_by, total_ordering};
use vstd::seq_lib::{lemma_multiset_commutative, lemma_sorted_unique, to_multiset_build};

verus! {

/// The rows `0, 1, ..` of a list of `n` processes.
pub open spec fn all_rows(n: nat) -> Seq<usize> {
    Seq::new(n, |i: int| i as usize)
}

/// The test that a row passes the filter text.
pub open spec fn row_passes(processes: Seq<ProcessRecord>, filter_text: Seq<char>) -> spec_fn(
    usize,
) -> bool {
    |row: usize| record_matches(processes[row as int], filter_text)
}

/// The rows that pass the filter text, in the order of the snapshot.
pub open spec fn matching_rows(processes: Seq<ProcessRecord>, filter_text: Seq<char>) -> Seq<
    usize,
> {
    all_rows(processes.len()).filter(row_passes(processes, filter_text))
}

/// Row `i` is listed at or before row `j`: its record ranks strictly
/// before the other under `key`, or the two tie and `i` is the earlier row.
pub open spec fn row_leq(processes: Seq<ProcessRecord>, key: SortKey, i: usize, j: usize) -> bool {
    let a = processes[i as int];
    let b = processes[j as int];
    ranks_at_or_before(key, a, b) && (ranks_at_or_before(key, b, a) ==> i <= j)
}

/// `row_leq` as a relation on rows.
pub open spec fn row_order(processes: Seq<ProcessRecord>, key: SortKey) -> spec_fn(
    usize,
    usize,
) -> bool {
    |i: usize, j: usize| row_leq(processes, key, i, j)
}

/// The rows of the table: those that pass the filter, ordered by the key
/// with ties left in snapshot order, and the whole turned round where
/// `reverse` is set.
pub open spec fn table_rows(
    processes: Seq<ProcessRecord>,
    filter_text: Seq<char>,
    key: SortKey,
    reverse: bool,
) -> Seq<usize> {
    let sorted = matching_rows(processes, filter_text).sort_by(row_order(processes, key));
    if reverse {
        sorted.reverse()
    } else {
        sorted
    }
}

/// The records that a sequence of rows stands for.
pub open spec fn records_at(processes: Seq<ProcessRecord>, rows: Seq<usize>) -> Seq<
    ProcessRecord,
> {
    rows.map_values(|row: usize| processes[row as int])
}

/// Every row of the sequence lies inside a list of `n` processes.
pub open spec fn rows_within(rows: Seq<usize>, n: nat) -> bool {
    forall|k: int| 0 <= k < rows.len() ==> #[trigger] rows[k] < n
}

/// The order of rows is total: any two rows compare, and only a row with
/// itself compares both ways.
pub proof fn lemma_row_order_total(processes: Seq<ProcessRecord>, key: SortKey)
    ensures
        total_ordering(row_order(processes, key)),
{
    let ord = row_order(processes, key);
    lemma_ranking_is_total_preorder(key);
    assert forall|i: usize| #[trigger] ord(i, i) by {
        assert(ranks_at_or_before(key, processes[i as int], processes[i as int]));
    }
    assert forall|i: usize, j: usize| #[trigger] ord(i, j) || #[trigger] ord(j, i) by {
        assert(ranks_at_or_before(key, processes[i as int], processes[j as int])
            || ranks_at_or_before(key, processes[j as int], processes[i as int]));
    }
    assert forall|i: usize, j: usize, k: usize| #[trigger]
        ord(i, j) && #[trigger] ord(j, k) implies ord(i, k) by {
        let a = processes[i as int];
        let b = processes[j as int];
        let c = processes[k as int];
        assert(ranks_at_or_before(key, a, b) && ranks_at_or_before(key, b, c));
        assert(ranks_at_or_before(key, a, c));
        if ranks_at_or_before(key, c, a) {
            assert(ranks_at_or_before(key, c, b));
            assert(ranks_at_or_before(key, b, a));
        }
    }
    assert forall|i: usize, j: usize| #[trigger] ord(i, j) && #[trigger] ord(j, i) implies i
        == j by {}
}

/// Decides `row_leq` for two rows of the list.
pub fn row_before(processes: &Vec<ProcessRecord>, key: SortKey, i: usize, j: usize) -> (r: bool)
    requires
        i < processes@.len(),
        j < processes@.len(),
    ensures
        r == row_order(processes@, key)(i, j),
{
    let a = &processes[i];
    let b = &processes[j];
    if !ranks_before(key, a, b) {
        false
    } else if !ranks_before(key, b, a) {
        true
    } else {
        i <= j
    }
}

/// The rows of the snapshot that pass the filter text, in snapshot order.
pub fn filter_rows(processes: &Vec<ProcessRecord>, filter_text: &str) -> (rows: Vec<usize>)
    ensures
        rows@ == matching_rows(processes@, filter_text@),
        rows_within(rows@, processes@.len()),
{
    let unfiltered: bool = filter_text.is_empty();
    let needle: Vec<char> = lowercase_chars(filter_text);
    let ghost passes = row_passes(processes@, filter_text@);
    let mut rows: Vec<usize> = Vec::new();
    let mut i: usize = 0;
    assert(all_rows(0).filter(passes) =~= Seq::<usize>::empty()) by {
        all_rows(0).lemma_filter_len(passes);
    }
    while i < processes.len()
        invariant
            i <= processes@.len(),
            unfiltered == (filter_text@.len() == 0),
            needle@ == lowercase_of(filter_text@),
            passes == row_passes(processes@, filter_text@),
            rows@ == all_rows(i as nat).filter(passes),
            rows_within(rows@, processes@.len()),
        decreases processes@.len() - i,
    {
        let keep: bool = if unfiltered {
            true
        } else {
            let name_lower: Vec<char> = lowercase_chars(processes[i].name.as_str());
            matches_lowered(processes[i].pid, &name_lower, &needle)
        };
        proof {
            assert(keep == passes(i));
            assert(all_rows((i + 1) as nat) =~= all_rows(i as nat).push(i));
            all_rows(i as nat).lemma_filter_push(i, passes);
        }
        if keep {
            rows.push(i);
        }
        i = i + 1;
    }
    rows
}

/// Adding an element to a union of two multisets is adding it to either.
proof fn lemma_insert_into_union(l: Multiset<usize>, r: Multiset<usize>, x: usize)
    ensures
        l.add(r).insert(x) == l.insert(x).add(r),
        l.add(r).insert(x) == l.add(r.insert(x)),
{
    broadcast use vstd::multiset::group_multiset_axioms;

    assert(l.add(r).insert(x) =~= l.insert(x).add(r));
    assert(l.add(r).insert(x) =~= l.add(r.insert(x)));
}

/// Merges two ordered runs of rows into one ordered run.
fn merge_rows(
    processes: &Vec<ProcessRecord>,
    key: SortKey,
    left: &Vec<usize>,
    right: &Vec<usize>,
) -> (out: Vec<usize>)
    requires
        rows_within(left@, processes@.len()),
        rows_within(right@, processes@.len()),
        sorted_by(left@, row_order(processes@, key)),
        sorted_by(right@, row_order(processes@, key)),
    ensures
        rows_within(out@, processes@.len()),
        sorted_by(out@, row_order(processes@, key)),
        out@.to_multiset() == left@.to_multiset().add(right@.to_multiset()),
{
    let ghost ord = row_order(processes@, key);
    proof {
        lemma_row_order_total(processes@, key);
    }
    let mut out: Vec<usize> = Vec::new();
    let mut i: usize = 0;
    let mut j: usize = 0;
    assert(left@.take(0) =~= Seq::<usize>::empty());
    assert(right@.take(0) =~= Seq::<usize>::empty());
    proof {
        let none = Seq::<usize>::empty();
        assert(none + none =~= none);
        lemma_multiset_commutative(none, none);
    }
    while i < left.len() || j < right.len()
        invariant
            ord == row_order(processes@, key),
            total_ordering(ord),
            i <= left@.len(),
            j <= right@.len(),
            rows_within(left@, processes@.len()),
            rows_within(right@, processes@.len()),
            rows_within(out@, processes@.len()),
            sorted_by(left@, ord),
            sorted_by(right@, ord),
            sorted_by(out@, ord),
            out@.to_multiset() == left@.take(i as int).to_multiset().add(
                right@.take(j as int).to_multiset(),
            ),
            forall|k: int| 0 <= k < out@.len() && i < left@.len() ==> #[trigger] ord(out@[k], left@[i as int]),
            forall|k: int| 0 <= k < out@.len() && j < right@.len() ==> #[trigger] ord(out@[k], right@[j as int]),
        decreases left@.len() - i + right@.len() - j,
    {
        let take_left: bool = if j >= right.len() {
            true
        } else if i >= left.len() {
            false
        } else {
            row_before(processes, key, left[i], right[j])
        };
        let ghost before = out@;
        if take_left {
            let x: usize = left[i];
            out.push(x);
            proof {
                assert(left@.take(i + 1) =~= left@.take(i as int).push(x));
                assert(out@ == before.push(x));
                to_multiset_build(before, x);
                to_multiset_build(left@.take(i as int), x);
                lemma_insert_into_union(
                    left@.take(i as int).to_multiset(),
                    right@.take(j as int).to_multiset(),
                    x,
                );
                assert(out@.to_multiset() =~= left@.take(i + 1).to_multiset().add(
                    right@.take(j as int).to_multiset(),
                ));
                assert forall|k: int| 0 <= k < out@.len() && i + 1 < left@.len() implies #[trigger]
                    ord(out@[k], left@[i + 1]) by {
                    assert(ord(left@[i as int], left@[i + 1]));
                    if k < before.len() {
                        assert(ord(before[k], left@[i as int]));
                    }
                }
                assert forall|k: int| 0 <= k < out@.len() && j < right@.len() implies #[trigger]
                    ord(out@[k], right@[j as int]) by {
                    if k < before.len() {
                        assert(ord(before[k], right@[j as int]));
                    }
                }
                assert forall|a: int, b: int| 0 <= a < b < out@.len() implies #[trigger] ord(
                    out@[a],
                    out@[b],
                ) by {
                    if b < before.len() {
                        assert(ord(before[a], before[b]));
                    } else {
                        assert(ord(before[a], left@[i as int]));
                    }
                }
            }
            i = i + 1;
        } else {
            let y: usize = right[j];
            out.push(y);
            proof {
                assert(right@.take(j + 1) =~= right@.take(j as int).push(y));
                assert(out@ == before.push(y));
                to_multiset_build(before, y);
                to_multiset_build(right@.take(j as int), y);
                lemma_insert_into_union(
                    left@.take(i as int).to_multiset(),
                    right@.take(j as int).to_multiset(),
                    y,
                );
                assert(out@.to_multiset() =~= left@.take(i as int).to_multiset().add(
                    right@.take(j + 1).to_multiset(),
                ));
                if i < left@.len() {
                    assert(ord(left@[i as int], y) || ord(y, left@[i as int]));
                }
                assert forall|k: int| 0 <= k < out@.len() && j + 1 < right@.len() implies #[trigger]
                    ord(out@[k], right@[j + 1]) by {
                    assert(ord(right@[j as int], right@[j + 1]));
                    if k < before.len() {
                        assert(ord(before[k], right@[j as int]));
                    }
                }
                assert forall|k: int| 0 <= k < out@.len() && i < left@.len() implies #[trigger]
                    ord(out@[k], left@[i as int]) by {
                    if k < before.len() {
                        assert(ord(before[k], left@[i as int]));
                    }
                }
                assert forall|a: int, b: int| 0 <= a < b < out@.len() implies #[trigger] ord(
                    out@[a],
                    out@[b],
                ) by {
                    if b < before.len() {
                        assert(ord(before[a], before[b]));
                    } else {
                        assert(ord(before[a], right@[j as int]));
                    }
                }
            }
            j = j + 1;
        }
    }
    assert(left@.take(i as int) =~= left@);
    assert(right@.take(j as int) =~= right@);
    out
}

/// Orders the rows `rows[lo..hi]` by merging ordered halves.
fn sort_range(
    processes: &Vec<ProcessRecord>,
    key: SortKey,
    rows: &Vec<usize>,
    lo: usize,
    hi: usize,
) -> (out: Vec<usize>)
    requires
        lo <= hi <= rows@.len(),
        rows_within(rows@, processes@.len()),
    ensures
        rows_within(out@, processes@.len()),
        sorted_by(out@, row_order(processes@, key)),
        out@.to_multiset() == rows@.subrange(lo as int, hi as int).to_multiset(),
    decreases hi - lo,
{
    if hi - lo <= 1 {
        let mut out: Vec<usize> = Vec::new();
        if lo < hi {
            out.push(rows[lo]);
        }
        assert(out@ =~= rows@.subrange(lo as int, hi as int));
        out
    } else {
        let mid: usize = lo + (hi - lo) / 2;
        let left = sort_range(processes, key, rows, lo, mid);
        let right = sort_range(processes, key, rows, mid, hi);
        proof {
            let a = rows@.subrange(lo as int, mid as int);
            let b = rows@.subrange(mid as int, hi as int);
            assert(rows@.subrange(lo as int, hi as int) =~= a + b);
            lemma_multiset_commutative(a, b);
        }
        merge_rows(processes, key, &left, &right)
    }
}

/// Orders rows of the snapshot by the key. Rows whose records tie under the
/// key come out with the earlier row first.
pub fn sort_rows(processes: &Vec<ProcessRecord>, key: SortKey, rows: &Vec<usize>) -> (out: Vec<
    usize,
>)
    requires
        rows_within(rows@, processes@.len()),
    ensures
        out@ == rows@.sort_by(row_order(processes@, key)),
        rows_within(out@, processes@.len()),
{
    let out = sort_range(processes, key, rows, 0, rows.len());
    proof {
        let ord = row_order(processes@, key);
        lemma_row_order_total(processes@, key);
        assert(rows@.subrange(0, rows@.len() as int) =~= rows@);
        rows@.lemma_sort_by_ensures(ord);
        lemma_sorted_unique(out@, rows@.sort_by(ord), ord);
    }
    out
}

/// The same rows in the opposite order.
pub fn reverse_rows(rows: &Vec<usize>) -> (out: Vec<usize>)
    ensures
        out@ == rows@.reverse(),
{
    let n: usize = rows.len();
    let mut out: Vec<usize> = Vec::new();
    let mut k: usize = 0;
    while k < n
        invariant
            n == rows@.len(),
            k <= n,
            out@.len() == k,
            forall|t: int| 0 <= t < k ==> out@[t] == rows@[n - 1 - t],
        decreases n - k,
    {
        out.push(rows[n - 1 - k]);
        k = k + 1;
    }
    assert(out@ =~= rows@.reverse());
    out
}

/// The rows of the process table for a snapshot: the rows that pass the
/// filter text, ordered by the key, turned round where `reverse` is set.
pub fn compute_rows(
    processes: &Vec<ProcessRecord>,
    filter_text: &str,
    key: SortKey,
    reverse: bool,
) -> (rows: Vec<usize>)
    ensures
        rows@ == table_rows(processes@, filter_text@, key, reverse),
        rows_within(rows@, processes@.len()),
{
    let matching = filter_rows(processes, filter_text);
    let sorted = sort_rows(processes, key, &matching);
    if reverse {
        reverse_rows(&sorted)
    } else {
        sorted
    }
}

/// The records that a sequence of borrowed records points at.
pub open spec fn borrowed(records: Seq<&ProcessRecord>) -> Seq<ProcessRecord> {
    records.map_values(|record: &ProcessRecord| *record)
}

/// The records of the process table for a snapshot, in the order in which
/// the table lists them.
pub fn compute<'a>(
    processes: &'a Vec<ProcessRecord>,
    filter_text: &str,
    key: SortKey,
    reverse: bool,
) -> (records: Vec<&'a ProcessRecord>)
    ensures
        borrowed(records@) == records_at(
            processes@,
            table_rows(processes@, filter_text@, key, reverse),
        ),
{
    let rows = compute_rows(processes, filter_text, key, reverse);
    let mut records: Vec<&'a ProcessRecord> = Vec::new();
    let mut k: usize = 0;
    while k < rows.len()
        invariant
            k <= rows@.len(),
            rows_within(rows@, processes@.len()),
            records@.len() == k,
            forall|j: int| 0 <= j < k ==> *(#[trigger] records@[j]) == processes@[rows@[j] as int],
        decreases rows@.len() - k,
    {
        records.push(&processes[rows[k]]);
        k = k + 1;
    }
    assert(borrowed(records@) =~= records_at(processes@, rows@));
    records
}

} // verus!
