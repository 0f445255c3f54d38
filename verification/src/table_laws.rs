//! What holds of the process table for every snapshot, filter text and
//! sort order.

use crate::control::{key_char, lemma_active_key_twice, step, Key, SessionModel};
use crate::process::{ranks_at_or_before, record_matches, ProcessRecord, SortKey};
use crate::table::{all_rows, lemma_row_order_total, matching_rows, records_at, row_order,
    row_passes, table_rows};
use vstd::prelude::*;
use vstd::relations::sorted_by;

verus! {

/// A filter that every element passes leaves the sequence as it is.
proof fn lemma_filter_keeps_all(rows: Seq<usize>, passes: spec_fn(usize) -> bool)
    requires
        forall|k: int| 0 <= k < rows.len() ==> passes(#[trigger] rows[k]),
    ensures
        rows.filter(passes) == rows,
    decreases rows.len(),
{
    if rows.len() == 0 {
        rows.lemma_filter_len(passes);
        assert(rows.filter(passes) =~= rows);
    } else {
        let front = rows.drop_last();
        lemma_filter_keeps_all(front, passes);
        front.lemma_filter_push(rows.last(), passes);
        assert(front.push(rows.last()) =~= rows);
    }
}

/// The rows that pass a filter go strictly upwards and stay below `n`.
proof fn lemma_passing_rows_increase(n: nat, passes: spec_fn(usize) -> bool)
    requires
        n <= usize::MAX,
    ensures
        forall|a: int, b: int|
            0 <= a < b < all_rows(n).filter(passes).len() ==> all_rows(n).filter(passes)[a]
                < all_rows(n).filter(passes)[b],
        forall|a: int|
            0 <= a < all_rows(n).filter(passes).len() ==> {
                &&& (#[trigger] all_rows(n).filter(passes)[a]) < n
                &&& passes(all_rows(n).filter(passes)[a])
            },
        forall|row: usize| row < n && passes(row) ==> all_rows(n).filter(passes).contains(row),
    decreases n,
{
    if n == 0 {
        all_rows(0).lemma_filter_len(passes);
    } else {
        let m = (n - 1) as nat;
        lemma_passing_rows_increase(m, passes);
        let last = m as usize;
        assert(all_rows(n) =~= all_rows(m).push(last));
        all_rows(m).lemma_filter_push(last, passes);
        let before = all_rows(m).filter(passes);
        let now = all_rows(n).filter(passes);
        assert forall|row: usize| row < n && passes(row) implies now.contains(row) by {
            if row < m {
                assert(before.contains(row));
                let k = choose|k: int| 0 <= k < before.len() && before[k] == row;
                assert(now[k] == row);
            } else {
                assert(now[now.len() - 1] == row);
            }
        }
    }
}

/// What the filter keeps: the passing rows of the snapshot, each once, in
/// snapshot order. An empty filter text keeps every row.
pub proof fn lemma_matching_rows(processes: Seq<ProcessRecord>, filter_text: Seq<char>)
    requires
        processes.len() <= usize::MAX,
    ensures
        matching_rows(processes, filter_text).no_duplicates(),
        forall|a: int, b: int|
            0 <= a < b < matching_rows(processes, filter_text).len() ==> matching_rows(
                processes,
                filter_text,
            )[a] < matching_rows(processes, filter_text)[b],
        forall|row: usize|
            matching_rows(processes, filter_text).contains(row) <==> row < processes.len()
                && record_matches(processes[row as int], filter_text),
        filter_text.len() == 0 ==> matching_rows(processes, filter_text) == all_rows(
            processes.len(),
        ),
{
    let passes = row_passes(processes, filter_text);
    let kept = matching_rows(processes, filter_text);
    lemma_passing_rows_increase(processes.len(), passes);
    assert forall|row: usize| kept.contains(row) implies row < processes.len() && record_matches(
        processes[row as int],
        filter_text,
    ) by {
        let k = choose|k: int| 0 <= k < kept.len() && kept[k] == row;
        assert(passes(kept[k]));
    }
    assert forall|row: usize|
        row < processes.len() && record_matches(
            processes[row as int],
            filter_text,
        ) implies kept.contains(row) by {
        assert(passes(row));
    }
    if filter_text.len() == 0 {
        lemma_filter_keeps_all(all_rows(processes.len()), passes);
    }
}

/// Filtering is idempotent: the records that the filter kept all pass the
/// same filter again, so a second pass hands back the same list.
pub proof fn lemma_filter_idempotent(processes: Seq<ProcessRecord>, filter_text: Seq<char>)
    requires
        processes.len() <= usize::MAX,
    ensures
        ({
            let kept = records_at(processes, matching_rows(processes, filter_text));
            records_at(kept, matching_rows(kept, filter_text)) == kept
        }),
{
    let rows = matching_rows(processes, filter_text);
    let kept = records_at(processes, rows);
    lemma_matching_rows(processes, filter_text);
    let passes_again = row_passes(kept, filter_text);
    assert forall|k: int| 0 <= k < all_rows(kept.len()).len() implies passes_again(
        #[trigger] all_rows(kept.len())[k],
    ) by {
        assert(rows.contains(rows[k]));
        assert(kept[k] == processes[rows[k] as int]);
    }
    lemma_filter_keeps_all(all_rows(kept.len()), passes_again);
    assert(records_at(kept, all_rows(kept.len())) =~= kept);
}

/// Turning a sequence of rows round twice restores it.
pub proof fn lemma_reverse_twice(rows: Seq<usize>)
    ensures
        rows.reverse().reverse() == rows,
{
    assert(rows.reverse().reverse() =~= rows);
}

/// The reversed table is the table turned round, and turning it round
/// once more gives the table in its first order again.
pub proof fn lemma_table_reverse(
    processes: Seq<ProcessRecord>,
    filter_text: Seq<char>,
    key: SortKey,
)
    ensures
        table_rows(processes, filter_text, key, true) == table_rows(
            processes,
            filter_text,
            key,
            false,
        ).reverse(),
        table_rows(processes, filter_text, key, true).reverse() == table_rows(
            processes,
            filter_text,
            key,
            false,
        ),
{
    lemma_reverse_twice(table_rows(processes, filter_text, key, false));
}

/// What the table holds: exactly the rows that pass the filter, each once;
/// in the forward direction no row stands before one that ranks before it,
/// and rows that tie under the key stay in snapshot order. The reversed
/// table holds the same rows.
pub proof fn lemma_table_rows(
    processes: Seq<ProcessRecord>,
    filter_text: Seq<char>,
    key: SortKey,
    reverse: bool,
)
    requires
        processes.len() <= usize::MAX,
    ensures
        table_rows(processes, filter_text, key, reverse).to_multiset() == matching_rows(
            processes,
            filter_text,
        ).to_multiset(),
        table_rows(processes, filter_text, key, reverse).len() == matching_rows(
            processes,
            filter_text,
        ).len(),
        table_rows(processes, filter_text, key, reverse).no_duplicates(),
        forall|row: usize|
            table_rows(processes, filter_text, key, reverse).contains(row) <==> row
                < processes.len() && record_matches(processes[row as int], filter_text),
        sorted_by(table_rows(processes, filter_text, key, false), row_order(processes, key)),
        forall|a: int, b: int|
            0 <= a < b < table_rows(processes, filter_text, key, false).len() && ranks_at_or_before(
                key,
                processes[table_rows(processes, filter_text, key, false)[b] as int],
                processes[table_rows(processes, filter_text, key, false)[a] as int],
            ) ==> table_rows(processes, filter_text, key, false)[a] < table_rows(
                processes,
                filter_text,
                key,
                false,
            )[b],
{
    broadcast use vstd::seq_lib::group_to_multiset_ensures;

    let ord = row_order(processes, key);
    let kept = matching_rows(processes, filter_text);
    let forward = table_rows(processes, filter_text, key, false);
    let shown = table_rows(processes, filter_text, key, reverse);
    lemma_row_order_total(processes, key);
    lemma_matching_rows(processes, filter_text);
    kept.lemma_sort_by_ensures(ord);
    forward.lemma_reverse_to_multiset();
    assert(shown.to_multiset() == kept.to_multiset());
    vstd::seq_lib::to_multiset_len(shown);
    vstd::seq_lib::to_multiset_len(kept);
    kept.lemma_multiset_has_no_duplicates();
    shown.lemma_multiset_has_no_duplicates_conv();
    assert forall|row: usize| shown.contains(row) <==> row < processes.len() && record_matches(
        processes[row as int],
        filter_text,
    ) by {
        assert(shown.contains(row) <==> shown.to_multiset().count(row) > 0);
        assert(kept.contains(row) <==> kept.to_multiset().count(row) > 0);
    }
    forward.lemma_multiset_has_no_duplicates_conv();
    assert forall|a: int, b: int|
        0 <= a < b < forward.len() && ranks_at_or_before(
            key,
            processes[forward[b] as int],
            processes[forward[a] as int],
        ) implies forward[a] < forward[b] by {
        assert(ord(forward[a], forward[b]));
    }
}

/// The table that a session asks for.
pub open spec fn table_of(processes: Seq<ProcessRecord>, s: SessionModel) -> Seq<usize> {
    table_rows(processes, s.view.filter_text, s.view.sort_key, s.view.sort_reverse)
}

/// Outside filter mode, pressing the character of the active sort key
/// turns the table of an unchanged snapshot round, and pressing it once
/// more gives the table as it was, row for row.
pub proof fn lemma_active_key_twice_restores_table(
    processes: Seq<ProcessRecord>,
    s: SessionModel,
    len: usize,
    page: usize,
)
    requires
        !s.view.filter_mode,
    ensures
        ({
            let press = Key::Char(key_char(s.view.sort_key));
            let once = step(s, press, len, page);
            let twice = step(once, press, len, page);
            &&& table_of(processes, once) == table_of(processes, s).reverse()
            &&& table_of(processes, twice) == table_of(processes, s)
        }),
{
    lemma_active_key_twice(s, len, page);
    lemma_table_reverse(processes, s.view.filter_text, s.view.sort_key);
}

} // verus!
