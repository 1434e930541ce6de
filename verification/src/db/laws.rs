//! What holds of the store's operations, proved over the model.
use vstd::prelude::*;
use crate::db::model::{
    IndexerStatsView,
    account_key,
    active_senders,
    count_chosen,
    distinct_keys,
    identifier_key,
    ids_ascending,
    largest_aggregate_id,
    matching,
    newest,
    older_than,
    position_of,
    sender_stats,
    survives,
    without_older,
    without_oldest_batch,
    AggregateView,
    RowView,
    StoreView,
};
use crate::message_types::GraphcastMessageView;

verus! {

/// Along ascending ids, the row at index `i` has an id of at least `i + 1`.
pub proof fn lemma_id_at_least_position(rows: Seq<RowView>, next_id: int, i: int)
    requires
        ids_ascending(rows, next_id),
        0 <= i < rows.len(),
    ensures
        rows[i].id >= i + 1,
    decreases i,
{
    if i > 0 {
        lemma_id_at_least_position(rows, next_id, i - 1);
    }
}

/// A store holds no more rows than there are ids.
pub proof fn lemma_row_count_fits(s: StoreView)
    requires
        s.well_formed(),
    ensures
        s.rows.len() < s.next_id <= i64::MAX,
{
    if s.rows.len() > 0 {
        lemma_id_at_least_position(s.rows, s.next_id, s.rows.len() - 1);
    }
}

/// Along ascending ids, an id names at most one row: the row at `i` is the one
/// that `position_of` finds for its id.
pub proof fn lemma_position_unique(rows: Seq<RowView>, next_id: int, i: int)
    requires
        ids_ascending(rows, next_id),
        0 <= i < rows.len(),
    ensures
        position_of(rows, rows[i].id) == Some(i),
{
    let j = position_of(rows, rows[i].id)->Some_0;
    if j < i {
        assert(rows[j].id < rows[i].id);
    } else if i < j {
        assert(rows[i].id < rows[j].id);
    }
}

/// Size-cap law, first half: with `n` no larger than the row count, exactly `n`
/// rows survive, each of them was there before, and every row that was deleted
/// has a smaller id than every row that survived. So the survivors are the rows
/// with the `n` largest ids.
pub proof fn lemma_retain_keeps_newest(s: StoreView, n: int)
    requires
        s.well_formed(),
        0 <= n <= s.rows.len(),
    ensures
        newest(s.rows, n).len() == n,
        newest(s.rows, n) == s.rows.skip(s.rows.len() - n),
        forall|k: int|
            0 <= k < n ==> (#[trigger] newest(s.rows, n)[k]) == s.rows[s.rows.len() - n + k],
        forall|d: int, k: int|
            0 <= d < s.rows.len() - n && 0 <= k < n ==> (#[trigger] s.rows[d]).id < (
            #[trigger] newest(s.rows, n)[k]).id,
{
    assert(newest(s.rows, n) =~= s.rows.skip(s.rows.len() - n));
}

/// Size-cap law, second half: with `n` no smaller than the row count, nothing is deleted.
pub proof fn lemma_retain_all_within_cap(s: StoreView, n: int)
    requires
        n >= s.rows.len(),
    ensures
        newest(s.rows, n) == s.rows,
        s.with_rows(newest(s.rows, n), s.next_id) == s,
{
}

/// What a batch leaves behind is part of the rows, in their order: ids still ascend.
pub proof fn lemma_batch_keeps_order(rows: Seq<RowView>, cutoff: int, limit: int, next_id: int)
    requires
        ids_ascending(rows, next_id),
    ensures
        ids_ascending(without_oldest_batch(rows, cutoff, limit), next_id),
        without_oldest_batch(rows, cutoff, limit).len() <= rows.len(),
        forall|k: int|
            0 <= k < without_oldest_batch(rows, cutoff, limit).len() ==> rows.contains(
                #[trigger] without_oldest_batch(rows, cutoff, limit)[k],
            ),
    decreases rows.len(),
{
    let out = without_oldest_batch(rows, cutoff, limit);
    if rows.len() == 0 || limit <= 0 {
    } else {
        let rest = rows.skip(1);
        assert forall|i: int| 0 <= i < rest.len() implies #[trigger] rest[i] == rows[i + 1] by {}
        assert(ids_ascending(rest, next_id)) by {
            assert forall|i: int| 0 <= i < rest.len() implies 1 <= (#[trigger] rest[i]).id
                < next_id by {
                assert(rest[i] == rows[i + 1]);
            }
            assert forall|i: int, j: int| 0 <= i < j < rest.len() implies (#[trigger] rest[i]).id
                < (#[trigger] rest[j]).id by {
                assert(rest[i] == rows[i + 1]);
                assert(rest[j] == rows[j + 1]);
            }
        }
        let sub = if older_than(rows[0], cutoff) {
            without_oldest_batch(rest, cutoff, limit - 1)
        } else {
            without_oldest_batch(rest, cutoff, limit)
        };
        if older_than(rows[0], cutoff) {
            lemma_batch_keeps_order(rest, cutoff, limit - 1, next_id);
        } else {
            lemma_batch_keeps_order(rest, cutoff, limit, next_id);
        }
        // every row of `sub` is a row of `rest`, hence a row of `rows` after the first
        assert forall|k: int| 0 <= k < sub.len() implies rows.contains(#[trigger] sub[k])
            && rows[0].id < sub[k].id by {
            assert(rest.contains(sub[k]));
            let j = choose|j: int| 0 <= j < rest.len() && rest[j] == sub[k];
            assert(rows[j + 1] == sub[k]);
        }
        if older_than(rows[0], cutoff) {
            assert(out == sub);
        } else {
            assert(out =~= seq![rows[0]] + sub);
            assert forall|k: int| 0 <= k < out.len() implies rows.contains(#[trigger] out[k]) by {
                if k == 0 {
                    assert(rows[0] == out[0]);
                } else {
                    assert(out[k] == sub[k - 1]);
                }
            }
            assert forall|i: int, j: int| 0 <= i < j < out.len() implies (#[trigger] out[i]).id < (
            #[trigger] out[j]).id by {
                assert(out[j] == sub[j - 1]);
                if i > 0 {
                    assert(out[i] == sub[i - 1]);
                }
            }
            assert forall|i: int| 0 <= i < out.len() implies 1 <= (#[trigger] out[i]).id
                < next_id by {
                if i > 0 {
                    assert(out[i] == sub[i - 1]);
                }
            }
        }
    }
}

/// A batch deletes only rows that retention deletes too: the rows that survive
/// retention are the same before and after it. And a batch that deleted fewer
/// rows than its limit has deleted all of them.
pub proof fn lemma_batch_towards_retention(rows: Seq<RowView>, cutoff: int, limit: int)
    ensures
        without_older(without_oldest_batch(rows, cutoff, limit), cutoff) == without_older(
            rows,
            cutoff,
        ),
        rows.len() - without_oldest_batch(rows, cutoff, limit).len() <= (if limit > 0 {
            limit
        } else {
            0
        }),
        rows.len() - without_oldest_batch(rows, cutoff, limit).len() < limit
            ==> without_oldest_batch(rows, cutoff, limit) == without_older(rows, cutoff),
    decreases rows.len(),
{
    broadcast use Seq::lemma_filter_prepend;

    let p = survives(cutoff);
    if rows.len() == 0 {
        reveal(Seq::filter);
        assert(rows.filter(p) =~= rows);
    } else if limit <= 0 {
    } else {
        let rest = rows.skip(1);
        assert(rows =~= seq![rows[0]] + rest);
        rest.lemma_filter_prepend(rows[0], p);
        if older_than(rows[0], cutoff) {
            lemma_batch_towards_retention(rest, cutoff, limit - 1);
            assert(rows.filter(p) =~= rest.filter(p));
        } else {
            lemma_batch_towards_retention(rest, cutoff, limit);
            let sub = without_oldest_batch(rest, cutoff, limit);
            sub.lemma_filter_prepend(rows[0], p);
            assert(rows.filter(p) =~= seq![rows[0]] + rest.filter(p));
        }
    }
}

/// Retention law: what survives holds no row older than the cutoff, so pruning
/// it again with the same cutoff deletes nothing.
pub proof fn lemma_prune_twice(rows: Seq<RowView>, cutoff: int)
    ensures
        without_older(without_older(rows, cutoff), cutoff) == without_older(rows, cutoff),
        forall|i: int|
            0 <= i < without_older(rows, cutoff).len() ==> !older_than(
                #[trigger] without_older(rows, cutoff)[i],
                cutoff,
            ),
{
    broadcast use vstd::seq_lib::group_filter_ensures;

    let p = survives(cutoff);
    let kept = rows.filter(p);
    assert forall|i: int| 0 <= i < kept.len() implies !older_than(#[trigger] kept[i], cutoff) by {
        assert(p(kept[i]));
    }
    lemma_filter_all(kept, cutoff);
}

/// Where no row is older than the cutoff, retention keeps every row.
pub proof fn lemma_filter_all(rows: Seq<RowView>, cutoff: int)
    requires
        forall|i: int| 0 <= i < rows.len() ==> !older_than(#[trigger] rows[i], cutoff),
    ensures
        without_older(rows, cutoff) == rows,
    decreases rows.len(),
{
    reveal(Seq::filter);
    let p = survives(cutoff);
    if rows.len() > 0 {
        lemma_filter_all(rows.drop_last(), cutoff);
        assert(p(rows.last()));
        assert(rows.drop_last().push(rows.last()) =~= rows);
    }
}

/// Retention law: a row survives exactly if it was there and is not older than
/// the cutoff, and the survivors keep their order.
pub proof fn lemma_prune_exact(rows: Seq<RowView>, cutoff: int)
    ensures
        forall|r: RowView|
            #[trigger] without_older(rows, cutoff).contains(r) <==> rows.contains(r)
                && !older_than(r, cutoff),
        without_older(rows, cutoff).len() <= rows.len(),
{
    broadcast use vstd::seq_lib::group_filter_ensures;

    let p = survives(cutoff);
    let kept = rows.filter(p);
    assert forall|r: RowView| #[trigger] kept.contains(r) <==> rows.contains(r) && !older_than(
        r,
        cutoff,
    ) by {
        if kept.contains(r) {
            let i = choose|i: int| 0 <= i < kept.len() && kept[i] == r;
            assert(p(kept[i]));
            rows.lemma_filter_contains_rev(p, r);
        }
        if rows.contains(r) && !older_than(r, cutoff) {
            let i = choose|i: int| 0 <= i < rows.len() && rows[i] == r;
            assert(p(rows[i]));
            assert(kept.contains(rows[i]));
        }
    }
}

/// What `distinct_keys` holds: no key twice, and exactly the keys of chosen rows.
pub proof fn lemma_distinct_keys(
    rows: Seq<RowView>,
    chosen: spec_fn(RowView) -> bool,
    key: spec_fn(RowView) -> Seq<char>,
)
    ensures
        distinct_keys(rows, chosen, key).no_duplicates(),
        distinct_keys(rows, chosen, key).len() <= rows.len(),
        forall|k: Seq<char>| #[trigger]
            distinct_keys(rows, chosen, key).contains(k) <==> exists|i: int|
                0 <= i < rows.len() && chosen(#[trigger] rows[i]) && key(rows[i]) == k,
    decreases rows.len(),
{
    let out = distinct_keys(rows, chosen, key);
    if rows.len() > 0 {
        let init = rows.drop_last();
        let before = distinct_keys(init, chosen, key);
        let row = rows.last();
        lemma_distinct_keys(init, chosen, key);
        assert forall|k: Seq<char>| #[trigger] out.contains(k) <==> exists|i: int|
            0 <= i < rows.len() && chosen(#[trigger] rows[i]) && key(rows[i]) == k by {
            if out.contains(k) {
                if before.contains(k) {
                    let i = choose|i: int|
                        0 <= i < init.len() && chosen(#[trigger] init[i]) && key(init[i]) == k;
                    assert(rows[i] == init[i]);
                } else {
                    let j = choose|j: int| 0 <= j < out.len() && out[j] == k;
                    assert(j == before.len());
                    assert(rows[rows.len() - 1] == row);
                }
            }
            if exists|i: int| 0 <= i < rows.len() && chosen(#[trigger] rows[i]) && key(rows[i]) == k {
                let i = choose|i: int|
                    0 <= i < rows.len() && chosen(#[trigger] rows[i]) && key(rows[i]) == k;
                if i < init.len() {
                    assert(init[i] == rows[i]);
                    assert(before.contains(k));
                    let j = choose|j: int| 0 <= j < before.len() && before[j] == k;
                    assert(out[j] == k);
                } else {
                    if before.contains(k) {
                        let j = choose|j: int| 0 <= j < before.len() && before[j] == k;
                        assert(out[j] == k);
                    } else {
                        assert(out[before.len() as int] == k);
                    }
                }
            }
        }
    }
}

/// The count of chosen rows lies between zero and the number of rows.
pub proof fn lemma_count_chosen_bounds(rows: Seq<RowView>, chosen: spec_fn(RowView) -> bool)
    ensures
        0 <= count_chosen(rows, chosen) <= rows.len(),
    decreases rows.len(),
{
    if rows.len() > 0 {
        lemma_count_chosen_bounds(rows.drop_last(), chosen);
    }
}

/// Round-trip law: a message that was inserted is found under the id it was
/// given, deleting that id gives it back and restores the rows that were there
/// before, and after that the id is no longer found.
pub proof fn lemma_insert_get_delete(s: StoreView, message: GraphcastMessageView)
    requires
        s.well_formed(),
        s.next_id < i64::MAX,
        message.nonce <= i64::MAX,
    ensures
        s.insert(message).well_formed(),
        s.insert(message).get(s.next_id) == Some(RowView { id: s.next_id, message }),
        s.insert(message).delete(s.next_id).rows == s.rows,
        s.insert(message).delete(s.next_id).well_formed(),
        s.insert(message).delete(s.next_id).get(s.next_id) is None,
{
    let id = s.next_id;
    let s1 = s.insert(message);
    let last = s.rows.len() as int;
    assert(s1.rows[last].id == id);
    assert(s1.well_formed()) by {
        assert forall|i: int| 0 <= i < s1.rows.len() implies 1 <= (#[trigger] s1.rows[i]).id
            < s1.next_id by {
            if i < last {
                assert(s1.rows[i] == s.rows[i]);
            }
        }
        assert forall|i: int, j: int| 0 <= i < j < s1.rows.len() implies (#[trigger] s1.rows[i]).id
            < (#[trigger] s1.rows[j]).id by {
            assert(s1.rows[i] == s.rows[i]);
            if j < last {
                assert(s1.rows[j] == s.rows[j]);
            }
        }
    }
    lemma_position_unique(s1.rows, s1.next_id, last);
    let s2 = s1.delete(id);
    assert(s2.rows =~= s.rows);
    assert(position_of(s2.rows, id) is None) by {
        if position_of(s2.rows, id) is Some {
            let i = position_of(s2.rows, id)->Some_0;
            assert(s.rows[i].id < s.next_id);
        }
    }
}

/// Strictness law: a sender whose every message carries exactly the time stamp
/// `from_ts` is not active after `from_ts`.
pub proof fn lemma_active_excludes_boundary(
    rows: Seq<RowView>,
    filter: Option<Seq<Seq<char>>>,
    from_ts: int,
    account: Seq<char>,
)
    requires
        forall|i: int|
            0 <= i < rows.len() && (#[trigger] rows[i]).message.graph_account == account
                ==> rows[i].message.nonce == from_ts,
    ensures
        !active_senders(rows, filter, from_ts).contains(account),
{
    lemma_distinct_keys(rows, matching(from_ts, filter, None), account_key());
}

/// Filter law: the senders reported under an allow-list are those reported
/// without one that are on the list.
pub proof fn lemma_active_filter_intersection(
    rows: Seq<RowView>,
    list: Seq<Seq<char>>,
    from_ts: int,
)
    ensures
        active_senders(rows, Some(list), from_ts).to_set() == active_senders(
            rows,
            None,
            from_ts,
        ).to_set().intersect(list.to_set()),
        active_senders(rows, Some(list), from_ts).no_duplicates(),
        active_senders(rows, None, from_ts).no_duplicates(),
{
    let with = active_senders(rows, Some(list), from_ts);
    let without = active_senders(rows, None, from_ts);
    let chosen_with = matching(from_ts, Some(list), None);
    let chosen_without = matching(from_ts, None, None);
    lemma_distinct_keys(rows, chosen_with, account_key());
    lemma_distinct_keys(rows, chosen_without, account_key());
    assert forall|a: Seq<char>| #[trigger]
        with.to_set().contains(a) <==> without.to_set().intersect(list.to_set()).contains(a) by {
        if with.contains(a) {
            let i = choose|i: int|
                0 <= i < rows.len() && chosen_with(#[trigger] rows[i]) && account_key()(rows[i])
                    == a;
            assert(chosen_without(rows[i]));
            assert(without.contains(a));
            assert(list.contains(a));
        }
        if without.contains(a) && list.contains(a) {
            let i = choose|i: int|
                0 <= i < rows.len() && chosen_without(#[trigger] rows[i]) && account_key()(rows[i])
                    == a;
            assert(chosen_with(rows[i]));
            assert(with.contains(a));
        }
    }
    assert(with.to_set() =~= without.to_set().intersect(list.to_set()));
}

/// Statistics law: a sender all of whose messages after `from_ts` name the same
/// identifier, and that has at least one such message, is reported with one
/// subgraph and with as many messages as it has rows after `from_ts`.
pub proof fn lemma_stats_single_identifier(
    rows: Seq<RowView>,
    account: Seq<char>,
    from_ts: int,
    identifier: Seq<char>,
)
    requires
        count_chosen(rows, matching(from_ts, None, Some(account))) >= 1,
        forall|i: int|
            0 <= i < rows.len() && matching(from_ts, None, Some(account))(#[trigger] rows[i])
                ==> rows[i].message.identifier == identifier,
    ensures
        sender_stats(rows, account, from_ts).subgraphs_count == 1,
        sender_stats(rows, account, from_ts).message_count == count_chosen(
            rows,
            matching(from_ts, None, Some(account)),
        ),
        distinct_keys(rows, matching(from_ts, None, Some(account)), identifier_key()) == seq![
            identifier,
        ],
{
    let chosen = matching(from_ts, None, Some(account));
    let ids = distinct_keys(rows, chosen, identifier_key());
    lemma_distinct_keys(rows, chosen, identifier_key());
    lemma_count_positive_has_row(rows, chosen);
    let w = choose|i: int| 0 <= i < rows.len() && chosen(#[trigger] rows[i]);
    assert(identifier_key()(rows[w]) == identifier);
    assert(ids.contains(identifier));
    assert forall|j: int| 0 <= j < ids.len() implies #[trigger] ids[j] == identifier by {
        assert(ids.contains(ids[j]));
        let i = choose|i: int|
            0 <= i < rows.len() && chosen(#[trigger] rows[i]) && identifier_key()(rows[i])
                == ids[j];
    }
    if ids.len() >= 2 {
        assert(ids[0] == ids[1]);
    }
    assert(ids =~= seq![identifier]);
}

/// Where the count of chosen rows is positive, some row is chosen.
pub proof fn lemma_count_positive_has_row(rows: Seq<RowView>, chosen: spec_fn(RowView) -> bool)
    requires
        count_chosen(rows, chosen) >= 1,
    ensures
        exists|i: int| 0 <= i < rows.len() && chosen(#[trigger] rows[i]),
    decreases rows.len(),
{
    if rows.len() > 0 {
        if chosen(rows.last()) {
            assert(chosen(rows[rows.len() - 1]));
        } else {
            lemma_count_positive_has_row(rows.drop_last(), chosen);
            let i = choose|i: int|
                0 <= i < rows.drop_last().len() && chosen(#[trigger] rows.drop_last()[i]);
            assert(rows[i] == rows.drop_last()[i]);
        }
    }
}

/// No snapshot has an id above the largest.
pub proof fn lemma_largest_aggregate_id(aggregates: Seq<AggregateView>)
    ensures
        forall|i: int|
            0 <= i < aggregates.len() ==> (#[trigger] aggregates[i]).id <= largest_aggregate_id(
                aggregates,
            ),
    decreases aggregates.len(),
{
    if aggregates.len() > 0 {
        let init = aggregates.drop_last();
        lemma_largest_aggregate_id(init);
        assert forall|i: int| 0 <= i < aggregates.len() implies (#[trigger] aggregates[i]).id
            <= largest_aggregate_id(aggregates) by {
            if i < init.len() {
                assert(init[i] == aggregates[i]);
            }
        }
    }
}

/// Taking snapshots leaves the rows and their id counter as they are.
pub proof fn lemma_insert_aggregates_keeps_rows(
    s: StoreView,
    created_at_ts: int,
    stats: Seq<IndexerStatsView>,
)
    ensures
        s.insert_aggregates(created_at_ts, stats).rows == s.rows,
        s.insert_aggregates(created_at_ts, stats).next_id == s.next_id,
    decreases stats.len(),
{
    if stats.len() > 0 {
        let next = if s.next_aggregate_id < i64::MAX {
            s.insert_aggregate(
                created_at_ts,
                stats[0].graph_account,
                stats[0].message_count,
                stats[0].subgraphs_count,
            )
        } else {
            s
        };
        lemma_insert_aggregates_keeps_rows(next, created_at_ts, stats.skip(1));
    }
}

/// Taking snapshots only appends: the snapshots that were there stay where
/// they are, unchanged.
pub proof fn lemma_insert_aggregates_appends(
    s: StoreView,
    created_at_ts: int,
    stats: Seq<IndexerStatsView>,
)
    ensures
        s.aggregates.len() <= s.insert_aggregates(created_at_ts, stats).aggregates.len(),
        forall|i: int|
            0 <= i < s.aggregates.len() ==> #[trigger] s.insert_aggregates(
                created_at_ts,
                stats,
            ).aggregates[i] == s.aggregates[i],
    decreases stats.len(),
{
    if stats.len() > 0 {
        let next = if s.next_aggregate_id < i64::MAX {
            s.insert_aggregate(
                created_at_ts,
                stats[0].graph_account,
                stats[0].message_count,
                stats[0].subgraphs_count,
            )
        } else {
            s
        };
        lemma_insert_aggregates_appends(next, created_at_ts, stats.skip(1));
        let done = s.insert_aggregates(created_at_ts, stats);
        assert forall|i: int| 0 <= i < s.aggregates.len() implies #[trigger] done.aggregates[i]
            == s.aggregates[i] by {
            assert(next.aggregates[i] == s.aggregates[i]);
        }
    }
}

/// Arrival order law: a message that is inserted becomes the last row, and
/// its id is larger than the id of every row that was there.
pub proof fn lemma_insert_is_newest(s: StoreView, message: GraphcastMessageView)
    requires
        s.well_formed(),
    ensures
        s.insert(message).rows.last() == (RowView { id: s.next_id, message }),
        s.insert(message).rows.drop_last() == s.rows,
        forall|i: int| 0 <= i < s.rows.len() ==> (#[trigger] s.rows[i]).id < s.next_id,
{
    assert(s.insert(message).rows.drop_last() =~= s.rows);
}

} // verus!
