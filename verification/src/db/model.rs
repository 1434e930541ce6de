//! The mathematical model of the store: what a store holds, and what each
//! operation makes of it.
use vstd::prelude::*;
use crate::db::resolver::{Aggregate, IndexerStats, MessageID, MessageStore, Row, StoreError};
use crate::message_types::GraphcastMessageView;

verus! {

/// Mathematical value of a [`Row`].
pub struct RowView {
    pub id: int,
    pub message: GraphcastMessageView,
}

/// Mathematical value of an [`IndexerStats`].
pub struct IndexerStatsView {
    pub graph_account: Seq<char>,
    pub message_count: int,
    pub subgraphs_count: int,
}

/// Mathematical value of an [`Aggregate`].
pub struct AggregateView {
    pub id: int,
    pub created_at_ts: int,
    pub graph_account: Seq<char>,
    pub message_count: int,
    pub subgraphs_count: int,
}

/// The views of a sequence of aggregates, in the same order.
pub open spec fn aggregates_view(aggregates: Seq<Aggregate>) -> Seq<AggregateView> {
    aggregates.map_values(|a: Aggregate| a@)
}

/// The views of a sequence of statistics, in the same order.
pub open spec fn stats_view(stats: Seq<IndexerStats>) -> Seq<IndexerStatsView> {
    stats.map_values(|s: IndexerStats| s@)
}

/// The views of a sequence of rows, in the same order.
pub open spec fn rows_view(rows: Seq<Row>) -> Seq<RowView> {
    rows.map_values(|r: Row| r@)
}

/// Ids grow strictly along `rows`, start at 1 or above, and stay below `next_id`.
pub open spec fn ids_ascending(rows: Seq<RowView>, next_id: int) -> bool {
    &&& forall|i: int| 0 <= i < rows.len() ==> 1 <= (#[trigger] rows[i]).id < next_id
    &&& forall|i: int, j: int|
        0 <= i < j < rows.len() ==> (#[trigger] rows[i]).id < (#[trigger] rows[j]).id
}

/// Every nonce along `rows` can be read as a signed 64-bit time stamp.
pub open spec fn nonces_fit(rows: Seq<RowView>) -> bool {
    forall|i: int| 0 <= i < rows.len() ==> (#[trigger] rows[i]).message.nonce <= i64::MAX
}

/// The ids of a list of ids, as numbers, in the same order.
pub open spec fn message_ids(ids: Seq<MessageID>) -> Seq<int> {
    ids.map_values(|m: MessageID| m.id as int)
}

/// Index of the row with id `id`, if there is one.
pub open spec fn position_of(rows: Seq<RowView>, id: int) -> Option<int> {
    if exists|i: int| 0 <= i < rows.len() && (#[trigger] rows[i]).id == id {
        Some(choose|i: int| 0 <= i < rows.len() && (#[trigger] rows[i]).id == id)
    } else {
        None
    }
}

/// Mathematical value of a [`MessageStore`].
pub struct StoreView {
    /// the stored rows, oldest first
    pub rows: Seq<RowView>,
    /// the id that the next insert will hand out
    pub next_id: int,
    /// the aggregate snapshots, oldest first
    pub aggregates: Seq<AggregateView>,
    /// the id that the next aggregate will get
    pub next_aggregate_id: int,
}

impl StoreView {
    /// The invariant of every store: ids ascend, the counter is ahead of
    /// them, and every row's nonce is a time stamp.
    pub open spec fn well_formed(self) -> bool {
        &&& 1 <= self.next_id <= i64::MAX
        &&& ids_ascending(self.rows, self.next_id)
        &&& nonces_fit(self.rows)
        &&& 1 <= self.next_aggregate_id <= i64::MAX
        &&& forall|i: int|
            0 <= i < self.aggregates.len() ==> 1 <= (#[trigger] self.aggregates[i]).id
                < self.next_aggregate_id
    }

    /// The store after a snapshot was appended under the next free aggregate id.
    pub open spec fn insert_aggregate(
        self,
        created_at_ts: int,
        graph_account: Seq<char>,
        message_count: int,
        subgraphs_count: int,
    ) -> StoreView {
        StoreView {
            aggregates: self.aggregates.push(
                AggregateView {
                    id: self.next_aggregate_id,
                    created_at_ts,
                    graph_account,
                    message_count,
                    subgraphs_count,
                },
            ),
            next_aggregate_id: self.next_aggregate_id + 1,
            ..self
        }
    }

    /// The store after all but the `n` newest rows were deleted.
    pub open spec fn retain(self, n: int) -> StoreView {
        self.with_rows(newest(self.rows, n), self.next_id)
    }

    /// The store after every row older than `cutoff` was deleted.
    pub open spec fn prune(self, cutoff: int) -> StoreView {
        self.with_rows(without_older(self.rows, cutoff), self.next_id)
    }

    /// The store after one snapshot per entry of `stats` was appended, in
    /// order, all taken at `created_at_ts`. Once the aggregate ids are used up
    /// the remaining entries are dropped.
    pub open spec fn insert_aggregates(
        self,
        created_at_ts: int,
        stats: Seq<IndexerStatsView>,
    ) -> StoreView
        decreases stats.len(),
    {
        if stats.len() == 0 {
            self
        } else {
            let next = if self.next_aggregate_id < i64::MAX {
                self.insert_aggregate(
                    created_at_ts,
                    stats[0].graph_account,
                    stats[0].message_count,
                    stats[0].subgraphs_count,
                )
            } else {
                self
            };
            next.insert_aggregates(created_at_ts, stats.skip(1))
        }
    }

    /// The store with other rows and another id counter, and the same aggregates.
    pub open spec fn with_rows(self, rows: Seq<RowView>, next_id: int) -> StoreView {
        StoreView { rows, next_id, ..self }
    }

    /// The store after `message` was appended under the next free id.
    pub open spec fn insert(self, message: GraphcastMessageView) -> StoreView {
        self.with_rows(self.rows.push(RowView { id: self.next_id, message }), self.next_id + 1)
    }

    /// The row with id `id`, if the store holds one.
    pub open spec fn get(self, id: int) -> Option<RowView> {
        match position_of(self.rows, id) {
            Some(i) => Some(self.rows[i]),
            None => None,
        }
    }

    /// The store without the row with id `id`.
    pub open spec fn delete(self, id: int) -> StoreView {
        match position_of(self.rows, id) {
            Some(i) => self.with_rows(self.rows.remove(i), self.next_id),
            None => self,
        }
    }
}

/// The `n` rows with the highest ids, or every row where there are no more than `n`.
pub open spec fn newest(rows: Seq<RowView>, n: int) -> Seq<RowView> {
    if n >= rows.len() {
        rows
    } else if n <= 0 {
        Seq::empty()
    } else {
        rows.skip(rows.len() - n)
    }
}

/// The row's time stamp, which is its nonce, lies strictly before `cutoff`.
pub open spec fn older_than(row: RowView, cutoff: int) -> bool {
    row.message.nonce < cutoff
}

/// The row's time stamp, which is its nonce, lies strictly after `from_ts`.
pub open spec fn newer_than(row: RowView, from_ts: int) -> bool {
    row.message.nonce > from_ts
}

/// The time before which rows fall out of a retention window of `retention`
/// minutes that ends at `now`.
pub open spec fn retention_cutoff(now: int, retention: int) -> int {
    now - retention * 60
}

/// The predicate "not older than `cutoff`", as a value.
pub open spec fn survives(cutoff: int) -> spec_fn(RowView) -> bool {
    |row: RowView| !older_than(row, cutoff)
}

/// The rows that retention keeps: those that are not older than `cutoff`.
pub open spec fn without_older(rows: Seq<RowView>, cutoff: int) -> Seq<RowView> {
    rows.filter(survives(cutoff))
}

/// `rows` without the first `limit` rows that are older than `cutoff`, or
/// without all such rows where there are fewer: what one batch leaves behind.
pub open spec fn without_oldest_batch(rows: Seq<RowView>, cutoff: int, limit: int) -> Seq<RowView>
    decreases rows.len(),
{
    if rows.len() == 0 || limit <= 0 {
        rows
    } else if older_than(rows[0], cutoff) {
        without_oldest_batch(rows.skip(1), cutoff, limit - 1)
    } else {
        seq![rows[0]] + without_oldest_batch(rows.skip(1), cutoff, limit)
    }
}

/// The views of a sequence of strings, in the same order.
pub open spec fn strings_view(strings: Seq<String>) -> Seq<Seq<char>> {
    strings.map_values(|s: String| s@)
}

/// The allow-list of a query as sequences of characters; `None` allows every sender.
pub open spec fn filter_view(indexers: Option<Vec<String>>) -> Option<Seq<Seq<char>>> {
    match indexers {
        Some(list) => Some(strings_view(list@)),
        None => None,
    }
}

/// Which rows a query looks at: those with a time stamp strictly after
/// `from_ts`, sent by an account on the allow-list `filter` (if there is one),
/// and sent by `account` (if one is named).
pub open spec fn matching(
    from_ts: int,
    filter: Option<Seq<Seq<char>>>,
    account: Option<Seq<char>>,
) -> spec_fn(RowView) -> bool {
    |row: RowView|
        {
            &&& newer_than(row, from_ts)
            &&& filter matches Some(list) ==> list.contains(row.message.graph_account)
            &&& account matches Some(a) ==> row.message.graph_account == a
        }
}

/// The sender of a row.
pub open spec fn account_key() -> spec_fn(RowView) -> Seq<char> {
    |row: RowView| row.message.graph_account
}

/// The identifier of a row.
pub open spec fn identifier_key() -> spec_fn(RowView) -> Seq<char> {
    |row: RowView| row.message.identifier
}

/// The keys of the chosen rows, each once, in the order in which they first occur.
pub open spec fn distinct_keys(
    rows: Seq<RowView>,
    chosen: spec_fn(RowView) -> bool,
    key: spec_fn(RowView) -> Seq<char>,
) -> Seq<Seq<char>>
    decreases rows.len(),
{
    if rows.len() == 0 {
        Seq::empty()
    } else {
        let before = distinct_keys(rows.drop_last(), chosen, key);
        let row = rows.last();
        if chosen(row) && !before.contains(key(row)) {
            before.push(key(row))
        } else {
            before
        }
    }
}

/// The number of chosen rows.
pub open spec fn count_chosen(rows: Seq<RowView>, chosen: spec_fn(RowView) -> bool) -> int
    decreases rows.len(),
{
    if rows.len() == 0 {
        0
    } else {
        count_chosen(rows.drop_last(), chosen) + (if chosen(rows.last()) {
            1int
        } else {
            0int
        })
    }
}

/// The senders with a message after `from_ts`, restricted to the allow-list
/// `filter` where one is given; each once, in order of first appearance.
pub open spec fn active_senders(
    rows: Seq<RowView>,
    filter: Option<Seq<Seq<char>>>,
    from_ts: int,
) -> Seq<Seq<char>> {
    distinct_keys(rows, matching(from_ts, filter, None), account_key())
}

/// The statistics of `account` over the rows after `from_ts`: how many of them
/// it sent, and how many distinct identifiers they name.
pub open spec fn sender_stats(rows: Seq<RowView>, account: Seq<char>, from_ts: int) -> IndexerStatsView {
    IndexerStatsView {
        graph_account: account,
        message_count: count_chosen(rows, matching(from_ts, None, Some(account))),
        subgraphs_count: distinct_keys(
            rows,
            matching(from_ts, None, Some(account)),
            identifier_key(),
        ).len() as int,
    }
}

/// The statistics of every active sender, in the order of [`active_senders`].
pub open spec fn indexer_stats(
    rows: Seq<RowView>,
    filter: Option<Seq<Seq<char>>>,
    from_ts: int,
) -> Seq<IndexerStatsView> {
    active_senders(rows, filter, from_ts).map_values(
        |account: Seq<char>| sender_stats(rows, account, from_ts),
    )
}

/// The distinct identifiers among the rows after `since_ts`.
pub open spec fn distinct_subgraphs(rows: Seq<RowView>, since_ts: int) -> Seq<Seq<char>> {
    distinct_keys(rows, matching(since_ts, None, None), identifier_key())
}

/// The predicate "taken strictly after `since_ts`", as a value.
pub open spec fn taken_after(since_ts: int) -> spec_fn(AggregateView) -> bool {
    |a: AggregateView| a.created_at_ts > since_ts
}

/// The ids of a sequence of rows, in the same order.
pub open spec fn ids_of(rows: Seq<RowView>) -> Seq<int> {
    rows.map_values(|r: RowView| r.id)
}

/// The id of the last row, or 0 where there is none.
pub open spec fn last_id(rows: Seq<RowView>) -> int {
    if rows.len() == 0 {
        0
    } else {
        rows.last().id
    }
}

/// The largest id among the snapshots, or 0 where there is none.
pub open spec fn largest_aggregate_id(aggregates: Seq<AggregateView>) -> int
    decreases aggregates.len(),
{
    if aggregates.len() == 0 {
        0
    } else {
        let before = largest_aggregate_id(aggregates.drop_last());
        if aggregates.last().id > before {
            aggregates.last().id
        } else {
            before
        }
    }
}

/// The rows and snapshots can be taken over as the contents of a store: the
/// ids of the rows ascend from 1 or above, every nonce is a time stamp, the
/// ids of the snapshots are 1 or above, and both kinds of id leave room for a
/// next one.
pub open spec fn restorable(rows: Seq<RowView>, aggregates: Seq<AggregateView>) -> bool {
    &&& ids_ascending(rows, i64::MAX as int)
    &&& nonces_fit(rows)
    &&& forall|i: int| 0 <= i < aggregates.len() ==> 1 <= (#[trigger] aggregates[i]).id < i64::MAX
}

/// What an insert of `message` into the store `s` gives: the refusal of a
/// nonce that is no time stamp, else the refusal of a store without ids left,
/// else the id that the new row gets.
pub open spec fn insert_outcome(s: StoreView, message: GraphcastMessageView) -> Result<
    i64,
    StoreError,
> {
    if message.nonce > i64::MAX {
        Err(StoreError::NonceOutOfRange)
    } else if s.next_id >= i64::MAX {
        Err(StoreError::IdsExhausted)
    } else {
        Ok(s.next_id as i64)
    }
}

} // verus!
