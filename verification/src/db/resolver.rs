//! Operations of the message store.
//!
//! The store keeps its rows in arrival order. Ids are handed out by a counter
//! that only grows, so a row's position and its id order agree, and "newest"
//! always means "highest id". A row is never changed after it was inserted; it
//! can only be deleted.
use vstd::prelude::*;
use crate::clock::now_timestamp;
use crate::message_types::GraphcastMessage;
use crate::server::model::{shown_rows_view, GraphQLRow};
use crate::db::model::{
    account_key,
    active_senders,
    aggregates_view,
    count_chosen,
    distinct_keys,
    distinct_subgraphs,
    filter_view,
    identifier_key,
    ids_ascending,
    ids_of,
    message_ids,
    indexer_stats,
    insert_outcome,
    largest_aggregate_id,
    last_id,
    matching,
    newer_than,
    nonces_fit,
    newest,
    older_than,
    position_of,
    restorable,
    retention_cutoff,
    rows_view,
    sender_stats,
    stats_view,
    strings_view,
    taken_after,
    without_older,
    without_oldest_batch,
    AggregateView,
    IndexerStatsView,
    RowView,
    StoreView,
};
use crate::db::laws::{
    lemma_batch_keeps_order,
    lemma_batch_towards_retention,
    lemma_count_chosen_bounds,
    lemma_distinct_keys,
    lemma_id_at_least_position,
    lemma_largest_aggregate_id,
    lemma_position_unique,
};

verus! {

/// One stored envelope with the id the store gave it.
#[derive(Debug, PartialEq, Eq)]
pub struct Row {
    pub id: i64,
    pub message: GraphcastMessage,
}

impl View for Row {
    type V = RowView;

    open spec fn view(&self) -> RowView {
        RowView { id: self.id as int, message: self.message@ }
    }
}

impl Clone for Row {
    fn clone(&self) -> (r: Self)
        ensures
            r == *self,
    {
        Row { id: self.id, message: self.message.clone() }
    }
}

impl Row {
    pub fn get_id(&self) -> (id: i64)
        ensures
            id == self.id,
    {
        self.id
    }

    pub fn get_message(&self) -> (m: GraphcastMessage)
        ensures
            m == self.message,
    {
        self.message.clone()
    }
}

/// The id of a stored row, as a query for ids alone returns it.
#[derive(Clone, Copy, Debug, PartialEq, Eq)]
pub struct MessageID {
    pub id: i64,
}

/// What went wrong in a store operation.
#[derive(Clone, Copy, Debug, PartialEq, Eq, Structural)]
pub enum StoreError {
    /// No row has the id that was asked for.
    NotFound,
    /// The id counter has reached its last value; nothing more can be inserted.
    IdsExhausted,
    /// The message's nonce is beyond the signed 64-bit range of a time stamp.
    NonceOutOfRange,
}

impl StoreError {
    pub open spec fn spec_message(self) -> Seq<char> {
        match self {
            StoreError::NotFound => "no message with this id"@,
            StoreError::IdsExhausted => "the store has no id left"@,
            StoreError::NonceOutOfRange => "the nonce is no time stamp"@,
        }
    }

    /// The error as one line of text.
    pub fn message(&self) -> (r: &'static str)
        ensures
            r@ == self.spec_message(),
    {
        match self {
            StoreError::NotFound => "no message with this id",
            StoreError::IdsExhausted => "the store has no id left",
            StoreError::NonceOutOfRange => "the nonce is no time stamp",
        }
    }
}

/// Message statistics of one sender over a window of time.
#[derive(Debug, PartialEq, Eq)]
pub struct IndexerStats {
    pub graph_account: String,
    /// number of the sender's messages in the window
    pub message_count: i64,
    /// number of distinct identifiers among those messages
    pub subgraphs_count: i64,
}

impl View for IndexerStats {
    type V = IndexerStatsView;

    open spec fn view(&self) -> IndexerStatsView {
        IndexerStatsView {
            graph_account: self.graph_account@,
            message_count: self.message_count as int,
            subgraphs_count: self.subgraphs_count as int,
        }
    }
}

impl Clone for IndexerStats {
    fn clone(&self) -> (r: Self)
        ensures
            r == *self,
    {
        IndexerStats {
            graph_account: self.graph_account.clone(),
            message_count: self.message_count,
            subgraphs_count: self.subgraphs_count,
        }
    }
}

/// A snapshot of one sender's statistics, taken at `created_at_ts`.
#[derive(Debug, PartialEq, Eq)]
pub struct Aggregate {
    pub id: i64,
    /// when the snapshot was taken, in seconds since the epoch
    pub created_at_ts: i64,
    pub graph_account: String,
    pub message_count: i64,
    pub subgraphs_count: i64,
}

impl View for Aggregate {
    type V = AggregateView;

    open spec fn view(&self) -> AggregateView {
        AggregateView {
            id: self.id as int,
            created_at_ts: self.created_at_ts as int,
            graph_account: self.graph_account@,
            message_count: self.message_count as int,
            subgraphs_count: self.subgraphs_count as int,
        }
    }
}

impl Clone for Aggregate {
    fn clone(&self) -> (r: Self)
        ensures
            r == *self,
    {
        Aggregate {
            id: self.id,
            created_at_ts: self.created_at_ts,
            graph_account: self.graph_account.clone(),
            message_count: self.message_count,
            subgraphs_count: self.subgraphs_count,
        }
    }
}

/// The table of envelopes and the table of aggregates.
#[derive(Debug, PartialEq, Eq)]
pub struct MessageStore {
    rows: Vec<Row>,
    next_id: i64,
    aggregates: Vec<Aggregate>,
    next_aggregate_id: i64,
}

impl View for MessageStore {
    type V = StoreView;

    closed spec fn view(&self) -> StoreView {
        StoreView {
            rows: rows_view(self.rows@),
            next_id: self.next_id as int,
            aggregates: aggregates_view(self.aggregates@),
            next_aggregate_id: self.next_aggregate_id as int,
        }
    }
}

impl MessageStore {
    /// What holds of every store at all times.
    #[verifier::type_invariant]
    pub open spec fn inv(self) -> bool {
        self@.well_formed()
    }

    /// Moves the rows out and leaves the table empty, with the counter where it was.
    fn take_rows(&mut self) -> (rows: Vec<Row>)
        ensures
            rows_view(rows@) == old(self)@.rows,
            final(self)@ == old(self)@.with_rows(Seq::empty(), old(self)@.next_id),
            old(self)@.well_formed(),
    {
        proof {
            use_type_invariant(&*self);
        }
        let mut rows: Vec<Row> = Vec::new();
        assert(rows_view(rows@) =~= Seq::<RowView>::empty());
        assert(self@.well_formed());
        assert(self@.with_rows(rows_view(rows@), self@.next_id).well_formed());
        core::mem::swap(&mut rows, &mut self.rows);
        rows
    }

    /// Installs `rows` as the table and `next_id` as the counter of an emptied store.
    fn put_rows(&mut self, rows: Vec<Row>, next_id: i64)
        requires
            old(self)@.rows.len() == 0,
            1 <= next_id,
            ids_ascending(rows_view(rows@), next_id as int),
            nonces_fit(rows_view(rows@)),
        ensures
            final(self)@ == old(self)@.with_rows(rows_view(rows@), next_id as int),
            final(self)@.well_formed(),
    {
        proof {
            use_type_invariant(&*self);
        }
        let mut rows = rows;
        assert(rows_view(self.rows@) =~= Seq::<RowView>::empty());
        assert(self@.well_formed());
        assert(self@.with_rows(Seq::empty(), next_id as int).well_formed());
        self.next_id = next_id;
        assert(self@.with_rows(rows_view(rows@), next_id as int).well_formed());
        core::mem::swap(&mut rows, &mut self.rows);
    }

    /// Appends `aggregate`, whose id is the next free one, and advances the counter.
    fn push_aggregate(&mut self, aggregate: Aggregate)
        requires
            aggregate.id == old(self)@.next_aggregate_id,
            aggregate.id < i64::MAX,
        ensures
            final(self)@ == (StoreView {
                aggregates: old(self)@.aggregates.push(aggregate@),
                next_aggregate_id: old(self)@.next_aggregate_id + 1,
                ..old(self)@
            }),
            final(self)@.well_formed(),
    {
        proof {
            use_type_invariant(&*self);
        }
        let ghost before = self@;
        let id = aggregate.id;
        let mut aggregates: Vec<Aggregate> = Vec::new();
        assert(aggregates_view(aggregates@) =~= Seq::<AggregateView>::empty());
        assert(before.well_formed());
        assert((StoreView { aggregates: Seq::empty(), ..before }).well_formed());
        core::mem::swap(&mut aggregates, &mut self.aggregates);
        aggregates.push(aggregate);
        assert(aggregates_view(aggregates@) =~= before.aggregates.push(aggregate@));
        assert((StoreView { aggregates: Seq::empty(), next_aggregate_id: id + 1, ..before }).well_formed());
        self.next_aggregate_id = id + 1;
        assert((StoreView {
            aggregates: aggregates_view(aggregates@),
            next_aggregate_id: id + 1,
            ..before
        }).well_formed()) by {
            let after = aggregates_view(aggregates@);
            assert forall|i: int| 0 <= i < after.len() implies 1 <= (#[trigger] after[i]).id < id
                + 1 by {
                if i < before.aggregates.len() {
                    assert(after[i] == before.aggregates[i]);
                }
            }
        }
        core::mem::swap(&mut aggregates, &mut self.aggregates);
    }

    /// The id that the next row will get.
    pub fn next_id(&self) -> (id: i64)
        ensures
            id == self@.next_id,
            self@.well_formed(),
    {
        proof {
            use_type_invariant(self);
        }
        self.next_id
    }

    /// An empty store whose first row will get id 1.
    pub fn new() -> (store: MessageStore)
        ensures
            store@.rows.len() == 0,
            store@.next_id == 1,
            store@.aggregates.len() == 0,
            store@.next_aggregate_id == 1,
            store@.well_formed(),
    {
        let store = MessageStore {
            rows: Vec::new(),
            next_id: 1,
            aggregates: Vec::new(),
            next_aggregate_id: 1,
        };
        assert(store@.rows =~= Seq::<RowView>::empty());
        assert(store@.aggregates =~= Seq::<AggregateView>::empty());
        store
    }
}

/// Appends `message` as the newest row and returns the id it was given.
///
/// A message whose nonce cannot be read as a signed 64-bit time stamp is
/// refused, and so is every message once the id counter is used up. A refusal
/// leaves the store as it was.
pub fn add_message(store: &mut MessageStore, message: GraphcastMessage) -> (r: Result<
    i64,
    StoreError,
>)
    ensures
        old(store)@.well_formed(),
        final(store)@.well_formed(),
        r == insert_outcome(old(store)@, message@),
        r is Ok ==> final(store)@ == old(store)@.insert(message@),
        r is Err ==> final(store)@ == old(store)@,
{
    proof {
        use_type_invariant(&*store);
    }
    if message.nonce > i64::MAX as u64 {
        return Err(StoreError::NonceOutOfRange);
    }
    if store.next_id == i64::MAX {
        return Err(StoreError::IdsExhausted);
    }
    let id = store.next_id;
    let ghost before = store@;
    let mut rows = store.take_rows();
    rows.push(Row { id, message });
    proof {
        assert(rows_view(rows@) =~= before.insert(message@).rows);
    }
    store.put_rows(rows, id + 1);
    Ok(id)
}

/// Index of the row with id `id` in `rows`.
fn find_row(rows: &Vec<Row>, id: i64, Ghost(next_id): Ghost<int>) -> (r: Option<usize>)
    requires
        ids_ascending(rows_view(rows@), next_id),
    ensures
        r matches Some(i) ==> i < rows.len() && position_of(rows_view(rows@), id as int) == Some(
            i as int,
        ),
        r is None ==> position_of(rows_view(rows@), id as int) is None,
{
    let mut i: usize = 0;
    while i < rows.len()
        invariant
            i <= rows.len(),
            ids_ascending(rows_view(rows@), next_id),
            forall|j: int| 0 <= j < i ==> (#[trigger] rows_view(rows@)[j]).id != id,
        decreases rows.len() - i,
    {
        if rows[i].id == id {
            proof {
                lemma_position_unique(rows_view(rows@), next_id, i as int);
            }
            return Some(i);
        }
        i += 1;
    }
    None
}

/// A copy of `rows`, row for row.
fn clone_rows(rows: &Vec<Row>) -> (r: Vec<Row>)
    ensures
        r@ == rows@,
{
    let mut out: Vec<Row> = Vec::new();
    let mut i: usize = 0;
    while i < rows.len()
        invariant
            i <= rows.len(),
            out@ == rows@.take(i as int),
        decreases rows.len() - i,
    {
        out.push(rows[i].clone());
        proof {
            assert(out@ =~= rows@.take(i + 1));
        }
        i += 1;
    }
    proof {
        assert(out@ =~= rows@);
    }
    out
}

/// All rows, oldest first.
pub fn list_messages(store: &MessageStore) -> (r: Vec<Row>)
    ensures
        rows_view(r@) == store@.rows,
        store@.well_formed(),
{
    proof {
        use_type_invariant(store);
    }
    clone_rows(&store.rows)
}

/// The number of rows.
pub fn count_messages(store: &MessageStore) -> (r: i64)
    ensures
        r == store@.rows.len(),
        store@.well_formed(),
{
    proof {
        use_type_invariant(store);
        if store.rows@.len() > 0 {
            lemma_id_at_least_position(store@.rows, store@.next_id, store.rows@.len() - 1);
        }
    }
    store.rows.len() as i64
}

/// The row with id `id`.
pub fn message_by_id(store: &MessageStore, id: i64) -> (r: Result<Row, StoreError>)
    ensures
        store@.well_formed(),
        match store@.get(id as int) {
            Some(row) => r is Ok && r->Ok_0@ == row,
            None => r == Err::<Row, StoreError>(StoreError::NotFound),
        },
{
    proof {
        use_type_invariant(store);
    }
    match find_row(&store.rows, id, Ghost(store@.next_id)) {
        Some(i) => Ok(store.rows[i].clone()),
        None => Err(StoreError::NotFound),
    }
}

/// Removes the row with id `id` and returns it.
pub fn delete_message_by_id(store: &mut MessageStore, id: i64) -> (r: Result<Row, StoreError>)
    ensures
        old(store)@.well_formed(),
        final(store)@ == old(store)@.delete(id as int),
        final(store)@.well_formed(),
        match old(store)@.get(id as int) {
            Some(row) => r is Ok && r->Ok_0@ == row,
            None => r == Err::<Row, StoreError>(StoreError::NotFound),
        },
{
    let ghost before = store@;
    let next_id = store.next_id;
    let mut rows = store.take_rows();
    let found = find_row(&rows, id, Ghost(before.next_id));
    let r = match found {
        Some(i) => {
            let row = rows.remove(i);
            proof {
                assert(rows_view(rows@) =~= before.rows.remove(i as int));
            }
            Ok(row)
        },
        None => Err(StoreError::NotFound),
    };
    store.put_rows(rows, next_id);
    r
}

/// Removes every row and returns them, oldest first. The id counter keeps its value.
pub fn delete_message_all(store: &mut MessageStore) -> (r: Vec<Row>)
    ensures
        rows_view(r@) == old(store)@.rows,
        final(store)@ == old(store)@.with_rows(Seq::empty(), old(store)@.next_id),
        old(store)@.well_formed(),
        final(store)@.well_formed(),
{
    let next_id = store.next_id;
    let rows = store.take_rows();
    let empty: Vec<Row> = Vec::new();
    proof {
        assert(rows_view(empty@) =~= Seq::<RowView>::empty());
    }
    store.put_rows(empty, next_id);
    rows
}

/// Keeps the `max_storage` newest rows, deletes the others and returns how many
/// were deleted. Newest means highest id, not highest nonce.
pub fn retain_max_storage(store: &mut MessageStore, max_storage: usize) -> (deleted: i64)
    ensures
        final(store)@ == old(store)@.retain(max_storage as int),
        old(store)@.well_formed(),
        final(store)@.well_formed(),
        deleted == old(store)@.rows.len() - final(store)@.rows.len(),
        0 <= deleted,
{
    let ghost before = store@;
    let next_id = store.next_id;
    let mut rows = store.take_rows();
    proof {
        if rows@.len() > 0 {
            lemma_id_at_least_position(before.rows, before.next_id, rows@.len() - 1);
        }
    }
    if rows.len() <= max_storage {
        store.put_rows(rows, next_id);
        return 0;
    }
    let excess = rows.len() - max_storage;
    let kept = rows.split_off(excess);
    proof {
        assert(rows_view(kept@) =~= newest(before.rows, max_storage as int));
    }
    store.put_rows(kept, next_id);
    excess as i64
}

/// Whether the row's time stamp lies strictly before `cutoff`.
fn is_older(row: &Row, cutoff: i128) -> (r: bool)
    ensures
        r == older_than(row@, cutoff as int),
{
    (row.message.nonce as i128) < cutoff
}

/// Whether the row's time stamp lies strictly after `from_ts`.
fn is_newer(row: &Row, from_ts: i64) -> (r: bool)
    ensures
        r == newer_than(row@, from_ts as int),
{
    from_ts < 0 || row.message.nonce > from_ts as u64
}

/// One batch of pruning: copies `rows` without the first `batch_size` rows
/// that are older than `cutoff`, and counts the rows left out.
fn without_batch(rows: &Vec<Row>, cutoff: i128, batch_size: i64) -> (r: (Vec<Row>, i64))
    requires
        batch_size > 0,
    ensures
        rows_view(r.0@) == without_oldest_batch(
            rows_view(rows@),
            cutoff as int,
            batch_size as int,
        ),
        r.1 == rows.len() - r.0.len(),
        0 <= r.1 <= batch_size,
{
    let ghost all = rows_view(rows@);
    let mut out: Vec<Row> = Vec::new();
    let mut deleted: i64 = 0;
    let mut i: usize = 0;
    proof {
        assert(all.skip(0) =~= all);
        assert(rows_view(out@) + all =~= all);
    }
    while i < rows.len()
        invariant
            i <= rows.len(),
            all == rows_view(rows@),
            0 <= deleted <= batch_size,
            deleted == i - out.len(),
            rows_view(out@) + without_oldest_batch(
                all.skip(i as int),
                cutoff as int,
                batch_size - deleted,
            ) == without_oldest_batch(all, cutoff as int, batch_size as int),
        decreases rows.len() - i,
    {
        let ghost rest = all.skip(i as int);
        let ghost before = rows_view(out@);
        proof {
            assert(rest[0] == rows@[i as int]@);
            assert(rest.skip(1) =~= all.skip(i + 1));
        }
        if deleted < batch_size && is_older(&rows[i], cutoff) {
            deleted += 1;
        } else {
            out.push(rows[i].clone());
            proof {
                let tail = without_oldest_batch(
                    all.skip(i + 1),
                    cutoff as int,
                    batch_size - deleted,
                );
                assert(rows_view(out@) =~= before.push(rest[0]));
                if deleted == batch_size {
                    assert(tail == all.skip(i + 1));
                    assert(without_oldest_batch(rest, cutoff as int, 0) == rest);
                    assert(before.push(rest[0]) + tail =~= before + rest);
                } else {
                    assert(before.push(rest[0]) + tail =~= before + (seq![rest[0]] + tail));
                }
            }
        }
        i += 1;
    }
    proof {
        assert(all.skip(i as int) =~= Seq::<RowView>::empty());
        assert(rows_view(out@) + Seq::<RowView>::empty() =~= rows_view(out@));
    }
    (out, deleted)
}

/// Deletes every row whose time stamp is older than `retention` minutes before
/// `now` and returns how many were deleted.
///
/// The rows go in batches of `batch_size`, oldest id first, until a batch comes
/// back short.
pub fn prune_old_messages_at(
    store: &mut MessageStore,
    now: i64,
    retention: i32,
    batch_size: i64,
) -> (deleted: i64)
    requires
        batch_size > 0,
    ensures
        final(store)@ == old(store)@.prune(retention_cutoff(now as int, retention as int)),
        old(store)@.well_formed(),
        final(store)@.well_formed(),
        deleted == old(store)@.rows.len() - final(store)@.rows.len(),
        0 <= deleted,
{
    let cutoff: i128 = now as i128 - (retention as i128) * 60;
    let ghost before = store@;
    let next_id = store.next_id;
    let mut rows = store.take_rows();
    let mut total: i64 = 0;
    proof {
        if rows@.len() > 0 {
            lemma_id_at_least_position(before.rows, before.next_id, rows@.len() - 1);
        }
    }
    loop
        invariant
            batch_size > 0,
            before.well_formed(),
            next_id == before.next_id,
            cutoff == retention_cutoff(now as int, retention as int),
            ids_ascending(rows_view(rows@), before.next_id),
            nonces_fit(rows_view(rows@)),
            without_older(rows_view(rows@), cutoff as int) == without_older(
                before.rows,
                cutoff as int,
            ),
            before.rows.len() <= i64::MAX,
            total == before.rows.len() - rows.len(),
            0 <= total,
        ensures
            rows_view(rows@) == without_older(before.rows, cutoff as int),
            total == before.rows.len() - rows.len(),
            ids_ascending(rows_view(rows@), before.next_id),
            nonces_fit(rows_view(rows@)),
        decreases rows.len(),
    {
        let (kept, deleted) = without_batch(&rows, cutoff, batch_size);
        proof {
            let held = rows_view(rows@);
            let left = rows_view(kept@);
            lemma_batch_keeps_order(held, cutoff as int, batch_size as int, before.next_id);
            lemma_batch_towards_retention(held, cutoff as int, batch_size as int);
            assert forall|i: int| 0 <= i < left.len() implies (#[trigger] left[i]).message.nonce
                <= i64::MAX by {
                assert(held.contains(left[i]));
            }
        }
        rows = kept;
        total += deleted;
        if deleted < batch_size {
            break ;
        }
    }
    store.put_rows(rows, next_id);
    total
}

/// Deletes every row whose time stamp is older than `retention` minutes before
/// the present moment and returns how many were deleted.
///
/// The present moment is read from the clock once; whatever it says, the result
/// is that of [`prune_old_messages_at`] for that moment.
pub fn prune_old_messages(store: &mut MessageStore, retention: i32, batch_size: i64) -> (deleted:
    i64)
    requires
        batch_size > 0,
    ensures
        old(store)@.well_formed(),
        exists|now: i64|
            now >= 0 && final(store)@ == old(store)@.prune(
                #[trigger] retention_cutoff(now as int, retention as int),
            ),
        final(store)@.well_formed(),
        deleted == old(store)@.rows.len() - final(store)@.rows.len(),
{
    let now = now_timestamp();
    prune_old_messages_at(store, now, retention, batch_size)
}

/// Whether `list` holds a string equal to `s`.
pub fn contains_string(list: &Vec<String>, s: &String) -> (r: bool)
    ensures
        r == strings_view(list@).contains(s@),
{
    let mut i: usize = 0;
    while i < list.len()
        invariant
            i <= list.len(),
            forall|j: int| 0 <= j < i ==> (#[trigger] strings_view(list@)[j]) != s@,
        decreases list.len() - i,
    {
        if list[i] == *s {
            assert(strings_view(list@)[i as int] == s@);
            return true;
        }
        i += 1;
    }
    false
}

/// Marks the rows that `matching(from_ts, filter, account)` chooses.
fn mark_matching(
    rows: &Vec<Row>,
    from_ts: i64,
    filter: &Option<Vec<String>>,
    account: Option<&String>,
) -> (mask: Vec<bool>)
    ensures
        mask.len() == rows.len(),
        forall|i: int|
            0 <= i < rows.len() ==> #[trigger] mask[i] == matching(
                from_ts as int,
                filter_view(*filter),
                match account {
                    Some(a) => Some(a@),
                    None => None,
                },
            )(rows_view(rows@)[i]),
{
    let ghost chosen = matching(
        from_ts as int,
        filter_view(*filter),
        match account {
            Some(a) => Some(a@),
            None => None,
        },
    );
    let mut mask: Vec<bool> = Vec::new();
    let mut i: usize = 0;
    while i < rows.len()
        invariant
            i <= rows.len(),
            mask.len() == i,
            chosen == matching(
                from_ts as int,
                filter_view(*filter),
                match account {
                    Some(a) => Some(a@),
                    None => None,
                },
            ),
            forall|j: int| 0 <= j < i ==> #[trigger] mask[j] == chosen(rows_view(rows@)[j]),
        decreases rows.len() - i,
    {
        let row = &rows[i];
        let listed = match filter {
            Some(list) => contains_string(list, &row.message.graph_account),
            None => true,
        };
        let same = match account {
            Some(a) => row.message.graph_account == *a,
            None => true,
        };
        mask.push(is_newer(row, from_ts) && listed && same);
        i += 1;
    }
    mask
}

/// The keys of the marked rows, each once, in order of first appearance. The
/// key is the identifier where `by_identifier` is set, and the sender otherwise.
fn collect_distinct(
    rows: &Vec<Row>,
    mask: &Vec<bool>,
    by_identifier: bool,
    Ghost(chosen): Ghost<spec_fn(RowView) -> bool>,
) -> (r: Vec<String>)
    requires
        mask.len() == rows.len(),
        forall|i: int| 0 <= i < rows.len() ==> #[trigger] mask[i] == chosen(rows_view(rows@)[i]),
    ensures
        strings_view(r@) == distinct_keys(
            rows_view(rows@),
            chosen,
            if by_identifier {
                identifier_key()
            } else {
                account_key()
            },
        ),
{
    let ghost all = rows_view(rows@);
    let ghost key = if by_identifier {
        identifier_key()
    } else {
        account_key()
    };
    let mut out: Vec<String> = Vec::new();
    let mut i: usize = 0;
    proof {
        assert(all.take(0) =~= Seq::<RowView>::empty());
        assert(strings_view(out@) =~= Seq::<Seq<char>>::empty());
    }
    while i < rows.len()
        invariant
            i <= rows.len(),
            mask.len() == rows.len(),
            all == rows_view(rows@),
            key == (if by_identifier {
                identifier_key()
            } else {
                account_key()
            }),
            forall|j: int| 0 <= j < rows.len() ==> #[trigger] mask[j] == chosen(all[j]),
            strings_view(out@) == distinct_keys(all.take(i as int), chosen, key),
        decreases rows.len() - i,
    {
        let ghost before = strings_view(out@);
        proof {
            assert(all.take(i + 1).drop_last() =~= all.take(i as int));
            assert(all.take(i + 1).last() == all[i as int]);
        }
        if mask[i] {
            let value = if by_identifier {
                &rows[i].message.identifier
            } else {
                &rows[i].message.graph_account
            };
            assert(value@ == key(all[i as int]));
            if !contains_string(&out, value) {
                out.push(value.clone());
                proof {
                    assert(strings_view(out@) =~= before.push(value@));
                }
            }
        }
        i += 1;
    }
    proof {
        assert(all.take(i as int) =~= all);
    }
    out
}

/// The number of marked rows.
fn count_marked(
    rows: &Vec<Row>,
    mask: &Vec<bool>,
    Ghost(chosen): Ghost<spec_fn(RowView) -> bool>,
) -> (r: usize)
    requires
        mask.len() == rows.len(),
        forall|i: int| 0 <= i < rows.len() ==> #[trigger] mask[i] == chosen(rows_view(rows@)[i]),
    ensures
        r == count_chosen(rows_view(rows@), chosen),
{
    let ghost all = rows_view(rows@);
    let mut n: usize = 0;
    let mut i: usize = 0;
    proof {
        assert(all.take(0) =~= Seq::<RowView>::empty());
    }
    while i < rows.len()
        invariant
            i <= rows.len(),
            mask.len() == rows.len(),
            all == rows_view(rows@),
            forall|j: int| 0 <= j < rows.len() ==> #[trigger] mask[j] == chosen(all[j]),
            n == count_chosen(all.take(i as int), chosen),
            n <= i,
        decreases rows.len() - i,
    {
        proof {
            assert(all.take(i + 1).drop_last() =~= all.take(i as int));
            assert(all.take(i + 1).last() == all[i as int]);
        }
        if mask[i] {
            n += 1;
        }
        i += 1;
    }
    proof {
        assert(all.take(i as int) =~= all);
    }
    n
}

/// The senders that have a message with a time stamp strictly after
/// `from_timestamp`, each once, in order of first appearance. With an allow-list
/// only senders on it are reported.
pub fn list_active_indexers(
    store: &MessageStore,
    indexers: Option<Vec<String>>,
    from_timestamp: i64,
) -> (r: Vec<String>)
    ensures
        store@.well_formed(),
        strings_view(r@) == active_senders(
            store@.rows,
            filter_view(indexers),
            from_timestamp as int,
        ),
{
    let mask = mark_matching(&store.rows, from_timestamp, &indexers, None);
    proof {
        use_type_invariant(store);
    }
    collect_distinct(
        &store.rows,
        &mask,
        false,
        Ghost(matching(from_timestamp as int, filter_view(indexers), None)),
    )
}

/// For every sender that [`list_active_indexers`] reports, in the same order:
/// the number of its messages after `from_timestamp` and the number of distinct
/// identifiers among them.
pub fn get_indexer_stats(
    store: &MessageStore,
    indexers: Option<Vec<String>>,
    from_timestamp: i64,
) -> (r: Vec<IndexerStats>)
    ensures
        store@.well_formed(),
        stats_view(r@) == indexer_stats(store@.rows, filter_view(indexers), from_timestamp as int),
{
    proof {
        use_type_invariant(store);
        if store.rows@.len() > 0 {
            lemma_id_at_least_position(store@.rows, store@.next_id, store.rows@.len() - 1);
        }
    }
    let ghost rows = store@.rows;
    let ghost from_ts = from_timestamp as int;
    let senders = list_active_indexers(store, indexers, from_timestamp);
    let ghost accounts = strings_view(senders@);
    let mut stats: Vec<IndexerStats> = Vec::new();
    let mut i: usize = 0;
    let no_filter: Option<Vec<String>> = None;
    while i < senders.len()
        invariant
            i <= senders.len(),
            no_filter is None,
            rows == store@.rows,
            rows == rows_view(store.rows@),
            rows.len() <= i64::MAX,
            from_ts == from_timestamp as int,
            accounts == strings_view(senders@),
            stats.len() == i,
            forall|j: int|
                0 <= j < i ==> (#[trigger] stats_view(stats@)[j]) == sender_stats(
                    rows,
                    accounts[j],
                    from_ts,
                ),
        decreases senders.len() - i,
    {
        let account = &senders[i];
        let ghost chosen = matching(from_ts, None, Some(account@));
        let mask = mark_matching(&store.rows, from_timestamp, &no_filter, Some(account));
        let message_count = count_marked(&store.rows, &mask, Ghost(chosen));
        let identifiers = collect_distinct(&store.rows, &mask, true, Ghost(chosen));
        proof {
            lemma_distinct_keys(rows, chosen, identifier_key());
            lemma_count_chosen_bounds(rows, chosen);
            assert(strings_view(identifiers@).len() == identifiers@.len());
        }
        let ghost before = stats_view(stats@);
        stats.push(
            IndexerStats {
                graph_account: account.clone(),
                message_count: message_count as i64,
                subgraphs_count: identifiers.len() as i64,
            },
        );
        proof {
            assert(stats_view(stats@) =~= before.push(sender_stats(rows, accounts[i as int], from_ts)));
        }
        i += 1;
    }
    proof {
        assert(stats_view(stats@) =~= indexer_stats(rows, filter_view(indexers), from_ts));
    }
    proof {
        use_type_invariant(store);
    }
    stats
}

/// The number of distinct identifiers among the rows with a time stamp strictly
/// after `since_timestamp`.
pub fn count_distinct_subgraphs(store: &MessageStore, since_timestamp: i64) -> (r: i64)
    ensures
        store@.well_formed(),
        r == distinct_subgraphs(store@.rows, since_timestamp as int).len(),
{
    proof {
        use_type_invariant(store);
        if store.rows@.len() > 0 {
            lemma_id_at_least_position(store@.rows, store@.next_id, store.rows@.len() - 1);
        }
        lemma_distinct_keys(
            store@.rows,
            matching(since_timestamp as int, None, None),
            identifier_key(),
        );
    }
    let no_filter: Option<Vec<String>> = None;
    let mask = mark_matching(&store.rows, since_timestamp, &no_filter, None);
    let identifiers = collect_distinct(
        &store.rows,
        &mask,
        true,
        Ghost(matching(since_timestamp as int, None, None)),
    );
    proof {
        assert(strings_view(identifiers@).len() == identifiers@.len());
    }
    proof {
        use_type_invariant(store);
    }
    identifiers.len() as i64
}

/// Appends one snapshot of a sender's statistics and returns the id it was given.
///
/// Fails only when the id counter is used up, and then leaves the store as it was.
pub fn insert_aggregate(
    store: &mut MessageStore,
    timestamp: i64,
    graph_account: String,
    message_count: i64,
    subgraphs_count: i64,
) -> (r: Result<i64, StoreError>)
    ensures
        old(store)@.well_formed(),
        final(store)@.well_formed(),
        old(store)@.next_aggregate_id < i64::MAX ==> r == Ok::<i64, StoreError>(
            old(store)@.next_aggregate_id as i64,
        ) && final(store)@ == old(store)@.insert_aggregate(
            timestamp as int,
            graph_account@,
            message_count as int,
            subgraphs_count as int,
        ),
        old(store)@.next_aggregate_id >= i64::MAX ==> r == Err::<i64, StoreError>(
            StoreError::IdsExhausted,
        ) && final(store)@ == old(store)@,
{
    proof {
        use_type_invariant(&*store);
    }
    if store.next_aggregate_id == i64::MAX {
        return Err(StoreError::IdsExhausted);
    }
    let id = store.next_aggregate_id;
    store.push_aggregate(
        Aggregate { id, created_at_ts: timestamp, graph_account, message_count, subgraphs_count },
    );
    Ok(id)
}

/// The snapshots taken strictly after `since_timestamp`, oldest first.
pub fn fetch_aggregates(store: &MessageStore, since_timestamp: i64) -> (r: Vec<Aggregate>)
    ensures
        store@.well_formed(),
        aggregates_view(r@) == store@.aggregates.filter(taken_after(since_timestamp as int)),
{
    let ghost all = store@.aggregates;
    let ghost pred = taken_after(since_timestamp as int);
    let mut out: Vec<Aggregate> = Vec::new();
    let mut i: usize = 0;
    proof {
        reveal(Seq::filter);
        assert(all.take(0) =~= Seq::<AggregateView>::empty());
        assert(aggregates_view(out@) =~= Seq::<AggregateView>::empty());
    }
    while i < store.aggregates.len()
        invariant
            i <= store.aggregates.len(),
            all == store@.aggregates,
            all == aggregates_view(store.aggregates@),
            pred == taken_after(since_timestamp as int),
            aggregates_view(out@) == all.take(i as int).filter(pred),
        decreases store.aggregates.len() - i,
    {
        let ghost before = aggregates_view(out@);
        proof {
            reveal(Seq::filter);
            assert(all.take(i + 1).drop_last() =~= all.take(i as int));
            assert(all.take(i + 1).last() == all[i as int]);
        }
        if store.aggregates[i].created_at_ts > since_timestamp {
            out.push(store.aggregates[i].clone());
            proof {
                assert(aggregates_view(out@) =~= before.push(all[i as int]));
            }
        }
        i += 1;
    }
    proof {
        assert(all.take(i as int) =~= all);
    }
    proof {
        use_type_invariant(store);
    }
    out
}

/// The ids of all rows, oldest first.
pub fn list_ids(store: &MessageStore) -> (r: Vec<MessageID>)
    ensures
        store@.well_formed(),
        message_ids(r@) == ids_of(store@.rows),
{
    let ghost all = ids_of(store@.rows);
    let mut out: Vec<MessageID> = Vec::new();
    let mut i: usize = 0;
    while i < store.rows.len()
        invariant
            i <= store.rows.len(),
            all == ids_of(store@.rows),
            all.len() == store.rows.len(),
            message_ids(out@) == all.take(i as int),
        decreases store.rows.len() - i,
    {
        let ghost before = message_ids(out@);
        out.push(MessageID { id: store.rows[i].id });
        proof {
            assert(message_ids(out@) =~= before.push(all[i as int]));
            assert(all.take(i + 1) =~= all.take(i as int).push(all[i as int]));
        }
        i += 1;
    }
    proof {
        assert(all.take(i as int) =~= all);
    }
    proof {
        use_type_invariant(store);
    }
    out
}

impl MessageStore {
    /// A store that holds `rows` and `aggregates`, as they were read from
    /// where they are kept. Each counter continues after the largest id in
    /// use. `None` where the contents are not those of a store: see [`restorable`].
    pub fn restore(rows: Vec<Row>, aggregates: Vec<Aggregate>) -> (r: Option<MessageStore>)
        ensures
            r is Some <==> restorable(rows_view(rows@), aggregates_view(aggregates@)),
            r matches Some(store) ==> store@ == (StoreView {
                rows: rows_view(rows@),
                next_id: last_id(rows_view(rows@)) + 1,
                aggregates: aggregates_view(aggregates@),
                next_aggregate_id: largest_aggregate_id(aggregates_view(aggregates@)) + 1,
            }) && store@.well_formed(),
    {
        let ghost all = rows_view(rows@);
        let ghost snaps = aggregates_view(aggregates@);
        let mut previous: i64 = 0;
        let mut i: usize = 0;
        while i < rows.len()
            invariant
                i <= rows.len(),
                all == rows_view(rows@),
                0 <= previous < i64::MAX,
                previous == last_id(all.take(i as int)),
                ids_ascending(all.take(i as int), i64::MAX as int),
                nonces_fit(all.take(i as int)),
            decreases rows.len() - i,
        {
            let id = rows[i].id;
            if rows[i].message.nonce > i64::MAX as u64 {
                proof {
                    assert(all[i as int].message.nonce > i64::MAX);
                }
                return None;
            }
            let ghost head = all.take(i as int);
            let ghost next = all.take(i + 1);
            proof {
                assert(next.drop_last() =~= head);
                assert(next.last() == all[i as int]);
                assert forall|j: int| 0 <= j < head.len() implies (#[trigger] head[j]).id
                    <= previous by {
                    if j < head.len() - 1 {
                        assert(head[j].id < head[head.len() - 1].id);
                    }
                }
            }
            if id <= previous || id == i64::MAX {
                proof {
                    if ids_ascending(all, i64::MAX as int) {
                        if i > 0 {
                            assert(all[i - 1] == head[i - 1]);
                            assert(all[i - 1].id < all[i as int].id);
                        }
                        assert(1 <= all[i as int].id < i64::MAX);
                    }
                }
                return None;
            }
            proof {
                assert forall|j: int| 0 <= j < next.len() implies 1 <= (#[trigger] next[j]).id
                    < i64::MAX by {
                    if j < i {
                        assert(next[j] == head[j]);
                    }
                }
                assert forall|j: int, k: int| 0 <= j < k < next.len() implies (
                #[trigger] next[j]).id < (#[trigger] next[k]).id by {
                    assert(next[j] == head[j]);
                    if k < i {
                        assert(next[k] == head[k]);
                    }
                }
                assert forall|j: int| 0 <= j < next.len() implies (
                #[trigger] next[j]).message.nonce <= i64::MAX by {
                    if j < i {
                        assert(next[j] == head[j]);
                    }
                }
            }
            previous = id;
            i += 1;
        }
        proof {
            assert(all.take(i as int) =~= all);
        }
        let mut largest: i64 = 0;
        let mut k: usize = 0;
        proof {
            assert(snaps.take(0) =~= Seq::<AggregateView>::empty());
        }
        while k < aggregates.len()
            invariant
                k <= aggregates.len(),
                snaps == aggregates_view(aggregates@),
                0 <= largest < i64::MAX,
                largest == largest_aggregate_id(snaps.take(k as int)),
                forall|j: int| 0 <= j < k ==> 1 <= (#[trigger] snaps[j]).id < i64::MAX,
            decreases aggregates.len() - k,
        {
            let id = aggregates[k].id;
            proof {
                assert(snaps.take(k + 1).drop_last() =~= snaps.take(k as int));
                assert(snaps.take(k + 1).last() == snaps[k as int]);
            }
            if id < 1 || id == i64::MAX {
                return None;
            }
            if id > largest {
                largest = id;
            }
            k += 1;
        }
        proof {
            assert(snaps.take(k as int) =~= snaps);
            lemma_largest_aggregate_id(snaps);
            assert forall|j: int| 0 <= j < all.len() implies 1 <= (#[trigger] all[j]).id
                < previous + 1 by {
                if j < all.len() - 1 {
                    assert(all[j].id < all[all.len() - 1].id);
                }
            }
        }
        Some(
            MessageStore { rows, next_id: previous + 1, aggregates, next_aggregate_id: largest + 1 },
        )
    }
}

impl Row {
    /// The row as the query API shows it.
    pub fn get_graphql_row(&self) -> (r: GraphQLRow)
        ensures
            r@ == self@,
    {
        GraphQLRow::new(self.get_id(), self.get_message())
    }
}

/// All rows as the query API shows them, oldest first.
pub fn list_rows(store: &MessageStore) -> (r: Vec<GraphQLRow>)
    ensures
        store@.well_formed(),
        shown_rows_view(r@) == store@.rows,
{
    let rows = list_messages(store);
    let mut out: Vec<GraphQLRow> = Vec::new();
    let mut i: usize = 0;
    while i < rows.len()
        invariant
            i <= rows.len(),
            rows_view(rows@) == store@.rows,
            shown_rows_view(out@) == store@.rows.take(i as int),
        decreases rows.len() - i,
    {
        let ghost before = shown_rows_view(out@);
        out.push(rows[i].get_graphql_row());
        proof {
            assert(shown_rows_view(out@) =~= before.push(rows@[i as int]@));
            assert(store@.rows.take(i + 1) =~= store@.rows.take(i as int).push(
                store@.rows[i as int],
            ));
        }
        i += 1;
    }
    proof {
        assert(store@.rows.take(i as int) =~= store@.rows);
    }
    proof {
        use_type_invariant(store);
    }
    out
}

} // verus!
