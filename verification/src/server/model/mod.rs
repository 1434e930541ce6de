//! The query API: what each query and mutation answers from the store.
use vstd::prelude::*;
use vstd::string::StringExecFns;
use vstd::arithmetic::div_mod::{lemma_fundamental_div_mod, lemma_fundamental_div_mod_converse};
use crate::clock::now_timestamp;
use crate::db::model::{
    active_senders,
    aggregates_view,
    distinct_subgraphs,
    filter_view,
    indexer_stats,
    rows_view,
    stats_view,
    strings_view,
    taken_after,
    AggregateView,
    RowView,
};
use crate::db::resolver::{
    contains_string,
    count_distinct_subgraphs,
    delete_message_all,
    delete_message_by_id,
    fetch_aggregates,
    get_indexer_stats,
    list_active_indexers,
    list_messages,
    list_rows,
    message_by_id,
    Aggregate,
    IndexerStats,
    MessageStore,
    Row,
    StoreError,
};
use crate::message_types::{GraphcastMessage, GraphcastMessageView};

verus! {

/// Minutes of the window of a query that names none.
pub const DEFAULT_WINDOW_MINUTES: u64 = 1440;

/// Why a query could not be answered.
#[derive(Debug, PartialEq, Eq)]
pub enum HttpServiceError {
    MissingData(String),
    Reqwest(String),
    QueryError(String),
    RequestFailed(String),
    ResponseError(String),
    TimeoutError,
    InvalidUrl(String),
    HttpClientError(String),
    Others(String),
}

impl HttpServiceError {
    /// The text that introduces an error of this kind.
    pub open spec fn spec_prefix(self) -> Seq<char> {
        match self {
            HttpServiceError::MissingData(_) => "Missing requested data: "@,
            HttpServiceError::Reqwest(_) => "Reqwest Error: "@,
            HttpServiceError::QueryError(_) => "Query failed: "@,
            HttpServiceError::RequestFailed(_) => "HTTP request failed: "@,
            HttpServiceError::ResponseError(_) => "HTTP response error: "@,
            HttpServiceError::TimeoutError => "Timeout error"@,
            HttpServiceError::InvalidUrl(_) => "Invalid URL: "@,
            HttpServiceError::HttpClientError(_) => "HTTP client error: "@,
            HttpServiceError::Others(_) => Seq::empty(),
        }
    }

    /// The detail that the error carries.
    pub open spec fn spec_detail(self) -> Seq<char> {
        match self {
            HttpServiceError::MissingData(d) => d@,
            HttpServiceError::Reqwest(d) => d@,
            HttpServiceError::QueryError(d) => d@,
            HttpServiceError::RequestFailed(d) => d@,
            HttpServiceError::ResponseError(d) => d@,
            HttpServiceError::TimeoutError => Seq::empty(),
            HttpServiceError::InvalidUrl(d) => d@,
            HttpServiceError::HttpClientError(d) => d@,
            HttpServiceError::Others(d) => d@,
        }
    }

    /// The error as one line of text: what kind it is, then the detail.
    pub fn message(&self) -> (r: String)
        ensures
            r@ == self.spec_prefix() + self.spec_detail(),
    {
        match self {
            HttpServiceError::MissingData(d) => String::from_str("Missing requested data: ").concat(
                d.as_str(),
            ),
            HttpServiceError::Reqwest(d) => String::from_str("Reqwest Error: ").concat(d.as_str()),
            HttpServiceError::QueryError(d) => String::from_str("Query failed: ").concat(d.as_str()),
            HttpServiceError::RequestFailed(d) => String::from_str("HTTP request failed: ").concat(
                d.as_str(),
            ),
            HttpServiceError::ResponseError(d) => String::from_str("HTTP response error: ").concat(
                d.as_str(),
            ),
            HttpServiceError::TimeoutError => {
                let r = String::from_str("Timeout error");
                proof {
                    assert(r@ =~= "Timeout error"@ + Seq::<char>::empty());
                }
                r
            },
            HttpServiceError::InvalidUrl(d) => String::from_str("Invalid URL: ").concat(d.as_str()),
            HttpServiceError::HttpClientError(d) => String::from_str("HTTP client error: ").concat(
                d.as_str(),
            ),
            HttpServiceError::Others(d) => {
                let r = d.clone();
                proof {
                    assert(r@ =~= Seq::<char>::empty() + d@);
                }
                r
            },
        }
    }

    /// The error of the query API that stands for an error of the store.
    pub fn from_store(error: StoreError) -> (r: HttpServiceError)
        ensures
            error == StoreError::NotFound ==> (r matches HttpServiceError::MissingData(d) && d@
                == "no message with this id"@),
            error == StoreError::IdsExhausted ==> (r matches HttpServiceError::Others(d) && d@
                == "the store has no id left"@),
            error == StoreError::NonceOutOfRange ==> (r matches HttpServiceError::Others(d) && d@
                == "the nonce is no time stamp"@),
    {
        match error {
            StoreError::NotFound => HttpServiceError::MissingData(
                String::from_str("no message with this id"),
            ),
            StoreError::IdsExhausted => HttpServiceError::Others(
                String::from_str("the store has no id left"),
            ),
            StoreError::NonceOutOfRange => HttpServiceError::Others(
                String::from_str("the nonce is no time stamp"),
            ),
        }
    }
}

/// A stored row as the query API shows it.
#[derive(Debug, PartialEq, Eq)]
pub struct GraphQLRow {
    pub id: i64,
    pub message: GraphcastMessage,
}

impl View for GraphQLRow {
    type V = RowView;

    open spec fn view(&self) -> RowView {
        RowView { id: self.id as int, message: self.message@ }
    }
}

impl GraphQLRow {
    pub fn new(id: i64, message: GraphcastMessage) -> (r: Self)
        ensures
            r.id == id,
            r.message == message,
    {
        GraphQLRow { id, message }
    }
}

/// The views of a sequence of shown rows, in the same order.
pub open spec fn shown_rows_view(rows: Seq<GraphQLRow>) -> Seq<RowView> {
    rows.map_values(|r: GraphQLRow| r@)
}

/// The views of a sequence of messages, in the same order.
pub open spec fn messages_view(messages: Seq<GraphcastMessage>) -> Seq<GraphcastMessageView> {
    messages.map_values(|m: GraphcastMessage| m@)
}

/// The messages of a sequence of rows, in the same order.
pub open spec fn messages_of(rows: Seq<RowView>) -> Seq<GraphcastMessageView> {
    rows.map_values(|r: RowView| r.message)
}

/// The messages of `rows`, in the same order.
fn take_messages(rows: Vec<Row>) -> (r: Vec<GraphcastMessage>)
    ensures
        messages_view(r@) == messages_of(rows_view(rows@)),
{
    let mut out: Vec<GraphcastMessage> = Vec::new();
    let mut i: usize = 0;
    let ghost all = messages_of(rows_view(rows@));
    while i < rows.len()
        invariant
            i <= rows.len(),
            all == messages_of(rows_view(rows@)),
            messages_view(out@) == all.take(i as int),
        decreases rows.len() - i,
    {
        let ghost before = messages_view(out@);
        out.push(rows[i].get_message());
        proof {
            assert(messages_view(out@) =~= before.push(rows@[i as int].message@));
            assert(all.take(i + 1) =~= all.take(i as int).push(all[i as int]));
        }
        i += 1;
    }
    proof {
        assert(all.take(i as int) =~= all);
    }
    out
}

/// The start of a window of `seconds` seconds that ends at `now`, kept inside
/// the range of a time stamp. No message has a time stamp below that range,
/// so a start that was kept inside it selects the same messages.
pub open spec fn window_start(now: i64, seconds: int) -> i64 {
    if now - seconds < i64::MIN {
        i64::MIN
    } else if now - seconds > i64::MAX {
        i64::MAX
    } else {
        (now - seconds) as i64
    }
}

/// The start of a window of `seconds` seconds that ends at `now`.
fn start_of_window(now: i64, seconds: i128) -> (r: i64)
    requires
        -0x4000_0000_0000_0000_0000 <= seconds <= 0x4000_0000_0000_0000_0000,
    ensures
        r == window_start(now, seconds as int),
{
    let start: i128 = now as i128 - seconds;
    if start < i64::MIN as i128 {
        i64::MIN
    } else if start > i64::MAX as i128 {
        i64::MAX
    } else {
        start as i64
    }
}

/// The number of minutes a query looks back: what it names, or a day.
pub open spec fn window_minutes(minutes_ago: Option<u64>) -> int {
    match minutes_ago {
        Some(m) => m as int,
        None => DEFAULT_WINDOW_MINUTES as int,
    }
}

/// The time stamp from which a query that looks back `minutes_ago` minutes
/// from `now` selects.
pub fn minutes_before(now: i64, minutes_ago: Option<u64>) -> (r: i64)
    ensures
        r == window_start(now, window_minutes(minutes_ago) * 60),
{
    let minutes = match minutes_ago {
        Some(m) => m,
        None => DEFAULT_WINDOW_MINUTES,
    };
    start_of_window(now, minutes as i128 * 60)
}

/// The time stamp from which a query that looks back `days` days from `now` selects.
pub fn days_before(now: i64, days: i32) -> (r: i64)
    ensures
        r == window_start(now, days * 86400),
{
    start_of_window(now, days as i128 * 86400)
}

/// The senders of the snapshots, each once, in order of first appearance.
pub open spec fn snapshot_senders(aggregates: Seq<AggregateView>) -> Seq<Seq<char>>
    decreases aggregates.len(),
{
    if aggregates.len() == 0 {
        Seq::empty()
    } else {
        let before = snapshot_senders(aggregates.drop_last());
        let account = aggregates.last().graph_account;
        if before.contains(account) {
            before
        } else {
            before.push(account)
        }
    }
}

/// The sum of the message counts of the snapshots of `account`.
pub open spec fn total_messages(aggregates: Seq<AggregateView>, account: Seq<char>) -> int
    decreases aggregates.len(),
{
    if aggregates.len() == 0 {
        0
    } else {
        total_messages(aggregates.drop_last(), account) + (if aggregates.last().graph_account
            == account {
            aggregates.last().message_count
        } else {
            0
        })
    }
}

/// The sum of the subgraph counts of the snapshots of `account`.
pub open spec fn total_subgraphs(aggregates: Seq<AggregateView>, account: Seq<char>) -> int
    decreases aggregates.len(),
{
    if aggregates.len() == 0 {
        0
    } else {
        total_subgraphs(aggregates.drop_last(), account) + (if aggregates.last().graph_account
            == account {
            aggregates.last().subgraphs_count
        } else {
            0
        })
    }
}

/// The number of snapshots of `account`.
pub open spec fn snapshot_count(aggregates: Seq<AggregateView>, account: Seq<char>) -> int
    decreases aggregates.len(),
{
    if aggregates.len() == 0 {
        0
    } else {
        snapshot_count(aggregates.drop_last(), account) + (if aggregates.last().graph_account
            == account {
            1int
        } else {
            0int
        })
    }
}

/// `total / count`, rounded up to the next integer.
pub open spec fn ceil_div(total: int, count: int) -> int {
    if total % count == 0 {
        total / count
    } else {
        total / count + 1
    }
}

/// The mean subgraph count over the snapshots of `account`, rounded up; 0
/// where the account has no snapshot.
pub open spec fn average_subgraphs(aggregates: Seq<AggregateView>, account: Seq<char>) -> int {
    if snapshot_count(aggregates, account) > 0 {
        ceil_div(total_subgraphs(aggregates, account), snapshot_count(aggregates, account))
    } else {
        0
    }
}

/// What the summary query answers.
#[derive(Debug, PartialEq, Eq)]
pub struct Summary {
    /// for each sender, the sum of its message counts
    pub total_message_count: Vec<(String, i64)>,
    /// for each sender, its mean subgraph count, rounded up
    pub average_subgraphs_count: Vec<(String, i64)>,
    /// the number of distinct identifiers in the window
    pub total_subgraphs_covered: i64,
}

/// Mathematical value of a [`Summary`].
pub struct SummaryView {
    pub total_message_count: Seq<(Seq<char>, int)>,
    pub average_subgraphs_count: Seq<(Seq<char>, int)>,
    pub total_subgraphs_covered: int,
}

/// The views of a list of entries, in the same order.
pub open spec fn entries_view(entries: Seq<(String, i64)>) -> Seq<(Seq<char>, int)> {
    entries.map_values(|e: (String, i64)| (e.0@, e.1 as int))
}

impl View for Summary {
    type V = SummaryView;

    open spec fn view(&self) -> SummaryView {
        SummaryView {
            total_message_count: entries_view(self.total_message_count@),
            average_subgraphs_count: entries_view(self.average_subgraphs_count@),
            total_subgraphs_covered: self.total_subgraphs_covered as int,
        }
    }
}

impl SummaryView {
    /// Both lists name the same senders in the same order, and none twice.
    pub open spec fn well_formed(self) -> bool {
        &&& self.total_message_count.len() == self.average_subgraphs_count.len()
        &&& forall|i: int|
            0 <= i < self.total_message_count.len() ==> (#[trigger] self.total_message_count[i]).0
                == self.average_subgraphs_count[i].0
        &&& forall|i: int, j: int|
            0 <= i < j < self.total_message_count.len() ==> (
            #[trigger] self.total_message_count[i]).0 != (#[trigger] self.total_message_count[j]).0
    }
}

/// The summary of `aggregates`, with `covered` distinct identifiers in the window.
pub open spec fn summary_of(aggregates: Seq<AggregateView>, covered: int) -> SummaryView {
    SummaryView {
        total_message_count: snapshot_senders(aggregates).map_values(
            |a: Seq<char>| (a, total_messages(aggregates, a)),
        ),
        average_subgraphs_count: snapshot_senders(aggregates).map_values(
            |a: Seq<char>| (a, average_subgraphs(aggregates, a)),
        ),
        total_subgraphs_covered: covered,
    }
}

/// The value is in the range of a 64-bit signed integer.
pub open spec fn fits_i64(v: int) -> bool {
    i64::MIN <= v <= i64::MAX
}

/// Every number of the summary of `aggregates` is in the range of its type.
pub open spec fn summary_fits(aggregates: Seq<AggregateView>) -> bool {
    forall|i: int|
        0 <= i < snapshot_senders(aggregates).len() ==> fits_i64(
            total_messages(aggregates, #[trigger] snapshot_senders(aggregates)[i]),
        ) && fits_i64(average_subgraphs(aggregates, snapshot_senders(aggregates)[i]))
}

/// No sender occurs twice among the senders of the snapshots.
pub proof fn lemma_snapshot_senders_distinct(aggregates: Seq<AggregateView>)
    ensures
        snapshot_senders(aggregates).no_duplicates(),
        summary_of(aggregates, 0).well_formed(),
    decreases aggregates.len(),
{
    if aggregates.len() > 0 {
        lemma_snapshot_senders_distinct(aggregates.drop_last());
    }
}

/// The senders of the snapshots, each once, in order of first appearance.
fn collect_senders(aggregates: &Vec<Aggregate>) -> (r: Vec<String>)
    ensures
        strings_view(r@) == snapshot_senders(aggregates_view(aggregates@)),
{
    let ghost all = aggregates_view(aggregates@);
    let mut out: Vec<String> = Vec::new();
    let mut i: usize = 0;
    proof {
        assert(all.take(0) =~= Seq::<AggregateView>::empty());
        assert(strings_view(out@) =~= Seq::<Seq<char>>::empty());
    }
    while i < aggregates.len()
        invariant
            i <= aggregates.len(),
            all == aggregates_view(aggregates@),
            strings_view(out@) == snapshot_senders(all.take(i as int)),
        decreases aggregates.len() - i,
    {
        let ghost before = strings_view(out@);
        proof {
            assert(all.take(i + 1).drop_last() =~= all.take(i as int));
            assert(all.take(i + 1).last() == all[i as int]);
        }
        if !contains_string(&out, &aggregates[i].graph_account) {
            out.push(aggregates[i].graph_account.clone());
            proof {
                assert(strings_view(out@) =~= before.push(all[i as int].graph_account));
            }
        }
        i += 1;
    }
    proof {
        assert(all.take(i as int) =~= all);
    }
    out
}

/// `total / count`, rounded up.
fn ceil_div_i128(total: i128, count: i128) -> (r: i128)
    requires
        count > 0,
        -0x7FFF_FFFF_FFFF_FFFF_8000_0000_0000_0000 <= total
            <= 0x7FFF_FFFF_FFFF_FFFF_8000_0000_0000_0000,
    ensures
        r == ceil_div(total as int, count as int),
{
    if total >= 0 {
        let q = total / count;
        if total % count == 0 {
            q
        } else {
            proof {
                lemma_fundamental_div_mod(total as int, count as int);
                assert(q <= total) by (nonlinear_arith)
                    requires
                        total == count * q + (total % count),
                        count > 0,
                        q >= 0 || q < 0,
                        total >= 0,
                        0 <= total % count < count,
                {
                    if q > total {
                        assert(count * q >= q);
                    }
                }
            }
            q + 1
        }
    } else {
        let n = -total;
        let q = n / count;
        let rem = n % count;
        proof {
            lemma_fundamental_div_mod(n as int, count as int);
            let c = count as int;
            let qi = q as int;
            let ri = rem as int;
            assert(n == c * qi + ri);
            if ri == 0 {
                assert(total as int == (-qi) * c + 0) by (nonlinear_arith)
                    requires
                        n == c * qi + ri,
                        ri == 0,
                        total == -n,
                ;
                lemma_fundamental_div_mod_converse(total as int, c, -qi, 0);
            } else {
                assert(total as int == (-qi - 1) * c + (c - ri)) by (nonlinear_arith)
                    requires
                        n == c * qi + ri,
                        total == -n,
                ;
                lemma_fundamental_div_mod_converse(total as int, c, -qi - 1, c - ri);
            }
            assert(0 <= qi <= n) by (nonlinear_arith)
                requires
                    n == c * qi + ri,
                    c > 0,
                    0 <= ri < c,
                    n > 0,
            {
                if qi < 0 {
                    assert(c * qi <= -c);
                }
                if qi > n {
                    assert(c * qi >= qi);
                }
            }
        }
        -q
    }
}

/// The three sums over the snapshots of `account`: message counts, subgraph
/// counts, and the number of snapshots.
fn sums_for(aggregates: &Vec<Aggregate>, account: &String) -> (r: (i128, i128, usize))
    ensures
        r.0 == total_messages(aggregates_view(aggregates@), account@),
        r.1 == total_subgraphs(aggregates_view(aggregates@), account@),
        r.2 == snapshot_count(aggregates_view(aggregates@), account@),
        -0x7FFF_FFFF_FFFF_FFFF_8000_0000_0000_0000 <= r.1
            <= 0x7FFF_FFFF_FFFF_FFFF_8000_0000_0000_0000,
{
    let ghost all = aggregates_view(aggregates@);
    let mut messages: i128 = 0;
    let mut subgraphs: i128 = 0;
    let mut count: usize = 0;
    let mut i: usize = 0;
    proof {
        assert(all.take(0) =~= Seq::<AggregateView>::empty());
    }
    while i < aggregates.len()
        invariant
            i <= aggregates.len(),
            all == aggregates_view(aggregates@),
            messages == total_messages(all.take(i as int), account@),
            subgraphs == total_subgraphs(all.take(i as int), account@),
            count == snapshot_count(all.take(i as int), account@),
            count <= i,
            -(i * 0x8000_0000_0000_0000) <= messages <= i * 0x8000_0000_0000_0000,
            -(i * 0x8000_0000_0000_0000) <= subgraphs <= i * 0x8000_0000_0000_0000,
        decreases aggregates.len() - i,
    {
        proof {
            assert(all.take(i + 1).drop_last() =~= all.take(i as int));
            assert(all.take(i + 1).last() == all[i as int]);
        }
        if aggregates[i].graph_account == *account {
            messages = messages + aggregates[i].message_count as i128;
            subgraphs = subgraphs + aggregates[i].subgraphs_count as i128;
            count = count + 1;
        }
        i += 1;
    }
    proof {
        assert(all.take(i as int) =~= all);
    }
    (messages, subgraphs, count)
}

/// The summary of `aggregates`: for each sender, in order of first
/// appearance, the sum of its message counts and its mean subgraph count,
/// rounded up. `covered` is passed through as the number of distinct
/// identifiers. Fails where one of the numbers is beyond 64 bits.
pub fn summarize(aggregates: &Vec<Aggregate>, covered: i64) -> (r: Result<Summary, HttpServiceError>)
    ensures
        r is Ok <==> summary_fits(aggregates_view(aggregates@)),
        r matches Ok(s) ==> s@ == summary_of(aggregates_view(aggregates@), covered as int) && s@.well_formed(),
        r matches Err(e) ==> e is Others,
{
    let ghost all = aggregates_view(aggregates@);
    let senders = collect_senders(aggregates);
    let ghost accounts = strings_view(senders@);
    let mut totals: Vec<(String, i64)> = Vec::new();
    let mut averages: Vec<(String, i64)> = Vec::new();
    let mut i: usize = 0;
    proof {
        lemma_snapshot_senders_distinct(all);
    }
    while i < senders.len()
        invariant
            i <= senders.len(),
            all == aggregates_view(aggregates@),
            accounts == strings_view(senders@),
            accounts == snapshot_senders(all),
            totals.len() == i,
            averages.len() == i,
            forall|j: int|
                0 <= j < i ==> (#[trigger] entries_view(totals@)[j]) == (
                    accounts[j],
                    total_messages(all, accounts[j]),
                ),
            forall|j: int|
                0 <= j < i ==> (#[trigger] entries_view(averages@)[j]) == (
                    accounts[j],
                    average_subgraphs(all, accounts[j]),
                ),
            forall|j: int|
                0 <= j < i ==> fits_i64(total_messages(all, #[trigger] accounts[j])) && fits_i64(
                    average_subgraphs(all, accounts[j]),
                ),
        decreases senders.len() - i,
    {
        let account = &senders[i];
        let (messages, subgraphs, count) = sums_for(aggregates, account);
        let average: i128 = if count > 0 {
            ceil_div_i128(subgraphs, count as i128)
        } else {
            0
        };
        if messages < i64::MIN as i128 || messages > i64::MAX as i128 || average < i64::MIN as i128
            || average > i64::MAX as i128 {
            proof {
                assert(accounts[i as int] == account@);
                assert(!(fits_i64(total_messages(all, accounts[i as int])) && fits_i64(
                    average_subgraphs(all, accounts[i as int]),
                )));
            }
            return Err(HttpServiceError::Others(String::from_str("aggregate total out of range")));
        }
        let ghost totals_before = entries_view(totals@);
        let ghost averages_before = entries_view(averages@);
        totals.push((account.clone(), messages as i64));
        averages.push((account.clone(), average as i64));
        proof {
            assert(entries_view(totals@) =~= totals_before.push(
                (account@, total_messages(all, account@)),
            ));
            assert(entries_view(averages@) =~= averages_before.push(
                (account@, average_subgraphs(all, account@)),
            ));
        }
        i += 1;
    }
    let summary = Summary {
        total_message_count: totals,
        average_subgraphs_count: averages,
        total_subgraphs_covered: covered,
    };
    proof {
        assert(summary@.total_message_count =~= summary_of(all, covered as int).total_message_count);
        assert(summary@.average_subgraphs_count =~= summary_of(
            all,
            covered as int,
        ).average_subgraphs_count);
    }
    Ok(summary)
}

/// The root of all queries.
#[derive(Clone, Copy, Debug, Default)]
pub struct QueryRoot;

/// The root of all mutations.
#[derive(Clone, Copy, Debug, Default)]
pub struct MutationRoot;

impl QueryRoot {
    /// The constant answer of a radio that is up.
    pub fn health_check(&self) -> (r: &'static str)
        ensures
            r@ == "Healthy"@,
    {
        "Healthy"
    }

    /// All stored rows, oldest first.
    pub fn rows(&self, store: &MessageStore) -> (r: Vec<GraphQLRow>)
        ensures
            shown_rows_view(r@) == store@.rows,
    {
        list_rows(store)
    }

    /// The row with id `id`.
    pub fn row(&self, store: &MessageStore, id: i64) -> (r: Result<GraphQLRow, HttpServiceError>)
        ensures
            match store@.get(id as int) {
                Some(row) => r is Ok && r->Ok_0@ == row,
                None => r is Err && r->Err_0 is MissingData,
            },
    {
        match message_by_id(store, id) {
            Ok(row) => Ok(row.get_graphql_row()),
            Err(e) => Err(HttpServiceError::from_store(e)),
        }
    }

    /// All stored messages, oldest first.
    pub fn messages(&self, store: &MessageStore) -> (r: Vec<GraphcastMessage>)
        ensures
            messages_view(r@) == messages_of(store@.rows),
    {
        take_messages(list_messages(store))
    }

    /// The message of the row with id `id`.
    pub fn message(&self, store: &MessageStore, id: i64) -> (r: Result<
        GraphcastMessage,
        HttpServiceError,
    >)
        ensures
            match store@.get(id as int) {
                Some(row) => r is Ok && r->Ok_0@ == row.message,
                None => r is Err && r->Err_0 is MissingData,
            },
    {
        match message_by_id(store, id) {
            Ok(row) => Ok(row.get_message()),
            Err(e) => Err(HttpServiceError::from_store(e)),
        }
    }

    /// The senders with a message in the `minutes_ago` minutes before `now`,
    /// a day where no number is given; with an allow-list, only senders on it.
    pub fn active_indexers_at(
        &self,
        store: &MessageStore,
        indexers: Option<Vec<String>>,
        minutes_ago: Option<u64>,
        now: i64,
    ) -> (r: Vec<String>)
        ensures
            strings_view(r@) == active_senders(
                store@.rows,
                filter_view(indexers),
                window_start(now, window_minutes(minutes_ago) * 60) as int,
            ),
    {
        list_active_indexers(store, indexers, minutes_before(now, minutes_ago))
    }

    /// The senders with a message in the last `minutes_ago` minutes. The
    /// present moment is read from the clock once; whatever it says, the answer
    /// is that of [`QueryRoot::active_indexers_at`] for that moment.
    pub fn query_active_indexers(
        &self,
        store: &MessageStore,
        indexers: Option<Vec<String>>,
        minutes_ago: Option<u64>,
    ) -> (r: Vec<String>)
        ensures
            exists|now: i64|
                now >= 0 && strings_view(r@) == active_senders(
                    store@.rows,
                    filter_view(indexers),
                    #[trigger] window_start(now, window_minutes(minutes_ago) * 60) as int,
                ),
    {
        let now = now_timestamp();
        self.active_indexers_at(store, indexers, minutes_ago, now)
    }

    /// The statistics of the senders with a message in the `minutes_ago`
    /// minutes before `now`, a day where no number is given.
    pub fn indexer_stats_at(
        &self,
        store: &MessageStore,
        indexers: Option<Vec<String>>,
        minutes_ago: Option<u64>,
        now: i64,
    ) -> (r: Vec<IndexerStats>)
        ensures
            stats_view(r@) == indexer_stats(
                store@.rows,
                filter_view(indexers),
                window_start(now, window_minutes(minutes_ago) * 60) as int,
            ),
    {
        get_indexer_stats(store, indexers, minutes_before(now, minutes_ago))
    }

    /// The statistics of the senders with a message in the last `minutes_ago`
    /// minutes. The present moment is read from the clock once; whatever it
    /// says, the answer is that of [`QueryRoot::indexer_stats_at`] for that moment.
    pub fn query_indexer_stats(
        &self,
        store: &MessageStore,
        indexers: Option<Vec<String>>,
        minutes_ago: Option<u64>,
    ) -> (r: Vec<IndexerStats>)
        ensures
            exists|now: i64|
                now >= 0 && stats_view(r@) == indexer_stats(
                    store@.rows,
                    filter_view(indexers),
                    #[trigger] window_start(now, window_minutes(minutes_ago) * 60) as int,
                ),
    {
        let now = now_timestamp();
        self.indexer_stats_at(store, indexers, minutes_ago, now)
    }

    /// The summary over the snapshots taken in the `days` days before `now`,
    /// with the number of distinct identifiers among the messages of that time.
    pub fn aggregate_stats_at(&self, store: &MessageStore, days: i32, now: i64) -> (r: Result<
        Summary,
        HttpServiceError,
    >)
        ensures
            ({
                let since = window_start(now, days * 86400) as int;
                let chosen = store@.aggregates.filter(taken_after(since));
                &&& r is Ok <==> summary_fits(chosen)
                &&& r matches Ok(s) ==> s@ == summary_of(
                    chosen,
                    distinct_subgraphs(store@.rows, since).len() as int,
                ) && s@.well_formed()
                &&& r matches Err(e) ==> e is Others
            }),
    {
        let since = days_before(now, days);
        let aggregates = fetch_aggregates(store, since);
        let covered = count_distinct_subgraphs(store, since);
        summarize(&aggregates, covered)
    }

    /// The summary over the snapshots taken in the last `days` days. The
    /// present moment is read from the clock once; whatever it says, the answer
    /// is that of [`QueryRoot::aggregate_stats_at`] for that moment.
    pub fn query_aggregate_stats(&self, store: &MessageStore, days: i32) -> (r: Result<
        Summary,
        HttpServiceError,
    >)
        ensures
            exists|now: i64|
                {
                    let since = #[trigger] window_start(now, days * 86400) as int;
                    let chosen = store@.aggregates.filter(taken_after(since));
                    &&& now >= 0
                    &&& r is Ok <==> summary_fits(chosen)
                    &&& r matches Ok(s) ==> s@ == summary_of(
                        chosen,
                        distinct_subgraphs(store@.rows, since).len() as int,
                    )
                },
            r matches Ok(s) ==> s@.well_formed(),
            r matches Err(e) ==> e is Others,
    {
        let now = now_timestamp();
        self.aggregate_stats_at(store, days, now)
    }
}

impl MutationRoot {
    /// Deletes the row with id `id` and returns its message.
    pub fn delete_message(&self, store: &mut MessageStore, id: i64) -> (r: Result<
        GraphcastMessage,
        HttpServiceError,
    >)
        ensures
            final(store)@ == old(store)@.delete(id as int),
            match old(store)@.get(id as int) {
                Some(row) => r is Ok && r->Ok_0@ == row.message,
                None => r is Err && r->Err_0 is MissingData,
            },
    {
        match delete_message_by_id(store, id) {
            Ok(row) => Ok(row.get_message()),
            Err(e) => Err(HttpServiceError::from_store(e)),
        }
    }

    /// Deletes every row and returns their messages, oldest first.
    pub fn delete_messages(&self, store: &mut MessageStore) -> (r: Vec<GraphcastMessage>)
        ensures
            messages_view(r@) == messages_of(old(store)@.rows),
            final(store)@ == old(store)@.with_rows(Seq::empty(), old(store)@.next_id),
    {
        take_messages(delete_message_all(store))
    }
}

} // verus!
