//! The radio operator: what it does on each tick of its schedule and with each
//! message that arrives.
//!
//! The operator owns the store and decides; it does not wait, sleep or talk to
//! the network. Whoever drives it waits for the next tick, hands it over with
//! the time and what the transport reports, and carries out the actions that
//! come back.
use vstd::prelude::*;
use vstd::string::StringExecFns;
use crate::codec::{decode_any, decode_message};
use crate::config::{clone_strings, Config};
use crate::db::laws::{
    lemma_insert_aggregates_appends,
    lemma_insert_aggregates_keeps_rows,
    lemma_prune_exact,
    lemma_row_count_fits,
};
use crate::db::model::{
    aggregates_view,
    ids_of,
    indexer_stats,
    insert_outcome,
    message_ids,
    retention_cutoff,
    stats_view,
    AggregateView,
    RowView,
    StoreView,
};
use crate::db::resolver::{
    add_message,
    count_messages,
    get_indexer_stats,
    insert_aggregate,
    list_ids,
    prune_old_messages_at,
    retain_max_storage,
    Aggregate,
    MessageID,
    MessageStore,
    StoreError,
};
use crate::metrics::{Counter, Gauge, LabelledCounter, MetricUpdate, MetricUpdateView};
use crate::operator::notifier::{optional_text, Notifier, NotifierView};
use crate::operator::operation::Handled;
use crate::server::model::{days_before, window_start};

pub mod notifier;
pub mod operation;
pub mod radio_types;

verus! {

/// Seconds between two network updates.
pub const NETWORK_UPDATE_SECONDS: u64 = 600;

/// Seconds between two summaries.
pub const SUMMARY_SECONDS: u64 = 180;

/// Seconds between two daily aggregates.
pub const DAILY_AGGREGATE_SECONDS: u64 = 86400;

/// Seconds after which an iteration that has not completed makes the next one skip.
pub const ITERATION_TIMEOUT_SECONDS: u64 = 180;

/// Seconds that one maintenance operation or one topic update may take.
pub const UPDATE_TIMEOUT_SECONDS: u64 = 5;

/// Seconds that the processing of one message may take.
pub const MESSAGE_TIMEOUT_SECONDS: u64 = 1;

/// Seconds to wait before looking at the tickers when there is no peer.
pub const NO_PEERS_PAUSE_SECONDS: u64 = 10;

/// Seconds to wait after an iteration that did its work.
pub const ITERATION_PAUSE_SECONDS: u64 = 5;

/// Rows that retention deletes in one batch.
pub const PRUNE_BATCH_SIZE: i64 = 1000;

/// The three tickers of the schedule.
#[derive(Clone, Copy, Debug, PartialEq, Eq, Structural)]
pub enum Tick {
    NetworkUpdate,
    Summary,
    DailyAggregate,
}

/// What the transport reports about its peers.
#[derive(Clone, Copy, Debug, PartialEq, Eq)]
pub struct NetworkStatus {
    /// peers connected with the agent, where the transport can tell
    pub connected_peers: Option<usize>,
    /// gossip peers discovered
    pub gossip_peers: usize,
}

/// What the driver of the operator is asked to do.
#[derive(Debug, PartialEq, Eq)]
pub enum Action {
    /// apply the update to the metrics
    Record(MetricUpdate),
    /// hand the list of content topics to the transport
    UpdateContentTopics(Vec<String>),
    /// log the monitoring summary
    Report { total_messages: i64, total_pruned: i64 },
    /// delete from the database every row with an id below `below` that is
    /// not among `ids`
    KeepRows { ids: Vec<MessageID>, below: i64 },
    /// write these snapshots to the database
    Persist(Vec<Aggregate>),
    /// wait for this many seconds before the next iteration
    Pause(u64),
    /// expose the metrics at this host and port
    ServeMetrics { host: String, port: u16 },
    /// expose the query API at this host and port
    ServeApi { host: String, port: u16 },
}

/// Mathematical value of an [`Action`].
pub enum ActionView {
    Record(MetricUpdateView),
    UpdateContentTopics(Seq<String>),
    Report { total_messages: i64, total_pruned: i64 },
    KeepRows { ids: Seq<int>, below: int },
    Persist(Seq<AggregateView>),
    Pause(u64),
    ServeMetrics { host: Seq<char>, port: u16 },
    ServeApi { host: Seq<char>, port: u16 },
}

impl View for Action {
    type V = ActionView;

    open spec fn view(&self) -> ActionView {
        match self {
            Action::Record(update) => ActionView::Record(update@),
            Action::UpdateContentTopics(topics) => ActionView::UpdateContentTopics(topics@),
            Action::KeepRows { ids, below } => ActionView::KeepRows {
                ids: message_ids(ids@),
                below: *below as int,
            },
            Action::Persist(snapshots) => ActionView::Persist(aggregates_view(snapshots@)),
            Action::Report { total_messages, total_pruned } => ActionView::Report {
                total_messages: *total_messages,
                total_pruned: *total_pruned,
            },
            Action::Pause(seconds) => ActionView::Pause(*seconds),
            Action::ServeMetrics { host, port } => ActionView::ServeMetrics {
                host: host@,
                port: *port,
            },
            Action::ServeApi { host, port } => ActionView::ServeApi { host: host@, port: *port },
        }
    }
}

/// The views of a sequence of actions, in the same order.
pub open spec fn actions_view(actions: Seq<Action>) -> Seq<ActionView> {
    actions.map_values(|a: Action| a@)
}

/// The action that sets `gauge` to `value`.
pub open spec fn set_gauge(gauge: Gauge, value: i64) -> ActionView {
    ActionView::Record(MetricUpdateView::SetGauge { gauge, value })
}

/// What the driver does before it waits for the next tick.
#[derive(Clone, Copy, Debug, PartialEq, Eq, Structural)]
pub enum LoopStep {
    /// leave the loop
    Stop,
    /// wait for this many seconds, then for the next tick
    PauseThenAwaitTick(u64),
    /// wait for the next tick
    AwaitTick,
}

/// Why a message could not be stored.
#[derive(Clone, Copy, Debug, PartialEq, Eq, Structural)]
pub enum ProcessError {
    /// The bytes are a message of none of the kinds.
    Unsupported,
    /// The store refused the message.
    Store(StoreError),
}

impl ProcessError {
    pub open spec fn spec_message(self) -> Seq<char> {
        match self {
            ProcessError::Unsupported => "Unsupported message types"@,
            ProcessError::Store(e) => e.spec_message(),
        }
    }

    /// The error as one line of text.
    pub fn message(&self) -> (r: &'static str)
        ensures
            r@ == self.spec_message(),
    {
        match self {
            ProcessError::Unsupported => "Unsupported message types",
            ProcessError::Store(e) => e.message(),
        }
    }
}

/// A number of peers as a gauge value: the number itself, or 0 where it is
/// beyond the range of a gauge.
pub open spec fn peer_gauge(peers: usize) -> i64 {
    if peers <= i64::MAX {
        peers as i64
    } else {
        0
    }
}

/// A number of peers as a gauge value.
pub fn peer_gauge_value(peers: usize) -> (r: i64)
    ensures
        r == peer_gauge(peers),
{
    if peers as u64 <= i64::MAX as u64 {
        peers as i64
    } else {
        0
    }
}

/// The size cap that is in force: the configured one where it is not negative.
pub open spec fn size_cap(max_storage: Option<i32>) -> Option<int> {
    match max_storage {
        Some(n) => if n >= 0 {
            Some(n as int)
        } else {
            None
        },
        None => None,
    }
}

/// The store after the size cap was applied, where one is in force.
pub open spec fn after_cap(s: StoreView, max_storage: Option<i32>) -> StoreView {
    match size_cap(max_storage) {
        Some(n) => s.retain(n),
        None => s,
    }
}

/// The store after a summary tick at `now`: first the size cap, then retention.
pub open spec fn after_summary(
    s: StoreView,
    max_storage: Option<i32>,
    retention: i32,
    now: i64,
) -> StoreView {
    after_cap(s, max_storage).prune(retention_cutoff(now as int, retention as int))
}

/// What a summary tick at `now` asks for: the number of rows that the size cap
/// deleted, where one is in force; then the number that cap and retention
/// deleted together; then the number of rows left; the summary line; the
/// deletion from the database of the rows that are gone; the pause.
pub open spec fn summary_actions(
    s: StoreView,
    max_storage: Option<i32>,
    retention: i32,
    now: i64,
) -> Seq<ActionView> {
    let capped = after_cap(s, max_storage);
    let done = after_summary(s, max_storage, retention, now);
    let by_cap = (s.rows.len() - capped.rows.len()) as i64;
    let total = (s.rows.len() - done.rows.len()) as i64;
    let left = done.rows.len() as i64;
    (if size_cap(max_storage) is Some {
        seq![set_gauge(Gauge::PrunedMessages, by_cap)]
    } else {
        Seq::empty()
    }) + seq![
        set_gauge(Gauge::PrunedMessages, total),
        set_gauge(Gauge::CachedMessages, left),
        ActionView::Report { total_messages: left, total_pruned: total },
        ActionView::KeepRows { ids: ids_of(done.rows), below: done.next_id },
        ActionView::Pause(ITERATION_PAUSE_SECONDS),
    ]
}

/// What a daily aggregate at `now` asks for: the writing of the snapshots
/// that it took, and the pause.
pub open spec fn daily_actions(s: StoreView, now: i64) -> Seq<ActionView> {
    seq![
        ActionView::Persist(after_daily(s, now).aggregates.skip(s.aggregates.len() as int)),
        ActionView::Pause(ITERATION_PAUSE_SECONDS),
    ]
}

/// The store after a daily aggregate at `now`: one snapshot for every sender
/// with a message in the day before `now`.
pub open spec fn after_daily(s: StoreView, now: i64) -> StoreView {
    s.insert_aggregates(
        now as int,
        indexer_stats(s.rows, None, window_start(now, 86400) as int),
    )
}

/// What a network tick asks for: the three peer gauges, the active peers
/// being the gossip peers; then, where topics are filtered, the topic update;
/// then the pause.
pub open spec fn network_actions(filter: bool, topics: Seq<String>, status: NetworkStatus) -> Seq<
    ActionView,
> {
    seq![
        set_gauge(
            Gauge::ConnectedPeers,
            peer_gauge(
                match status.connected_peers {
                    Some(n) => n,
                    None => 0,
                },
            ),
        ),
        set_gauge(Gauge::GossipPeers, peer_gauge(status.gossip_peers)),
        set_gauge(Gauge::ActivePeers, peer_gauge(status.gossip_peers)),
    ] + (if filter {
        seq![ActionView::UpdateContentTopics(topics)]
    } else {
        Seq::empty()
    }) + seq![ActionView::Pause(ITERATION_PAUSE_SECONDS)]
}

/// Something that happens to the operator.
#[derive(Clone, Copy, Debug, PartialEq, Eq)]
pub enum Event {
    /// a ticker fired at `now`, and the transport reports `status`
    Tick { tick: Tick, now: i64, status: NetworkStatus },
    /// the watchdog looks at the clock, which shows `now`
    Watchdog { now: i64 },
    /// a request to stop arrived
    Shutdown,
}

/// Mathematical value of a [`RadioOperator`].
pub struct OperatorView {
    pub config: Config,
    pub db: StoreView,
    pub notifier: NotifierView,
    pub running: bool,
    pub skip_iteration: bool,
    pub last_iteration: Option<i64>,
}

impl OperatorView {
    /// Whether topics are filtered.
    pub open spec fn filters(self) -> bool {
        self.config.filter_protocol == Some(true)
    }

    /// The operator after the work of `tick` at `now`, before the end of the
    /// iteration is noted. Every tick reads the skip flag and clears it, and
    /// does its work only where the flag was not set.
    pub open spec fn after_work(self, tick: Tick, now: i64) -> OperatorView {
        match tick {
            Tick::NetworkUpdate => OperatorView { skip_iteration: false, ..self },
            Tick::Summary => OperatorView {
                skip_iteration: false,
                db: if self.skip_iteration {
                    self.db
                } else {
                    after_summary(self.db, self.config.max_storage, self.config.retention, now)
                },
                ..self
            },
            Tick::DailyAggregate => OperatorView {
                skip_iteration: false,
                db: if self.skip_iteration {
                    self.db
                } else {
                    after_daily(self.db, now)
                },
                ..self
            },
        }
    }

    /// The operator after the iteration for `tick` that ended at `now`.
    pub open spec fn after_tick(self, tick: Tick, now: i64) -> OperatorView {
        OperatorView { last_iteration: Some(now), ..self.after_work(tick, now) }
    }

    /// What the iteration for `tick` at `now` asks for.
    pub open spec fn tick_actions(self, tick: Tick, now: i64, status: NetworkStatus) -> Seq<
        ActionView,
    > {
        match tick {
            Tick::NetworkUpdate => if self.skip_iteration {
                Seq::empty()
            } else {
                network_actions(self.filters(), self.config.topics@, status)
            },
            Tick::Summary => if self.skip_iteration {
                Seq::empty()
            } else {
                summary_actions(self.db, self.config.max_storage, self.config.retention, now)
            },
            Tick::DailyAggregate => if self.skip_iteration {
                Seq::empty()
            } else {
                daily_actions(self.db, now)
            },
        }
    }

    /// The operator after the watchdog looked at a clock that showed `now`.
    pub open spec fn after_watchdog(self, now: i64) -> OperatorView {
        match self.last_iteration {
            None => OperatorView { last_iteration: Some(now), ..self },
            Some(ended) => OperatorView {
                skip_iteration: self.skip_iteration || now - ended >= ITERATION_TIMEOUT_SECONDS,
                ..self
            },
        }
    }

    /// The operator after `event`.
    pub open spec fn after_event(self, event: Event) -> OperatorView {
        match event {
            Event::Tick { tick, now, status } => self.after_tick(tick, now),
            Event::Watchdog { now } => self.after_watchdog(now),
            Event::Shutdown => OperatorView { running: false, ..self },
        }
    }

    /// What `event` asks for: for a tick, the pause that comes first where the
    /// transport has no peer, then what the iteration asks for.
    pub open spec fn event_actions(self, event: Event) -> Seq<ActionView> {
        match event {
            Event::Tick { tick, now, status } => (if status.gossip_peers == 0 {
                seq![ActionView::Pause(NO_PEERS_PAUSE_SECONDS)]
            } else {
                Seq::empty()
            }) + self.tick_actions(tick, now, status),
            _ => Seq::empty(),
        }
    }

    /// The operator after the loop ran over `events`. Once the operator was
    /// asked to stop, the loop has ended and nothing more happens.
    pub open spec fn after_events(self, events: Seq<Event>) -> OperatorView
        decreases events.len(),
    {
        if events.len() == 0 || !self.running {
            self
        } else {
            self.after_event(events[0]).after_events(events.skip(1))
        }
    }

    /// Everything the loop asks for while it runs over `events`, in order.
    pub open spec fn actions_for(self, events: Seq<Event>) -> Seq<ActionView>
        decreases events.len(),
    {
        if events.len() == 0 || !self.running {
            Seq::empty()
        } else {
            self.event_actions(events[0]) + self.after_event(events[0]).actions_for(
                events.skip(1),
            )
        }
    }
}

/// Everything the radio operates on.
#[derive(Debug, PartialEq, Eq)]
pub struct RadioOperator {
    pub config: Config,
    pub db: MessageStore,
    pub notifier: Notifier,
    /// cleared by a request to shut down
    pub running: bool,
    /// set by the watchdog; makes the next iteration skip its work
    pub skip_iteration: bool,
    /// when the latest iteration ended, once there was one or the watchdog looked
    pub last_iteration: Option<i64>,
}

impl View for RadioOperator {
    type V = OperatorView;

    open spec fn view(&self) -> OperatorView {
        OperatorView {
            config: self.config,
            db: self.db@,
            notifier: self.notifier@,
            running: self.running,
            skip_iteration: self.skip_iteration,
            last_iteration: self.last_iteration,
        }
    }
}

impl RadioOperator {
    /// An operator for `config` with an empty store, running, with nothing to skip.
    pub fn new(config: Config) -> (r: RadioOperator)
        ensures
            r.config == config,
            r.db@.rows.len() == 0,
            r.db@.aggregates.len() == 0,
            r.db@.next_id == 1,
            r.db@.next_aggregate_id == 1,
            r.notifier@ == (NotifierView {
                radio_name: config.radio_name@,
                slack_webhook: optional_text(config.slack_webhook),
                discord_webhook: optional_text(config.discord_webhook),
                telegram_token: optional_text(config.telegram_token),
                telegram_chat_id: config.telegram_chat_id,
            }),
            r.running,
            !r.skip_iteration,
            r.last_iteration is None,
    {
        let notifier = Notifier::from_config(&config);
        RadioOperator {
            config,
            db: MessageStore::new(),
            notifier,
            running: true,
            skip_iteration: false,
            last_iteration: None,
        }
    }

    /// Whether topics are filtered.
    pub open spec fn filters(self) -> bool {
        self.config.filter_protocol == Some(true)
    }

    /// What has to be set up before the loop starts: the metrics endpoint
    /// where a port is configured for it, the topic subscription where topics
    /// are filtered, and the query API where a port is configured for it.
    pub open spec fn spec_startup(self) -> Seq<ActionView> {
        (match self.config.metrics_port {
            Some(port) => seq![ActionView::ServeMetrics { host: self.config.metrics_host@, port }],
            None => Seq::empty(),
        }) + (if self.filters() {
            seq![ActionView::UpdateContentTopics(self.config.topics@)]
        } else {
            Seq::empty()
        }) + (match self.config.server_port {
            Some(port) => seq![ActionView::ServeApi { host: self.config.server_host@, port }],
            None => Seq::empty(),
        })
    }

    /// What has to be set up before the loop starts.
    pub fn startup(&self) -> (r: Vec<Action>)
        ensures
            actions_view(r@) == self.spec_startup(),
    {
        let mut out: Vec<Action> = Vec::new();
        if let Some(port) = self.config.metrics_port {
            out.push(Action::ServeMetrics { host: self.config.metrics_host.clone(), port });
        }
        if let Some(true) = self.config.filter_protocol {
            out.push(Action::UpdateContentTopics(clone_strings(&self.config.topics)));
        }
        if let Some(port) = self.config.server_port {
            out.push(Action::ServeApi { host: self.config.server_host.clone(), port });
        }
        proof {
            assert(actions_view(out@) =~= self.spec_startup());
        }
        out
    }

    /// Asks the operator to stop: the loop ends before its next iteration.
    pub fn shutdown(&mut self)
        ensures
            *final(self) == (RadioOperator { running: false, ..*old(self) }),
    {
        self.running = false;
    }

    /// Tells the operator that no iteration completed in time: the next
    /// iteration that consults the flag skips its work.
    pub fn watchdog_expired(&mut self)
        ensures
            *final(self) == (RadioOperator { skip_iteration: true, ..*old(self) }),
    {
        self.skip_iteration = true;
    }

    /// Looks at the clock for the watchdog. Where the latest iteration ended
    /// [`ITERATION_TIMEOUT_SECONDS`] or more before `now`, the next iteration
    /// is made to skip its work. The first look only starts the measuring.
    pub fn watchdog(&mut self, now: i64)
        ensures
            *final(self) == (match old(self).last_iteration {
                None => RadioOperator { last_iteration: Some(now), ..*old(self) },
                Some(ended) => RadioOperator {
                    skip_iteration: old(self).skip_iteration || now - ended
                        >= ITERATION_TIMEOUT_SECONDS,
                    ..*old(self)
                },
            }),
    {
        match self.last_iteration {
            None => {
                self.last_iteration = Some(now);
            },
            Some(ended) => {
                if now as i128 - ended as i128 >= ITERATION_TIMEOUT_SECONDS as i128 {
                    self.skip_iteration = true;
                }
            },
        }
    }

    /// What the driver does before it waits for the next tick: stop when the
    /// operator was shut down; else pause first when the transport has no peer.
    pub fn before_tick(&self, gossip_peers: usize) -> (r: LoopStep)
        ensures
            r == (if !self.running {
                LoopStep::Stop
            } else if gossip_peers == 0 {
                LoopStep::PauseThenAwaitTick(NO_PEERS_PAUSE_SECONDS)
            } else {
                LoopStep::AwaitTick
            }),
    {
        if !self.running {
            LoopStep::Stop
        } else if gossip_peers == 0 {
            LoopStep::PauseThenAwaitTick(NO_PEERS_PAUSE_SECONDS)
        } else {
            LoopStep::AwaitTick
        }
    }

    /// The network tick. The store stays as it is. A skipped iteration clears
    /// the flag and does nothing else. Otherwise the three peer gauges are
    /// set, the topics are handed over where they are filtered, and the
    /// pause is asked for.
    pub fn network_update(&mut self, status: NetworkStatus) -> (r: Vec<Action>)
        ensures
            old(self).skip_iteration ==> r@.len() == 0,
            !old(self).skip_iteration ==> actions_view(r@) == network_actions(
                old(self).filters(),
                old(self).config.topics@,
                status,
            ),
            *final(self) == (RadioOperator { skip_iteration: false, ..*old(self) }),
    {
        let mut out: Vec<Action> = Vec::new();
        if self.skip_iteration {
            self.skip_iteration = false;
            return out;
        }
        let connected = match status.connected_peers {
            Some(n) => n,
            None => 0,
        };
        out.push(
            Action::Record(
                MetricUpdate::SetGauge {
                    gauge: Gauge::ConnectedPeers,
                    value: peer_gauge_value(connected),
                },
            ),
        );
        out.push(
            Action::Record(
                MetricUpdate::SetGauge {
                    gauge: Gauge::GossipPeers,
                    value: peer_gauge_value(status.gossip_peers),
                },
            ),
        );
        out.push(
            Action::Record(
                MetricUpdate::SetGauge {
                    gauge: Gauge::ActivePeers,
                    value: peer_gauge_value(status.gossip_peers),
                },
            ),
        );
        if let Some(true) = self.config.filter_protocol {
            out.push(Action::UpdateContentTopics(clone_strings(&self.config.topics)));
        }
        out.push(Action::Pause(ITERATION_PAUSE_SECONDS));
        proof {
            assert(actions_view(out@) =~= network_actions(
                self.filters(),
                self.config.topics@,
                status,
            ));
        }
        out
    }

    /// The summary tick at `now`. A skipped iteration clears the flag and does
    /// nothing else. Otherwise the size cap is applied where one is in force,
    /// then retention; the gauges and the summary line are asked for, and the
    /// deletion from the database of the rows that are gone.
    pub fn summary_update(&mut self, now: i64) -> (r: Vec<Action>)
        ensures
            final(self).config == old(self).config,
            final(self).notifier == old(self).notifier,
            final(self).running == old(self).running,
            final(self).last_iteration == old(self).last_iteration,
            !final(self).skip_iteration,
            old(self).skip_iteration ==> r@.len() == 0 && final(self).db@ == old(self).db@,
            !old(self).skip_iteration ==> final(self).db@ == after_summary(
                old(self).db@,
                old(self).config.max_storage,
                old(self).config.retention,
                now,
            ) && actions_view(r@) == summary_actions(
                old(self).db@,
                old(self).config.max_storage,
                old(self).config.retention,
                now,
            ),
    {
        let mut out: Vec<Action> = Vec::new();
        if self.skip_iteration {
            self.skip_iteration = false;
            return out;
        }
        let ghost before = self.db@;
        let mut total: i64 = 0;
        if let Some(max_storage) = self.config.max_storage {
            if max_storage >= 0 {
                let deleted = retain_max_storage(&mut self.db, max_storage as usize);
                proof {
                    lemma_row_count_fits(before);
                }
                total = total + deleted;
                out.push(
                    Action::Record(
                        MetricUpdate::SetGauge { gauge: Gauge::PrunedMessages, value: total },
                    ),
                );
            }
        }
        let deleted = prune_old_messages_at(
            &mut self.db,
            now,
            self.config.retention,
            PRUNE_BATCH_SIZE,
        );
        proof {
            lemma_row_count_fits(after_cap(before, self.config.max_storage));
        }
        total = total + deleted;
        out.push(
            Action::Record(MetricUpdate::SetGauge { gauge: Gauge::PrunedMessages, value: total }),
        );
        let left = count_messages(&self.db);
        out.push(
            Action::Record(MetricUpdate::SetGauge { gauge: Gauge::CachedMessages, value: left }),
        );
        out.push(Action::Report { total_messages: left, total_pruned: total });
        let ids = list_ids(&self.db);
        let below = self.db.next_id();
        out.push(Action::KeepRows { ids, below });
        out.push(Action::Pause(ITERATION_PAUSE_SECONDS));
        proof {
            assert(actions_view(out@) =~= summary_actions(
                before,
                self.config.max_storage,
                self.config.retention,
                now,
            ));
        }
        out
    }

    /// The daily aggregate at `now`. A skipped iteration clears the flag and
    /// does nothing else. Otherwise one snapshot is stored for every sender
    /// with a message in the day before `now`; the writing of these snapshots
    /// to the database is asked for, and the pause.
    pub fn daily_aggregate(&mut self, now: i64) -> (r: Vec<Action>)
        ensures
            final(self).config == old(self).config,
            final(self).notifier == old(self).notifier,
            final(self).running == old(self).running,
            final(self).last_iteration == old(self).last_iteration,
            !final(self).skip_iteration,
            old(self).skip_iteration ==> r@.len() == 0 && final(self).db@ == old(self).db@,
            !old(self).skip_iteration ==> final(self).db@ == after_daily(old(self).db@, now)
                && actions_view(r@) == daily_actions(old(self).db@, now),
    {
        let mut out: Vec<Action> = Vec::new();
        if self.skip_iteration {
            self.skip_iteration = false;
            return out;
        }
        let ghost before = self.db@;
        let from_timestamp = days_before(now, 1);
        let stats = get_indexer_stats(&self.db, None, from_timestamp);
        let ghost all = stats_view(stats@);
        let ghost held = before.aggregates.len() as int;
        let mut taken: Vec<Aggregate> = Vec::new();
        let mut i: usize = 0;
        proof {
            assert(all.skip(0) =~= all);
            assert(aggregates_view(taken@) =~= before.aggregates.skip(held));
        }
        while i < stats.len()
            invariant
                i <= stats.len(),
                all == stats_view(stats@),
                before.insert_aggregates(now as int, all) == self.db@.insert_aggregates(
                    now as int,
                    all.skip(i as int),
                ),
                held == before.aggregates.len(),
                held <= self.db@.aggregates.len(),
                aggregates_view(taken@) == self.db@.aggregates.skip(held),
                self.config == old(self).config,
                self.notifier == old(self).notifier,
                self.running == old(self).running,
                self.skip_iteration == old(self).skip_iteration,
                self.last_iteration == old(self).last_iteration,
            decreases stats.len() - i,
        {
            proof {
                assert(all.skip(i as int)[0] == stats@[i as int]@);
                assert(all.skip(i as int).skip(1) =~= all.skip(i + 1));
            }
            let stat = &stats[i];
            let ghost stored = self.db@.aggregates;
            let ghost collected = aggregates_view(taken@);
            if let Ok(id) = insert_aggregate(
                &mut self.db,
                now,
                stat.graph_account.clone(),
                stat.message_count,
                stat.subgraphs_count,
            ) {
                let snapshot = Aggregate {
                    id,
                    created_at_ts: now,
                    graph_account: stat.graph_account.clone(),
                    message_count: stat.message_count,
                    subgraphs_count: stat.subgraphs_count,
                };
                taken.push(snapshot);
                proof {
                    assert(self.db@.aggregates == stored.push(snapshot@));
                    assert(aggregates_view(taken@) =~= collected.push(snapshot@));
                    assert(stored.push(snapshot@).skip(held) =~= stored.skip(held).push(
                        snapshot@,
                    ));
                }
            }
            i += 1;
        }
        out.push(Action::Persist(taken));
        out.push(Action::Pause(ITERATION_PAUSE_SECONDS));
        proof {
            assert(actions_view(out@) =~= daily_actions(before, now));
        }
        out
    }

    /// One iteration of the schedule: what `tick` stands for, at `now`, with
    /// what the transport reports in `status`. The iteration ends at `now`,
    /// whether it did its work or skipped it.
    pub fn on_tick(&mut self, tick: Tick, now: i64, status: NetworkStatus) -> (r: Vec<Action>)
        ensures
            final(self)@ == old(self)@.after_tick(tick, now),
            actions_view(r@) == old(self)@.tick_actions(tick, now, status),
    {
        let actions = match tick {
            Tick::NetworkUpdate => self.network_update(status),
            Tick::Summary => {
                let actions = self.summary_update(now);
                proof {
                    if old(self).skip_iteration {
                        assert(actions_view(actions@) =~= Seq::<ActionView>::empty());
                    }
                }
                actions
            },
            Tick::DailyAggregate => {
                let actions = self.daily_aggregate(now);
                proof {
                    if old(self).skip_iteration {
                        assert(actions_view(actions@) =~= Seq::<ActionView>::empty());
                    }
                }
                actions
            },
        };
        self.last_iteration = Some(now);
        actions
    }

    /// What `event` does to the operator and what it asks for.
    pub fn on_event(&mut self, event: Event) -> (r: Vec<Action>)
        ensures
            final(self)@ == old(self)@.after_event(event),
            actions_view(r@) == old(self)@.event_actions(event),
    {
        match event {
            Event::Tick { tick, now, status } => {
                let mut out: Vec<Action> = Vec::new();
                if status.gossip_peers == 0 {
                    out.push(Action::Pause(NO_PEERS_PAUSE_SECONDS));
                }
                let ghost first = actions_view(out@);
                let mut actions = self.on_tick(tick, now, status);
                let ghost second = actions_view(actions@);
                out.append(&mut actions);
                proof {
                    assert(actions_view(out@) =~= first + second);
                    assert(first =~= (if status.gossip_peers == 0 {
                        seq![ActionView::Pause(NO_PEERS_PAUSE_SECONDS)]
                    } else {
                        Seq::empty()
                    }));
                }
                out
            },
            Event::Watchdog { now } => {
                self.watchdog(now);
                let out: Vec<Action> = Vec::new();
                proof {
                    assert(actions_view(out@) =~= Seq::<ActionView>::empty());
                }
                out
            },
            Event::Shutdown => {
                self.shutdown();
                let out: Vec<Action> = Vec::new();
                proof {
                    assert(actions_view(out@) =~= Seq::<ActionView>::empty());
                }
                out
            },
        }
    }

    /// Runs the loop over `events`, first to last, for as long as the
    /// operator has not been asked to stop, and returns everything that was
    /// asked for on the way.
    pub fn run(&mut self, events: &Vec<Event>) -> (r: Vec<Action>)
        ensures
            final(self)@ == old(self)@.after_events(events@),
            actions_view(r@) == old(self)@.actions_for(events@),
    {
        let ghost start = self@;
        let ghost all = events@;
        let mut out: Vec<Action> = Vec::new();
        let mut i: usize = 0;
        proof {
            assert(all.skip(0) =~= all);
            assert(actions_view(out@) + start.actions_for(all) =~= start.actions_for(all));
        }
        while i < events.len() && self.running
            invariant
                i <= events.len(),
                all == events@,
                start.after_events(all) == self@.after_events(all.skip(i as int)),
                start.actions_for(all) == actions_view(out@) + self@.actions_for(
                    all.skip(i as int),
                ),
            decreases events.len() - i,
        {
            let ghost before = self@;
            let ghost done = actions_view(out@);
            proof {
                assert(all.skip(i as int)[0] == all[i as int]);
                assert(all.skip(i as int).skip(1) =~= all.skip(i + 1));
            }
            let mut actions = self.on_event(events[i]);
            let ghost fresh = actions_view(actions@);
            out.append(&mut actions);
            proof {
                assert(actions_view(out@) =~= done + fresh);
                assert(done + (fresh + self@.actions_for(all.skip(i + 1))) =~= (done + fresh)
                    + self@.actions_for(all.skip(i + 1)));
            }
            i += 1;
        }
        proof {
            if i == events.len() {
                assert(all.skip(i as int) =~= Seq::<Event>::empty());
            }
            assert(actions_view(out@) + Seq::<ActionView>::empty() =~= actions_view(out@));
        }
        out
    }
}

/// Loop law: an operator that was asked to stop does nothing more, whatever
/// happens: it stays as it is and asks for nothing.
pub proof fn lemma_stopped_operator_does_nothing(o: OperatorView, events: Seq<Event>)
    requires
        !o.running,
    ensures
        o.after_events(events) == o,
        o.actions_for(events) == Seq::<ActionView>::empty(),
{
}

/// Loop law: no event but the request to stop makes the operator stop, and
/// after that request it is stopped for good.
pub proof fn lemma_only_shutdown_stops(o: OperatorView, event: Event)
    ensures
        o.after_event(event).running == (o.running && event != Event::Shutdown),
{
}

/// Loop law: the ticks and the watchdog leave every row of the store as it
/// is or delete it; they never add or change one. And they leave every
/// snapshot as it is; they only add new ones behind.
pub proof fn lemma_ticks_only_delete(o: OperatorView, event: Event)
    requires
        o.db.well_formed(),
    ensures
        forall|r: RowView| #[trigger]
            o.after_event(event).db.rows.contains(r) ==> o.db.rows.contains(r),
        o.after_event(event).db.next_id == o.db.next_id,
        o.db.aggregates.len() <= o.after_event(event).db.aggregates.len(),
        forall|i: int|
            0 <= i < o.db.aggregates.len() ==> #[trigger] o.after_event(event).db.aggregates[i]
                == o.db.aggregates[i],
{
    match event {
        Event::Tick { tick, now, status } => {
            match tick {
                Tick::NetworkUpdate => {},
                Tick::Summary => {
                    if !o.skip_iteration {
                        let capped = after_cap(o.db, o.config.max_storage);
                        let cutoff = retention_cutoff(now as int, o.config.retention as int);
                        lemma_prune_exact(capped.rows, cutoff);
                        assert forall|r: RowView| #[trigger]
                            capped.rows.contains(r) implies o.db.rows.contains(r) by {
                            if size_cap(o.config.max_storage) is Some {
                                let n = size_cap(o.config.max_storage)->Some_0;
                                let i = choose|i: int|
                                    0 <= i < capped.rows.len() && capped.rows[i] == r;
                                if n < o.db.rows.len() && n > 0 {
                                    assert(capped.rows[i] == o.db.rows[o.db.rows.len() - n + i]);
                                }
                            }
                        }
                    }
                },
                Tick::DailyAggregate => {
                    if !o.skip_iteration {
                        let stats = indexer_stats(
                            o.db.rows,
                            None,
                            window_start(now, 86400) as int,
                        );
                        lemma_insert_aggregates_keeps_rows(o.db, now as int, stats);
                        lemma_insert_aggregates_appends(o.db, now as int, stats);
                    }
                },
            }
        },
        _ => {},
    }
}

/// What storing the message in `bytes` does to the store: appended where the
/// bytes are a message that the store takes, untouched where they are no
/// message or the store refuses it.
pub open spec fn after_message(s: StoreView, bytes: Seq<u8>) -> StoreView {
    match decode_any(bytes) {
        Ok(m) => if insert_outcome(s, m) is Ok {
            s.insert(m)
        } else {
            s
        },
        Err(_) => s,
    }
}

/// What comes of storing the message in `bytes`: the id of the new row, the
/// refusal of the store, or the finding that the bytes are no message.
pub open spec fn message_outcome(s: StoreView, bytes: Seq<u8>) -> Result<i64, ProcessError> {
    match decode_any(bytes) {
        Ok(m) => match insert_outcome(s, m) {
            Ok(id) => Ok(id),
            Err(e) => Err(ProcessError::Store(e)),
        },
        Err(_) => Err(ProcessError::Unsupported),
    }
}

/// Reads `payload` as a message of the first kind that fits and appends it to
/// the store. Returns the id of the new row.
pub fn process_message(db: &mut MessageStore, payload: &[u8]) -> (r: Result<i64, ProcessError>)
    ensures
        old(db)@.well_formed(),
        final(db)@.well_formed(),
        final(db)@ == after_message(old(db)@, payload@),
        r == message_outcome(old(db)@, payload@),
{
    proof {
        use_type_invariant(&*db);
    }
    match decode_message(payload) {
        Ok(message) => match add_message(db, message) {
            Ok(id) => Ok(id),
            Err(e) => Err(ProcessError::Store(e)),
        },
        Err(_) => Err(ProcessError::Unsupported),
    }
}

/// What came of one message of the transport.
#[derive(Debug, PartialEq, Eq)]
pub struct Processed {
    /// the counters that the message adds to, in order
    pub counts: Vec<MetricUpdate>,
    /// the id of the new row, or why there is none
    pub outcome: Result<i64, ProcessError>,
}

/// The views of a sequence of updates, in the same order.
pub open spec fn updates_view(updates: Seq<MetricUpdate>) -> Seq<MetricUpdateView> {
    updates.map_values(|u: MetricUpdate| u@)
}

/// The counters that a message adds to: always the received messages; then
/// the validated messages under the message's identifier where the bytes are
/// a message, and the invalidated messages under the kind of the error where
/// they are none.
pub open spec fn message_counts(bytes: Seq<u8>) -> Seq<MetricUpdateView> {
    seq![
        MetricUpdateView::Increment { counter: Counter::ReceivedMessages },
        match decode_any(bytes) {
            Ok(m) => MetricUpdateView::IncrementLabelled {
                family: LabelledCounter::ValidatedMessages,
                label: m.identifier,
            },
            Err(e) => MetricUpdateView::IncrementLabelled {
                family: LabelledCounter::InvalidatedMessages,
                label: e.spec_type_string(),
            },
        },
    ]
}

/// Takes one message from the transport: counts it as received, reads it,
/// counts it as validated or invalidated as [`RadioOperator::radio_msg_handler`]
/// says, and stores it as [`process_message`] does.
pub fn message_processor(db: &mut MessageStore, payload: &[u8]) -> (r: Processed)
    ensures
        old(db)@.well_formed(),
        final(db)@.well_formed(),
        updates_view(r.counts@) == message_counts(payload@),
        final(db)@ == after_message(old(db)@, payload@),
        r.outcome == message_outcome(old(db)@, payload@),
{
    proof {
        use_type_invariant(&*db);
    }
    let mut counts: Vec<MetricUpdate> = Vec::new();
    counts.push(MetricUpdate::Increment { counter: Counter::ReceivedMessages });
    let Handled { count, forward } = RadioOperator::radio_msg_handler(decode_message(payload));
    counts.push(count);
    proof {
        assert(updates_view(counts@) =~= message_counts(payload@));
    }
    let outcome = match forward {
        Some(message) => match add_message(db, message) {
            Ok(id) => Ok(id),
            Err(e) => Err(ProcessError::Store(e)),
        },
        None => Err(ProcessError::Unsupported),
    };
    Processed { counts, outcome }
}

} // verus!
