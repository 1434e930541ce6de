//! The radio's counters and gauges: their names, how they are created and
//! registered, and how an update reaches the right one.
use vstd::prelude::*;
use crate::text::{bind_address, spec_bind_address};

verus! {

/// The registry of the metrics crate, `prometheus::Registry`.
#[verifier::external_type_specification]
#[verifier::external_body]
pub struct ExRegistry(prometheus::Registry);

/// One gauge: a `prometheus::IntGauge`. That type is an alias of a generic
/// type whose bound is a trait of the metrics crate, so it is held here as a whole.
#[verifier::external_body]
pub struct GaugeCell {
    inner: prometheus::IntGauge,
}

/// One counter: a `prometheus::IntCounter`, held as a whole for the same reason.
#[verifier::external_body]
pub struct CounterCell {
    inner: prometheus::IntCounter,
}

/// A family of counters told apart by one label: a `prometheus::IntCounterVec`.
/// The metrics crate keeps a part of that type private, so it is held here as a whole.
#[verifier::external_body]
pub struct CounterFamily {
    inner: prometheus::IntCounterVec,
}

/// The names under which collectors are registered with `registry`.
pub uninterp spec fn registered(registry: prometheus::Registry) -> Set<Seq<char>>;

/// Whether `registry`, after collectors with the descriptions `earlier` were
/// handed to it one by one, takes a collector with the description
/// `description`. A description is what a collector was made with: its full
/// name, its help text, and the names of its labels.
pub uninterp spec fn accepts(
    registry: prometheus::Registry,
    earlier: Seq<Seq<Seq<char>>>,
    description: Seq<Seq<char>>,
) -> bool;

/// What [`accepts`] is for a registry that was new before the first of
/// `earlier` was handed to it.
pub uninterp spec fn accepts_when_new(
    earlier: Seq<Seq<Seq<char>>>,
    description: Seq<Seq<char>>,
) -> bool;

/// What `gauge` was made with: its full name, then its help text.
pub uninterp spec fn gauge_description(gauge: GaugeCell) -> Seq<Seq<char>>;

/// The value that `gauge` holds.
pub uninterp spec fn gauge_value(gauge: GaugeCell) -> i64;

/// What `counter` was made with: its full name, then its help text.
pub uninterp spec fn counter_description(counter: CounterCell) -> Seq<Seq<char>>;

/// The count that `counter` holds.
pub uninterp spec fn counter_value(counter: CounterCell) -> u64;

/// What `family` was made with: its full name, then its help text, then the
/// names of its labels.
pub uninterp spec fn family_description(family: CounterFamily) -> Seq<Seq<char>>;

/// The count that `family` holds under the label value `label`: 0 as long as
/// nothing was counted under it.
pub uninterp spec fn family_count(family: CounterFamily, label: Seq<char>) -> u64;

/// The full name of a metric: namespace, subsystem and name, joined by
/// underscores, where an empty namespace or subsystem is left out. A metric
/// without a name has no full name either.
pub open spec fn full_name(namespace: Seq<char>, subsystem: Seq<char>, name: Seq<char>) -> Seq<
    char,
> {
    if name.len() == 0 {
        Seq::empty()
    } else if namespace.len() > 0 && subsystem.len() > 0 {
        namespace + seq!['_'] + subsystem + seq!['_'] + name
    } else if namespace.len() > 0 {
        namespace + seq!['_'] + name
    } else if subsystem.len() > 0 {
        subsystem + seq!['_'] + name
    } else {
        name
    }
}

/// A letter of the English alphabet, small or capital.
pub open spec fn ascii_letter(c: char) -> bool {
    ('a' <= c && c <= 'z') || ('A' <= c && c <= 'Z')
}

/// One of the ten digits.
pub open spec fn ascii_digit(c: char) -> bool {
    '0' <= c && c <= '9'
}

/// The text can name a label: it begins with a letter or an underscore and
/// goes on with letters, underscores and digits.
pub open spec fn valid_label_name(text: Seq<char>) -> bool {
    &&& text.len() > 0
    &&& ascii_letter(text[0]) || text[0] == '_'
    &&& forall|i: int|
        0 < i < text.len() ==> ascii_letter(#[trigger] text[i]) || text[i] == '_' || ascii_digit(
            text[i],
        )
}

/// The text can name a metric: as for a label, and a colon may stand wherever
/// a letter may.
pub open spec fn valid_metric_name(text: Seq<char>) -> bool {
    &&& text.len() > 0
    &&& ascii_letter(text[0]) || text[0] == '_' || text[0] == ':'
    &&& forall|i: int|
        0 < i < text.len() ==> ascii_letter(#[trigger] text[i]) || text[i] == '_' || text[i]
            == ':' || ascii_digit(text[i])
}

/// The text holds small letters and underscores only, and at least one of them.
pub open spec fn plain_name(text: Seq<char>) -> bool {
    &&& text.len() > 0
    &&& forall|i: int|
        0 <= i < text.len() ==> ('a' <= #[trigger] text[i] && text[i] <= 'z') || text[i] == '_'
}

/// A full name built from three plain names can name a metric, and a plain
/// name can name a label.
pub proof fn lemma_plain_names_are_valid(
    namespace: Seq<char>,
    subsystem: Seq<char>,
    name: Seq<char>,
)
    requires
        plain_name(namespace),
        plain_name(subsystem),
        plain_name(name),
    ensures
        valid_metric_name(full_name(namespace, subsystem, name)),
        valid_label_name(name),
{
    let full = full_name(namespace, subsystem, name);
    assert(full =~= namespace + seq!['_'] + subsystem + seq!['_'] + name);
    assert forall|i: int| 0 <= i < full.len() implies ('a' <= #[trigger] full[i] && full[i] <= 'z')
        || full[i] == '_' by {
        if i < namespace.len() {
            assert(full[i] == namespace[i]);
        } else if i == namespace.len() {
        } else if i < namespace.len() + 1 + subsystem.len() {
            assert(full[i] == subsystem[i - namespace.len() - 1]);
        } else if i == namespace.len() + 1 + subsystem.len() {
        } else {
            assert(full[i] == name[i - namespace.len() - subsystem.len() - 2]);
        }
    }
    assert(full[0] == namespace[0]);
}

/// The count after one more was counted. A count that is at its last value
/// starts again at 0.
pub open spec fn next_count(count: u64) -> u64 {
    if count == u64::MAX {
        0
    } else {
        (count + 1) as u64
    }
}

/// First part of every metric's full name.
pub const NAMESPACE: &'static str = "graphcast";

/// Second part of every metric's full name.
pub const SUBSYSTEM: &'static str = "listener_radio";

/// A value that is set.
#[derive(Clone, Copy, Debug, PartialEq, Eq, Structural)]
pub enum Gauge {
    /// number of messages in the store
    CachedMessages,
    /// number of discoverable active peers
    ActivePeers,
    /// number of peers connected with the agent
    ConnectedPeers,
    /// number of gossip peers discovered
    GossipPeers,
    /// number of messages deleted by the latest maintenance
    PrunedMessages,
}

/// A value that only grows, one per label value.
#[derive(Clone, Copy, Debug, PartialEq, Eq, Structural)]
pub enum LabelledCounter {
    /// messages that passed validation, by deployment
    ValidatedMessages,
    /// messages that failed validation, by kind of error
    InvalidatedMessages,
}

/// A value that only grows.
#[derive(Clone, Copy, Debug, PartialEq, Eq, Structural)]
pub enum Counter {
    /// messages received in total
    ReceivedMessages,
}

/// Any of the radio's metrics.
#[derive(Clone, Copy, Debug, PartialEq, Eq, Structural)]
pub enum Metric {
    Labelled(LabelledCounter),
    Plain(Counter),
    Level(Gauge),
}

/// One change to one metric.
#[derive(Debug, PartialEq, Eq)]
pub enum MetricUpdate {
    SetGauge { gauge: Gauge, value: i64 },
    Increment { counter: Counter },
    IncrementLabelled { family: LabelledCounter, label: String },
}

/// Mathematical value of a [`MetricUpdate`].
pub enum MetricUpdateView {
    SetGauge { gauge: Gauge, value: i64 },
    Increment { counter: Counter },
    IncrementLabelled { family: LabelledCounter, label: Seq<char> },
}

impl View for MetricUpdate {
    type V = MetricUpdateView;

    open spec fn view(&self) -> MetricUpdateView {
        match self {
            MetricUpdate::SetGauge { gauge, value } => MetricUpdateView::SetGauge {
                gauge: *gauge,
                value: *value,
            },
            MetricUpdate::Increment { counter } => MetricUpdateView::Increment {
                counter: *counter,
            },
            MetricUpdate::IncrementLabelled { family, label } => MetricUpdateView::IncrementLabelled {
                family: *family,
                label: label@,
            },
        }
    }
}

impl Gauge {
    pub open spec fn spec_name(self) -> Seq<char> {
        match self {
            Gauge::CachedMessages => "cached_messages"@,
            Gauge::ActivePeers => "active_peers"@,
            Gauge::ConnectedPeers => "connected_peers"@,
            Gauge::GossipPeers => "gossip_peers"@,
            Gauge::PrunedMessages => "pruned_messages"@,
        }
    }

    /// The gauge's own name, without namespace and subsystem.
    pub fn name(&self) -> (r: &'static str)
        ensures
            r@ == self.spec_name(),
    {
        match self {
            Gauge::CachedMessages => "cached_messages",
            Gauge::ActivePeers => "active_peers",
            Gauge::ConnectedPeers => "connected_peers",
            Gauge::GossipPeers => "gossip_peers",
            Gauge::PrunedMessages => "pruned_messages",
        }
    }

    pub open spec fn spec_help(self) -> Seq<char> {
        match self {
            Gauge::CachedMessages => "Number of messages in cache"@,
            Gauge::ActivePeers => "Number of discoverable active peers on network"@,
            Gauge::ConnectedPeers => "Number of Gossip peers connected with Graphcast agent"@,
            Gauge::GossipPeers => "Total number of gossip peers discovered"@,
            Gauge::PrunedMessages => "Number of messages pruned by the latest maintenance"@,
        }
    }

    /// The sentence that explains the gauge.
    pub fn help(&self) -> (r: &'static str)
        ensures
            r@ == self.spec_help(),
    {
        match self {
            Gauge::CachedMessages => "Number of messages in cache",
            Gauge::ActivePeers => "Number of discoverable active peers on network",
            Gauge::ConnectedPeers => "Number of Gossip peers connected with Graphcast agent",
            Gauge::GossipPeers => "Total number of gossip peers discovered",
            Gauge::PrunedMessages => "Number of messages pruned by the latest maintenance",
        }
    }
}

impl LabelledCounter {
    pub open spec fn spec_name(self) -> Seq<char> {
        match self {
            LabelledCounter::ValidatedMessages => "validated_messages"@,
            LabelledCounter::InvalidatedMessages => "invalidated_messages"@,
        }
    }

    /// The counter's own name, without namespace and subsystem.
    pub fn name(&self) -> (r: &'static str)
        ensures
            r@ == self.spec_name(),
    {
        match self {
            LabelledCounter::ValidatedMessages => "validated_messages",
            LabelledCounter::InvalidatedMessages => "invalidated_messages",
        }
    }

    pub open spec fn spec_help(self) -> Seq<char> {
        match self {
            LabelledCounter::ValidatedMessages => "Number of validated messages"@,
            LabelledCounter::InvalidatedMessages => "Number of invalid messages received"@,
        }
    }

    /// The sentence that explains the counter.
    pub fn help(&self) -> (r: &'static str)
        ensures
            r@ == self.spec_help(),
    {
        match self {
            LabelledCounter::ValidatedMessages => "Number of validated messages",
            LabelledCounter::InvalidatedMessages => "Number of invalid messages received",
        }
    }

    pub open spec fn spec_label(self) -> Seq<char> {
        match self {
            LabelledCounter::ValidatedMessages => "deployment"@,
            LabelledCounter::InvalidatedMessages => "error_type"@,
        }
    }

    /// The name of the label that tells the counters of the family apart.
    pub fn label(&self) -> (r: &'static str)
        ensures
            r@ == self.spec_label(),
    {
        match self {
            LabelledCounter::ValidatedMessages => "deployment",
            LabelledCounter::InvalidatedMessages => "error_type",
        }
    }
}

impl Counter {
    pub open spec fn spec_name(self) -> Seq<char> {
        "received_messages"@
    }

    /// The counter's own name, without namespace and subsystem.
    pub fn name(&self) -> (r: &'static str)
        ensures
            r@ == self.spec_name(),
    {
        "received_messages"
    }

    pub open spec fn spec_help(self) -> Seq<char> {
        "Number of messages received in total"@
    }

    /// The sentence that explains the counter.
    pub fn help(&self) -> (r: &'static str)
        ensures
            r@ == self.spec_help(),
    {
        "Number of messages received in total"
    }
}

impl Metric {
    /// The metric's own name, without namespace and subsystem.
    pub open spec fn spec_name(self) -> Seq<char> {
        match self {
            Metric::Labelled(counter) => counter.spec_name(),
            Metric::Plain(counter) => counter.spec_name(),
            Metric::Level(gauge) => gauge.spec_name(),
        }
    }

    /// The name under which the metric is exposed.
    pub open spec fn spec_full_name(self) -> Seq<char> {
        full_name(NAMESPACE@, SUBSYSTEM@, self.spec_name())
    }

    /// The sentence that explains the metric.
    pub open spec fn spec_help(self) -> Seq<char> {
        match self {
            Metric::Labelled(counter) => counter.spec_help(),
            Metric::Plain(counter) => counter.spec_help(),
            Metric::Level(gauge) => gauge.spec_help(),
        }
    }

    /// What the metric's collector is made with: the full name, the help
    /// text, and for a family of counters the name of its label.
    pub open spec fn spec_description(self) -> Seq<Seq<char>> {
        match self {
            Metric::Labelled(counter) => seq![
                self.spec_full_name(),
                self.spec_help(),
                counter.spec_label(),
            ],
            _ => seq![self.spec_full_name(), self.spec_help()],
        }
    }
}

/// `registry` takes every one of `descriptions` when collectors with these
/// descriptions are handed to it one by one.
pub open spec fn takes_all(
    registry: prometheus::Registry,
    descriptions: Seq<Seq<Seq<char>>>,
) -> bool {
    forall|i: int|
        0 <= i < descriptions.len() ==> accepts(
            registry,
            #[trigger] descriptions.take(i),
            descriptions[i],
        )
}

/// A new registry takes every one of `descriptions` when collectors with
/// these descriptions are handed to it one by one.
pub open spec fn new_takes_all(descriptions: Seq<Seq<Seq<char>>>) -> bool {
    forall|i: int|
        0 <= i < descriptions.len() ==> accepts_when_new(
            #[trigger] descriptions.take(i),
            descriptions[i],
        )
}

/// The views of a sequence of updates, in the same order.
pub open spec fn update_views(updates: Seq<MetricUpdate>) -> Seq<MetricUpdateView> {
    updates.map_values(|u: MetricUpdate| u@)
}

/// What `gauge` holds after `updates` were applied in order to a gauge that
/// held `start`: the value of the last update that sets it, or `start` where
/// none does.
pub open spec fn level_after(updates: Seq<MetricUpdateView>, gauge: Gauge, start: i64) -> i64
    decreases updates.len(),
{
    if updates.len() == 0 {
        start
    } else {
        match updates.last() {
            MetricUpdateView::SetGauge { gauge: set, value } => if set == gauge {
                value
            } else {
                level_after(updates.drop_last(), gauge, start)
            },
            _ => level_after(updates.drop_last(), gauge, start),
        }
    }
}

/// What the plain counter holds after `updates` were applied to a counter that
/// held `start`: one more for each update that increments it.
pub open spec fn count_after(updates: Seq<MetricUpdateView>, start: u64) -> u64
    decreases updates.len(),
{
    if updates.len() == 0 {
        start
    } else {
        match updates.last() {
            MetricUpdateView::Increment { counter: _ } => next_count(
                count_after(updates.drop_last(), start),
            ),
            _ => count_after(updates.drop_last(), start),
        }
    }
}

/// The metrics that are registered at start, in the order of registration:
/// every metric of the radio.
pub open spec fn registered_metrics() -> Seq<Metric> {
    seq![
        Metric::Labelled(LabelledCounter::ValidatedMessages),
        Metric::Labelled(LabelledCounter::InvalidatedMessages),
        Metric::Level(Gauge::CachedMessages),
        Metric::Level(Gauge::ActivePeers),
        Metric::Level(Gauge::ConnectedPeers),
        Metric::Level(Gauge::GossipPeers),
        Metric::Plain(Counter::ReceivedMessages),
        Metric::Level(Gauge::PrunedMessages),
    ]
}

/// Calls `prometheus::Registry::new`: a registry with no collector in it. The
/// first collector that is handed to it is taken, whatever its description.
#[verifier::external_body]
fn new_registry() -> (registry: prometheus::Registry)
    ensures
        registered(registry) == Set::<Seq<char>>::empty(),
        forall|description: Seq<Seq<char>>| #[trigger]
            accepts(registry, Seq::empty(), description),
        forall|earlier: Seq<Seq<Seq<char>>>, description: Seq<Seq<char>>| #[trigger]
            accepts(registry, earlier, description) == accepts_when_new(earlier, description),
{
    prometheus::Registry::new()
}

/// Builds `prometheus::Opts` from the four texts and calls
/// `prometheus::IntGauge::with_opts`. `None` where the crate refuses the
/// description, which it does for an empty help text and for a full name
/// that cannot name a metric, and for nothing else. A gauge that was made
/// carries the full name built from the three parts, and holds 0.
#[verifier::external_body]
fn new_gauge(namespace: &str, subsystem: &str, name: &str, help: &str) -> (r: Option<GaugeCell>)
    ensures
        (r is Some) == (help@.len() > 0 && valid_metric_name(
            full_name(namespace@, subsystem@, name@),
        )),
        r matches Some(gauge) ==> gauge_description(gauge) == seq![
            full_name(namespace@, subsystem@, name@),
            help@,
        ] && gauge_value(gauge) == 0,
{
    let opts = prometheus::Opts::new(name, help).namespace(namespace).subsystem(subsystem);
    prometheus::IntGauge::with_opts(opts).ok().map(|inner| GaugeCell { inner })
}

/// Builds `prometheus::Opts` from the four texts and calls
/// `prometheus::IntCounter::with_opts`. `None` where the crate refuses the
/// description, which it does for an empty help text and for a full name
/// that cannot name a metric, and for nothing else. A counter that was made
/// carries the full name built from the three parts, and holds 0.
#[verifier::external_body]
fn new_counter(namespace: &str, subsystem: &str, name: &str, help: &str) -> (r: Option<
    CounterCell,
>)
    ensures
        (r is Some) == (help@.len() > 0 && valid_metric_name(
            full_name(namespace@, subsystem@, name@),
        )),
        r matches Some(counter) ==> counter_description(counter) == seq![
            full_name(namespace@, subsystem@, name@),
            help@,
        ] && counter_value(counter) == 0,
{
    let opts = prometheus::Opts::new(name, help).namespace(namespace).subsystem(subsystem);
    prometheus::IntCounter::with_opts(opts).ok().map(|inner| CounterCell { inner })
}

/// Builds `prometheus::Opts` from the four texts and calls
/// `prometheus::IntCounterVec::new` with the one label name. `None` where the
/// crate refuses the description, which it does for an empty help text, for a
/// full name that cannot name a metric and for a label name that cannot name
/// a label, and for nothing else. A family that was made carries the full
/// name built from the three parts and the one label name, and holds no count
/// yet.
#[verifier::external_body]
fn new_counter_family(
    namespace: &str,
    subsystem: &str,
    name: &str,
    help: &str,
    label: &str,
) -> (r: Option<CounterFamily>)
    ensures
        (r is Some) == (help@.len() > 0 && valid_metric_name(
            full_name(namespace@, subsystem@, name@),
        ) && valid_label_name(label@)),
        r matches Some(family) ==> family_description(family) == seq![
            full_name(namespace@, subsystem@, name@),
            help@,
            label@,
        ] && forall|value: Seq<char>| #[trigger] family_count(family, value) == 0,
{
    let opts = prometheus::Opts::new(name, help).namespace(namespace).subsystem(subsystem);
    prometheus::IntCounterVec::new(opts, &[label]).ok().map(|inner| CounterFamily { inner })
}

/// Calls `prometheus::Registry::register` with a handle to `gauge`. Whether the
/// registry accepts it is decided by the registry as it stands and by the
/// gauge's description, and by nothing else: that decision is [`accepts`].
/// What the registry decides later is what it would have decided had this
/// gauge been handed to it first. A name that is registered is never taken a
/// second time. Where the registry accepts, the gauge's name is registered
/// from then on; where it does not, nothing was registered.
#[verifier::external_body]
fn register_gauge(registry: &mut prometheus::Registry, gauge: &GaugeCell) -> (accepted: bool)
    ensures
        accepted == accepts(*old(registry), Seq::empty(), gauge_description(*gauge)),
        forall|later: Seq<Seq<Seq<char>>>, description: Seq<Seq<char>>| #[trigger]
            accepts(*final(registry), later, description) == accepts(
                *old(registry),
                seq![gauge_description(*gauge)] + later,
                description,
            ),
        accepted ==> registered(*final(registry)) == registered(*old(registry)).insert(
            gauge_description(*gauge)[0],
        ),
        !accepted ==> registered(*final(registry)) == registered(*old(registry)),
        registered(*old(registry)).contains(gauge_description(*gauge)[0]) ==> !accepted,
{
    registry.register(Box::new(gauge.inner.clone())).is_ok()
}

/// Calls `prometheus::Registry::register` with a handle to `counter`, with the
/// same outcome as for a gauge.
#[verifier::external_body]
fn register_counter(registry: &mut prometheus::Registry, counter: &CounterCell) -> (accepted: bool)
    ensures
        accepted == accepts(*old(registry), Seq::empty(), counter_description(*counter)),
        forall|later: Seq<Seq<Seq<char>>>, description: Seq<Seq<char>>| #[trigger]
            accepts(*final(registry), later, description) == accepts(
                *old(registry),
                seq![counter_description(*counter)] + later,
                description,
            ),
        accepted ==> registered(*final(registry)) == registered(*old(registry)).insert(
            counter_description(*counter)[0],
        ),
        !accepted ==> registered(*final(registry)) == registered(*old(registry)),
        registered(*old(registry)).contains(counter_description(*counter)[0]) ==> !accepted,
{
    registry.register(Box::new(counter.inner.clone())).is_ok()
}

/// Calls `prometheus::Registry::register` with a handle to `family`, with the
/// same outcome as for a gauge. A family is registered under its full name.
#[verifier::external_body]
fn register_counter_family(registry: &mut prometheus::Registry, family: &CounterFamily) -> (accepted:
    bool)
    ensures
        accepted == accepts(*old(registry), Seq::empty(), family_description(*family)),
        forall|later: Seq<Seq<Seq<char>>>, description: Seq<Seq<char>>| #[trigger]
            accepts(*final(registry), later, description) == accepts(
                *old(registry),
                seq![family_description(*family)] + later,
                description,
            ),
        accepted ==> registered(*final(registry)) == registered(*old(registry)).insert(
            family_description(*family)[0],
        ),
        !accepted ==> registered(*final(registry)) == registered(*old(registry)),
        registered(*old(registry)).contains(family_description(*family)[0]) ==> !accepted,
{
    registry.register(Box::new(family.inner.clone())).is_ok()
}

/// Calls `prometheus::IntGauge::set`: the gauge holds `value` from then on.
#[verifier::external_body]
fn gauge_set(gauge: &mut GaugeCell, value: i64)
    ensures
        gauge_value(*final(gauge)) == value,
        gauge_description(*final(gauge)) == gauge_description(*old(gauge)),
{
    gauge.inner.set(value)
}

/// Calls `prometheus::IntGauge::get`: the value that the gauge holds.
#[verifier::external_body]
fn gauge_get(gauge: &GaugeCell) -> (value: i64)
    ensures
        value == gauge_value(*gauge),
{
    gauge.inner.get()
}

/// Calls `prometheus::IntCounter::inc`: the counter holds one more from then on.
#[verifier::external_body]
fn counter_inc(counter: &mut CounterCell)
    ensures
        counter_value(*final(counter)) == next_count(counter_value(*old(counter))),
        counter_description(*final(counter)) == counter_description(*old(counter)),
{
    counter.inner.inc()
}

/// Calls `prometheus::IntCounterVec::get_metric_with_label_values` with the one
/// label value, and `prometheus::IntCounter::inc` on the counter it gives. The
/// family refuses where it was made with another number of labels than one, and
/// only there, and then counts nothing. Else it holds one more under that
/// label value from then on.
#[verifier::external_body]
fn family_inc(family: &mut CounterFamily, label: &str) -> (counted: bool)
    ensures
        counted == (family_description(*old(family)).len() == 3),
        counted ==> family_count(*final(family), label@) == next_count(
            family_count(*old(family), label@),
        ),
        !counted ==> forall|value: Seq<char>| #[trigger]
            family_count(*final(family), value) == family_count(*old(family), value),
        family_description(*final(family)) == family_description(*old(family)),
{
    match family.inner.get_metric_with_label_values(&[label]) {
        Ok(counter) => {
            counter.inc();
            true
        },
        Err(_) => false,
    }
}

/// The collectors behind the radio's metrics.
pub struct Metrics {
    validated_messages: CounterFamily,
    invalidated_messages: CounterFamily,
    cached_messages: GaugeCell,
    active_peers: GaugeCell,
    connected_peers: GaugeCell,
    gossip_peers: GaugeCell,
    received_messages: CounterCell,
    pruned_messages: GaugeCell,
}

/// Namespace and subsystem are plain names, and so is the name of every
/// metric and the label of every family; and every metric has a help text.
pub proof fn lemma_descriptions_are_plain()
    ensures
        plain_name(NAMESPACE@),
        plain_name(SUBSYSTEM@),
        forall|metric: Metric| plain_name(#[trigger] metric.spec_name()),
        forall|family: LabelledCounter|
            plain_name(#[trigger] family.spec_label()) && family.spec_help().len() > 0,
        forall|gauge: Gauge| (#[trigger] gauge.spec_help()).len() > 0,
        forall|counter: Counter| (#[trigger] counter.spec_help()).len() > 0,
{
    reveal_strlit("graphcast");
    reveal_strlit("listener_radio");
    reveal_strlit("cached_messages");
    reveal_strlit("active_peers");
    reveal_strlit("connected_peers");
    reveal_strlit("gossip_peers");
    reveal_strlit("pruned_messages");
    reveal_strlit("validated_messages");
    reveal_strlit("invalidated_messages");
    reveal_strlit("received_messages");
    reveal_strlit("deployment");
    reveal_strlit("error_type");
    reveal_strlit("Number of messages in cache");
    reveal_strlit("Number of discoverable active peers on network");
    reveal_strlit("Number of Gossip peers connected with Graphcast agent");
    reveal_strlit("Total number of gossip peers discovered");
    reveal_strlit("Number of messages pruned by the latest maintenance");
    reveal_strlit("Number of validated messages");
    reveal_strlit("Number of invalid messages received");
    reveal_strlit("Number of messages received in total");
    assert forall|metric: Metric| plain_name(#[trigger] metric.spec_name()) by {
        match metric {
            Metric::Labelled(counter) => match counter {
                LabelledCounter::ValidatedMessages => {},
                LabelledCounter::InvalidatedMessages => {},
            },
            Metric::Plain(counter) => {},
            Metric::Level(gauge) => match gauge {
                Gauge::CachedMessages => {},
                Gauge::ActivePeers => {},
                Gauge::ConnectedPeers => {},
                Gauge::GossipPeers => {},
                Gauge::PrunedMessages => {},
            },
        }
    }
    assert forall|family: LabelledCounter|
        plain_name(#[trigger] family.spec_label()) && family.spec_help().len() > 0 by {
        match family {
            LabelledCounter::ValidatedMessages => {},
            LabelledCounter::InvalidatedMessages => {},
        }
    }
    assert forall|gauge: Gauge| (#[trigger] gauge.spec_help()).len() > 0 by {
        match gauge {
            Gauge::CachedMessages => {},
            Gauge::ActivePeers => {},
            Gauge::ConnectedPeers => {},
            Gauge::GossipPeers => {},
            Gauge::PrunedMessages => {},
        }
    }
}

/// A collector for `gauge`, named and explained as the gauge says. The
/// metrics crate takes every gauge's description.
fn make_gauge(gauge: Gauge) -> (r: Option<GaugeCell>)
    ensures
        r is Some,
        r matches Some(cell) ==> gauge_description(cell) == Metric::Level(
            gauge,
        ).spec_description() && gauge_value(cell) == 0,
{
    proof {
        lemma_descriptions_are_plain();
        assert(plain_name(Metric::Level(gauge).spec_name()));
        lemma_plain_names_are_valid(NAMESPACE@, SUBSYSTEM@, gauge.spec_name());
    }
    new_gauge(NAMESPACE, SUBSYSTEM, gauge.name(), gauge.help())
}

/// A collector for `counter`, named, explained and labelled as the counter
/// says. The metrics crate takes every counter's description.
fn make_family(counter: LabelledCounter) -> (r: Option<CounterFamily>)
    ensures
        r is Some,
        r matches Some(family) ==> family_description(family) == Metric::Labelled(
            counter,
        ).spec_description() && forall|value: Seq<char>| #[trigger]
            family_count(family, value) == 0,
{
    proof {
        lemma_descriptions_are_plain();
        assert(plain_name(Metric::Labelled(counter).spec_name()));
        lemma_plain_names_are_valid(NAMESPACE@, SUBSYSTEM@, counter.spec_name());
        lemma_plain_names_are_valid(NAMESPACE@, SUBSYSTEM@, counter.spec_label());
    }
    new_counter_family(NAMESPACE, SUBSYSTEM, counter.name(), counter.help(), counter.label())
}

/// Whether `update` counts in the family `family`.
pub open spec fn counts_in(update: MetricUpdateView, family: LabelledCounter) -> bool {
    update matches MetricUpdateView::IncrementLabelled { family: named, .. } && named == family
}

/// None of `updates` counts in the family `family`.
pub open spec fn untouched(updates: Seq<MetricUpdateView>, family: LabelledCounter) -> bool {
    forall|i: int| 0 <= i < updates.len() ==> !counts_in(#[trigger] updates[i], family)
}

/// What applying `update` makes of the metrics `before`. Every collector
/// keeps its name. A gauge that is set holds the value; the plain counter that
/// is incremented holds one more; a family that is incremented holds one more
/// under the label value, unless it refused, and then it holds what it held.
/// Every other gauge and counter holds what it held. Of the other label values
/// of a family that counted, nothing is said.
pub open spec fn recorded(
    before: Metrics,
    after: Metrics,
    update: MetricUpdateView,
    applied: bool,
) -> bool {
    &&& after.same_names(before)
    &&& match update {
        MetricUpdateView::SetGauge { gauge, value } => {
            &&& after.level(gauge) == value
            &&& forall|other: Gauge| other != gauge ==> #[trigger] after.level(other) == before.level(other)
            &&& after.received() == before.received()
            &&& forall|family: LabelledCounter, label: Seq<char>| #[trigger]
                after.labelled(family, label) == before.labelled(family, label)
        },
        MetricUpdateView::Increment { counter: _ } => {
            &&& after.received() == next_count(before.received())
            &&& forall|gauge: Gauge| #[trigger] after.level(gauge) == before.level(gauge)
            &&& forall|family: LabelledCounter, label: Seq<char>| #[trigger]
                after.labelled(family, label) == before.labelled(family, label)
        },
        MetricUpdateView::IncrementLabelled { family, label } => {
            &&& applied ==> after.labelled(family, label) == next_count(
                before.labelled(family, label),
            )
            &&& !applied ==> forall|value: Seq<char>| #[trigger]
                after.labelled(family, value) == before.labelled(family, value)
            &&& forall|other: LabelledCounter, value: Seq<char>|
                other != family ==> #[trigger] after.labelled(other, value) == before.labelled(
                    other,
                    value,
                )
            &&& forall|gauge: Gauge| #[trigger] after.level(gauge) == before.level(gauge)
            &&& after.received() == before.received()
        },
    }
}

impl Metrics {
    /// The collector of `gauge`.
    spec fn cell(&self, gauge: Gauge) -> GaugeCell {
        match gauge {
            Gauge::CachedMessages => self.cached_messages,
            Gauge::ActivePeers => self.active_peers,
            Gauge::ConnectedPeers => self.connected_peers,
            Gauge::GossipPeers => self.gossip_peers,
            Gauge::PrunedMessages => self.pruned_messages,
        }
    }

    /// The collector of `counter`.
    spec fn group(&self, counter: LabelledCounter) -> CounterFamily {
        match counter {
            LabelledCounter::ValidatedMessages => self.validated_messages,
            LabelledCounter::InvalidatedMessages => self.invalidated_messages,
        }
    }

    /// The value that `gauge` holds.
    pub closed spec fn level(&self, gauge: Gauge) -> i64 {
        gauge_value(self.cell(gauge))
    }

    /// The count of received messages.
    pub closed spec fn received(&self) -> u64 {
        counter_value(self.received_messages)
    }

    /// The count that `family` holds under the label value `label`.
    pub closed spec fn labelled(&self, family: LabelledCounter, label: Seq<char>) -> u64 {
        family_count(self.group(family), label)
    }

    /// What the collector of `metric` was made with.
    pub closed spec fn description_of(&self, metric: Metric) -> Seq<Seq<char>> {
        match metric {
            Metric::Labelled(counter) => family_description(self.group(counter)),
            Metric::Plain(_) => counter_description(self.received_messages),
            Metric::Level(gauge) => gauge_description(self.cell(gauge)),
        }
    }

    /// The full name that the collector of `metric` carries.
    pub open spec fn name_of(&self, metric: Metric) -> Seq<char> {
        self.description_of(metric)[0]
    }

    /// Every collector was made with the description of its metric: the full
    /// name, the help text, and for a family the one label of its counter.
    pub open spec fn described(&self) -> bool {
        forall|metric: Metric| #[trigger] self.description_of(metric) == metric.spec_description()
    }

    /// What the collectors of the metrics in `list` were made with, in the
    /// order of the list.
    pub open spec fn descriptions_of(&self, list: Seq<Metric>) -> Seq<Seq<Seq<char>>> {
        list.map_values(|metric: Metric| self.description_of(metric))
    }

    /// Every gauge and every counter holds 0.
    pub open spec fn at_zero(&self) -> bool {
        &&& forall|gauge: Gauge| #[trigger] self.level(gauge) == 0
        &&& self.received() == 0
        &&& forall|family: LabelledCounter, label: Seq<char>| #[trigger]
            self.labelled(family, label) == 0
    }

    /// The collectors were made with what those of `other` were made with.
    pub open spec fn same_names(&self, other: Metrics) -> bool {
        forall|metric: Metric| #[trigger]
            self.description_of(metric) == other.description_of(metric)
    }

    /// The names that the collectors of the metrics in `list` carry.
    pub open spec fn names_of(&self, list: Seq<Metric>) -> Set<Seq<char>>
        decreases list.len(),
    {
        if list.len() == 0 {
            Set::empty()
        } else {
            self.names_of(list.drop_last()).insert(self.name_of(list.last()))
        }
    }

    /// Creates one collector for each metric, under the metric's full name and
    /// label, with nothing counted yet. The metrics crate takes every one of
    /// the descriptions, so there always is a result.
    pub fn new() -> (r: Option<Metrics>)
        ensures
            r is Some,
            r matches Some(metrics) ==> metrics.described() && metrics.at_zero(),
    {
        proof {
            lemma_descriptions_are_plain();
            assert(plain_name(Metric::Plain(Counter::ReceivedMessages).spec_name()));
            lemma_plain_names_are_valid(
                NAMESPACE@,
                SUBSYSTEM@,
                Counter::ReceivedMessages.spec_name(),
            );
        }
        let validated_messages = make_family(LabelledCounter::ValidatedMessages)?;
        let invalidated_messages = make_family(LabelledCounter::InvalidatedMessages)?;
        let cached_messages = make_gauge(Gauge::CachedMessages)?;
        let active_peers = make_gauge(Gauge::ActivePeers)?;
        let connected_peers = make_gauge(Gauge::ConnectedPeers)?;
        let gossip_peers = make_gauge(Gauge::GossipPeers)?;
        let received = Counter::ReceivedMessages;
        let received_messages = new_counter(NAMESPACE, SUBSYSTEM, received.name(), received.help())?;
        let pruned_messages = make_gauge(Gauge::PrunedMessages)?;
        let metrics = Metrics {
            validated_messages,
            invalidated_messages,
            cached_messages,
            active_peers,
            connected_peers,
            gossip_peers,
            received_messages,
            pruned_messages,
        };
        proof {
            assert forall|metric: Metric| #[trigger]
                metrics.description_of(metric) == metric.spec_description() by {
                match metric {
                    Metric::Labelled(counter) => match counter {
                        LabelledCounter::ValidatedMessages => {},
                        LabelledCounter::InvalidatedMessages => {},
                    },
                    Metric::Plain(counter) => match counter {
                        Counter::ReceivedMessages => {},
                    },
                    Metric::Level(gauge) => match gauge {
                        Gauge::CachedMessages => {},
                        Gauge::ActivePeers => {},
                        Gauge::ConnectedPeers => {},
                        Gauge::GossipPeers => {},
                        Gauge::PrunedMessages => {},
                    },
                }
            }
        }
        Some(metrics)
    }

    /// The collector of `gauge`.
    fn gauge(&self, gauge: Gauge) -> (r: &GaugeCell)
        ensures
            *r == self.cell(gauge),
    {
        match gauge {
            Gauge::CachedMessages => &self.cached_messages,
            Gauge::ActivePeers => &self.active_peers,
            Gauge::ConnectedPeers => &self.connected_peers,
            Gauge::GossipPeers => &self.gossip_peers,
            Gauge::PrunedMessages => &self.pruned_messages,
        }
    }

    /// The collector of `counter`.
    fn family(&self, counter: LabelledCounter) -> (r: &CounterFamily)
        ensures
            *r == self.group(counter),
    {
        match counter {
            LabelledCounter::ValidatedMessages => &self.validated_messages,
            LabelledCounter::InvalidatedMessages => &self.invalidated_messages,
        }
    }

    /// Registers the collector of `metric` with `registry`, and says whether
    /// the registry took it: that is [`accepts`] of the registry as it stood
    /// and of what the collector was made with. What the registry decides
    /// later is what it would have decided had this collector been handed to
    /// it first. Where the registry took the collector, its name is registered
    /// from then on; where it did not, nothing was registered. A name that is
    /// registered is never taken a second time.
    pub fn register(&self, registry: &mut prometheus::Registry, metric: Metric) -> (accepted: bool)
        ensures
            accepted == accepts(*old(registry), Seq::empty(), self.description_of(metric)),
            forall|later: Seq<Seq<Seq<char>>>, description: Seq<Seq<char>>| #[trigger]
                accepts(*final(registry), later, description) == accepts(
                    *old(registry),
                    seq![self.description_of(metric)] + later,
                    description,
                ),
            accepted ==> registered(*final(registry)) == registered(*old(registry)).insert(
                self.name_of(metric),
            ),
            !accepted ==> registered(*final(registry)) == registered(*old(registry)),
            registered(*old(registry)).contains(self.name_of(metric)) ==> !accepted,
    {
        match metric {
            Metric::Labelled(counter) => register_counter_family(registry, self.family(counter)),
            Metric::Plain(_) => register_counter(registry, &self.received_messages),
            Metric::Level(gauge) => register_gauge(registry, self.gauge(gauge)),
        }
    }

    /// Sets the collector of `gauge` to `value`.
    fn set_level(&mut self, gauge: Gauge, value: i64)
        ensures
            recorded(
                *old(self),
                *final(self),
                MetricUpdateView::SetGauge { gauge, value },
                true,
            ),
    {
        match gauge {
            Gauge::CachedMessages => gauge_set(&mut self.cached_messages, value),
            Gauge::ActivePeers => gauge_set(&mut self.active_peers, value),
            Gauge::ConnectedPeers => gauge_set(&mut self.connected_peers, value),
            Gauge::GossipPeers => gauge_set(&mut self.gossip_peers, value),
            Gauge::PrunedMessages => gauge_set(&mut self.pruned_messages, value),
        }
    }

    /// Counts one more under `label` in the collector of `family`, unless the
    /// collector refuses.
    fn count_label(&mut self, family: LabelledCounter, label: &str) -> (counted: bool)
        ensures
            old(self).described() ==> counted,
            recorded(
                *old(self),
                *final(self),
                MetricUpdateView::IncrementLabelled { family, label: label@ },
                counted,
            ),
    {
        proof {
            if self.described() {
                assert(self.description_of(Metric::Labelled(family)) == Metric::Labelled(
                    family,
                ).spec_description());
                assert(family_description(self.group(family)).len() == 3);
            }
        }
        match family {
            LabelledCounter::ValidatedMessages => family_inc(&mut self.validated_messages, label),
            LabelledCounter::InvalidatedMessages => family_inc(
                &mut self.invalidated_messages,
                label,
            ),
        }
    }

    /// Applies `update` to the collector it names: see [`recorded`]. Returns
    /// `false` only where a family of counters refuses the label value, and then
    /// nothing was counted. The families made by [`Metrics::new`] never refuse.
    pub fn record(&mut self, update: &MetricUpdate) -> (applied: bool)
        ensures
            !(update is IncrementLabelled) ==> applied,
            old(self).described() ==> applied,
            recorded(*old(self), *final(self), update@, applied),
    {
        match update {
            MetricUpdate::SetGauge { gauge, value } => {
                self.set_level(*gauge, *value);
                true
            },
            MetricUpdate::Increment { counter: _ } => {
                counter_inc(&mut self.received_messages);
                true
            },
            MetricUpdate::IncrementLabelled { family, label } => self.count_label(
                *family,
                label.as_str(),
            ),
        }
    }

    /// Applies every update of `updates` in order and returns how many were
    /// applied. Afterwards every gauge holds the value that the last update for
    /// it set, the plain counter one more for each of its updates, and a family
    /// that no update counts in what it held.
    pub fn record_all(&mut self, updates: &Vec<MetricUpdate>) -> (applied: usize)
        ensures
            applied <= updates.len(),
            (forall|i: int| 0 <= i < updates.len() ==> !(#[trigger] updates[i] is IncrementLabelled))
                ==> applied == updates.len(),
            old(self).described() ==> applied == updates.len(),
            forall|family: LabelledCounter, label: Seq<char>|
                untouched(update_views(updates@), family) ==> #[trigger] final(self).labelled(
                    family,
                    label,
                ) == old(self).labelled(family, label),
            final(self).same_names(*old(self)),
            forall|gauge: Gauge| #[trigger]
                final(self).level(gauge) == level_after(
                    update_views(updates@),
                    gauge,
                    old(self).level(gauge),
                ),
            final(self).received() == count_after(update_views(updates@), old(self).received()),
    {
        let ghost all = update_views(updates@);
        let ghost start = *self;
        let mut applied: usize = 0;
        let mut i: usize = 0;
        proof {
            assert(all.take(0) =~= Seq::<MetricUpdateView>::empty());
        }
        while i < updates.len()
            invariant
                i <= updates.len(),
                applied <= i,
                all == update_views(updates@),
                (forall|j: int| 0 <= j < i ==> !(#[trigger] updates[j] is IncrementLabelled))
                    ==> applied == i,
                start.described() ==> applied == i,
                forall|family: LabelledCounter, label: Seq<char>|
                    untouched(all.take(i as int), family) ==> #[trigger] self.labelled(
                        family,
                        label,
                    ) == start.labelled(family, label),
                self.same_names(start),
                forall|gauge: Gauge| #[trigger]
                    self.level(gauge) == level_after(all.take(i as int), gauge, start.level(gauge)),
                self.received() == count_after(all.take(i as int), start.received()),
            decreases updates.len() - i,
        {
            proof {
                assert(all.take(i + 1).drop_last() =~= all.take(i as int));
                assert(all.take(i + 1).last() == updates@[i as int]@);
                assert forall|family: LabelledCounter|
                    untouched(all.take(i + 1), family) implies untouched(
                    all.take(i as int),
                    family,
                ) && !counts_in(updates@[i as int]@, family) by {
                    assert(all.take(i + 1)[i as int] == updates@[i as int]@);
                    assert forall|j: int| 0 <= j < i implies !counts_in(
                        #[trigger] all.take(i as int)[j],
                        family,
                    ) by {
                        assert(all.take(i + 1)[j] == all.take(i as int)[j]);
                    }
                }
            }
            if self.record(&updates[i]) {
                applied += 1;
            }
            i += 1;
        }
        proof {
            assert(all.take(i as int) =~= all);
        }
        applied
    }

    /// The value that `gauge` holds.
    pub fn read(&self, gauge: Gauge) -> (value: i64)
        ensures
            value == self.level(gauge),
    {
        gauge_get(self.gauge(gauge))
    }
}

/// The metrics that are registered at start, in the order of registration.
pub fn metrics_to_register() -> (r: Vec<Metric>)
    ensures
        r@ == registered_metrics(),
{
    let mut list: Vec<Metric> = Vec::new();
    list.push(Metric::Labelled(LabelledCounter::ValidatedMessages));
    list.push(Metric::Labelled(LabelledCounter::InvalidatedMessages));
    list.push(Metric::Level(Gauge::CachedMessages));
    list.push(Metric::Level(Gauge::ActivePeers));
    list.push(Metric::Level(Gauge::ConnectedPeers));
    list.push(Metric::Level(Gauge::GossipPeers));
    list.push(Metric::Plain(Counter::ReceivedMessages));
    list.push(Metric::Level(Gauge::PrunedMessages));
    proof {
        assert(list@ =~= registered_metrics());
    }
    list
}

/// Every name that the collectors of the metrics in `list` carry is among
/// the names of the list.
pub proof fn lemma_names_of_contains(metrics: Metrics, list: Seq<Metric>, i: int)
    requires
        0 <= i < list.len(),
    ensures
        metrics.names_of(list).contains(metrics.name_of(list[i])),
    decreases list.len(),
{
    if i < list.len() - 1 {
        lemma_names_of_contains(metrics, list.drop_last(), i);
    }
}

/// Registers the collectors of `list` with `registry`, one after the other,
/// and stops at the first that the registry refuses: that metric is returned
/// as the error, and the metrics after it were not registered. The names of
/// the collectors that were taken are registered from then on.
///
/// Whether a collector is taken is the registry's decision, [`accepts`]. The
/// result is `Ok` exactly where the registry takes each collector in its
/// turn, and the error is the first that it does not take. The registry never
/// takes a name that is registered, so a list that was taken whole held new
/// names only, and none twice.
pub fn register_metrics(
    registry: &mut prometheus::Registry,
    metrics: &Metrics,
    list: &Vec<Metric>,
) -> (r: Result<(), Metric>)
    ensures
        r is Ok <==> takes_all(*old(registry), metrics.descriptions_of(list@)),
        r matches Err(refused) ==> exists|i: int|
            {
                &&& 0 <= i < list.len()
                &&& list[i] == refused
                &&& takes_all(*old(registry), #[trigger] metrics.descriptions_of(list@.take(i)))
                &&& !accepts(
                    *old(registry),
                    metrics.descriptions_of(list@.take(i)),
                    metrics.description_of(list[i]),
                )
                &&& registered(*final(registry)) == registered(*old(registry)).union(
                    metrics.names_of(list@.take(i)),
                )
            },
        r is Ok ==> registered(*final(registry)) == registered(*old(registry)).union(
            metrics.names_of(list@),
        ),
        r is Ok ==> forall|later: Seq<Seq<Seq<char>>>, description: Seq<Seq<char>>| #[trigger]
            accepts(*final(registry), later, description) == accepts(
                *old(registry),
                metrics.descriptions_of(list@) + later,
                description,
            ),
        r is Ok ==> forall|i: int|
            0 <= i < list.len() ==> !registered(*old(registry)).contains(
                #[trigger] metrics.name_of(list[i]),
            ),
        r is Ok ==> forall|i: int, j: int|
            0 <= i < j < list.len() ==> #[trigger] metrics.name_of(list[i])
                != #[trigger] metrics.name_of(list[j]),
{
    let ghost before = registered(*registry);
    let ghost start = *registry;
    let ghost all = metrics.descriptions_of(list@);
    let mut i: usize = 0;
    proof {
        assert(list@.take(0) =~= Seq::<Metric>::empty());
        assert(before.union(metrics.names_of(list@.take(0))) =~= before);
        assert(all.take(0) =~= Seq::<Seq<Seq<char>>>::empty());
        assert forall|later: Seq<Seq<Seq<char>>>, description: Seq<Seq<char>>| #[trigger]
            accepts(*registry, later, description) == accepts(
                start,
                all.take(0) + later,
                description,
            ) by {
            assert(all.take(0) + later =~= later);
        }
    }
    while i < list.len()
        invariant
            i <= list.len(),
            before == registered(*old(registry)),
            start == *old(registry),
            all == metrics.descriptions_of(list@),
            registered(*registry) == before.union(metrics.names_of(list@.take(i as int))),
            takes_all(start, all.take(i as int)),
            forall|later: Seq<Seq<Seq<char>>>, description: Seq<Seq<char>>| #[trigger]
                accepts(*registry, later, description) == accepts(
                    start,
                    all.take(i as int) + later,
                    description,
                ),
            forall|j: int| 0 <= j < i ==> !before.contains(#[trigger] metrics.name_of(list[j])),
            forall|j: int, k: int|
                0 <= j < k < i ==> #[trigger] metrics.name_of(list[j]) != #[trigger] metrics.name_of(
                    list[k],
                ),
        decreases list.len() - i,
    {
        let metric = list[i];
        let ghost current = registered(*registry);
        let ghost held = *registry;
        let ghost mine = metrics.description_of(metric);
        proof {
            assert(all[i as int] == mine);
            assert(all.take(i as int) + Seq::<Seq<Seq<char>>>::empty() =~= all.take(i as int));
            assert(metrics.descriptions_of(list@.take(i as int)) =~= all.take(i as int));
        }
        if !metrics.register(registry, metric) {
            proof {
                assert(!accepts(start, all.take(i as int), mine));
                assert(!takes_all(start, all)) by {
                    if takes_all(start, all) {
                        assert(accepts(start, all.take(i as int), all[i as int]));
                    }
                }
            }
            return Err(metric);
        }
        proof {
            assert(list@.take(i + 1).drop_last() =~= list@.take(i as int));
            assert(list@.take(i + 1).last() == metric);
            assert(current.insert(metrics.name_of(metric)) =~= before.union(
                metrics.names_of(list@.take(i + 1)),
            ));
            assert(!current.contains(metrics.name_of(metric)));
            assert forall|j: int| 0 <= j < i implies #[trigger] metrics.name_of(list[j])
                != metrics.name_of(list[i as int]) by {
                lemma_names_of_contains(*metrics, list@.take(i as int), j);
                assert(list@.take(i as int)[j] == list[j]);
            }
            let next = all.take(i + 1);
            assert forall|j: int| 0 <= j < next.len() implies accepts(
                start,
                #[trigger] next.take(j),
                next[j],
            ) by {
                assert(next.take(j) =~= all.take(j));
                if j < i {
                    assert(all.take(i as int).take(j) =~= all.take(j));
                    assert(accepts(start, all.take(i as int).take(j), all.take(i as int)[j]));
                } else {
                    assert(accepts(held, Seq::empty(), mine));
                }
            }
            assert forall|later: Seq<Seq<Seq<char>>>, description: Seq<Seq<char>>| #[trigger]
                accepts(*registry, later, description) == accepts(
                    start,
                    all.take(i + 1) + later,
                    description,
                ) by {
                assert(accepts(*registry, later, description) == accepts(
                    held,
                    seq![mine] + later,
                    description,
                ));
                assert(all.take(i as int) + (seq![mine] + later) =~= all.take(i + 1) + later);
            }
        }
        i += 1;
    }
    proof {
        assert(list@.take(i as int) =~= list@);
        assert(all.take(i as int) =~= all);
    }
    Ok(())
}

/// Makes a registry and registers the radio's metrics with it, in the order of
/// [`registered_metrics`]. Where the registry takes them all, it holds their
/// names and no other. Where it refuses one, that metric is the error.
///
/// The result is `Ok` exactly where a new registry takes each of the
/// collectors in its turn, and the error is the first that it does not take.
/// The first collector is always taken.
pub fn start_metrics(metrics: &Metrics) -> (r: Result<prometheus::Registry, Metric>)
    ensures
        r is Ok <==> new_takes_all(metrics.descriptions_of(registered_metrics())),
        r matches Ok(registry) ==> registered(registry) == metrics.names_of(registered_metrics()),
        r matches Ok(registry) ==> forall|
            later: Seq<Seq<Seq<char>>>,
            description: Seq<Seq<char>>,
        | #[trigger]
            accepts(registry, later, description) == accepts_when_new(
                metrics.descriptions_of(registered_metrics()) + later,
                description,
            ),
        r matches Err(refused) ==> exists|i: int|
            {
                &&& 0 < i < registered_metrics().len()
                &&& registered_metrics()[i] == refused
                &&& new_takes_all(
                    #[trigger] metrics.descriptions_of(registered_metrics().take(i)),
                )
                &&& !accepts_when_new(
                    metrics.descriptions_of(registered_metrics().take(i)),
                    metrics.description_of(refused),
                )
            },
{
    let mut registry = new_registry();
    let ghost fresh = registry;
    let list = metrics_to_register();
    let ghost all = metrics.descriptions_of(registered_metrics());
    proof {
        assert(takes_all(fresh, all) == new_takes_all(all));
    }
    match register_metrics(&mut registry, metrics, &list) {
        Ok(()) => {
            proof {
                assert(Set::<Seq<char>>::empty().union(metrics.names_of(registered_metrics()))
                    =~= metrics.names_of(registered_metrics()));
            }
            Ok(registry)
        },
        Err(refused) => {
            proof {
                let i = choose|i: int|
                    {
                        &&& 0 <= i < list.len()
                        &&& list[i] == refused
                        &&& takes_all(fresh, #[trigger] metrics.descriptions_of(list@.take(i)))
                        &&& !accepts(
                            fresh,
                            metrics.descriptions_of(list@.take(i)),
                            metrics.description_of(list[i]),
                        )
                        &&& registered(registry) == registered(fresh).union(
                            metrics.names_of(list@.take(i)),
                        )
                    };
                let part = metrics.descriptions_of(registered_metrics().take(i));
                if i == 0 {
                    assert(part =~= Seq::<Seq<Seq<char>>>::empty());
                }
                assert(takes_all(fresh, part) == new_takes_all(part));
            }
            Err(refused)
        },
    }
}

/// Path of the endpoint that exposes the metrics.
pub const METRICS_PATH: &'static str = "/metrics";

/// The address at which the metrics are exposed.
pub fn handle_serve_metrics(host: &String, port: u16) -> (r: String)
    ensures
        r@ == spec_bind_address(host@, port),
{
    bind_address(host.as_str(), port)
}

/// The answer to a request for the metrics: status 200 with the text where
/// the metrics could be put into text, status 500 with the error where not.
pub fn get_metrics(encoded: Result<String, String>) -> (r: (u16, String))
    ensures
        match encoded {
            Ok(text) => r == (200u16, text),
            Err(error) => r == (500u16, error),
        },
{
    match encoded {
        Ok(text) => (200, text),
        Err(error) => (500, error),
    }
}

} // verus!
