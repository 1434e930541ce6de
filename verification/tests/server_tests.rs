use listener_radio::config::Config;
use listener_radio::db::resolver::{
    add_message, insert_aggregate, list_rows, Aggregate, IndexerStats, MessageStore,
};
use listener_radio::message_types::{GraphcastMessage, Payload, PublicPoiMessage};
use listener_radio::metrics::{
    get_metrics, handle_serve_metrics, metrics_to_register, register_metrics, start_metrics,
    Counter, Gauge, LabelledCounter, Metric, MetricUpdate, Metrics, METRICS_PATH, NAMESPACE,
    SUBSYSTEM,
};
use listener_radio::server::model::{
    days_before, minutes_before, summarize, GraphQLRow, HttpServiceError,
    MutationRoot, QueryRoot, Summary, DEFAULT_WINDOW_MINUTES,
};
use listener_radio::server::routes::{graphql_playground, health, Health};
use listener_radio::server::{run_server, GRAPHQL_PATH, HEALTH_PATH};
use listener_radio::text::{bind_address, decimal_string};

fn poi(nonce: u64, graph_account: &str, identifier: &str) -> GraphcastMessage {
    GraphcastMessage {
        identifier: identifier.to_string(),
        payload: Payload::PublicPoi(PublicPoiMessage {
            identifier: identifier.to_string(),
            content: "0xText".to_string(),
            nonce,
            network: "testnet".to_string(),
            block_number: 1,
            block_hash: "hash".to_string(),
            graph_account: graph_account.to_string(),
        }),
        nonce,
        graph_account: graph_account.to_string(),
        signature: String::new(),
    }
}

fn snapshot(id: i64, account: &str, messages: i64, subgraphs: i64) -> Aggregate {
    Aggregate {
        id,
        created_at_ts: 1000 + id,
        graph_account: account.to_string(),
        message_count: messages,
        subgraphs_count: subgraphs,
    }
}

fn entry(account: &str, value: i64) -> (String, i64) {
    (account.to_string(), value)
}

#[test]
fn numbers_in_decimal() {
    assert_eq!(decimal_string(0), "0");
    assert_eq!(decimal_string(7), "7");
    assert_eq!(decimal_string(10), "10");
    assert_eq!(decimal_string(65535), "65535");
    assert_eq!(decimal_string(1234567890), "1234567890");
    assert_eq!(decimal_string(u128::MAX), u128::MAX.to_string());
}

#[test]
fn addresses_to_listen_on() {
    assert_eq!(bind_address("0.0.0.0", 8080), "0.0.0.0:8080");
    assert_eq!(bind_address("localhost", 0), "localhost:0");
    assert_eq!(handle_serve_metrics(&"127.0.0.1".to_string(), 65535), "127.0.0.1:65535");
    let mut config = Config::with_defaults("db".to_string());
    assert_eq!(run_server(&config), None);
    config.server_port = Some(7700);
    assert_eq!(run_server(&config), Some("0.0.0.0:7700".to_string()));
    assert_eq!(HEALTH_PATH, "/health");
    assert_eq!(GRAPHQL_PATH, "/api/v1/graphql");
    assert_eq!(METRICS_PATH, "/metrics");
}

#[test]
fn plain_routes() {
    assert_eq!(health(), (200, Health { healthy: true }));
    assert_eq!(graphql_playground(), ("/", "/ws"));
    assert_eq!(get_metrics(Ok("up 1".to_string())), (200, "up 1".to_string()));
    assert_eq!(get_metrics(Err("broken".to_string())), (500, "broken".to_string()));
    assert_eq!(QueryRoot.health_check(), "Healthy");
}

#[test]
fn windows_of_queries() {
    assert_eq!(DEFAULT_WINDOW_MINUTES, 1440);
    assert_eq!(minutes_before(1_000_000, None), 1_000_000 - 86400);
    assert_eq!(minutes_before(1_000_000, Some(5)), 1_000_000 - 300);
    assert_eq!(minutes_before(1_000_000, Some(0)), 1_000_000);
    assert_eq!(minutes_before(1_000_000, Some(u64::MAX)), i64::MIN);
    assert_eq!(minutes_before(i64::MIN, Some(1)), i64::MIN);
    assert_eq!(days_before(1_000_000, 1), 1_000_000 - 86400);
    assert_eq!(days_before(1_000_000, 0), 1_000_000);
    assert_eq!(days_before(1_000_000, -1), 1_000_000 + 86400);
    assert_eq!(days_before(i64::MAX, -1), i64::MAX);
    assert_eq!(days_before(i64::MIN + 5, i32::MAX), i64::MIN);
}

#[test]
fn summary_of_snapshots() {
    let aggregates = vec![
        snapshot(1, "a", 10, 1),
        snapshot(2, "b", 5, 4),
        snapshot(3, "a", 7, 2),
        snapshot(4, "a", 1, 1),
        snapshot(5, "c", 0, 0),
    ];
    assert_eq!(
        summarize(&aggregates, 9),
        Ok(Summary {
            total_message_count: vec![entry("a", 18), entry("b", 5), entry("c", 0)],
            average_subgraphs_count: vec![entry("a", 2), entry("b", 4), entry("c", 0)],
            total_subgraphs_covered: 9,
        })
    );
    assert_eq!(
        summarize(&[].to_vec(), 0),
        Ok(Summary {
            total_message_count: vec![],
            average_subgraphs_count: vec![],
            total_subgraphs_covered: 0,
        })
    );
}

#[test]
fn the_mean_is_rounded_up() {
    let mean = |values: &[i64]| -> i64 {
        let aggregates: Vec<Aggregate> = values
            .iter()
            .enumerate()
            .map(|(i, v)| snapshot(i as i64 + 1, "a", 0, *v))
            .collect();
        summarize(&aggregates, 0).unwrap().average_subgraphs_count[0].1
    };
    assert_eq!(mean(&[3]), 3);
    assert_eq!(mean(&[1, 2]), 2);
    assert_eq!(mean(&[1, 1, 2]), 2);
    assert_eq!(mean(&[2, 2, 2]), 2);
    assert_eq!(mean(&[0, 0, 1]), 1);
    assert_eq!(mean(&[-1, 0]), 0);
    assert_eq!(mean(&[-1, -2]), -1);
    assert_eq!(mean(&[-3, -3]), -3);
    assert_eq!(mean(&[-7, 0, 0]), -2);
    assert_eq!(mean(&[i64::MAX, i64::MAX]), i64::MAX);
    assert_eq!(mean(&[i64::MIN, i64::MIN]), i64::MIN);
    assert_eq!(mean(&[i64::MAX, i64::MAX - 1]), i64::MAX);
}

#[test]
fn a_total_beyond_64_bits_is_an_error() {
    let aggregates = vec![snapshot(1, "a", i64::MAX, 1), snapshot(2, "a", 1, 1)];
    assert_eq!(
        summarize(&aggregates, 0),
        Err(HttpServiceError::Others("aggregate total out of range".to_string()))
    );
    let aggregates = vec![snapshot(1, "a", i64::MAX, 1), snapshot(2, "b", 1, 1)];
    assert!(summarize(&aggregates, 0).is_ok());
}

#[test]
fn queries_read_the_store() {
    let mut store = MessageStore::new();
    let first = poi(100, "a", "Qm1");
    let second = poi(200, "b", "Qm2");
    add_message(&mut store, first.clone()).unwrap();
    add_message(&mut store, second.clone()).unwrap();
    let query = QueryRoot;
    assert_eq!(
        query.rows(&store),
        vec![GraphQLRow::new(1, first.clone()), GraphQLRow::new(2, second.clone())]
    );
    assert_eq!(list_rows(&store), query.rows(&store));
    assert_eq!(query.messages(&store), vec![first.clone(), second.clone()]);
    assert_eq!(query.row(&store, 2), Ok(GraphQLRow { id: 2, message: second.clone() }));
    assert_eq!(query.message(&store, 1), Ok(first.clone()));
    assert_eq!(
        query.row(&store, 3),
        Err(HttpServiceError::MissingData("no message with this id".to_string()))
    );
    assert!(query.message(&store, 0).is_err());
    assert_eq!(
        query.active_indexers_at(&store, None, Some(1), 250),
        vec!["b".to_string()]
    );
    assert_eq!(
        query.active_indexers_at(&store, None, None, 250),
        vec!["a".to_string(), "b".to_string()]
    );
    assert_eq!(
        query.active_indexers_at(&store, Some(vec!["a".to_string()]), Some(1), 250),
        Vec::<String>::new()
    );
    assert_eq!(
        query.indexer_stats_at(&store, None, Some(1), 250),
        vec![IndexerStats {
            graph_account: "b".to_string(),
            message_count: 1,
            subgraphs_count: 1
        }]
    );
    assert!(query.query_active_indexers(&store, None, None).is_empty());
    assert!(query.query_indexer_stats(&store, None, Some(10)).is_empty());
}

#[test]
fn queries_by_the_clock_see_fresh_messages() {
    let now = std::time::SystemTime::now()
        .duration_since(std::time::UNIX_EPOCH)
        .unwrap()
        .as_secs();
    let mut store = MessageStore::new();
    add_message(&mut store, poi(now - 30, "fresh", "Qm1")).unwrap();
    add_message(&mut store, poi(now - 7200, "stale", "Qm2")).unwrap();
    let query = QueryRoot;
    assert_eq!(
        query.query_active_indexers(&store, None, Some(60)),
        vec!["fresh".to_string()]
    );
    assert_eq!(
        query.query_active_indexers(&store, None, None),
        vec!["fresh".to_string(), "stale".to_string()]
    );
    let stats = query.query_indexer_stats(&store, Some(vec!["stale".to_string()]), None);
    assert_eq!(stats.len(), 1);
    assert_eq!(stats[0].graph_account, "stale");
    insert_aggregate(&mut store, now as i64 - 10, "fresh".to_string(), 4, 3).unwrap();
    insert_aggregate(&mut store, now as i64 - 3 * 86400, "fresh".to_string(), 100, 100).unwrap();
    let summary = query.query_aggregate_stats(&store, 1).unwrap();
    assert_eq!(summary.total_message_count, vec![entry("fresh", 4)]);
    assert_eq!(summary.average_subgraphs_count, vec![entry("fresh", 3)]);
    assert_eq!(summary.total_subgraphs_covered, 2);
}

#[test]
fn summary_over_a_window() {
    let mut store = MessageStore::new();
    add_message(&mut store, poi(990_000, "a", "Qm1")).unwrap();
    add_message(&mut store, poi(995_000, "a", "Qm2")).unwrap();
    add_message(&mut store, poi(100, "a", "Qm3")).unwrap();
    insert_aggregate(&mut store, 999_000, "a".to_string(), 4, 1).unwrap();
    insert_aggregate(&mut store, 999_500, "a".to_string(), 6, 2).unwrap();
    insert_aggregate(&mut store, 999_600, "b".to_string(), 1, 1).unwrap();
    insert_aggregate(&mut store, 1_000_000 - 86400, "b".to_string(), 50, 50).unwrap();
    let summary = QueryRoot.aggregate_stats_at(&store, 1, 1_000_000).unwrap();
    assert_eq!(
        summary,
        Summary {
            total_message_count: vec![entry("a", 10), entry("b", 1)],
            average_subgraphs_count: vec![entry("a", 2), entry("b", 1)],
            total_subgraphs_covered: 2,
        }
    );
}

#[test]
fn mutations_delete_from_the_store() {
    let mut store = MessageStore::new();
    let first = poi(100, "a", "Qm1");
    let second = poi(200, "b", "Qm2");
    let third = poi(300, "c", "Qm3");
    for m in [&first, &second, &third] {
        add_message(&mut store, m.clone()).unwrap();
    }
    let mutation = MutationRoot;
    assert_eq!(mutation.delete_message(&mut store, 2), Ok(second));
    assert!(mutation.delete_message(&mut store, 2).is_err());
    assert_eq!(mutation.delete_messages(&mut store), vec![first, third]);
    assert!(QueryRoot.rows(&store).is_empty());
}

#[test]
fn errors_of_the_query_api_have_their_text() {
    assert_eq!(
        HttpServiceError::MissingData("x".to_string()).message(),
        "Missing requested data: x"
    );
    assert_eq!(HttpServiceError::Reqwest("x".to_string()).message(), "Reqwest Error: x");
    assert_eq!(HttpServiceError::QueryError("x".to_string()).message(), "Query failed: x");
    assert_eq!(
        HttpServiceError::RequestFailed("x".to_string()).message(),
        "HTTP request failed: x"
    );
    assert_eq!(
        HttpServiceError::ResponseError("x".to_string()).message(),
        "HTTP response error: x"
    );
    assert_eq!(HttpServiceError::TimeoutError.message(), "Timeout error");
    assert_eq!(HttpServiceError::InvalidUrl("x".to_string()).message(), "Invalid URL: x");
    assert_eq!(
        HttpServiceError::HttpClientError("x".to_string()).message(),
        "HTTP client error: x"
    );
    assert_eq!(HttpServiceError::Others("x".to_string()).message(), "x");
    assert_eq!(
        HttpServiceError::from_store(listener_radio::db::resolver::StoreError::IdsExhausted),
        HttpServiceError::Others("the store has no id left".to_string())
    );
    assert_eq!(
        HttpServiceError::from_store(listener_radio::db::resolver::StoreError::NonceOutOfRange),
        HttpServiceError::Others("the nonce is no time stamp".to_string())
    );
    assert_eq!(
        HttpServiceError::from_store(listener_radio::db::resolver::StoreError::NotFound),
        HttpServiceError::MissingData("no message with this id".to_string())
    );
}

#[test]
fn names_of_the_metrics() {
    assert_eq!(NAMESPACE, "graphcast");
    assert_eq!(SUBSYSTEM, "listener_radio");
    assert_eq!(Gauge::CachedMessages.name(), "cached_messages");
    assert_eq!(Gauge::ActivePeers.name(), "active_peers");
    assert_eq!(Gauge::ConnectedPeers.name(), "connected_peers");
    assert_eq!(Gauge::GossipPeers.name(), "gossip_peers");
    assert_eq!(Gauge::PrunedMessages.name(), "pruned_messages");
    assert_eq!(Counter::ReceivedMessages.name(), "received_messages");
    assert_eq!(LabelledCounter::ValidatedMessages.name(), "validated_messages");
    assert_eq!(LabelledCounter::InvalidatedMessages.name(), "invalidated_messages");
    assert_eq!(LabelledCounter::ValidatedMessages.label(), "deployment");
    assert_eq!(LabelledCounter::InvalidatedMessages.label(), "error_type");
    assert_eq!(Gauge::CachedMessages.help(), "Number of messages in cache");
    assert_eq!(Counter::ReceivedMessages.help(), "Number of messages received in total");
    assert_eq!(LabelledCounter::ValidatedMessages.help(), "Number of validated messages");
}

#[test]
fn start_metrics_registers_every_metric() {
    let mut metrics = Metrics::new().unwrap();
    let mut registry = start_metrics(&metrics).unwrap();
    assert_eq!(
        metrics_to_register(),
        vec![
            Metric::Labelled(LabelledCounter::ValidatedMessages),
            Metric::Labelled(LabelledCounter::InvalidatedMessages),
            Metric::Level(Gauge::CachedMessages),
            Metric::Level(Gauge::ActivePeers),
            Metric::Level(Gauge::ConnectedPeers),
            Metric::Level(Gauge::GossipPeers),
            Metric::Plain(Counter::ReceivedMessages),
            Metric::Level(Gauge::PrunedMessages),
        ]
    );
    assert_eq!(
        register_metrics(&mut registry, &metrics, &metrics_to_register()),
        Err(Metric::Labelled(LabelledCounter::ValidatedMessages))
    );
    for metric in metrics_to_register() {
        assert!(!metrics.register(&mut registry, metric));
    }

    assert!(metrics.record(&MetricUpdate::SetGauge { gauge: Gauge::CachedMessages, value: 12 }));
    assert!(metrics.record(&MetricUpdate::Increment { counter: Counter::ReceivedMessages }));
    assert!(metrics.record(&MetricUpdate::IncrementLabelled {
        family: LabelledCounter::ValidatedMessages,
        label: "QmA".to_string()
    }));
    assert!(metrics.record(&MetricUpdate::IncrementLabelled {
        family: LabelledCounter::InvalidatedMessages,
        label: String::new()
    }));
    assert_eq!(metrics.read(Gauge::CachedMessages), 12);
    assert_eq!(metrics.read(Gauge::ActivePeers), 0);
    let names: Vec<String> = registry
        .gather()
        .iter()
        .map(|family| family.get_name().to_string())
        .collect();
    assert_eq!(
        names,
        vec![
            "graphcast_listener_radio_active_peers".to_string(),
            "graphcast_listener_radio_cached_messages".to_string(),
            "graphcast_listener_radio_connected_peers".to_string(),
            "graphcast_listener_radio_gossip_peers".to_string(),
            "graphcast_listener_radio_invalidated_messages".to_string(),
            "graphcast_listener_radio_pruned_messages".to_string(),
            "graphcast_listener_radio_received_messages".to_string(),
            "graphcast_listener_radio_validated_messages".to_string(),
        ]
    );
}

#[test]
fn the_metrics_are_made_anew_each_time() {
    for _ in 0..3 {
        let metrics = Metrics::new().unwrap();
        assert!(start_metrics(&metrics).is_ok());
    }
}

#[test]
fn updates_are_applied_in_order() {
    let mut metrics = Metrics::new().unwrap();
    let updates = vec![
        MetricUpdate::SetGauge { gauge: Gauge::PrunedMessages, value: 3 },
        MetricUpdate::SetGauge { gauge: Gauge::PrunedMessages, value: 5 },
        MetricUpdate::SetGauge { gauge: Gauge::GossipPeers, value: -1 },
        MetricUpdate::IncrementLabelled {
            family: LabelledCounter::InvalidatedMessages,
            label: "Malformed".to_string(),
        },
    ];
    assert_eq!(metrics.record_all(&updates), 4);
    assert_eq!(metrics.read(Gauge::PrunedMessages), 5);
    assert_eq!(metrics.read(Gauge::GossipPeers), -1);
}

fn exposed(registry: &prometheus::Registry, name: &str) -> Vec<(Vec<(String, String)>, f64)> {
    let mut found = Vec::new();
    for family in registry.gather() {
        if family.get_name() == name {
            for metric in family.get_metric() {
                let labels = metric
                    .get_label()
                    .iter()
                    .map(|pair| (pair.get_name().to_string(), pair.get_value().to_string()))
                    .collect();
                let value = metric.get_counter().get_value() + metric.get_gauge().get_value();
                found.push((labels, value));
            }
        }
    }
    found
}

#[test]
fn a_new_registry_holds_exactly_what_was_registered() {
    let mut metrics = Metrics::new().unwrap();
    let mut registry = prometheus::Registry::new();
    assert!(registry.gather().is_empty());
    metrics.record(&MetricUpdate::SetGauge { gauge: Gauge::GossipPeers, value: 4 });
    assert!(registry.gather().is_empty());
    assert_eq!(
        register_metrics(
            &mut registry,
            &metrics,
            &vec![
                Metric::Level(Gauge::GossipPeers),
                Metric::Plain(Counter::ReceivedMessages),
                Metric::Level(Gauge::GossipPeers),
                Metric::Level(Gauge::ActivePeers),
            ]
        ),
        Err(Metric::Level(Gauge::GossipPeers))
    );
    let names: Vec<String> = registry
        .gather()
        .iter()
        .map(|family| family.get_name().to_string())
        .collect();
    assert_eq!(
        names,
        vec![
            "graphcast_listener_radio_gossip_peers".to_string(),
            "graphcast_listener_radio_received_messages".to_string(),
        ]
    );
    assert_eq!(register_metrics(&mut registry, &metrics, &vec![]), Ok(()));
    assert_eq!(registry.gather().len(), 2);
    assert_eq!(exposed(&registry, "graphcast_listener_radio_gossip_peers"), vec![(vec![], 4.0)]);
}

#[test]
fn counters_count_one_at_a_time() {
    let mut metrics = Metrics::new().unwrap();
    let registry = start_metrics(&metrics).unwrap();
    assert_eq!(
        exposed(&registry, "graphcast_listener_radio_received_messages"),
        vec![(vec![], 0.0)]
    );
    assert!(exposed(&registry, "graphcast_listener_radio_validated_messages").is_empty());
    for _ in 0..3 {
        assert!(metrics.record(&MetricUpdate::Increment { counter: Counter::ReceivedMessages }));
    }
    for label in ["QmA", "QmB", "QmA"] {
        assert!(metrics.record(&MetricUpdate::IncrementLabelled {
            family: LabelledCounter::ValidatedMessages,
            label: label.to_string()
        }));
    }
    assert!(metrics.record(&MetricUpdate::IncrementLabelled {
        family: LabelledCounter::InvalidatedMessages,
        label: "Unsupported".to_string()
    }));
    assert_eq!(
        exposed(&registry, "graphcast_listener_radio_received_messages"),
        vec![(vec![], 3.0)]
    );
    let deployment = |value: &str| vec![("deployment".to_string(), value.to_string())];
    assert_eq!(
        exposed(&registry, "graphcast_listener_radio_validated_messages"),
        vec![(deployment("QmA"), 2.0), (deployment("QmB"), 1.0)]
    );
    assert_eq!(
        exposed(&registry, "graphcast_listener_radio_invalidated_messages"),
        vec![(vec![("error_type".to_string(), "Unsupported".to_string())], 1.0)]
    );
}

#[test]
fn a_gauge_holds_what_was_set_last() {
    let mut metrics = Metrics::new().unwrap();
    for gauge in [
        Gauge::CachedMessages,
        Gauge::ActivePeers,
        Gauge::ConnectedPeers,
        Gauge::GossipPeers,
        Gauge::PrunedMessages,
    ] {
        assert_eq!(metrics.read(gauge), 0);
    }
    metrics.record(&MetricUpdate::SetGauge { gauge: Gauge::ConnectedPeers, value: 7 });
    metrics.record(&MetricUpdate::SetGauge { gauge: Gauge::ActivePeers, value: i64::MIN });
    metrics.record(&MetricUpdate::SetGauge { gauge: Gauge::ConnectedPeers, value: i64::MAX });
    assert_eq!(metrics.read(Gauge::ConnectedPeers), i64::MAX);
    assert_eq!(metrics.read(Gauge::ActivePeers), i64::MIN);
    assert_eq!(metrics.read(Gauge::CachedMessages), 0);
    assert_eq!(metrics.read(Gauge::GossipPeers), 0);
    assert_eq!(metrics.read(Gauge::PrunedMessages), 0);
}
