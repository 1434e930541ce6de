use listener_radio::codec::DecodeError;
use listener_radio::config::{
    CallBook, Config, ConfigError, CoverageLevel, GraphcastNetworkName, IdentityValidation,
    LogFormat,
};
use listener_radio::db::resolver::{
    add_message, count_messages, fetch_aggregates, list_ids, list_messages, Aggregate,
    MessageID, MessageStore, StoreError,
};
use listener_radio::encoding::encode_message;
use listener_radio::message_types::{GraphcastMessage, Payload, PublicPoiMessage, SimpleMessage};
use listener_radio::metrics::{Counter, Gauge, LabelledCounter, MetricUpdate};
use listener_radio::operator::notifier::{Delivery, Notifier};
use listener_radio::operator::operation::Handled;
use listener_radio::operator::radio_types::RadioPayloadMessage;
use listener_radio::operator::{
    message_processor, peer_gauge_value, process_message, Action, Event,
    LoopStep,
    NetworkStatus, ProcessError, Processed, RadioOperator, Tick, DAILY_AGGREGATE_SECONDS,
    ITERATION_PAUSE_SECONDS, ITERATION_TIMEOUT_SECONDS, MESSAGE_TIMEOUT_SECONDS,
    NETWORK_UPDATE_SECONDS, NO_PEERS_PAUSE_SECONDS, PRUNE_BATCH_SIZE, SUMMARY_SECONDS,
    UPDATE_TIMEOUT_SECONDS,
};

fn poi(nonce: u64, graph_account: &str, identifier: &str) -> GraphcastMessage {
    GraphcastMessage {
        identifier: identifier.to_string(),
        payload: Payload::PublicPoi(PublicPoiMessage {
            identifier: identifier.to_string(),
            content: "0xText".to_string(),
            nonce,
            network: "testnet".to_string(),
            block_number: 1,
            block_hash: "hash".to_string(),
            graph_account: graph_account.to_string(),
        }),
        nonce,
        graph_account: graph_account.to_string(),
        signature: String::new(),
    }
}

fn set(gauge: Gauge, value: i64) -> Action {
    Action::Record(MetricUpdate::SetGauge { gauge, value })
}

fn status(connected: Option<usize>, gossip: usize) -> NetworkStatus {
    NetworkStatus { connected_peers: connected, gossip_peers: gossip }
}

fn config() -> Config {
    Config::with_defaults("postgres://localhost/radio".to_string())
}

#[test]
fn defaults_of_the_configuration() {
    let c = config();
    assert_eq!(c.database_url, "postgres://localhost/radio");
    assert_eq!(c.filter_protocol, None);
    assert_eq!(c.graphcast_network, GraphcastNetworkName::Testnet);
    assert_eq!(c.log_level, "info");
    assert_eq!(c.metrics_host, "0.0.0.0");
    assert_eq!(c.server_host, "0.0.0.0");
    assert_eq!(c.log_format, LogFormat::Pretty);
    assert_eq!(c.radio_name, "subgraph-radio");
    assert_eq!(c.id_validation, IdentityValidation::ValidAddress);
    assert_eq!(c.retention, 1440);
    assert_eq!(c.max_storage, None);
    assert_eq!(c.metrics_port, None);
    assert_eq!(c.server_port(), None);
    assert_eq!(c.server_host(), "0.0.0.0");
    assert!(c.topics.is_empty());
    assert_eq!(CoverageLevel::default(), CoverageLevel::OnChain);
}

#[test]
fn names_of_configured_choices() {
    for v in [
        IdentityValidation::NoCheck,
        IdentityValidation::ValidAddress,
        IdentityValidation::GraphcastRegistered,
        IdentityValidation::GraphNetworkAccount,
        IdentityValidation::RegisteredIndexer,
        IdentityValidation::Indexer,
    ] {
        assert_eq!(IdentityValidation::parse(v.as_str()), Some(v));
    }
    assert_eq!(IdentityValidation::NoCheck.as_str(), "no-check");
    assert_eq!(IdentityValidation::GraphcastRegistered.as_str(), "registered");
    assert_eq!(IdentityValidation::parse("Indexer"), None);
    for v in [LogFormat::Compact, LogFormat::Pretty, LogFormat::Json, LogFormat::Full] {
        assert_eq!(LogFormat::parse(v.as_str()), Some(v));
    }
    assert_eq!(LogFormat::parse("xml"), None);
    for v in [GraphcastNetworkName::Mainnet, GraphcastNetworkName::Testnet] {
        assert_eq!(GraphcastNetworkName::parse(v.as_str()), Some(v));
    }
    assert_eq!(GraphcastNetworkName::parse(""), None);
}

#[test]
fn the_private_key_takes_precedence_over_the_mnemonic() {
    let mut c = config();
    assert_eq!(
        c.wallet_input(),
        Err(ConfigError::ValidateInput(
            "Must provide either private key or mnemonic".to_string()
        ))
    );
    assert_eq!(
        c.wallet_input().unwrap_err().message(),
        "Validate the input: Must provide either private key or mnemonic"
    );
    assert!(c.to_graphcast_agent_config().is_err());
    c.mnemonic = Some("twelve words".to_string());
    assert_eq!(c.wallet_input(), Ok(&"twelve words".to_string()));
    c.private_key = Some("0xkey".to_string());
    assert_eq!(c.wallet_input(), Ok(&"0xkey".to_string()));
}

#[test]
fn what_the_agent_is_configured_with() {
    let mut c = config();
    c.private_key = Some("0xkey".to_string());
    c.topics = vec!["QmA".to_string(), "QmB".to_string()];
    c.boot_node_addresses = vec!["/dns4/node".to_string()];
    c.discv5_enrs = Some(vec!["enr:1".to_string()]);
    c.discv5_port = Some(9000);
    c.filter_protocol = Some(true);
    c.waku_port = Some("60000".to_string());
    let a = c.to_graphcast_agent_config().unwrap();
    assert_eq!(a.wallet_key, "0xkey");
    assert_eq!(a.graph_account, "none");
    assert_eq!(a.radio_name, "subgraph-radio");
    assert_eq!(a.registry_subgraph, c.registry_subgraph);
    assert_eq!(a.network_subgraph, c.network_subgraph);
    assert_eq!(a.id_validation, IdentityValidation::ValidAddress);
    assert_eq!(a.graph_node_endpoint, None);
    assert_eq!(a.boot_node_addresses, Some(vec!["/dns4/node".to_string()]));
    assert_eq!(a.graphcast_namespace, Some("testnet".to_string()));
    assert_eq!(a.subtopics, Some(vec!["QmA".to_string(), "QmB".to_string()]));
    assert_eq!(a.waku_port, Some("60000".to_string()));
    assert_eq!(a.waku_host, None);
    assert_eq!(a.filter_protocol, Some(true));
    assert_eq!(a.discv5_enrs, Some(vec!["enr:1".to_string()]));
    assert_eq!(a.discv5_port, Some(9000));
    assert_eq!(a.discv5_nodes, vec!["enr:1".to_string()]);
    c.indexer_address = Some("0xindexer".to_string());
    c.discv5_enrs = None;
    let a = c.to_graphcast_agent_config().unwrap();
    assert_eq!(a.graph_account, "0xindexer");
    assert!(a.discv5_nodes.is_empty());
    assert_eq!(
        c.callbook(),
        CallBook {
            graphcast_registry: c.registry_subgraph.clone(),
            graph_network: c.network_subgraph.clone(),
            graph_node_status: None
        }
    );
}

#[test]
fn every_kind_of_configuration_error_has_its_text() {
    assert_eq!(
        ConfigError::GenerateJson("x".to_string()).message(),
        "Generate JSON representation of the config file: x"
    );
    assert_eq!(ConfigError::QueryError("x".to_string()).message(), "QueryError: x");
    assert_eq!(ConfigError::ReadStr("x".to_string()).message(), "Toml file error: x");
    assert_eq!(ConfigError::Other("x".to_string()).message(), "Unknown error: x");
}

#[test]
fn notifier_new() {
    let n = Notifier::new(
        "radio".to_string(),
        Some("https://slack".to_string()),
        None,
        Some("token".to_string()),
        Some(-1001),
    );
    assert_eq!(n.radio_name(), "radio");
    assert_eq!(n.slack_webhook(), &Some("https://slack".to_string()));
    assert_eq!(n.discord_webhook(), &None);
    assert_eq!(n.telegram_token(), &Some("token".to_string()));
    assert_eq!(n.telegram_chat_id(), &Some(-1001));
}

#[test]
fn a_notification_goes_to_every_configured_channel() {
    let mut c = config();
    c.radio_name = "listener".to_string();
    assert!(Notifier::from_config(&c).notify(&"hello".to_string()).is_empty());
    c.slack_webhook = Some("https://slack".to_string());
    c.discord_webhook = Some("https://discord".to_string());
    c.telegram_token = Some("token".to_string());
    let n = Notifier::from_config(&c);
    assert_eq!(
        n.notify(&"hello".to_string()),
        vec![
            Delivery::Slack {
                webhook_url: "https://slack".to_string(),
                radio_name: "listener".to_string(),
                content: "hello".to_string()
            },
            Delivery::Discord {
                webhook_url: "https://discord".to_string(),
                radio_name: "listener".to_string(),
                content: "hello".to_string()
            },
        ]
    );
    c.telegram_chat_id = Some(5);
    c.slack_webhook = None;
    let n = Notifier::from_config(&c);
    assert_eq!(
        n.notify(&"hello".to_string()),
        vec![
            Delivery::Discord {
                webhook_url: "https://discord".to_string(),
                radio_name: "listener".to_string(),
                content: "hello".to_string()
            },
            Delivery::Telegram {
                token: "token".to_string(),
                chat_id: 5,
                radio_name: "listener".to_string(),
                content: "hello".to_string()
            },
        ]
    );
}

#[test]
fn radio_payload_message() {
    let m = RadioPayloadMessage::new("QmA".to_string(), "content".to_string());
    assert_eq!(m.payload_content(), "content");
    assert_eq!(m.valid_outer(&poi(1, "a", "QmA")), Ok(&m));
    assert!(m.valid_outer(&poi(1, "a", "QmB")).is_err());
}

#[test]
fn the_schedule() {
    assert_eq!(NETWORK_UPDATE_SECONDS, 600);
    assert_eq!(SUMMARY_SECONDS, 180);
    assert_eq!(DAILY_AGGREGATE_SECONDS, 86400);
    assert_eq!(ITERATION_TIMEOUT_SECONDS, 180);
    assert_eq!(UPDATE_TIMEOUT_SECONDS, 5);
    assert_eq!(MESSAGE_TIMEOUT_SECONDS, 1);
    assert_eq!(NO_PEERS_PAUSE_SECONDS, 10);
    assert_eq!(ITERATION_PAUSE_SECONDS, 5);
    assert_eq!(PRUNE_BATCH_SIZE, 1000);
}

#[test]
fn a_new_operator_runs_with_an_empty_store() {
    let operator = RadioOperator::new(config());
    assert!(operator.running);
    assert!(!operator.skip_iteration);
    assert_eq!(count_messages(&operator.db), 0);
    assert_eq!(operator.notifier, Notifier::from_config(&config()));
    assert!(operator.startup().is_empty());
}

#[test]
fn what_is_set_up_at_start() {
    let mut c = config();
    c.metrics_port = Some(3001);
    c.metrics_host = "127.0.0.1".to_string();
    c.server_port = Some(8080);
    c.filter_protocol = Some(true);
    c.topics = vec!["QmA".to_string()];
    let operator = RadioOperator::new(c);
    assert_eq!(
        operator.startup(),
        vec![
            Action::ServeMetrics { host: "127.0.0.1".to_string(), port: 3001 },
            Action::UpdateContentTopics(vec!["QmA".to_string()]),
            Action::ServeApi { host: "0.0.0.0".to_string(), port: 8080 },
        ]
    );
    let mut c = config();
    c.filter_protocol = Some(false);
    assert!(RadioOperator::new(c).startup().is_empty());
}

#[test]
fn the_loop_stops_after_shutdown_and_pauses_without_peers() {
    let mut operator = RadioOperator::new(config());
    assert_eq!(operator.before_tick(3), LoopStep::AwaitTick);
    assert_eq!(operator.before_tick(0), LoopStep::PauseThenAwaitTick(10));
    operator.shutdown();
    assert!(!operator.running);
    assert_eq!(operator.before_tick(3), LoopStep::Stop);
    assert_eq!(operator.before_tick(0), LoopStep::Stop);
}

#[test]
fn network_tick_without_topic_filter() {
    let mut operator = RadioOperator::new(config());
    let actions = operator.on_tick(Tick::NetworkUpdate, 0, status(Some(4), 9));
    assert_eq!(
        actions,
        vec![
            set(Gauge::ConnectedPeers, 4),
            set(Gauge::GossipPeers, 9),
            set(Gauge::ActivePeers, 9),
            Action::Pause(5)
        ]
    );
    let actions = operator.network_update(status(None, usize::MAX));
    let gossip = if usize::MAX as u128 > i64::MAX as u128 { 0 } else { usize::MAX as i64 };
    assert_eq!(
        actions,
        vec![
            set(Gauge::ConnectedPeers, 0),
            set(Gauge::GossipPeers, gossip),
            set(Gauge::ActivePeers, gossip),
            Action::Pause(5)
        ]
    );
}

#[test]
fn network_tick_with_topic_filter() {
    let mut c = config();
    c.filter_protocol = Some(true);
    c.topics = vec!["QmA".to_string(), "QmB".to_string()];
    let mut operator = RadioOperator::new(c);
    let actions = operator.on_tick(Tick::NetworkUpdate, 0, status(Some(1), 2));
    assert_eq!(
        actions,
        vec![
            set(Gauge::ConnectedPeers, 1),
            set(Gauge::GossipPeers, 2),
            set(Gauge::ActivePeers, 2),
            Action::UpdateContentTopics(vec!["QmA".to_string(), "QmB".to_string()]),
            Action::Pause(5),
        ]
    );
}

#[test]
fn a_flagged_network_tick_skips_its_work_and_clears_the_flag() {
    for filter in [None, Some(false), Some(true)] {
        let mut c = config();
        c.filter_protocol = filter;
        let mut operator = RadioOperator::new(c);
        operator.watchdog_expired();
        assert!(operator.on_tick(Tick::NetworkUpdate, 0, status(Some(1), 2)).is_empty());
        assert!(!operator.skip_iteration);
        assert!(!operator.on_tick(Tick::NetworkUpdate, 0, status(Some(1), 2)).is_empty());
    }
}

#[test]
fn the_watchdog_makes_the_next_iteration_skip_after_a_stall() {
    let mut operator = RadioOperator::new(config());
    assert_eq!(operator.last_iteration, None);
    operator.watchdog(1000);
    assert_eq!(operator.last_iteration, Some(1000));
    operator.watchdog(1179);
    assert!(!operator.skip_iteration);
    operator.watchdog(1180);
    assert!(operator.skip_iteration);
    assert!(operator.on_tick(Tick::Summary, 1200, status(None, 1)).is_empty());
    assert!(!operator.skip_iteration);
    assert_eq!(operator.last_iteration, Some(1200));
    operator.watchdog(1379);
    assert!(!operator.skip_iteration);
    assert_eq!(operator.on_tick(Tick::Summary, 1380, status(None, 1)).len(), 5);
    assert_eq!(operator.last_iteration, Some(1380));
    operator.watchdog(i64::MAX);
    assert!(operator.skip_iteration);
    let mut early = RadioOperator::new(config());
    early.watchdog(i64::MIN);
    early.watchdog(i64::MAX);
    assert!(early.skip_iteration);
}

#[test]
fn peer_counts_as_gauge_values() {
    assert_eq!(peer_gauge_value(0), 0);
    assert_eq!(peer_gauge_value(17), 17);
    if usize::MAX as u128 > i64::MAX as u128 {
        assert_eq!(peer_gauge_value(usize::MAX), 0);
    }
}

#[test]
fn summary_tick_applies_cap_then_retention() {
    let now: i64 = 1_700_000_000;
    let mut c = config();
    c.max_storage = Some(4);
    c.retention = 5;
    let mut operator = RadioOperator::new(c);
    let nonces = [now, now - 1000, now, now - 1000, now, now - 301, now - 300];
    for n in nonces {
        add_message(&mut operator.db, poi(n as u64, "a", "Qm1")).unwrap();
    }
    let actions = operator.on_tick(Tick::Summary, now, status(None, 1));
    assert_eq!(
        actions,
        vec![
            set(Gauge::PrunedMessages, 3),
            set(Gauge::PrunedMessages, 5),
            set(Gauge::CachedMessages, 2),
            Action::Report { total_messages: 2, total_pruned: 5 },
            Action::KeepRows { ids: vec![MessageID { id: 5 }, MessageID { id: 7 }], below: 8 },
            Action::Pause(5),
        ]
    );
    let ids: Vec<i64> = list_ids(&operator.db).iter().map(|m| m.id).collect();
    assert_eq!(ids, vec![5, 7]);
}

#[test]
fn summary_tick_without_cap() {
    let now: i64 = 1_700_000_000;
    let mut operator = RadioOperator::new(config());
    add_message(&mut operator.db, poi((now - 1440 * 60 - 1) as u64, "a", "Qm1")).unwrap();
    add_message(&mut operator.db, poi((now - 1440 * 60) as u64, "a", "Qm1")).unwrap();
    let actions = operator.summary_update(now);
    assert_eq!(
        actions,
        vec![
            set(Gauge::PrunedMessages, 1),
            set(Gauge::CachedMessages, 1),
            Action::Report { total_messages: 1, total_pruned: 1 },
            Action::KeepRows { ids: vec![MessageID { id: 2 }], below: 3 },
            Action::Pause(5),
        ]
    );
    let mut c = config();
    c.max_storage = Some(-3);
    let mut operator = RadioOperator::new(c);
    add_message(&mut operator.db, poi(now as u64, "a", "Qm1")).unwrap();
    let actions = operator.summary_update(now);
    assert_eq!(
        actions,
        vec![
            set(Gauge::PrunedMessages, 0),
            set(Gauge::CachedMessages, 1),
            Action::Report { total_messages: 1, total_pruned: 0 },
            Action::KeepRows { ids: vec![MessageID { id: 1 }], below: 2 },
            Action::Pause(5),
        ]
    );
}

#[test]
fn a_skipped_iteration_does_nothing_but_clear_the_flag() {
    let now: i64 = 1_700_000_000;
    let mut c = config();
    c.max_storage = Some(0);
    let mut operator = RadioOperator::new(c);
    add_message(&mut operator.db, poi(1, "a", "Qm1")).unwrap();
    operator.watchdog_expired();
    assert!(operator.on_tick(Tick::Summary, now, status(None, 1)).is_empty());
    assert!(!operator.skip_iteration);
    assert_eq!(count_messages(&operator.db), 1);
    operator.watchdog_expired();
    assert!(operator.on_tick(Tick::DailyAggregate, now, status(None, 1)).is_empty());
    assert!(!operator.skip_iteration);
    assert!(fetch_aggregates(&operator.db, i64::MIN).is_empty());
    assert_eq!(
        operator.on_tick(Tick::Summary, now, status(None, 1)),
        vec![
            set(Gauge::PrunedMessages, 1),
            set(Gauge::PrunedMessages, 1),
            set(Gauge::CachedMessages, 0),
            Action::Report { total_messages: 0, total_pruned: 1 },
            Action::KeepRows { ids: vec![], below: 2 },
            Action::Pause(5),
        ]
    );
    assert_eq!(count_messages(&operator.db), 0);
}

#[test]
fn daily_aggregate_stores_one_snapshot_per_sender() {
    let now: i64 = 1_700_000_000;
    let mut operator = RadioOperator::new(config());
    let entries = [
        (now - 10, "a", "Qm1"),
        (now - 86400, "old", "Qm1"),
        (now - 86399, "b", "Qm2"),
        (now - 5, "a", "Qm2"),
        (now - 4, "a", "Qm2"),
    ];
    for (nonce, account, identifier) in entries {
        add_message(&mut operator.db, poi(nonce as u64, account, identifier)).unwrap();
    }
    let actions = operator.on_tick(Tick::DailyAggregate, now, status(None, 1));
    assert_eq!(
        actions,
        vec![Action::Persist(fetch_aggregates(&operator.db, 0)), Action::Pause(5)]
    );
    let again = operator.on_tick(Tick::DailyAggregate, now + 1, status(None, 1));
    assert_eq!(
        again,
        vec![Action::Persist(fetch_aggregates(&operator.db, now)), Action::Pause(5)]
    );
    assert_eq!(
        fetch_aggregates(&operator.db, now),
        vec![Aggregate {
            id: 3,
            created_at_ts: now + 1,
            graph_account: "a".to_string(),
            message_count: 3,
            subgraphs_count: 2
        }]
    );
    assert_eq!(
        fetch_aggregates(&operator.db, 0)[..2].to_vec(),
        vec![
            Aggregate {
                id: 1,
                created_at_ts: now,
                graph_account: "a".to_string(),
                message_count: 3,
                subgraphs_count: 2
            },
            Aggregate {
                id: 2,
                created_at_ts: now,
                graph_account: "b".to_string(),
                message_count: 1,
                subgraphs_count: 1
            },
        ]
    );
    assert_eq!(count_messages(&operator.db), 5);
}

#[test]
fn a_message_is_decoded_and_stored() {
    let mut store = MessageStore::new();
    let message = poi(7, "a", "Qm1");
    assert_eq!(process_message(&mut store, &encode_message(&message)), Ok(1));
    assert_eq!(list_messages(&store)[0].message, message);
    assert_eq!(process_message(&mut store, &[0xff]), Err(ProcessError::Unsupported));
    assert_eq!(count_messages(&store), 1);
    assert_eq!(
        message_processor(&mut store, &encode_message(&message)),
        Processed {
            counts: vec![
                MetricUpdate::Increment { counter: Counter::ReceivedMessages },
                MetricUpdate::IncrementLabelled {
                    family: LabelledCounter::ValidatedMessages,
                    label: "Qm1".to_string()
                },
            ],
            outcome: Ok(2)
        }
    );
    let beyond = poi(u64::MAX, "a", "QmBeyond");
    assert_eq!(
        message_processor(&mut store, &encode_message(&beyond)),
        Processed {
            counts: vec![
                MetricUpdate::Increment { counter: Counter::ReceivedMessages },
                MetricUpdate::IncrementLabelled {
                    family: LabelledCounter::ValidatedMessages,
                    label: "QmBeyond".to_string()
                },
            ],
            outcome: Err(ProcessError::Store(StoreError::NonceOutOfRange))
        }
    );
    assert_eq!(
        process_message(&mut store, &encode_message(&beyond)),
        Err(ProcessError::Store(StoreError::NonceOutOfRange))
    );
    assert_eq!(count_messages(&store), 2);
    assert_eq!(
        message_processor(&mut store, &[0x0a]),
        Processed {
            counts: vec![
                MetricUpdate::Increment { counter: Counter::ReceivedMessages },
                MetricUpdate::IncrementLabelled {
                    family: LabelledCounter::InvalidatedMessages,
                    label: "Unsupported".to_string()
                },
            ],
            outcome: Err(ProcessError::Unsupported)
        }
    );
}

#[test]
fn messages_are_stored_in_the_order_of_arrival() {
    let mut store = MessageStore::new();
    let simple = GraphcastMessage {
        identifier: "ping".to_string(),
        payload: Payload::Simple(SimpleMessage {
            identifier: "ping".to_string(),
            content: "pong".to_string(),
        }),
        nonce: 3,
        graph_account: "b".to_string(),
        signature: String::new(),
    };
    let first = poi(9, "a", "Qm1");
    for message in [&first, &simple, &first] {
        process_message(&mut store, &encode_message(message)).unwrap();
    }
    let rows = list_messages(&store);
    assert_eq!(rows[0].message, first);
    assert_eq!(rows[1].message, simple);
    assert_eq!(rows[2].message, first);
    assert_eq!(rows[2].id, 3);
}

#[test]
fn a_full_store_reports_the_refusal() {
    let rows = vec![listener_radio::db::resolver::Row {
        id: i64::MAX - 1,
        message: poi(1, "a", "Qm1"),
    }];
    let mut store = MessageStore::restore(rows, vec![]).unwrap();
    assert_eq!(
        process_message(&mut store, &encode_message(&poi(2, "a", "Qm1"))),
        Err(ProcessError::Store(StoreError::IdsExhausted))
    );
}

#[test]
fn deliveries_of_the_transport_are_counted_and_passed_on() {
    let message = poi(7, "a", "QmDeployment");
    assert_eq!(
        RadioOperator::radio_msg_handler(Ok(message.clone())),
        Handled {
            count: MetricUpdate::IncrementLabelled {
                family: LabelledCounter::ValidatedMessages,
                label: "QmDeployment".to_string()
            },
            forward: Some(message)
        }
    );
    assert_eq!(
        RadioOperator::radio_msg_handler(Err(DecodeError::InvalidFields)),
        Handled {
            count: MetricUpdate::IncrementLabelled {
                family: LabelledCounter::InvalidatedMessages,
                label: "InvalidFields".to_string()
            },
            forward: None
        }
    );
}

#[test]
fn the_loop_runs_until_it_is_asked_to_stop() {
    let now: i64 = 1_700_000_000;
    let mut c = config();
    c.max_storage = Some(1);
    let mut operator = RadioOperator::new(c);
    add_message(&mut operator.db, poi(now as u64, "a", "Qm1")).unwrap();
    add_message(&mut operator.db, poi(now as u64, "a", "Qm1")).unwrap();
    let events = vec![
        Event::Watchdog { now },
        Event::Tick { tick: Tick::NetworkUpdate, now: now + 1, status: status(Some(2), 0) },
        Event::Tick { tick: Tick::Summary, now: now + 2, status: status(Some(2), 3) },
        Event::Watchdog { now: now + 500 },
        Event::Tick { tick: Tick::DailyAggregate, now: now + 501, status: status(Some(2), 3) },
        Event::Shutdown,
        Event::Tick { tick: Tick::Summary, now: now + 600, status: status(Some(2), 3) },
        Event::Watchdog { now: now + 5000 },
    ];
    let actions = operator.run(&events);
    assert_eq!(
        actions,
        vec![
            Action::Pause(10),
            set(Gauge::ConnectedPeers, 2),
            set(Gauge::GossipPeers, 0),
            set(Gauge::ActivePeers, 0),
            Action::Pause(5),
            set(Gauge::PrunedMessages, 1),
            set(Gauge::PrunedMessages, 1),
            set(Gauge::CachedMessages, 1),
            Action::Report { total_messages: 1, total_pruned: 1 },
            Action::KeepRows { ids: vec![MessageID { id: 2 }], below: 3 },
            Action::Pause(5),
        ]
    );
    assert!(!operator.running);
    assert!(!operator.skip_iteration);
    assert_eq!(operator.last_iteration, Some(now + 501));
    assert!(fetch_aggregates(&operator.db, 0).is_empty());
    assert_eq!(count_messages(&operator.db), 1);
    assert!(operator.run(&events).is_empty());
}

#[test]
fn single_events() {
    let mut operator = RadioOperator::new(config());
    assert!(operator.on_event(Event::Watchdog { now: 5 }).is_empty());
    assert_eq!(operator.last_iteration, Some(5));
    assert_eq!(
        operator.on_event(Event::Tick {
            tick: Tick::DailyAggregate,
            now: 9,
            status: status(None, 0)
        }),
        vec![Action::Pause(10), Action::Persist(vec![]), Action::Pause(5)]
    );
    assert!(operator.on_event(Event::Shutdown).is_empty());
    assert!(!operator.running);
}

#[test]
fn errors_of_processing_have_their_text() {
    assert_eq!(ProcessError::Unsupported.message(), "Unsupported message types");
    assert_eq!(
        ProcessError::Store(StoreError::IdsExhausted).message(),
        "the store has no id left"
    );
    assert_eq!(
        ProcessError::Store(StoreError::NonceOutOfRange).message(),
        "the nonce is no time stamp"
    );
    assert_eq!(StoreError::NotFound.message(), "no message with this id");
    let mut store = MessageStore::new();
    assert_eq!(
        process_message(&mut store, &[0xff]).unwrap_err().message(),
        "Unsupported message types"
    );
}

#[test]
fn the_next_id_is_one_beyond_the_last_that_was_given() {
    let mut store = MessageStore::new();
    assert_eq!(store.next_id(), 1);
    add_message(&mut store, poi(1, "a", "Qm1")).unwrap();
    add_message(&mut store, poi(1, "a", "Qm1")).unwrap();
    listener_radio::db::resolver::delete_message_all(&mut store);
    assert_eq!(store.next_id(), 3);
}
