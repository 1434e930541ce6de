use listener_radio::db::resolver::{
    add_message, count_distinct_subgraphs, count_messages, delete_message_all,
    delete_message_by_id, fetch_aggregates, get_indexer_stats, insert_aggregate,
    list_active_indexers, list_ids, list_messages, message_by_id, prune_old_messages,
    prune_old_messages_at, retain_max_storage, Aggregate, MessageStore, Row, StoreError,
};
use listener_radio::message_types::{
    GraphcastMessage, Payload, PublicPoiMessage, SimpleMessage,
};

const ACCOUNT_50: &str = "0xb4b4570df6f7fe320f10fdfb702dba7e35244550";
const ACCOUNT_51: &str = "0xb4b4570df6f7fe320f10fdfb702dba7e35244551";

fn poi(nonce: u64, graph_account: &str, identifier: &str) -> GraphcastMessage {
    GraphcastMessage {
        identifier: identifier.to_string(),
        payload: Payload::PublicPoi(PublicPoiMessage {
            identifier: identifier.to_string(),
            content: "0xText".to_string(),
            nonce,
            network: "testnet".to_string(),
            block_number: 1,
            block_hash: "hash".to_string(),
            graph_account: graph_account.to_string(),
        }),
        nonce,
        graph_account: graph_account.to_string(),
        signature: String::new(),
    }
}

fn insert_test_data(store: &mut MessageStore, entries: Vec<(i64, &str, &str)>) {
    for (nonce, graph_account, identifier) in entries {
        add_message(store, poi(nonce.try_into().unwrap(), graph_account, identifier))
            .expect("Failed to insert test data");
    }
}

fn now_seconds() -> i64 {
    std::time::SystemTime::now()
        .duration_since(std::time::UNIX_EPOCH)
        .unwrap()
        .as_secs() as i64
}

#[test]
fn test_list_active_indexers_without_indexers() {
    let mut store = MessageStore::new();
    insert_test_data(&mut store, vec![(1707328517, ACCOUNT_50, "QmTamam")]);

    let from_timestamp = 1707328516;
    let indexers = None;
    let result = list_active_indexers(&store, indexers, from_timestamp);

    assert!(
        result.contains(&ACCOUNT_50.to_string()),
        "Result should contain the expected graph_account"
    );
}

#[test]
fn test_list_active_indexers_with_specific_indexers() {
    let mut store = MessageStore::new();
    insert_test_data(&mut store, vec![(1707328517, ACCOUNT_50, "QmTamam")]);

    let from_timestamp = 1707328516;
    let indexers = Some(vec![
        ACCOUNT_50.to_string(),
        "nonexistent_indexer".to_string(),
    ]);
    let result = list_active_indexers(&store, indexers, from_timestamp);

    assert_eq!(
        result.len(),
        1,
        "Should only match records for existing indexers"
    );
    assert!(
        result.contains(&ACCOUNT_50.to_string()),
        "Result should contain the expected graph_account"
    );
}

#[test]
fn test_list_active_indexers_no_matching_records() {
    let store = MessageStore::new();
    let from_timestamp = 9999999999;
    let indexers = None;
    let result = list_active_indexers(&store, indexers, from_timestamp);

    assert!(
        result.is_empty(),
        "Result should be empty when no records match criteria"
    );
}

#[test]
fn test_list_active_indexers_edge_cases() {
    let mut store = MessageStore::new();
    let specific_nonce = now_seconds();
    insert_test_data(&mut store, vec![(specific_nonce, ACCOUNT_50, "QmTamam")]);

    let from_timestamp = specific_nonce;
    let indexers = None;
    let result = list_active_indexers(&store, indexers, from_timestamp);

    assert!(
        result.is_empty(),
        "Result should be empty when from_timestamp exactly matches nonce"
    );
}

#[test]
fn test_list_active_indexers_with_partial_matching_indexers() {
    let mut store = MessageStore::new();
    insert_test_data(
        &mut store,
        vec![
            (1707328517, ACCOUNT_50, "QmTamam"),
            (1707328518, "some_other_account", "QmTamam"),
        ],
    );

    let from_timestamp = 1707328516;
    let indexers = Some(vec![
        ACCOUNT_50.to_string(),
        "partial_match_indexer".to_string(),
    ]);
    let result = list_active_indexers(&store, indexers, from_timestamp);

    assert_eq!(
        result.len(),
        1,
        "Should only match records for existing indexers"
    );
    assert!(
        result.contains(&ACCOUNT_50.to_string()),
        "Result should contain the expected graph_account"
    );
}

#[test]
fn test_list_active_indexers_with_nonexistent_indexers() {
    let store = MessageStore::new();
    let from_timestamp = 1707328516;
    let indexers = Some(vec![
        "nonexistent_indexer_1".to_string(),
        "nonexistent_indexer_2".to_string(),
    ]);
    let result = list_active_indexers(&store, indexers, from_timestamp);

    assert!(
        result.is_empty(),
        "Result should be empty for non-existent indexers"
    );
}

#[test]
fn test_get_indexer_stats_without_parameters() {
    let mut store = MessageStore::new();
    insert_test_data(
        &mut store,
        vec![
            (1707328517, ACCOUNT_50, "QmTamam"),
            (1707328518, ACCOUNT_51, "QmTamam"),
        ],
    );

    let from_timestamp = 1707328516;
    let indexers = None;
    let result = get_indexer_stats(&store, indexers, from_timestamp);

    assert_eq!(result.len(), 2, "Should return stats for all indexers");
}

#[test]
fn test_get_indexer_stats_with_specific_indexer() {
    let mut store = MessageStore::new();
    insert_test_data(&mut store, vec![(1707328517, ACCOUNT_50, "QmTamam")]);

    let from_timestamp = 1707328516;
    let indexers = Some(vec![ACCOUNT_50.to_string()]);
    let result = get_indexer_stats(&store, indexers, from_timestamp);

    assert_eq!(
        result.len(),
        1,
        "Should return stats for the specified indexer"
    );
    assert!(
        result
            .iter()
            .any(|stat| stat.graph_account == ACCOUNT_50 && stat.message_count > 0),
        "Result should contain the expected graph_account with correct message count"
    );
}

#[test]
fn test_get_indexer_stats_with_multiple_indexers() {
    let mut store = MessageStore::new();
    insert_test_data(
        &mut store,
        vec![
            (1707328517, ACCOUNT_50, "QmTamam"),
            (1707328518, ACCOUNT_51, "QmTamam"),
        ],
    );

    let from_timestamp = 1707328516;
    let indexers = Some(vec![ACCOUNT_50.to_string(), ACCOUNT_51.to_string()]);
    let result = get_indexer_stats(&store, indexers, from_timestamp);

    assert_eq!(
        result.len(),
        2,
        "Should return stats for the specified indexers"
    );
}

#[test]
fn test_get_indexer_stats_no_matching_records() {
    let store = MessageStore::new();
    let from_timestamp = now_seconds() + 10000;
    let indexers = None;
    let result = get_indexer_stats(&store, indexers, from_timestamp);

    assert!(
        result.is_empty(),
        "Result should be empty when no records match criteria"
    );
}

#[test]
fn test_get_indexer_stats_with_specific_counts() {
    let mut store = MessageStore::new();
    insert_test_data(
        &mut store,
        vec![
            (1707328517, ACCOUNT_50, "QmUnique1"),
            (1707328518, ACCOUNT_50, "QmUnique1"),
            (1707328519, ACCOUNT_51, "QmUnique2"),
        ],
    );

    let from_timestamp = 1707328516;
    let indexers = Some(vec![ACCOUNT_50.to_string(), ACCOUNT_51.to_string()]);
    let result = get_indexer_stats(&store, indexers, from_timestamp);

    assert_eq!(result.len(), 2);
    for stat in result {
        match stat.graph_account.as_str() {
            ACCOUNT_50 => {
                assert_eq!(stat.message_count, 2);
                assert_eq!(stat.subgraphs_count, 1);
            }
            ACCOUNT_51 => {
                assert_eq!(stat.message_count, 1);
                assert_eq!(stat.subgraphs_count, 1);
            }
            _ => panic!("Unexpected graph_account found in the result"),
        }
    }
}

#[test]
fn single_sender_active_window() {
    let mut store = MessageStore::new();
    insert_test_data(&mut store, vec![(1707328517, ACCOUNT_50, "QmA")]);
    assert_eq!(
        list_active_indexers(&store, None, 1707328516),
        vec![ACCOUNT_50.to_string()]
    );
    assert_eq!(
        list_active_indexers(&store, None, 1707328517),
        Vec::<String>::new()
    );
}

#[test]
fn filter_is_an_intersection() {
    let mut store = MessageStore::new();
    insert_test_data(
        &mut store,
        vec![
            (10, "a", "Qm1"),
            (11, "b", "Qm1"),
            (12, "c", "Qm2"),
            (13, "a", "Qm3"),
            (5, "d", "Qm3"),
        ],
    );
    let all = list_active_indexers(&store, None, 9);
    assert_eq!(all, vec!["a".to_string(), "b".to_string(), "c".to_string()]);
    let filter = vec!["c".to_string(), "a".to_string(), "d".to_string(), "zz".to_string()];
    let some = list_active_indexers(&store, Some(filter.clone()), 9);
    let expected: Vec<String> = all.iter().filter(|a| filter.contains(a)).cloned().collect();
    assert_eq!(some, expected);
    assert_eq!(some, vec!["a".to_string(), "c".to_string()]);
    assert!(list_active_indexers(&store, Some(vec![]), 9).is_empty());
}

#[test]
fn senders_come_in_order_of_first_appearance() {
    let mut store = MessageStore::new();
    insert_test_data(
        &mut store,
        vec![(20, "late", "Qm1"), (21, "early", "Qm1"), (22, "late", "Qm2")],
    );
    assert_eq!(
        list_active_indexers(&store, None, 0),
        vec!["late".to_string(), "early".to_string()]
    );
    let stats = get_indexer_stats(&store, None, 0);
    assert_eq!(stats[0].graph_account, "late");
    assert_eq!(stats[0].message_count, 2);
    assert_eq!(stats[0].subgraphs_count, 2);
    assert_eq!(stats[1].graph_account, "early");
    assert_eq!(stats[1].message_count, 1);
    assert_eq!(stats[1].subgraphs_count, 1);
}

#[test]
fn stats_count_k_rows_of_one_identifier() {
    let mut store = MessageStore::new();
    for nonce in 100..107 {
        insert_test_data(&mut store, vec![(nonce, "sender", "QmSame")]);
    }
    insert_test_data(&mut store, vec![(50, "sender", "QmOld")]);
    let stats = get_indexer_stats(&store, None, 99);
    assert_eq!(stats.len(), 1);
    assert_eq!(stats[0].message_count, 7);
    assert_eq!(stats[0].subgraphs_count, 1);
}

#[test]
fn a_nonce_beyond_the_signed_range_is_refused() {
    let mut store = MessageStore::new();
    add_message(&mut store, poi(5, "first", "Qm1")).unwrap();
    let before = list_messages(&store);
    assert_eq!(
        add_message(&mut store, poi(u64::MAX, "huge", "Qm1")),
        Err(StoreError::NonceOutOfRange)
    );
    assert_eq!(
        add_message(&mut store, poi(i64::MAX as u64 + 1, "huge", "Qm1")),
        Err(StoreError::NonceOutOfRange)
    );
    assert_eq!(list_messages(&store), before);
    assert_eq!(add_message(&mut store, poi(i64::MAX as u64, "edge", "Qm1")), Ok(2));
    assert_eq!(
        list_active_indexers(&store, None, i64::MAX - 1),
        vec!["edge".to_string()]
    );
    assert!(list_active_indexers(&store, None, i64::MAX).is_empty());
    assert_eq!(
        list_active_indexers(&store, None, -5),
        vec!["first".to_string(), "edge".to_string()]
    );
    assert_eq!(prune_old_messages_at(&mut store, i64::MAX, -1, 10), 2);
    assert_eq!(count_messages(&store), 0);
}

#[test]
fn a_full_store_refuses_a_bad_nonce_for_the_nonce() {
    let rows = vec![Row { id: i64::MAX - 1, message: poi(1, "a", "Qm1") }];
    let mut store = MessageStore::restore(rows, vec![]).unwrap();
    assert_eq!(
        add_message(&mut store, poi(u64::MAX, "a", "Qm1")),
        Err(StoreError::NonceOutOfRange)
    );
}

#[test]
fn rows_with_a_nonce_beyond_the_signed_range_are_not_restored() {
    let rows = vec![
        Row { id: 1, message: poi(1, "a", "Qm1") },
        Row { id: 2, message: poi(i64::MAX as u64 + 1, "a", "Qm1") },
    ];
    assert!(MessageStore::restore(rows, vec![]).is_none());
    let rows = vec![Row { id: 1, message: poi(i64::MAX as u64, "a", "Qm1") }];
    assert!(MessageStore::restore(rows, vec![]).is_some());
}

#[test]
fn retention_pruning() {
    let now: i64 = 1_700_000_000;
    let mut store = MessageStore::new();
    insert_test_data(
        &mut store,
        vec![(now - 10 * 60, "a", "Qm1"), (now - 2 * 60, "a", "Qm1")],
    );
    assert_eq!(prune_old_messages_at(&mut store, now, 5, 1000), 1);
    let rows = list_messages(&store);
    assert_eq!(rows.len(), 1);
    assert_eq!(rows[0].id, 2);
    assert_eq!(rows[0].message.nonce, (now - 2 * 60) as u64);
    assert_eq!(prune_old_messages_at(&mut store, now, 5, 1000), 0);
    assert_eq!(count_messages(&store), 1);
}

#[test]
fn retention_cutoff_is_strict() {
    let now: i64 = 1_000_000;
    let mut store = MessageStore::new();
    insert_test_data(
        &mut store,
        vec![(now - 300, "a", "Qm1"), (now - 301, "b", "Qm1"), (now - 299, "c", "Qm1")],
    );
    assert_eq!(prune_old_messages_at(&mut store, now, 5, 1000), 1);
    let ids: Vec<i64> = list_ids(&store).iter().map(|m| m.id).collect();
    assert_eq!(ids, vec![1, 3]);
}

#[test]
fn pruning_in_small_batches_deletes_the_same_rows() {
    let now: i64 = 10_000;
    let build = || {
        let mut store = MessageStore::new();
        for k in 0..25i64 {
            let nonce = if k % 3 == 0 { now } else { k };
            insert_test_data(&mut store, vec![(nonce, "a", "Qm1")]);
        }
        store
    };
    let mut one = build();
    let mut two = build();
    let mut three = build();
    assert_eq!(prune_old_messages_at(&mut one, now, 1, 1), 16);
    assert_eq!(prune_old_messages_at(&mut two, now, 1, 16), 16);
    assert_eq!(prune_old_messages_at(&mut three, now, 1, 1000), 16);
    assert_eq!(list_messages(&one), list_messages(&two));
    assert_eq!(list_messages(&one), list_messages(&three));
    let ids: Vec<i64> = list_ids(&one).iter().map(|m| m.id).collect();
    assert_eq!(ids, vec![1, 4, 7, 10, 13, 16, 19, 22, 25]);
}

#[test]
fn pruning_by_the_clock_keeps_fresh_rows() {
    let now = now_seconds();
    let mut store = MessageStore::new();
    insert_test_data(
        &mut store,
        vec![(now - 3600, "a", "Qm1"), (now + 3600, "a", "Qm1")],
    );
    assert_eq!(prune_old_messages(&mut store, 5, 1000), 1);
    let ids: Vec<i64> = list_ids(&store).iter().map(|m| m.id).collect();
    assert_eq!(ids, vec![2]);
}

#[test]
fn size_cap_pruning() {
    let mut store = MessageStore::new();
    let mut ids = Vec::new();
    for k in 0..5u64 {
        ids.push(add_message(&mut store, poi(100 - k, "a", "Qm1")).unwrap());
    }
    assert_eq!(retain_max_storage(&mut store, 3), 2);
    let left: Vec<i64> = list_ids(&store).iter().map(|m| m.id).collect();
    assert_eq!(left, ids[2..].to_vec());
    assert_eq!(count_messages(&store), 3);
}

#[test]
fn size_cap_above_the_count_deletes_nothing() {
    let mut store = MessageStore::new();
    insert_test_data(&mut store, vec![(1, "a", "Qm1"), (2, "a", "Qm1")]);
    let before = list_messages(&store);
    assert_eq!(retain_max_storage(&mut store, 2), 0);
    assert_eq!(retain_max_storage(&mut store, 3), 0);
    assert_eq!(retain_max_storage(&mut store, usize::MAX), 0);
    assert_eq!(list_messages(&store), before);
    assert_eq!(retain_max_storage(&mut store, 0), 2);
    assert_eq!(count_messages(&store), 0);
}

#[test]
fn insert_get_delete_get() {
    let mut store = MessageStore::new();
    insert_test_data(&mut store, vec![(1, "a", "Qm1")]);
    let message = poi(7, "b", "Qm2");
    let id = add_message(&mut store, message.clone()).unwrap();
    assert_eq!(id, 2);
    let row = message_by_id(&store, id).unwrap();
    assert_eq!(row, Row { id, message: message.clone() });
    assert_eq!(row.get_id(), id);
    assert_eq!(row.get_message(), message);
    let deleted = delete_message_by_id(&mut store, id).unwrap();
    assert_eq!(deleted, Row { id, message });
    assert_eq!(message_by_id(&store, id), Err(StoreError::NotFound));
    assert_eq!(delete_message_by_id(&mut store, id), Err(StoreError::NotFound));
    assert_eq!(count_messages(&store), 1);
}

#[test]
fn ids_are_not_reused_after_deletion() {
    let mut store = MessageStore::new();
    insert_test_data(&mut store, vec![(1, "a", "Qm1"), (2, "a", "Qm1")]);
    let all = delete_message_all(&mut store);
    assert_eq!(all.len(), 2);
    assert_eq!(all[0].id, 1);
    assert_eq!(all[1].id, 2);
    assert_eq!(count_messages(&store), 0);
    assert_eq!(add_message(&mut store, poi(3, "a", "Qm1")), Ok(3));
}

#[test]
fn distinct_subgraphs_in_window() {
    let mut store = MessageStore::new();
    insert_test_data(
        &mut store,
        vec![(10, "a", "Qm1"), (20, "b", "Qm1"), (30, "a", "Qm2"), (5, "a", "Qm3")],
    );
    assert_eq!(count_distinct_subgraphs(&store, 9), 2);
    assert_eq!(count_distinct_subgraphs(&store, 4), 3);
    assert_eq!(count_distinct_subgraphs(&store, 30), 0);
}

#[test]
fn aggregates_are_appended_and_fetched_by_time() {
    let mut store = MessageStore::new();
    assert_eq!(insert_aggregate(&mut store, 100, "a".to_string(), 3, 2), Ok(1));
    assert_eq!(insert_aggregate(&mut store, 200, "b".to_string(), 5, 1), Ok(2));
    assert_eq!(insert_aggregate(&mut store, 300, "a".to_string(), 1, 1), Ok(3));
    let recent = fetch_aggregates(&store, 100);
    assert_eq!(
        recent,
        vec![
            Aggregate {
                id: 2,
                created_at_ts: 200,
                graph_account: "b".to_string(),
                message_count: 5,
                subgraphs_count: 1
            },
            Aggregate {
                id: 3,
                created_at_ts: 300,
                graph_account: "a".to_string(),
                message_count: 1,
                subgraphs_count: 1
            },
        ]
    );
    assert_eq!(fetch_aggregates(&store, 99).len(), 3);
    assert!(fetch_aggregates(&store, 300).is_empty());
}

#[test]
fn restore_takes_over_ascending_rows_only() {
    let rows = vec![
        Row { id: 3, message: poi(1, "a", "Qm1") },
        Row { id: 8, message: poi(2, "a", "Qm1") },
    ];
    let aggregates = vec![Aggregate {
        id: 4,
        created_at_ts: 1,
        graph_account: "a".to_string(),
        message_count: 1,
        subgraphs_count: 1,
    }];
    let mut store = MessageStore::restore(rows, aggregates).unwrap();
    assert_eq!(count_messages(&store), 2);
    assert_eq!(add_message(&mut store, poi(3, "a", "Qm1")), Ok(9));
    assert_eq!(insert_aggregate(&mut store, 5, "b".to_string(), 1, 1), Ok(5));

    let unordered = vec![
        Row { id: 8, message: poi(1, "a", "Qm1") },
        Row { id: 3, message: poi(2, "a", "Qm1") },
    ];
    assert!(MessageStore::restore(unordered, vec![]).is_none());
    let zero = vec![Row { id: 0, message: poi(1, "a", "Qm1") }];
    assert!(MessageStore::restore(zero, vec![]).is_none());
    let full = vec![Row { id: i64::MAX, message: poi(1, "a", "Qm1") }];
    assert!(MessageStore::restore(full, vec![]).is_none());
}

#[test]
fn a_store_with_its_last_id_used_refuses_inserts() {
    let rows = vec![Row { id: i64::MAX - 1, message: poi(1, "a", "Qm1") }];
    let mut store = MessageStore::restore(rows, vec![]).unwrap();
    assert_eq!(
        add_message(&mut store, poi(2, "a", "Qm1")),
        Err(StoreError::IdsExhausted)
    );
    assert_eq!(count_messages(&store), 1);
}

#[test]
fn rows_of_every_kind_are_stored() {
    let mut store = MessageStore::new();
    let simple = GraphcastMessage {
        identifier: "ping".to_string(),
        payload: Payload::Simple(SimpleMessage {
            identifier: "ping".to_string(),
            content: "pong".to_string(),
        }),
        nonce: 77,
        graph_account: "0xabc".to_string(),
        signature: "sig".to_string(),
    };
    let id = add_message(&mut store, simple.clone()).unwrap();
    assert_eq!(message_by_id(&store, id).unwrap().message, simple);
    assert_eq!(list_active_indexers(&store, None, 76), vec!["0xabc".to_string()]);
}
