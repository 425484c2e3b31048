use heirloom_backend::distributed_tx::{
    plan_moves, rows_to_move, shard_count_setting, shard_path, DistributedTransaction,
    DistributedTxCoordinator, DistributedTxError, Operation, Shard, ShardKey, ShardNode, TxOutcome,
    Vote,
};
use heirloom_backend::strmap::StrMap;

fn make_coordinator(n: usize) -> DistributedTxCoordinator<ShardNode> {
    let shards: Vec<ShardNode> = (0..n).map(ShardNode::new).collect();
    DistributedTxCoordinator::new(shards)
}

#[test]
fn test_shard_key_maps_consistently() {
    let key = ShardKey::new("vault-abc");
    let idx1 = key.shard_index(4);
    let idx2 = key.shard_index(4);
    assert_eq!(idx1, idx2);
    assert!(idx1 < 4);
}

#[test]
fn test_shard_key_zero_shards_returns_zero() {
    let key = ShardKey::new("anything");
    assert_eq!(key.shard_index(0), 0);
}

#[test]
fn test_single_shard_commit() {
    let mut coord = make_coordinator(1);

    let mut tx = DistributedTransaction::new("tx-001");
    tx.add_op(0, Operation::Put { shard_key: "k1".into(), value: "v1".into() });

    let outcome = coord.execute(&tx).expect("execute");
    assert_eq!(outcome, TxOutcome::Committed);

    let val = coord.shards[0].read("k1").unwrap();
    assert_eq!(val, Some("v1".to_string()));
}

#[test]
fn test_multi_shard_commit() {
    let mut coord = make_coordinator(2);

    let mut tx = DistributedTransaction::new("tx-multi");
    tx.add_op(0, Operation::Put { shard_key: "key0".into(), value: "val0".into() });
    tx.add_op(1, Operation::Put { shard_key: "key1".into(), value: "val1".into() });

    let outcome = coord.execute(&tx).expect("execute");
    assert_eq!(outcome, TxOutcome::Committed);

    assert_eq!(coord.shards[0].read("key0").unwrap(), Some("val0".to_string()));
    assert_eq!(coord.shards[1].read("key1").unwrap(), Some("val1".to_string()));
}

#[test]
fn test_duplicate_tx_id_votes_abort() {
    let mut coord = make_coordinator(1);

    let mut tx = DistributedTransaction::new("tx-dup");
    tx.add_op(0, Operation::Put { shard_key: "k".into(), value: "v".into() });

    coord.execute(&tx).unwrap(); // first commit

    // Re-submit same tx_id — shard already has it in committed log,
    // so prepare detects duplicate and votes Abort.
    let outcome2 = coord.execute(&tx).unwrap();
    assert_eq!(outcome2, TxOutcome::RolledBack);
}

#[test]
fn test_rollback_on_abort() {
    let mut coord = make_coordinator(2);

    // Manually prepare shard-0 with the same tx_id to trigger an abort on
    // the second shard's prepare call.
    let ops = vec![Operation::Put { shard_key: "x".into(), value: "y".into() }];
    coord.shards[0].prepare("tx-force-abort", &ops).unwrap();

    let mut tx = DistributedTransaction::new("tx-force-abort");
    tx.add_op(0, Operation::Put { shard_key: "x".into(), value: "y".into() });
    tx.add_op(1, Operation::Put { shard_key: "z".into(), value: "w".into() });

    // Shard 0 will abort (duplicate), coordinator should rollback shard 1.
    let outcome = coord.execute(&tx).unwrap();
    assert_eq!(outcome, TxOutcome::RolledBack);

    // Key "z" must NOT have been committed to shard 1.
    assert_eq!(coord.shards[1].read("z").unwrap(), None);
}

#[test]
fn test_delete_operation() {
    let mut coord = make_coordinator(1);

    let mut tx1 = DistributedTransaction::new("tx-put");
    tx1.add_op(0, Operation::Put { shard_key: "del-me".into(), value: "some-value".into() });
    coord.execute(&tx1).unwrap();

    let mut tx2 = DistributedTransaction::new("tx-del");
    tx2.add_op(0, Operation::Delete { shard_key: "del-me".into() });
    coord.execute(&tx2).unwrap();

    assert_eq!(coord.shards[0].read("del-me").unwrap(), None);
}

#[test]
fn test_coordinator_shard_count() {
    let mut coord = make_coordinator(3);
    assert_eq!(coord.shard_count(), 3);
}

#[test]
fn test_route_operation_returns_valid_index() {
    let mut coord = make_coordinator(4);
    let op = Operation::Put { shard_key: "some-key".into(), value: "v".into() };
    let idx = coord.route_operation(&op);
    assert!(idx < 4);
}

#[test]
fn test_rebalance_moves_keys() {
    // Create a coordinator with 2 shards, then rebalance under 3 shards.
    let mut coord = make_coordinator(3);

    // Seed some keys into shard-0.
    let keys = ["alpha", "beta", "gamma", "delta", "epsilon"];
    for k in &keys {
        let mut tx = DistributedTransaction::new(&format!("seed-{k}"));
        tx.add_op(0, Operation::Put { shard_key: k.to_string(), value: "v".into() });
        coord.execute(&tx).unwrap();
    }

    // Rebalance: move keys that would belong to shard-2 under 3-shard layout.
    let moved = coord.rebalance(0, 2, 3).unwrap();
    // moved should be ≥ 0; exact count depends on hash distribution.
    let _ = moved; // just asserting it doesn't panic
}

#[test]
fn test_empty_transaction_commits() {
    let mut coord = make_coordinator(1);
    let tx = DistributedTransaction::new("tx-empty");
    // No ops — should commit vacuously.
    let outcome = coord.execute(&tx).unwrap();
    assert_eq!(outcome, TxOutcome::Committed);
}

#[test]
fn test_from_env_single_shard() {
    let mut vars: StrMap<String> = StrMap::new();
    vars.insert("DB_SHARD_COUNT".to_string(), "1".to_string());
    let coord = make_coordinator(shard_count_setting(&vars));
    assert_eq!(coord.shard_count(), 1);
}

#[test]
fn a_moved_key_is_in_its_new_shard_only() {
    let mut coord = make_coordinator(3);
    for i in 0..30 {
        let mut tx = DistributedTransaction::new(&format!("seed-{i}"));
        tx.add_op(0, Operation::Put { shard_key: format!("k{i}"), value: format!("v{i}") });
        coord.execute(&tx).unwrap();
    }
    let moved = coord.rebalance(0, 2, 3).unwrap();
    let mut expected = 0u64;
    for i in 0..30 {
        let k = format!("k{i}");
        let belongs = ShardKey::new(&k).shard_index(3) == 2;
        let there = coord.shards[2].read(&k).unwrap();
        let here = coord.shards[0].read(&k).unwrap();
        if belongs {
            expected += 1;
            assert_eq!(there, Some(format!("v{i}")));
            assert_eq!(here, None);
        } else {
            assert_eq!(there, None);
            assert_eq!(here, Some(format!("v{i}")));
        }
    }
    assert_eq!(moved, expected);
    assert!(moved > 0);
}

#[test]
fn unknown_shards_are_named() {
    let mut coord = make_coordinator(1);
    match coord.rebalance(5, 0, 1) {
        Err(e @ DistributedTxError::ShardUnavailable(5, _)) => {
            assert_eq!(e.to_string(), "shard 5 unavailable: not found");
        }
        _ => panic!("expected an error"),
    }
    let mut tx = DistributedTransaction::new("t");
    tx.add_op(7, Operation::Delete { shard_key: "k".into() });
    match coord.execute(&tx) {
        Err(e) => assert_eq!(e.to_string(), "shard 7 unavailable: index out of range"),
        Ok(_) => panic!("expected an error"),
    }
}

#[test]
fn a_shard_votes_and_commits() {
    let mut shard = ShardNode::new(3);
    assert_eq!(shard.shard_id(), 3);
    let ops = vec![Operation::Put { shard_key: "a".into(), value: "1".into() }];
    assert_eq!(shard.prepare("t", &ops).unwrap(), Vote::Commit);
    assert_eq!(shard.prepare("t", &ops).unwrap(), Vote::Abort);
    shard.commit("t").unwrap();
    assert_eq!(shard.read("a").unwrap(), Some("1".to_string()));
    assert_eq!(shard.rows().unwrap().len(), 1);
    match shard.commit("t") {
        Err(e) => assert_eq!(e.to_string(), "transaction not found: t"),
        Ok(_) => panic!("expected an error"),
    }
    let raw = vec![Operation::RawSql { sql: "DROP TABLE x".into() }];
    assert_eq!(shard.prepare("r", &raw).unwrap(), Vote::Commit);
    assert!(matches!(shard.commit("r"), Err(DistributedTxError::ApplyFailed(_))));
    shard.rollback("r").unwrap();
    assert_eq!(shard.prepare("r", &raw).unwrap(), Vote::Commit);
}

#[test]
fn the_key_hash_is_exact() {
    assert_eq!(ShardKey::new("").shard_index(1_000_000), 656_037);
    let h = (14_695_981_039_346_656_037u64.wrapping_mul(1_099_511_628_211)).wrapping_add(97);
    assert_eq!(ShardKey::new("a").shard_index(1_000_003), (h % 1_000_003) as usize);
}

#[test]
fn moves_are_planned_for_both_shards() {
    let rows = vec![("a".to_string(), "1".to_string()), ("b".to_string(), "2".to_string())];
    let all = rows_to_move(rows, 0, 1);
    assert_eq!(all.len(), 2);
    let tx = plan_moves(&all, 1, 0, "m");
    assert_eq!(tx.tx_id, "m");
    assert_eq!(tx.shard_ops.len(), 2);
    assert_eq!(tx.shard_ops[0].shard, 0);
    assert_eq!(tx.shard_ops[1].ops.len(), 2);
}

#[test]
fn shard_settings_have_defaults() {
    let mut vars: StrMap<String> = StrMap::new();
    assert_eq!(shard_count_setting(&vars), 1);
    assert_eq!(shard_path(&vars, 2), ":memory:");
    vars.insert("DB_SHARD_PATH_PREFIX".to_string(), "/data/s".to_string());
    assert_eq!(shard_path(&vars, 2), "/data/s_2.db");
}

#[test]
fn a_known_identifier_moves_nothing() {
    let mut coord = make_coordinator(3);
    let key = (0..100)
        .map(|i| format!("k{i}"))
        .find(|k| ShardKey::new(k).shard_index(3) == 2)
        .unwrap();
    let mut seed = DistributedTransaction::new("seed");
    seed.add_op(0, Operation::Put { shard_key: key.clone(), value: "v".into() });
    coord.execute(&seed).unwrap();

    // The source has committed "seed" already and refuses it.
    assert!(matches!(coord.rebalance_as("seed", 0, 2, 3), Ok(1)));
    assert_eq!(coord.shards[0].read(&key).unwrap(), Some("v".to_string()));
    assert_eq!(coord.shards[2].read(&key).unwrap(), None);

    assert!(matches!(coord.rebalance_as("fresh", 0, 2, 3), Ok(1)));
    assert_eq!(coord.shards[0].read(&key).unwrap(), None);
    assert_eq!(coord.shards[2].read(&key).unwrap(), Some("v".to_string()));

    assert!(matches!(coord.rebalance_as("again", 0, 2, 3), Ok(0)));
}
