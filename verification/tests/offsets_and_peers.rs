use shotover::commit_offsets::{check_committed_offsets, CommitMismatch};
use shotover::kafka_types::TopicPartition;
use shotover::redis_source::RedisConfig;
use shotover::shotover_node::{PeerCheckCursor, PeerUpdate, ShotoverNodeState};

fn tp(topic: &str, partition: i32) -> TopicPartition {
    TopicPartition { topic_name: topic.to_string(), partition }
}

#[test]
fn topic_partitions_compare_by_topic_and_partition() {
    assert!(tp("a", 0) == tp("a", 0));
    assert!(tp("a", 0) != tp("a", 1));
    assert!(tp("a", 0) != tp("b", 0));
}

#[test]
fn committed_offsets_in_another_order_pass() {
    let offsets = vec![(tp("a", 0), 11), (tp("a", 1), 7)];
    let committed = vec![(tp("a", 1), 7), (tp("a", 0), 11)];
    assert_eq!(check_committed_offsets(&offsets, &committed), Ok(()));
    let none: Vec<(TopicPartition, i64)> = vec![];
    assert_eq!(check_committed_offsets(&none, &none), Ok(()));
}

#[test]
fn committed_offsets_for_another_number_of_partitions_fail() {
    let offsets = vec![(tp("a", 0), 11)];
    let committed = vec![(tp("a", 0), 11), (tp("a", 1), 2)];
    assert_eq!(
        check_committed_offsets(&offsets, &committed),
        Err(CommitMismatch::CountMismatch { expected: 1, reported: 2 })
    );
}

#[test]
fn committed_offsets_missing_a_partition_fail() {
    let offsets = vec![(tp("a", 0), 11), (tp("b", 0), 3)];
    let committed = vec![(tp("a", 0), 11), (tp("c", 0), 3)];
    assert_eq!(
        check_committed_offsets(&offsets, &committed),
        Err(CommitMismatch::Missing { index: 1 })
    );
}

#[test]
fn committed_offsets_with_another_offset_fail() {
    let offsets = vec![(tp("a", 0), 11), (tp("b", 0), 3)];
    let committed = vec![(tp("b", 0), 4), (tp("a", 0), 11)];
    assert_eq!(
        check_committed_offsets(&offsets, &committed),
        Err(CommitMismatch::WrongOffset { index: 1, found: 4 })
    );
}

#[test]
fn peer_check_goes_round_the_peers() {
    let mut cursor = PeerCheckCursor::new(3);
    let mut visited = vec![];
    for step in 0..7 {
        assert_eq!(cursor.next_peer(), Some(step % 3));
        let update = cursor.record_check(step % 2 == 0);
        visited.push(update.peer);
    }
    assert_eq!(visited, vec![0, 1, 2, 0, 1, 2, 0]);
}

#[test]
fn peer_check_records_reachability() {
    let mut cursor = PeerCheckCursor::new(2);
    assert_eq!(cursor.record_check(true), PeerUpdate { peer: 0, state: ShotoverNodeState::Up });
    assert_eq!(cursor.record_check(false), PeerUpdate { peer: 1, state: ShotoverNodeState::Down });
    assert!(ShotoverNodeState::Up.is_up());
    assert!(!ShotoverNodeState::Down.is_up());
    assert_eq!(ShotoverNodeState::after_check(false), ShotoverNodeState::Down);
}

#[test]
fn peer_check_without_peers_has_nothing_to_check() {
    let cursor = PeerCheckCursor::new(0);
    assert_eq!(cursor.next_peer(), None);
    assert_eq!(cursor.next_peer(), None);
}

#[test]
fn single_peer_is_checked_every_time() {
    let mut cursor = PeerCheckCursor::new(1);
    for _ in 0..3 {
        assert_eq!(cursor.record_check(true).peer, 0);
        assert_eq!(cursor.next_peer(), Some(0));
    }
}

#[test]
fn redis_configs_compare_by_listen_address() {
    let a = RedisConfig { listen_addr: "127.0.0.1:6379".to_string() };
    let b = RedisConfig { listen_addr: "127.0.0.1:6379".to_string() };
    let c = RedisConfig { listen_addr: "127.0.0.1:6380".to_string() };
    assert!(a == b);
    assert!(a != c);
}
