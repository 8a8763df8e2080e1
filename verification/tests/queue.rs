//! What is collected from the writer's queue.
use squeuelite::config::{BatchConfig, GatewayConfig};
use squeuelite::queue::{Command, Drain};
use squeuelite::request::{SqlOperation, WriteRequest};

type Item = Command<u32, u32>;

fn write(n: u32, operations: usize) -> Item {
    let op = SqlOperation { sql: "INSERT INTO t VALUES (1)".to_string(), params: vec![] };
    Command::Write {
        request: WriteRequest {
            request_id: format!("r-{n}"),
            actor_id: "a".to_string(),
            run_id: None,
            idempotency_key: None,
            operations: vec![op; operations],
        },
        respond_to: n,
    }
}

fn batching(max_size: usize) -> GatewayConfig {
    GatewayConfig {
        batch: Some(BatchConfig { max_size, max_delay_micros: 500 }),
        ..GatewayConfig::default()
    }
}

/// What a drain takes from a queue, and what is left in the queue.
fn drained(config: &GatewayConfig, queue: Vec<Item>) -> (Vec<u32>, Option<Item>, usize) {
    let mut queue = queue.into_iter();
    let mut drain = Drain::start(queue.next().unwrap(), config);
    while drain.wants_more() {
        drain = drain.offer(queue.next());
    }
    let (batch, deferred) = drain.finish();
    (batch.into_iter().map(|b| b.1).collect(), deferred, queue.count())
}

#[test]
fn nothing_is_collected_without_batching() {
    let config = GatewayConfig::default();
    let (batch, deferred, left) = drained(&config, vec![write(1, 1), write(2, 1)]);
    assert_eq!((batch, deferred.is_none(), left), (vec![1], true, 1));
}

#[test]
fn single_operations_are_collected_in_order() {
    let queue = vec![write(1, 1), write(2, 1), write(3, 1)];
    let (batch, deferred, left) = drained(&batching(64), queue);
    assert_eq!((batch, deferred.is_none(), left), (vec![1, 2, 3], true, 0));
}

#[test]
fn a_full_batch_takes_no_more() {
    let queue = vec![write(1, 1), write(2, 1), write(3, 1)];
    let (batch, deferred, left) = drained(&batching(2), queue);
    assert_eq!((batch, deferred.is_none(), left), (vec![1, 2], true, 1));
    for limit in [0, 1] {
        let (batch, _, left) = drained(&batching(limit), vec![write(1, 1), write(2, 1)]);
        assert_eq!((batch, left), (vec![1], 1));
    }
}

#[test]
fn a_transaction_of_several_operations_stays_alone() {
    let (batch, deferred, left) = drained(&batching(64), vec![write(1, 2), write(2, 1)]);
    assert_eq!((batch, deferred.is_none(), left), (vec![1], true, 1));
    let (batch, deferred, left) = drained(&batching(64), vec![write(1, 1), write(2, 2), write(3, 1)]);
    assert_eq!((batch, left), (vec![1], 1));
    assert!(matches!(deferred, Some(Command::Write { respond_to: 2, .. })));
    let (batch, _, _) = drained(&batching(64), vec![write(1, 0), write(2, 1)]);
    assert_eq!(batch, vec![1]);
}

#[test]
fn a_control_command_ends_the_collecting() {
    let queue = vec![write(1, 1), Command::Checkpoint { report_to: 9 }, write(2, 1)];
    let (batch, deferred, left) = drained(&batching(64), queue);
    assert_eq!((batch, left), (vec![1], 1));
    assert!(matches!(deferred, Some(Command::Checkpoint { report_to: 9 })));
    let (batch, deferred, left) = drained(&batching(64), vec![Command::Shutdown, write(1, 1)]);
    assert_eq!((batch, left), (vec![], 1));
    assert!(matches!(deferred, Some(Command::Shutdown)));
}
