use telegram_core::events::MessageId;
use telegram_core::send::{
    backoff_delay, exceeded_max_attempts, message_id_i32, rate_limit_delay, retry_decision,
    RetryDecision, RpcFailure, SendEnqueueError, SendError, SendPeer, SendPipelineConfig,
    SendRequest, SendResult, SendScheduler, SendStatus, TransportError,
};

fn test_peer() -> SendPeer {
    SendPeer { dialog_id: 123 }
}

fn send_request() -> SendRequest {
    SendRequest::SendText { peer: test_peer(), text: "hello".to_string(), reply_to: None }
}

fn config(queue_limit: usize, max_attempts: Option<u32>, base_ms: u64, max_ms: u64) -> SendPipelineConfig {
    SendPipelineConfig {
        queue_limit,
        max_retry_attempts: max_attempts,
        retry_base_delay_ms: base_ms,
        retry_max_delay_ms: max_ms,
    }
}

fn flood_wait(seconds: u32) -> SendError {
    SendError::Invocation(TransportError::Rpc(RpcFailure {
        code: 420,
        name: "FLOOD_WAIT".to_string(),
        value: Some(seconds),
    }))
}

#[test]
fn retries_on_rate_limit_then_succeeds() {
    let mut scheduler = SendScheduler::new(config(4, Some(3), 10, 1000));

    let (id, status) = scheduler.enqueue(send_request(), 0).expect("enqueue");
    assert_eq!(status, SendStatus::Queued { attempt: 0, next_retry_in_ms: None });

    let item = scheduler.pop_ready(1).expect("a ready item");
    assert_eq!(item.id, id);
    let (item, status) = scheduler.begin_attempt(item);
    assert_eq!(status, SendStatus::Sending { attempt: 1 });

    let (status, requeued) = scheduler.settle(item, Err(flood_wait(1)), 1);
    assert_eq!(status, SendStatus::Queued { attempt: 1, next_retry_in_ms: Some(1000) });
    assert!(requeued);

    // nothing is ready before the server-directed wait elapses
    assert!(scheduler.pop_ready(500).is_none());

    let item = scheduler.pop_ready(1001).expect("a ready retry");
    let (item, status) = scheduler.begin_attempt(item);
    assert_eq!(status, SendStatus::Sending { attempt: 2 });

    let (status, requeued) = scheduler.settle(
        item,
        Ok(SendResult::MessageSent { message_id: MessageId(77) }),
        1001,
    );
    assert_eq!(status, SendStatus::Sent(SendResult::MessageSent { message_id: MessageId(77) }));
    assert!(!requeued);
}

#[test]
fn fails_after_max_retry_attempts() {
    let mut scheduler = SendScheduler::new(config(2, Some(2), 5, 5));

    let (_, _) = scheduler.enqueue(send_request(), 0).expect("enqueue");
    let item = scheduler.pop_ready(1).expect("a ready item");
    let (item, _) = scheduler.begin_attempt(item);
    let io_error = || SendError::Invocation(TransportError::Io("boom".to_string()));

    let (status, requeued) = scheduler.settle(item, Err(io_error()), 1);
    assert_eq!(status, SendStatus::Queued { attempt: 1, next_retry_in_ms: Some(5) });
    assert!(requeued);

    let item = scheduler.pop_ready(6).expect("a ready retry");
    let (item, _) = scheduler.begin_attempt(item);
    let (status, requeued) = scheduler.settle(item, Err(io_error()), 6);
    match status {
        SendStatus::Failed(failure) => {
            assert_eq!(failure.attempts, 2);
            assert!(failure.retryable);
        }
        other => panic!("expected failed status, got {other:?}"),
    }
    assert!(!requeued);
}

#[test]
fn rejects_enqueue_when_queue_full() {
    let mut scheduler = SendScheduler::new(config(1, Some(1), 1, 1));

    let _first = scheduler.enqueue(send_request(), 0).expect("first enqueue");
    let second = scheduler.enqueue(send_request(), 0);

    assert!(matches!(second, Err(SendEnqueueError::QueueFull)));
}

#[test]
fn invalid_message_ids_fail_without_retry() {
    let mut scheduler = SendScheduler::new(config(2, Some(3), 5, 5));

    let (_, _) = scheduler.enqueue(send_request(), 0).expect("enqueue");
    let item = scheduler.pop_ready(1).expect("a ready item");
    let (item, _) = scheduler.begin_attempt(item);

    let error = SendError::InvalidMessageId { field: "message_id", value: i64::from(i32::MAX) + 1 };
    let (status, requeued) = scheduler.settle(item, Err(error), 1);
    match status {
        SendStatus::Failed(failure) => {
            assert_eq!(failure.attempts, 1);
            assert!(!failure.retryable);
        }
        other => panic!("expected failed status, got {other:?}"),
    }
    assert!(!requeued);
}

#[test]
fn ready_items_fire_in_admission_order() {
    let mut scheduler = SendScheduler::new(config(4, None, 5, 5));
    let (first_id, _) = scheduler.enqueue(send_request(), 10).expect("enqueue");
    let (second_id, _) = scheduler.enqueue(send_request(), 20).expect("enqueue");

    let first = scheduler.pop_ready(30).expect("a ready item");
    assert_eq!(first.id, first_id);
    let second = scheduler.pop_ready(30).expect("a second ready item");
    assert_eq!(second.id, second_id);
}

#[test]
fn backoff_doubles_and_clamps() {
    let cfg = config(1, None, 500, 30_000);
    assert_eq!(backoff_delay(1, &cfg), 500);
    assert_eq!(backoff_delay(2, &cfg), 1000);
    assert_eq!(backoff_delay(3, &cfg), 2000);
    assert_eq!(backoff_delay(8, &cfg), 30_000);
    assert_eq!(backoff_delay(9, &cfg), 30_000);
    let none = config(1, None, 0, 30_000);
    assert_eq!(backoff_delay(4, &none), 0);
}

#[test]
fn retry_policy_classifies_errors() {
    let cfg = config(1, None, 500, 30_000);
    let invalid = SendError::InvalidMessageId { field: "reply_to", value: 1 << 40 };
    assert_eq!(retry_decision(&invalid, 1, &cfg), RetryDecision::Fail { retryable: false });

    assert_eq!(retry_decision(&flood_wait(3), 1, &cfg), RetryDecision::RetryAfterMs(3000));

    let slowmode = SendError::Invocation(TransportError::Rpc(RpcFailure {
        code: 420,
        name: "SLOWMODE_WAIT".to_string(),
        value: Some(2),
    }));
    assert_eq!(retry_decision(&slowmode, 1, &cfg), RetryDecision::RetryAfterMs(2000));

    let zero_wait = SendError::Invocation(TransportError::Rpc(RpcFailure {
        code: 420,
        name: "FLOOD_WAIT".to_string(),
        value: Some(0),
    }));
    assert_eq!(retry_decision(&zero_wait, 1, &cfg), RetryDecision::Fail { retryable: false });

    let server = SendError::Invocation(TransportError::Rpc(RpcFailure {
        code: 500,
        name: "INTERNAL".to_string(),
        value: None,
    }));
    assert_eq!(retry_decision(&server, 2, &cfg), RetryDecision::RetryAfterMs(1000));

    let client = SendError::Invocation(TransportError::Rpc(RpcFailure {
        code: 400,
        name: "PEER_ID_INVALID".to_string(),
        value: None,
    }));
    assert_eq!(retry_decision(&client, 1, &cfg), RetryDecision::Fail { retryable: false });

    let io = SendError::Invocation(TransportError::Io("boom".to_string()));
    assert_eq!(retry_decision(&io, 1, &cfg), RetryDecision::RetryAfterMs(500));

    let dropped = SendError::Invocation(TransportError::Dropped);
    assert_eq!(retry_decision(&dropped, 1, &cfg), RetryDecision::RetryAfterMs(500));

    let auth = SendError::Invocation(TransportError::Authentication("denied".to_string()));
    assert_eq!(retry_decision(&auth, 1, &cfg), RetryDecision::Fail { retryable: false });
}

#[test]
fn rate_limit_needs_positive_value() {
    let named = RpcFailure { code: 420, name: "FLOOD_PREMIUM_WAIT".to_string(), value: Some(4) };
    assert_eq!(rate_limit_delay(&named), Some(4000));
    let unnamed = RpcFailure { code: 420, name: "OTHER".to_string(), value: Some(4) };
    assert_eq!(rate_limit_delay(&unnamed), None);
    let missing = RpcFailure { code: 420, name: "FLOOD_WAIT".to_string(), value: None };
    assert_eq!(rate_limit_delay(&missing), None);
}

#[test]
fn message_id_narrows_or_rejects() {
    assert_eq!(message_id_i32(MessageId(77), "message_id"), Ok(77));
    let wide = i64::from(i32::MAX) + 1;
    assert_eq!(
        message_id_i32(MessageId(wide), "message_id"),
        Err(SendError::InvalidMessageId { field: "message_id", value: wide })
    );
}

#[test]
fn unlimited_budget_never_exceeds() {
    assert!(!exceeded_max_attempts(1000, None));
    assert!(exceeded_max_attempts(2, Some(2)));
    assert!(!exceeded_max_attempts(1, Some(2)));
}
