//! Outgoing send pipeline: a delay-ordered admission queue, the retry policy
//! that classifies transport errors, and exponential backoff. The scheduler
//! here is the worker's state; the shell around the library runs the actual
//! timer loop and transport calls and feeds the outcomes back in.

use vstd::prelude::*;

use crate::events::MessageId;
use crate::text::{append_str, i64_to_string, str_eq};

verus! {

/// How the send pipeline is bounded and how it retries.
#[derive(Debug, Clone, Copy)]
pub struct SendPipelineConfig {
    pub queue_limit: usize,
    pub max_retry_attempts: Option<u32>,
    pub retry_base_delay_ms: u64,
    pub retry_max_delay_ms: u64,
}

impl Default for SendPipelineConfig {
    fn default() -> (r: Self)
        ensures
            r.queue_limit == 256,
            r.max_retry_attempts is None,
            r.retry_base_delay_ms == 500,
            r.retry_max_delay_ms == 30_000,
    {
        SendPipelineConfig {
            queue_limit: 256,
            max_retry_attempts: None,
            retry_base_delay_ms: 500,
            retry_max_delay_ms: 30_000,
        }
    }
}

/// Monotonically increasing identifier of one enqueued send.
#[derive(Debug, Clone, Copy, PartialEq, Eq, Hash, Structural)]
pub struct SendId(pub u64);

/// The peer a request is addressed to, by its folded dialog identifier.
#[derive(Debug, Clone, Copy, PartialEq, Eq, Structural)]
pub struct SendPeer {
    pub dialog_id: i64,
}

/// One outgoing action against the transport.
#[derive(Debug, PartialEq, Eq)]
pub enum SendRequest {
    SendText { peer: SendPeer, text: String, reply_to: Option<MessageId> },
    EditText { peer: SendPeer, message_id: MessageId, text: String },
    DeleteMessage { peer: SendPeer, message_id: MessageId },
}

impl Clone for SendRequest {
    fn clone(&self) -> (res: Self)
        ensures
            res == *self,
    {
        match self {
            SendRequest::SendText { peer, text, reply_to } => SendRequest::SendText {
                peer: *peer,
                text: text.clone(),
                reply_to: *reply_to,
            },
            SendRequest::EditText { peer, message_id, text } => SendRequest::EditText {
                peer: *peer,
                message_id: *message_id,
                text: text.clone(),
            },
            SendRequest::DeleteMessage { peer, message_id } => SendRequest::DeleteMessage {
                peer: *peer,
                message_id: *message_id,
            },
        }
    }
}

impl SendRequest {
    /// A short label for logs.
    pub fn kind(&self) -> (r: &'static str)
        ensures
            r@ == match *self {
                SendRequest::SendText { .. } => "send_text"@,
                SendRequest::EditText { .. } => "edit_text"@,
                SendRequest::DeleteMessage { .. } => "delete_message"@,
            },
    {
        match self {
            SendRequest::SendText { .. } => "send_text",
            SendRequest::EditText { .. } => "edit_text",
            SendRequest::DeleteMessage { .. } => "delete_message",
        }
    }

    /// The folded dialog identifier the request is addressed to.
    pub fn peer_id(&self) -> (r: i64)
        ensures
            r == match *self {
                SendRequest::SendText { peer, .. } => peer.dialog_id,
                SendRequest::EditText { peer, .. } => peer.dialog_id,
                SendRequest::DeleteMessage { peer, .. } => peer.dialog_id,
            },
    {
        match self {
            SendRequest::SendText { peer, .. } => peer.dialog_id,
            SendRequest::EditText { peer, .. } => peer.dialog_id,
            SendRequest::DeleteMessage { peer, .. } => peer.dialog_id,
        }
    }
}

/// What the transport reports back on success.
#[derive(Debug, Clone, Copy, PartialEq, Eq, Structural)]
pub enum SendResult {
    MessageSent { message_id: MessageId },
    MessageEdited { message_id: MessageId },
    MessageDeleted { message_id: MessageId, deleted_count: usize },
}

/// One remote-procedure failure as the server reports it.
#[derive(Debug, PartialEq, Eq)]
pub struct RpcFailure {
    pub code: i32,
    pub name: String,
    pub value: Option<u32>,
}

/// The transport-level failure classes the retry policy distinguishes.
#[derive(Debug, PartialEq, Eq)]
pub enum TransportError {
    Rpc(RpcFailure),
    Io(String),
    Transport(String),
    Deserialize(String),
    Dropped,
    InvalidDc,
    Authentication(String),
}

/// Why one send attempt failed.
#[derive(Debug, PartialEq, Eq)]
pub enum SendError {
    InvalidMessageId { field: &'static str, value: i64 },
    Invocation(TransportError),
}

/// The observable state of one send.
#[derive(Debug, PartialEq, Eq)]
pub enum SendStatus {
    Queued { attempt: u32, next_retry_in_ms: Option<u64> },
    Sending { attempt: u32 },
    Sent(SendResult),
    Failed(SendFailure),
}

impl Clone for SendStatus {
    fn clone(&self) -> (res: Self)
        ensures
            res == *self,
    {
        match self {
            SendStatus::Queued { attempt, next_retry_in_ms } => SendStatus::Queued {
                attempt: *attempt,
                next_retry_in_ms: *next_retry_in_ms,
            },
            SendStatus::Sending { attempt } => SendStatus::Sending { attempt: *attempt },
            SendStatus::Sent(result) => SendStatus::Sent(*result),
            SendStatus::Failed(failure) => SendStatus::Failed(failure.clone()),
        }
    }
}

/// A terminal failure, with how often it was attempted.
#[derive(Debug, PartialEq, Eq)]
pub struct SendFailure {
    pub error: String,
    pub attempts: u32,
    pub retryable: bool,
}

impl Clone for SendFailure {
    fn clone(&self) -> (res: Self)
        ensures
            res == *self,
    {
        SendFailure { error: self.error.clone(), attempts: self.attempts, retryable: self.retryable }
    }
}

/// Why an enqueue was rejected.
#[derive(Debug, Clone, Copy, PartialEq, Eq, Structural)]
pub enum SendEnqueueError {
    QueueFull,
    Closed,
}

/// What the retry policy decides for one failed attempt.
#[derive(Debug, Clone, Copy, PartialEq, Eq, Structural)]
pub enum RetryDecision {
    RetryAfterMs(u64),
    Fail { retryable: bool },
}

/// Whether the retry budget is spent: never with an unlimited budget.
pub fn exceeded_max_attempts(attempt: u32, max_attempts: Option<u32>) -> (r: bool)
    ensures
        r == match max_attempts {
            Some(max) => attempt >= max,
            None => false,
        },
{
    match max_attempts {
        Some(max) => attempt >= max,
        None => false,
    }
}

/// The rate-limit delay a server-directed wait carries, if any.
pub open spec fn spec_rate_limit_delay(rpc: RpcFailure) -> Option<u64> {
    if (rpc.name@ == "FLOOD_WAIT"@ || rpc.name@ == "SLOWMODE_WAIT"@ || rpc.name@
        == "FLOOD_PREMIUM_WAIT"@) {
        match rpc.value {
            Some(seconds) => if seconds > 0 {
                Some((seconds * 1000) as u64)
            } else {
                None::<u64>
            },
            None => None::<u64>,
        }
    } else {
        None::<u64>
    }
}

/// Milliseconds to wait when the server names a rate limit with a positive
/// value.
pub fn rate_limit_delay(rpc: &RpcFailure) -> (r: Option<u64>)
    ensures
        r == spec_rate_limit_delay(*rpc),
{
    let named = str_eq(rpc.name.as_str(), "FLOOD_WAIT") || str_eq(rpc.name.as_str(), "SLOWMODE_WAIT")
        || str_eq(rpc.name.as_str(), "FLOOD_PREMIUM_WAIT");
    if !named {
        return None;
    }
    match rpc.value {
        Some(seconds) => {
            if seconds > 0 {
                Some((seconds as u64) * 1000)
            } else {
                None
            }
        },
        None => None,
    }
}

/// Exponential backoff: the base delay doubled per prior attempt, clamped at
/// the maximum; both bounds zero mean no delay.
pub open spec fn spec_backoff(attempt: int, base: int, max: int) -> int
    decreases attempt,
{
    if base == 0 || max == 0 {
        0
    } else if attempt <= 1 {
        base
    } else {
        let p = spec_backoff(attempt - 1, base, max);
        if p == max {
            max
        } else {
            let d = if 2 * p > u64::MAX {
                u64::MAX as int
            } else {
                2 * p
            };
            if d >= max {
                max
            } else {
                d
            }
        }
    }
}

/// Once the backoff reaches the maximum it stays there.
proof fn lemma_backoff_stable(attempt: int, base: int, max: int)
    requires
        base > 0,
        max > 0,
        attempt >= 1,
        spec_backoff(attempt, base, max) == max,
    ensures
        forall|n: int|
            attempt <= n ==> #[trigger] spec_backoff(n, base, max) == max,
{
    assert forall|n: int| attempt <= n implies #[trigger] spec_backoff(n, base, max) == max by {
        lemma_backoff_stable_step(attempt, n, base, max);
    }
}

proof fn lemma_backoff_stable_step(attempt: int, n: int, base: int, max: int)
    requires
        base > 0,
        max > 0,
        1 <= attempt <= n,
        spec_backoff(attempt, base, max) == max,
    ensures
        spec_backoff(n, base, max) == max,
    decreases n - attempt,
{
    if n > attempt {
        lemma_backoff_stable_step(attempt, n - 1, base, max);
    }
}

/// The executable backoff computation.
pub fn backoff_delay(attempt: u32, config: &SendPipelineConfig) -> (r: u64)
    ensures
        r as int == spec_backoff(attempt as int, config.retry_base_delay_ms as int, config.retry_max_delay_ms as int),
{
    let base = config.retry_base_delay_ms;
    let max = config.retry_max_delay_ms;
    if base == 0 || max == 0 {
        return 0;
    }
    let mut delay: u64 = base;
    let mut step: u32 = 1;
    while step < attempt && delay != max
        invariant
            base > 0,
            max > 0,
            1 <= step,
            attempt >= 1 ==> step <= attempt,
            attempt < 1 ==> step == 1,
            delay as int == spec_backoff(step as int, base as int, max as int),
        decreases attempt - step,
    {
        if delay > u64::MAX / 2 {
            delay = max;
        } else {
            let doubled = delay * 2;
            delay = if doubled >= max {
                max
            } else {
                doubled
            };
        }
        step = step + 1;
    }
    proof {
        if step < attempt {
            lemma_backoff_stable_step(step as int, attempt as int, base as int, max as int);
        }
        if attempt < 1 {
            assert(spec_backoff(attempt as int, base as int, max as int) == base);
        }
    }
    delay
}

/// Backoff never shrinks with more attempts, and never exceeds the maximum,
/// whenever the base does not already exceed the maximum.
pub proof fn lemma_backoff_monotonic(attempt: int, base: int, max: int)
    requires
        0 <= base <= max <= u64::MAX,
        0 <= attempt,
    ensures
        spec_backoff(attempt + 1, base, max) >= spec_backoff(attempt, base, max),
        spec_backoff(attempt, base, max) <= max,
        spec_backoff(attempt, base, max) >= 0,
    decreases attempt,
{
    if attempt > 0 {
        lemma_backoff_monotonic(attempt - 1, base, max);
    }
}

/// The retry policy of the worker, exactly as the spec table reads: invalid
/// input and authentication fail; named rate limits wait as directed; server
/// errors and transient transport faults back off.
pub open spec fn spec_retry_decision(error: SendError, attempt: int, config: SendPipelineConfig) -> RetryDecision {
    match error {
        SendError::InvalidMessageId { .. } => RetryDecision::Fail { retryable: false },
        SendError::Invocation(err) => match err {
            TransportError::Rpc(rpc) => {
                if spec_rate_limit_delay(rpc) is Some {
                    RetryDecision::RetryAfterMs(spec_rate_limit_delay(rpc)->Some_0)
                } else if rpc.code >= 500 {
                    RetryDecision::RetryAfterMs(
                        spec_backoff(attempt, config.retry_base_delay_ms as int, config.retry_max_delay_ms as int) as u64,
                    )
                } else {
                    RetryDecision::Fail { retryable: false }
                }
            },
            TransportError::Io(_) => RetryDecision::RetryAfterMs(
                spec_backoff(attempt, config.retry_base_delay_ms as int, config.retry_max_delay_ms as int) as u64,
            ),
            TransportError::Transport(_) => RetryDecision::RetryAfterMs(
                spec_backoff(attempt, config.retry_base_delay_ms as int, config.retry_max_delay_ms as int) as u64,
            ),
            TransportError::Deserialize(_) => RetryDecision::RetryAfterMs(
                spec_backoff(attempt, config.retry_base_delay_ms as int, config.retry_max_delay_ms as int) as u64,
            ),
            TransportError::Dropped => RetryDecision::RetryAfterMs(
                spec_backoff(attempt, config.retry_base_delay_ms as int, config.retry_max_delay_ms as int) as u64,
            ),
            TransportError::InvalidDc => RetryDecision::RetryAfterMs(
                spec_backoff(attempt, config.retry_base_delay_ms as int, config.retry_max_delay_ms as int) as u64,
            ),
            TransportError::Authentication(_) => RetryDecision::Fail { retryable: false },
        },
    }
}

/// Classifies one failed attempt.
pub fn retry_decision(error: &SendError, attempt: u32, config: &SendPipelineConfig) -> (r: RetryDecision)
    ensures
        r == spec_retry_decision(*error, attempt as int, *config),
{
    match error {
        SendError::InvalidMessageId { .. } => RetryDecision::Fail { retryable: false },
        SendError::Invocation(err) => match err {
            TransportError::Rpc(rpc) => {
                if let Some(delay) = rate_limit_delay(rpc) {
                    return RetryDecision::RetryAfterMs(delay);
                }
                if rpc.code >= 500 {
                    return RetryDecision::RetryAfterMs(backoff_delay(attempt, config));
                }
                RetryDecision::Fail { retryable: false }
            },
            TransportError::Io(_) => RetryDecision::RetryAfterMs(backoff_delay(attempt, config)),
            TransportError::Transport(_) => RetryDecision::RetryAfterMs(
                backoff_delay(attempt, config),
            ),
            TransportError::Deserialize(_) => RetryDecision::RetryAfterMs(
                backoff_delay(attempt, config),
            ),
            TransportError::Dropped => RetryDecision::RetryAfterMs(backoff_delay(attempt, config)),
            TransportError::InvalidDc => RetryDecision::RetryAfterMs(
                backoff_delay(attempt, config),
            ),
            TransportError::Authentication(_) => RetryDecision::Fail { retryable: false },
        },
    }
}

/// Narrows a message identifier to the wire width; out-of-range identifiers
/// are a non-retryable input error.
pub fn message_id_i32(message_id: MessageId, field: &'static str) -> (r: Result<i32, SendError>)
    ensures
        (i32::MIN <= message_id.0 <= i32::MAX) ==> r == Ok::<i32, SendError>(message_id.0 as i32),
        !(i32::MIN <= message_id.0 <= i32::MAX) ==> r == Err::<i32, SendError>(
            SendError::InvalidMessageId { field, value: message_id.0 },
        ),
{
    if message_id.0 >= i32::MIN as i64 && message_id.0 <= i32::MAX as i64 {
        Ok(message_id.0 as i32)
    } else {
        Err(SendError::InvalidMessageId { field, value: message_id.0 })
    }
}

/// A short, human-readable rendering of a send error.
pub open spec fn spec_send_error_text(e: SendError) -> Seq<char> {
    match e {
        SendError::InvalidMessageId { field, value } => "invalid message id for "@ + field@ + ": "@
            + crate::text::spec_i64_dec(value as int),
        SendError::Invocation(err) => match err {
            TransportError::Rpc(rpc) => "rpc error "@ + rpc.name@,
            TransportError::Io(detail) => "io error: "@ + detail@,
            TransportError::Transport(detail) => "transport error: "@ + detail@,
            TransportError::Deserialize(detail) => "deserialization error: "@ + detail@,
            TransportError::Dropped => "request dropped"@,
            TransportError::InvalidDc => "invalid datacenter"@,
            TransportError::Authentication(detail) => "authentication error: "@ + detail@,
        },
    }
}

impl SendError {
    /// Renders the error for status watchers and logs.
    pub fn message(&self) -> (r: String)
        ensures
            r@ == spec_send_error_text(*self),
    {
        match self {
            SendError::InvalidMessageId { field, value } => {
                let mut out = String::new();
                append_str(&mut out, "invalid message id for ");
                append_str(&mut out, field);
                append_str(&mut out, ": ");
                let digits = i64_to_string(*value);
                append_str(&mut out, digits.as_str());
                proof {
                    assert(out@ =~= spec_send_error_text(*self));
                }
                out
            },
            SendError::Invocation(err) => {
                let mut out = String::new();
                match err {
                    TransportError::Rpc(rpc) => {
                        append_str(&mut out, "rpc error ");
                        append_str(&mut out, rpc.name.as_str());
                    },
                    TransportError::Io(detail) => {
                        append_str(&mut out, "io error: ");
                        append_str(&mut out, detail.as_str());
                    },
                    TransportError::Transport(detail) => {
                        append_str(&mut out, "transport error: ");
                        append_str(&mut out, detail.as_str());
                    },
                    TransportError::Deserialize(detail) => {
                        append_str(&mut out, "deserialization error: ");
                        append_str(&mut out, detail.as_str());
                    },
                    TransportError::Dropped => {
                        append_str(&mut out, "request dropped");
                    },
                    TransportError::InvalidDc => {
                        append_str(&mut out, "invalid datacenter");
                    },
                    TransportError::Authentication(detail) => {
                        append_str(&mut out, "authentication error: ");
                        append_str(&mut out, detail.as_str());
                    },
                }
                proof {
                    assert(out@ =~= spec_send_error_text(*self));
                }
                out
            },
        }
    }
}

/// One admitted send, waiting in the delay queue or in flight.
#[derive(Debug)]
pub struct QueueItem {
    pub id: SendId,
    pub request: SendRequest,
    pub attempts: u32,
    pub next_attempt_ms: u64,
    pub sequence: u64,
}

/// Queue priority: earlier deadline first, then earlier admission.
pub open spec fn item_before(a: QueueItem, b: QueueItem) -> bool {
    a.next_attempt_ms < b.next_attempt_ms || (a.next_attempt_ms == b.next_attempt_ms && a.sequence
        < b.sequence)
}

/// Whether an item's deadline has elapsed.
pub open spec fn spec_ready(it: QueueItem, now_ms: u64) -> bool {
    it.next_attempt_ms <= now_ms
}

/// First index of the highest-priority ready item, or -1 when nothing is
/// ready.
pub open spec fn ready_min_index(q: Seq<QueueItem>, now_ms: u64) -> int
    decreases q.len(),
{
    if q.len() == 0 {
        -1
    } else {
        let r = ready_min_index(q.drop_first(), now_ms);
        if spec_ready(q[0], now_ms) {
            if r < 0 || !item_before(q.drop_first()[r], q[0]) {
                0
            } else {
                r + 1
            }
        } else {
            if r < 0 {
                -1
            } else {
                r + 1
            }
        }
    }
}

pub proof fn lemma_ready_min_index_props(q: Seq<QueueItem>, now_ms: u64)
    ensures
        ready_min_index(q, now_ms) >= 0 ==> {
            &&& ready_min_index(q, now_ms) < q.len()
            &&& spec_ready(q[ready_min_index(q, now_ms)], now_ms)
            &&& forall|j: int|
                0 <= j < q.len() && spec_ready(#[trigger] q[j], now_ms) ==> !item_before(
                    q[j],
                    q[ready_min_index(q, now_ms)],
                )
            &&& forall|j: int|
                0 <= j < ready_min_index(q, now_ms) && spec_ready(#[trigger] q[j], now_ms)
                    ==> item_before(q[ready_min_index(q, now_ms)], q[j])
        },
        ready_min_index(q, now_ms) < 0 ==> forall|j: int|
            0 <= j < q.len() ==> !spec_ready(#[trigger] q[j], now_ms),
    decreases q.len(),
{
    if q.len() > 0 {
        lemma_ready_min_index_props(q.drop_first(), now_ms);
        assert(forall|j: int| 0 < j < q.len() ==> q[j] == q.drop_first()[j - 1]);
    }
}

/// Send ordering: a ready item that is due earlier, or admitted earlier at
/// the same deadline, is never passed over in favour of a later one. With
/// admissions stamped at their arrival times, the worker therefore begins an
/// earlier admission before a later one whenever both are ready.
pub proof fn lemma_send_ordering(q: Seq<QueueItem>, now_ms: u64, a: int, b: int)
    requires
        0 <= a < q.len(),
        0 <= b < q.len(),
        spec_ready(q[a], now_ms),
        spec_ready(q[b], now_ms),
        item_before(q[a], q[b]),
    ensures
        ready_min_index(q, now_ms) >= 0,
        ready_min_index(q, now_ms) != b,
{
    lemma_ready_min_index_props(q, now_ms);
    let r = ready_min_index(q, now_ms);
    if r < 0 {
        assert(!spec_ready(q[a], now_ms));
    } else if r == b {
        assert(!item_before(q[a], q[r]));
    }
}

/// A first ready minimum pins down `ready_min_index` exactly.
proof fn lemma_ready_min_of_first(q: Seq<QueueItem>, now_ms: u64, i: int)
    requires
        0 <= i < q.len(),
        spec_ready(q[i], now_ms),
        forall|j: int|
            0 <= j < q.len() && spec_ready(#[trigger] q[j], now_ms) ==> !item_before(q[j], q[i]),
        forall|j: int|
            0 <= j < i && spec_ready(#[trigger] q[j], now_ms) ==> item_before(q[i], q[j]),
    ensures
        ready_min_index(q, now_ms) == i,
{
    lemma_ready_min_index_props(q, now_ms);
    let r = ready_min_index(q, now_ms);
    if r < 0 {
        assert(!spec_ready(q[i], now_ms));
    } else if r < i {
        assert(!item_before(q[r], q[i]));
        assert(item_before(q[i], q[r]));
    } else if r > i {
        assert(!item_before(q[i], q[r]));
        assert(item_before(q[r], q[i]));
    }
}

/// The worker's state: the delay-ordered queue, the admission budget, and
/// the identifier and sequence counters.
#[derive(Debug)]
pub struct SendScheduler {
    pub config: SendPipelineConfig,
    pub queue: Vec<QueueItem>,
    pub next_sequence: u64,
    pub next_id: u64,
    pub permit_limit: usize,
    pub outstanding: usize,
}

impl SendScheduler {
    /// Admission permits cover every queued item, and the budget holds.
    pub open spec fn wf(&self) -> bool {
        &&& self.queue@.len() <= self.outstanding
        &&& self.outstanding <= self.permit_limit
        &&& forall|i: int|
            0 <= i < self.queue@.len() ==> (#[trigger] self.queue@[i]).sequence
                < self.next_sequence
        &&& forall|i: int, j: int|
            0 <= i < j < self.queue@.len() ==> (#[trigger] self.queue@[i]).sequence
                != (#[trigger] self.queue@[j]).sequence
    }

    /// A fresh scheduler; a queue limit of 0 is raised to 1, as one permit is
    /// the least the pipeline can run with.
    pub fn new(config: SendPipelineConfig) -> (r: Self)
        ensures
            r.wf(),
            r.queue@.len() == 0,
            r.outstanding == 0,
            r.permit_limit == if config.queue_limit == 0 {
                1usize
            } else {
                config.queue_limit
            },
            r.config == config,
            r.next_id == 1,
            r.next_sequence == 0,
    {
        let permit_limit = if config.queue_limit == 0 {
            1
        } else {
            config.queue_limit
        };
        SendScheduler {
            config,
            queue: Vec::new(),
            next_sequence: 0,
            next_id: 1,
            permit_limit,
            outstanding: 0,
        }
    }

    /// Admits one request, non-blocking: a ticket with its identifier and the
    /// initial status, or `QueueFull` when no permit is free.
    pub fn enqueue(&mut self, request: SendRequest, now_ms: u64) -> (r: Result<
        (SendId, SendStatus),
        SendEnqueueError,
    >)
        requires
            old(self).wf(),
            old(self).next_sequence < u64::MAX,
            old(self).next_id < u64::MAX,
        ensures
            final(self).wf(),
            final(self).config == old(self).config,
            final(self).permit_limit == old(self).permit_limit,
            old(self).outstanding >= old(self).permit_limit ==> r == Err::<
                (SendId, SendStatus),
                SendEnqueueError,
            >(SendEnqueueError::QueueFull) && *final(self) == *old(self),
            old(self).outstanding < old(self).permit_limit ==> {
                &&& r == Ok::<(SendId, SendStatus), SendEnqueueError>(
                    (
                        SendId(old(self).next_id),
                        SendStatus::Queued { attempt: 0, next_retry_in_ms: None },
                    ),
                )
                &&& final(self).queue@ == old(self).queue@.push(
                    QueueItem {
                        id: SendId(old(self).next_id),
                        request: request,
                        attempts: 0,
                        next_attempt_ms: now_ms,
                        sequence: old(self).next_sequence,
                    },
                )
                &&& final(self).outstanding == old(self).outstanding + 1
                &&& final(self).next_sequence == old(self).next_sequence + 1
                &&& final(self).next_id == old(self).next_id + 1
            },
    {
        if self.outstanding >= self.permit_limit {
            return Err(SendEnqueueError::QueueFull);
        }
        let id = SendId(self.next_id);
        self.next_id = self.next_id + 1;
        let item = QueueItem {
            id,
            request,
            attempts: 0,
            next_attempt_ms: now_ms,
            sequence: self.next_sequence,
        };
        self.next_sequence = self.next_sequence + 1;
        self.outstanding = self.outstanding + 1;
        self.queue.push(item);
        Ok((id, SendStatus::Queued { attempt: 0, next_retry_in_ms: None }))
    }

    /// The earliest queued deadline, if any: when the worker must wake up.
    pub fn next_deadline(&self) -> (r: Option<u64>)
        ensures
            r is Some <==> self.queue@.len() > 0,
            r matches Some(d) ==> forall|j: int|
                0 <= j < self.queue@.len() ==> d <= (#[trigger] self.queue@[j]).next_attempt_ms,
            r matches Some(d) ==> exists|j: int|
                0 <= j < self.queue@.len() && d == (#[trigger] self.queue@[j]).next_attempt_ms,
    {
        let n = self.queue.len();
        if n == 0 {
            return None;
        }
        let mut best = self.queue[0].next_attempt_ms;
        let mut i: usize = 1;
        while i < n
            invariant
                1 <= i <= n,
                n == self.queue@.len(),
                forall|j: int|
                    0 <= j < i ==> best <= (#[trigger] self.queue@[j]).next_attempt_ms,
                exists|j: int|
                    0 <= j < i && best == (#[trigger] self.queue@[j]).next_attempt_ms,
            decreases n - i,
        {
            if self.queue[i].next_attempt_ms < best {
                best = self.queue[i].next_attempt_ms;
            }
            i = i + 1;
        }
        Some(best)
    }

    /// Removes and returns the highest-priority item whose deadline has
    /// elapsed: earliest deadline first, ties by admission order.
    pub fn pop_ready(&mut self, now_ms: u64) -> (r: Option<QueueItem>)
        requires
            old(self).wf(),
        ensures
            final(self).wf(),
            final(self).config == old(self).config,
            final(self).permit_limit == old(self).permit_limit,
            final(self).outstanding == old(self).outstanding,
            final(self).next_sequence == old(self).next_sequence,
            final(self).next_id == old(self).next_id,
            r is None ==> *final(self) == *old(self) && ready_min_index(old(self).queue@, now_ms)
                < 0,
            r matches Some(it) ==> {
                let idx = ready_min_index(old(self).queue@, now_ms);
                &&& idx >= 0
                &&& it == old(self).queue@[idx]
                &&& final(self).queue@ == old(self).queue@.remove(idx)
                &&& spec_ready(it, now_ms)
            },
    {
        let n = self.queue.len();
        let mut found: bool = false;
        let mut best: usize = 0;
        let mut i: usize = 0;
        while i < n
            invariant
                i <= n,
                n == self.queue@.len(),
                found ==> best < i && spec_ready(self.queue@[best as int], now_ms),
                found ==> forall|j: int|
                    0 <= j < i && spec_ready(#[trigger] self.queue@[j], now_ms) ==> !item_before(
                        self.queue@[j],
                        self.queue@[best as int],
                    ),
                found ==> forall|j: int|
                    0 <= j < best && spec_ready(#[trigger] self.queue@[j], now_ms) ==> item_before(
                        self.queue@[best as int],
                        self.queue@[j],
                    ),
                !found ==> forall|j: int|
                    0 <= j < i ==> !spec_ready(#[trigger] self.queue@[j], now_ms),
            decreases n - i,
        {
            if self.queue[i].next_attempt_ms <= now_ms {
                if !found {
                    found = true;
                    best = i;
                } else {
                    let better = self.queue[i].next_attempt_ms < self.queue[best].next_attempt_ms
                        || (self.queue[i].next_attempt_ms == self.queue[best].next_attempt_ms
                        && self.queue[i].sequence < self.queue[best].sequence);
                    if better {
                        best = i;
                    }
                }
            }
            i = i + 1;
        }
        if !found {
            proof {
                lemma_ready_min_index_props(self.queue@, now_ms);
            }
            return None;
        }
        proof {
            lemma_ready_min_of_first(self.queue@, now_ms, best as int);
        }
        let item = self.queue.remove(best);
        Some(item)
    }

    /// Stamps the next attempt on an item about to be sent; the status to
    /// publish is `Sending` with the new attempt count.
    pub fn begin_attempt(&self, item: QueueItem) -> (r: (QueueItem, SendStatus))
        ensures
            r.0 == (QueueItem { attempts: item.attempts.saturating_add(1), ..item }),
            r.1 == (SendStatus::Sending { attempt: item.attempts.saturating_add(1) }),
    {
        let attempt = item.attempts.saturating_add(1);
        let updated = QueueItem {
            id: item.id,
            request: item.request,
            attempts: attempt,
            next_attempt_ms: item.next_attempt_ms,
            sequence: item.sequence,
        };
        (updated, SendStatus::Sending { attempt })
    }

    /// What settling one attempt publishes and whether the item stays alive.
    /// Mirrors the worker: success is terminal; a retry decision re-queues
    /// with a fresh sequence unless the retry budget is spent; failure is
    /// terminal and keeps its retryability.
    pub fn settle(&mut self, item: QueueItem, outcome: Result<SendResult, SendError>, now_ms: u64)
        -> (r: (SendStatus, bool))
        requires
            old(self).wf(),
            old(self).queue@.len() < old(self).outstanding,
            old(self).next_sequence < u64::MAX,
        ensures
            final(self).wf(),
            final(self).config == old(self).config,
            final(self).permit_limit == old(self).permit_limit,
            final(self).next_id == old(self).next_id,
            ({
                let requeued = r.1;
                match outcome {
                    Ok(result) => {
                        &&& r.0 == SendStatus::Sent(result)
                        &&& !requeued
                        &&& final(self).outstanding == old(self).outstanding - 1
                        &&& final(self).queue@ == old(self).queue@
                    },
                    Err(error) => {
                        let decision = spec_retry_decision(error, item.attempts as int, old(self).config);
                        match decision {
                            RetryDecision::RetryAfterMs(delay) => {
                                if match old(self).config.max_retry_attempts {
                                    Some(max) => item.attempts >= max,
                                    None => false,
                                } {
                                    &&& r.0 == SendStatus::Failed(
                                        SendFailure {
                                            error: r.0->Failed_0.error,
                                            attempts: item.attempts,
                                            retryable: true,
                                        },
                                    )
                                    &&& (r.0->Failed_0.error)@ == spec_send_error_text(error)
                                    &&& !requeued
                                    &&& final(self).outstanding == old(self).outstanding - 1
                                    &&& final(self).queue@ == old(self).queue@
                                } else {
                                    &&& r.0 == SendStatus::Queued {
                                        attempt: item.attempts,
                                        next_retry_in_ms: Some(delay),
                                    }
                                    &&& requeued
                                    &&& final(self).outstanding == old(self).outstanding
                                    &&& final(self).queue@ == old(self).queue@.push(
                                        QueueItem {
                                            next_attempt_ms: now_ms.saturating_add(delay),
                                            sequence: old(self).next_sequence,
                                            ..item
                                        },
                                    )
                                    &&& final(self).next_sequence == old(self).next_sequence + 1
                                }
                            },
                            RetryDecision::Fail { retryable } => {
                                &&& r.0 == SendStatus::Failed(
                                    SendFailure {
                                        error: r.0->Failed_0.error,
                                        attempts: item.attempts,
                                        retryable,
                                    },
                                )
                                &&& (r.0->Failed_0.error)@ == spec_send_error_text(error)
                                &&& !requeued
                                &&& final(self).outstanding == old(self).outstanding - 1
                                &&& final(self).queue@ == old(self).queue@
                            },
                        }
                    },
                }
            }),
    {
        match outcome {
            Ok(result) => {
                self.outstanding = self.outstanding - 1;
                (SendStatus::Sent(result), false)
            },
            Err(error) => {
                let decision = retry_decision(&error, item.attempts, &self.config);
                match decision {
                    RetryDecision::RetryAfterMs(delay) => {
                        if exceeded_max_attempts(item.attempts, self.config.max_retry_attempts) {
                            self.outstanding = self.outstanding - 1;
                            let status = SendStatus::Failed(
                                SendFailure {
                                    error: error.message(),
                                    attempts: item.attempts,
                                    retryable: true,
                                },
                            );
                            (status, false)
                        } else {
                            let status = SendStatus::Queued {
                                attempt: item.attempts,
                                next_retry_in_ms: Some(delay),
                            };
                            let requeue = QueueItem {
                                id: item.id,
                                request: item.request,
                                attempts: item.attempts,
                                next_attempt_ms: now_ms.saturating_add(delay),
                                sequence: self.next_sequence,
                            };
                            self.next_sequence = self.next_sequence + 1;
                            self.queue.push(requeue);
                            (status, true)
                        }
                    },
                    RetryDecision::Fail { retryable } => {
                        self.outstanding = self.outstanding - 1;
                        let status = SendStatus::Failed(
                            SendFailure {
                                error: error.message(),
                                attempts: item.attempts,
                                retryable,
                            },
                        );
                        (status, false)
                    },
                }
            },
        }
    }
}

} // verus!
