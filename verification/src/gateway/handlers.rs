use vstd::prelude::*;
use crate::base::types::RoutingDecision;

verus! {

/// The answer to a query.
#[derive(Debug, Clone)]
pub struct QueryResponse {
    pub request_id: String,
    pub response: String,
    pub model_used: String,
    pub latency_ms: u64,
    pub tokens_generated: i32,
}

/// Why a query went unanswered, by the HTTP status it is answered with.
#[derive(Debug, Clone, Copy, PartialEq, Eq, Structural)]
pub enum QueryFailure {
    InternalServerError,
    NotFound,
    ServiceUnavailable,
}

impl QueryFailure {
    /// The HTTP status code.
    pub fn status_code(&self) -> (r: u16)
        ensures
            r == match *self {
                QueryFailure::InternalServerError => 500u16,
                QueryFailure::NotFound => 404u16,
                QueryFailure::ServiceUnavailable => 503u16,
            },
    {
        match self {
            QueryFailure::InternalServerError => 500,
            QueryFailure::NotFound => 404,
            QueryFailure::ServiceUnavailable => 503,
        }
    }
}

/// Where a query goes: the routing decision and the port of the chosen worker.
#[derive(Debug, Clone)]
pub struct QueryTarget {
    pub decision: RoutingDecision,
    pub port: u16,
}

/// What a worker is asked to generate for a query (its sampling temperature, request id and
/// time are set by the sender).
#[derive(Debug, Clone)]
pub struct WorkerRequest {
    pub prompt: String,
    pub max_tokens: i32,
    pub top_p: String,
}

/// The most tokens a worker is asked for where the query does not say.
pub const DEFAULT_MAX_TOKENS: i32 = 256;

/// The request for a query's worker: the query's prompt, its token limit or
/// `DEFAULT_MAX_TOKENS`, and a top-p of "0.95".
pub fn worker_request(prompt: &str, max_tokens: Option<i32>) -> (r: WorkerRequest)
    ensures
        r.prompt@ == prompt@,
        r.max_tokens == match max_tokens {
            Some(n) => n,
            None => DEFAULT_MAX_TOKENS,
        },
        r.top_p@ == "0.95"@,
{
    WorkerRequest {
        prompt: String::from_str(prompt),
        max_tokens: match max_tokens {
            Some(n) => n,
            None => DEFAULT_MAX_TOKENS,
        },
        top_p: String::from_str("0.95"),
    }
}

/// How many times a worker is asked before a query is given up.
pub const MAX_ATTEMPTS: u32 = 2;

/// What happened while asking a worker.
#[derive(Debug, Clone)]
pub enum QueryEvent {
    /// No connection to the worker; the error's text.
    ConnectFailed(String),
    /// The worker refused the generation; the error's text.
    CallFailed(String),
    /// A token arrived, with the count so far and whether it is the last.
    Token { token: String, token_count: i32, is_final: bool },
    /// The stream broke; the error's text.
    StreamFailed(String),
    /// The stream ended.
    StreamEnded,
}

/// What to do next with a query.
#[derive(Debug, Clone, Copy, PartialEq, Eq, Structural)]
pub enum QueryAction {
    /// Connect to the worker (again, after a pause, where an attempt failed).
    Connect,
    /// Read the next token.
    ReadNext,
    /// The answer is complete.
    Finish,
    /// Give up with this failure.
    Fail(QueryFailure),
}

/// A query being answered: attempts made, the last error, and the answer so far.
#[derive(Debug, Clone)]
pub struct QueryProgress {
    pub attempts: u32,
    pub last_error: String,
    pub response: String,
    pub tokens_generated: i32,
}

/// The effect of one event on a query: failures to connect or to call count as attempts,
/// retried until `MAX_ATTEMPTS` are made; tokens are appended until the final one or the end
/// of the stream; a broken stream fails the query at once.
pub open spec fn stepped(
    before: QueryProgress,
    event: QueryEvent,
    after: QueryProgress,
    action: QueryAction,
) -> bool {
    match event {
        QueryEvent::ConnectFailed(e) | QueryEvent::CallFailed(e) => {
            &&& after.attempts == before.attempts + 1
            &&& after.last_error@ == e@
            &&& after.response@ == before.response@
            &&& after.tokens_generated == before.tokens_generated
            &&& action == if after.attempts < MAX_ATTEMPTS {
                QueryAction::Connect
            } else {
                QueryAction::Fail(QueryFailure::ServiceUnavailable)
            }
        },
        QueryEvent::Token { token, token_count, is_final } => {
            &&& after.attempts == before.attempts
            &&& after.last_error@ == before.last_error@
            &&& after.response@ == before.response@ + token@
            &&& after.tokens_generated == token_count
            &&& action == if is_final {
                QueryAction::Finish
            } else {
                QueryAction::ReadNext
            }
        },
        QueryEvent::StreamFailed(_) => {
            &&& after.attempts == before.attempts
            &&& after.last_error@ == before.last_error@
            &&& after.response@ == before.response@
            &&& after.tokens_generated == before.tokens_generated
            &&& action == QueryAction::Fail(QueryFailure::InternalServerError)
        },
        QueryEvent::StreamEnded => {
            &&& after.attempts == before.attempts
            &&& after.last_error@ == before.last_error@
            &&& after.response@ == before.response@
            &&& after.tokens_generated == before.tokens_generated
            &&& action == QueryAction::Finish
        },
    }
}

/// Whether an event is a failed attempt to reach the worker.
pub open spec fn failed_attempt(e: QueryEvent) -> bool {
    e is ConnectFailed || e is CallFailed
}

/// A query whose worker cannot be reached is retried once and then given up as unavailable.
pub proof fn law_gives_up_after_two_failed_attempts(
    p0: QueryProgress,
    e1: QueryEvent,
    p1: QueryProgress,
    a1: QueryAction,
    e2: QueryEvent,
    p2: QueryProgress,
    a2: QueryAction,
)
    requires
        p0.attempts == 0,
        failed_attempt(e1),
        failed_attempt(e2),
        stepped(p0, e1, p1, a1),
        stepped(p1, e2, p2, a2),
    ensures
        a1 == QueryAction::Connect,
        a2 == QueryAction::Fail(QueryFailure::ServiceUnavailable),
        p2.attempts == MAX_ATTEMPTS,
{
}

/// Whenever a query goes on, another event can be taken: the attempts stay below the limit.
pub proof fn law_attempts_stay_below_limit(
    p0: QueryProgress,
    e: QueryEvent,
    p1: QueryProgress,
    a: QueryAction,
)
    requires
        p0.attempts < MAX_ATTEMPTS,
        stepped(p0, e, p1, a),
    ensures
        p1.attempts <= MAX_ATTEMPTS,
        a == QueryAction::Connect || a == QueryAction::ReadNext ==> p1.attempts < MAX_ATTEMPTS,
{
}

impl QueryProgress {
    /// No attempt made yet, nothing answered.
    pub fn new() -> (r: Self)
        ensures
            r.attempts == 0,
            r.last_error@ == "Unknown error"@,
            r.response@ == Seq::<char>::empty(),
            r.tokens_generated == 0,
    {
        QueryProgress {
            attempts: 0,
            last_error: String::from_str("Unknown error"),
            response: String::new(),
            tokens_generated: 0,
        }
    }

    /// Takes in what happened and says what to do next (see `stepped`).
    pub fn step(&mut self, event: QueryEvent) -> (action: QueryAction)
        requires
            old(self).attempts < MAX_ATTEMPTS,
        ensures
            stepped(*old(self), event, *final(self), action),
    {
        match event {
            QueryEvent::ConnectFailed(e) | QueryEvent::CallFailed(e) => {
                self.last_error = e;
                self.attempts = self.attempts + 1;
                if self.attempts < MAX_ATTEMPTS {
                    QueryAction::Connect
                } else {
                    QueryAction::Fail(QueryFailure::ServiceUnavailable)
                }
            },
            QueryEvent::Token { token, token_count, is_final } => {
                self.response.append(token.as_str());
                self.tokens_generated = token_count;
                if is_final {
                    QueryAction::Finish
                } else {
                    QueryAction::ReadNext
                }
            },
            QueryEvent::StreamFailed(_) => QueryAction::Fail(QueryFailure::InternalServerError),
            QueryEvent::StreamEnded => QueryAction::Finish,
        }
    }
}

} // verus!
