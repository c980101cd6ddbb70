use vstd::prelude::*;
use std::sync::Arc;
use crate::base::error::{error_text, Result, RpcCode, RpcStatus};
use crate::base::types::string_views;
use crate::inference::inference_engine::InferenceEngine;
use crate::gateway::handlers::{stepped, QueryAction, QueryEvent, QueryProgress};

verus! {

/// A model served on its own port.
pub struct ModelSidecar {
    pub model_id: String,
    pub engine: Arc<InferenceEngine>,
    pub port: u16,
}

impl ModelSidecar {
    /// A sidecar for `engine` on `port`.
    pub fn new(model_id: String, engine: Arc<InferenceEngine>, port: u16) -> (r: Self)
        ensures
            r.model_id == model_id,
            r.engine == engine,
            r.port == port,
    {
        ModelSidecar { model_id, engine, port }
    }
}

/// One token of a generation as it is streamed.
#[derive(Debug, Clone)]
pub struct TokenFrame {
    pub token: String,
    pub is_final: bool,
    pub request_id: String,
    pub token_count: i32,
}

/// The health a worker reports.
#[derive(Debug, Clone)]
pub struct HealthReport {
    pub healthy: bool,
    pub status: String,
}

/// What a worker tells of its model.
#[derive(Debug, Clone)]
pub struct ModelInfo {
    pub model_id: String,
    pub model_name: String,
    pub parameters: i32,
    pub architecture: String,
    pub vram_required: i32,
    pub supported_tasks: Vec<String>,
}

/// The worker answering generation, health and info requests for one model.
pub struct ModelWorkerService {
    pub engine: Arc<InferenceEngine>,
    pub model_id: String,
}

/// `item` is a frame of `token`, final or not, with that request id and count.
pub open spec fn is_frame(
    item: core::result::Result<TokenFrame, RpcStatus>,
    token: Seq<char>,
    is_final: bool,
    request_id: Seq<char>,
    count: int,
) -> bool {
    item matches Ok(f) && f.token@ == token && f.is_final == is_final && f.request_id@ == request_id
        && f.token_count == count
}

/// The stream of a generation: each token in order, its 1-based count, the last one final;
/// or a single internal error carrying the error's text.
pub open spec fn streamed(
    outcome: Result<Vec<String>>,
    request_id: Seq<char>,
    r: Seq<core::result::Result<TokenFrame, RpcStatus>>,
) -> bool {
    match outcome {
        Ok(tokens) => {
            &&& r.len() == tokens@.len()
            &&& forall|i: int|
                0 <= i < r.len() ==> is_frame(#[trigger] r[i], tokens@[i]@, i == tokens@.len() - 1, request_id, i + 1)
        },
        Err(e) => {
            &&& r.len() == 1
            &&& r[0] matches Err(s) && s.code == RpcCode::Internal && s.message@ == error_text(e)
        },
    }
}

/// The text of some tokens, one after the other.
pub open spec fn joined(ts: Seq<String>) -> Seq<char>
    decreases ts.len(),
{
    if ts.len() == 0 {
        Seq::empty()
    } else {
        joined(ts.drop_last()) + ts.last()@
    }
}

/// What the gateway makes of a streamed item: a token, or a broken stream.
pub open spec fn frame_event(item: core::result::Result<TokenFrame, RpcStatus>) -> QueryEvent {
    match item {
        Ok(f) => QueryEvent::Token { token: f.token, token_count: f.token_count, is_final: f.is_final },
        Err(s) => QueryEvent::StreamFailed(s.message),
    }
}

/// The stream of a generation carries the engine's tokens in their order, each in a frame
/// of its own numbered from 1, the last frame final.
pub proof fn law_stream_carries_tokens_in_order(
    tokens: Vec<String>,
    request_id: Seq<char>,
    r: Seq<core::result::Result<TokenFrame, RpcStatus>>,
)
    requires
        streamed(Ok(tokens), request_id, r),
    ensures
        r.len() == tokens@.len(),
        forall|i: int|
            0 <= i < r.len() ==> (#[trigger] r[i]) is Ok && r[i]->Ok_0.token@ == tokens@[i]@
                && r[i]->Ok_0.token_count == i + 1 && r[i]->Ok_0.is_final == (i == r.len() - 1),
{
    assert forall|i: int| 0 <= i < r.len() implies (#[trigger] r[i]) is Ok && r[i]->Ok_0.token@
        == tokens@[i]@ && r[i]->Ok_0.token_count == i + 1 && r[i]->Ok_0.is_final == (i == r.len()
        - 1) by {
        assert(is_frame(r[i], tokens@[i]@, i == tokens@.len() - 1, request_id, i + 1));
    }
}

proof fn lemma_reassembled_prefix(
    tokens: Vec<String>,
    request_id: Seq<char>,
    r: Seq<core::result::Result<TokenFrame, RpcStatus>>,
    ps: Seq<QueryProgress>,
    acts: Seq<QueryAction>,
    k: int,
)
    requires
        streamed(Ok(tokens), request_id, r),
        ps.len() == r.len() + 1,
        acts.len() == r.len(),
        ps[0].response@ == Seq::<char>::empty(),
        forall|i: int|
            0 <= i < r.len() ==> #[trigger] stepped(ps[i], frame_event(r[i]), ps[i + 1], acts[i]),
        0 <= k <= r.len(),
    ensures
        ps[k].response@ == joined(tokens@.take(k)),
        ps[k].attempts == ps[0].attempts,
        k > 0 ==> ps[k].tokens_generated == k,
        forall|i: int| 0 <= i < k ==> acts[i] == if i == r.len() - 1 {
            QueryAction::Finish
        } else {
            QueryAction::ReadNext
        },
    decreases k,
{
    if k > 0 {
        lemma_reassembled_prefix(tokens, request_id, r, ps, acts, k - 1);
        let i = k - 1;
        assert(stepped(ps[i], frame_event(r[i]), ps[i + 1], acts[i]));
        assert(is_frame(r[i], tokens@[i]@, i == tokens@.len() - 1, request_id, i + 1));
        assert(tokens@.take(k).drop_last() =~= tokens@.take(i));
        assert(tokens@.take(k).last() == tokens@[i]);
    } else {
        assert(tokens@.take(0) =~= Seq::<String>::empty());
    }
}

/// The gateway reassembles a streamed generation into the engine's text: fed the stream's
/// frames one by one, a query reads on until the final frame, then finishes with the
/// engine's tokens joined in order and their number as the count.
pub proof fn law_gateway_reassembles_the_stream(
    tokens: Vec<String>,
    request_id: Seq<char>,
    r: Seq<core::result::Result<TokenFrame, RpcStatus>>,
    ps: Seq<QueryProgress>,
    acts: Seq<QueryAction>,
)
    requires
        streamed(Ok(tokens), request_id, r),
        tokens@.len() > 0,
        ps.len() == r.len() + 1,
        acts.len() == r.len(),
        ps[0].response@ == Seq::<char>::empty(),
        forall|i: int|
            0 <= i < r.len() ==> #[trigger] stepped(ps[i], frame_event(r[i]), ps[i + 1], acts[i]),
    ensures
        ps.last().response@ == joined(tokens@),
        ps.last().tokens_generated == tokens@.len(),
        acts.last() == QueryAction::Finish,
        forall|i: int| 0 <= i < acts.len() - 1 ==> acts[i] == QueryAction::ReadNext,
{
    lemma_reassembled_prefix(tokens, request_id, r, ps, acts, r.len() as int);
    assert(tokens@.take(r.len() as int) =~= tokens@);
}

impl ModelWorkerService {
    /// The items of the stream answering a generation, from what the engine gave.
    pub fn response_stream(outcome: Result<Vec<String>>, request_id: &str) -> (r: Vec<
        core::result::Result<TokenFrame, RpcStatus>,
    >)
        requires
            outcome matches Ok(t) ==> t@.len() <= i32::MAX,
        ensures
            streamed(outcome, request_id@, r@),
    {
        let mut items: Vec<core::result::Result<TokenFrame, RpcStatus>> = Vec::new();
        match outcome {
            Ok(tokens) => {
                let n = tokens.len();
                for idx in 0..n
                    invariant
                        n == tokens@.len(),
                        n <= i32::MAX,
                        items@.len() == idx,
                        forall|i: int|
                            0 <= i < idx ==> is_frame(#[trigger] items@[i], tokens@[i]@, i == n - 1, request_id@, i + 1),
                {
                    let frame = TokenFrame {
                        token: tokens[idx].clone(),
                        is_final: idx == n - 1,
                        request_id: String::from_str(request_id),
                        token_count: idx as i32 + 1,
                    };
                    items.push(Ok(frame));
                }
            },
            Err(e) => {
                let status = RpcStatus { code: RpcCode::Internal, message: e.message() };
                items.push(Err(status));
            },
        }
        items
    }

    /// Healthy once the engine is ready; the status reads `healthy` or `initializing`.
    pub fn health_check(&self) -> (r: HealthReport)
        ensures
            r.healthy == self.engine.context is Some,
            r.status@ == (if self.engine.context is Some {
                "healthy"@
            } else {
                "initializing"@
            }),
    {
        let ready = self.engine.is_ready();
        HealthReport {
            healthy: ready,
            status: if ready {
                String::from_str("healthy")
            } else {
                String::from_str("initializing")
            },
        }
    }

    /// The model's id, name and size (cut to 32 bits as a cast does), a transformer needing
    /// 2048 MB, for chat, code and reasoning.
    pub fn get_model_info(&self) -> (r: ModelInfo)
        ensures
            r.model_id@ == self.model_id@,
            r.model_name@ == self.engine.model_name@,
            r.parameters == self.engine.parameters as i32,
            r.architecture@ == "transformer"@,
            r.vram_required == 2048,
            string_views(r.supported_tasks@) == seq!["chat"@, "code"@, "reasoning"@],
    {
        let metadata = self.engine.get_metadata();
        let mut supported_tasks: Vec<String> = Vec::new();
        supported_tasks.push(String::from_str("chat"));
        supported_tasks.push(String::from_str("code"));
        supported_tasks.push(String::from_str("reasoning"));
        assert(string_views(supported_tasks@) =~= seq!["chat"@, "code"@, "reasoning"@]);
        ModelInfo {
            model_id: self.model_id.clone(),
            model_name: metadata.model_name,
            parameters: metadata.parameters as i32,
            architecture: String::from_str("transformer"),
            vram_required: 2048,
            supported_tasks,
        }
    }
}

} // verus!
