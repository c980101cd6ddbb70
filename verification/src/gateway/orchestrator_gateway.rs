use vstd::prelude::*;
use std::sync::Arc;
use crate::base::config::{Config, ModelConfig};
use crate::base::error::{OrchestratorError, Result};
use crate::base::clock::now_millis;
use crate::base::metrics::{bump, no_requests, MetricsCollector};
use crate::base::types::{
    copy_strings, string_views, ModelWorkerInfo, ModelWorkerInfoView, RequestMetrics,
    RequestMetricsView, RoutingDecision, WorkerStatus,
};
use crate::gateway::handlers::{QueryFailure, QueryProgress, QueryResponse, QueryTarget};
use crate::memory::memory_manager::MemoryManager;
use crate::memory::warm_swap::{load_effect, LruEntry, SwapEventView};
use crate::memory::semantic_cache::no_chains;
use crate::routing::router::{routed, Router};
use crate::routing::service_registry::{model_id_text, ServiceRegistry};

verus! {

/// The worker a configured model is registered as: on this machine, healthy, idle.
pub open spec fn worker_of(c: ModelConfig) -> ModelWorkerInfoView {
    ModelWorkerInfoView {
        model_id: c.id@,
        address: "127.0.0.1"@,
        port: c.port,
        status: WorkerStatus::Healthy,
        supported_tasks: string_views(c.supported_tasks@),
        vram_usage_mb: c.vram_required_mb,
        current_load: 0,
    }
}

/// No two of the models share an id.
pub open spec fn ids_distinct(models: Seq<ModelConfig>) -> bool {
    forall|i: int, j: int| 0 <= i < j < models.len() ==> models[i].id@ != models[j].id@
}

/// `m` holds exactly the workers of the configured models, by id.
pub open spec fn registers_exactly(m: Map<Seq<char>, ModelWorkerInfoView>, models: Seq<ModelConfig>) -> bool {
    &&& forall|i: int|
        0 <= i < models.len() ==> m.contains_key(#[trigger] models[i].id@) && m[models[i].id@]
            == worker_of(models[i])
    &&& forall|k: Seq<char>| #[trigger] m.contains_key(k) ==> exists|i: int| 0 <= i < models.len() && models[i].id@ == k
}

/// The model at `j` is the first whose id repeats an earlier one.
pub open spec fn first_repeat(models: Seq<ModelConfig>, j: int) -> bool {
    &&& 0 <= j < models.len()
    &&& ids_distinct(models.take(j))
    &&& exists|i: int| 0 <= i < j && models[i].id@ == models[j].id@
}

/// What readying a query did, given how the prompt was routed: no worker could take it, the
/// chosen worker's model could not be made resident, or the query goes to that worker.
pub open spec fn prepared(
    before: OrchestratorGateway,
    after: OrchestratorGateway,
    d: Result<RoutingDecision>,
    r: core::result::Result<QueryTarget, QueryFailure>,
) -> bool {
    match d {
        Err(_) => r == Err::<QueryTarget, QueryFailure>(QueryFailure::InternalServerError)
            && after.memory() == before.memory(),
        Ok(dec) => {
            let w = before.workers()[dec.target_model@];
            &&& before.workers().contains_key(dec.target_model@)
            &&& exists|lr: Result<bool>|
                #[trigger] load_effect(
                    before.memory().swap(),
                    after.memory().swap(),
                    dec.target_model@,
                    w.vram_usage_mb,
                    lr,
                ) && (lr is Ok <==> r is Ok)
            &&& match r {
                Ok(t) => t.decision == dec && t.port == w.port,
                Err(f) => f == QueryFailure::ServiceUnavailable,
            }
        },
    }
}

/// A query is never answered as not found: the worker a prompt is routed to is registered.
pub proof fn law_query_never_not_found(
    before: OrchestratorGateway,
    after: OrchestratorGateway,
    d: Result<RoutingDecision>,
    r: core::result::Result<QueryTarget, QueryFailure>,
)
    requires
        prepared(before, after, d, r),
    ensures
        r != Err::<QueryTarget, QueryFailure>(QueryFailure::NotFound),
{
}

/// The orchestrator: its settings, the registry of workers, the router over it, memory and
/// metrics.
pub struct OrchestratorGateway {
    config: Config,
    router: Router,
    service_registry: Arc<ServiceRegistry>,
    memory_manager: MemoryManager,
    metrics_collector: MetricsCollector,
}

impl OrchestratorGateway {
    /// The settings.
    pub closed spec fn settings(&self) -> Config {
        self.config
    }

    /// The router.
    pub closed spec fn routing(&self) -> Router {
        self.router
    }

    /// The registered workers.
    pub closed spec fn workers(&self) -> Map<Seq<char>, ModelWorkerInfoView> {
        (*self.service_registry)@
    }

    /// Memory.
    pub closed spec fn memory(&self) -> MemoryManager {
        self.memory_manager
    }

    /// Metrics.
    pub closed spec fn metrics(&self) -> MetricsCollector {
        self.metrics_collector
    }

    /// Well-formed: the router routes over the registered workers, and every part is
    /// well-formed.
    pub closed spec fn wf(&self) -> bool {
        &&& self.service_registry.wf()
        &&& self.router.wf()
        &&& self.router.registry() == (*self.service_registry)@
        &&& self.memory_manager.wf()
        &&& self.metrics_collector.wf()
    }

    /// Sets up the orchestrator: each configured model is registered as a healthy, idle
    /// worker on this machine; memory follows the memory settings and the cache similarity
    /// threshold. A model id given twice is refused with the registry's error.
    pub fn new(config: Config) -> (r: Result<Self>)
        ensures
            ids_distinct(config.models@) <==> r is Ok,
            r matches Ok(g) ==> {
                &&& g.wf()
                &&& g.settings() == config
                &&& registers_exactly(g.workers(), config.models@)
                &&& g.routing().threshold() == 850
                &&& g.memory().max_vram() == config.memory.max_vram_mb
                &&& g.memory().swap().total() == config.memory.max_vram_mb
                &&& g.memory().swap().usage() == 0
                &&& g.memory().swap().entries() == Seq::<LruEntry>::empty()
                &&& g.memory().swap().history() == Seq::<SwapEventView>::empty()
                &&& g.memory().swap().capacity() == (if config.memory.model_cache_size == 0 {
                    3
                } else {
                    config.memory.model_cache_size
                })
                &&& g.memory().cache()@ == no_chains()
                &&& g.memory().cache().threshold() == config.router.cache_similarity_threshold
                &&& g.metrics().requests() == 0
                &&& g.metrics().latency() == 0
                &&& g.metrics().history() == no_requests()
            },
            r matches Err(e) ==> exists|j: int|
                first_repeat(config.models@, j) && (e matches OrchestratorError::InternalError(m)
                    && m@ == model_id_text(#[trigger] config.models@[j].id@, " already registered"@)),
    {
        let mut registry = ServiceRegistry::new();
        let n = config.models.len();
        for k in 0..n
            invariant
                n == config.models@.len(),
                registry.wf(),
                ids_distinct(config.models@.take(k as int)),
                registers_exactly(registry@, config.models@.take(k as int)),
        {
            let c = &config.models[k];
            let info = ModelWorkerInfo {
                model_id: c.id.clone(),
                address: String::from_str("127.0.0.1"),
                port: c.port,
                status: WorkerStatus::Healthy,
                supported_tasks: copy_strings(&c.supported_tasks),
                vram_usage_mb: c.vram_required_mb,
                current_load: 0,
            };
            let ghost before = registry@;
            let ghost prefix = config.models@.take(k as int);
            let ghost next = config.models@.take(k + 1);
            assert(info@ == worker_of(config.models@[k as int]));
            match registry.register(info) {
                Ok(()) => {
                    proof {
                        assert forall|i: int, j: int| 0 <= i < j < next.len() implies next[i].id@ != next[j].id@ by {
                            if j == k {
                                assert(prefix[i] == next[i]);
                                assert(before.contains_key(prefix[i].id@));
                            } else {
                                assert(prefix[i] == next[i] && prefix[j] == next[j]);
                            }
                        }
                        assert forall|i: int| 0 <= i < next.len() implies registry@.contains_key(#[trigger] next[i].id@)
                            && registry@[next[i].id@] == worker_of(next[i]) by {
                            if i < k {
                                assert(prefix[i] == next[i]);
                                assert(next[i].id@ != next[k as int].id@);
                            }
                        }
                        assert forall|key: Seq<char>| #[trigger] registry@.contains_key(key) implies exists|i: int|
                            0 <= i < next.len() && next[i].id@ == key by {
                            if key == next[k as int].id@ {
                                assert(0 <= k < next.len());
                            } else {
                                assert(before.contains_key(key));
                                let i = choose|i: int| 0 <= i < prefix.len() && prefix[i].id@ == key;
                                assert(prefix[i] == next[i]);
                            }
                        }
                    }
                },
                Err(e) => {
                    proof {
                        let id = config.models@[k as int].id@;
                        let i = choose|i: int| 0 <= i < prefix.len() && prefix[i].id@ == id;
                        assert(prefix[i] == config.models@[i]);
                        assert(first_repeat(config.models@, k as int));
                        assert(!ids_distinct(config.models@)) by {
                            assert(config.models@[i].id@ == config.models@[k as int].id@);
                        }
                    }
                    return Err(e);
                },
            }
        }
        proof {
            assert(config.models@.take(n as int) =~= config.models@);
        }
        let service_registry = Arc::new(registry);
        let router = Router::new(Arc::clone(&service_registry));
        let memory_manager = match MemoryManager::new(
            config.memory.max_vram_mb,
            config.memory.model_cache_size,
            config.router.cache_similarity_threshold,
        ) {
            Ok(m) => m,
            Err(e) => return Err(e),
        };
        let metrics_collector = MetricsCollector::new();
        Ok(OrchestratorGateway { config, router, service_registry, memory_manager, metrics_collector })
    }

    /// Readies a query: routes the prompt, whose task has been classified as `task_type`,
    /// and makes the chosen worker's model resident. A prompt no worker can take fails with
    /// an internal error, a model that cannot be made resident with unavailability; the
    /// chosen worker is always registered, so a query never fails as not found.
    pub fn prepare_query(&mut self, prompt: &str, task_type: &str) -> (r: core::result::Result<
        QueryTarget,
        QueryFailure,
    >)
        requires
            old(self).wf(),
        ensures
            final(self).wf(),
            final(self).settings() == old(self).settings(),
            final(self).routing() == old(self).routing(),
            final(self).workers() == old(self).workers(),
            final(self).metrics() == old(self).metrics(),
            final(self).memory().cache() == old(self).memory().cache(),
            final(self).memory().max_vram() == old(self).memory().max_vram(),
            exists|d: Result<RoutingDecision>|
                #[trigger] routed(old(self).workers(), prompt@, prompt.len() as nat, task_type@, d)
                    && prepared(*old(self), *final(self), d, r),
    {
        let decision = match self.router.route_for_task(prompt, task_type) {
            Ok(d) => d,
            Err(e) => {
                proof {
                    let d = Err::<RoutingDecision, OrchestratorError>(e);
                    assert(routed(old(self).workers(), prompt@, prompt.len() as nat, task_type@, d));
                    assert(prepared(*old(self), *self, d, Err(QueryFailure::InternalServerError)));
                }
                return Err(QueryFailure::InternalServerError);
            },
        };
        let ghost d = Ok::<RoutingDecision, OrchestratorError>(decision);
        let model = match self.service_registry.get_model(decision.target_model.as_str()) {
            Some(m) => m,
            None => {
                proof {
                    assert(self.workers().contains_key(decision.target_model@));
                }
                return Err(QueryFailure::NotFound);
            },
        };
        let ghost mem0 = self.memory_manager.swap();
        assert(model.model_id@ == decision.target_model@);
        assert(model.vram_usage_mb == old(self).workers()[decision.target_model@].vram_usage_mb);
        match self.memory_manager.ensure_model_available(model.model_id.as_str(), model.vram_usage_mb) {
            Ok(_) => {},
            Err(e) => {
                proof {
                    let lr = Err::<bool, OrchestratorError>(e);
                    let before = *old(self);
                    assert(before.memory().swap() == mem0);
                    assert(load_effect(before.memory().swap(), self.memory().swap(), decision.target_model@, before.workers()[decision.target_model@].vram_usage_mb, lr));
                    assert(prepared(*old(self), *self, d, Err(QueryFailure::ServiceUnavailable)));
                }
                return Err(QueryFailure::ServiceUnavailable);
            },
        }
        let port = model.port;
        let target = QueryTarget { decision, port };
        proof {
            let before = *old(self);
            let lr = Ok::<bool, OrchestratorError>(true);
            assert(before.memory().swap() == mem0);
            assert(load_effect(before.memory().swap(), self.memory().swap(), target.decision.target_model@, before.workers()[target.decision.target_model@].vram_usage_mb, lr));
            assert(prepared(*old(self), *self, d, Ok(target)));
        }
        Ok(target)
    }

    /// Completes an answered query: records what it cost under `metrics_id` and answers with
    /// the text gathered, under `response_id`.
    pub fn finish_query(
        &mut self,
        target: &QueryTarget,
        progress: &QueryProgress,
        latency_ms: u64,
        metrics_id: String,
        response_id: String,
    ) -> (r: QueryResponse)
        requires
            old(self).wf(),
            old(self).metrics().latency() + latency_ms <= u64::MAX,
        ensures
            final(self).wf(),
            final(self).settings() == old(self).settings(),
            final(self).routing() == old(self).routing(),
            final(self).workers() == old(self).workers(),
            final(self).memory() == old(self).memory(),
            final(self).metrics().requests() == bump(old(self).metrics().requests()),
            final(self).metrics().latency() == old(self).metrics().latency() + latency_ms,
            final(self).metrics().hits() == old(self).metrics().hits(),
            final(self).metrics().misses() == old(self).metrics().misses(),
            final(self).metrics().switches() == old(self).metrics().switches(),
            final(self).metrics().history() == old(self).metrics().history().insert(
                metrics_id@,
                RequestMetricsView {
                    request_id: metrics_id@,
                    timestamp: final(self).metrics().history()[metrics_id@].timestamp,
                    routed_model: target.decision.target_model@,
                    complexity_score: target.decision.complexity_score,
                    tokens_generated: progress.tokens_generated,
                    latency_ms,
                    confidence: target.decision.confidence,
                },
            ),
            r.request_id@ == response_id@,
            r.response@ == progress.response@,
            r.model_used@ == target.decision.target_model@,
            r.latency_ms == latency_ms,
            r.tokens_generated == progress.tokens_generated,
    {
        let metrics = RequestMetrics {
            request_id: metrics_id,
            timestamp: now_millis(),
            routed_model: target.decision.target_model.clone(),
            complexity_score: target.decision.complexity_score,
            tokens_generated: progress.tokens_generated,
            latency_ms,
            confidence: target.decision.confidence,
        };
        self.metrics_collector.record_request(metrics);
        QueryResponse {
            request_id: response_id,
            response: progress.response.clone(),
            model_used: target.decision.target_model.clone(),
            latency_ms,
            tokens_generated: progress.tokens_generated,
        }
    }

    /// The settings.
    pub fn get_config(&self) -> (r: &Config)
        ensures
            *r == self.settings(),
    {
        &self.config
    }

    /// The router.
    pub fn get_router(&self) -> (r: &Router)
        ensures
            *r == self.routing(),
    {
        &self.router
    }

    /// The registry, shared.
    pub fn get_registry(&self) -> (r: Arc<ServiceRegistry>)
        ensures
            (*r)@ == self.workers(),
            self.wf() ==> r.wf(),
    {
        Arc::clone(&self.service_registry)
    }

    /// Memory.
    pub fn get_memory_manager(&self) -> (r: &MemoryManager)
        ensures
            *r == self.memory(),
    {
        &self.memory_manager
    }

    /// Metrics.
    pub fn get_metrics(&self) -> (r: &MetricsCollector)
        ensures
            *r == self.metrics(),
    {
        &self.metrics_collector
    }
}

} // verus!
