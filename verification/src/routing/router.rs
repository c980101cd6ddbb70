use vstd::prelude::*;
use std::sync::Arc;
use crate::base::error::{concat, OrchestratorError, Result};
use crate::base::types::{ModelWorkerInfo, ModelWorkerInfoView, RoutingDecision};
use crate::routing::complexity_scorer::{complexity_of, tier_of, ComplexityScorer};
use crate::routing::service_registry::{
    ids_where, is_healthy_view, lemma_listed_count, serves_task, views_of,
    ServiceRegistry,
};
use crate::text::{decimal, decimal_string};

verus! {

/// The score from which a prompt is answered by several models.
pub const CONSENSUS_SCORE: u8 = 7;

/// Why a prompt went to a model that serves its task.
pub open spec fn route_reason(task: Seq<char>, score: u8) -> Seq<char> {
    "Task: "@ + task + ", Complexity: "@ + decimal(score as nat) + ", Tier: "@ + tier_of(score)
}

/// Why a prompt went to the least loaded model.
pub open spec fn fallback_reason(model: Seq<char>) -> Seq<char> {
    "Fallback to least loaded model: "@ + model
}

/// Whether some worker of `m` satisfies `pred`.
pub open spec fn any_worker(
    m: Map<Seq<char>, ModelWorkerInfoView>,
    pred: spec_fn(ModelWorkerInfoView) -> bool,
) -> bool {
    exists|k: Seq<char>| #[trigger] m.contains_key(k) && pred(m[k])
}

/// `id` names a worker of `m` that satisfies `pred` and is loaded no more than any other
/// worker that does.
pub open spec fn least_loaded_among(
    m: Map<Seq<char>, ModelWorkerInfoView>,
    id: Seq<char>,
    pred: spec_fn(ModelWorkerInfoView) -> bool,
) -> bool {
    &&& m.contains_key(id)
    &&& pred(m[id])
    &&& forall|k: Seq<char>|
        #[trigger] m.contains_key(k) && pred(m[k]) ==> m[id].current_load <= m[k].current_load
}

/// How a prompt of `bytes` bytes whose task is `task_type` is routed over the workers `m`:
/// to the least loaded healthy worker that serves the task, or, where none does, to the least
/// loaded healthy worker; an error where no worker is healthy.
pub open spec fn routed(
    m: Map<Seq<char>, ModelWorkerInfoView>,
    prompt: Seq<char>,
    bytes: nat,
    task_type: Seq<char>,
    r: Result<RoutingDecision>,
) -> bool {
    match r {
        Ok(d) => {
            let score = complexity_of(prompt, bytes);
            &&& d.complexity_score == score
            &&& d.use_consensus == (score >= CONSENSUS_SCORE)
            &&& if any_worker(m, |v: ModelWorkerInfoView| serves_task(v, task_type)) {
                &&& least_loaded_among(
                    m,
                    d.target_model@,
                    |v: ModelWorkerInfoView| serves_task(v, task_type),
                )
                &&& d.confidence == 950
                &&& d.reason@ == route_reason(task_type, score)
            } else {
                &&& least_loaded_among(
                    m,
                    d.target_model@,
                    |v: ModelWorkerInfoView| is_healthy_view(v),
                )
                &&& d.confidence == 500
                &&& d.reason@ == fallback_reason(d.target_model@)
            }
        },
        Err(e) => !any_worker(m, |v: ModelWorkerInfoView| is_healthy_view(v))
            && (e matches OrchestratorError::ModelNotFound(msg) && msg@
            == "No healthy models available"@),
    }
}

/// A routed prompt goes to a registered, healthy worker, one serving its task where any
/// does, with a score from 1 to 10.
pub proof fn law_route_targets_healthy_worker(
    m: Map<Seq<char>, ModelWorkerInfoView>,
    prompt: Seq<char>,
    bytes: nat,
    task_type: Seq<char>,
    d: RoutingDecision,
)
    requires
        routed(m, prompt, bytes, task_type, Ok(d)),
    ensures
        m.contains_key(d.target_model@),
        is_healthy_view(m[d.target_model@]),
        any_worker(m, |v: ModelWorkerInfoView| serves_task(v, task_type)) ==> serves_task(
            m[d.target_model@],
            task_type,
        ),
        1 <= d.complexity_score <= 10,
{
}

/// Routing fails only where no worker is healthy.
pub proof fn law_route_fails_only_without_healthy_workers(
    m: Map<Seq<char>, ModelWorkerInfoView>,
    prompt: Seq<char>,
    bytes: nat,
    task_type: Seq<char>,
    r: Result<RoutingDecision>,
)
    requires
        routed(m, prompt, bytes, task_type, r),
        any_worker(m, |v: ModelWorkerInfoView| is_healthy_view(v)),
    ensures
        r is Ok,
{
}

/// Decides which model worker answers a prompt. The consensus threshold is in thousandths.
pub struct Router {
    service_registry: Arc<ServiceRegistry>,
    consensus_threshold: u32,
}

impl Router {
    /// The workers the router chooses among.
    pub closed spec fn registry(&self) -> Map<Seq<char>, ModelWorkerInfoView> {
        (*self.service_registry)@
    }

    /// The consensus threshold, in thousandths.
    pub closed spec fn threshold(&self) -> u32 {
        self.consensus_threshold
    }

    /// Well-formed: the registry is.
    pub closed spec fn wf(&self) -> bool {
        self.service_registry.wf()
    }

    /// A router over a registry, with a consensus threshold of 850 thousandths.
    pub fn new(service_registry: Arc<ServiceRegistry>) -> (r: Self)
        requires
            service_registry.wf(),
        ensures
            r.wf(),
            r.registry() == (*service_registry)@,
            r.threshold() == 850,
    {
        Router { service_registry, consensus_threshold: 850 }
    }

    /// Routes a prompt whose task has been classified as `task_type`: to the least loaded
    /// healthy worker that serves the task, or, where none does, to the least loaded healthy
    /// worker; an error where no worker is healthy.
    pub fn route_for_task(&self, prompt: &str, task_type: &str) -> (r: Result<RoutingDecision>)
        requires
            self.wf(),
        ensures
            routed(self.registry(), prompt@, prompt.len() as nat, task_type@, r),
    {
        let complexity_score = ComplexityScorer::calculate_complexity(prompt);
        let available = self.service_registry.get_models_by_task(task_type);
        let ghost m = self.registry();
        let ghost av = views_of(available@);
        if available.len() == 0 {
            proof {
                if any_worker(m, |v: ModelWorkerInfoView| serves_task(v, task_type@)) {
                    let k = choose|k: Seq<char>| #[trigger] m.contains_key(k) && serves_task(m[k], task_type@);
                    assert((|v: ModelWorkerInfoView| serves_task(v, task_type@))(m[k]));
                }
            }
            let fallback = match self.service_registry.get_least_loaded_model() {
                Some(f) => f,
                None => {
                    proof {
                        if any_worker(m, |v: ModelWorkerInfoView| is_healthy_view(v)) {
                            let k = choose|k: Seq<char>| #[trigger] m.contains_key(k) && is_healthy_view(m[k]);
                            assert(!is_healthy_view(m[k]));
                        }
                    }
                    return Err(
                        OrchestratorError::ModelNotFound(
                            String::from_str("No healthy models available"),
                        ),
                    );
                },
            };
            let model_id = fallback.model_id.clone();
            let reason = concat("Fallback to least loaded model: ", model_id.as_str());
            return Ok(
                RoutingDecision {
                    target_model: model_id,
                    complexity_score,
                    confidence: 500,
                    reason,
                    use_consensus: ComplexityScorer::requires_consensus(
                        complexity_score,
                        CONSENSUS_SCORE,
                    ),
                },
            );
        }
        let target_model = self.select_best_model(&available, complexity_score)?;
        proof {
            let i = choose|i: int| 0 <= i < available@.len() && target_model@ == available@[i]@ && (
            forall|j: int| 0 <= j < available@.len() ==> available@[i].current_load <= #[trigger] available@[j].current_load);
            assert(av[i] == available@[i]@);
            assert(m.contains_key(av[i].model_id));
            assert((|v: ModelWorkerInfoView| serves_task(v, task_type@))(av[i]));
            assert forall|k: Seq<char>| #[trigger] m.contains_key(k) && serves_task(m[k], task_type@) implies
                m[target_model.model_id@].current_load <= m[k].current_load by {
                assert((|v: ModelWorkerInfoView| serves_task(v, task_type@))(m[k]));
                let j = choose|j: int| 0 <= j < av.len() && av[j].model_id == k;
                assert(av[j] == available@[j]@);
            }
            assert(m.contains_key(av[i].model_id));
        }
        let use_consensus = ComplexityScorer::requires_consensus(complexity_score, CONSENSUS_SCORE);
        let mut reason = String::from_str("Task: ");
        reason.append(task_type);
        reason.append(", Complexity: ");
        let score_text = decimal_string(complexity_score as u64);
        reason.append(score_text.as_str());
        reason.append(", Tier: ");
        reason.append(ComplexityScorer::get_tier(complexity_score));
        Ok(
            RoutingDecision {
                target_model: target_model.model_id,
                complexity_score,
                confidence: 950,
                reason,
                use_consensus,
            },
        )
    }

    /// The candidate to send a prompt of some complexity to: for the instant tier the first
    /// candidate of least load, otherwise the last; an error where there is no candidate.
    fn select_best_model(&self, models: &Vec<ModelWorkerInfo>, complexity: u8) -> (r: Result<
        ModelWorkerInfo,
    >)
        ensures
            match r {
                Ok(v) => exists|i: int|
                    0 <= i < models@.len() && v@ == models@[i]@ && forall|j: int|
                        0 <= j < models@.len() ==> models@[i].current_load
                            <= #[trigger] models@[j].current_load,
                Err(e) => models@.len() == 0 && (e matches OrchestratorError::ModelNotFound(m)
                    && m@ == "No models available"@),
            },
    {
        if models.len() == 0 {
            return Err(OrchestratorError::ModelNotFound(String::from_str("No models available")));
        }
        let tier = ComplexityScorer::get_tier(complexity);
        let prefer_first = complexity >= 1 && complexity <= 3;
        assert(prefer_first == (tier@ == "instant"@)) by {
            reveal_strlit("instant");
            reveal_strlit("analytical");
            reveal_strlit("expert");
            reveal_strlit("unknown");
            assert("instant"@.len() == 7);
            assert("analytical"@.len() == 10);
            assert("expert"@.len() == 6);
            assert("unknown"@.len() == 7);
            assert("unknown"@[0] != "instant"@[0]);
        }
        let mut best: usize = 0;
        for i in 1..models.len()
            invariant
                0 <= best < models@.len(),
                best < i,
                forall|j: int| 0 <= j < i ==> models@[best as int].current_load <= #[trigger] models@[j].current_load,
        {
            if models[i].current_load < models[best].current_load || (!prefer_first
                && models[i].current_load == models[best].current_load) {
                best = i;
            }
        }
        Ok(models[best].copied())
    }

    /// Routes a prompt to two healthy workers at once; an error where fewer than two are
    /// healthy. Which two is not fixed.
    pub fn route_consensus(&self, prompt: &str) -> (r: Result<Vec<RoutingDecision>>)
        requires
            self.wf(),
        ensures
            match r {
                Ok(ds) => {
                    &&& ds@.len() == 2
                    &&& ds@[0].target_model@ != ds@[1].target_model@
                    &&& forall|i: int|
                        0 <= i < 2 ==> {
                            &&& self.registry().contains_key(#[trigger] ds@[i].target_model@)
                            &&& is_healthy_view(self.registry()[ds@[i].target_model@])
                            &&& ds@[i].complexity_score == complexity_of(prompt@, prompt.len() as nat)
                            &&& ds@[i].confidence == 900
                            &&& ds@[i].reason@ == "Consensus mode for prompt"@
                            &&& !ds@[i].use_consensus
                        }
                },
                Err(e) => ids_where(self.registry(), |v: ModelWorkerInfoView| is_healthy_view(v)).len()
                    < 2 && (e matches OrchestratorError::ModelNotFound(m) && m@
                    == "Not enough healthy models for consensus"@),
            },
    {
        let healthy_models = self.service_registry.get_healthy_models();
        proof {
            lemma_listed_count(
                views_of(healthy_models@),
                self.registry(),
                |v: ModelWorkerInfoView| is_healthy_view(v),
            );
        }
        if healthy_models.len() < 2 {
            return Err(
                OrchestratorError::ModelNotFound(
                    String::from_str("Not enough healthy models for consensus"),
                ),
            );
        }
        let complexity_score = ComplexityScorer::calculate_complexity(prompt);
        let mut decisions: Vec<RoutingDecision> = Vec::new();
        decisions.push(
            RoutingDecision {
                target_model: healthy_models[0].model_id.clone(),
                complexity_score,
                confidence: 900,
                reason: String::from_str("Consensus mode for prompt"),
                use_consensus: false,
            },
        );
        decisions.push(
            RoutingDecision {
                target_model: healthy_models[1].model_id.clone(),
                complexity_score,
                confidence: 900,
                reason: String::from_str("Consensus mode for prompt"),
                use_consensus: false,
            },
        );
        proof {
            let hv = views_of(healthy_models@);
            assert(hv[0] == healthy_models@[0]@);
            assert(hv[1] == healthy_models@[1]@);
            assert((|v: ModelWorkerInfoView| is_healthy_view(v))(hv[0]));
            assert((|v: ModelWorkerInfoView| is_healthy_view(v))(hv[1]));
            assert(decisions@[0].target_model@ == hv[0].model_id);
            assert(decisions@[1].target_model@ == hv[1].model_id);
        }
        Ok(decisions)
    }

    /// Sets the consensus threshold, in thousandths, clamped to at most 1000.
    pub fn set_consensus_threshold(&mut self, threshold: u32)
        ensures
            final(self).threshold() == if threshold > 1000 {
                1000
            } else {
                threshold
            },
            final(self).registry() == old(self).registry(),
            final(self).wf() == old(self).wf(),
    {
        self.consensus_threshold = if threshold > 1000 {
            1000
        } else {
            threshold
        };
    }
}

} // verus!
