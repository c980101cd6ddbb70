use sovereign_orchestrator::base::error::OrchestratorError;
use sovereign_orchestrator::base::types::{ModelWorkerInfo, TaskType, WorkerStatus};
use sovereign_orchestrator::routing::complexity_scorer::{ComplexityScorer, PromptFeatures};
use sovereign_orchestrator::routing::router::Router;
use sovereign_orchestrator::routing::service_registry::ServiceRegistry;
use std::sync::Arc;

fn worker(id: &str, port: u16, tasks: &[&str], load: u32, status: WorkerStatus) -> ModelWorkerInfo {
    ModelWorkerInfo {
        model_id: id.to_string(),
        address: "localhost".to_string(),
        port,
        status,
        supported_tasks: tasks.iter().map(|t| t.to_string()).collect(),
        vram_usage_mb: 1024,
        current_load: load,
    }
}

#[test]
fn test_complexity_scoring() {
    let simple = "Hello, how are you?";
    assert_eq!(ComplexityScorer::calculate_complexity(simple), 1);

    let code_prompt = "Write a Rust function that implements fn quicksort";
    let code_score = ComplexityScorer::calculate_complexity(code_prompt);
    assert!(code_score >= 4);

    let math_prompt = "Calculate the derivative of x^2 + 3x + 5";
    let math_score = ComplexityScorer::calculate_complexity(math_prompt);
    assert!(math_score >= 2);
}

#[test]
fn test_tier_classification() {
    assert_eq!(ComplexityScorer::get_tier(2), "instant");
    assert_eq!(ComplexityScorer::get_tier(5), "analytical");
    assert_eq!(ComplexityScorer::get_tier(9), "expert");
}

#[test]
fn tier_of_out_of_range_scores_is_unknown() {
    assert_eq!(ComplexityScorer::get_tier(0), "unknown");
    assert_eq!(ComplexityScorer::get_tier(11), "unknown");
    assert_eq!(ComplexityScorer::get_tier(3), "instant");
    assert_eq!(ComplexityScorer::get_tier(4), "analytical");
    assert_eq!(ComplexityScorer::get_tier(7), "analytical");
    assert_eq!(ComplexityScorer::get_tier(8), "expert");
    assert_eq!(ComplexityScorer::get_tier(10), "expert");
}

#[test]
fn code_prompt_scores_exactly() {
    // 1 + code (3) = 4; no other pattern, short prompt.
    assert_eq!(
        ComplexityScorer::calculate_complexity("Write a Rust function that implements fn quicksort"),
        4
    );
}

#[test]
fn long_multi_step_prompt_is_clamped_to_ten() {
    let mut prompt = String::new();
    for _ in 0..120 {
        prompt.push_str("analyze the data and then compute the integral of x; ");
    }
    let score = ComplexityScorer::calculate_complexity(&prompt);
    assert_eq!(score, 10);
}

#[test]
fn every_prompt_scores_between_one_and_ten() {
    for p in [
        "",
        "hi",
        "Write a poem about the beauty of mountains",
        "if condition then action else alternative reasoning inference deduction",
        "Analyze the following dataset and provide insights",
    ] {
        let s = ComplexityScorer::calculate_complexity(p);
        assert!((1..=10).contains(&s), "{} scored {}", p, s);
    }
}

#[test]
fn resource_budget_per_tier() {
    let b = ComplexityScorer::calculate_resource_budget(2);
    assert_eq!((b.max_vram_mb, b.max_latency_ms, b.preferred_model_size.as_str(), b.parallel_models), (512, 100, "1B", 1));
    let b = ComplexityScorer::calculate_resource_budget(5);
    assert_eq!((b.max_vram_mb, b.max_latency_ms, b.preferred_model_size.as_str(), b.parallel_models), (2048, 500, "3B", 2));
    let b = ComplexityScorer::calculate_resource_budget(9);
    assert_eq!((b.max_vram_mb, b.max_latency_ms, b.preferred_model_size.as_str(), b.parallel_models), (4096, 2000, "7B+", 3));
    let b = ComplexityScorer::calculate_resource_budget(0);
    assert_eq!((b.max_vram_mb, b.max_latency_ms, b.preferred_model_size.as_str(), b.parallel_models), (1024, 500, "1B", 1));
}

#[test]
fn budget_never_shrinks_as_score_grows() {
    for a in 1u8..=10 {
        for b in a..=10 {
            let ba = ComplexityScorer::calculate_resource_budget(a);
            let bb = ComplexityScorer::calculate_resource_budget(b);
            assert!(ba.max_vram_mb <= bb.max_vram_mb);
            assert!(ba.max_latency_ms <= bb.max_latency_ms);
            assert!(ba.parallel_models <= bb.parallel_models);
        }
    }
}

#[test]
fn consensus_from_threshold() {
    assert!(ComplexityScorer::requires_consensus(7, 7));
    assert!(ComplexityScorer::requires_consensus(9, 7));
    assert!(!ComplexityScorer::requires_consensus(6, 7));
}

#[test]
fn task_type_names() {
    assert_eq!(TaskType::Logic.to_string(), "Logic");
    assert_eq!(TaskType::CreativeWriting.to_string(), "CreativeWriting");
    assert_eq!(TaskType::Code.to_string(), "Code");
    assert_eq!(TaskType::DataExtraction.to_string(), "DataExtraction");
    assert_eq!(TaskType::Summarization.to_string(), "Summarization");
    assert_eq!(TaskType::GeneralChat.to_string(), "GeneralChat");
    assert_eq!(TaskType::Math.to_string(), "Math");
    assert_eq!(TaskType::Analysis.to_string(), "Analysis");
}

#[test]
fn test_model_registration() {
    let mut registry = ServiceRegistry::new();
    let model = ModelWorkerInfo {
        model_id: "test-model".to_string(),
        address: "localhost".to_string(),
        port: 50051,
        status: WorkerStatus::Healthy,
        supported_tasks: vec!["code".to_string()],
        vram_usage_mb: 2048,
        current_load: 500,
    };

    assert!(registry.register(model.clone()).is_ok());
    assert!(registry.get_model("test-model").is_some());
    assert_eq!(registry.model_count(), 1);
}

#[test]
fn test_get_least_loaded() {
    let mut registry = ServiceRegistry::new();

    let model1 = ModelWorkerInfo {
        model_id: "model1".to_string(),
        address: "localhost".to_string(),
        port: 50051,
        status: WorkerStatus::Healthy,
        supported_tasks: vec![],
        vram_usage_mb: 1024,
        current_load: 800,
    };

    let model2 = ModelWorkerInfo {
        model_id: "model2".to_string(),
        address: "localhost".to_string(),
        port: 50052,
        status: WorkerStatus::Healthy,
        supported_tasks: vec![],
        vram_usage_mb: 1024,
        current_load: 200,
    };

    registry.register(model1).unwrap();
    registry.register(model2).unwrap();

    let least_loaded = registry.get_least_loaded_model().unwrap();
    assert_eq!(least_loaded.model_id, "model2");
}

#[test]
fn duplicate_registration_is_refused_and_changes_nothing() {
    let mut registry = ServiceRegistry::new();
    registry.register(worker("m", 1, &["code"], 100, WorkerStatus::Healthy)).unwrap();
    let err = registry.register(worker("m", 2, &["chat"], 900, WorkerStatus::Offline)).unwrap_err();
    assert!(matches!(err, OrchestratorError::InternalError(ref m) if m == "Model m already registered"));
    let kept = registry.get_model("m").unwrap();
    assert_eq!(kept.port, 1);
    assert_eq!(registry.model_count(), 1);
}

#[test]
fn deregister_and_update_status() {
    let mut registry = ServiceRegistry::new();
    registry.register(worker("a", 1, &["code"], 100, WorkerStatus::Healthy)).unwrap();
    assert_eq!(registry.deregister("zzz"), Err("Model zzz not found".to_string()));
    assert_eq!(registry.update_status("zzz", WorkerStatus::Offline), Err("Model zzz not found".to_string()));
    assert!(registry.is_healthy("a"));
    assert_eq!(registry.update_status("a", WorkerStatus::Degraded), Ok(()));
    assert!(!registry.is_healthy("a"));
    assert_eq!(registry.get_model("a").unwrap().status, WorkerStatus::Degraded);
    assert_eq!(registry.healthy_model_count(), 0);
    assert_eq!(registry.deregister("a"), Ok(()));
    assert!(registry.get_model("a").is_none());
    assert_eq!(registry.model_count(), 0);
}

#[test]
fn healthy_and_task_queries() {
    let mut registry = ServiceRegistry::new();
    registry.register(worker("a", 1, &["code", "logic"], 300, WorkerStatus::Healthy)).unwrap();
    registry.register(worker("b", 2, &["code"], 100, WorkerStatus::Offline)).unwrap();
    registry.register(worker("c", 3, &["chat"], 50, WorkerStatus::Healthy)).unwrap();
    assert_eq!(registry.model_count(), 3);
    assert_eq!(registry.healthy_model_count(), 2);
    let mut healthy: Vec<String> = registry.get_healthy_models().into_iter().map(|m| m.model_id).collect();
    healthy.sort();
    assert_eq!(healthy, vec!["a".to_string(), "c".to_string()]);
    let code: Vec<String> = registry.get_models_by_task("code").into_iter().map(|m| m.model_id).collect();
    assert_eq!(code, vec!["a".to_string()]);
    assert_eq!(registry.list_all_models().len(), 3);
    assert_eq!(registry.get_least_loaded_model().unwrap().model_id, "c");
    registry.clear();
    assert_eq!(registry.model_count(), 0);
    assert!(registry.get_least_loaded_model().is_none());
}

#[test]
fn test_routing_decision() {
    let mut registry = ServiceRegistry::new();
    let model = ModelWorkerInfo {
        model_id: "test-model".to_string(),
        address: "localhost".to_string(),
        port: 50051,
        status: WorkerStatus::Healthy,
        supported_tasks: vec!["general".to_string()],
        vram_usage_mb: 1024,
        current_load: 500,
    };
    registry.register(model).unwrap();

    let router = Router::new(Arc::new(registry));
    let decision = router.route_for_task("Hello, how are you?", "general").unwrap();
    assert_eq!(decision.complexity_score, 1);
}

#[test]
fn route_prefers_workers_of_the_task() {
    let mut registry = ServiceRegistry::new();
    registry.register(worker("coder", 1, &["code"], 700, WorkerStatus::Healthy)).unwrap();
    registry.register(worker("coder2", 2, &["code"], 300, WorkerStatus::Healthy)).unwrap();
    registry.register(worker("idle", 3, &["chat"], 0, WorkerStatus::Healthy)).unwrap();
    let router = Router::new(Arc::new(registry));
    let d = router.route_for_task("Write a Rust function that implements fn quicksort", "code").unwrap();
    assert_eq!(d.target_model, "coder2");
    assert_eq!(d.confidence, 950);
    assert_eq!(d.complexity_score, 4);
    assert_eq!(d.reason, "Task: code, Complexity: 4, Tier: analytical");
    assert!(!d.use_consensus);
}

#[test]
fn route_falls_back_to_least_loaded_healthy_worker() {
    let mut registry = ServiceRegistry::new();
    registry.register(worker("busy", 1, &["chat"], 900, WorkerStatus::Healthy)).unwrap();
    registry.register(worker("calm", 2, &["chat"], 100, WorkerStatus::Healthy)).unwrap();
    registry.register(worker("down", 3, &["math"], 0, WorkerStatus::Offline)).unwrap();
    let router = Router::new(Arc::new(registry));
    let d = router.route_for_task("Hello, how are you?", "math").unwrap();
    assert_eq!(d.target_model, "calm");
    assert_eq!(d.confidence, 500);
    assert_eq!(d.reason, "Fallback to least loaded model: calm");
}

#[test]
fn route_without_healthy_workers_fails() {
    let mut registry = ServiceRegistry::new();
    registry.register(worker("down", 1, &["chat"], 0, WorkerStatus::Offline)).unwrap();
    let router = Router::new(Arc::new(registry));
    let err = router.route_for_task("Hello", "chat").unwrap_err();
    assert!(matches!(err, OrchestratorError::ModelNotFound(ref m) if m == "No healthy models available"));
}

#[test]
fn consensus_needs_two_healthy_workers() {
    let mut registry = ServiceRegistry::new();
    registry.register(worker("a", 1, &["chat"], 0, WorkerStatus::Healthy)).unwrap();
    let router = Router::new(Arc::new(registry));
    let err = router.route_consensus("Hello").unwrap_err();
    assert!(matches!(err, OrchestratorError::ModelNotFound(ref m) if m == "Not enough healthy models for consensus"));

    let mut registry = ServiceRegistry::new();
    registry.register(worker("a", 1, &["chat"], 0, WorkerStatus::Healthy)).unwrap();
    registry.register(worker("b", 2, &["chat"], 0, WorkerStatus::Healthy)).unwrap();
    registry.register(worker("c", 3, &["chat"], 0, WorkerStatus::Healthy)).unwrap();
    let router = Router::new(Arc::new(registry));
    let ds = router.route_consensus("Hello, how are you?").unwrap();
    assert_eq!(ds.len(), 2);
    assert_ne!(ds[0].target_model, ds[1].target_model);
    for d in &ds {
        assert_eq!(d.confidence, 900);
        assert_eq!(d.complexity_score, 1);
        assert_eq!(d.reason, "Consensus mode for prompt");
        assert!(!d.use_consensus);
    }
}

#[test]
fn high_scores_ask_for_consensus() {
    let mut registry = ServiceRegistry::new();
    registry.register(worker("a", 1, &["analysis"], 0, WorkerStatus::Healthy)).unwrap();
    let router = Router::new(Arc::new(registry));
    let mut prompt = String::new();
    for _ in 0..120 {
        prompt.push_str("analyze the data and then compute the integral of x; ");
    }
    let d = router.route_for_task(&prompt, "analysis").unwrap();
    assert_eq!(d.complexity_score, 10);
    assert!(d.use_consensus);
}

fn features() -> PromptFeatures {
    PromptFeatures {
        bytes: 10,
        words: 2,
        has_code: false,
        math_matches: 0,
        has_math: false,
        has_logic: false,
        has_creative: false,
        has_data: false,
        and_then_count: 0,
        semicolons: 0,
    }
}

#[test]
fn score_of_features_adds_points() {
    assert_eq!(ComplexityScorer::score_features(&features()), 1);
    assert_eq!(ComplexityScorer::score_features(&PromptFeatures { bytes: 201, ..features() }), 2);
    assert_eq!(ComplexityScorer::score_features(&PromptFeatures { bytes: 501, ..features() }), 3);
    assert_eq!(ComplexityScorer::score_features(&PromptFeatures { bytes: 1001, ..features() }), 4);
    assert_eq!(ComplexityScorer::score_features(&PromptFeatures { words: 101, ..features() }), 2);
    assert_eq!(ComplexityScorer::score_features(&PromptFeatures { words: 201, ..features() }), 3);
    assert_eq!(ComplexityScorer::score_features(&PromptFeatures { has_code: true, ..features() }), 4);
    assert_eq!(ComplexityScorer::score_features(&PromptFeatures { math_matches: 1, has_math: true, ..features() }), 2);
    assert_eq!(ComplexityScorer::score_features(&PromptFeatures { math_matches: 6, has_math: true, ..features() }), 4);
    assert_eq!(ComplexityScorer::score_features(&PromptFeatures { has_logic: true, ..features() }), 3);
    assert_eq!(ComplexityScorer::score_features(&PromptFeatures { has_data: true, ..features() }), 3);
    assert_eq!(ComplexityScorer::score_features(&PromptFeatures { and_then_count: 2, ..features() }), 3);
    assert_eq!(ComplexityScorer::score_features(&PromptFeatures { semicolons: 3, ..features() }), 3);
    assert_eq!(ComplexityScorer::score_features(&PromptFeatures { semicolons: 2, ..features() }), 1);
}

#[test]
fn creative_writing_alone_loses_a_point_but_never_below_one() {
    assert_eq!(ComplexityScorer::score_features(&PromptFeatures { has_creative: true, ..features() }), 1);
    assert_eq!(
        ComplexityScorer::score_features(&PromptFeatures { has_creative: true, has_logic: true, ..features() }),
        2
    );
    assert_eq!(
        ComplexityScorer::score_features(&PromptFeatures { has_creative: true, has_code: true, ..features() }),
        4
    );
}

#[test]
fn score_of_features_is_clamped_to_ten() {
    let all = PromptFeatures {
        bytes: 2000,
        words: 300,
        has_code: true,
        math_matches: 9,
        has_math: true,
        has_logic: true,
        has_creative: false,
        has_data: true,
        and_then_count: 3,
        semicolons: 5,
    };
    assert_eq!(ComplexityScorer::score_features(&all), 10);
}

#[test]
fn prompt_patterns_score_as_their_features() {
    // Logic connectives: 1 + 2.
    assert_eq!(ComplexityScorer::calculate_complexity("if it rains then we stay"), 3);
    // Data vocabulary: 1 + 2.
    assert_eq!(ComplexityScorer::calculate_complexity("extract the table"), 3);
    // Creative writing alone: 1 - 1, clamped to 1.
    assert_eq!(ComplexityScorer::calculate_complexity("a poem about rain"), 1);
    // Math, once: 1 + 1.
    assert_eq!(ComplexityScorer::calculate_complexity("2 + 2"), 2);
}
