use sovereign_orchestrator::base::config::{Config, ModelConfig, ModelType};
use sovereign_orchestrator::base::error::OrchestratorError;
use sovereign_orchestrator::gateway::handlers::{
    worker_request, QueryAction, QueryEvent, QueryFailure, QueryProgress, MAX_ATTEMPTS,
};
use sovereign_orchestrator::gateway::orchestrator_gateway::OrchestratorGateway;

fn model(id: &str, port: u16, vram: usize, tasks: &[&str]) -> ModelConfig {
    ModelConfig {
        id: id.to_string(),
        name: id.to_string(),
        model_path: format!("/models/{}.gguf", id),
        model_type: ModelType::General,
        parameters: 1_000_000_000,
        vram_required_mb: vram,
        port,
        supported_tasks: tasks.iter().map(|t| t.to_string()).collect(),
        quantization: None,
    }
}

#[test]
fn test_gateway_creation() {
    let config = Config::default();
    let gateway = OrchestratorGateway::new(config);
    assert!(gateway.is_ok());
}

#[test]
fn configured_models_are_registered_as_healthy_local_workers() {
    let mut config = Config::default();
    config.models.push(model("tiny", 50051, 512, &["chat"]));
    config.models.push(model("coder", 50052, 1024, &["code"]));
    let gateway = OrchestratorGateway::new(config).unwrap();
    let registry = gateway.get_registry();
    assert_eq!(registry.model_count(), 2);
    let w = registry.get_model("coder").unwrap();
    assert_eq!(w.address, "127.0.0.1");
    assert_eq!(w.port, 50052);
    assert_eq!(w.vram_usage_mb, 1024);
    assert_eq!(w.current_load, 0);
    assert_eq!(registry.healthy_model_count(), 2);
    assert_eq!(gateway.get_memory_manager().get_total_vram_mb(), 4096);
    assert_eq!(gateway.get_config().gateway.port, 9090);
    assert_eq!(gateway.get_metrics().get_system_metrics().total_requests, 0);
}

#[test]
fn a_model_id_given_twice_is_refused() {
    let mut config = Config::default();
    config.models.push(model("a", 1, 10, &["chat"]));
    config.models.push(model("b", 2, 10, &["chat"]));
    config.models.push(model("a", 3, 10, &["code"]));
    let err = OrchestratorGateway::new(config).err().unwrap();
    assert!(matches!(err, OrchestratorError::InternalError(ref m) if m == "Model a already registered"));
}

#[test]
fn a_query_is_routed_and_its_model_made_resident() {
    let mut config = Config::default();
    config.models.push(model("tiny", 50051, 512, &["chat"]));
    let mut gateway = OrchestratorGateway::new(config).unwrap();
    let target = gateway.prepare_query("Hello, how are you?", "chat").unwrap();
    assert_eq!(target.decision.target_model, "tiny");
    assert_eq!(target.port, 50051);
    assert_eq!(target.decision.complexity_score, 1);
    assert_eq!(gateway.get_memory_manager().get_vram_usage_mb(), 512);
    assert!(gateway.get_memory_manager().get_warm_swap().is_model_loaded("tiny"));

    let mut progress = QueryProgress::new();
    assert_eq!(progress.step(QueryEvent::Token { token: "Hi".to_string(), token_count: 1, is_final: false }), QueryAction::ReadNext);
    assert_eq!(progress.step(QueryEvent::Token { token: " there".to_string(), token_count: 2, is_final: true }), QueryAction::Finish);
    let answer = gateway.finish_query(&target, &progress, 42, "m-1".to_string(), "r-1".to_string());
    assert_eq!(answer.request_id, "r-1");
    assert_eq!(answer.response, "Hi there");
    assert_eq!(answer.model_used, "tiny");
    assert_eq!(answer.latency_ms, 42);
    assert_eq!(answer.tokens_generated, 2);
    let metrics = gateway.get_metrics();
    assert_eq!(metrics.get_system_metrics().total_requests, 1);
    assert_eq!(metrics.get_system_metrics().total_latency_ms, 42);
    let history = metrics.get_request_history(10);
    assert_eq!(history.len(), 1);
    assert_eq!(history[0].request_id, "m-1");
    assert_eq!(history[0].routed_model, "tiny");
    assert_eq!(history[0].confidence, 950);
}

#[test]
fn a_query_with_no_healthy_worker_is_an_internal_error() {
    let mut gateway = OrchestratorGateway::new(Config::default()).unwrap();
    let failure = gateway.prepare_query("Hello", "chat").err().unwrap();
    assert_eq!(failure, QueryFailure::InternalServerError);
    assert_eq!(failure.status_code(), 500);
}

#[test]
fn a_query_whose_model_does_not_fit_is_unavailable() {
    let mut config = Config::default();
    config.models.push(model("huge", 50051, 8192, &["chat"]));
    let mut gateway = OrchestratorGateway::new(config).unwrap();
    let failure = gateway.prepare_query("Hello", "chat").err().unwrap();
    assert_eq!(failure, QueryFailure::ServiceUnavailable);
    assert_eq!(failure.status_code(), 503);
    assert_eq!(QueryFailure::NotFound.status_code(), 404);
}

#[test]
fn an_unreachable_worker_is_tried_twice() {
    let mut progress = QueryProgress::new();
    assert_eq!(progress.last_error, "Unknown error");
    assert_eq!(progress.step(QueryEvent::ConnectFailed("refused".to_string())), QueryAction::Connect);
    assert_eq!(progress.attempts, 1);
    assert_eq!(
        progress.step(QueryEvent::CallFailed("unavailable".to_string())),
        QueryAction::Fail(QueryFailure::ServiceUnavailable)
    );
    assert_eq!(progress.attempts, MAX_ATTEMPTS);
    assert_eq!(progress.last_error, "unavailable");
}

#[test]
fn a_broken_stream_fails_at_once_and_an_ended_one_finishes() {
    let mut progress = QueryProgress::new();
    assert_eq!(progress.step(QueryEvent::Token { token: "a".to_string(), token_count: 1, is_final: false }), QueryAction::ReadNext);
    assert_eq!(
        progress.step(QueryEvent::StreamFailed("reset".to_string())),
        QueryAction::Fail(QueryFailure::InternalServerError)
    );
    let mut progress = QueryProgress::new();
    assert_eq!(progress.step(QueryEvent::Token { token: "a".to_string(), token_count: 1, is_final: false }), QueryAction::ReadNext);
    assert_eq!(progress.step(QueryEvent::StreamEnded), QueryAction::Finish);
    assert_eq!(progress.response, "a");
    assert_eq!(progress.tokens_generated, 1);
}

#[test]
fn the_worker_is_sent_the_prompt_and_a_token_limit() {
    let r = worker_request("Hello", None);
    assert_eq!(r.prompt, "Hello");
    assert_eq!(r.max_tokens, 256);
    assert_eq!(r.top_p, "0.95");
    assert_eq!(worker_request("Hi", Some(12)).max_tokens, 12);
}
