use sovereign_orchestrator::base::clock::{current_time_ms, now_millis};
use sovereign_orchestrator::base::config::Config;
use sovereign_orchestrator::base::error::{OrchestratorError, RpcCode, RpcStatus};
use sovereign_orchestrator::base::metrics::MetricsCollector;
use sovereign_orchestrator::base::types::RequestMetrics;
use sovereign_orchestrator::{NAME, VERSION};

fn request(id: &str, timestamp: i64, latency_ms: u64) -> RequestMetrics {
    RequestMetrics {
        request_id: id.to_string(),
        timestamp,
        routed_model: "m".to_string(),
        complexity_score: 3,
        tokens_generated: 7,
        latency_ms,
        confidence: 950,
    }
}

#[test]
fn library_identity() {
    assert_eq!(VERSION, "0.1.0");
    assert_eq!(NAME, "Sovereign Orchestrator");
}

#[test]
fn error_messages() {
    let s = |t: &str| t.to_string();
    assert_eq!(OrchestratorError::ModelNotFound(s("x")).message(), "Model not found: x");
    assert_eq!(OrchestratorError::RoutingError(s("x")).message(), "Routing error: x");
    assert_eq!(OrchestratorError::MemoryError(s("x")).message(), "Memory error: x");
    assert_eq!(OrchestratorError::InferenceError(s("x")).message(), "Inference error: x");
    assert_eq!(
        OrchestratorError::GrpcError(RpcStatus { code: RpcCode::Aborted, message: s("x") }).message(),
        "gRPC error: status: Aborted, message: \"x\", details: b\"\", metadata: MetadataMap { headers: {} }"
    );
    assert_eq!(OrchestratorError::CommunicationError(s("x")).message(), "Communication error: x");
    assert_eq!(OrchestratorError::ConfigError(s("x")).message(), "Configuration error: x");
    assert_eq!(OrchestratorError::SerializationError(s("x")).message(), "Serialization error: x");
    assert_eq!(OrchestratorError::IoError(s("x")).message(), "IO error: x");
    assert_eq!(OrchestratorError::Timeout.message(), "Timeout occurred");
    assert_eq!(OrchestratorError::ResourceExhausted(s("x")).message(), "Resource exhausted: x");
    assert_eq!(OrchestratorError::InvalidRequest(s("x")).message(), "Invalid request: x");
    assert_eq!(OrchestratorError::InternalError(s("x")).message(), "Internal error: x");
}

#[test]
fn errors_as_grpc_statuses() {
    let s = |t: &str| t.to_string();
    let check = |e: OrchestratorError, code: RpcCode, msg: &str| {
        let st = e.to_status();
        assert_eq!(st.code, code);
        assert_eq!(st.message, msg);
    };
    check(OrchestratorError::ModelNotFound(s("x")), RpcCode::NotFound, "x");
    check(OrchestratorError::RoutingError(s("x")), RpcCode::Internal, "Routing error: x");
    check(OrchestratorError::MemoryError(s("x")), RpcCode::ResourceExhausted, "x");
    check(OrchestratorError::InferenceError(s("x")), RpcCode::Internal, "Inference error: x");
    check(
        OrchestratorError::GrpcError(RpcStatus { code: RpcCode::Aborted, message: s("x") }),
        RpcCode::Aborted,
        "x",
    );
    check(OrchestratorError::CommunicationError(s("x")), RpcCode::Unavailable, "x");
    check(OrchestratorError::ConfigError(s("x")), RpcCode::InvalidArgument, "x");
    check(OrchestratorError::Timeout, RpcCode::DeadlineExceeded, "Request timeout");
    check(OrchestratorError::ResourceExhausted(s("x")), RpcCode::ResourceExhausted, "x");
    check(OrchestratorError::InvalidRequest(s("x")), RpcCode::InvalidArgument, "x");
    check(OrchestratorError::SerializationError(s("x")), RpcCode::Internal, "Serialization error: x");
    check(OrchestratorError::IoError(s("x")), RpcCode::Internal, "IO error: x");
    check(OrchestratorError::InternalError(s("x")), RpcCode::Internal, "Internal error: x");
}

#[test]
fn default_configuration() {
    let c = Config::default();
    assert_eq!(c.orchestrator.name, "Sovereign Orchestrator");
    assert_eq!(c.orchestrator.version, "0.1.0");
    assert_eq!(c.orchestrator.max_concurrent_requests, 100);
    assert_eq!(c.orchestrator.request_timeout_ms, 30000);
    assert!(c.orchestrator.enable_metrics);
    assert_eq!(c.orchestrator.metrics_interval_ms, 5000);
    assert_eq!(c.router.embedding_model, "all-MiniLM-L6-v2");
    assert_eq!(c.router.complexity_threshold_low, 3);
    assert_eq!(c.router.complexity_threshold_high, 7);
    assert!(c.router.enable_consensus_mode);
    assert_eq!(c.router.consensus_threshold, 850);
    assert!(c.router.enable_semantic_cache);
    assert_eq!(c.router.cache_similarity_threshold, 920);
    assert_eq!(c.memory.max_vram_mb, 4096);
    assert_eq!(c.memory.max_ram_mb, 8192);
    assert!(c.memory.enable_warm_swap);
    assert_eq!(c.memory.swap_timeout_ms, 400);
    assert_eq!(c.memory.nvme_swap_path.as_deref(), Some("/tmp/model_swap"));
    assert_eq!(c.memory.model_cache_size, 3);
    assert!(c.models.is_empty());
    assert_eq!(c.gateway.host, "0.0.0.0");
    assert_eq!(c.gateway.port, 9090);
    assert_eq!(c.gateway.max_batch_size, 32);
    assert!(c.gateway.enable_cors);
    assert_eq!(c.gateway.allowed_origins, vec!["*".to_string()]);
}

#[test]
fn metrics_count_and_remember_requests() {
    let mut m = MetricsCollector::default();
    m.record_request(request("a", 100, 40));
    m.record_request(request("b", 200, 60));
    m.record_cache_hit();
    m.record_cache_hit();
    m.record_cache_miss();
    m.record_model_switch();
    let s = m.get_system_metrics();
    assert_eq!(s.total_requests, 2);
    assert_eq!(s.total_latency_ms, 100);
    assert_eq!(s.cache_hits, 2);
    assert_eq!(s.cache_misses, 1);
    assert_eq!(s.model_switch_count, 1);
    assert_eq!(s.active_models, 0);
    let all = m.get_request_history(10);
    assert_eq!(all.len(), 2);
    let mut ids: Vec<String> = all.iter().map(|r| r.request_id.clone()).collect();
    ids.sort();
    assert_eq!(ids, vec!["a".to_string(), "b".to_string()]);
    assert_eq!(m.get_request_history(1).len(), 1);
    assert!(m.get_request_history(0).is_empty());
}

#[test]
fn old_requests_are_forgotten() {
    let now = chrono::Utc::now().timestamp_millis();
    let mut m = MetricsCollector::new();
    m.record_request(request("old", now - 3 * 3_600_000, 1));
    m.record_request(request("new", now + 60_000, 1));
    m.clear_old_history(2);
    let left = m.get_request_history(10);
    assert_eq!(left.len(), 1);
    assert_eq!(left[0].request_id, "new");
    assert_eq!(m.get_system_metrics().total_requests, 2);
}

#[test]
fn requests_are_forgotten_by_age_from_a_given_time() {
    let mut m = MetricsCollector::new();
    m.record_request(request("early", 0, 1));
    m.record_request(request("edge", 3_600_000, 1));
    m.record_request(request("late", 3_600_001, 1));
    m.clear_history_before(7_200_000, 1);
    let left = m.get_request_history(10);
    assert_eq!(left.len(), 1);
    assert_eq!(left[0].request_id, "late");
    m.clear_history_before(i64::MIN + 5, 2);
    assert_eq!(m.get_request_history(10).len(), 1);
}

#[test]
fn the_clock_reads_after_the_epoch() {
    assert!(current_time_ms() > 1_600_000_000_000);
    assert!(now_millis() > 1_600_000_000_000);
}

#[test]
fn grpc_status_text_quotes_and_escapes_the_message() {
    let st = RpcStatus { code: RpcCode::Success, message: "say \"hi\"\n".to_string() };
    assert_eq!(
        st.text(),
        "status: Ok, message: \"say \\\"hi\\\"\\n\", details: b\"\", metadata: MetadataMap { headers: {} }"
    );
    assert_eq!(RpcCode::Unauthenticated.name(), "Unauthenticated");
    let e = OrchestratorError::GrpcError(RpcStatus { code: RpcCode::Internal, message: "boom".to_string() });
    assert_eq!(
        e.message(),
        "gRPC error: status: Internal, message: \"boom\", details: b\"\", metadata: MetadataMap { headers: {} }"
    );
}
