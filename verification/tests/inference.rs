use sovereign_orchestrator::base::error::{OrchestratorError, RpcCode};
use sovereign_orchestrator::inference::inference_engine::{
    EngineBackend, InferenceEngine, InferencePlan, OllamaReply,
};
use sovereign_orchestrator::inference::model_sidecar::{ModelSidecar, ModelWorkerService};
use std::sync::Arc;

fn engine(backend: EngineBackend) -> InferenceEngine {
    InferenceEngine::new(
        "/models/test.gguf".to_string(),
        "test-model".to_string(),
        1000000,
        backend,
    )
}

fn inference_message(e: OrchestratorError) -> String {
    match e {
        OrchestratorError::InferenceError(m) => m,
        other => panic!("unexpected error {:?}", other),
    }
}

#[test]
fn test_inference_engine_creation() {
    let engine = InferenceEngine::new(
        "/models/test.gguf".to_string(),
        "test-model".to_string(),
        1000000,
        EngineBackend::Simulation,
    );
    assert_eq!(engine.model_name, "test-model");
    assert_eq!(engine.parameters, 1000000);
}

#[test]
fn test_engine_initialization() {
    let mut engine = InferenceEngine::new(
        "/models/test.gguf".to_string(),
        "test-model".to_string(),
        1000000,
        EngineBackend::Simulation,
    );
    assert!(engine.initialize().is_ok());
    assert!(engine.is_ready());
}

#[test]
fn test_ollama_backend_config() {
    let endpoint = "http://localhost:11434".to_string();
    let engine = InferenceEngine::new(
        "/models/test.gguf".to_string(),
        "test-model".to_string(),
        1000000,
        EngineBackend::Ollama { endpoint: endpoint.clone() },
    );
    if let EngineBackend::Ollama { endpoint: ep } = &engine.backend {
        assert_eq!(ep, &endpoint);
    } else {
        panic!("Backend should be Ollama");
    }
}

#[test]
fn an_engine_not_initialized_refuses() {
    let e = engine(EngineBackend::Simulation);
    assert!(!e.is_ready());
    let err = e.infer("hi", 5).unwrap_err();
    assert_eq!(inference_message(err), "Engine not initialized");
}

#[test]
fn simulation_makes_at_most_ten_numbered_tokens() {
    let mut e = engine(EngineBackend::Simulation);
    e.initialize().unwrap();
    match e.infer("hi", 3).unwrap() {
        InferencePlan::Tokens(t) => assert_eq!(t, vec!["token_0", "token_1", "token_2"]),
        other => panic!("unexpected {:?}", other),
    }
    match e.infer_stream("hi", 50).unwrap() {
        InferencePlan::Tokens(t) => {
            assert_eq!(t.len(), 10);
            assert_eq!(t[9], "token_9");
        }
        other => panic!("unexpected {:?}", other),
    }
    match e.infer("hi", -4).unwrap() {
        InferencePlan::Tokens(t) => assert!(t.is_empty()),
        other => panic!("unexpected {:?}", other),
    }
    e.clear_context();
    assert!(!e.is_ready());
    assert!(e.infer("hi", 3).is_err());
}

#[test]
fn ollama_is_called_at_its_generate_endpoint() {
    let mut e = engine(EngineBackend::Ollama { endpoint: "http://localhost:11434".to_string() });
    e.initialize().unwrap();
    match e.infer("Why is the sky blue?", 64).unwrap() {
        InferencePlan::Remote(call) => {
            assert_eq!(call.url, "http://localhost:11434/api/generate");
            assert_eq!(call.model, "test-model");
            assert_eq!(call.prompt, "Why is the sky blue?");
            assert_eq!(call.num_predict, 64);
        }
        other => panic!("unexpected {:?}", other),
    }
}

#[test]
fn llamacpp_is_not_implemented() {
    let mut e = engine(EngineBackend::LlamaCpp);
    e.initialize().unwrap();
    let err = e.infer("hi", 3).unwrap_err();
    assert_eq!(inference_message(err), "LlamaCpp backend not yet implemented");
}

#[test]
fn ollama_replies() {
    let ok = InferenceEngine::finish_ollama(OllamaReply::Json { response: Some("Rayleigh".to_string()) });
    assert_eq!(ok.unwrap(), vec!["Rayleigh".to_string()]);
    let missing = InferenceEngine::finish_ollama(OllamaReply::Json { response: None });
    assert_eq!(inference_message(missing.unwrap_err()), "Missing response field");
    let status = InferenceEngine::finish_ollama(OllamaReply::Status {
        status: "404 Not Found".to_string(),
        body: "model not found".to_string(),
    });
    assert_eq!(inference_message(status.unwrap_err()), "Ollama error (404 Not Found): model not found");
    let sent = InferenceEngine::finish_ollama(OllamaReply::SendFailed("connection refused".to_string()));
    assert_eq!(inference_message(sent.unwrap_err()), "connection refused");
    let bad = InferenceEngine::finish_ollama(OllamaReply::BadJson("expected value".to_string()));
    assert_eq!(inference_message(bad.unwrap_err()), "expected value");
}

#[test]
fn metadata_of_the_engine() {
    let m = engine(EngineBackend::Simulation).get_metadata();
    assert_eq!(m.model_name, "test-model");
    assert_eq!(m.model_path, "/models/test.gguf");
    assert_eq!(m.parameters, 1000000);
    assert_eq!(m.context_size, 2048);
    assert_eq!(m.vocab_size, 32000);
}

#[test]
fn test_sidecar_creation() {
    let engine = Arc::new(InferenceEngine::new(
        "/models/test.gguf".to_string(),
        "test-model".to_string(),
        1000000,
        EngineBackend::Simulation,
    ));
    let sidecar = ModelSidecar::new("model-1".to_string(), engine, 50051);
    assert_eq!(sidecar.model_id, "model-1");
    assert_eq!(sidecar.port, 50051);
}

#[test]
fn generation_stream_frames() {
    let tokens = vec!["a".to_string(), "b".to_string(), "c".to_string()];
    let items = ModelWorkerService::response_stream(Ok(tokens), "req-1");
    assert_eq!(items.len(), 3);
    for (i, item) in items.iter().enumerate() {
        let f = item.as_ref().unwrap();
        assert_eq!(f.token_count, i as i32 + 1);
        assert_eq!(f.is_final, i == 2);
        assert_eq!(f.request_id, "req-1");
    }
    assert_eq!(items[1].as_ref().unwrap().token, "b");
    assert!(ModelWorkerService::response_stream(Ok(vec![]), "r").is_empty());
    let failed = ModelWorkerService::response_stream(
        Err(OrchestratorError::InferenceError("Engine not initialized".to_string())),
        "r",
    );
    assert_eq!(failed.len(), 1);
    let status = failed[0].as_ref().unwrap_err();
    assert_eq!(status.code, RpcCode::Internal);
    assert_eq!(status.message, "Inference error: Engine not initialized");
}

#[test]
fn worker_health_and_info() {
    let mut e = engine(EngineBackend::Simulation);
    let cold = ModelWorkerService { engine: Arc::new(engine(EngineBackend::Simulation)), model_id: "m".to_string() };
    let report = cold.health_check();
    assert!(!report.healthy);
    assert_eq!(report.status, "initializing");
    e.initialize().unwrap();
    let warm = ModelWorkerService { engine: Arc::new(e), model_id: "m".to_string() };
    let report = warm.health_check();
    assert!(report.healthy);
    assert_eq!(report.status, "healthy");
    let info = warm.get_model_info();
    assert_eq!(info.model_id, "m");
    assert_eq!(info.model_name, "test-model");
    assert_eq!(info.parameters, 1000000);
    assert_eq!(info.architecture, "transformer");
    assert_eq!(info.vram_required, 2048);
    assert_eq!(info.supported_tasks, vec!["chat", "code", "reasoning"]);
    let big = ModelWorkerService {
        engine: Arc::new(InferenceEngine::new(String::new(), "big".to_string(), 7_000_000_000, EngineBackend::Simulation)),
        model_id: "b".to_string(),
    };
    assert_eq!(big.get_model_info().parameters, 7_000_000_000usize as i32);
}
