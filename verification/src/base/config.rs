use vstd::prelude::*;
use crate::base::types::string_views;

verus! {

/// The settings of the whole orchestrator.
#[derive(Debug, Clone)]
pub struct Config {
    pub orchestrator: OrchestratorConfig,
    pub router: RouterConfig,
    pub memory: MemoryConfig,
    pub models: Vec<ModelConfig>,
    pub gateway: GatewayConfig,
}

/// Service-wide settings.
#[derive(Debug, Clone)]
pub struct OrchestratorConfig {
    pub name: String,
    pub version: String,
    pub max_concurrent_requests: usize,
    pub request_timeout_ms: u64,
    pub enable_metrics: bool,
    pub metrics_interval_ms: u64,
}

/// Routing settings. The two thresholds are in thousandths.
#[derive(Debug, Clone)]
pub struct RouterConfig {
    pub embedding_model: String,
    pub complexity_threshold_low: u8,
    pub complexity_threshold_high: u8,
    pub enable_consensus_mode: bool,
    pub consensus_threshold: u32,
    pub enable_semantic_cache: bool,
    pub cache_similarity_threshold: u32,
}

/// Memory settings; sizes in MB.
#[derive(Debug, Clone)]
pub struct MemoryConfig {
    pub max_vram_mb: usize,
    pub max_ram_mb: usize,
    pub enable_warm_swap: bool,
    pub swap_timeout_ms: u64,
    pub nvme_swap_path: Option<String>,
    pub model_cache_size: usize,
}

/// A model the orchestrator serves.
#[derive(Debug, Clone)]
pub struct ModelConfig {
    pub id: String,
    pub name: String,
    pub model_path: String,
    pub model_type: ModelType,
    pub parameters: usize,
    pub vram_required_mb: usize,
    pub port: u16,
    pub supported_tasks: Vec<String>,
    pub quantization: Option<String>,
}

/// What a model is for.
#[derive(Debug, Clone, Copy, PartialEq, Eq, Hash, Structural)]
pub enum ModelType {
    Chat,
    Code,
    Logic,
    Summarization,
    General,
}

/// Settings of the HTTP gateway.
#[derive(Debug, Clone)]
pub struct GatewayConfig {
    pub host: String,
    pub port: u16,
    pub max_batch_size: usize,
    pub enable_cors: bool,
    pub allowed_origins: Vec<String>,
}

impl Default for Config {
    /// The settings of a single-machine deployment with no model yet.
    fn default() -> (c: Self)
        ensures
            c.orchestrator.name@ == "Sovereign Orchestrator"@,
            c.orchestrator.version@ == "0.1.0"@,
            c.orchestrator.max_concurrent_requests == 100,
            c.orchestrator.request_timeout_ms == 30000,
            c.orchestrator.enable_metrics,
            c.orchestrator.metrics_interval_ms == 5000,
            c.router.embedding_model@ == "all-MiniLM-L6-v2"@,
            c.router.complexity_threshold_low == 3,
            c.router.complexity_threshold_high == 7,
            c.router.enable_consensus_mode,
            c.router.consensus_threshold == 850,
            c.router.enable_semantic_cache,
            c.router.cache_similarity_threshold == 920,
            c.memory.max_vram_mb == 4096,
            c.memory.max_ram_mb == 8192,
            c.memory.enable_warm_swap,
            c.memory.swap_timeout_ms == 400,
            c.memory.nvme_swap_path matches Some(p) && p@ == "/tmp/model_swap"@,
            c.memory.model_cache_size == 3,
            c.models@.len() == 0,
            c.gateway.host@ == "0.0.0.0"@,
            c.gateway.port == 9090,
            c.gateway.max_batch_size == 32,
            c.gateway.enable_cors,
            string_views(c.gateway.allowed_origins@) == seq!["*"@],
    {
        let mut allowed_origins: Vec<String> = Vec::new();
        allowed_origins.push(String::from_str("*"));
        let c = Config {
            orchestrator: OrchestratorConfig {
                name: String::from_str("Sovereign Orchestrator"),
                version: String::from_str("0.1.0"),
                max_concurrent_requests: 100,
                request_timeout_ms: 30000,
                enable_metrics: true,
                metrics_interval_ms: 5000,
            },
            router: RouterConfig {
                embedding_model: String::from_str("all-MiniLM-L6-v2"),
                complexity_threshold_low: 3,
                complexity_threshold_high: 7,
                enable_consensus_mode: true,
                consensus_threshold: 850,
                enable_semantic_cache: true,
                cache_similarity_threshold: 920,
            },
            memory: MemoryConfig {
                max_vram_mb: 4096,
                max_ram_mb: 8192,
                enable_warm_swap: true,
                swap_timeout_ms: 400,
                nvme_swap_path: Some(String::from_str("/tmp/model_swap")),
                model_cache_size: 3,
            },
            models: Vec::new(),
            gateway: GatewayConfig {
                host: String::from_str("0.0.0.0"),
                port: 9090,
                max_batch_size: 32,
                enable_cors: true,
                allowed_origins,
            },
        };
        assert(string_views(c.gateway.allowed_origins@) =~= seq!["*"@]);
        c
    }
}

} // verus!
