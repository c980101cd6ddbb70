use vstd::prelude::*;

verus! {

/// Health status of a model worker.
#[derive(Debug, Clone, Copy, PartialEq, Eq, Structural)]
pub enum WorkerStatus {
    Healthy,
    Degraded,
    Offline,
    Loading,
}

/// The contents of a list of strings.
pub open spec fn string_views(v: Seq<String>) -> Seq<Seq<char>> {
    v.map_values(|s: String| s@)
}

/// Copies of each string of a list.
pub fn copy_strings(v: &Vec<String>) -> (r: Vec<String>)
    ensures
        string_views(r@) == string_views(v@),
{
    let mut r: Vec<String> = Vec::new();
    for i in 0..v.len()
        invariant
            r@.len() == i,
            forall|j: int| 0 <= j < i ==> r@[j]@ == v@[j]@,
    {
        r.push(v[i].clone());
    }
    assert(string_views(r@) =~= string_views(v@));
    r
}

/// A model worker as the registry knows it. The load is in thousandths
/// (0 idle, 1000 fully loaded).
#[derive(Debug, Clone)]
pub struct ModelWorkerInfo {
    pub model_id: String,
    pub address: String,
    pub port: u16,
    pub status: WorkerStatus,
    pub supported_tasks: Vec<String>,
    pub vram_usage_mb: usize,
    pub current_load: u32,
}

/// The abstract value of a `ModelWorkerInfo`.
pub struct ModelWorkerInfoView {
    pub model_id: Seq<char>,
    pub address: Seq<char>,
    pub port: u16,
    pub status: WorkerStatus,
    pub supported_tasks: Seq<Seq<char>>,
    pub vram_usage_mb: usize,
    pub current_load: u32,
}

impl View for ModelWorkerInfo {
    type V = ModelWorkerInfoView;

    open spec fn view(&self) -> ModelWorkerInfoView {
        ModelWorkerInfoView {
            model_id: self.model_id@,
            address: self.address@,
            port: self.port,
            status: self.status,
            supported_tasks: string_views(self.supported_tasks@),
            vram_usage_mb: self.vram_usage_mb,
            current_load: self.current_load,
        }
    }
}

impl ModelWorkerInfo {
    /// A field-by-field copy.
    pub fn copied(&self) -> (r: Self)
        ensures
            r@ == self@,
    {
        ModelWorkerInfo {
            model_id: self.model_id.clone(),
            address: self.address.clone(),
            port: self.port,
            status: self.status,
            supported_tasks: copy_strings(&self.supported_tasks),
            vram_usage_mb: self.vram_usage_mb,
            current_load: self.current_load,
        }
    }
}

/// Where a prompt goes and why. The confidence is in thousandths.
#[derive(Debug, Clone)]
pub struct RoutingDecision {
    pub target_model: String,
    pub complexity_score: u8,
    pub confidence: u32,
    pub reason: String,
    pub use_consensus: bool,
}

/// A reasoning chain kept for reuse. The confidence is in thousandths; the creation time in
/// milliseconds since the Unix epoch.
#[derive(Debug, Clone)]
pub struct CachedLogicChain {
    pub id: String,
    pub prompt_hash: String,
    pub task_type: String,
    pub reasoning_steps: Vec<String>,
    pub final_answer: String,
    pub confidence: u32,
    pub created_at: i64,
    pub hit_count: usize,
}

/// The abstract value of a `CachedLogicChain`.
pub struct CachedLogicChainView {
    pub id: Seq<char>,
    pub prompt_hash: Seq<char>,
    pub task_type: Seq<char>,
    pub reasoning_steps: Seq<Seq<char>>,
    pub final_answer: Seq<char>,
    pub confidence: u32,
    pub created_at: i64,
    pub hit_count: usize,
}

impl View for CachedLogicChain {
    type V = CachedLogicChainView;

    open spec fn view(&self) -> CachedLogicChainView {
        CachedLogicChainView {
            id: self.id@,
            prompt_hash: self.prompt_hash@,
            task_type: self.task_type@,
            reasoning_steps: string_views(self.reasoning_steps@),
            final_answer: self.final_answer@,
            confidence: self.confidence,
            created_at: self.created_at,
            hit_count: self.hit_count,
        }
    }
}

impl CachedLogicChain {
    /// A field-by-field copy.
    pub fn copied(&self) -> (r: Self)
        ensures
            r@ == self@,
    {
        CachedLogicChain {
            id: self.id.clone(),
            prompt_hash: self.prompt_hash.clone(),
            task_type: self.task_type.clone(),
            reasoning_steps: copy_strings(&self.reasoning_steps),
            final_answer: self.final_answer.clone(),
            confidence: self.confidence,
            created_at: self.created_at,
            hit_count: self.hit_count,
        }
    }
}

/// What one served request cost. The confidence is in thousandths; the time in
/// milliseconds since the Unix epoch.
#[derive(Debug, Clone)]
pub struct RequestMetrics {
    pub request_id: String,
    pub timestamp: i64,
    pub routed_model: String,
    pub complexity_score: u8,
    pub tokens_generated: i32,
    pub latency_ms: u64,
    pub confidence: u32,
}

/// The abstract value of a `RequestMetrics`.
pub struct RequestMetricsView {
    pub request_id: Seq<char>,
    pub timestamp: i64,
    pub routed_model: Seq<char>,
    pub complexity_score: u8,
    pub tokens_generated: i32,
    pub latency_ms: u64,
    pub confidence: u32,
}

impl View for RequestMetrics {
    type V = RequestMetricsView;

    open spec fn view(&self) -> RequestMetricsView {
        RequestMetricsView {
            request_id: self.request_id@,
            timestamp: self.timestamp,
            routed_model: self.routed_model@,
            complexity_score: self.complexity_score,
            tokens_generated: self.tokens_generated,
            latency_ms: self.latency_ms,
            confidence: self.confidence,
        }
    }
}

impl RequestMetrics {
    /// A field-by-field copy.
    pub fn copied(&self) -> (r: Self)
        ensures
            r@ == self@,
    {
        RequestMetrics {
            request_id: self.request_id.clone(),
            timestamp: self.timestamp,
            routed_model: self.routed_model.clone(),
            complexity_score: self.complexity_score,
            tokens_generated: self.tokens_generated,
            latency_ms: self.latency_ms,
            confidence: self.confidence,
        }
    }
}

/// The counters of the whole system. Rates and averages are ratios of these.
#[derive(Debug, Clone, Copy)]
pub struct SystemMetrics {
    pub total_requests: u64,
    pub total_latency_ms: u64,
    pub cache_hits: u64,
    pub cache_misses: u64,
    pub active_models: usize,
    pub model_switch_count: u64,
}

/// Kinds of task a prompt may belong to.
#[derive(Debug, Clone, Copy, PartialEq, Eq, Structural)]
pub enum TaskType {
    Logic,
    CreativeWriting,
    Code,
    DataExtraction,
    Summarization,
    GeneralChat,
    Math,
    Analysis,
}

/// The name of a task type, as `to_string` writes it.
pub open spec fn task_type_name(t: TaskType) -> Seq<char> {
    match t {
        TaskType::Logic => "Logic"@,
        TaskType::CreativeWriting => "CreativeWriting"@,
        TaskType::Code => "Code"@,
        TaskType::DataExtraction => "DataExtraction"@,
        TaskType::Summarization => "Summarization"@,
        TaskType::GeneralChat => "GeneralChat"@,
        TaskType::Math => "Math"@,
        TaskType::Analysis => "Analysis"@,
    }
}

impl TaskType {
    /// The variant's name.
    pub fn to_string(&self) -> (s: String)
        ensures
            s@ == task_type_name(*self),
    {
        match self {
            TaskType::Logic => String::from_str("Logic"),
            TaskType::CreativeWriting => String::from_str("CreativeWriting"),
            TaskType::Code => String::from_str("Code"),
            TaskType::DataExtraction => String::from_str("DataExtraction"),
            TaskType::Summarization => String::from_str("Summarization"),
            TaskType::GeneralChat => String::from_str("GeneralChat"),
            TaskType::Math => String::from_str("Math"),
            TaskType::Analysis => String::from_str("Analysis"),
        }
    }
}

} // verus!
