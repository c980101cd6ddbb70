use vstd::prelude::*;
use crate::base::error::{concat, OrchestratorError, Result};
use crate::base::types::string_views;
use crate::text::{decimal, decimal_string};

verus! {

/// Where the tokens of an engine come from.
#[derive(Debug, Clone)]
pub enum EngineBackend {
    Simulation,
    Ollama { endpoint: String },
    LlamaCpp,
}

/// The token state of a loaded model.
pub struct InferenceContext {
    _prompt_tokens: Vec<i32>,
    _completion_tokens: Vec<i32>,
    _total_tokens: usize,
}

/// A model behind a backend; it serves once initialized.
pub struct InferenceEngine {
    pub model_path: String,
    pub model_name: String,
    pub parameters: usize,
    pub backend: EngineBackend,
    pub context: Option<InferenceContext>,
}

/// Facts about a served model.
#[derive(Debug, Clone)]
pub struct ModelMetadata {
    pub model_name: String,
    pub model_path: String,
    pub parameters: usize,
    pub context_size: usize,
    pub vocab_size: usize,
}

/// A generation request to an Ollama server (its sampling temperature is set by the
/// sender).
#[derive(Debug, Clone)]
pub struct OllamaCall {
    pub url: String,
    pub model: String,
    pub prompt: String,
    pub num_predict: i32,
}

/// What an engine does with a prompt: tokens it made itself, or a call to send.
#[derive(Debug)]
pub enum InferencePlan {
    Tokens(Vec<String>),
    Remote(OllamaCall),
}

/// How an Ollama server answered.
#[derive(Debug, Clone)]
pub enum OllamaReply {
    /// The request could not be sent or read; the transport's error text.
    SendFailed(String),
    /// A status other than success: the status as text and the body.
    Status { status: String, body: String },
    /// The body was no JSON; the parser's error text.
    BadJson(String),
    /// The body's `response` field, if it was a string.
    Json { response: Option<String> },
}

/// How many tokens the simulation makes for a limit: the limit, between 0 and 10.
pub open spec fn simulated_count(max_tokens: i32) -> nat {
    if max_tokens < 0 {
        0
    } else if max_tokens > 10 {
        10
    } else {
        max_tokens as nat
    }
}

/// The tokens the simulation makes: `token_0`, `token_1`, and so on.
pub open spec fn simulated_tokens(max_tokens: i32) -> Seq<Seq<char>> {
    Seq::new(simulated_count(max_tokens), |i: int| "token_"@ + decimal(i as nat))
}

/// The error of an inference.
pub open spec fn inference_error(r: Result<Vec<String>>, m: Seq<char>) -> bool {
    r matches Err(OrchestratorError::InferenceError(e)) && e@ == m
}

/// The result of an Ollama reply: its one token, or the error it shows.
pub open spec fn reply_result(reply: OllamaReply, r: Result<Vec<String>>) -> bool {
    match reply {
        OllamaReply::SendFailed(e) => inference_error(r, e@),
        OllamaReply::Status { status, body } => inference_error(
            r,
            "Ollama error ("@ + status@ + "): "@ + body@,
        ),
        OllamaReply::BadJson(e) => inference_error(r, e@),
        OllamaReply::Json { response: None } => inference_error(r, "Missing response field"@),
        OllamaReply::Json { response: Some(t) } => r matches Ok(v) && string_views(v@) == seq![t@],
    }
}

/// What an engine does with a prompt. One not initialized refuses; the simulation makes
/// its tokens; Ollama is called at `<endpoint>/api/generate`; llama.cpp is refused.
pub open spec fn planned(
    engine: InferenceEngine,
    prompt: Seq<char>,
    max_tokens: i32,
    r: Result<InferencePlan>,
) -> bool {
    if engine.context is None {
        r matches Err(OrchestratorError::InferenceError(e)) && e@ == "Engine not initialized"@
    } else {
        match engine.backend {
            EngineBackend::Simulation => r matches Ok(InferencePlan::Tokens(t)) && string_views(t@)
                == simulated_tokens(max_tokens),
            EngineBackend::Ollama { endpoint } => r matches Ok(InferencePlan::Remote(c)) && c.url@
                == endpoint@ + "/api/generate"@ && c.model@ == engine.model_name@ && c.prompt@
                == prompt && c.num_predict == max_tokens,
            EngineBackend::LlamaCpp => r matches Err(OrchestratorError::InferenceError(e)) && e@
                == "LlamaCpp backend not yet implemented"@,
        }
    }
}

impl InferenceEngine {
    /// An engine not yet initialized.
    pub fn new(model_path: String, model_name: String, parameters: usize, backend: EngineBackend) -> (r:
        Self)
        ensures
            r.model_path == model_path,
            r.model_name == model_name,
            r.parameters == parameters,
            r.backend == backend,
            r.context is None,
    {
        InferenceEngine { model_path, model_name, parameters, backend, context: None }
    }

    /// Loads the model: the engine is ready afterwards.
    pub fn initialize(&mut self) -> (r: Result<()>)
        ensures
            r is Ok,
            final(self).context is Some,
            final(self).model_path == old(self).model_path,
            final(self).model_name == old(self).model_name,
            final(self).parameters == old(self).parameters,
            final(self).backend == old(self).backend,
    {
        self.context = Some(
            InferenceContext {
                _prompt_tokens: Vec::new(),
                _completion_tokens: Vec::new(),
                _total_tokens: 0,
            },
        );
        Ok(())
    }

    /// What to do with a prompt. An engine not initialized refuses; the simulation makes
    /// its tokens; Ollama is called at `<endpoint>/api/generate` without streaming; llama.cpp
    /// is refused.
    pub fn infer(&self, prompt: &str, max_tokens: i32) -> (r: Result<InferencePlan>)
        ensures
            planned(*self, prompt@, max_tokens, r),
    {
        if self.context.is_none() {
            return Err(OrchestratorError::InferenceError(String::from_str("Engine not initialized")));
        }
        match &self.backend {
            EngineBackend::Simulation => Ok(InferencePlan::Tokens(self.simulate_inference(prompt, max_tokens))),
            EngineBackend::Ollama { endpoint } => Ok(
                InferencePlan::Remote(
                    OllamaCall {
                        url: concat(endpoint.as_str(), "/api/generate"),
                        model: self.model_name.clone(),
                        prompt: String::from_str(prompt),
                        num_predict: max_tokens,
                    },
                ),
            ),
            EngineBackend::LlamaCpp => Err(
                OrchestratorError::InferenceError(
                    String::from_str("LlamaCpp backend not yet implemented"),
                ),
            ),
        }
    }

    /// The tokens of an Ollama reply: its `response` text as the one token; a reply that
    /// failed, or lacks that text, is an inference error.
    pub fn finish_ollama(reply: OllamaReply) -> (r: Result<Vec<String>>)
        ensures
            reply_result(reply, r),
    {
        match reply {
            OllamaReply::SendFailed(e) => Err(OrchestratorError::InferenceError(e)),
            OllamaReply::Status { status, body } => {
                let mut m = String::from_str("Ollama error (");
                m.append(status.as_str());
                m.append("): ");
                m.append(body.as_str());
                Err(OrchestratorError::InferenceError(m))
            },
            OllamaReply::BadJson(e) => Err(OrchestratorError::InferenceError(e)),
            OllamaReply::Json { response: None } => Err(
                OrchestratorError::InferenceError(String::from_str("Missing response field")),
            ),
            OllamaReply::Json { response: Some(t) } => {
                let mut v: Vec<String> = Vec::new();
                v.push(t);
                assert(string_views(v@) =~= seq![v@[0]@]);
                Ok(v)
            },
        }
    }

    /// The same as `infer`: tokens are handed out as they come by the caller.
    pub fn infer_stream(&self, prompt: &str, max_tokens: i32) -> (r: Result<InferencePlan>)
        ensures
            planned(*self, prompt@, max_tokens, r),
    {
        self.infer(prompt, max_tokens)
    }

    /// The model's name, path and size, with a context of 2048 tokens and a vocabulary of
    /// 32000.
    pub fn get_metadata(&self) -> (r: ModelMetadata)
        ensures
            r.model_name@ == self.model_name@,
            r.model_path@ == self.model_path@,
            r.parameters == self.parameters,
            r.context_size == 2048,
            r.vocab_size == 32000,
    {
        ModelMetadata {
            model_name: self.model_name.clone(),
            model_path: self.model_path.clone(),
            parameters: self.parameters,
            context_size: 2048,
            vocab_size: 32000,
        }
    }

    /// Tokens standing in for a model's output (see `simulated_tokens`).
    fn simulate_inference(&self, _prompt: &str, max_tokens: i32) -> (r: Vec<String>)
        ensures
            string_views(r@) == simulated_tokens(max_tokens),
    {
        let n: i32 = if max_tokens < 10 {
            max_tokens
        } else {
            10
        };
        let mut tokens: Vec<String> = Vec::new();
        let mut i: i32 = 0;
        while i < n
            invariant
                0 <= i,
                n < 0 ==> i == 0,
                n >= 0 ==> i <= n,
                n <= 10,
                n == (if max_tokens < 10 {
                    max_tokens
                } else {
                    10
                }),
                tokens@.len() == i,
                forall|j: int| 0 <= j < i ==> #[trigger] tokens@[j]@ == "token_"@ + decimal(j as nat),
            decreases n - i,
        {
            tokens.push(concat("token_", decimal_string(i as u64).as_str()));
            i = i + 1;
        }
        assert(string_views(tokens@) =~= simulated_tokens(max_tokens));
        tokens
    }

    /// Unloads the model: the engine is no longer ready.
    pub fn clear_context(&mut self)
        ensures
            final(self).context is None,
            final(self).model_path == old(self).model_path,
            final(self).model_name == old(self).model_name,
            final(self).parameters == old(self).parameters,
            final(self).backend == old(self).backend,
    {
        self.context = None;
    }

    /// Whether the engine was initialized and not cleared since.
    pub fn is_ready(&self) -> (r: bool)
        ensures
            r == self.context is Some,
    {
        self.context.is_some()
    }
}

} // verus!
