# Sovereign Orchestrator

Coordinates several small, locally hosted language models as one service: a prompt is
scored for complexity, routed to a healthy worker that serves its task, the worker's
weights are made resident in VRAM (least recently used first out), and the answer is
streamed back, with reasoning chains cached by prompt hash.

The library in `src/` is written in Verus; each public function carries a contract that
Verus proves, and the properties that span several calls are stated as `law_*` proof
functions beside the code they are about.

- `base`: errors and their gRPC statuses, settings, shared records, request metrics, clock.
- `text`: whitespace words, substring counts, decimal and hexadecimal numerals.
- `routing`: the complexity scorer, the registry of workers, the router.
- `memory`: the LRU cache of model weights, the semantic cache of reasoning chains, and
  the memory manager over both.
- `inference`: the inference engine (simulated tokens or a remote Ollama server) and the
  worker that streams its tokens.
- `gateway`: the orchestrator itself, and the steps of answering a query (routing, making
  the model resident, retrying the worker, recording metrics).

Amounts that the service reports as fractions (loads, confidences, thresholds) are kept
in thousandths; times are milliseconds since the Unix epoch.

`app/` holds the programs around the library: the HTTP gateway (axum), the model worker
sidecar (tonic), the routing demo, reading the JSON configuration, and the embedding that
classifies a prompt's task, which works in floating point.
