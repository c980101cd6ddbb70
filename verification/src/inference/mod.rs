pub mod inference_engine;
pub mod model_sidecar;
