pub mod handlers;
pub mod orchestrator_gateway;
