pub mod complexity_scorer;
pub mod router;
pub mod service_registry;
