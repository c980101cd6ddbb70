pub mod semantic_cache;
pub mod warm_swap;
pub mod memory_manager;
