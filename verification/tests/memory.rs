use sovereign_orchestrator::base::error::OrchestratorError;
use sovereign_orchestrator::base::types::CachedLogicChain;
use sovereign_orchestrator::memory::memory_manager::MemoryManager;
use sovereign_orchestrator::memory::semantic_cache::SemanticCache;
use sovereign_orchestrator::memory::warm_swap::{SwapAction, WarmSwapManager};

fn chain(id: &str, prompt: &str, created_at: i64, hits: usize, confidence: u32) -> CachedLogicChain {
    CachedLogicChain {
        id: id.to_string(),
        prompt_hash: SemanticCache::hash_prompt(prompt),
        task_type: "logic".to_string(),
        reasoning_steps: vec!["step1".to_string()],
        final_answer: "answer".to_string(),
        confidence,
        created_at,
        hit_count: hits,
    }
}

#[test]
fn test_model_loading() {
    let mut manager = WarmSwapManager::new(4096, 3).unwrap();
    assert!(manager.load_model("model1", 1024).is_ok());
    assert!(manager.is_model_loaded("model1"));
    assert_eq!(manager.get_vram_usage_mb(), 1024);
}

#[test]
fn test_swap_estimation() {
    let manager = WarmSwapManager::new(4096, 3).unwrap();
    let latency = manager.estimate_swap_time(2048);
    assert!(latency > 0);
}

#[test]
fn swap_time_is_size_over_500_at_least_10() {
    let manager = WarmSwapManager::new(4096, 3).unwrap();
    assert_eq!(manager.estimate_swap_time(2048), 10);
    assert_eq!(manager.estimate_swap_time(0), 10);
    assert_eq!(manager.estimate_swap_time(10_000), 20);
    assert_eq!(manager.estimate_swap_time(5_499), 10);
    assert_eq!(manager.estimate_swap_time(5_500), 11);
}

#[test]
fn reloading_a_resident_model_is_reuse() {
    let mut manager = WarmSwapManager::new(4096, 3).unwrap();
    assert_eq!(manager.load_model("a", 1000).unwrap(), true);
    assert_eq!(manager.load_model("a", 3000).unwrap(), true);
    assert_eq!(manager.get_vram_usage_mb(), 1000);
    let history = manager.get_swap_history(10);
    assert_eq!(history.len(), 2);
    assert_eq!(history[0].action, SwapAction::Reuse);
    assert_eq!(history[0].model_id, "a");
    assert_eq!(history[1].action, SwapAction::Load);
    assert_eq!(manager.get_swap_history(1).len(), 1);
}

#[test]
fn loaded_models_come_most_recent_first_and_capacity_evicts() {
    let mut manager = WarmSwapManager::new(10_000, 2).unwrap();
    manager.load_model("a", 10).unwrap();
    manager.load_model("b", 10).unwrap();
    assert_eq!(manager.get_loaded_models(), vec!["b".to_string(), "a".to_string()]);
    manager.load_model("a", 10).unwrap();
    assert_eq!(manager.get_loaded_models(), vec!["a".to_string(), "b".to_string()]);
    manager.load_model("c", 10).unwrap();
    assert_eq!(manager.get_loaded_models(), vec!["c".to_string(), "a".to_string()]);
    assert!(!manager.is_model_loaded("b"));
    // The model the full cache let go gives its VRAM back.
    assert_eq!(manager.get_vram_usage_mb(), 20);
}

#[test]
fn the_least_recently_used_model_makes_room() {
    let mut manager = WarmSwapManager::new(4096, 3).unwrap();
    assert_eq!(manager.load_model("a", 3000).unwrap(), true);
    assert_eq!(manager.load_model("b", 2000).unwrap(), true);
    assert_eq!(manager.get_vram_usage_mb(), 2000);
    assert!(!manager.is_model_loaded("a"));
    assert!(manager.is_model_loaded("b"));
    let history = manager.get_swap_history(10);
    assert_eq!(history.len(), 3);
    assert_eq!((history[0].action, history[0].model_id.as_str()), (SwapAction::Load, "b"));
    assert_eq!((history[1].action, history[1].model_id.as_str()), (SwapAction::Unload, "a"));
    assert_eq!((history[2].action, history[2].model_id.as_str()), (SwapAction::Load, "a"));
}

#[test]
fn a_model_that_does_not_fit_even_after_eviction_is_refused() {
    let mut manager = WarmSwapManager::new(1000, 3).unwrap();
    manager.load_model("a", 600).unwrap();
    let err = manager.load_model("b", 1200).unwrap_err();
    assert!(matches!(err, OrchestratorError::MemoryError(ref m) if m == "Cannot load model b: insufficient VRAM"));
    assert_eq!(err.message(), "Memory error: Cannot load model b: insufficient VRAM");
    assert!(!manager.is_model_loaded("a"));
    assert!(!manager.is_model_loaded("b"));
    assert_eq!(manager.get_vram_usage_mb(), 0);
    let history = manager.get_swap_history(10);
    assert_eq!(history[0].action, SwapAction::Unload);
    assert_eq!(history[0].model_id, "a");
    let mut empty = WarmSwapManager::new(1000, 3).unwrap();
    assert!(empty.load_model("huge", 2000).is_err());
    assert!(empty.get_swap_history(10).is_empty());
}

#[test]
fn usage_is_the_sum_of_the_resident_models() {
    let mut manager = WarmSwapManager::new(1000, 2).unwrap();
    manager.load_model("a", 300).unwrap();
    manager.load_model("b", 400).unwrap();
    assert_eq!(manager.get_vram_usage_mb(), 700);
    manager.load_model("c", 100).unwrap(); // the full cache lets "a" go
    assert_eq!(manager.get_vram_usage_mb(), 500);
    manager.load_model("d", 800).unwrap(); // "b" is unloaded to make room
    assert_eq!(manager.get_vram_usage_mb(), 900);
    assert_eq!(manager.get_loaded_models(), vec!["d".to_string(), "c".to_string()]);
}

#[test]
fn zero_capacity_means_three() {
    let mut manager = WarmSwapManager::new(100_000, 0).unwrap();
    for id in ["a", "b", "c", "d"] {
        manager.load_model(id, 1).unwrap();
    }
    assert_eq!(manager.get_loaded_models().len(), 3);
}

#[test]
fn history_keeps_the_latest_thousand_events() {
    let mut manager = WarmSwapManager::new(100_000, 3).unwrap();
    manager.load_model("a", 1).unwrap();
    for _ in 0..1100 {
        manager.load_model("a", 1).unwrap();
    }
    let history = manager.get_swap_history(5000);
    assert_eq!(history.len(), 1000);
    assert!(history.iter().all(|e| e.action == SwapAction::Reuse));
}

#[test]
fn clearing_unloads_everything() {
    let mut manager = WarmSwapManager::new(4096, 3).unwrap();
    manager.load_model("a", 1000).unwrap();
    manager.clear();
    assert_eq!(manager.get_vram_usage_mb(), 0);
    assert!(manager.get_loaded_models().is_empty());
    assert_eq!(manager.get_total_vram_mb(), 4096);
}

#[test]
fn test_prompt_hashing() {
    let hash1 = SemanticCache::hash_prompt("test prompt");
    let hash2 = SemanticCache::hash_prompt("test prompt");
    assert_eq!(hash1, hash2);

    let hash3 = SemanticCache::hash_prompt("different prompt");
    assert_ne!(hash1, hash3);
}

#[test]
fn prompt_hash_is_sha256_in_lowercase_hex() {
    assert_eq!(
        SemanticCache::hash_prompt("abc"),
        "ba7816bf8f01cfea414140de5dae2223b00361a396177a9cb410ff61f20015ad"
    );
    let h = SemanticCache::hash_prompt("");
    assert_eq!(h, "e3b0c44298fc1c149afbf4c8996fb92427ae41e4649b934ca495991b7852b855");
    assert_eq!(h.len(), 64);
    assert!(h.chars().all(|c| c.is_ascii_hexdigit() && !c.is_ascii_uppercase()));
}

#[test]
fn test_cache_storage_and_retrieval() {
    let mut cache = SemanticCache::new(100, 920);
    let chain = CachedLogicChain {
        id: "test-chain".to_string(),
        prompt_hash: SemanticCache::hash_prompt("test"),
        task_type: "logic".to_string(),
        reasoning_steps: vec!["step1".to_string()],
        final_answer: "answer".to_string(),
        confidence: 950,
        created_at: chrono::Utc::now().timestamp_millis(),
        hit_count: 0,
    };

    cache.store(chain.clone()).unwrap();
    let retrieved = cache.retrieve(&chain.prompt_hash);
    assert!(retrieved.is_some());
}

#[test]
fn retrieval_counts_hits() {
    let mut cache = SemanticCache::new(10, 920);
    let c = chain("id", "p", 5, 0, 900);
    cache.store(c.clone()).unwrap();
    assert_eq!(cache.retrieve(&c.prompt_hash).unwrap().hit_count, 1);
    assert_eq!(cache.retrieve(&c.prompt_hash).unwrap().hit_count, 2);
    assert!(cache.retrieve("missing").is_none());
    assert_eq!(cache.len(), 1);
}

#[test]
fn a_full_cache_evicts_the_oldest_chain() {
    let mut cache = SemanticCache::new(2, 920);
    let a = chain("a", "pa", 30, 0, 900);
    let b = chain("b", "pb", 10, 0, 900);
    let c = chain("c", "pc", 20, 0, 900);
    cache.store(a.clone()).unwrap();
    cache.store(b.clone()).unwrap();
    cache.store(c.clone()).unwrap();
    assert_eq!(cache.len(), 2);
    assert!(cache.retrieve(&b.prompt_hash).is_none());
    assert!(cache.retrieve(&a.prompt_hash).is_some());
    assert!(cache.retrieve(&c.prompt_hash).is_some());
    cache.evict_lru();
    assert_eq!(cache.len(), 1);
    assert!(cache.retrieve(&a.prompt_hash).is_some());
    cache.clear();
    assert!(cache.is_empty());
    cache.evict_lru();
    assert!(cache.is_empty());
}

#[test]
fn similar_chains_by_word_overlap_most_hit_first() {
    let mut cache = SemanticCache::new(10, 500);
    cache.store(chain("sort a list quickly", "p1", 1, 3, 900)).unwrap();
    cache.store(chain("sort a list", "p2", 2, 7, 900)).unwrap();
    cache.store(chain("paint a house", "p3", 3, 9, 900)).unwrap();
    // "sort a list": 3 shared of 3 → 1.0 and 3 of 4 → 0.75 pass; "paint a house" 1 of 5 fails.
    let found = cache.find_similar("sort a list");
    let ids: Vec<&str> = found.iter().map(|c| c.id.as_str()).collect();
    assert_eq!(ids, vec!["sort a list", "sort a list quickly"]);
    // A threshold of 0.92 keeps only the exact match.
    let mut strict = SemanticCache::new(10, 920);
    strict.store(chain("sort a list quickly", "p1", 1, 3, 900)).unwrap();
    strict.store(chain("sort a list", "p2", 2, 7, 900)).unwrap();
    let found = strict.find_similar("sort a list");
    assert_eq!(found.len(), 1);
    assert_eq!(found[0].id, "sort a list");
    // No words on either side: similarity 0, below any positive threshold.
    assert!(strict.find_similar("   ").is_empty());
}

#[test]
fn stats_sum_hits_and_confidences() {
    let mut cache = SemanticCache::new(10, 920);
    cache.store(chain("a", "pa", 1, 2, 900)).unwrap();
    cache.store(chain("b", "pb", 2, 5, 700)).unwrap();
    let stats = cache.get_stats();
    assert_eq!(stats.total_entries, 2);
    assert_eq!(stats.max_size, 10);
    assert_eq!(stats.total_hits, 7);
    assert_eq!(stats.total_confidence, 1600);
    let empty = SemanticCache::default().get_stats();
    assert_eq!(empty.total_entries, 0);
    assert_eq!(empty.max_size, 1000);
    assert_eq!(empty.total_confidence, 0);
}

#[test]
fn old_chains_are_evicted_by_age() {
    let now = chrono::Utc::now().timestamp_millis();
    let mut cache = SemanticCache::new(10, 920);
    cache.store(chain("old", "po", now - 7_200_000, 0, 900)).unwrap();
    cache.store(chain("new", "pn", now + 60_000, 0, 900)).unwrap();
    cache.evict_old_entries(3600);
    assert_eq!(cache.len(), 1);
    assert!(cache.retrieve(&SemanticCache::hash_prompt("pn")).is_some());
}

#[test]
fn chains_are_evicted_by_age_from_a_given_time() {
    let mut cache = SemanticCache::new(10, 920);
    cache.store(chain("a", "pa", 1_000, 0, 900)).unwrap();
    cache.store(chain("b", "pb", 5_000, 0, 900)).unwrap();
    cache.store(chain("c", "pc", 5_001, 0, 900)).unwrap();
    // Now is 10 s; an age of 5 s keeps what was created after 5 000 ms.
    cache.evict_created_before(10_000, 5);
    assert_eq!(cache.len(), 1);
    assert!(cache.retrieve(&SemanticCache::hash_prompt("pc")).is_some());
    cache.evict_created_before(0, 0);
    assert_eq!(cache.len(), 1);
    cache.evict_created_before(10_000, 0);
    assert!(cache.is_empty());
}

#[test]
fn test_memory_manager_creation() {
    let manager = MemoryManager::new(4096, 3, 920).unwrap();
    assert_eq!(manager.max_vram_mb(), 4096);
    assert!(manager.is_healthy());
}

#[test]
fn memory_manager_loads_and_reports_health() {
    let mut manager = MemoryManager::new(1000, 3, 920).unwrap();
    assert!(manager.ensure_model_available("a", 940).is_ok());
    assert_eq!(manager.get_vram_usage_mb(), 940);
    assert!(manager.is_healthy());
    assert_eq!(manager.get_loaded_models(), vec!["a".to_string()]);
    assert!(manager.ensure_model_available("b", 100).is_ok());
    assert_eq!(manager.get_vram_usage_mb(), 100);
    assert_eq!(manager.get_loaded_models(), vec!["b".to_string()]);
    let err = manager.ensure_model_available("c", 1001).unwrap_err();
    assert!(matches!(err, OrchestratorError::MemoryError(_)));
    let mut full = MemoryManager::new(1000, 3, 920).unwrap();
    full.ensure_model_available("a", 950).unwrap();
    assert!(!full.is_healthy());
    let none = MemoryManager::new(0, 3, 920).unwrap();
    assert!(!none.is_healthy());
    assert_eq!(manager.get_semantic_cache().len(), 0);
    assert_eq!(manager.get_total_vram_mb(), 1000);
    manager.get_semantic_cache_mut().store(chain("x", "px", 1, 0, 900)).unwrap();
    assert_eq!(manager.get_semantic_cache().len(), 1);
    assert!(manager.get_warm_swap().is_model_loaded("a") == false);
}
