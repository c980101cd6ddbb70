use vstd::prelude::*;
use crate::base::clock::current_time_ms;
use crate::base::error::{OrchestratorError, Result};
use crate::memory::semantic_cache::{no_chains, SemanticCache};
use crate::memory::warm_swap::{load_effect, LruEntry, SwapEventView, WarmSwapManager};

verus! {

/// The weights in VRAM and the cache of reasoning chains, side by side.
pub struct MemoryManager {
    warm_swap: WarmSwapManager,
    semantic_cache: SemanticCache,
    max_vram_mb: usize,
}

/// How many chains the semantic cache of a memory manager holds.
pub const SEMANTIC_CACHE_SIZE: usize = 1000;

/// Whether `used` MB out of `total` MB stays under 95 percent.
pub open spec fn under_95_percent(used: nat, total: nat) -> bool {
    used * 100 < total * 95
}

impl MemoryManager {
    /// The weights manager.
    pub closed spec fn swap(&self) -> WarmSwapManager {
        self.warm_swap
    }

    /// The semantic cache.
    pub closed spec fn cache(&self) -> SemanticCache {
        self.semantic_cache
    }

    /// The VRAM the manager was made with, in MB.
    pub closed spec fn max_vram(&self) -> usize {
        self.max_vram_mb
    }

    /// Well-formed: both parts are.
    pub open spec fn wf(&self) -> bool {
        &&& self.swap().wf()
        &&& self.cache().wf()
    }

    /// A manager of `max_vram_mb` MB whose weights cache holds `max_cache_size` models (3
    /// when 0 is given), with an empty semantic cache of `SEMANTIC_CACHE_SIZE` chains and
    /// the given similarity threshold (in thousandths).
    pub fn new(max_vram_mb: usize, max_cache_size: usize, cache_similarity_threshold: u32) -> (r:
        Result<Self>)
        ensures
            r matches Ok(m) && {
                &&& m.wf()
                &&& m.max_vram() == max_vram_mb
                &&& m.swap().total() == max_vram_mb
                &&& m.swap().usage() == 0
                &&& m.swap().entries() == Seq::<LruEntry>::empty()
                &&& m.swap().history() == Seq::<SwapEventView>::empty()
                &&& m.swap().capacity() == (if max_cache_size == 0 {
                    3
                } else {
                    max_cache_size
                })
                &&& m.cache()@ == no_chains()
                &&& m.cache().max_size() == SEMANTIC_CACHE_SIZE
                &&& m.cache().threshold() == cache_similarity_threshold
            },
    {
        let warm_swap = match WarmSwapManager::new(max_vram_mb, max_cache_size) {
            Ok(w) => w,
            Err(e) => return Err(e),
        };
        Ok(
            MemoryManager {
                warm_swap,
                semantic_cache: SemanticCache::new(SEMANTIC_CACHE_SIZE, cache_similarity_threshold),
                max_vram_mb,
            },
        )
    }

    /// Makes a model's weights resident (see `load_effect`), returning the milliseconds it
    /// took; a refused load is returned as its error.
    pub fn ensure_model_available(&mut self, model_id: &str, size_mb: usize) -> (r: Result<u64>)
        requires
            old(self).wf(),
        ensures
            final(self).wf(),
            final(self).cache() == old(self).cache(),
            final(self).max_vram() == old(self).max_vram(),
            final(self).swap().total() == old(self).swap().total(),
            final(self).swap().capacity() == old(self).swap().capacity(),
            load_effect(
                old(self).swap(),
                final(self).swap(),
                model_id@,
                size_mb,
                match r {
                    Ok(_) => Ok::<bool, OrchestratorError>(true),
                    Err(e) => Err(e),
                },
            ),
    {
        let start_time = current_time_ms();
        match self.warm_swap.load_model(model_id, size_mb) {
            Ok(_) => {},
            Err(e) => return Err(e),
        }
        let elapsed = current_time_ms().wrapping_sub(start_time);
        Ok(elapsed)
    }

    /// The VRAM the manager was made with, in MB.
    pub fn max_vram_mb(&self) -> (r: usize)
        ensures
            r == self.max_vram(),
    {
        self.max_vram_mb
    }

    /// The weights manager.
    pub fn get_warm_swap(&self) -> (r: &WarmSwapManager)
        ensures
            *r == self.swap(),
    {
        &self.warm_swap
    }

    /// The semantic cache.
    pub fn get_semantic_cache(&self) -> (r: &SemanticCache)
        ensures
            *r == self.cache(),
    {
        &self.semantic_cache
    }

    /// The semantic cache, to change it; the rest stays as it was.
    pub fn get_semantic_cache_mut(&mut self) -> (r: &mut SemanticCache)
        ensures
            *r == old(self).cache(),
            final(self).cache() == *final(r),
            final(self).swap() == old(self).swap(),
            final(self).max_vram() == old(self).max_vram(),
    {
        &mut self.semantic_cache
    }

    /// The VRAM accounted as used, in MB.
    pub fn get_vram_usage_mb(&self) -> (r: usize)
        ensures
            r == self.swap().usage(),
    {
        self.warm_swap.get_vram_usage_mb()
    }

    /// The VRAM available, in MB.
    pub fn get_total_vram_mb(&self) -> (r: usize)
        ensures
            r == self.swap().total(),
    {
        self.warm_swap.get_total_vram_mb()
    }

    /// The ids of the resident models, most recently used first.
    pub fn get_loaded_models(&self) -> (r: Vec<String>)
        ensures
            r@.len() == self.swap().entries().len(),
            forall|i: int|
                0 <= i < r@.len() ==> #[trigger] r@[i]@ == self.swap().entries()[self.swap().entries().len()
                    - 1 - i].0,
    {
        self.warm_swap.get_loaded_models()
    }

    /// Healthy while under 95 percent of the VRAM is in use (never with no VRAM at all).
    pub fn is_healthy(&self) -> (r: bool)
        ensures
            r == under_95_percent(self.swap().usage(), self.swap().total()),
    {
        let used = self.warm_swap.get_vram_usage_mb() as u128;
        let total = self.warm_swap.get_total_vram_mb() as u128;
        used * 100 < total * 95
    }
}

} // verus!
