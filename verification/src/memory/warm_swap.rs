use vstd::prelude::*;
use lru::LruCache;
use crate::base::clock::current_time_ms;
use crate::base::error::{concat3, OrchestratorError, Result};

verus! {

/// `lru::LruCache`, carried through verified code as an opaque value; what it holds is named
/// below.
#[verifier::external_type_specification]
#[verifier::external_body]
#[verifier::reject_recursive_types(K)]
#[verifier::reject_recursive_types(V)]
#[verifier::reject_recursive_types(S)]
pub struct ExLruCache<K, V, S>(lru::LruCache<K, V, S>);

/// The hasher `lru::LruCache` uses by default, carried as an opaque value.
#[verifier::external_type_specification]
#[verifier::external_body]
pub struct ExLruDefaultHasher(lru::DefaultHasher);

/// The weights of a model held in VRAM; times are milliseconds since the Unix epoch.
#[derive(Debug, Clone)]
pub struct ModelWeights {
    pub model_id: String,
    pub size_mb: usize,
    pub loaded_at: u64,
    pub last_accessed: u64,
}

/// The abstract value of `ModelWeights`.
pub struct ModelWeightsView {
    pub model_id: Seq<char>,
    pub size_mb: usize,
    pub loaded_at: u64,
    pub last_accessed: u64,
}

impl View for ModelWeights {
    type V = ModelWeightsView;

    open spec fn view(&self) -> ModelWeightsView {
        ModelWeightsView {
            model_id: self.model_id@,
            size_mb: self.size_mb,
            loaded_at: self.loaded_at,
            last_accessed: self.last_accessed,
        }
    }
}

/// An entry of the LRU cache: model id and weights.
pub type LruEntry = (Seq<char>, ModelWeightsView);

/// What an LRU cache of weights holds, from the least to the most recently used entry.
pub uninterp spec fn lru_entries(c: LruCache<String, ModelWeights>) -> Seq<LruEntry>;

/// The capacity an LRU cache of weights was made with.
pub uninterp spec fn lru_capacity(c: LruCache<String, ModelWeights>) -> nat;

/// The position of the entry with key `k`, or -1.
pub open spec fn lru_index(s: Seq<LruEntry>, k: Seq<char>) -> int
    decreases s.len(),
{
    if s.len() == 0 {
        -1
    } else if s.last().0 == k && lru_index(s.drop_last(), k) < 0 {
        s.len() - 1
    } else {
        lru_index(s.drop_last(), k)
    }
}

/// The entries after `put(k, v)` into a cache of capacity `cap` that held `s`: an entry
/// with the same key is replaced and becomes the most recent; otherwise, when the cache is
/// full, the least recent entry makes room.
pub open spec fn lru_put(s: Seq<LruEntry>, cap: nat, k: Seq<char>, v: ModelWeightsView) -> Seq<
    LruEntry,
> {
    let i = lru_index(s, k);
    if i >= 0 {
        s.remove(i).push((k, v))
    } else if s.len() >= cap {
        s.drop_first().push((k, v))
    } else {
        s.push((k, v))
    }
}

/// The entries after `get(k)`: the entry with key `k`, if any, becomes the most recent.
pub open spec fn lru_touch(s: Seq<LruEntry>, k: Seq<char>) -> Seq<LruEntry> {
    let i = lru_index(s, k);
    if i >= 0 {
        s.remove(i).push(s[i])
    } else {
        s
    }
}

/// `LruCache::new` with capacity `cap`.
#[verifier::external_body]
fn lru_new(cap: usize) -> (c: LruCache<String, ModelWeights>)
    requires
        cap > 0,
    ensures
        lru_entries(c) == Seq::<LruEntry>::empty(),
        lru_capacity(c) == cap,
{
    LruCache::new(std::num::NonZeroUsize::new(cap).unwrap())
}

/// `LruCache::contains`: whether the key is cached; the order is not touched.
#[verifier::external_body]
fn lru_contains(c: &LruCache<String, ModelWeights>, k: &str) -> (r: bool)
    ensures
        r == (lru_index(lru_entries(*c), k@) >= 0),
{
    c.contains(k)
}

/// `LruCache::get`, the value cloned out; the entry becomes the most recent.
#[verifier::external_body]
fn lru_get(c: &mut LruCache<String, ModelWeights>, k: &str) -> (r: Option<ModelWeights>)
    ensures
        lru_entries(*final(c)) == lru_touch(lru_entries(*old(c)), k@),
        lru_capacity(*final(c)) == lru_capacity(*old(c)),
        match r {
            Some(v) => lru_index(lru_entries(*old(c)), k@) >= 0 && v@ == lru_entries(*old(c))[lru_index(
                lru_entries(*old(c)),
                k@,
            )].1,
            None => lru_index(lru_entries(*old(c)), k@) < 0,
        },
{
    c.get(k).cloned()
}

/// `LruCache::push`: as `put`, and hands back what left the cache: the entry replaced under
/// the same key, or, when the cache was full, the least recent entry.
#[verifier::external_body]
fn lru_push(c: &mut LruCache<String, ModelWeights>, k: String, v: ModelWeights) -> (r: Option<
    (String, ModelWeights),
>)
    ensures
        lru_entries(*final(c)) == lru_put(lru_entries(*old(c)), lru_capacity(*old(c)), k@, v@),
        lru_capacity(*final(c)) == lru_capacity(*old(c)),
        match r {
            Some(e) => if lru_index(lru_entries(*old(c)), k@) >= 0 {
                e.0@ == k@ && e.1@ == lru_entries(*old(c))[lru_index(lru_entries(*old(c)), k@)].1
            } else {
                lru_entries(*old(c)).len() >= lru_capacity(*old(c)) && (e.0@, e.1@) == lru_entries(
                    *old(c),
                )[0]
            },
            None => lru_index(lru_entries(*old(c)), k@) < 0 && lru_entries(*old(c)).len()
                < lru_capacity(*old(c)),
        },
{
    c.push(k, v)
}

/// `LruCache::pop_lru`: the least recent entry, removed.
#[verifier::external_body]
fn lru_pop(c: &mut LruCache<String, ModelWeights>) -> (r: Option<(String, ModelWeights)>)
    ensures
        lru_capacity(*final(c)) == lru_capacity(*old(c)),
        match r {
            Some(e) => lru_entries(*old(c)).len() > 0 && (e.0@, e.1@) == lru_entries(*old(c))[0]
                && lru_entries(*final(c)) == lru_entries(*old(c)).drop_first(),
            None => lru_entries(*old(c)).len() == 0 && lru_entries(*final(c)) == lru_entries(
                *old(c),
            ),
        },
{
    c.pop_lru()
}

/// `LruCache::iter`, keys cloned out, from the most to the least recent.
#[verifier::external_body]
fn lru_keys(c: &LruCache<String, ModelWeights>) -> (r: Vec<String>)
    ensures
        r@.len() == lru_entries(*c).len(),
        forall|i: int|
            0 <= i < r@.len() ==> #[trigger] r@[i]@ == lru_entries(*c)[lru_entries(*c).len() - 1 - i].0,
{
    c.iter().map(|(k, _)| k.clone()).collect()
}

/// `LruCache::clear`.
#[verifier::external_body]
fn lru_clear(c: &mut LruCache<String, ModelWeights>)
    ensures
        lru_entries(*final(c)) == Seq::<LruEntry>::empty(),
        lru_capacity(*final(c)) == lru_capacity(*old(c)),
{
    c.clear();
}

} // verus!

verus! {

/// What happened to a model's weights.
#[derive(Debug, Clone, Copy, PartialEq, Eq, Structural)]
pub enum SwapAction {
    Load,
    Unload,
    Reuse,
}

/// A swap of model weights, for monitoring; times in milliseconds.
#[derive(Debug, Clone)]
pub struct SwapEvent {
    pub timestamp: u64,
    pub model_id: String,
    pub action: SwapAction,
    pub latency_ms: u64,
}

/// The abstract value of a `SwapEvent`.
pub struct SwapEventView {
    pub timestamp: u64,
    pub model_id: Seq<char>,
    pub action: SwapAction,
    pub latency_ms: u64,
}

impl View for SwapEvent {
    type V = SwapEventView;

    open spec fn view(&self) -> SwapEventView {
        SwapEventView {
            timestamp: self.timestamp,
            model_id: self.model_id@,
            action: self.action,
            latency_ms: self.latency_ms,
        }
    }
}

impl SwapEvent {
    /// A field-by-field copy.
    pub fn copied(&self) -> (r: Self)
        ensures
            r@ == self@,
    {
        SwapEvent {
            timestamp: self.timestamp,
            model_id: self.model_id.clone(),
            action: self.action,
            latency_ms: self.latency_ms,
        }
    }
}

/// How many swap events are kept.
pub const SWAP_HISTORY_LIMIT: usize = 1000;

/// The history after appending `e`, the oldest event dropped beyond the limit.
pub open spec fn push_event(h: Seq<SwapEventView>, e: SwapEventView) -> Seq<SwapEventView> {
    if h.len() + 1 > SWAP_HISTORY_LIMIT {
        h.push(e).drop_first()
    } else {
        h.push(e)
    }
}

/// `after` is `before` with one more event for `id` and `action`, at some time and latency.
pub open spec fn event_recorded(
    before: Seq<SwapEventView>,
    after: Seq<SwapEventView>,
    id: Seq<char>,
    action: SwapAction,
) -> bool {
    &&& after.len() > 0
    &&& after == push_event(
        before,
        SwapEventView {
            timestamp: after.last().timestamp,
            model_id: id,
            action,
            latency_ms: after.last().latency_ms,
        },
    )
}

/// The MB of all the weights of some entries.
pub open spec fn size_sum(s: Seq<LruEntry>) -> nat
    decreases s.len(),
{
    if s.len() == 0 {
        0
    } else {
        size_sum(s.drop_last()) + s.last().1.size_mb as nat
    }
}

/// An entry pushed at the end adds its size.
pub proof fn lemma_size_sum_push(s: Seq<LruEntry>, x: LruEntry)
    ensures
        size_sum(s.push(x)) == size_sum(s) + x.1.size_mb,
{
    assert(s.push(x).drop_last() =~= s);
}

/// Removing an entry takes its size away.
pub proof fn lemma_size_sum_remove(s: Seq<LruEntry>, i: int)
    requires
        0 <= i < s.len(),
    ensures
        size_sum(s) == size_sum(s.remove(i)) + s[i].1.size_mb,
    decreases s.len(),
{
    if i == s.len() - 1 {
        assert(s.remove(i) =~= s.drop_last());
    } else {
        lemma_size_sum_remove(s.drop_last(), i);
        assert(s.remove(i).drop_last() =~= s.drop_last().remove(i));
        assert(s.remove(i).last() == s.last());
    }
}

/// Dropping the first entry takes its size away.
pub proof fn lemma_size_sum_drop_first(s: Seq<LruEntry>)
    requires
        s.len() > 0,
    ensures
        size_sum(s) == size_sum(s.drop_first()) + s[0].1.size_mb,
{
    lemma_size_sum_remove(s, 0);
    assert(s.remove(0) =~= s.drop_first());
}

/// No two entries share a key.
pub open spec fn keys_unique(s: Seq<LruEntry>) -> bool {
    forall|i: int, j: int| 0 <= i < j < s.len() ==> s[i].0 != s[j].0
}

/// `lru_index` finds the first entry with the key, or -1 when there is none.
pub proof fn lemma_lru_index(s: Seq<LruEntry>, k: Seq<char>)
    ensures
        -1 <= lru_index(s, k) < s.len(),
        lru_index(s, k) >= 0 ==> s[lru_index(s, k)].0 == k,
        lru_index(s, k) < 0 ==> forall|i: int| 0 <= i < s.len() ==> s[i].0 != k,
    decreases s.len(),
{
    if s.len() > 0 {
        lemma_lru_index(s.drop_last(), k);
        assert forall|i: int| 0 <= i < s.len() - 1 implies s[i] == s.drop_last()[i] by {}
    }
}

/// Putting into, touching or dropping from a cache keeps its keys unique.
pub proof fn lemma_unique_preserved(s: Seq<LruEntry>, cap: nat, k: Seq<char>, v: ModelWeightsView)
    requires
        keys_unique(s),
        cap > 0,
    ensures
        keys_unique(lru_put(s, cap, k, v)),
        keys_unique(lru_touch(s, k)),
        s.len() > 0 ==> keys_unique(s.drop_first()),
        s.len() <= cap ==> lru_put(s, cap, k, v).len() <= cap,
        lru_touch(s, k).len() == s.len(),
{
    lemma_lru_index(s, k);
    let i = lru_index(s, k);
    if i >= 0 {
        let t = s.remove(i);
        assert forall|a: int, b: int| 0 <= a < b < t.len() implies t[a].0 != t[b].0 by {
            let a0 = if a < i { a } else { a + 1 };
            let b0 = if b < i { b } else { b + 1 };
            assert(t[a] == s[a0]);
            assert(t[b] == s[b0]);
        }
        assert forall|a: int| 0 <= a < t.len() implies t[a].0 != k by {
            let a0 = if a < i { a } else { a + 1 };
            assert(t[a] == s[a0]);
        }
        assert(keys_unique(t.push((k, v))));
        assert(keys_unique(t.push(s[i])));
    } else {
        assert(keys_unique(s.push((k, v))));
        if s.len() > 0 {
            let t = s.drop_first();
            assert forall|a: int, b: int| 0 <= a < b < t.len() implies t[a].0 != t[b].0 by {
                assert(t[a] == s[a + 1]);
                assert(t[b] == s[b + 1]);
            }
            assert forall|a: int| 0 <= a < t.len() implies t[a].0 != k by {
                assert(t[a] == s[a + 1]);
            }
            assert(keys_unique(t.push((k, v))));
        }
    }
    if s.len() > 0 {
        let t = s.drop_first();
        assert forall|a: int, b: int| 0 <= a < b < t.len() implies t[a].0 != t[b].0 by {
            assert(t[a] == s[a + 1]);
            assert(t[b] == s[b + 1]);
        }
    }
}

/// The weights a load puts in the cache: the model's id and size, with the times at which it
/// was loaded and used.
pub open spec fn loaded_weights(after: WarmSwapManager, model_id: Seq<char>, size_mb: usize) -> ModelWeightsView {
    ModelWeightsView {
        model_id,
        size_mb,
        loaded_at: after.entries().last().1.loaded_at,
        last_accessed: after.entries().last().1.last_accessed,
    }
}

/// What loading `model_id` of `size_mb` MB does. A cached model is reused and becomes the
/// most recently used. A model that fits in the free VRAM is cached and counted (where the
/// cache is full, its least recently used entry leaves and its VRAM is given back). A model
/// that does not fit first has the least recently used model unloaded, its VRAM given back;
/// it is then loaded where it fits, and refused where it still does not.
pub open spec fn load_effect(
    before: WarmSwapManager,
    after: WarmSwapManager,
    model_id: Seq<char>,
    size_mb: usize,
    r: Result<bool>,
) -> bool {
    let e = before.entries();
    let i = lru_index(e, model_id);
    let w = loaded_weights(after, model_id, size_mb);
    if i >= 0 {
        &&& r == Ok::<bool, OrchestratorError>(true)
        &&& after.usage() == before.usage()
        &&& after.entries() == e.remove(i).push(
            (
                model_id,
                ModelWeightsView {
                    last_accessed: after.entries().last().1.last_accessed,
                    ..e[i].1
                },
            ),
        )
        &&& event_recorded(before.history(), after.history(), model_id, SwapAction::Reuse)
    } else if before.usage() + size_mb <= before.total() {
        &&& r == Ok::<bool, OrchestratorError>(true)
        &&& after.entries() == lru_put(e, before.capacity(), model_id, w)
        &&& after.usage() == if e.len() >= before.capacity() {
            before.usage() - e[0].1.size_mb + size_mb
        } else {
            before.usage() + size_mb
        }
        &&& event_recorded(before.history(), after.history(), model_id, SwapAction::Load)
    } else if e.len() > 0 && before.usage() - e[0].1.size_mb + size_mb <= before.total() {
        &&& r == Ok::<bool, OrchestratorError>(true)
        &&& after.entries() == e.drop_first().push((model_id, w))
        &&& after.usage() == before.usage() - e[0].1.size_mb + size_mb
        &&& exists|mid: Seq<SwapEventView>|
            #[trigger] event_recorded(before.history(), mid, e[0].0, SwapAction::Unload)
                && event_recorded(mid, after.history(), model_id, SwapAction::Load)
    } else {
        &&& r matches Err(OrchestratorError::MemoryError(m))
        &&& m@ == "Cannot load model "@ + model_id + ": insufficient VRAM"@
        &&& if e.len() > 0 {
            &&& after.entries() == e.drop_first()
            &&& after.usage() == before.usage() - e[0].1.size_mb
            &&& event_recorded(before.history(), after.history(), e[0].0, SwapAction::Unload)
        } else {
            &&& after.entries() == e
            &&& after.usage() == before.usage()
            &&& after.history() == before.history()
        }
    }
}

/// A model that fits in the free VRAM, or fits once the least recently used model is
/// unloaded, is loaded.
pub proof fn law_load_succeeds_when_room_can_be_made(
    before: WarmSwapManager,
    after: WarmSwapManager,
    model_id: Seq<char>,
    size_mb: usize,
    r: Result<bool>,
)
    requires
        before.wf(),
        before.usage() + size_mb <= before.total() || (before.entries().len() > 0
            && before.usage() - before.entries()[0].1.size_mb + size_mb <= before.total()),
        load_effect(before, after, model_id, size_mb, r),
    ensures
        r == Ok::<bool, OrchestratorError>(true),
{
}

/// A model whose load succeeded is resident and the most recently used: it comes first
/// among the loaded models.
pub proof fn law_loaded_model_is_most_recent(
    before: WarmSwapManager,
    after: WarmSwapManager,
    model_id: Seq<char>,
    size_mb: usize,
)
    requires
        before.wf(),
        load_effect(before, after, model_id, size_mb, Ok(true)),
    ensures
        after.entries().len() > 0,
        after.entries().last().0 == model_id,
        after.holds(model_id),
{
    let n = after.entries().len() - 1;
    assert(after.entries()[n].0 == model_id);
}

/// A model whose load was refused is not resident, and the VRAM in use has not grown.
pub proof fn law_refused_model_is_not_resident(
    before: WarmSwapManager,
    after: WarmSwapManager,
    model_id: Seq<char>,
    size_mb: usize,
    e: OrchestratorError,
)
    requires
        before.wf(),
        load_effect(before, after, model_id, size_mb, Err(e)),
    ensures
        !after.holds(model_id),
        after.usage() <= before.usage(),
{
    let b = before.entries();
    lemma_lru_index(b, model_id);
    if after.holds(model_id) {
        let i = choose|i: int| 0 <= i < after.entries().len() && #[trigger] after.entries()[i].0 == model_id;
        if b.len() > 0 {
            assert(after.entries()[i] == b[i + 1]);
        } else {
            assert(after.entries() == b);
        }
    }
}

/// Loading a resident model again always succeeds and takes no more VRAM.
pub proof fn law_reload_takes_no_vram(
    before: WarmSwapManager,
    after: WarmSwapManager,
    model_id: Seq<char>,
    size_mb: usize,
    r: Result<bool>,
)
    requires
        before.wf(),
        before.holds(model_id),
        load_effect(before, after, model_id, size_mb, r),
    ensures
        r == Ok::<bool, OrchestratorError>(true),
        after.usage() == before.usage(),
        after.entries().len() == before.entries().len(),
{
    lemma_lru_index(before.entries(), model_id);
    let i = choose|i: int| 0 <= i < before.entries().len() && #[trigger] before.entries()[i].0 == model_id;
    assert(before.entries()[i].0 == model_id);
}

/// Weights of recently used models kept in VRAM, evicting the least recently used.
pub struct WarmSwapManager {
    cache: LruCache<String, ModelWeights>,
    total_vram_mb: usize,
    currently_loaded_mb: usize,
    swap_history: Vec<SwapEvent>,
}

impl WarmSwapManager {
    /// The cached weights, least recently used first.
    pub closed spec fn entries(&self) -> Seq<LruEntry> {
        lru_entries(self.cache)
    }

    /// How many models the cache holds at most.
    pub closed spec fn capacity(&self) -> nat {
        lru_capacity(self.cache)
    }

    /// The VRAM available, in MB.
    pub closed spec fn total(&self) -> nat {
        self.total_vram_mb as nat
    }

    /// The VRAM accounted as used, in MB.
    pub closed spec fn usage(&self) -> nat {
        self.currently_loaded_mb as nat
    }

    /// The recorded swap events, oldest first.
    pub closed spec fn history(&self) -> Seq<SwapEventView> {
        self.swap_history@.map_values(|e: SwapEvent| e@)
    }

    /// Well-formed: unique keys within capacity, the VRAM in use the sum of the cached
    /// weights and within the total, a bounded history.
    pub open spec fn wf(&self) -> bool {
        &&& keys_unique(self.entries())
        &&& self.usage() == size_sum(self.entries())
        &&& self.capacity() > 0
        &&& self.entries().len() <= self.capacity()
        &&& self.usage() <= self.total()
        &&& self.history().len() <= SWAP_HISTORY_LIMIT
    }

    /// Whether a model's weights are cached.
    pub open spec fn holds(&self, id: Seq<char>) -> bool {
        exists|i: int| 0 <= i < self.entries().len() && #[trigger] self.entries()[i].0 == id
    }

    /// A manager of `total_vram_mb` MB holding at most `max_cache_size` models (3 when 0 is
    /// given).
    pub fn new(total_vram_mb: usize, max_cache_size: usize) -> (r: Result<Self>)
        ensures
            r matches Ok(m) && m.wf() && m.entries() == Seq::<LruEntry>::empty() && m.capacity()
                == (if max_cache_size == 0 {
                3
            } else {
                max_cache_size
            }) && m.total() == total_vram_mb && m.usage() == 0 && m.history() == Seq::<
                SwapEventView,
            >::empty(),
    {
        let cache_size = if max_cache_size == 0 {
            3
        } else {
            max_cache_size
        };
        let m = WarmSwapManager {
            cache: lru_new(cache_size),
            total_vram_mb,
            currently_loaded_mb: 0,
            swap_history: Vec::new(),
        };
        assert(m.history() =~= Seq::<SwapEventView>::empty());
        Ok(m)
    }

    /// Appends an event, keeping at most the latest `SWAP_HISTORY_LIMIT`.
    fn record_swap_event(&mut self, model_id: String, action: SwapAction, latency_ms: u64)
        requires
            old(self).wf(),
        ensures
            final(self).wf(),
            final(self).entries() == old(self).entries(),
            final(self).capacity() == old(self).capacity(),
            final(self).total() == old(self).total(),
            final(self).usage() == old(self).usage(),
            event_recorded(old(self).history(), final(self).history(), model_id@, action),
            final(self).history().last().latency_ms == latency_ms,
    {
        let event = SwapEvent { timestamp: current_time_ms(), model_id, action, latency_ms };
        let ghost ev = event@;
        let ghost before = self.history();
        self.swap_history.push(event);
        assert(self.history() =~= before.push(ev));
        if self.swap_history.len() > SWAP_HISTORY_LIMIT {
            self.swap_history.remove(0);
            assert(self.history() =~= before.push(ev).drop_first());
        }
    }

    /// Makes a model's weights resident (see `load_effect`): reused where cached; otherwise
    /// loaded where it fits, after unloading the least recently used model where it does not;
    /// refused where it still does not fit.
    pub fn load_model(&mut self, model_id: &str, size_mb: usize) -> (r: Result<bool>)
        requires
            old(self).wf(),
        ensures
            final(self).wf(),
            final(self).capacity() == old(self).capacity(),
            final(self).total() == old(self).total(),
            load_effect(*old(self), *final(self), model_id@, size_mb, r),
    {
        let start_time = current_time_ms();
        let ghost e = self.entries();
        let ghost h0 = self.history();
        proof {
            lemma_lru_index(e, model_id@);
            lemma_unique_preserved(e, self.capacity(), model_id@, ModelWeightsView {
                model_id: model_id@, size_mb, loaded_at: 0, last_accessed: 0 });
        }
        if lru_contains(&self.cache, model_id) {
            let ghost i = lru_index(e, model_id@);
            match lru_get(&mut self.cache, model_id) {
                Some(mut weights) => {
                    weights.last_accessed = current_time_ms();
                    let ghost w = weights@;
                    proof {
                        lemma_lru_index(lru_touch(e, model_id@), model_id@);
                        assert(lru_touch(e, model_id@).last().0 == model_id@);
                        assert(lru_index(lru_touch(e, model_id@), model_id@) == e.len() - 1);
                        assert(lru_touch(e, model_id@).remove(e.len() - 1) =~= e.remove(i));
                    }
                    let _ = lru_push(&mut self.cache, String::from_str(model_id), weights);
                    proof {
                        assert(self.entries() == e.remove(i).push((model_id@, w)));
                        lemma_unique_preserved(e, self.capacity(), model_id@, w);
                        lemma_size_sum_remove(e, i);
                        lemma_size_sum_push(e.remove(i), (model_id@, w));
                    }
                },
                None => {},
            }
            let latency = current_time_ms().wrapping_sub(start_time);
            self.record_swap_event(String::from_str(model_id), SwapAction::Reuse, latency);
            return Ok(true);
        }
        let fits_now = size_mb <= self.total_vram_mb - self.currently_loaded_mb;
        if !fits_now {
            if let Some((evicted_id, evicted)) = lru_pop(&mut self.cache) {
                proof {
                    lemma_size_sum_drop_first(e);
                    lemma_lru_index(self.entries(), evicted_id@);
                    assert forall|a: int| 0 <= a < self.entries().len() implies self.entries()[a].0 != evicted_id@ by {
                        assert(self.entries()[a] == e[a + 1]);
                    }
                }
                self.currently_loaded_mb = self.currently_loaded_mb - evicted.size_mb;
                let latency = current_time_ms().wrapping_sub(start_time);
                self.record_swap_event(evicted_id, SwapAction::Unload, latency);
            }
        }
        let ghost e1 = self.entries();
        let ghost u1 = self.usage();
        let ghost h1 = self.history();
        if size_mb <= self.total_vram_mb - self.currently_loaded_mb {
            let weights = ModelWeights {
                model_id: String::from_str(model_id),
                size_mb,
                loaded_at: current_time_ms(),
                last_accessed: current_time_ms(),
            };
            let ghost w = weights@;
            proof {
                lemma_lru_index(e1, model_id@);
                assert(lru_index(e1, model_id@) < 0) by {
                    if !fits_now && e.len() > 0 {
                        assert forall|a: int| 0 <= a < e1.len() implies e1[a].0 != model_id@ by {
                            assert(e1[a] == e[a + 1]);
                        }
                    }
                }
                lemma_unique_preserved(e1, self.capacity(), model_id@, w);
                lemma_size_sum_push(e1, (model_id@, w));
                if e1.len() >= self.capacity() {
                    lemma_size_sum_drop_first(e1);
                    lemma_size_sum_push(e1.drop_first(), (model_id@, w));
                }
            }
            match lru_push(&mut self.cache, String::from_str(model_id), weights) {
                Some((_, dropped)) => {
                    self.currently_loaded_mb = self.currently_loaded_mb - dropped.size_mb;
                },
                None => {},
            }
            self.currently_loaded_mb = self.currently_loaded_mb + size_mb;
            let latency = current_time_ms().wrapping_sub(start_time);
            self.record_swap_event(String::from_str(model_id), SwapAction::Load, latency);
            proof {
                assert(self.entries().last() == (model_id@, w));
                if !fits_now {
                    assert(e.len() > 0);
                    assert(event_recorded(h0, h1, e[0].0, SwapAction::Unload));
                }
            }
            Ok(true)
        } else {
            Err(
                OrchestratorError::MemoryError(
                    concat3("Cannot load model ", model_id, ": insufficient VRAM"),
                ),
            )
        }
    }

    /// The VRAM accounted as used, in MB.
    pub fn get_vram_usage_mb(&self) -> (r: usize)
        ensures
            r == self.usage(),
    {
        self.currently_loaded_mb
    }

    /// The VRAM available, in MB.
    pub fn get_total_vram_mb(&self) -> (r: usize)
        ensures
            r == self.total(),
    {
        self.total_vram_mb
    }

    /// Whether a model's weights are cached.
    pub fn is_model_loaded(&self, model_id: &str) -> (r: bool)
        requires
            self.wf(),
        ensures
            r == self.holds(model_id@),
    {
        proof {
            lemma_lru_index(self.entries(), model_id@);
        }
        let r = lru_contains(&self.cache, model_id);
        proof {
            if r {
                assert(self.entries()[lru_index(self.entries(), model_id@)].0 == model_id@);
            }
        }
        r
    }

    /// The ids of the cached models, most recently used first.
    pub fn get_loaded_models(&self) -> (r: Vec<String>)
        ensures
            r@.len() == self.entries().len(),
            forall|i: int|
                0 <= i < r@.len() ==> #[trigger] r@[i]@ == self.entries()[self.entries().len() - 1 - i].0,
    {
        lru_keys(&self.cache)
    }

    /// Estimated time in milliseconds to swap in a model of some size: a millisecond per
    /// 500 MB, at least 10.
    pub fn estimate_swap_time(&self, model_size_mb: usize) -> (r: u64)
        ensures
            r == if model_size_mb / 500 > 10 {
                (model_size_mb / 500) as u64
            } else {
                10
            },
    {
        let t = model_size_mb as u64 / 500;
        if t > 10 {
            t
        } else {
            10
        }
    }

    /// The latest `limit` swap events, newest first.
    pub fn get_swap_history(&self, limit: usize) -> (r: Vec<SwapEvent>)
        ensures
            r@.len() == if limit < self.history().len() {
                limit as int
            } else {
                self.history().len() as int
            },
            forall|i: int|
                0 <= i < r@.len() ==> #[trigger] r@[i]@ == self.history()[self.history().len() - 1 - i],
    {
        let n = self.swap_history.len();
        let mut r: Vec<SwapEvent> = Vec::new();
        let mut i: usize = 0;
        while i < n && i < limit
            invariant
                n == self.swap_history@.len(),
                i <= n,
                i <= limit,
                r@.len() == i,
                forall|j: int| 0 <= j < i ==> #[trigger] r@[j]@ == self.history()[n - 1 - j],
            decreases n - i,
        {
            r.push(self.swap_history[n - 1 - i].copied());
            i = i + 1;
        }
        assert(self.history().len() == n);
        r
    }

    /// Unloads every model: the cache is emptied and no VRAM is counted as used.
    pub fn clear(&mut self)
        requires
            old(self).wf(),
        ensures
            final(self).wf(),
            final(self).entries() == Seq::<LruEntry>::empty(),
            final(self).usage() == 0,
            final(self).capacity() == old(self).capacity(),
            final(self).total() == old(self).total(),
            final(self).history() == old(self).history(),
    {
        lru_clear(&mut self.cache);
        self.currently_loaded_mb = 0;
    }
}

} // verus!
