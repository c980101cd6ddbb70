use vstd::prelude::*;
use dashmap::DashMap;
use vstd::string::StringSliceAdditionalSpecFns;
use crate::base::clock::{cutoff_before, cutoff_of, now_millis};
use crate::base::types::{CachedLogicChain, CachedLogicChainView};
use crate::text::{
    chars_equal, chars_of, hex_lower, is_hex_lower_digit, lemma_hex_lower_shape, split_words,
    to_hex_lower, words,
};

verus! {

/// What a cache's map holds: prompt hash to reasoning chain.
pub uninterp spec fn cache_entries(m: DashMap<String, CachedLogicChain>) -> Map<
    Seq<char>,
    CachedLogicChainView,
>;

/// The map with no chains.
pub open spec fn no_chains() -> Map<Seq<char>, CachedLogicChainView> {
    Map::empty()
}

/// `DashMap::new`: an empty map.
#[verifier::external_body]
fn chains_new() -> (m: DashMap<String, CachedLogicChain>)
    ensures
        cache_entries(m) == no_chains(),
{
    DashMap::new()
}

/// `DashMap::insert`: the key now maps to the value, other keys are unchanged.
#[verifier::external_body]
fn chains_insert(m: &mut DashMap<String, CachedLogicChain>, k: String, v: CachedLogicChain)
    ensures
        cache_entries(*final(m)) == cache_entries(*old(m)).insert(k@, v@),
{
    m.insert(k, v);
}

/// `DashMap::remove`: the key is gone afterwards.
#[verifier::external_body]
fn chains_remove(m: &mut DashMap<String, CachedLogicChain>, k: &str)
    ensures
        cache_entries(*final(m)) == cache_entries(*old(m)).remove(k@),
{
    m.remove(k);
}

/// `DashMap::get`, with the entry cloned out.
#[verifier::external_body]
fn chains_get(m: &DashMap<String, CachedLogicChain>, k: &str) -> (r: Option<CachedLogicChain>)
    ensures
        match r {
            Some(v) => cache_entries(*m).contains_key(k@) && v@ == cache_entries(*m)[k@],
            None => !cache_entries(*m).contains_key(k@),
        },
{
    m.get(k).map(|e| e.value().clone())
}

/// `DashMap::len`.
#[verifier::external_body]
fn chains_len(m: &DashMap<String, CachedLogicChain>) -> (r: usize)
    ensures
        r == cache_entries(*m).len(),
{
    m.len()
}

/// `DashMap::is_empty`.
#[verifier::external_body]
fn chains_is_empty(m: &DashMap<String, CachedLogicChain>) -> (r: bool)
    ensures
        r == (cache_entries(*m).len() == 0),
{
    m.is_empty()
}

/// `DashMap::clear`.
#[verifier::external_body]
fn chains_clear(m: &mut DashMap<String, CachedLogicChain>)
    ensures
        cache_entries(*final(m)) == no_chains(),
{
    m.clear();
}

/// `DashMap::retain`, keeping the chains created after `cutoff`.
#[verifier::external_body]
fn chains_retain_newer(m: &mut DashMap<String, CachedLogicChain>, cutoff: i64)
    ensures
        cache_entries(*final(m)) == newer_than(cache_entries(*old(m)), cutoff),
{
    m.retain(|_, v| created_after(v, cutoff));
}

/// `DashMap::iter`, each entry cloned out: every entry once, in the map's own order, which
/// nothing here fixes.
#[verifier::external_body]
fn chains_entries(m: &DashMap<String, CachedLogicChain>) -> (r: Vec<(String, CachedLogicChain)>)
    ensures
        r@.len() == cache_entries(*m).len(),
        forall|i: int|
            0 <= i < r@.len() ==> cache_entries(*m).contains_key(#[trigger] r@[i].0@)
                && cache_entries(*m)[r@[i].0@] == r@[i].1@,
        forall|i: int, j: int| 0 <= i < j < r@.len() ==> r@[i].0@ != r@[j].0@,
        forall|k: Seq<char>|
            #[trigger] cache_entries(*m).contains_key(k) ==> exists|i: int|
                0 <= i < r@.len() && r@[i].0@ == k,
{
    m.iter().map(|e| (e.key().clone(), e.value().clone())).collect()
}

/// Whether a chain was created after `cutoff`.
pub fn created_after(c: &CachedLogicChain, cutoff: i64) -> (r: bool)
    ensures
        r == (c.created_at > cutoff),
{
    c.created_at > cutoff
}

/// The SHA-256 digest of some bytes.
pub uninterp spec fn sha256_of(data: Seq<u8>) -> Seq<u8>;

/// `sha2::Sha256::digest`: the digest is the named function of the bytes.
#[verifier::external_body]
fn sha256(data: &[u8]) -> (r: Vec<u8>)
    ensures
        r@ == sha256_of(data@),
        r@.len() == 32,
{
    <sha2::Sha256 as sha2::Digest>::digest(data).to_vec()
}

/// How many tokens of `p`, counted with repetition, also occur in `c`.
pub open spec fn shared_tokens(p: Seq<Seq<char>>, c: Seq<Seq<char>>) -> nat
    decreases p.len(),
{
    if p.len() == 0 {
        0
    } else {
        shared_tokens(p.drop_last(), c) + if c.contains(p.last()) {
            1nat
        } else {
            0nat
        }
    }
}

/// Whether a prompt is similar to a chain's id: the Jaccard similarity of their words,
/// `shared / (|p| + |c| - shared)`, reaches the threshold (in thousandths); with no words
/// at all the similarity is 0.
pub open spec fn is_similar(prompt: Seq<char>, id: Seq<char>, threshold: u32) -> bool {
    let p = words(prompt);
    let c = words(id);
    let shared = shared_tokens(p, c);
    let union = p.len() + c.len() - shared;
    if union > 0 {
        shared * 1000 >= threshold * union
    } else {
        threshold == 0
    }
}

/// The sum of the hit counts of some chains.
pub open spec fn hit_sum(s: Seq<CachedLogicChainView>) -> nat
    decreases s.len(),
{
    if s.len() == 0 {
        0
    } else {
        hit_sum(s.drop_last()) + s.last().hit_count as nat
    }
}

/// The sum of the confidences of some chains.
pub open spec fn confidence_sum(s: Seq<CachedLogicChainView>) -> nat
    decreases s.len(),
{
    if s.len() == 0 {
        0
    } else {
        confidence_sum(s.drop_last()) + s.last().confidence as nat
    }
}

/// `r` lists, each once and in some order, the chains of `m` that satisfy `pred`.
pub open spec fn lists_chains(
    r: Seq<CachedLogicChainView>,
    m: Map<Seq<char>, CachedLogicChainView>,
    pred: spec_fn(CachedLogicChainView) -> bool,
) -> bool {
    &&& forall|i: int|
        0 <= i < r.len() ==> m.contains_key(#[trigger] r[i].prompt_hash) && m[r[i].prompt_hash]
            == r[i] && pred(r[i])
    &&& forall|i: int, j: int| 0 <= i < j < r.len() ==> r[i].prompt_hash != r[j].prompt_hash
    &&& forall|k: Seq<char>|
        #[trigger] m.contains_key(k) && pred(m[k]) ==> exists|i: int|
            0 <= i < r.len() && r[i].prompt_hash == k
}

/// The contents of a list of token vectors.
pub open spec fn token_views(v: Seq<Vec<char>>) -> Seq<Seq<char>> {
    v.map_values(|t: Vec<char>| t@)
}

/// Hit counts never rise along the list.
pub open spec fn sorted_by_hits(r: Seq<CachedLogicChain>) -> bool {
    forall|i: int, j: int| 0 <= i < j < r.len() ==> r[i].hit_count >= r[j].hit_count
}

/// `x` is one of the first `i` entries, and satisfies `pred`.
pub open spec fn came_from(
    x: CachedLogicChainView,
    entries: Seq<(String, CachedLogicChain)>,
    i: int,
    pred: spec_fn(CachedLogicChainView) -> bool,
) -> bool {
    exists|b: int| 0 <= b < i && x == #[trigger] entries[b].1@ && pred(entries[b].1@)
}

/// Having gone through `entries` up to `i`, `r` holds, each once, the entries so far that
/// satisfy `pred`.
pub open spec fn progress(
    r: Seq<CachedLogicChainView>,
    entries: Seq<(String, CachedLogicChain)>,
    i: int,
    pred: spec_fn(CachedLogicChainView) -> bool,
) -> bool {
    &&& forall|a: int| 0 <= a < r.len() ==> came_from(#[trigger] r[a], entries, i, pred)
    &&& forall|a: int, c: int| 0 <= a < c < r.len() ==> r[a].prompt_hash != r[c].prompt_hash
    &&& forall|b: int|
        0 <= b < i && pred(#[trigger] entries[b].1@) ==> exists|a: int|
            0 <= a < r.len() && r[a].prompt_hash == entries[b].0@
}

proof fn lemma_progress_skip(
    r: Seq<CachedLogicChain>,
    entries: Seq<(String, CachedLogicChain)>,
    i: int,
    pred: spec_fn(CachedLogicChainView) -> bool,
)
    requires
        0 <= i < entries.len(),
        progress(chain_views(r), entries, i, pred),
        !pred(entries[i].1@),
    ensures
        progress(chain_views(r), entries, i + 1, pred),
{
    let rv = chain_views(r);
    assert forall|a: int| 0 <= a < rv.len() implies came_from(#[trigger] rv[a], entries, i + 1, pred) by {
        let b = choose|b: int| 0 <= b < i && rv[a] == entries[b].1@ && pred(entries[b].1@);
        assert(0 <= b < i + 1 && rv[a] == entries[b].1@ && pred(entries[b].1@));
    }
    assert forall|b: int| 0 <= b < i + 1 && pred(#[trigger] entries[b].1@) implies exists|a: int|
        0 <= a < rv.len() && rv[a].prompt_hash == entries[b].0@ by {
        assert(b < i);
        assert(0 <= b < i && pred(entries[b].1@));
        let a = choose|a: int| 0 <= a < rv.len() && rv[a].prompt_hash == entries[b].0@;
    }
}

/// Entries met so far, each filed under its own distinct hash, do not share the hash of
/// the entry at `i`.
proof fn lemma_progress_fresh(
    r: Seq<CachedLogicChain>,
    entries: Seq<(String, CachedLogicChain)>,
    i: int,
    pred: spec_fn(CachedLogicChainView) -> bool,
)
    requires
        0 <= i < entries.len(),
        progress(chain_views(r), entries, i, pred),
        forall|b: int| 0 <= b < entries.len() ==> #[trigger] entries[b].1@.prompt_hash == entries[b].0@,
        forall|a: int, b: int| 0 <= a < b < entries.len() ==> entries[a].0@ != entries[b].0@,
    ensures
        forall|a: int| 0 <= a < r.len() ==> r[a]@.prompt_hash != entries[i].0@,
{
    let rv = chain_views(r);
    assert forall|a: int| 0 <= a < r.len() implies r[a]@.prompt_hash != entries[i].0@ by {
        assert(rv[a] == r[a]@);
        let b = choose|b: int| 0 <= b < i && rv[a] == entries[b].1@ && pred(entries[b].1@);
        assert(entries[b].1@.prompt_hash == entries[b].0@);
    }
}

proof fn lemma_progress_insert(
    before: Seq<CachedLogicChain>,
    after: Seq<CachedLogicChain>,
    pos: int,
    entries: Seq<(String, CachedLogicChain)>,
    i: int,
    pred: spec_fn(CachedLogicChainView) -> bool,
)
    requires
        0 <= i < entries.len(),
        0 <= pos <= before.len(),
        progress(chain_views(before), entries, i, pred),
        pred(entries[i].1@),
        entries[i].1@.prompt_hash == entries[i].0@,
        forall|a: int| 0 <= a < before.len() ==> before[a]@.prompt_hash != entries[i].0@,
        after.len() == before.len() + 1,
        after[pos]@ == entries[i].1@,
        forall|a: int| 0 <= a < pos ==> after[a] == before[a],
        forall|a: int| pos < a < after.len() ==> after[a] == before[a - 1],
    ensures
        progress(chain_views(after), entries, i + 1, pred),
{
    let bv = chain_views(before);
    let av = chain_views(after);
    assert forall|a: int| 0 <= a < av.len() implies came_from(#[trigger] av[a], entries, i + 1, pred) by {
        if a < pos {
            assert(av[a] == bv[a]);
            let b = choose|b: int| 0 <= b < i && bv[a] == entries[b].1@ && pred(entries[b].1@);
            assert(0 <= b < i + 1 && av[a] == entries[b].1@ && pred(entries[b].1@));
        } else if a > pos {
            assert(av[a] == bv[a - 1]);
            let b = choose|b: int| 0 <= b < i && bv[a - 1] == entries[b].1@ && pred(entries[b].1@);
            assert(0 <= b < i + 1 && av[a] == entries[b].1@ && pred(entries[b].1@));
        } else {
            assert(0 <= i < i + 1 && av[a] == entries[i].1@ && pred(entries[i].1@));
        }
    }
    assert forall|a: int, c: int| 0 <= a < c < av.len() implies av[a].prompt_hash != av[c].prompt_hash by {
        let a0 = if a < pos { a } else { a - 1 };
        let c0 = if c < pos { c } else { c - 1 };
        if a != pos {
            assert(av[a] == bv[a0]);
        }
        if c != pos {
            assert(av[c] == bv[c0]);
        }
    }
    assert forall|b: int| 0 <= b < i + 1 && pred(#[trigger] entries[b].1@) implies exists|a: int|
        0 <= a < av.len() && av[a].prompt_hash == entries[b].0@ by {
        if b < i {
            let a0 = choose|a0: int| 0 <= a0 < bv.len() && bv[a0].prompt_hash == entries[b].0@;
            let a = if a0 < pos { a0 } else { a0 + 1 };
            assert(av[a] == bv[a0]);
        } else {
            assert(av[pos] == entries[b].1@);
        }
    }
}

/// Inserts a chain after every chain hit at least as often, keeping the order by hits.
fn insert_by_hits(results: &mut Vec<CachedLogicChain>, item: CachedLogicChain) -> (pos: usize)
    requires
        sorted_by_hits(old(results)@),
    ensures
        sorted_by_hits(final(results)@),
        pos <= old(results)@.len(),
        final(results)@ == old(results)@.insert(pos as int, item),
{
    let mut pos: usize = 0;
    while pos < results.len() && results[pos].hit_count >= item.hit_count
        invariant
            pos <= results@.len(),
            forall|a: int| 0 <= a < pos ==> #[trigger] results@[a].hit_count >= item.hit_count,
        decreases results@.len() - pos,
    {
        pos = pos + 1;
    }
    assert forall|a: int| pos <= a < results@.len() implies #[trigger] results@[a].hit_count < item.hit_count by {
        assert(results@[pos as int].hit_count < item.hit_count);
    }
    results.insert(pos, item);
    pos
}

/// How many of the tokens `p` (with repetition) occur among the tokens `c`.
fn shared_count(p: &Vec<Vec<char>>, c: &Vec<Vec<char>>) -> (n: usize)
    ensures
        n == shared_tokens(token_views(p@), token_views(c@)),
        n <= p@.len(),
{
    let ghost pv = token_views(p@);
    let ghost cv = token_views(c@);
    let mut n: usize = 0;
    for t in 0..p.len()
        invariant
            pv == token_views(p@),
            cv == token_views(c@),
            n == shared_tokens(pv.take(t as int), cv),
            n <= t,
    {
        assert(pv.take(t + 1).drop_last() =~= pv.take(t as int));
        let mut found = false;
        for u in 0..c.len()
            invariant
                pv == token_views(p@),
                cv == token_views(c@),
                t < p@.len(),
                found == exists|a: int| 0 <= a < u && cv[a] == pv[t as int],
        {
            if !found && chars_equal(&c[u], &p[t]) {
                found = true;
                assert(cv[u as int] == pv[t as int]);
            }
        }
        proof {
            if !found {
                assert forall|a: int| 0 <= a < cv.len() implies cv[a] != pv[t as int] by {}
            }
            assert(found == cv.contains(pv[t as int]));
            assert(pv.take(t + 1).last() == pv[t as int]);
        }
        if found {
            n = n + 1;
        }
    }
    assert(pv.take(p@.len() as int) =~= pv);
    n
}

/// Whether a chain id is similar to a prompt, given the prompt's words.
fn chain_is_similar(prompt_tokens: &Vec<Vec<char>>, id: &str, threshold: u32) -> (r: bool)
    ensures
        r == ({
            let p = token_views(prompt_tokens@);
            let c = words(id@);
            let shared = shared_tokens(p, c);
            let union = p.len() + c.len() - shared;
            if union > 0 {
                shared * 1000 >= threshold * union
            } else {
                threshold == 0
            }
        }),
{
    let id_chars = chars_of(id);
    let cached_tokens = split_words(&id_chars);
    assert(token_views(cached_tokens@) =~= words(id@));
    let intersection = shared_count(prompt_tokens, &cached_tokens);
    let union: u128 = prompt_tokens.len() as u128 - intersection as u128 + cached_tokens.len() as u128;
    assert(threshold as u128 * union <= 0xffff_ffff_ffff_ffff_ffff_ffff_ffff) by (nonlinear_arith)
        requires
            threshold <= u32::MAX,
            union <= 0x2_0000_0000_0000_0000,
    ;
    if union > 0 {
        intersection as u128 * 1000 >= threshold as u128 * union
    } else {
        threshold == 0
    }
}

/// The views of a list of chains.
pub open spec fn chain_views(v: Seq<CachedLogicChain>) -> Seq<CachedLogicChainView> {
    v.map_values(|c: CachedLogicChain| c@)
}

/// The chains of `m` created after `cutoff`.
pub open spec fn newer_than(m: Map<Seq<char>, CachedLogicChainView>, cutoff: i64) -> Map<
    Seq<char>,
    CachedLogicChainView,
> {
    m.restrict(m.dom().filter(|k: Seq<char>| m[k].created_at > cutoff))
}

/// `k` is a chain of `m` created no later than any other.
pub open spec fn is_oldest(m: Map<Seq<char>, CachedLogicChainView>, k: Seq<char>) -> bool {
    &&& m.contains_key(k)
    &&& forall|j: Seq<char>| #[trigger] m.contains_key(j) ==> m[k].created_at <= m[j].created_at
}

/// The chains after storing `chain` in a cache of `max` chains that held `m0`: a full cache
/// first evicts a chain created no later than any other.
pub open spec fn stored(
    m0: Map<Seq<char>, CachedLogicChainView>,
    m1: Map<Seq<char>, CachedLogicChainView>,
    chain: CachedLogicChainView,
    max: usize,
) -> bool {
    if m0.len() >= max && m0.len() > 0 {
        exists|k: Seq<char>| is_oldest(m0, k) && m1 == m0.remove(k).insert(chain.prompt_hash, chain)
    } else {
        m1 == m0.insert(chain.prompt_hash, chain)
    }
}

/// A stored chain is found under its prompt hash, as it was stored.
pub proof fn law_stored_chain_is_found(
    m0: Map<Seq<char>, CachedLogicChainView>,
    m1: Map<Seq<char>, CachedLogicChainView>,
    chain: CachedLogicChainView,
    max: usize,
)
    requires
        stored(m0, m1, chain, max),
    ensures
        m1.contains_key(chain.prompt_hash),
        m1[chain.prompt_hash] == chain,
{
}

/// A cache that holds no more chains than its size, a size of at least one, still does so
/// after storing.
pub proof fn law_cache_stays_within_size(
    m0: Map<Seq<char>, CachedLogicChainView>,
    m1: Map<Seq<char>, CachedLogicChainView>,
    chain: CachedLogicChainView,
    max: usize,
)
    requires
        m0.dom().finite(),
        m0.len() <= max,
        max > 0,
        stored(m0, m1, chain, max),
    ensures
        m1.dom().finite(),
        m1.len() <= max,
{
    if m0.len() >= max && m0.len() > 0 {
        let k = choose|k: Seq<char>| is_oldest(m0, k) && m1 == m0.remove(k).insert(chain.prompt_hash, chain);
        assert(m0.remove(k).len() == m0.len() - 1);
    }
}

/// The chains of some map entries, in the entries' order.
pub open spec fn entry_chains(entries: Seq<(String, CachedLogicChain)>) -> Seq<CachedLogicChainView> {
    entries.map_values(|e: (String, CachedLogicChain)| e.1@)
}

/// The number of values a `usize` can take.
pub open spec fn usize_range() -> nat {
    usize::MAX as nat + 1
}

/// Statistics of a cache. The total confidence is the sum of the chains' confidences, in
/// thousandths.
#[derive(Debug, Clone)]
pub struct CacheStats {
    pub total_entries: usize,
    pub max_size: usize,
    pub total_hits: usize,
    pub total_confidence: u128,
}

/// Reasoning chains kept by prompt hash for reuse. The similarity threshold is in
/// thousandths.
pub struct SemanticCache {
    cache: DashMap<String, CachedLogicChain>,
    similarity_threshold: u32,
    max_cache_size: usize,
}

impl View for SemanticCache {
    type V = Map<Seq<char>, CachedLogicChainView>;

    closed spec fn view(&self) -> Map<Seq<char>, CachedLogicChainView> {
        cache_entries(self.cache)
    }
}

impl SemanticCache {
    /// The similarity threshold, in thousandths.
    pub closed spec fn threshold(&self) -> u32 {
        self.similarity_threshold
    }

    /// The size from which storing first evicts the oldest chain.
    pub closed spec fn max_size(&self) -> usize {
        self.max_cache_size
    }

    /// Well-formed: finitely many chains, each under its own prompt hash.
    pub open spec fn wf(&self) -> bool {
        &&& self@.dom().finite()
        &&& forall|k: Seq<char>| #[trigger] self@.contains_key(k) ==> self@[k].prompt_hash == k
    }

    /// An empty cache.
    pub fn new(max_cache_size: usize, similarity_threshold: u32) -> (r: Self)
        ensures
            r.wf(),
            r@ == no_chains(),
            r.threshold() == similarity_threshold,
            r.max_size() == max_cache_size,
    {
        SemanticCache { cache: chains_new(), similarity_threshold, max_cache_size }
    }

    /// The lowercase hexadecimal SHA-256 digest of a prompt's UTF-8 bytes.
    pub fn hash_prompt(prompt: &str) -> (r: String)
        ensures
            r@ == hex_lower(sha256_of(prompt.spec_bytes())),
            r@.len() == 64,
            forall|i: int| 0 <= i < 64 ==> is_hex_lower_digit(#[trigger] r@[i]),
    {
        let digest = sha256(prompt.as_bytes());
        proof {
            lemma_hex_lower_shape(digest@);
        }
        to_hex_lower(&digest)
    }

    /// A chain of the cache created no later than any other, if any.
    fn oldest_key(&self) -> (r: Option<String>)
        requires
            self.wf(),
        ensures
            match r {
                Some(k) => is_oldest(self@, k@),
                None => self@.len() == 0,
            },
    {
        let entries = chains_entries(&self.cache);
        if entries.len() == 0 {
            proof {
                if self@.len() > 0 {
                    let k = self@.dom().choose();
                    assert(self@.contains_key(k));
                }
            }
            return None;
        }
        let mut best: usize = 0;
        for i in 1..entries.len()
            invariant
                0 <= best < entries@.len(),
                best < i,
                forall|j: int| 0 <= j < i ==> entries@[best as int].1.created_at <= #[trigger] entries@[j].1.created_at,
        {
            if entries[i].1.created_at < entries[best].1.created_at {
                best = i;
            }
        }
        let k = entries[best].0.clone();
        proof {
            assert(self@.contains_key(entries@[best as int].0@));
            assert forall|j: Seq<char>| #[trigger] self@.contains_key(j) implies self@[k@].created_at <= self@[j].created_at by {
                let b = choose|b: int| 0 <= b < entries@.len() && entries@[b].0@ == j;
                assert(self@[entries@[b].0@] == entries@[b].1@);
            }
        }
        Some(k)
    }

    /// Stores a chain under its prompt hash. A cache at its size first evicts a chain
    /// created no later than any other (which of equally old ones is not fixed).
    pub fn store(&mut self, chain: CachedLogicChain) -> (r: crate::base::error::Result<()>)
        requires
            old(self).wf(),
        ensures
            r is Ok,
            final(self).wf(),
            final(self).threshold() == old(self).threshold(),
            final(self).max_size() == old(self).max_size(),
            stored(old(self)@, final(self)@, chain@, old(self).max_size()),
    {
        if chains_len(&self.cache) >= self.max_cache_size {
            match self.oldest_key() {
                Some(key) => {
                    chains_remove(&mut self.cache, key.as_str());
                    let key_chain = chain.prompt_hash.clone();
                    chains_insert(&mut self.cache, key_chain, chain);
                    return Ok(());
                },
                None => {},
            }
        }
        let key = chain.prompt_hash.clone();
        chains_insert(&mut self.cache, key, chain);
        Ok(())
    }

    /// The chain stored under a prompt hash, its hit count raised by one in the cache too.
    pub fn retrieve(&mut self, prompt_hash: &str) -> (r: Option<CachedLogicChain>)
        requires
            old(self).wf(),
            old(self)@.contains_key(prompt_hash@) ==> old(self)@[prompt_hash@].hit_count < usize::MAX,
        ensures
            final(self).wf(),
            final(self).threshold() == old(self).threshold(),
            final(self).max_size() == old(self).max_size(),
            match r {
                Some(c) => old(self)@.contains_key(prompt_hash@) && c@ == CachedLogicChainView {
                    hit_count: (old(self)@[prompt_hash@].hit_count + 1) as usize,
                    ..old(self)@[prompt_hash@]
                } && final(self)@ == old(self)@.insert(prompt_hash@, c@),
                None => !old(self)@.contains_key(prompt_hash@) && final(self)@ == old(self)@,
            },
    {
        match chains_get(&self.cache, prompt_hash) {
            Some(mut entry) => {
                entry.hit_count = entry.hit_count + 1;
                let found = entry.copied();
                chains_insert(&mut self.cache, String::from_str(prompt_hash), entry);
                Some(found)
            },
            None => None,
        }
    }

    /// The number of chains.
    pub fn len(&self) -> (r: usize)
        ensures
            r == self@.len(),
    {
        chains_len(&self.cache)
    }

    /// Whether there is no chain.
    pub fn is_empty(&self) -> (r: bool)
        ensures
            r == (self@.len() == 0),
    {
        chains_is_empty(&self.cache)
    }

    /// Removes every chain.
    pub fn clear(&mut self)
        requires
            old(self).wf(),
        ensures
            final(self).wf(),
            final(self)@ == no_chains(),
            final(self).threshold() == old(self).threshold(),
            final(self).max_size() == old(self).max_size(),
    {
        chains_clear(&mut self.cache);
    }

    /// Evicts a chain created no later than any other, if there is one.
    pub fn evict_lru(&mut self)
        requires
            old(self).wf(),
        ensures
            final(self).wf(),
            final(self).threshold() == old(self).threshold(),
            final(self).max_size() == old(self).max_size(),
            old(self)@.len() == 0 ==> final(self)@ == old(self)@,
            old(self)@.len() > 0 ==> exists|k: Seq<char>|
                is_oldest(old(self)@, k) && final(self)@ == old(self)@.remove(k),
    {
        match self.oldest_key() {
            Some(key) => chains_remove(&mut self.cache, key.as_str()),
            None => {},
        }
    }

    /// Evicts the chains created `age_seconds` or more seconds before `now` (milliseconds
    /// since the Unix epoch): keeps those created after `cutoff_of(now, age in ms)`.
    pub fn evict_created_before(&mut self, now: i64, age_seconds: u64)
        requires
            old(self).wf(),
            age_seconds <= i64::MAX / 1000,
        ensures
            final(self).wf(),
            final(self).threshold() == old(self).threshold(),
            final(self).max_size() == old(self).max_size(),
            final(self)@ == newer_than(old(self)@, cutoff_of(now, age_seconds * 1000)),
    {
        let cutoff = cutoff_before(now, age_seconds as i64 * 1000);
        chains_retain_newer(&mut self.cache, cutoff);
        proof {
            let m0 = old(self)@;
            let m1 = newer_than(m0, cutoff);
            assert(m1.dom() =~= m0.dom().filter(|k: Seq<char>| m0[k].created_at > cutoff));
            assert(m1.dom().finite());
        }
    }

    /// Evicts the chains created `age_seconds` or more seconds ago, by the clock.
    pub fn evict_old_entries(&mut self, age_seconds: u64)
        requires
            old(self).wf(),
            age_seconds <= i64::MAX / 1000,
        ensures
            final(self).wf(),
            final(self).threshold() == old(self).threshold(),
            final(self).max_size() == old(self).max_size(),
            exists|now: i64|
                now >= 0 && final(self)@ == newer_than(
                    old(self)@,
                    #[trigger] cutoff_of(now, age_seconds * 1000),
                ),
    {
        let now = now_millis();
        self.evict_created_before(now, age_seconds);
    }

    /// The number of chains, the size, the sum of the hit counts (wrapping around as `usize`
    /// addition does) and the sum of the confidences.
    pub fn get_stats(&self) -> (r: CacheStats)
        requires
            self.wf(),
        ensures
            r.total_entries == self@.len(),
            r.max_size == self.max_size(),
            exists|s: Seq<CachedLogicChainView>|
                {
                    &&& lists_chains(s, self@, |c: CachedLogicChainView| true)
                    &&& r.total_hits == #[trigger] hit_sum(s) % usize_range()
                    &&& r.total_confidence == confidence_sum(s)
                },
    {
        let entries = chains_entries(&self.cache);
        let ghost all = entry_chains(entries@);
        let mut hits: usize = 0;
        let mut confidence: u128 = 0;
        proof {
            assert(all.take(0) =~= Seq::<CachedLogicChainView>::empty());
            vstd::arithmetic::div_mod::lemma_small_mod(0, usize_range());
        }
        for i in 0..entries.len()
            invariant
                all == entry_chains(entries@),
                hits == hit_sum(all.take(i as int)) % usize_range(),
                confidence == confidence_sum(all.take(i as int)),
                confidence <= i * 0x1_0000_0000,
                i <= entries@.len() <= usize::MAX,
        {
            let h = entries[i].1.hit_count;
            let c = entries[i].1.confidence;
            proof {
                assert(all.take(i + 1).drop_last() =~= all.take(i as int));
                assert(all.take(i + 1).last() == entries@[i as int].1@);
                let before = hit_sum(all.take(i as int));
                vstd::arithmetic::div_mod::lemma_add_mod_noop(before as int, h as int, usize_range() as int);
                vstd::arithmetic::div_mod::lemma_small_mod(h as nat, usize_range());
                vstd::arithmetic::div_mod::lemma_mod_bound(hits as int + h as int, usize_range() as int);
                assert(confidence + c <= (i + 1) * 0x1_0000_0000) by (nonlinear_arith)
                    requires
                        confidence <= i * 0x1_0000_0000,
                        c < 0x1_0000_0000,
                ;
                assert((i + 1) * 0x1_0000_0000 <= 0x1_0000_0000_0000_0000_0000_0000) by (nonlinear_arith)
                    requires
                        i < 0x1_0000_0000_0000_0000,
                ;
                if hits as int + h as int > usize::MAX {
                    assert((hits as int + h as int) % usize_range() as int == hits as int + h as int - usize_range()) by {
                        vstd::arithmetic::div_mod::lemma_fundamental_div_mod(hits as int + h as int, usize_range() as int);
                        vstd::arithmetic::div_mod::lemma_div_basics(usize_range() as int);
                    }
                } else {
                    vstd::arithmetic::div_mod::lemma_small_mod((hits + h) as nat, usize_range());
                }
            }
            hits = hits.wrapping_add(h);
            confidence = confidence + c as u128;
        }
        proof {
            assert(all.take(entries@.len() as int) =~= all);
            let t = |c: CachedLogicChainView| true;
            assert forall|a: int| 0 <= a < all.len() implies self@.contains_key(#[trigger] all[a].prompt_hash)
                && self@[all[a].prompt_hash] == all[a] && t(all[a]) by {
                assert(self@.contains_key(entries@[a].0@));
            }
            assert forall|a: int, b: int| 0 <= a < b < all.len() implies all[a].prompt_hash != all[b].prompt_hash by {
                assert(self@.contains_key(entries@[a].0@));
                assert(self@.contains_key(entries@[b].0@));
            }
            assert forall|k: Seq<char>| #[trigger] self@.contains_key(k) && t(self@[k]) implies exists|a: int|
                0 <= a < all.len() && all[a].prompt_hash == k by {
                let b = choose|b: int| 0 <= b < entries@.len() && entries@[b].0@ == k;
                assert(self@[k].prompt_hash == k);
                assert(all[b] == entries@[b].1@);
            }
            assert(lists_chains(all, self@, t));
        }
        CacheStats {
            total_entries: entries.len(),
            max_size: self.max_cache_size,
            total_hits: hits,
            total_confidence: confidence,
        }
    }

    /// The chains whose id is similar to the prompt (see `is_similar`), each once, the most
    /// hit first.
    #[verifier::rlimit(40)]
    pub fn find_similar(&self, prompt: &str) -> (r: Vec<CachedLogicChain>)
        requires
            self.wf(),
        ensures
            lists_chains(
                chain_views(r@),
                self@,
                |c: CachedLogicChainView| is_similar(prompt@, c.id, self.threshold()),
            ),
            forall|i: int, j: int| 0 <= i < j < r@.len() ==> r@[i].hit_count >= r@[j].hit_count,
    {
        let ghost pred = |c: CachedLogicChainView| is_similar(prompt@, c.id, self.threshold());
        let prompt_chars = chars_of(prompt);
        let prompt_tokens = split_words(&prompt_chars);
        let entries = chains_entries(&self.cache);
        let mut results: Vec<CachedLogicChain> = Vec::new();
        for i in 0..entries.len()
            invariant
                self.wf(),
                pred == (|c: CachedLogicChainView| is_similar(prompt@, c.id, self.threshold())),
                token_views(prompt_tokens@) == words(prompt@),
                entries@.len() == self@.len(),
                forall|a: int|
                    0 <= a < entries@.len() ==> self@.contains_key(#[trigger] entries@[a].0@)
                        && self@[entries@[a].0@] == entries@[a].1@,
                forall|a: int, b: int|
                    0 <= a < b < entries@.len() ==> entries@[a].0@ != entries@[b].0@,
                progress(chain_views(results@), entries@, i as int, pred),
                sorted_by_hits(results@),
        {
            let item = &entries[i].1;
            let similar = chain_is_similar(&prompt_tokens, item.id.as_str(), self.similarity_threshold);
            assert(similar == pred(entries@[i as int].1@));
            let ghost before = results@;
            if similar {
                proof {
                    assert forall|b: int| 0 <= b < entries@.len() implies #[trigger] entries@[b].1@.prompt_hash == entries@[b].0@ by {
                        assert(self@.contains_key(entries@[b].0@));
                    }
                    lemma_progress_fresh(before, entries@, i as int, pred);
                }
                let pos = insert_by_hits(&mut results, item.copied());
                proof {
                    lemma_progress_insert(before, results@, pos as int, entries@, i as int, pred);
                }
            } else {
                proof {
                    lemma_progress_skip(results@, entries@, i as int, pred);
                }
            }
        }
        proof {
            let rv = chain_views(results@);
            let n = entries@.len() as int;
            assert forall|a: int| 0 <= a < rv.len() implies self@.contains_key(#[trigger] rv[a].prompt_hash)
                && self@[rv[a].prompt_hash] == rv[a] && pred(rv[a]) by {
                let b = choose|b: int| 0 <= b < n && rv[a] == entries@[b].1@ && pred(entries@[b].1@);
                assert(self@[entries@[b].0@].prompt_hash == entries@[b].0@);
            }
            assert forall|k: Seq<char>| #[trigger] self@.contains_key(k) && pred(self@[k]) implies exists|a: int|
                0 <= a < rv.len() && rv[a].prompt_hash == k by {
                let b = choose|b: int| 0 <= b < n && entries@[b].0@ == k;
                assert(pred(entries@[b].1@));
                assert(self@[k].prompt_hash == k);
            }
        }
        results
    }
}

impl Default for SemanticCache {
    /// A cache of 1000 chains with a similarity threshold of 0.92.
    fn default() -> (r: Self)
        ensures
            r.wf(),
            r@ == no_chains(),
            r.threshold() == 920,
            r.max_size() == 1000,
    {
        SemanticCache::new(1000, 920)
    }
}

} // verus!
