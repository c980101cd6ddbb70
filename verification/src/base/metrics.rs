use vstd::prelude::*;
use dashmap::DashMap;
use crate::base::clock::{cutoff_before, cutoff_of, now_millis};
use crate::base::types::{RequestMetrics, RequestMetricsView, SystemMetrics};

verus! {

/// What a request history holds: request id to what the request cost.
pub uninterp spec fn request_entries(m: DashMap<String, RequestMetrics>) -> Map<
    Seq<char>,
    RequestMetricsView,
>;

/// The history with no request.
pub open spec fn no_requests() -> Map<Seq<char>, RequestMetricsView> {
    Map::empty()
}

/// `DashMap::new`: an empty map.
#[verifier::external_body]
fn requests_new() -> (m: DashMap<String, RequestMetrics>)
    ensures
        request_entries(m) == no_requests(),
{
    DashMap::new()
}

/// `DashMap::insert`: the key now maps to the value, other keys are unchanged.
#[verifier::external_body]
fn requests_insert(m: &mut DashMap<String, RequestMetrics>, k: String, v: RequestMetrics)
    ensures
        request_entries(*final(m)) == request_entries(*old(m)).insert(k@, v@),
{
    m.insert(k, v);
}

/// `DashMap::iter`, each entry cloned out: every entry once, in the map's own order, which
/// nothing here fixes.
#[verifier::external_body]
fn requests_listed(m: &DashMap<String, RequestMetrics>) -> (r: Vec<(String, RequestMetrics)>)
    ensures
        r@.len() == request_entries(*m).len(),
        forall|i: int|
            0 <= i < r@.len() ==> request_entries(*m).contains_key(#[trigger] r@[i].0@)
                && request_entries(*m)[r@[i].0@] == r@[i].1@,
        forall|i: int, j: int| 0 <= i < j < r@.len() ==> r@[i].0@ != r@[j].0@,
{
    m.iter().map(|e| (e.key().clone(), e.value().clone())).collect()
}

/// `DashMap::retain`, keeping the requests recorded after `cutoff`.
#[verifier::external_body]
fn requests_retain_newer(m: &mut DashMap<String, RequestMetrics>, cutoff: i64)
    ensures
        request_entries(*final(m)) == recorded_since(request_entries(*old(m)), cutoff),
{
    m.retain(|_, v| recorded_after(v, cutoff));
}

/// Whether a request was recorded after `cutoff`.
pub fn recorded_after(v: &RequestMetrics, cutoff: i64) -> (r: bool)
    ensures
        r == (v.timestamp > cutoff),
{
    v.timestamp > cutoff
}

/// The requests of `m` recorded after `cutoff`.
pub open spec fn recorded_since(m: Map<Seq<char>, RequestMetricsView>, cutoff: i64) -> Map<
    Seq<char>,
    RequestMetricsView,
> {
    m.restrict(m.dom().filter(|k: Seq<char>| m[k].timestamp > cutoff))
}

/// `x + 1`, wrapping around to 0 past the largest `u64`.
pub open spec fn bump(x: u64) -> u64 {
    if x == u64::MAX {
        0
    } else {
        (x + 1) as u64
    }
}

/// Something the collector counts: a request with its latency in milliseconds, a cache hit,
/// a cache miss, a model switch.
pub enum MetricsEvent {
    Request(u64),
    CacheHit,
    CacheMiss,
    ModelSwitch,
}

/// The number of values a `u64` can take.
pub open spec fn u64_range() -> nat {
    u64::MAX as nat + 1
}

/// How recording `e` moves the counters: its own counter goes up by one (wrapping as the
/// atomics do), a request adds its latency, the others stay.
pub open spec fn counted(before: MetricsCollector, e: MetricsEvent, after: MetricsCollector) -> bool {
    &&& after.requests() == (if e is Request {
        bump(before.requests())
    } else {
        before.requests()
    })
    &&& after.latency() == before.latency() + match e {
        MetricsEvent::Request(l) => l as int,
        _ => 0int,
    }
    &&& after.hits() == (if e is CacheHit {
        bump(before.hits())
    } else {
        before.hits()
    })
    &&& after.misses() == (if e is CacheMiss {
        bump(before.misses())
    } else {
        before.misses()
    })
    &&& after.switches() == (if e is ModelSwitch {
        bump(before.switches())
    } else {
        before.switches()
    })
}

/// How many events of the kind `pred` picks there are.
pub open spec fn events_where(es: Seq<MetricsEvent>, pred: spec_fn(MetricsEvent) -> bool) -> nat
    decreases es.len(),
{
    if es.len() == 0 {
        0
    } else {
        events_where(es.drop_last(), pred) + if pred(es.last()) {
            1nat
        } else {
            0nat
        }
    }
}

/// The sum of the latencies of the requests among the events.
pub open spec fn latency_sum(es: Seq<MetricsEvent>) -> nat
    decreases es.len(),
{
    if es.len() == 0 {
        0
    } else {
        latency_sum(es.drop_last()) + match es.last() {
            MetricsEvent::Request(l) => l as nat,
            _ => 0nat,
        }
    }
}

proof fn lemma_bump_mod(a: nat)
    ensures
        bump((a % u64_range()) as u64) == (a + 1) % u64_range(),
{
    let m = u64_range() as int;
    vstd::arithmetic::div_mod::lemma_mod_bound(a as int, m);
    vstd::arithmetic::div_mod::lemma_add_mod_noop(a as int, 1, m);
    vstd::arithmetic::div_mod::lemma_small_mod(1, m as nat);
    let x = a as int % m;
    if x + 1 < m {
        vstd::arithmetic::div_mod::lemma_small_mod((x + 1) as nat, m as nat);
    } else {
        vstd::arithmetic::div_mod::lemma_mod_self_0(m);
    }
}

/// From a fresh collector, after a run of recordings, each counter is the number of events
/// of its kind (modulo 2^64, as the atomics wrap), and the latency is the sum of the
/// requests' latencies.
pub proof fn law_counters_count_events(states: Seq<MetricsCollector>, events: Seq<MetricsEvent>)
    requires
        states.len() == events.len() + 1,
        states[0].requests() == 0,
        states[0].latency() == 0,
        states[0].hits() == 0,
        states[0].misses() == 0,
        states[0].switches() == 0,
        forall|i: int| 0 <= i < events.len() ==> #[trigger] counted(states[i], events[i], states[i + 1]),
    ensures
        states.last().requests() == events_where(events, |e: MetricsEvent| e is Request) % u64_range(),
        states.last().latency() == latency_sum(events),
        states.last().hits() == events_where(events, |e: MetricsEvent| e is CacheHit) % u64_range(),
        states.last().misses() == events_where(events, |e: MetricsEvent| e is CacheMiss) % u64_range(),
        states.last().switches() == events_where(events, |e: MetricsEvent| e is ModelSwitch) % u64_range(),
    decreases events.len(),
{
    let m = u64_range();
    if events.len() == 0 {
        vstd::arithmetic::div_mod::lemma_small_mod(0, m);
    } else {
        let n = events.len() - 1;
        let ps = states.drop_last();
        let pe = events.drop_last();
        assert forall|i: int| 0 <= i < pe.len() implies #[trigger] counted(ps[i], pe[i], ps[i + 1]) by {
            assert(counted(states[i], events[i], states[i + 1]));
        }
        law_counters_count_events(ps, pe);
        assert(counted(states[n], events[n], states[n + 1]));
        assert(ps.last() == states[n]);
        let req = |e: MetricsEvent| e is Request;
        let hit = |e: MetricsEvent| e is CacheHit;
        let miss = |e: MetricsEvent| e is CacheMiss;
        let sw = |e: MetricsEvent| e is ModelSwitch;
        lemma_bump_mod(events_where(pe, req));
        lemma_bump_mod(events_where(pe, hit));
        lemma_bump_mod(events_where(pe, miss));
        lemma_bump_mod(events_where(pe, sw));
    }
}

/// Counters of requests, cache use and model switches, with the history of requests.
pub struct MetricsCollector {
    total_requests: u64,
    total_latency_ms: u64,
    cache_hits: u64,
    cache_misses: u64,
    model_switches: u64,
    request_history: DashMap<String, RequestMetrics>,
}

impl MetricsCollector {
    /// Requests recorded.
    pub closed spec fn requests(&self) -> u64 {
        self.total_requests
    }

    /// The sum of the recorded latencies, in milliseconds.
    pub closed spec fn latency(&self) -> u64 {
        self.total_latency_ms
    }

    /// Cache hits recorded.
    pub closed spec fn hits(&self) -> u64 {
        self.cache_hits
    }

    /// Cache misses recorded.
    pub closed spec fn misses(&self) -> u64 {
        self.cache_misses
    }

    /// Model switches recorded.
    pub closed spec fn switches(&self) -> u64 {
        self.model_switches
    }

    /// The recorded requests by id.
    pub closed spec fn history(&self) -> Map<Seq<char>, RequestMetricsView> {
        request_entries(self.request_history)
    }

    /// Well-formed: finitely many requests, each filed under its own id.
    pub open spec fn wf(&self) -> bool {
        &&& self.history().dom().finite()
        &&& forall|k: Seq<char>| #[trigger] self.history().contains_key(k) ==> self.history()[k].request_id == k
    }

    /// All counters at 0, no request recorded.
    pub fn new() -> (r: Self)
        ensures
            r.wf(),
            r.requests() == 0,
            r.latency() == 0,
            r.hits() == 0,
            r.misses() == 0,
            r.switches() == 0,
            r.history() == no_requests(),
    {
        MetricsCollector {
            total_requests: 0,
            total_latency_ms: 0,
            cache_hits: 0,
            cache_misses: 0,
            model_switches: 0,
            request_history: requests_new(),
        }
    }

    /// Counts a request, adds its latency and files it under its id.
    pub fn record_request(&mut self, metrics: RequestMetrics)
        requires
            old(self).wf(),
            old(self).latency() + metrics.latency_ms <= u64::MAX,
        ensures
            counted(*old(self), MetricsEvent::Request(metrics.latency_ms), *final(self)),
            final(self).wf(),
            final(self).requests() == bump(old(self).requests()),
            final(self).latency() == old(self).latency() + metrics.latency_ms,
            final(self).history() == old(self).history().insert(metrics.request_id@, metrics@),
            final(self).hits() == old(self).hits(),
            final(self).misses() == old(self).misses(),
            final(self).switches() == old(self).switches(),
    {
        self.total_requests = self.total_requests.wrapping_add(1);
        self.total_latency_ms = self.total_latency_ms + metrics.latency_ms;
        let id = metrics.request_id.clone();
        requests_insert(&mut self.request_history, id, metrics);
    }

    /// Counts a cache hit.
    pub fn record_cache_hit(&mut self)
        ensures
            counted(*old(self), MetricsEvent::CacheHit, *final(self)),
            final(self).hits() == bump(old(self).hits()),
            final(self).requests() == old(self).requests(),
            final(self).latency() == old(self).latency(),
            final(self).misses() == old(self).misses(),
            final(self).switches() == old(self).switches(),
            final(self).history() == old(self).history(),
    {
        self.cache_hits = self.cache_hits.wrapping_add(1);
    }

    /// Counts a cache miss.
    pub fn record_cache_miss(&mut self)
        ensures
            counted(*old(self), MetricsEvent::CacheMiss, *final(self)),
            final(self).misses() == bump(old(self).misses()),
            final(self).requests() == old(self).requests(),
            final(self).latency() == old(self).latency(),
            final(self).hits() == old(self).hits(),
            final(self).switches() == old(self).switches(),
            final(self).history() == old(self).history(),
    {
        self.cache_misses = self.cache_misses.wrapping_add(1);
    }

    /// Counts a model switch.
    pub fn record_model_switch(&mut self)
        ensures
            counted(*old(self), MetricsEvent::ModelSwitch, *final(self)),
            final(self).switches() == bump(old(self).switches()),
            final(self).requests() == old(self).requests(),
            final(self).latency() == old(self).latency(),
            final(self).hits() == old(self).hits(),
            final(self).misses() == old(self).misses(),
            final(self).history() == old(self).history(),
    {
        self.model_switches = self.model_switches.wrapping_add(1);
    }

    /// The counters; no model is counted as active.
    pub fn get_system_metrics(&self) -> (r: SystemMetrics)
        ensures
            r.total_requests == self.requests(),
            r.total_latency_ms == self.latency(),
            r.cache_hits == self.hits(),
            r.cache_misses == self.misses(),
            r.active_models == 0,
            r.model_switch_count == self.switches(),
    {
        SystemMetrics {
            total_requests: self.total_requests,
            total_latency_ms: self.total_latency_ms,
            cache_hits: self.cache_hits,
            cache_misses: self.cache_misses,
            active_models: 0,
            model_switch_count: self.model_switches,
        }
    }

    /// Up to `limit` recorded requests, each once, in the history's own order.
    pub fn get_request_history(&self, limit: usize) -> (r: Vec<RequestMetrics>)
        requires
            self.wf(),
        ensures
            r@.len() == (if limit < self.history().len() {
                limit as nat
            } else {
                self.history().len()
            }),
            forall|i: int|
                0 <= i < r@.len() ==> self.history().contains_key(#[trigger] r@[i].request_id@)
                    && self.history()[r@[i].request_id@] == r@[i]@,
            forall|i: int, j: int| 0 <= i < j < r@.len() ==> r@[i].request_id@ != r@[j].request_id@,
    {
        let entries = requests_listed(&self.request_history);
        let mut r: Vec<RequestMetrics> = Vec::new();
        let mut i: usize = 0;
        while i < entries.len() && i < limit
            invariant
                i <= entries@.len(),
                i <= limit,
                r@.len() == i,
                self.wf(),
                entries@.len() == self.history().len(),
                forall|a: int|
                    0 <= a < entries@.len() ==> self.history().contains_key(#[trigger] entries@[a].0@)
                        && self.history()[entries@[a].0@] == entries@[a].1@,
                forall|a: int, b: int| 0 <= a < b < entries@.len() ==> entries@[a].0@ != entries@[b].0@,
                forall|a: int| 0 <= a < i ==> #[trigger] r@[a]@ == entries@[a].1@,
            decreases entries@.len() - i,
        {
            r.push(entries[i].1.copied());
            i = i + 1;
        }
        proof {
            assert forall|a: int| 0 <= a < r@.len() implies self.history().contains_key(#[trigger] r@[a].request_id@)
                && self.history()[r@[a].request_id@] == r@[a]@ by {
                assert(r@[a]@ == entries@[a].1@);
                assert(self.history().contains_key(entries@[a].0@));
            }
            assert forall|a: int, b: int| 0 <= a < b < r@.len() implies r@[a].request_id@ != r@[b].request_id@ by {
                assert(r@[a]@ == entries@[a].1@);
                assert(r@[b]@ == entries@[b].1@);
                assert(self.history().contains_key(entries@[a].0@));
                assert(self.history().contains_key(entries@[b].0@));
            }
        }
        r
    }

    /// Forgets the requests recorded `hours` or more hours before `now` (milliseconds since
    /// the Unix epoch): keeps those recorded after `cutoff_of(now, hours in ms)`.
    pub fn clear_history_before(&mut self, now: i64, hours: u64)
        requires
            old(self).wf(),
            hours <= i64::MAX / 3_600_000,
        ensures
            final(self).wf(),
            final(self).history() == recorded_since(old(self).history(), cutoff_of(now, hours * 3_600_000)),
            final(self).requests() == old(self).requests(),
            final(self).latency() == old(self).latency(),
            final(self).hits() == old(self).hits(),
            final(self).misses() == old(self).misses(),
            final(self).switches() == old(self).switches(),
    {
        let cutoff = cutoff_before(now, hours as i64 * 3_600_000);
        requests_retain_newer(&mut self.request_history, cutoff);
        proof {
            let m0 = old(self).history();
            let m1 = recorded_since(m0, cutoff);
            assert(m1.dom() =~= m0.dom().filter(|k: Seq<char>| m0[k].timestamp > cutoff));
            assert(m1.dom().finite());
        }
    }

    /// Forgets the requests recorded `hours` or more hours ago, by the clock.
    pub fn clear_old_history(&mut self, hours: u64)
        requires
            old(self).wf(),
            hours <= i64::MAX / 3_600_000,
        ensures
            final(self).wf(),
            exists|now: i64|
                now >= 0 && final(self).history() == recorded_since(
                    old(self).history(),
                    #[trigger] cutoff_of(now, hours * 3_600_000),
                ),
            final(self).requests() == old(self).requests(),
            final(self).latency() == old(self).latency(),
            final(self).hits() == old(self).hits(),
            final(self).misses() == old(self).misses(),
            final(self).switches() == old(self).switches(),
    {
        let now = now_millis();
        self.clear_history_before(now, hours);
    }
}

impl Default for MetricsCollector {
    /// All counters at 0, no request recorded.
    fn default() -> (r: Self)
        ensures
            r.wf(),
            r.requests() == 0,
            r.latency() == 0,
            r.hits() == 0,
            r.misses() == 0,
            r.switches() == 0,
            r.history() == no_requests(),
    {
        MetricsCollector::new()
    }
}

} // verus!
