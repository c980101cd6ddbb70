use vstd::prelude::*;
use dashmap::DashMap;
use crate::base::types::{string_views, ModelWorkerInfo, ModelWorkerInfoView, WorkerStatus};
use crate::base::error::{concat3, OrchestratorError};

verus! {

/// What a registry's map holds: model id to worker.
pub uninterp spec fn registry_entries(m: DashMap<String, ModelWorkerInfo>) -> Map<
    Seq<char>,
    ModelWorkerInfoView,
>;

/// The map with no models.
pub open spec fn no_models() -> Map<Seq<char>, ModelWorkerInfoView> {
    Map::empty()
}

/// `DashMap::new`: an empty map.
#[verifier::external_body]
fn models_new() -> (m: DashMap<String, ModelWorkerInfo>)
    ensures
        registry_entries(m) == no_models(),
{
    DashMap::new()
}

/// `DashMap::contains_key`.
#[verifier::external_body]
fn models_contains(m: &DashMap<String, ModelWorkerInfo>, k: &str) -> (r: bool)
    ensures
        r == registry_entries(*m).contains_key(k@),
{
    m.contains_key(k)
}

/// `DashMap::insert`: the key now maps to the value, other keys are unchanged.
#[verifier::external_body]
fn models_insert(m: &mut DashMap<String, ModelWorkerInfo>, k: String, v: ModelWorkerInfo)
    ensures
        registry_entries(*final(m)) == registry_entries(*old(m)).insert(k@, v@),
{
    m.insert(k, v);
}

/// `DashMap::remove`: whether the key was there; it is gone afterwards.
#[verifier::external_body]
fn models_remove(m: &mut DashMap<String, ModelWorkerInfo>, k: &str) -> (r: bool)
    ensures
        r == registry_entries(*old(m)).contains_key(k@),
        registry_entries(*final(m)) == registry_entries(*old(m)).remove(k@),
{
    m.remove(k).is_some()
}

/// `DashMap::get`, with the entry cloned out.
#[verifier::external_body]
fn models_get(m: &DashMap<String, ModelWorkerInfo>, k: &str) -> (r: Option<ModelWorkerInfo>)
    ensures
        match r {
            Some(v) => registry_entries(*m).contains_key(k@) && v@ == registry_entries(*m)[k@],
            None => !registry_entries(*m).contains_key(k@),
        },
{
    m.get(k).map(|e| e.value().clone())
}

/// `DashMap::len`.
#[verifier::external_body]
fn models_len(m: &DashMap<String, ModelWorkerInfo>) -> (r: usize)
    ensures
        r == registry_entries(*m).len(),
{
    m.len()
}

/// `DashMap::clear`.
#[verifier::external_body]
fn models_clear(m: &mut DashMap<String, ModelWorkerInfo>)
    ensures
        registry_entries(*final(m)) == no_models(),
{
    m.clear();
}

/// `DashMap::iter`, each entry cloned out: every entry once, in the map's own order,
/// which nothing here fixes.
#[verifier::external_body]
fn models_entries(m: &DashMap<String, ModelWorkerInfo>) -> (r: Vec<(String, ModelWorkerInfo)>)
    ensures
        r@.len() == registry_entries(*m).len(),
        forall|i: int|
            0 <= i < r@.len() ==> registry_entries(*m).contains_key(#[trigger] r@[i].0@)
                && registry_entries(*m)[r@[i].0@] == r@[i].1@,
        forall|i: int, j: int| 0 <= i < j < r@.len() ==> r@[i].0@ != r@[j].0@,
        forall|k: Seq<char>|
            #[trigger] registry_entries(*m).contains_key(k) ==> exists|i: int|
                0 <= i < r@.len() && r@[i].0@ == k,
{
    m.iter().map(|e| (e.key().clone(), e.value().clone())).collect()
}

} // verus!

verus! {

/// Whether a worker is healthy.
pub open spec fn is_healthy_view(v: ModelWorkerInfoView) -> bool {
    v.status == WorkerStatus::Healthy
}

/// Whether a worker is healthy and lists `task` among its tasks.
pub open spec fn serves_task(v: ModelWorkerInfoView, task: Seq<char>) -> bool {
    v.status == WorkerStatus::Healthy && v.supported_tasks.contains(task)
}

/// `r` lists, each once and in some order, the workers of `m` that satisfy `pred`.
pub open spec fn lists_exactly(
    r: Seq<ModelWorkerInfoView>,
    m: Map<Seq<char>, ModelWorkerInfoView>,
    pred: spec_fn(ModelWorkerInfoView) -> bool,
) -> bool {
    &&& forall|i: int|
        0 <= i < r.len() ==> m.contains_key(#[trigger] r[i].model_id) && m[r[i].model_id] == r[i]
            && pred(r[i])
    &&& forall|i: int, j: int| 0 <= i < j < r.len() ==> r[i].model_id != r[j].model_id
    &&& forall|k: Seq<char>|
        #[trigger] m.contains_key(k) && pred(m[k]) ==> exists|i: int|
            0 <= i < r.len() && r[i].model_id == k
}

/// The ids of the workers of `m` that satisfy `pred`.
pub open spec fn ids_where(
    m: Map<Seq<char>, ModelWorkerInfoView>,
    pred: spec_fn(ModelWorkerInfoView) -> bool,
) -> Set<Seq<char>> {
    m.dom().filter(|k: Seq<char>| pred(m[k]))
}

/// The views of a list of workers.
pub open spec fn views_of(v: Seq<ModelWorkerInfo>) -> Seq<ModelWorkerInfoView> {
    v.map_values(|w: ModelWorkerInfo| w@)
}

/// A worker registered under a new id is found under it, and the registry holds one worker
/// more.
pub proof fn law_registered_worker_is_found(m: Map<Seq<char>, ModelWorkerInfoView>, w: ModelWorkerInfoView)
    requires
        m.dom().finite(),
        !m.contains_key(w.model_id),
    ensures
        m.insert(w.model_id, w).contains_key(w.model_id),
        m.insert(w.model_id, w)[w.model_id] == w,
        m.insert(w.model_id, w).len() == m.len() + 1,
{
}

/// A deregistered worker is no longer found, and the registry holds one worker less.
pub proof fn law_deregistered_worker_is_gone(m: Map<Seq<char>, ModelWorkerInfoView>, id: Seq<char>)
    requires
        m.dom().finite(),
        m.contains_key(id),
    ensures
        !m.remove(id).contains_key(id),
        m.remove(id).len() == m.len() - 1,
{
}

/// Deregistering a worker just registered under a new id leaves the registry as it was.
pub proof fn law_deregister_undoes_register(m: Map<Seq<char>, ModelWorkerInfoView>, w: ModelWorkerInfoView)
    requires
        !m.contains_key(w.model_id),
    ensures
        m.insert(w.model_id, w).remove(w.model_id) == m,
{
    assert(m.insert(w.model_id, w).remove(w.model_id) =~= m);
}

/// Discovery and health tracking of model workers, keyed by model id.
pub struct ServiceRegistry {
    models: DashMap<String, ModelWorkerInfo>,
    healthy_models_cache: Vec<String>,
}

impl View for ServiceRegistry {
    type V = Map<Seq<char>, ModelWorkerInfoView>;

    closed spec fn view(&self) -> Map<Seq<char>, ModelWorkerInfoView> {
        registry_entries(self.models)
    }
}

impl ServiceRegistry {
    /// Well-formed: finitely many workers, each under its own id.
    pub open spec fn wf(&self) -> bool {
        &&& self@.dom().finite()
        &&& forall|k: Seq<char>| #[trigger] self@.contains_key(k) ==> self@[k].model_id == k
    }

    /// An empty registry.
    pub fn new() -> (r: Self)
        ensures
            r.wf(),
            r@ == no_models(),
    {
        ServiceRegistry { models: models_new(), healthy_models_cache: Vec::new() }
    }

    /// Registers a worker under its model id; an id that is already registered is refused
    /// and the registry is left as it was.
    pub fn register(&mut self, model: ModelWorkerInfo) -> (r: crate::base::error::Result<()>)
        requires
            old(self).wf(),
        ensures
            final(self).wf(),
            old(self)@.contains_key(model.model_id@) ==> final(self)@ == old(self)@ && (r matches Err(
                OrchestratorError::InternalError(m),
            ) && m@ == model_id_text(model.model_id@, " already registered"@)),
            !old(self)@.contains_key(model.model_id@) ==> r is Ok && final(self)@ == old(
                self,
            )@.insert(model.model_id@, model@),
    {
        if models_contains(&self.models, model.model_id.as_str()) {
            return Err(
                OrchestratorError::InternalError(
                    concat3("Model ", model.model_id.as_str(), " already registered"),
                ),
            );
        }
        let key = model.model_id.clone();
        models_insert(&mut self.models, key, model);
        self.invalidate_cache();
        Ok(())
    }

    /// Removes a worker; an unknown id is an error and changes nothing.
    pub fn deregister(&mut self, model_id: &str) -> (r: core::result::Result<(), String>)
        requires
            old(self).wf(),
        ensures
            final(self).wf(),
            final(self)@ == old(self)@.remove(model_id@),
            match r {
                Ok(()) => old(self)@.contains_key(model_id@),
                Err(e) => !old(self)@.contains_key(model_id@) && e@ == model_id_text(
                    model_id@,
                    " not found"@,
                ),
            },
    {
        if !models_remove(&mut self.models, model_id) {
            return Err(concat3("Model ", model_id, " not found"));
        }
        self.invalidate_cache();
        Ok(())
    }

    /// Sets the status of a worker; an unknown id is an error and changes nothing.
    pub fn update_status(&mut self, model_id: &str, status: WorkerStatus) -> (r: core::result::Result<
        (),
        String,
    >)
        requires
            old(self).wf(),
        ensures
            final(self).wf(),
            match r {
                Ok(()) => old(self)@.contains_key(model_id@) && final(self)@ == old(self)@.insert(
                    model_id@,
                    ModelWorkerInfoView { status: status, ..old(self)@[model_id@] },
                ),
                Err(e) => !old(self)@.contains_key(model_id@) && final(self)@ == old(self)@ && e@
                    == model_id_text(model_id@, " not found"@),
            },
    {
        match models_get(&self.models, model_id) {
            Some(mut model) => {
                model.status = status;
                let key = String::from_str(model_id);
                models_insert(&mut self.models, key, model);
                self.invalidate_cache();
                Ok(())
            },
            None => Err(concat3("Model ", model_id, " not found")),
        }
    }

    /// The worker registered under an id.
    pub fn get_model(&self, model_id: &str) -> (r: Option<ModelWorkerInfo>)
        requires
            self.wf(),
        ensures
            match r {
                Some(v) => self@.contains_key(model_id@) && v@ == self@[model_id@],
                None => !self@.contains_key(model_id@),
            },
    {
        models_get(&self.models, model_id)
    }

    /// The workers that satisfy the filter: healthy ones if `healthy_only`, and serving
    /// `task` if one is given.
    fn select(&self, healthy_only: bool, task: Option<&str>) -> (r: Vec<ModelWorkerInfo>)
        requires
            self.wf(),
        ensures
            lists_exactly(
                views_of(r@),
                self@,
                |v: ModelWorkerInfoView|
                    match task {
                        Some(t) => serves_task(v, t@),
                        None => !healthy_only || is_healthy_view(v),
                    },
            ),
    {
        let ghost pred = |v: ModelWorkerInfoView|
            match task {
                Some(t) => serves_task(v, t@),
                None => !healthy_only || is_healthy_view(v),
            };
        let entries = models_entries(&self.models);
        let mut r: Vec<ModelWorkerInfo> = Vec::new();
        let ghost mut idx: Seq<int> = Seq::empty();
        for i in 0..entries.len()
            invariant
                self.wf(),
                pred == (|v: ModelWorkerInfoView|
                    match task {
                        Some(t) => serves_task(v, t@),
                        None => !healthy_only || is_healthy_view(v),
                    }),
                entries@.len() == self@.len(),
                forall|a: int|
                    0 <= a < entries@.len() ==> self@.contains_key(#[trigger] entries@[a].0@)
                        && self@[entries@[a].0@] == entries@[a].1@,
                forall|a: int, b: int|
                    0 <= a < b < entries@.len() ==> entries@[a].0@ != entries@[b].0@,
                idx.len() == r@.len(),
                forall|a: int|
                    0 <= a < idx.len() ==> 0 <= #[trigger] idx[a] < i && r@[a]@ == entries@[idx[a]].1@
                        && pred(r@[a]@),
                forall|a: int, c: int| 0 <= a < c < idx.len() ==> #[trigger] idx[a] < #[trigger] idx[c],
                forall|b: int|
                    0 <= b < i && pred(#[trigger] entries@[b].1@) ==> exists|a: int|
                        0 <= a < idx.len() && idx[a] == b,
        {
            let item = &entries[i].1;
            let keep = match task {
                Some(t) => item.status == WorkerStatus::Healthy && list_contains(
                    &item.supported_tasks,
                    t,
                ),
                None => !healthy_only || item.status == WorkerStatus::Healthy,
            };
            assert(keep == pred(entries@[i as int].1@));
            let ghost old_idx = idx;
            if keep {
                r.push(item.copied());
                proof {
                    idx = idx.push(i as int);
                    assert(idx[idx.len() - 1] == i);
                }
            }
            proof {
                assert forall|b: int| 0 <= b < i + 1 && pred(#[trigger] entries@[b].1@) implies exists|a: int|
                    0 <= a < idx.len() && idx[a] == b by {
                    if b < i {
                        let a = choose|a: int| 0 <= a < old_idx.len() && old_idx[a] == b;
                        assert(idx[a] == b);
                    } else {
                        assert(idx[idx.len() - 1] == b);
                    }
                }
            }
        }
        proof {
            let rv = views_of(r@);
            assert forall|a: int| 0 <= a < rv.len() implies self@.contains_key(#[trigger] rv[a].model_id)
                && self@[rv[a].model_id] == rv[a] && pred(rv[a]) by {
                let b = idx[a];
                assert(self@[entries@[b].0@].model_id == entries@[b].0@);
            }
            assert forall|a: int, c: int| 0 <= a < c < rv.len() implies rv[a].model_id != rv[c].model_id by {
                let b = idx[a];
                let d = idx[c];
                assert(b < d);
                assert(self@[entries@[b].0@].model_id == entries@[b].0@);
                assert(self@[entries@[d].0@].model_id == entries@[d].0@);
            }
            assert forall|k: Seq<char>| #[trigger] self@.contains_key(k) && pred(self@[k]) implies exists|a: int|
                0 <= a < rv.len() && rv[a].model_id == k by {
                let b = choose|b: int| 0 <= b < entries@.len() && entries@[b].0@ == k;
                assert(pred(entries@[b].1@));
                let a = choose|a: int| 0 <= a < idx.len() && idx[a] == b;
                assert(self@[k].model_id == k);
                assert(rv[a].model_id == k);
            }
        }
        r
    }

    /// All healthy workers, each once, in an order that nothing fixes.
    pub fn get_healthy_models(&self) -> (r: Vec<ModelWorkerInfo>)
        requires
            self.wf(),
        ensures
            lists_exactly(views_of(r@), self@, |v: ModelWorkerInfoView| is_healthy_view(v)),
    {
        self.select(true, None)
    }

    /// All healthy workers that serve a task, each once, in an order that nothing fixes.
    pub fn get_models_by_task(&self, task: &str) -> (r: Vec<ModelWorkerInfo>)
        requires
            self.wf(),
        ensures
            lists_exactly(views_of(r@), self@, |v: ModelWorkerInfoView| serves_task(v, task@)),
    {
        self.select(true, Some(task))
    }

    /// Every registered worker, each once, in an order that nothing fixes.
    pub fn list_all_models(&self) -> (r: Vec<ModelWorkerInfo>)
        requires
            self.wf(),
        ensures
            lists_exactly(views_of(r@), self@, |v: ModelWorkerInfoView| true),
    {
        self.select(false, None)
    }

    /// A healthy worker with the least load; `None` when no worker is healthy. Among
    /// equally loaded workers, which one comes back is not fixed.
    pub fn get_least_loaded_model(&self) -> (r: Option<ModelWorkerInfo>)
        requires
            self.wf(),
        ensures
            match r {
                None => forall|k: Seq<char>|
                    #[trigger] self@.contains_key(k) ==> !is_healthy_view(self@[k]),
                Some(v) => self@.contains_key(v.model_id@) && self@[v.model_id@] == v@
                    && is_healthy_view(v@) && forall|k: Seq<char>|
                    #[trigger] self@.contains_key(k) && is_healthy_view(self@[k])
                        ==> v.current_load <= self@[k].current_load,
            },
    {
        let healthy = self.get_healthy_models();
        let ghost hv = views_of(healthy@);
        if healthy.len() == 0 {
            proof {
                assert forall|k: Seq<char>| #[trigger] self@.contains_key(k) implies !is_healthy_view(self@[k]) by {
                    if is_healthy_view(self@[k]) {
                        assert((|v: ModelWorkerInfoView| is_healthy_view(v))(self@[k]));
                    }
                }
            }
            return None;
        }
        let mut best: usize = 0;
        for i in 1..healthy.len()
            invariant
                0 <= best < healthy@.len(),
                best < i,
                forall|j: int| 0 <= j < i ==> healthy@[best as int].current_load <= #[trigger] healthy@[j].current_load,
        {
            if healthy[i].current_load < healthy[best].current_load {
                best = i;
            }
        }
        let chosen = healthy[best].copied();
        proof {
            assert(hv[best as int] == healthy@[best as int]@);
            assert(self@.contains_key(hv[best as int].model_id));
            assert(self@[hv[best as int].model_id] == hv[best as int]);
            assert((|v: ModelWorkerInfoView| is_healthy_view(v))(hv[best as int]));
            assert forall|k: Seq<char>| #[trigger] self@.contains_key(k) && is_healthy_view(self@[k])
                implies chosen.current_load <= self@[k].current_load by {
                assert((|v: ModelWorkerInfoView| is_healthy_view(v))(self@[k]));
                let a = choose|a: int| 0 <= a < hv.len() && hv[a].model_id == k;
                assert(hv[a] == healthy@[a]@);
            }
        }
        Some(chosen)
    }

    /// Whether a worker is registered and healthy.
    pub fn is_healthy(&self, model_id: &str) -> (r: bool)
        requires
            self.wf(),
        ensures
            r == (self@.contains_key(model_id@) && is_healthy_view(self@[model_id@])),
    {
        match models_get(&self.models, model_id) {
            Some(m) => m.status == WorkerStatus::Healthy,
            None => false,
        }
    }

    /// The number of registered workers.
    pub fn model_count(&self) -> (n: usize)
        requires
            self.wf(),
        ensures
            n == self@.len(),
    {
        models_len(&self.models)
    }

    /// The number of healthy workers.
    pub fn healthy_model_count(&self) -> (n: usize)
        requires
            self.wf(),
        ensures
            n == ids_where(self@, |v: ModelWorkerInfoView| is_healthy_view(v)).len(),
    {
        let healthy = self.get_healthy_models();
        proof {
            lemma_listed_count(
                views_of(healthy@),
                self@,
                |v: ModelWorkerInfoView| is_healthy_view(v),
            );
        }
        healthy.len()
    }

    /// Forgets the list of healthy ids kept for quick lookup.
    fn invalidate_cache(&mut self)
        ensures
            final(self).models == old(self).models,
            final(self).healthy_models_cache@.len() == 0,
    {
        self.healthy_models_cache.clear();
    }

    /// Removes every worker.
    pub fn clear(&mut self)
        requires
            old(self).wf(),
        ensures
            final(self).wf(),
            final(self)@ == no_models(),
    {
        models_clear(&mut self.models);
        self.invalidate_cache();
    }
}

/// A list that holds exactly the workers that satisfy `pred` is as long as the set of
/// their ids.
pub proof fn lemma_listed_count(
    r: Seq<ModelWorkerInfoView>,
    m: Map<Seq<char>, ModelWorkerInfoView>,
    pred: spec_fn(ModelWorkerInfoView) -> bool,
)
    requires
        lists_exactly(r, m, pred),
        m.dom().finite(),
    ensures
        r.len() == ids_where(m, pred).len(),
{
    let ids = r.map_values(|v: ModelWorkerInfoView| v.model_id);
    assert(ids.no_duplicates()) by {
        assert forall|i: int, j: int| 0 <= i < ids.len() && 0 <= j < ids.len() && i != j implies ids[i]
            != ids[j] by {
            if i < j {
                assert(r[i].model_id != r[j].model_id);
            } else {
                assert(r[j].model_id != r[i].model_id);
            }
        }
    }
    ids.unique_seq_to_set();
    assert(ids.to_set() =~= ids_where(m, pred)) by {
        assert forall|k: Seq<char>| ids.to_set().contains(k) implies ids_where(m, pred).contains(k) by {
            let i = choose|i: int| 0 <= i < ids.len() && ids[i] == k;
            assert(m.contains_key(r[i].model_id));
        }
        assert forall|k: Seq<char>| ids_where(m, pred).contains(k) implies ids.to_set().contains(k) by {
            assert(m.contains_key(k) && pred(m[k]));
            let i = choose|i: int| 0 <= i < r.len() && r[i].model_id == k;
            assert(ids[i] == k);
        }
    }
}

/// "Model " followed by an id and a suffix.
pub open spec fn model_id_text(id: Seq<char>, suffix: Seq<char>) -> Seq<char> {
    "Model "@ + id + suffix
}

/// Whether a list of strings holds `s`.
pub fn list_contains(list: &Vec<String>, s: &str) -> (r: bool)
    ensures
        r == string_views(list@).contains(s@),
{
    let target = String::from_str(s);
    for i in 0..list.len()
        invariant
            target@ == s@,
            forall|j: int| 0 <= j < i ==> list@[j]@ != s@,
    {
        if list[i] == target {
            assert(string_views(list@)[i as int] == s@);
            return true;
        }
    }
    proof {
        let m = string_views(list@);
        if m.contains(s@) {
            let j = choose|j: int| 0 <= j < m.len() && m[j] == s@;
            assert(list@[j]@ == s@);
        }
    }
    false
}

impl Default for ServiceRegistry {
    /// An empty registry.
    fn default() -> (r: Self)
        ensures
            r.wf(),
            r@ == no_models(),
    {
        ServiceRegistry::new()
    }
}

} // verus!
