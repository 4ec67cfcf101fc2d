//! Per-guild limits on concurrent queries, and the cache of loaded models.

use std::collections::HashMap;
use std::collections::VecDeque;
use std::sync::Arc;

use tokio::sync::Semaphore;
use vstd::prelude::*;

use crate::text::same_text;
use crate::util::at_least_one;
use crate::util::raised_to_one;

verus! {

broadcast use vstd::std_specs::hash::group_hash_axioms;

/// `tokio::sync::Semaphore`, the set of permits that limits how many queries
/// run at once. Its permits come and go behind shared references, so a value
/// stands for which semaphore it is, not for the permits that are left.
#[verifier::external_type_specification]
#[verifier::external_body]
pub struct ExSemaphore(Semaphore);

/// The number of permits that a semaphore was made with.
pub uninterp spec fn initial_permits(semaphore: Semaphore) -> nat;

/// `Semaphore::new`: a semaphore with the given number of permits. It panics
/// where they are more than `Semaphore::MAX_PERMITS`, which is an eighth of the
/// largest word. The semaphore is a new one: it is none of those that exist
/// already, of which `others` holds some.
#[allow(unused_variables)]
#[verifier::external_body]
fn new_semaphore(permits: usize, others: &HashMap<u64, Arc<Semaphore>>) -> (r: Semaphore)
    requires
        permits <= usize::MAX / 8,
    ensures
        initial_permits(r) == permits,
        forall|n: u64| #[trigger] others@.contains_key(n) ==> *others@[n] != r,
{
    Semaphore::new(permits)
}

/// A model in the cache.
struct CacheEntry<M> {
    namespace: u64,
    name: String,
    model: M,
}

/// What a cached model stands for.
pub struct CacheItem<M> {
    pub namespace: u64,
    pub name: Seq<char>,
    pub model: M,
}

/// A bounded model cache keyed by namespace and name. The model that was
/// cached first is the first to go.
pub struct ModelCache<M> {
    entries: VecDeque<CacheEntry<M>>,
    capacity: usize,
}

/// Whether an item is cached under the given key.
pub open spec fn has_key<M>(item: CacheItem<M>, namespace: u64, name: Seq<char>) -> bool {
    item.namespace == namespace && item.name == name
}

/// The model that is cached under the given key.
pub open spec fn lookup<M>(items: Seq<CacheItem<M>>, namespace: u64, name: Seq<char>) -> Option<M>
    decreases items.len(),
{
    if items.len() == 0 {
        None
    } else if has_key(items[0], namespace, name) {
        Some(items[0].model)
    } else {
        lookup(items.drop_first(), namespace, name)
    }
}

/// The last `n` items.
pub open spec fn last_items<T>(items: Seq<T>, n: nat) -> Seq<T> {
    if items.len() <= n {
        items
    } else {
        items.skip(items.len() - n)
    }
}

/// The cache after a model was loaded: nothing changes where the key is there
/// already; else the model comes last, and what was cached first makes room.
pub open spec fn cached<M>(
    items: Seq<CacheItem<M>>,
    namespace: u64,
    name: Seq<char>,
    model: M,
    capacity: nat,
) -> Seq<CacheItem<M>> {
    if lookup(items, namespace, name) is Some {
        items
    } else {
        last_items(items.push(CacheItem { namespace, name, model }), capacity)
    }
}

/// Whether no two items have the same key.
pub open spec fn distinct_keys<M>(items: Seq<CacheItem<M>>) -> bool {
    forall|i: int, j: int|
        0 <= i < j < items.len() ==> !has_key(
            #[trigger] items[i],
            (#[trigger] items[j]).namespace,
            items[j].name,
        )
}

/// A key that no item has is not found; a key that an item has is found.
pub proof fn lemma_lookup<M>(items: Seq<CacheItem<M>>, namespace: u64, name: Seq<char>, n: int)
    requires
        0 <= n <= items.len(),
        forall|i: int| 0 <= i < n ==> !has_key(#[trigger] items[i], namespace, name),
        n == items.len() || has_key(items[n], namespace, name),
    ensures
        lookup(items, namespace, name) == if n < items.len() {
            Some(items[n].model)
        } else {
            None
        },
    decreases items.len(),
{
    if n > 0 {
        assert(!has_key(items[0], namespace, name));
        let tail = items.drop_first();
        assert forall|i: int| 0 <= i < n - 1 implies !has_key(
            #[trigger] tail[i],
            namespace,
            name,
        ) by {
            assert(tail[i] == items[i + 1]);
        }
        lemma_lookup(tail, namespace, name, n - 1);
    }
}

/// Where a key is not found, no item has it.
pub proof fn lemma_lookup_none<M>(items: Seq<CacheItem<M>>, namespace: u64, name: Seq<char>)
    requires
        lookup(items, namespace, name) is None,
    ensures
        forall|i: int| 0 <= i < items.len() ==> !has_key(#[trigger] items[i], namespace, name),
    decreases items.len(),
{
    if items.len() > 0 {
        let tail = items.drop_first();
        lemma_lookup_none(tail, namespace, name);
        assert forall|i: int| 0 <= i < items.len() implies !has_key(
            #[trigger] items[i],
            namespace,
            name,
        ) by {
            if i > 0 {
                assert(tail[i - 1] == items[i]);
            }
        }
    }
}

/// A model that was just loaded is found, as long as the cache holds anything.
pub proof fn law_loaded_model_is_cached<M>(
    items: Seq<CacheItem<M>>,
    namespace: u64,
    name: Seq<char>,
    model: M,
    capacity: nat,
)
    requires
        capacity >= 1,
        lookup(items, namespace, name) is None,
    ensures
        lookup(cached(items, namespace, name, model, capacity), namespace, name) == Some(model),
{
    lemma_lookup_none(items, namespace, name);
    let item = CacheItem { namespace, name, model };
    let all = items.push(item);
    let kept = last_items(all, capacity);
    let d = all.len() - kept.len();
    assert forall|i: int| 0 <= i < kept.len() - 1 implies !has_key(
        #[trigger] kept[i],
        namespace,
        name,
    ) by {
        assert(kept[i] == items[i + d]);
    }
    assert(kept[kept.len() - 1] == item);
    lemma_lookup(kept, namespace, name, kept.len() - 1);
}

/// A model that is cached already stays as it is: caching the same key again
/// changes nothing.
pub proof fn law_cached_model_is_kept<M>(
    items: Seq<CacheItem<M>>,
    namespace: u64,
    name: Seq<char>,
    model: M,
    capacity: nat,
)
    requires
        lookup(items, namespace, name) is Some,
    ensures
        cached(items, namespace, name, model, capacity) == items,
{
}

/// Caching keeps the keys distinct and the cache within its capacity.
pub proof fn law_cache_stays_bounded<M>(
    items: Seq<CacheItem<M>>,
    namespace: u64,
    name: Seq<char>,
    model: M,
    capacity: nat,
)
    requires
        items.len() <= capacity,
        distinct_keys(items),
    ensures
        cached(items, namespace, name, model, capacity).len() <= capacity,
        distinct_keys(cached(items, namespace, name, model, capacity)),
{
    if lookup(items, namespace, name) is None {
        lemma_lookup_none(items, namespace, name);
        let all = items.push(CacheItem { namespace, name, model });
        assert(distinct_keys(all));
        let kept = last_items(all, capacity);
        let d = all.len() - kept.len();
        assert forall|i: int, j: int| 0 <= i < j < kept.len() implies !has_key(
            #[trigger] kept[i],
            (#[trigger] kept[j]).namespace,
            kept[j].name,
        ) by {
            assert(kept[i] == all[i + d]);
            assert(kept[j] == all[j + d]);
        }
    }
}

/// In a full cache a new model takes the place of the one that was cached
/// first; the others stay, in their order.
pub proof fn law_full_cache_drops_oldest<M>(
    items: Seq<CacheItem<M>>,
    namespace: u64,
    name: Seq<char>,
    model: M,
    capacity: nat,
)
    requires
        capacity >= 1,
        items.len() == capacity,
        lookup(items, namespace, name) is None,
    ensures
        cached(items, namespace, name, model, capacity) == items.drop_first().push(
            CacheItem { namespace, name, model },
        ),
{
}

impl<M> ModelCache<M> {
    /// The cached models, those cached first coming first.
    pub closed spec fn items(&self) -> Seq<CacheItem<M>> {
        self.entries@.map_values(
            |e: CacheEntry<M>| CacheItem { namespace: e.namespace, name: e.name@, model: e.model },
        )
    }

    /// The number of models that the cache can hold.
    pub closed spec fn limit(&self) -> nat {
        self.capacity as nat
    }

    /// The cache holds no key twice, and no more than it may.
    pub open spec fn wf(&self) -> bool {
        &&& self.items().len() <= self.limit()
        &&& distinct_keys(self.items())
    }

    /// An empty cache.
    pub fn new(capacity: usize) -> (r: Self)
        ensures
            r.wf(),
            r.items() == Seq::<CacheItem<M>>::empty(),
            r.limit() == capacity,
    {
        let r = ModelCache { entries: VecDeque::new(), capacity };
        assert(r.items() == Seq::<CacheItem<M>>::empty());
        r
    }

    /// The model cached under the given key.
    pub fn get(&self, namespace: u64, name: &str) -> (r: Option<&M>)
        ensures
            match r {
                Some(model) => lookup(self.items(), namespace, name@) == Some(*model),
                None => lookup(self.items(), namespace, name@) is None,
            },
    {
        let ghost items = self.items();
        for i in 0..self.entries.len()
            invariant
                items == self.items(),
                forall|j: int| 0 <= j < i ==> !has_key(#[trigger] items[j], namespace, name@),
        {
            let entry = &self.entries[i];
            assert(items[i as int].model == entry.model);
            if entry.namespace == namespace && same_text(entry.name.as_str(), name) {
                proof {
                    lemma_lookup(items, namespace, name@, i as int);
                }
                return Some(&entry.model);
            }
        }
        proof {
            lemma_lookup(items, namespace, name@, items.len() as int);
        }
        None
    }

    /// Caches a model. A key that is cached already keeps its model.
    pub fn insert(&mut self, namespace: u64, name: String, model: M)
        requires
            old(self).wf(),
        ensures
            final(self).wf(),
            final(self).limit() == old(self).limit(),
            final(self).items() == cached(
                old(self).items(),
                namespace,
                name@,
                model,
                old(self).limit(),
            ),
    {
        proof {
            law_cache_stays_bounded(self.items(), namespace, name@, model, self.limit());
        }
        if self.get(namespace, name.as_str()).is_some() {
            return;
        }
        let ghost before = self.items();
        let ghost all = before.push(CacheItem { namespace, name: name@, model });
        self.entries.push_back(CacheEntry { namespace, name, model });
        assert(self.items() == all);
        assert(all.skip(0) == all);
        while self.entries.len() > self.capacity
            invariant
                self.limit() == old(self).limit(),
                self.items().len() <= all.len(),
                all.len() <= self.limit() ==> self.items().len() == all.len(),
                all.len() > self.limit() ==> self.items().len() >= self.limit(),
                self.items() == all.skip(all.len() - self.items().len()),
            decreases self.items().len(),
        {
            let ghost now = self.items();
            let _oldest = self.entries.pop_front();
            assert(self.items() == now.drop_first());
            assert(now.drop_first() == all.skip(all.len() - now.len() + 1));
        }
        assert(self.items() == last_items(all, self.limit()));
    }
}

/// Keeps model queries within per-guild concurrency limits, and caches loaded
/// models across queries.
pub struct QueryEngine<M> {
    semaphores: HashMap<u64, Arc<Semaphore>>,
    cache: ModelCache<M>,
    per_guild_capacity: usize,
    cache_capacity: usize,
}

impl<M> QueryEngine<M> {
    /// The semaphore of each namespace that was queried.
    pub closed spec fn semaphores(&self) -> Map<u64, Arc<Semaphore>> {
        self.semaphores@
    }

    /// How many queries of one namespace may run at once.
    pub closed spec fn per_guild(&self) -> usize {
        self.per_guild_capacity
    }

    /// The cached models.
    pub closed spec fn cached_items(&self) -> Seq<CacheItem<M>> {
        self.cache.items()
    }

    /// The number of models that the cache can hold.
    pub closed spec fn cache_limit(&self) -> usize {
        self.cache_capacity
    }

    /// Every namespace has its own semaphore, made with the configured number
    /// of permits, and the cache keeps its bounds.
    pub closed spec fn wf(&self) -> bool {
        &&& self.per_guild_capacity >= 1
        &&& self.cache_capacity >= 1
        &&& self.cache.wf()
        &&& self.cache.limit() == self.cache_capacity
        &&& forall|n: u64| #[trigger]
            self.semaphores@.contains_key(n) ==> initial_permits(*self.semaphores@[n])
                == self.per_guild_capacity
        &&& forall|a: u64, b: u64|
            a != b && #[trigger] self.semaphores@.contains_key(a)
                && #[trigger] self.semaphores@.contains_key(b) ==> *self.semaphores@[a]
                != *self.semaphores@[b]
    }

    /// An engine with the given limits, each at least one.
    pub fn new(per_guild_capacity: usize, cache_capacity: usize) -> (r: Self)
        ensures
            r.wf(),
            r.semaphores() == Map::<u64, Arc<Semaphore>>::empty(),
            r.per_guild() == at_least_one(per_guild_capacity),
            r.cache_limit() == at_least_one(cache_capacity),
            r.cached_items() == Seq::<CacheItem<M>>::empty(),
    {
        let per_guild_capacity: usize = raised_to_one(per_guild_capacity);
        let cache_capacity: usize = raised_to_one(cache_capacity);
        QueryEngine {
            semaphores: HashMap::new(),
            cache: ModelCache::new(cache_capacity),
            per_guild_capacity,
            cache_capacity,
        }
    }

    /// What well-formedness gives: a namespace's semaphore has the configured
    /// number of permits and is shared with no other namespace, and the cache
    /// holds no more than it may.
    pub proof fn law_limits_hold(&self, namespace: u64, other: u64)
        requires
            self.wf(),
        ensures
            self.per_guild() >= 1,
            self.cache_limit() >= 1,
            self.semaphores().contains_key(namespace) ==> initial_permits(
                *self.semaphores()[namespace],
            ) == self.per_guild(),
            other != namespace && self.semaphores().contains_key(namespace)
                && self.semaphores().contains_key(other) ==> *self.semaphores()[namespace]
                != *self.semaphores()[other],
            self.cached_items().len() <= self.cache_limit(),
            distinct_keys(self.cached_items()),
    {
    }

    /// The number of permits that each namespace gets.
    pub fn per_guild_limit(&self) -> (r: usize)
        ensures
            r == self.per_guild(),
    {
        self.per_guild_capacity
    }

    /// The semaphore that limits the queries of a namespace. It is made at the
    /// namespace's first query, for that namespace alone, and is the same one
    /// ever after.
    pub fn semaphore(&mut self, namespace: u64) -> (r: Arc<Semaphore>)
        requires
            old(self).wf(),
            old(self).per_guild() <= usize::MAX / 8,
        ensures
            final(self).wf(),
            final(self).per_guild() == old(self).per_guild(),
            final(self).cache_limit() == old(self).cache_limit(),
            final(self).cached_items() == old(self).cached_items(),
            old(self).semaphores().contains_key(namespace) ==> {
                &&& r == old(self).semaphores()[namespace]
                &&& final(self).semaphores() == old(self).semaphores()
            },
            !old(self).semaphores().contains_key(namespace) ==> final(self).semaphores() == old(
                self,
            ).semaphores().insert(namespace, r),
            initial_permits(*r) == old(self).per_guild(),
            forall|other: u64|
                other != namespace && #[trigger] old(self).semaphores().contains_key(other)
                    ==> *old(self).semaphores()[other] != *r,
    {
        if let Some(semaphore) = self.semaphores.get(&namespace) {
            return Arc::clone(semaphore);
        }
        let semaphore = Arc::new(
            new_semaphore(self.per_guild_capacity, &self.semaphores),
        );
        self.semaphores.insert(namespace, Arc::clone(&semaphore));
        semaphore
    }

    /// The model cached for a namespace under the given name. Where there is
    /// none, the model is to be loaded.
    pub fn cached_model(&self, namespace: u64, name: &str) -> (r: Option<&M>)
        ensures
            match r {
                Some(model) => lookup(self.cached_items(), namespace, name@) == Some(*model),
                None => lookup(self.cached_items(), namespace, name@) is None,
            },
    {
        self.cache.get(namespace, name)
    }

    /// Caches a model that was loaded.
    pub fn model_loaded(&mut self, namespace: u64, name: String, model: M)
        requires
            old(self).wf(),
        ensures
            final(self).wf(),
            final(self).per_guild() == old(self).per_guild(),
            final(self).cache_limit() == old(self).cache_limit(),
            final(self).semaphores() == old(self).semaphores(),
            final(self).cached_items() == cached(
                old(self).cached_items(),
                namespace,
                name@,
                model,
                old(self).cache_limit() as nat,
            ),
    {
        self.cache.insert(namespace, name, model);
    }
}

/// As long as there is room, a new model comes behind those that are cached, and
/// every other key finds what it found before.
pub proof fn law_room_keeps_every_model<M>(
    items: Seq<CacheItem<M>>,
    namespace: u64,
    name: Seq<char>,
    model: M,
    capacity: nat,
    other: u64,
    other_name: Seq<char>,
)
    requires
        items.len() < capacity,
        lookup(items, namespace, name) is None,
        other != namespace || other_name != name,
    ensures
        cached(items, namespace, name, model, capacity) == items.push(
            CacheItem { namespace, name, model },
        ),
        lookup(cached(items, namespace, name, model, capacity), other, other_name) == lookup(
            items,
            other,
            other_name,
        ),
{
    lemma_lookup_push(items, CacheItem { namespace, name, model }, other, other_name);
}

proof fn lemma_lookup_push<M>(
    items: Seq<CacheItem<M>>,
    item: CacheItem<M>,
    namespace: u64,
    name: Seq<char>,
)
    requires
        !has_key(item, namespace, name),
    ensures
        lookup(items.push(item), namespace, name) == lookup(items, namespace, name),
    decreases items.len(),
{
    if items.len() > 0 {
        assert(items.push(item)[0] == items[0]);
        assert(items.push(item).drop_first() == items.drop_first().push(item));
        lemma_lookup_push(items.drop_first(), item, namespace, name);
    } else {
        assert(items.push(item).drop_first() == items);
        assert(items.push(item)[0] == item);
    }
}

/// A key finds a model exactly where an item has the very namespace and the very
/// name.
pub proof fn law_lookup<M>(a: Seq<CacheItem<M>>, item: CacheItem<M>, b: Seq<CacheItem<M>>)
    requires
        forall|i: int|
            0 <= i < a.len() ==> (#[trigger] a[i]).namespace != item.namespace || a[i].name
                != item.name,
    ensures
        lookup(a + seq![item] + b, item.namespace, item.name) == Some(item.model),
        lookup(a, item.namespace, item.name) is None,
{
    let all = a + seq![item] + b;
    assert forall|i: int| 0 <= i < a.len() implies !has_key(
        #[trigger] all[i],
        item.namespace,
        item.name,
    ) by {
        assert(all[i] == a[i]);
    }
    assert(all[a.len() as int] == item);
    lemma_lookup(all, item.namespace, item.name, a.len() as int);
    lemma_lookup(a, item.namespace, item.name, a.len() as int);
}

} // verus!
