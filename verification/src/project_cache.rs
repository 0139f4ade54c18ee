//! A cache of project records, reachable by numeric id and by project key,
//! with an optional time-to-live and an optional size limit that evicts the
//! least recently used project.
//!
//! The two lookup tables are `DashMap`s, as in a server that shares the
//! cache between requests; their contents are described by the names
//! [`projects_by_id`] and [`projects_by_key`]. Every operation is stated as
//! a function on [`CacheState`], the mathematical contents of the cache, and
//! the laws below are proved over those functions.

use dashmap::DashMap;
use std::sync::Arc;
use std::time::{Duration, Instant};
use vstd::prelude::*;
use crate::ids::ProjectIdOrKey;

verus! {

#[verifier::external_type_specification]
#[verifier::external_body]
#[verifier::reject_recursive_types(K)]
#[verifier::reject_recursive_types(V)]
#[verifier::reject_recursive_types(S)]
pub struct ExDashMap<K, V, S>(DashMap<K, V, S>);

#[verifier::external_type_specification]
#[verifier::external_body]
pub struct ExInstant(Instant);

/// `Instant::clone`: `Instant` is `Copy`, so the clone is the same instant.
pub assume_specification[ <Instant as Clone>::clone ](i: &Instant) -> (r: Instant)
    ensures
        r == *i,
;

/// How a project formats the text of its issues and wiki pages.
#[derive(Debug, Clone, Copy, PartialEq, Eq)]
pub enum TextFormattingRule {
    Backlog,
    Markdown,
}

/// The formatting rule a name selects: `"backlog"` or `"markdown"`.
pub open spec fn rule_named(s: Seq<char>) -> Option<TextFormattingRule> {
    if s == "backlog"@ {
        Some(TextFormattingRule::Backlog)
    } else if s == "markdown"@ {
        Some(TextFormattingRule::Markdown)
    } else {
        None
    }
}

/// Reads the name of a formatting rule, as the project update command
/// takes it; any other name selects none.
pub fn formatting_rule_named(s: &str) -> (r: Option<TextFormattingRule>)
    ensures
        r == rule_named(s@),
{
    if crate::text::str_equal(s, "backlog") {
        Some(TextFormattingRule::Backlog)
    } else if crate::text::str_equal(s, "markdown") {
        Some(TextFormattingRule::Markdown)
    } else {
        None
    }
}

/// A Backlog project record, as the project detail endpoint returns it.
#[derive(Debug)]
pub struct Project {
    pub id: u32,
    pub project_key: String,
    pub name: String,
    pub chart_enabled: bool,
    pub subtasking_enabled: bool,
    pub project_leader_can_edit_project_leader: bool,
    pub use_wiki: bool,
    pub use_file_sharing: bool,
    pub use_wiki_tree_view: bool,
    pub use_original_image_size_at_wiki: bool,
    pub text_formatting_rule: TextFormattingRule,
    pub archived: bool,
    pub display_order: i64,
    pub use_dev_attributes: bool,
}

/// A cached project and the moment it was stored.
#[derive(Debug, Clone)]
pub struct CacheEntry {
    pub project: Arc<Project>,
    pub cached_at: Instant,
}

/// Settings of a project cache.
#[derive(Debug, Clone)]
pub struct CacheConfig {
    /// How long an entry stays valid; `None` keeps entries forever.
    pub ttl: Option<Duration>,
    /// How many projects the cache holds at most; `None` sets no limit.
    pub max_size: Option<usize>,
}

impl Default for CacheConfig {
    fn default() -> (r: Self)
        ensures
            r.ttl is None,
            r.max_size is None,
    {
        CacheConfig { ttl: None, max_size: None }
    }
}

/// What a `DashMap` from project ids holds.
pub uninterp spec fn projects_by_id(m: DashMap<u32, CacheEntry>) -> Map<u32, CacheEntry>;

/// What a `DashMap` from project keys holds, keys taken by their characters.
pub uninterp spec fn projects_by_key(m: DashMap<String, CacheEntry>) -> Map<Seq<char>, CacheEntry>;

/// The empty id table.
pub open spec fn no_entries_by_id() -> Map<u32, CacheEntry> {
    Map::empty()
}

/// The empty key table.
pub open spec fn no_entries_by_key() -> Map<Seq<char>, CacheEntry> {
    Map::empty()
}

/// `DashMap::new` for the id table: an empty map.
#[verifier::external_body]
fn id_table_new() -> (m: DashMap<u32, CacheEntry>)
    ensures
        projects_by_id(m) == no_entries_by_id(),
{
    DashMap::new()
}

/// `DashMap::new` for the key table: an empty map.
#[verifier::external_body]
fn key_table_new() -> (m: DashMap<String, CacheEntry>)
    ensures
        projects_by_key(m) == no_entries_by_key(),
{
    DashMap::new()
}

/// `DashMap::insert` on the id table: the key now maps to the value, every
/// other key is unchanged.
#[verifier::external_body]
fn id_table_insert(m: &mut DashMap<u32, CacheEntry>, id: u32, entry: CacheEntry)
    ensures
        projects_by_id(*final(m)) == projects_by_id(*old(m)).insert(id, entry),
{
    m.insert(id, entry);
}

/// `DashMap::insert` on the key table.
#[verifier::external_body]
fn key_table_insert(m: &mut DashMap<String, CacheEntry>, key: String, entry: CacheEntry)
    ensures
        projects_by_key(*final(m)) == projects_by_key(*old(m)).insert(key@, entry),
{
    m.insert(key, entry);
}

/// `DashMap::remove` on the id table: drops the key and hands back its value.
#[verifier::external_body]
fn id_table_remove(m: &mut DashMap<u32, CacheEntry>, id: u32) -> (r: Option<CacheEntry>)
    ensures
        projects_by_id(*final(m)) == projects_by_id(*old(m)).remove(id),
        r == (if projects_by_id(*old(m)).contains_key(id) {
            Some(projects_by_id(*old(m))[id])
        } else {
            None
        }),
{
    match m.remove(&id) {
        Some((_, entry)) => Some(entry),
        None => None,
    }
}

/// `DashMap::remove` on the key table.
#[verifier::external_body]
fn key_table_remove(m: &mut DashMap<String, CacheEntry>, key: &str) -> (r: Option<CacheEntry>)
    ensures
        projects_by_key(*final(m)) == projects_by_key(*old(m)).remove(key@),
        r == (if projects_by_key(*old(m)).contains_key(key@) {
            Some(projects_by_key(*old(m))[key@])
        } else {
            None
        }),
{
    match m.remove(key) {
        Some((_, entry)) => Some(entry),
        None => None,
    }
}

/// `DashMap::get` on the id table, the entry copied out of the guard.
#[verifier::external_body]
fn id_table_get(m: &DashMap<u32, CacheEntry>, id: u32) -> (r: Option<CacheEntry>)
    ensures
        r == (if projects_by_id(*m).contains_key(id) {
            Some(projects_by_id(*m)[id])
        } else {
            None
        }),
{
    match m.get(&id) {
        Some(guard) => Some(guard.value().clone()),
        None => None,
    }
}

/// `DashMap::get` on the key table, the entry copied out of the guard.
#[verifier::external_body]
fn key_table_get(m: &DashMap<String, CacheEntry>, key: &str) -> (r: Option<CacheEntry>)
    ensures
        r == (if projects_by_key(*m).contains_key(key@) {
            Some(projects_by_key(*m)[key@])
        } else {
            None
        }),
{
    match m.get(key) {
        Some(guard) => Some(guard.value().clone()),
        None => None,
    }
}

/// `DashMap::len` on the id table: the number of entries.
#[verifier::external_body]
fn id_table_len(m: &DashMap<u32, CacheEntry>) -> (n: usize)
    ensures
        n == projects_by_id(*m).len(),
{
    m.len()
}

/// `DashMap::clear` on the id table.
#[verifier::external_body]
fn id_table_clear(m: &mut DashMap<u32, CacheEntry>)
    ensures
        projects_by_id(*final(m)) == no_entries_by_id(),
{
    m.clear();
}

/// `DashMap::clear` on the key table.
#[verifier::external_body]
fn key_table_clear(m: &mut DashMap<String, CacheEntry>)
    ensures
        projects_by_key(*final(m)) == no_entries_by_key(),
{
    m.clear();
}

/// `Instant::now`. Nothing is stated of the reading of the clock.
#[verifier::external_body]
fn clock_now() -> Instant {
    Instant::now()
}

/// `Instant::elapsed`. Nothing is stated: the result depends on the clock.
#[verifier::external_body]
fn elapsed_since(at: &Instant) -> Duration {
    at.elapsed()
}

/// `Duration::as_nanos`: the whole span in nanoseconds. Nothing is stated
/// of the result: durations are opaque here.
#[verifier::external_body]
fn duration_nanos(d: &Duration) -> u128 {
    d.as_nanos()
}

/// `Arc::clone`: another handle to the same project.
#[verifier::external_body]
fn share(p: &Arc<Project>) -> (r: Arc<Project>)
    ensures
        r == *p,
{
    Arc::clone(p)
}


/// The contents of a project cache: the two lookup tables and the order in
/// which project ids were last used, least recent first.
#[verifier::ext_equal]
pub struct CacheState {
    pub by_id: Map<u32, CacheEntry>,
    pub by_key: Map<Seq<char>, CacheEntry>,
    pub order: Seq<u32>,
}

/// `order` with every occurrence of `id` taken out.
pub open spec fn without(order: Seq<u32>, id: u32) -> Seq<u32>
    decreases order.len(),
{
    if order.len() == 0 {
        order
    } else if order.last() == id {
        without(order.drop_last(), id)
    } else {
        without(order.drop_last(), id).push(order.last())
    }
}

/// `id` moved to the most recent end of the use order.
pub open spec fn touched(order: Seq<u32>, id: u32) -> Seq<u32> {
    without(order, id).push(id)
}

/// The state after making room before a store: when a size limit is set and
/// the id table holds at least that many entries, the least recently used id
/// leaves the use order and the id table, and the key of the entry it had
/// leaves the key table.
pub open spec fn evicted(st: CacheState, max_size: Option<usize>) -> CacheState {
    if max_size is Some && st.by_id.len() >= max_size->0 && st.order.len() > 0 {
        let oldest = st.order[0];
        CacheState {
            by_id: st.by_id.remove(oldest),
            by_key: if st.by_id.contains_key(oldest) {
                st.by_key.remove(st.by_id[oldest].project.project_key@)
            } else {
                st.by_key
            },
            order: st.order.drop_first(),
        }
    } else {
        st
    }
}

/// The state after storing `entry` under its project's id and key, the id
/// becoming the most recently used.
pub open spec fn stored(st: CacheState, entry: CacheEntry) -> CacheState {
    CacheState {
        by_id: st.by_id.insert(entry.project.id, entry),
        by_key: st.by_key.insert(entry.project.project_key@, entry),
        order: touched(st.order, entry.project.id),
    }
}

/// The state after a successful lookup of `id`: only the use order changes.
pub open spec fn used(st: CacheState, id: u32) -> CacheState {
    CacheState { by_id: st.by_id, by_key: st.by_key, order: touched(st.order, id) }
}

/// The state after an expired entry found under `id` is deleted: it leaves
/// the id table, its project's key leaves the key table, and the id leaves
/// the use order.
pub open spec fn expired_by_id(st: CacheState, id: u32) -> CacheState {
    CacheState {
        by_id: st.by_id.remove(id),
        by_key: st.by_key.remove(st.by_id[id].project.project_key@),
        order: without(st.order, id),
    }
}

/// The state after an expired entry found under key `k` is deleted: the key
/// leaves the key table, and its project's id leaves the id table and the
/// use order.
pub open spec fn expired_by_key(st: CacheState, k: Seq<char>) -> CacheState {
    CacheState {
        by_id: st.by_id.remove(st.by_key[k].project.id),
        by_key: st.by_key.remove(k),
        order: without(st.order, st.by_key[k].project.id),
    }
}

/// The state after a successful lookup by key of a project with id `id`:
/// the id becomes the most recently used when the id table holds it (the use
/// order lists the ids that eviction can drop).
pub open spec fn used_by_key(st: CacheState, id: u32) -> CacheState {
    if st.by_id.contains_key(id) {
        used(st, id)
    } else {
        st
    }
}

/// What a lookup by id does once it is known whether the entry has expired:
/// a missing id answers `None` and changes nothing; an expired entry is
/// deleted and answers `None`; a valid one is answered and becomes the most
/// recently used.
pub open spec fn judged_id_lookup(
    st: CacheState,
    id: u32,
    expired: bool,
    r: Option<Arc<Project>>,
    after: CacheState,
) -> bool {
    if !st.by_id.contains_key(id) {
        r is None && after == st
    } else if expired {
        r is None && after == expired_by_id(st, id)
    } else {
        r == Some(st.by_id[id].project) && after == used(st, id)
    }
}

/// What a lookup by key does once it is known whether the entry has expired,
/// as `judged_id_lookup` does for ids.
pub open spec fn judged_key_lookup(
    st: CacheState,
    k: Seq<char>,
    expired: bool,
    r: Option<Arc<Project>>,
    after: CacheState,
) -> bool {
    if !st.by_key.contains_key(k) {
        r is None && after == st
    } else if expired {
        r is None && after == expired_by_key(st, k)
    } else {
        r == Some(st.by_key[k].project) && after == used_by_key(st, st.by_key[k].project.id)
    }
}

/// What a lookup by id may do, from state `st` to state `after`, answering
/// `r`: a missing id answers `None` and changes nothing; a present entry is
/// answered and becomes the most recently used, or, only when a time-to-live
/// is set, has expired, is deleted and answers `None`.
pub open spec fn id_lookup(
    st: CacheState,
    has_ttl: bool,
    id: u32,
    r: Option<Arc<Project>>,
    after: CacheState,
) -> bool {
    if !st.by_id.contains_key(id) {
        r is None && after == st
    } else if r is Some {
        r->0 == st.by_id[id].project && after == used(st, id)
    } else {
        has_ttl && after == expired_by_id(st, id)
    }
}

/// What a lookup by key may do, as `id_lookup` does for ids.
pub open spec fn key_lookup(
    st: CacheState,
    has_ttl: bool,
    k: Seq<char>,
    r: Option<Arc<Project>>,
    after: CacheState,
) -> bool {
    if !st.by_key.contains_key(k) {
        r is None && after == st
    } else if r is Some {
        r->0 == st.by_key[k].project && after == used_by_key(st, st.by_key[k].project.id)
    } else {
        has_ttl && after == expired_by_key(st, k)
    }
}

/// Every entry sits under its own project's id and key.
pub open spec fn coherent(st: CacheState) -> bool {
    &&& forall|id: u32| #[trigger] st.by_id.contains_key(id) ==> st.by_id[id].project.id == id
    &&& forall|k: Seq<char>| #[trigger] st.by_key.contains_key(k)
        ==> st.by_key[k].project.project_key@ == k
}

/// The tables are finite and coherent.
pub open spec fn well_formed(st: CacheState) -> bool {
    &&& st.by_id.dom().finite()
    &&& st.by_key.dom().finite()
    &&& coherent(st)
}

/// Making room keeps the tables finite and coherent.
pub proof fn lemma_evicted_well_formed(st: CacheState, max_size: Option<usize>)
    requires
        well_formed(st),
    ensures
        well_formed(evicted(st, max_size)),
{
}

/// Storing an entry keeps the tables finite and coherent.
pub proof fn lemma_stored_well_formed(st: CacheState, entry: CacheEntry)
    requires
        well_formed(st),
    ensures
        well_formed(stored(st, entry)),
{
}

/// Manages cached project records by id and by key.
pub struct ProjectCacheManager {
    by_id: DashMap<u32, CacheEntry>,
    by_key: DashMap<String, CacheEntry>,
    config: CacheConfig,
    access_order: Vec<u32>,
}

impl ProjectCacheManager {
    /// The contents of the cache.
    pub closed spec fn state(&self) -> CacheState {
        CacheState {
            by_id: projects_by_id(self.by_id),
            by_key: projects_by_key(self.by_key),
            order: self.access_order@,
        }
    }

    /// The size limit the cache was made with.
    pub closed spec fn max_size(&self) -> Option<usize> {
        self.config.max_size
    }

    /// Whether the cache was made with a time-to-live.
    pub closed spec fn has_ttl(&self) -> bool {
        self.config.ttl is Some
    }

    /// A cache that keeps its invariant has finite tables, so their sizes
    /// are the numbers of entries.
    pub proof fn lemma_wf_finite(&self)
        requires
            self.wf(),
        ensures
            self.state().by_id.dom().finite(),
            self.state().by_key.dom().finite(),
    {
    }

    /// The cache's invariant: the tables are well formed and, with a size
    /// limit, the use order lists exactly the held ids and the id table keeps
    /// within the limit.
    pub closed spec fn wf(&self) -> bool {
        &&& well_formed(self.state())
        &&& (self.config.max_size matches Some(m) ==> bounded(self.state(), m))
    }

    /// Creates an empty cache with no time-to-live and no size limit.
    pub fn new() -> (r: Self)
        ensures
            r.wf(),
            r.state().by_id.is_empty(),
            r.state().by_key.is_empty(),
            r.state().order.len() == 0,
            !r.has_ttl(),
            r.max_size() is None,
    {
        Self::with_config(CacheConfig::default())
    }

    /// Creates an empty cache with the given settings.
    pub fn with_config(config: CacheConfig) -> (r: Self)
        ensures
            r.wf(),
            r.state().by_id.is_empty(),
            r.state().by_key.is_empty(),
            r.state().order.len() == 0,
            r.has_ttl() == (config.ttl is Some),
            r.max_size() == config.max_size,
    {
        ProjectCacheManager {
            by_id: id_table_new(),
            by_key: key_table_new(),
            config,
            access_order: Vec::new(),
        }
    }

    /// Stores a project under its id and key. When a size limit is set and
    /// reached, the least recently used project is dropped first.
    pub fn cache_project(&mut self, project: Project)
        requires
            old(self).wf(),
        ensures
            final(self).wf(),
            final(self).max_size() == old(self).max_size(),
            final(self).has_ttl() == old(self).has_ttl(),
            final(self).state().by_id.contains_key(project.id),
            final(self).state().by_id[project.id].project == project,
            final(self).state() == stored(
                evicted(old(self).state(), old(self).max_size()),
                final(self).state().by_id[project.id],
            ),
            final(self).max_size() matches Some(m) ==> final(self).state().by_id.len() <= capacity(m),
    {
        self.store_shared(Arc::new(project));
    }

    /// Drops the least recently used project when the size limit is reached.
    fn make_room(&mut self)
        requires
            old(self).wf(),
        ensures
            final(self).wf(),
            final(self).config == old(self).config,
            final(self).state() == evicted(old(self).state(), old(self).max_size()),
            old(self).max_size() matches Some(m) ==> final(self).state().by_id.len() < capacity(m),
    {
        let ghost st0 = self.state();
        if let Some(max_size) = self.config.max_size {
            let current_size = id_table_len(&self.by_id);
            if current_size >= max_size && self.access_order.len() > 0 {
                let oldest_id = self.access_order[0];
                if let Some(old_entry) = id_table_remove(&mut self.by_id, oldest_id) {
                    let _ = key_table_remove(&mut self.by_key, old_entry.project.project_key.as_str());
                }
                self.access_order.remove(0);
                assert(self.access_order@ =~= st0.order.drop_first());
            }
        }
        assert(self.state() =~= evicted(st0, self.config.max_size));
        proof {
            lemma_evicted_well_formed(st0, self.config.max_size);
            if let Some(m) = self.config.max_size {
                lemma_evicted_bounded(st0, m);
            }
        }
    }

    /// Stores a shared project record, as `cache_project` does.
    fn store_shared(&mut self, project: Arc<Project>)
        requires
            old(self).wf(),
        ensures
            final(self).wf(),
            final(self).max_size() == old(self).max_size(),
            final(self).has_ttl() == old(self).has_ttl(),
            final(self).state().by_id.contains_key(project.id),
            final(self).state().by_id[project.id].project == project,
            final(self).state() == stored(
                evicted(old(self).state(), old(self).max_size()),
                final(self).state().by_id[project.id],
            ),
            final(self).max_size() matches Some(m) ==> final(self).state().by_id.len() <= capacity(m),
    {
        let ghost st0 = self.state();
        let project_id = project.id;
        let key = project.project_key.clone();
        let cached_at = clock_now();
        let entry = CacheEntry { project: share(&project), cached_at };
        self.make_room();
        let ghost st1 = self.state();
        let entry_copy = CacheEntry { project: share(&project), cached_at };
        id_table_insert(&mut self.by_id, project_id, entry_copy);
        key_table_insert(&mut self.by_key, key, entry);
        self.access_order = remove_from_order(&self.access_order, project_id);
        self.access_order.push(project_id);
        assert(self.state() == stored(st1, entry));
        proof {
            lemma_stored_well_formed(st1, entry);
            if let Some(m) = self.config.max_size {
                lemma_stored_bounded(st1, m, entry);
            }
        }
    }
}

impl ProjectCacheManager {
    /// Looks a project up by id in the cache alone. A valid entry becomes the
    /// most recently used; an entry past the time-to-live is deleted.
    pub fn get_from_cache_by_id(&mut self, id: u32) -> (r: Option<Arc<Project>>)
        requires
            old(self).wf(),
        ensures
            final(self).wf(),
            final(self).max_size() == old(self).max_size(),
            final(self).has_ttl() == old(self).has_ttl(),
            id_lookup(old(self).state(), old(self).has_ttl(), id, r, final(self).state()),
            r is Some ==> r->0.id == id,
            r is None && old(self).state().by_id.contains_key(id) ==> final(self).state().by_id.len()
                == old(self).state().by_id.len() - 1,
    {
        proof {
            self.lemma_wf_finite();
        }
        let expired = match id_table_get(&self.by_id, id) {
            Some(entry) => is_expired(&entry, &self.config.ttl),
            None => false,
        };
        self.lookup_by_id_judged(id, expired)
    }

    /// The lookup by id once it is known whether the entry found has expired:
    /// a valid entry is answered and becomes the most recently used; an
    /// expired one is deleted from both tables and from the use order.
    pub fn lookup_by_id_judged(&mut self, id: u32, expired: bool) -> (r: Option<Arc<Project>>)
        requires
            old(self).wf(),
        ensures
            final(self).wf(),
            final(self).max_size() == old(self).max_size(),
            final(self).has_ttl() == old(self).has_ttl(),
            judged_id_lookup(old(self).state(), id, expired, r, final(self).state()),
            r is Some ==> r->0.id == id,
            expired && old(self).state().by_id.contains_key(id) ==> final(self).state().by_id.len()
                == old(self).state().by_id.len() - 1,
    {
        let ghost st0 = self.state();
        proof {
            lemma_expired_bounded(st0, match self.config.max_size { Some(m) => m, None => 0 }, id, Seq::empty());
            if let Some(m) = self.config.max_size {
                lemma_used_bounded(st0, m, id);
            }
        }
        match id_table_get(&self.by_id, id) {
            Some(entry) => {
                if !expired {
                    self.access_order = remove_from_order(&self.access_order, id);
                    self.access_order.push(id);
                    assert(self.state() =~= used(st0, id));
                    Some(share(&entry.project))
                } else {
                    if let Some(removed) = id_table_remove(&mut self.by_id, id) {
                        let _ = key_table_remove(&mut self.by_key, removed.project.project_key.as_str());
                    }
                    self.access_order = remove_from_order(&self.access_order, id);
                    assert(self.state() =~= expired_by_id(st0, id));
                    None
                }
            },
            None => None,
        }
    }

    /// Looks a project up by key in the cache alone. A valid entry becomes the
    /// most recently used; an entry past the time-to-live is deleted.
    pub fn get_from_cache_by_key(&mut self, key: &str) -> (r: Option<Arc<Project>>)
        requires
            old(self).wf(),
        ensures
            final(self).wf(),
            final(self).max_size() == old(self).max_size(),
            final(self).has_ttl() == old(self).has_ttl(),
            key_lookup(old(self).state(), old(self).has_ttl(), key@, r, final(self).state()),
            r is Some ==> r->0.project_key@ == key@,
    {
        let expired = match key_table_get(&self.by_key, key) {
            Some(entry) => is_expired(&entry, &self.config.ttl),
            None => false,
        };
        self.lookup_by_key_judged(key, expired)
    }

    /// The lookup by key once it is known whether the entry found has
    /// expired: a valid entry is answered and its project's id becomes the
    /// most recently used (when the id table holds it); an expired one is
    /// deleted from both tables and from the use order.
    pub fn lookup_by_key_judged(&mut self, key: &str, expired: bool) -> (r: Option<Arc<Project>>)
        requires
            old(self).wf(),
        ensures
            final(self).wf(),
            final(self).max_size() == old(self).max_size(),
            final(self).has_ttl() == old(self).has_ttl(),
            judged_key_lookup(old(self).state(), key@, expired, r, final(self).state()),
            r is Some ==> r->0.project_key@ == key@,
            expired && old(self).state().by_key.contains_key(key@) ==> final(self).state().by_id.len()
                + (if old(self).state().by_id.contains_key(old(self).state().by_key[key@].project.id) {
                1int
            } else {
                0int
            }) == old(self).state().by_id.len(),
    {
        let ghost st0 = self.state();
        match key_table_get(&self.by_key, key) {
            Some(entry) => {
                let project_id = entry.project.id;
                proof {
                    lemma_expired_bounded(st0, match self.config.max_size { Some(m) => m, None => 0 }, project_id, key@);
                    if let Some(m) = self.config.max_size {
                        lemma_used_bounded(st0, m, project_id);
                    }
                }
                if !expired {
                    if id_table_get(&self.by_id, project_id).is_some() {
                        self.access_order = remove_from_order(&self.access_order, project_id);
                        self.access_order.push(project_id);
                        assert(self.state() =~= used(st0, project_id));
                    }
                    assert(self.state() =~= used_by_key(st0, project_id));
                    Some(share(&entry.project))
                } else {
                    let _ = key_table_remove(&mut self.by_key, key);
                    let _ = id_table_remove(&mut self.by_id, project_id);
                    self.access_order = remove_from_order(&self.access_order, project_id);
                    assert(self.state() =~= expired_by_key(st0, key@));
                    None
                }
            },
            None => None,
        }
    }

    /// Empties the cache.
    pub fn clear(&mut self)
        requires
            old(self).wf(),
        ensures
            final(self).wf(),
            final(self).max_size() == old(self).max_size(),
            final(self).has_ttl() == old(self).has_ttl(),
            final(self).state().by_id.is_empty(),
            final(self).state().by_key.is_empty(),
            final(self).state().order.len() == 0,
            final(self).state() == cleared(),
    {
        id_table_clear(&mut self.by_id);
        key_table_clear(&mut self.by_key);
        self.access_order.clear();
        assert(self.state() =~= cleared());
    }

    /// The number of projects held under an id.
    pub fn size(&self) -> (n: usize)
        ensures
            n == self.state().by_id.len(),
    {
        id_table_len(&self.by_id)
    }
}

impl ProjectCacheManager {
    /// Looks a project up in the cache alone, by id when the reference holds
    /// one and by key otherwise. `None` means the project has to be fetched.
    pub fn resolve_cached(&mut self, id_or_key: &ProjectIdOrKey) -> (r: Option<Arc<Project>>)
        requires
            old(self).wf(),
        ensures
            final(self).wf(),
            final(self).max_size() == old(self).max_size(),
            final(self).has_ttl() == old(self).has_ttl(),
            match id_or_key {
                ProjectIdOrKey::Id(id) => id_lookup(
                    old(self).state(),
                    old(self).has_ttl(),
                    *id,
                    r,
                    final(self).state(),
                ),
                ProjectIdOrKey::Key(k) => key_lookup(
                    old(self).state(),
                    old(self).has_ttl(),
                    k@,
                    r,
                    final(self).state(),
                ),
                ProjectIdOrKey::EitherIdOrKey(id, _) => id_lookup(
                    old(self).state(),
                    old(self).has_ttl(),
                    *id,
                    r,
                    final(self).state(),
                ),
            },
    {
        match id_or_key {
            ProjectIdOrKey::Id(id) => self.get_from_cache_by_id(*id),
            ProjectIdOrKey::Key(key) => self.get_from_cache_by_key(key.as_str()),
            ProjectIdOrKey::EitherIdOrKey(id, _) => self.get_from_cache_by_id(*id),
        }
    }

    /// Stores a project that was fetched because the cache did not hold it,
    /// and hands it back shared.
    pub fn store_fetched(&mut self, project: Project) -> (r: Arc<Project>)
        requires
            old(self).wf(),
        ensures
            r == project,
            final(self).wf(),
            final(self).max_size() == old(self).max_size(),
            final(self).has_ttl() == old(self).has_ttl(),
            final(self).state().by_id.contains_key(project.id),
            final(self).state().by_id[project.id].project == project,
            final(self).state() == stored(
                evicted(old(self).state(), old(self).max_size()),
                final(self).state().by_id[project.id],
            ),
            final(self).max_size() matches Some(m) ==> final(self).state().by_id.len() <= capacity(m),
    {
        let shared = Arc::new(project);
        self.store_shared(share(&shared));
        shared
    }
}

/// Whether `elapsed` nanoseconds are more than a time-to-live of `ttl`
/// nanoseconds; never without one.
pub open spec fn past_ttl(elapsed: u128, ttl: Option<u128>) -> bool {
    ttl matches Some(t) && elapsed > t
}

/// Whether an entry stored `elapsed` nanoseconds ago has outlived a
/// time-to-live of `ttl` nanoseconds; never without one.
pub fn entry_expired(elapsed: u128, ttl: Option<u128>) -> (r: bool)
    ensures
        r == past_ttl(elapsed, ttl),
{
    match ttl {
        Some(t) => elapsed > t,
        None => false,
    }
}

/// Whether an entry has outlived the time-to-live; never without one. The
/// time since the entry was stored and the time-to-live are read in
/// nanoseconds and compared by `entry_expired`.
fn is_expired(entry: &CacheEntry, ttl: &Option<Duration>) -> (r: bool)
    ensures
        ttl is None ==> !r,
{
    let ttl_nanos = match ttl {
        Some(d) => Some(duration_nanos(d)),
        None => None,
    };
    let elapsed = duration_nanos(&elapsed_since(&entry.cached_at));
    entry_expired(elapsed, ttl_nanos)
}

/// A copy of `order` without any occurrence of `id`.
fn remove_from_order(order: &Vec<u32>, id: u32) -> (r: Vec<u32>)
    ensures
        r@ == without(order@, id),
{
    let mut r: Vec<u32> = Vec::new();
    let mut i: usize = 0;
    while i < order.len()
        invariant
            i <= order.len(),
            r@ == without(order@.take(i as int), id),
        decreases order.len() - i,
    {
        assert(order@.take(i + 1).drop_last() =~= order@.take(i as int));
        if order[i] != id {
            r.push(order[i]);
        }
        i += 1;
    }
    assert(order@.take(order.len() as int) =~= order@);
    r
}


/// How many projects a cache with size limit `max_size` can hold: the
/// limit, and one project when the limit is zero (a store always goes in).
pub open spec fn capacity(max_size: usize) -> nat {
    if max_size == 0 {
        1
    } else {
        max_size as nat
    }
}

/// A use order that lists each stored id exactly once and a table that holds
/// at most `capacity(max_size)` projects.
pub open spec fn bounded(st: CacheState, max_size: usize) -> bool {
    &&& st.order.no_duplicates()
    &&& forall|id: u32| st.order.contains(id) <==> #[trigger] st.by_id.contains_key(id)
    &&& st.by_id.len() <= capacity(max_size)
}

/// A sequence with an element appended holds exactly the old elements and
/// the new one.
pub proof fn lemma_push_contains(s: Seq<u32>, a: u32, x: u32)
    ensures
        s.push(a).contains(x) <==> (s.contains(x) || x == a),
{
    if s.contains(x) {
        let i = choose|i: int| 0 <= i < s.len() && s[i] == x;
        assert(s.push(a)[i] == x);
    }
    if x == a {
        assert(s.push(a)[s.len() as int] == a);
    }
    if s.push(a).contains(x) && x != a {
        let i = choose|i: int| 0 <= i < s.push(a).len() && s.push(a)[i] == x;
        assert(s[i] == x);
    }
}

/// Taking an id out of a use order keeps exactly the other ids.
pub proof fn lemma_without_contains(order: Seq<u32>, id: u32, x: u32)
    ensures
        without(order, id).contains(x) <==> (order.contains(x) && x != id),
    decreases order.len(),
{
    if order.len() > 0 {
        let rest = order.drop_last();
        lemma_without_contains(rest, id, x);
        assert(order =~= rest.push(order.last()));
        lemma_push_contains(rest, order.last(), x);
        lemma_push_contains(without(rest, id), order.last(), x);
    }
}

/// Taking an id out of a use order without repeats leaves no repeats.
pub proof fn lemma_without_no_duplicates(order: Seq<u32>, id: u32)
    requires
        order.no_duplicates(),
    ensures
        without(order, id).no_duplicates(),
    decreases order.len(),
{
    if order.len() > 0 {
        let rest = order.drop_last();
        assert(rest.no_duplicates());
        lemma_without_no_duplicates(rest, id);
        if order.last() != id {
            lemma_without_contains(rest, id, order.last());
            assert(!rest.contains(order.last()));
            let w = without(rest, id);
            assert forall|i: int, j: int|
                0 <= i < w.push(order.last()).len() && 0 <= j < w.push(order.last()).len() && i
                    != j implies w.push(order.last())[i] != w.push(order.last())[j] by {
                if i < w.len() && j < w.len() {
                } else if i < w.len() {
                    assert(w.contains(w[i]));
                } else if j < w.len() {
                    assert(w.contains(w[j]));
                }
            }
        }
    }
}

/// Moving an id to the recent end keeps every id listed once and adds the id.
pub proof fn lemma_touched(order: Seq<u32>, id: u32)
    requires
        order.no_duplicates(),
    ensures
        touched(order, id).no_duplicates(),
        forall|x: u32| touched(order, id).contains(x) <==> (order.contains(x) || x == id),
{
    lemma_without_no_duplicates(order, id);
    let w = without(order, id);
    assert forall|x: u32| touched(order, id).contains(x) <==> (order.contains(x) || x == id) by {
        lemma_without_contains(order, id, x);
        if x == id {
            assert(touched(order, id)[w.len() as int] == id);
        } else if touched(order, id).contains(x) {
            let i = choose|i: int| 0 <= i < w.push(id).len() && w.push(id)[i] == x;
            assert(w[i] == x);
        } else if order.contains(x) {
            let i = choose|i: int| 0 <= i < w.len() && w[i] == x;
            assert(w.push(id)[i] == x);
        }
    }
    assert forall|i: int, j: int|
        0 <= i < w.push(id).len() && 0 <= j < w.push(id).len() && i != j implies w.push(id)[i]
        != w.push(id)[j] by {
        lemma_without_contains(order, id, id);
        if i < w.len() && j < w.len() {
        } else if i < w.len() {
            assert(w.contains(w[i]));
        } else if j < w.len() {
            assert(w.contains(w[j]));
        }
    }
}

/// Law: a project just stored is found again under its id and under its
/// key, whatever had to make room for it.
pub proof fn law_store_then_find(st: CacheState, max_size: Option<usize>, entry: CacheEntry)
    ensures
        stored(evicted(st, max_size), entry).by_id.contains_key(entry.project.id),
        stored(evicted(st, max_size), entry).by_id[entry.project.id] == entry,
        stored(evicted(st, max_size), entry).by_key.contains_key(entry.project.project_key@),
        stored(evicted(st, max_size), entry).by_key[entry.project.project_key@] == entry,
        stored(evicted(st, max_size), entry).order.last() == entry.project.id,
{
}

/// Law: without a time-to-live, a lookup by id right after a project was
/// stored answers that project.
pub proof fn law_lookup_by_id_after_store(
    st: CacheState,
    max_size: Option<usize>,
    entry: CacheEntry,
    r: Option<Arc<Project>>,
    after: CacheState,
)
    requires
        id_lookup(stored(evicted(st, max_size), entry), false, entry.project.id, r, after),
    ensures
        r == Some(entry.project),
{
}

/// Law: without a time-to-live, a lookup by key right after a project was
/// stored answers that project.
pub proof fn law_lookup_by_key_after_store(
    st: CacheState,
    max_size: Option<usize>,
    entry: CacheEntry,
    r: Option<Arc<Project>>,
    after: CacheState,
)
    requires
        key_lookup(stored(evicted(st, max_size), entry), false, entry.project.project_key@, r, after),
    ensures
        r == Some(entry.project),
{
}

/// Law: an empty cache answers no lookup and stays as it is.
pub proof fn law_empty_cache_finds_nothing(
    st: CacheState,
    has_ttl: bool,
    id: u32,
    k: Seq<char>,
    r1: Option<Arc<Project>>,
    after1: CacheState,
    r2: Option<Arc<Project>>,
    after2: CacheState,
)
    requires
        st.by_id.is_empty(),
        st.by_key.is_empty(),
        id_lookup(st, has_ttl, id, r1, after1),
        key_lookup(st, has_ttl, k, r2, after2),
    ensures
        r1 is None,
        after1 == st,
        r2 is None,
        after2 == st,
{
    assert(!st.by_id.dom().contains(id));
    assert(!st.by_key.dom().contains(k));
}

/// Making room in a cache that keeps within its limit leaves the use order
/// matching the id table and at least one place free.
pub proof fn lemma_evicted_bounded(st: CacheState, max_size: usize)
    requires
        well_formed(st),
        bounded(st, max_size),
    ensures
        well_formed(evicted(st, Some(max_size))),
        bounded(evicted(st, Some(max_size)), max_size),
        evicted(st, Some(max_size)).by_id.len() < capacity(max_size),
{
    let mid = evicted(st, Some(max_size));
    if st.by_id.len() >= max_size && st.order.len() > 0 {
        let oldest = st.order[0];
        assert(st.order.contains(oldest));
        assert(st.by_id.contains_key(oldest));
        assert(st.by_id.remove(oldest).dom() =~= st.by_id.dom().remove(oldest));
        assert(mid.by_id.len() == st.by_id.len() - 1);
        assert forall|x: u32| mid.order.contains(x) <==> #[trigger] mid.by_id.contains_key(x) by {
            if mid.order.contains(x) {
                let i = choose|i: int| 0 <= i < mid.order.len() && mid.order[i] == x;
                assert(st.order[i + 1] == x);
                assert(st.order.contains(x));
                assert(i + 1 != 0);
            }
            if mid.by_id.contains_key(x) {
                assert(st.order.contains(x));
                let i = choose|i: int| 0 <= i < st.order.len() && st.order[i] == x;
                assert(i != 0);
                assert(mid.order[i - 1] == x);
            }
        }
        assert(mid.order.no_duplicates());
    } else if st.by_id.len() >= max_size {
        if st.by_id.len() > 0 {
            assert(st.by_id.dom().len() >= 1);
            let x = st.by_id.dom().choose();
            assert(st.by_id.contains_key(x));
            assert(st.order.contains(x));
            assert(false);
        }
    }
}

/// Storing into a cache with a free place keeps it within its limit.
pub proof fn lemma_stored_bounded(st: CacheState, max_size: usize, entry: CacheEntry)
    requires
        well_formed(st),
        bounded(st, max_size),
        st.by_id.len() < capacity(max_size),
    ensures
        bounded(stored(st, entry), max_size),
{
    let fin = stored(st, entry);
    let new_id = entry.project.id;
    lemma_touched(st.order, new_id);
    assert(fin.by_id.dom() =~= st.by_id.dom().insert(new_id));
    assert forall|x: u32| fin.order.contains(x) <==> #[trigger] fin.by_id.contains_key(x) by {
        assert(st.order.contains(x) <==> st.by_id.contains_key(x));
    }
}

/// A successful lookup keeps the use order matching the id table.
pub proof fn lemma_used_bounded(st: CacheState, max_size: usize, id: u32)
    requires
        bounded(st, max_size),
    ensures
        bounded(used_by_key(st, id), max_size),
        st.by_id.contains_key(id) ==> bounded(used(st, id), max_size),
{
    if st.by_id.contains_key(id) {
        lemma_touched(st.order, id);
        assert forall|x: u32| used(st, id).order.contains(x) <==> #[trigger] used(st, id).by_id.contains_key(x) by {
            assert(st.order.contains(x) <==> st.by_id.contains_key(x));
        }
    }
}

/// Deleting an expired entry keeps the tables well formed and the use order
/// matching the id table.
pub proof fn lemma_expired_bounded(st: CacheState, max_size: usize, id: u32, k: Seq<char>)
    requires
        well_formed(st),
    ensures
        well_formed(expired_by_id(st, id)),
        well_formed(expired_by_key(st, k)),
        bounded(st, max_size) ==> bounded(expired_by_id(st, id), max_size),
        bounded(st, max_size) ==> bounded(expired_by_key(st, k), max_size),
{
    let p = st.by_key[k].project.id;
    let a = expired_by_id(st, id);
    let b = expired_by_key(st, k);
    assert(a.by_id.dom() =~= st.by_id.dom().remove(id));
    assert(b.by_id.dom() =~= st.by_id.dom().remove(p));
    if bounded(st, max_size) {
        lemma_without_no_duplicates(st.order, id);
        lemma_without_no_duplicates(st.order, p);
        assert forall|x: u32| a.order.contains(x) <==> #[trigger] a.by_id.contains_key(x) by {
            lemma_without_contains(st.order, id, x);
            assert(st.order.contains(x) <==> st.by_id.contains_key(x));
        }
        assert forall|x: u32| b.order.contains(x) <==> #[trigger] b.by_id.contains_key(x) by {
            lemma_without_contains(st.order, p, x);
            assert(st.order.contains(x) <==> st.by_id.contains_key(x));
        }
    }
}

/// Law: with a size limit, the cache never holds more projects than the
/// limit (one, when the limit is zero), and its use order lists each held
/// id once: storing keeps this, and so do lookups, whether they find a valid
/// entry or delete an expired one.
pub proof fn law_size_limit_holds(
    st: CacheState,
    max_size: usize,
    entry: CacheEntry,
    id: u32,
    k: Seq<char>,
)
    requires
        well_formed(st),
        bounded(st, max_size),
    ensures
        bounded(stored(evicted(st, Some(max_size)), entry), max_size),
        stored(evicted(st, Some(max_size)), entry).by_id.len() <= capacity(max_size),
        st.by_id.contains_key(id) ==> bounded(used(st, id), max_size),
        bounded(used_by_key(st, id), max_size),
        bounded(expired_by_id(st, id), max_size),
        bounded(expired_by_key(st, k), max_size),
{
    lemma_evicted_bounded(st, max_size);
    lemma_stored_bounded(evicted(st, Some(max_size)), max_size, entry);
    lemma_used_bounded(st, max_size, id);
    lemma_expired_bounded(st, max_size, id, k);
}

/// Law: when a cache with a size limit is full and a new project arrives,
/// the least recently used project leaves and every other one stays.
pub proof fn law_least_recently_used_leaves(st: CacheState, max_size: usize, entry: CacheEntry)
    requires
        well_formed(st),
        bounded(st, max_size),
        max_size >= 1,
        st.by_id.len() == max_size,
        !st.by_id.contains_key(entry.project.id),
    ensures
        st.order.len() > 0,
        st.by_id.contains_key(st.order[0]),
        !stored(evicted(st, Some(max_size)), entry).by_id.contains_key(st.order[0]),
        forall|id: u32|
            st.by_id.contains_key(id) && id != st.order[0] ==> #[trigger] stored(
                evicted(st, Some(max_size)),
                entry,
            ).by_id.contains_key(id) && stored(evicted(st, Some(max_size)), entry).by_id[id]
                == st.by_id[id],
{
    let x = st.by_id.dom().choose();
    assert(st.by_id.dom().len() >= 1);
    assert(st.by_id.contains_key(x));
    assert(st.order.contains(x));
    assert(st.order.contains(st.order[0]));
}

/// Law: a lookup answers by the entry's age. An entry older than the
/// time-to-live answers `None` and is gone afterwards, from the id table,
/// from the key table under its project's key and from the use order; a
/// younger one, or any entry without a time-to-live, is answered.
pub proof fn law_lookup_follows_age(
    st: CacheState,
    id: u32,
    elapsed: u128,
    ttl: Option<u128>,
    r: Option<Arc<Project>>,
    after: CacheState,
)
    requires
        st.by_id.contains_key(id),
        judged_id_lookup(st, id, past_ttl(elapsed, ttl), r, after),
    ensures
        past_ttl(elapsed, ttl) ==> r is None && !after.by_id.contains_key(id)
            && !after.by_key.contains_key(st.by_id[id].project.project_key@)
            && !after.order.contains(id),
        !past_ttl(elapsed, ttl) ==> r == Some(st.by_id[id].project),
{
    lemma_without_contains(st.order, id, id);
}

/// Law: a lookup by key answers by the entry's age, as by id; an expired
/// entry leaves the key table, and its project's id leaves the id table and
/// the use order.
pub proof fn law_key_lookup_follows_age(
    st: CacheState,
    k: Seq<char>,
    elapsed: u128,
    ttl: Option<u128>,
    r: Option<Arc<Project>>,
    after: CacheState,
)
    requires
        st.by_key.contains_key(k),
        judged_key_lookup(st, k, past_ttl(elapsed, ttl), r, after),
    ensures
        past_ttl(elapsed, ttl) ==> r is None && !after.by_key.contains_key(k)
            && !after.by_id.contains_key(st.by_key[k].project.id)
            && !after.order.contains(st.by_key[k].project.id),
        !past_ttl(elapsed, ttl) ==> r == Some(st.by_key[k].project),
{
    lemma_without_contains(st.order, st.by_key[k].project.id, st.by_key[k].project.id);
}

/// The state of an emptied cache.
pub open spec fn cleared() -> CacheState {
    CacheState { by_id: Map::empty(), by_key: Map::empty(), order: Seq::empty() }
}

/// One operation on the cache as the methods perform it: storing an entry,
/// a lookup by id or by key once it is judged whether the entry found has
/// expired, or emptying the cache.
pub enum CacheOp {
    Store(CacheEntry),
    LookupById(u32, bool),
    LookupByKey(Seq<char>, bool),
    Clear,
}

/// The state after one operation, with the size limit `max_size`:
/// `cache_project` is `Store`, the judged lookups are `LookupById` and
/// `LookupByKey`, and `clear` is `Clear`.
pub open spec fn step(st: CacheState, op: CacheOp, max_size: Option<usize>) -> CacheState {
    match op {
        CacheOp::Store(e) => stored(evicted(st, max_size), e),
        CacheOp::LookupById(id, expired) => if !st.by_id.contains_key(id) {
            st
        } else if expired {
            expired_by_id(st, id)
        } else {
            used(st, id)
        },
        CacheOp::LookupByKey(k, expired) => if !st.by_key.contains_key(k) {
            st
        } else if expired {
            expired_by_key(st, k)
        } else {
            used_by_key(st, st.by_key[k].project.id)
        },
        CacheOp::Clear => cleared(),
    }
}

/// The state after a sequence of operations, first to last.
pub open spec fn run(st: CacheState, ops: Seq<CacheOp>, max_size: Option<usize>) -> CacheState
    decreases ops.len(),
{
    if ops.len() == 0 {
        st
    } else {
        step(run(st, ops.drop_last(), max_size), ops.last(), max_size)
    }
}

/// The entry of the last store of a project with id `id`, if any.
pub open spec fn last_stored(ops: Seq<CacheOp>, id: u32) -> Option<CacheEntry>
    decreases ops.len(),
{
    if ops.len() == 0 {
        None
    } else {
        match ops.last() {
            CacheOp::Store(e) if e.project.id == id => Some(e),
            _ => last_stored(ops.drop_last(), id),
        }
    }
}

/// Whether an operation drops the project held under `id`.
pub open spec fn drops(st: CacheState, op: CacheOp, max_size: Option<usize>, id: u32) -> bool {
    st.by_id.contains_key(id) && !step(st, op, max_size).by_id.contains_key(id)
}

/// The judged lookups are the lookup steps.
pub proof fn lemma_lookups_are_steps(
    st: CacheState,
    max_size: Option<usize>,
    id: u32,
    k: Seq<char>,
    expired: bool,
    r1: Option<Arc<Project>>,
    after1: CacheState,
    r2: Option<Arc<Project>>,
    after2: CacheState,
)
    ensures
        judged_id_lookup(st, id, expired, r1, after1) ==> after1 == step(st, CacheOp::LookupById(id, expired), max_size),
        judged_key_lookup(st, k, expired, r2, after2) ==> after2 == step(st, CacheOp::LookupByKey(k, expired), max_size),
{
}

/// Law: whatever the cache holds under an id after any sequence of stores,
/// lookups and clears is the entry of the last store of that id, or, when
/// the sequence stored none, what it held there before.
pub proof fn law_held_is_last_stored(st: CacheState, ops: Seq<CacheOp>, max_size: Option<usize>, id: u32)
    ensures
        run(st, ops, max_size).by_id.contains_key(id) ==> match last_stored(ops, id) {
            Some(e) => run(st, ops, max_size).by_id[id] == e,
            None => st.by_id.contains_key(id) && run(st, ops, max_size).by_id[id] == st.by_id[id],
        },
    decreases ops.len(),
{
    if ops.len() > 0 {
        law_held_is_last_stored(st, ops.drop_last(), max_size, id);
    }
}

/// Law: a stored project stays held under its id through every later
/// operation that does not drop it (no clear, no eviction, no expiry of it).
pub proof fn law_stored_stays_until_dropped(
    st: CacheState,
    ops: Seq<CacheOp>,
    max_size: Option<usize>,
    i: int,
    e: CacheEntry,
)
    requires
        0 <= i < ops.len(),
        ops[i] == CacheOp::Store(e),
        forall|j: int| i < j < ops.len() ==> !drops(#[trigger] run(st, ops.take(j), max_size), ops[j], max_size, e.project.id),
    ensures
        run(st, ops, max_size).by_id.contains_key(e.project.id),
    decreases ops.len(),
{
    let n = ops.len() - 1;
    assert(ops.take(n) =~= ops.drop_last());
    if n > i {
        assert forall|j: int| i < j < ops.drop_last().len() implies !drops(
            #[trigger] run(st, ops.drop_last().take(j), max_size),
            ops.drop_last()[j],
            max_size,
            e.project.id,
        ) by {
            assert(ops.drop_last().take(j) =~= ops.take(j));
            assert(!drops(run(st, ops.take(j), max_size), ops[j], max_size, e.project.id));
        }
        law_stored_stays_until_dropped(st, ops.drop_last(), max_size, i, e);
        assert(!drops(run(st, ops.take(n), max_size), ops[n], max_size, e.project.id));
    } else {
        assert(ops.last() == CacheOp::Store(e));
    }
}

/// Law: a lookup by id that finds an entry still valid answers the project
/// of the last store of that id (or of what was held before the sequence);
/// it answers exactly when the id is held.
pub proof fn law_lookup_answers_last_store(
    st: CacheState,
    ops: Seq<CacheOp>,
    max_size: Option<usize>,
    id: u32,
    r: Option<Arc<Project>>,
    after: CacheState,
)
    requires
        judged_id_lookup(run(st, ops, max_size), id, false, r, after),
    ensures
        (r is Some) == run(st, ops, max_size).by_id.contains_key(id),
        r is Some ==> match last_stored(ops, id) {
            Some(e) => r == Some(e.project),
            None => r == Some(st.by_id[id].project),
        },
{
    law_held_is_last_stored(st, ops, max_size, id);
}

/// Law: a lookup by key that answers a project held under its id makes
/// that project the most recently used: the use order ends with its id and
/// lists it nowhere else, the tables are unchanged, and in a cache holding
/// two or more projects it is not the one the next store evicts.
pub proof fn law_key_lookup_makes_most_recent(
    st: CacheState,
    k: Seq<char>,
    r: Option<Arc<Project>>,
    after: CacheState,
    max_size: usize,
)
    requires
        st.by_key.contains_key(k),
        st.by_id.contains_key(st.by_key[k].project.id),
        judged_key_lookup(st, k, false, r, after),
    ensures
        r == Some(st.by_key[k].project),
        after.by_id == st.by_id,
        after.by_key == st.by_key,
        after.order.len() > 0,
        after.order.last() == st.by_key[k].project.id,
        forall|i: int| 0 <= i < after.order.len() - 1 ==> after.order[i] != st.by_key[k].project.id,
        well_formed(st) && bounded(st, max_size) && st.by_id.len() >= 2 ==> after.order[0]
            != st.by_key[k].project.id && evicted(after, Some(max_size)).by_id.contains_key(
            st.by_key[k].project.id,
        ),
{
    let p = st.by_key[k].project.id;
    let w = without(st.order, p);
    lemma_without_contains(st.order, p, p);
    assert(after.order == w.push(p));
    assert forall|i: int| 0 <= i < after.order.len() - 1 implies after.order[i] != p by {
        assert(after.order[i] == w[i]);
        assert(w.contains(w[i]));
    }
    if well_formed(st) && bounded(st, max_size) && st.by_id.len() >= 2 {
        assert(st.by_id.dom().remove(p).len() >= 1);
        let q = st.by_id.dom().remove(p).choose();
        assert(st.by_id.dom().remove(p).contains(q));
        assert(st.by_id.contains_key(q) && q != p);
        assert(st.order.contains(q));
        lemma_without_contains(st.order, p, q);
        assert(w.contains(q));
        assert(after.order.len() >= 2);
        lemma_used_bounded(st, max_size, p);
        assert(after.by_id.len() >= max_size ==> after.order[0] != p);
    }
}

} // verus!
