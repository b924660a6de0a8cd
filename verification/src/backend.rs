//! The two caches: one that keeps nothing, and one that keeps its entries in a
//! table on disk and their bodies in files beside it.

use crate::cache::{
    cache_objects_dir, key_of, path_in, path_join, CacheEntry, CacheStoreRequest, CACHE_DIR,
    DB_FILE, OBJECTS_DIR,
};
use crate::cache_index::{
    begin_deletion, entry_of, row_of, CacheRun, CacheStep, PhaseView, RunView, StepView,
};
use crate::config::CacheConfig;
use crate::errors::ProxyError;
use crate::message_laws::where_a_name_is;
use vstd::prelude::*;

verus! {

/// The cache that keeps nothing.
#[derive(Debug, Clone, Copy)]
pub struct NoopCache;

/// The cache on disk.
#[derive(Debug, Clone)]
pub struct SqliteCache {
    pub dir: String,
    pub db_path: String,
    pub max_entries: usize,
}

/// The cache that is in use.
#[derive(Debug, Clone)]
pub enum CacheBackend {
    Noop(NoopCache),
    Sqlite(SqliteCache),
}

impl NoopCache {
    /// What the cache is called.
    pub fn name(&self) -> (r: &'static str)
        ensures
            r@ == "noop"@,
    {
        "noop"
    }

    /// Whether it keeps anything.
    pub fn is_enabled(&self) -> (r: bool)
        ensures
            !r,
    {
        false
    }

    /// Where its files are: it has none.
    pub fn cache_dir(&self) -> (r: &'static str)
        ensures
            r@ == "."@,
    {
        "."
    }

    /// Looks up the entry for a request: there is none, whatever was stored.
    pub fn get(&self, method: &str, url: &str) -> (r: Result<Option<CacheEntry>, ProxyError>)
        ensures
            r matches Ok(found) && found is None,
    {
        Ok(None)
    }

    /// Takes an entry, and keeps nothing of it.
    pub fn store(&self, request: CacheStoreRequest) -> (r: Result<(), ProxyError>)
        ensures
            r is Ok,
    {
        Ok(())
    }

    /// Deletes the entry with the key: there is none.
    pub fn delete(&self, key: &str) -> (r: Result<(), ProxyError>)
        ensures
            r is Ok,
    {
        Ok(())
    }
}

impl SqliteCache {
    /// Whether the table and the files are where the cache keeps them, and as
    /// many entries are kept as the configuration says.
    pub open spec fn is_configured(self, config: CacheConfig) -> bool {
        &&& self.dir@ == CACHE_DIR@
        &&& self.db_path@ == path_in(CACHE_DIR@, DB_FILE@)
        &&& self.max_entries == config.max_entries
    }

    /// The cache that a configuration asks for.
    pub fn new(config: &CacheConfig) -> (r: Self)
        ensures
            r.is_configured(*config),
    {
        SqliteCache {
            dir: String::from_str(CACHE_DIR),
            db_path: path_join(CACHE_DIR, DB_FILE),
            max_entries: config.max_entries,
        }
    }

    /// What the cache is called.
    pub fn name(&self) -> (r: &'static str)
        ensures
            r@ == "sqlite"@,
    {
        "sqlite"
    }

    /// Whether it keeps anything.
    pub fn is_enabled(&self) -> (r: bool)
        ensures
            r,
    {
        true
    }

    /// Where its files are.
    pub fn cache_dir(&self) -> (r: &str)
        ensures
            r@ == self.dir@,
    {
        self.dir.as_str()
    }

    /// Where the bodies are; the directory has to be there before anything is
    /// kept.
    pub fn objects_dir(&self) -> (r: String)
        ensures
            r@ == path_in(self.dir@, OBJECTS_DIR@),
    {
        cache_objects_dir(self.dir.as_str())
    }

    /// Begins to look up the entry for a request at the time `now`.
    pub fn get(&self, method: &str, url: &str, now: i64) -> (r: (CacheRun, CacheStep))
        ensures
            r.0@ == (RunView { now, max_entries: 0, phase: PhaseView::Selecting }),
            r.1@ == (StepView::SelectRow { key: key_of(method@, url@) }),
    {
        CacheRun::lookup(method, url, now)
    }

    /// Begins to store an entry.
    pub fn store(&self, request: CacheStoreRequest) -> (r: (CacheRun, CacheStep))
        ensures
            r.0@ == (RunView {
                now: request.created_at,
                max_entries: self.max_entries,
                phase: PhaseView::Writing,
            }),
            r.1@ == (StepView::Upsert { row: row_of(request@) }),
            entry_of(row_of(request@)) == request@,
    {
        CacheRun::store(request, self.max_entries)
    }

    /// Begins to delete the entry with the key.
    pub fn delete(&self, key: &str) -> (r: (CacheRun, CacheStep))
        ensures
            r.0@ == (RunView { now: 0, max_entries: 0, phase: begin_deletion(key@).0 }),
            r.1@ == begin_deletion(key@).1,
    {
        CacheRun::delete(key)
    }
}

impl CacheBackend {
    /// What the cache is called.
    pub fn name(&self) -> (r: &'static str)
        ensures
            r@ == match self {
                CacheBackend::Noop(_) => "noop"@,
                CacheBackend::Sqlite(_) => "sqlite"@,
            },
    {
        match self {
            CacheBackend::Noop(cache) => cache.name(),
            CacheBackend::Sqlite(cache) => cache.name(),
        }
    }

    /// Whether it keeps anything.
    pub fn is_enabled(&self) -> (r: bool)
        ensures
            r == (self is Sqlite),
    {
        match self {
            CacheBackend::Noop(cache) => cache.is_enabled(),
            CacheBackend::Sqlite(cache) => cache.is_enabled(),
        }
    }

    /// Where its files are.
    pub fn cache_dir(&self) -> (r: &str)
        ensures
            r@ == match self {
                CacheBackend::Noop(_) => "."@,
                CacheBackend::Sqlite(cache) => cache.dir@,
            },
    {
        match self {
            CacheBackend::Noop(cache) => cache.cache_dir(),
            CacheBackend::Sqlite(cache) => cache.cache_dir(),
        }
    }
}

/// The cache that a configuration asks for: none unless it is switched on.
pub fn build_cache(config: &CacheConfig) -> (r: CacheBackend)
    ensures
        if config.enabled {
            r matches CacheBackend::Sqlite(cache) && cache.is_configured(*config)
        } else {
            r is Noop
        },
{
    if !config.enabled {
        return CacheBackend::Noop(NoopCache);
    }
    CacheBackend::Sqlite(SqliteCache::new(config))
}

/// The cache on disk is in the directory `.cache`, with its table in `cache.sqlite` there,
/// and keeps as many entries as are configured.
pub proof fn where_the_cache_on_disk_is(cache: SqliteCache, config: CacheConfig)
    requires
        cache.is_configured(config),
    ensures
        cache.dir@ == ".cache"@,
        cache.db_path@ == ".cache/cache.sqlite"@,
        path_in(cache.dir@, OBJECTS_DIR@) == ".cache/objects"@,
        cache.max_entries == config.max_entries,
{
    reveal_strlit(".cache");
    reveal_strlit("/");
    reveal_strlit("cache.sqlite");
    reveal_strlit("objects");
    reveal_strlit(".cache/cache.sqlite");
    reveal_strlit(".cache/objects");
    where_a_name_is(CACHE_DIR@, DB_FILE@);
    where_a_name_is(CACHE_DIR@, OBJECTS_DIR@);
    assert(".cache"@[5] == 'e');
    assert("cache.sqlite"@[0] == 'c');
    assert("objects"@[0] == 'o');
    assert(CACHE_DIR@.push('/') + DB_FILE@ =~= ".cache/cache.sqlite"@);
    assert(CACHE_DIR@.push('/') + OBJECTS_DIR@ =~= ".cache/objects"@);
}

} // verus!
