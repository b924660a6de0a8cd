use httpcache::backend::{build_cache, CacheBackend, NoopCache, SqliteCache};
use httpcache::cache::{cache_key, CacheEntry, CacheStoreRequest};
use httpcache::cache_index::{
    entry_from, entry_with_headers, row_for, CacheEvent, CacheRow, CacheRun, CacheStep, Victim,
};
use httpcache::config::CacheConfig;

/// A table in memory, and the names of the files that are there.
struct Disk {
    cache: SqliteCache,
    rows: Vec<CacheRow>,
    files: Vec<String>,
}

impl Disk {
    fn new(max_entries: usize) -> Disk {
        let config = CacheConfig { enabled: true, max_entries, ..CacheConfig::default() };
        Disk { cache: SqliteCache::new(&config), rows: Vec::new(), files: Vec::new() }
    }

    fn perform(&mut self, step: CacheStep) -> CacheEvent {
        match step {
            CacheStep::SelectRow { key } => {
                CacheEvent::Row(self.rows.iter().find(|row| row.key == key).cloned())
            }
            CacheStep::CheckFile { path } => CacheEvent::FileThere(self.files.contains(&path)),
            CacheStep::Touch { key, now } => {
                for row in self.rows.iter_mut().filter(|row| row.key == key) {
                    row.last_access = now;
                }
                CacheEvent::Done
            }
            CacheStep::Upsert { row } => {
                self.rows.retain(|other| other.key != row.key);
                self.rows.push(row);
                CacheEvent::Done
            }
            CacheStep::CountRows => CacheEvent::Count(self.rows.len() as i64),
            CacheStep::SelectOldest { limit } => {
                let mut rows = self.rows.clone();
                rows.sort_by_key(|row| row.last_access);
                rows.truncate(limit as usize);
                CacheEvent::Oldest(
                    rows.into_iter()
                        .map(|row| Victim { key: row.key, body_path: row.body_path })
                        .collect(),
                )
            }
            CacheStep::SelectBodyPath { key } => CacheEvent::BodyPath(
                self.rows.iter().find(|row| row.key == key).and_then(|row| row.body_path.clone()),
            ),
            CacheStep::DeleteRow { key } => {
                self.rows.retain(|row| row.key != key);
                CacheEvent::Done
            }
            CacheStep::RemoveFile { path } => {
                self.files.retain(|file| *file != path);
                CacheEvent::Done
            }
            CacheStep::Finished => unreachable!(),
        }
    }

    fn drive(&mut self, begun: (CacheRun, CacheStep)) -> Option<CacheEntry> {
        let (mut run, mut step) = begun;
        while !matches!(step, CacheStep::Finished) {
            let event = self.perform(step);
            let next = run.next(event);
            run = next.0;
            step = next.1;
        }
        run.found()
    }

    fn get(&mut self, method: &str, url: &str, now: i64) -> Option<CacheEntry> {
        let begun = self.cache.get(method, url, now);
        self.drive(begun)
    }

    fn store(&mut self, request: CacheStoreRequest) {
        let begun = self.cache.store(request);
        assert!(self.drive(begun).is_none());
    }

    fn delete(&mut self, key: &str) {
        let begun = self.cache.delete(key);
        assert!(self.drive(begun).is_none());
    }
}

fn request(url: &str, body_path: Option<&str>, body_size: u64, created_at: i64, expires_at: i64) -> CacheStoreRequest {
    CacheStoreRequest {
        key: format!("GET {}", url),
        method: "GET".into(),
        url: url.into(),
        status: 200,
        headers: vec![],
        body_path: body_path.map(|path| path.to_string()),
        body_size,
        created_at,
        expires_at,
    }
}

const NOW: i64 = 1_700_000_000;

#[test]
fn sqlite_cache_round_trips_metadata_and_deletes_body_file() {
    let mut disk = Disk::new(1024);
    let body_path = format!("{}/roundtrip-body", disk.cache.objects_dir());
    disk.files.push(body_path.clone());

    let mut entry = request("http://example.com/asset", Some(&body_path), 11, NOW, NOW + 60);
    entry.headers = vec![("content-type".into(), "text/plain".into())];
    disk.store(entry);
    let loaded = disk.get("GET", "http://example.com/asset", NOW + 1).unwrap();
    assert_eq!(loaded.status, 200);
    assert_eq!(loaded.body_size, 11);
    assert_eq!(loaded.headers.len(), 1);
    assert_eq!(loaded.headers[0], ("content-type".to_string(), "text/plain".to_string()));
    assert_eq!(loaded.last_access, NOW + 1);
    assert_eq!(loaded.created_at, NOW);
    assert_eq!(loaded.expires_at, NOW + 60);

    disk.delete(&loaded.key);
    assert!(disk.get("GET", "http://example.com/asset", NOW + 1).is_none());
    assert!(!disk.files.contains(&body_path));
}

#[test]
fn sqlite_cache_removes_expired_entries_on_lookup() {
    let mut disk = Disk::new(1024);
    disk.store(request("http://example.com/expired", None, 0, NOW - 10, NOW - 1));
    assert!(disk.get("GET", "http://example.com/expired", NOW).is_none());
    assert!(disk.rows.is_empty());
}

#[test]
fn sqlite_cache_eviction_removes_oldest_entry_and_its_file() {
    let mut disk = Disk::new(1);
    let old_body = format!("{}/old-body", disk.cache.objects_dir());
    let new_body = format!("{}/new-body", disk.cache.objects_dir());
    disk.files = vec![old_body.clone(), new_body.clone()];

    disk.store(request("http://example.com/old", Some(&old_body), 3, NOW - 5, NOW + 60));
    disk.store(request("http://example.com/new", Some(&new_body), 3, NOW, NOW + 60));

    assert!(disk.get("GET", "http://example.com/old", NOW).is_none());
    assert!(disk.get("GET", "http://example.com/new", NOW).is_some());
    assert!(!disk.files.contains(&old_body));
    assert!(disk.files.contains(&new_body));
}

#[test]
fn sqlite_cache_invalidates_dangling_body_path() {
    let mut disk = Disk::new(1024);
    let missing_body = format!("{}/missing-body", disk.cache.objects_dir());
    disk.store(request("http://example.com/missing", Some(&missing_body), 10, NOW, NOW + 60));
    assert!(disk.get("GET", "http://example.com/missing", NOW).is_none());
    assert!(disk.rows.is_empty());
}

#[test]
fn an_entry_expires_at_its_time() {
    let mut disk = Disk::new(0);
    disk.store(request("http://a.test/", None, 0, NOW, NOW + 10));
    assert!(disk.get("GET", "http://a.test/", NOW + 9).is_some());
    assert!(disk.get("GET", "http://a.test/", NOW + 10).is_none());
}

#[test]
fn cache_eviction_removes_least_recently_used_entry() {
    let mut disk = Disk::new(1);
    let one_url = "http://127.0.0.1:9/one";
    let two_url = "http://127.0.0.1:9/two";
    let one_body = format!("{}/one", disk.cache.objects_dir());
    let two_body = format!("{}/two", disk.cache.objects_dir());

    disk.files.push(one_body.clone());
    disk.store(request(one_url, Some(&one_body), 1024, NOW, NOW + 300));
    assert!(disk.rows.iter().any(|row| row.key == cache_key("GET", one_url)));
    disk.files.push(two_body.clone());
    disk.store(request(two_url, Some(&two_body), 1024, NOW + 1, NOW + 300));
    assert!(disk.rows.iter().any(|row| row.key == cache_key("GET", two_url)));

    let keys: Vec<String> = disk.rows.iter().map(|row| row.key.clone()).collect();
    assert_eq!(keys, vec![cache_key("GET", two_url)]);
    assert_eq!(disk.files.len(), 1);
}

#[test]
fn a_lookup_keeps_an_entry_from_eviction() {
    let mut disk = Disk::new(2);
    disk.store(request("http://a.test/1", None, 0, NOW, NOW + 60));
    disk.store(request("http://a.test/2", None, 0, NOW + 1, NOW + 60));
    assert!(disk.get("GET", "http://a.test/1", NOW + 2).is_some());
    disk.store(request("http://a.test/3", None, 0, NOW + 3, NOW + 60));
    let keys: Vec<String> = disk.rows.iter().map(|row| row.key.clone()).collect();
    assert_eq!(keys, vec![cache_key("GET", "http://a.test/1"), cache_key("GET", "http://a.test/3")]);
}

#[test]
fn without_a_limit_nothing_is_evicted() {
    let mut disk = Disk::new(0);
    for n in 0..5 {
        disk.store(request(&format!("http://a.test/{}", n), None, 0, NOW, NOW + 60));
    }
    assert_eq!(disk.rows.len(), 5);
}

#[test]
fn an_entry_is_replaced_under_its_key() {
    let mut disk = Disk::new(10);
    disk.store(request("http://a.test/", None, 1, NOW, NOW + 60));
    disk.store(request("http://a.test/", None, 2, NOW, NOW + 60));
    assert_eq!(disk.rows.len(), 1);
    assert_eq!(disk.get("GET", "http://a.test/", NOW).unwrap().body_size, 2);
}

#[test]
fn methods_have_entries_of_their_own() {
    let mut disk = Disk::new(10);
    disk.store(request("http://a.test/", None, 1, NOW, NOW + 60));
    assert!(disk.get("HEAD", "http://a.test/", NOW).is_none());
    assert_eq!(cache_key("GET", "http://a.test/"), "GET http://a.test/");
}

#[test]
fn a_row_holds_the_entry_it_is_for() {
    let mut given = request("http://a.test/", Some("b"), u64::MAX, NOW, NOW + 60);
    given.headers = vec![("x-quote".into(), "a \"b\" \\ \u{e9}".into())];
    let row = row_for(given.clone());
    assert_eq!(row.headers, "[[\"x-quote\",\"a \\\"b\\\" \\\\ \u{e9}\"]]");
    assert_eq!(row.body_size, -1);
    let entry = entry_from(row);
    assert_eq!(entry.headers, given.headers);
    assert_eq!(entry.body_size, u64::MAX);
    assert_eq!(entry.last_access, NOW);
}

#[test]
fn unreadable_headers_are_none() {
    let mut row = row_for(request("http://a.test/", None, 1, NOW, NOW + 60));
    row.headers = "{".to_string();
    assert!(entry_from(row.clone()).headers.is_empty());
    let list = vec![("a".to_string(), "b".to_string())];
    assert_eq!(entry_with_headers(row.clone(), Some(list.clone())).headers, list);
    assert!(entry_with_headers(row, None).headers.is_empty());
}

#[test]
fn an_unasked_answer_ends_a_run() {
    let (run, _step) = CacheRun::lookup("GET", "http://a.test/", NOW);
    let (run, step) = run.next(CacheEvent::Count(3));
    assert!(matches!(step, CacheStep::Finished));
    assert!(run.found().is_none());
}

#[test]
fn a_cache_is_built_if_it_is_switched_on() {
    let mut config = CacheConfig::default();
    let cache = build_cache(&config);
    assert!(matches!(cache, CacheBackend::Noop(_)));
    assert_eq!((cache.name(), cache.is_enabled(), cache.cache_dir()), ("noop", false, "."));

    config.enabled = true;
    config.max_entries = 7;
    let cache = build_cache(&config);
    assert_eq!((cache.name(), cache.is_enabled(), cache.cache_dir()), ("sqlite", true, ".cache"));
    match cache {
        CacheBackend::Sqlite(cache) => {
            assert_eq!(cache.db_path, ".cache/cache.sqlite");
            assert_eq!(cache.objects_dir(), ".cache/objects");
            assert_eq!(cache.max_entries, 7);
            assert_eq!((cache.name(), cache.is_enabled(), cache.cache_dir()), ("sqlite", true, ".cache"));
        }
        CacheBackend::Noop(_) => panic!("no cache"),
    }
    assert!(NoopCache.store(request("http://a.test/", None, 0, NOW, NOW + 60)).is_ok());
    assert!(NoopCache.get("GET", "http://a.test/").unwrap().is_none());
    assert!(NoopCache.delete("GET http://a.test/").is_ok());
    assert_eq!((NoopCache.name(), NoopCache.is_enabled(), NoopCache.cache_dir()), ("noop", false, "."));
}
