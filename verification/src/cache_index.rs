//! The table of cached responses, and what is done to it and to the files
//! beside it when an entry is looked up, stored or deleted. Each of the three is
//! a run: it says one step at a time what to do and is told how the step went.

use crate::cache::{
    cache_key, key_of, optional_text, pairs, CacheEntry, CacheStoreRequest, EntryView,
};
use crate::numbers::{signed, signed_and_back, to_signed, to_unsigned, unsigned};
use vstd::prelude::*;

verus! {

// ---------------------------------------------------------------------------
// Rows
// ---------------------------------------------------------------------------

/// An entry as the table holds it: the headers as one text, and the size of the
/// body in the signed integers of the table.
#[derive(Debug, Clone)]
pub struct CacheRow {
    pub key: String,
    pub method: String,
    pub url: String,
    pub status: u16,
    pub headers: String,
    pub body_path: Option<String>,
    pub body_size: i64,
    pub created_at: i64,
    pub expires_at: i64,
    pub last_access: i64,
}

/// What a row says.
#[verifier::ext_equal]
pub struct RowView {
    pub key: Seq<char>,
    pub method: Seq<char>,
    pub url: Seq<char>,
    pub status: u16,
    pub headers: Seq<char>,
    pub body_path: Option<Seq<char>>,
    pub body_size: i64,
    pub created_at: i64,
    pub expires_at: i64,
    pub last_access: i64,
}

impl View for CacheRow {
    type V = RowView;

    open spec fn view(&self) -> RowView {
        RowView {
            key: self.key@,
            method: self.method@,
            url: self.url@,
            status: self.status,
            headers: self.headers@,
            body_path: optional_text(self.body_path),
            body_size: self.body_size,
            created_at: self.created_at,
            expires_at: self.expires_at,
            last_access: self.last_access,
        }
    }
}

/// The JSON text that `serde_json` writes for a list of header names and values.
pub uninterp spec fn headers_json(headers: Seq<(Seq<char>, Seq<char>)>) -> Seq<char>;

/// The list of header names and values that `serde_json` reads from a text, if
/// the text holds one.
pub uninterp spec fn headers_from_json(text: Seq<char>) -> Option<Seq<(Seq<char>, Seq<char>)>>;

/// `serde_json::to_string` on a list of pairs of strings. It does not fail on
/// strings, and what it writes `serde_json::from_str` reads back.
#[verifier::external_body]
fn write_headers(headers: &Vec<(String, String)>) -> (r: Option<String>)
    ensures
        r is Some,
        r matches Some(text) ==> text@ == headers_json(pairs(headers@)),
        r matches Some(text) ==> headers_from_json(text@) == Some(pairs(headers@)),
{
    serde_json::to_string(headers).ok()
}

/// `serde_json::from_str` into a list of pairs of strings.
#[verifier::external_body]
fn read_headers(text: &str) -> (r: Option<Vec<(String, String)>>)
    ensures
        r is Some <==> headers_from_json(text@) is Some,
        r matches Some(list) ==> headers_from_json(text@) == Some(pairs(list@)),
{
    serde_json::from_str(text).ok()
}

/// The row for an entry.
pub open spec fn row_of(e: EntryView) -> RowView {
    RowView {
        key: e.key,
        method: e.method,
        url: e.url,
        status: e.status,
        headers: headers_json(e.headers),
        body_path: e.body_path,
        body_size: signed(e.body_size),
        created_at: e.created_at,
        expires_at: e.expires_at,
        last_access: e.last_access,
    }
}

/// The entry in a row, given the headers that its text holds; a text that holds
/// none stands for no headers.
pub open spec fn entry_with(
    row: RowView,
    headers: Option<Seq<(Seq<char>, Seq<char>)>>,
) -> EntryView {
    EntryView {
        key: row.key,
        method: row.method,
        url: row.url,
        status: row.status,
        headers: match headers {
            Some(list) => list,
            None => Seq::empty(),
        },
        body_path: row.body_path,
        body_size: unsigned(row.body_size),
        created_at: row.created_at,
        expires_at: row.expires_at,
        last_access: row.last_access,
    }
}

/// The entry in a row.
pub open spec fn entry_of(row: RowView) -> EntryView {
    entry_with(row, headers_from_json(row.headers))
}

/// The row for an entry that is to be stored. The row holds that very entry.
pub fn row_for(request: CacheStoreRequest) -> (r: CacheRow)
    ensures
        r@ == row_of(request@),
        entry_of(r@) == request@,
{
    let headers = match write_headers(&request.headers) {
        Some(text) => text,
        None => String::from_str("[]"),
    };
    let row = CacheRow {
        key: request.key,
        method: request.method,
        url: request.url,
        status: request.status,
        headers,
        body_path: request.body_path,
        body_size: to_signed(request.body_size),
        created_at: request.created_at,
        expires_at: request.expires_at,
        last_access: request.created_at,
    };
    proof {
        signed_and_back(request.body_size);
    }
    assert(entry_of(row@) =~= request@);
    row
}

/// The headers as texts, if there are any.
pub open spec fn optional_pairs(
    headers: Option<Vec<(String, String)>>,
) -> Option<Seq<(Seq<char>, Seq<char>)>> {
    match headers {
        Some(list) => Some(pairs(list@)),
        None => None,
    }
}

/// The entry in a row, given the headers that its text holds.
pub fn entry_with_headers(row: CacheRow, headers: Option<Vec<(String, String)>>) -> (r: CacheEntry)
    ensures
        r@ == entry_with(row@, optional_pairs(headers)),
{
    let list = match headers {
        Some(list) => list,
        None => Vec::new(),
    };
    let entry = CacheEntry {
        key: row.key,
        method: row.method,
        url: row.url,
        status: row.status,
        headers: list,
        body_path: row.body_path,
        body_size: to_unsigned(row.body_size),
        created_at: row.created_at,
        expires_at: row.expires_at,
        last_access: row.last_access,
    };
    assert(entry@ =~= entry_with(row@, optional_pairs(headers)));
    entry
}

/// The entry in a row.
pub fn entry_from(row: CacheRow) -> (r: CacheEntry)
    ensures
        r@ == entry_of(row@),
{
    let headers = read_headers(row.headers.as_str());
    entry_with_headers(row, headers)
}

// ---------------------------------------------------------------------------
// Steps and their outcomes
// ---------------------------------------------------------------------------

/// A row to be evicted: its key, and the file of its body.
#[derive(Debug, Clone)]
pub struct Victim {
    pub key: String,
    pub body_path: Option<String>,
}

/// A row to be evicted.
#[verifier::ext_equal]
pub struct VictimView {
    pub key: Seq<char>,
    pub body_path: Option<Seq<char>>,
}

impl View for Victim {
    type V = VictimView;

    open spec fn view(&self) -> VictimView {
        VictimView { key: self.key@, body_path: optional_text(self.body_path) }
    }
}

/// The rows to be evicted.
pub open spec fn victim_views(v: Seq<Victim>) -> Seq<VictimView> {
    Seq::new(v.len(), |i: int| v[i]@)
}

/// One thing to do to the table or to the files.
#[derive(Debug, Clone)]
pub enum CacheStep {
    /// Read the row with the key.
    SelectRow { key: String },
    /// See whether the file is there.
    CheckFile { path: String },
    /// Set the time of last access of the row with the key.
    Touch { key: String, now: i64 },
    /// Write the row, in place of one with the same key.
    Upsert { row: CacheRow },
    /// Count the rows.
    CountRows,
    /// Read the rows that were not accessed for longest, as many as the limit
    /// says.
    SelectOldest { limit: i64 },
    /// Read the body path of the row with the key.
    SelectBodyPath { key: String },
    /// Delete the row with the key.
    DeleteRow { key: String },
    /// Delete the file; that it is not there is no fault.
    RemoveFile { path: String },
    /// There is nothing more to do.
    Finished,
}

/// One thing to do.
pub enum StepView {
    SelectRow { key: Seq<char> },
    CheckFile { path: Seq<char> },
    Touch { key: Seq<char>, now: i64 },
    Upsert { row: RowView },
    CountRows,
    SelectOldest { limit: i64 },
    SelectBodyPath { key: Seq<char> },
    DeleteRow { key: Seq<char> },
    RemoveFile { path: Seq<char> },
    Finished,
}

impl View for CacheStep {
    type V = StepView;

    open spec fn view(&self) -> StepView {
        match self {
            CacheStep::SelectRow { key } => StepView::SelectRow { key: key@ },
            CacheStep::CheckFile { path } => StepView::CheckFile { path: path@ },
            CacheStep::Touch { key, now } => StepView::Touch { key: key@, now: *now },
            CacheStep::Upsert { row } => StepView::Upsert { row: row@ },
            CacheStep::CountRows => StepView::CountRows,
            CacheStep::SelectOldest { limit } => StepView::SelectOldest { limit: *limit },
            CacheStep::SelectBodyPath { key } => StepView::SelectBodyPath { key: key@ },
            CacheStep::DeleteRow { key } => StepView::DeleteRow { key: key@ },
            CacheStep::RemoveFile { path } => StepView::RemoveFile { path: path@ },
            CacheStep::Finished => StepView::Finished,
        }
    }
}

/// How a step went.
#[derive(Debug, Clone)]
pub enum CacheEvent {
    /// The row that was read, if there is one.
    Row(Option<CacheRow>),
    /// Whether the file is there.
    FileThere(bool),
    /// The number of rows.
    Count(i64),
    /// The rows that were not accessed for longest.
    Oldest(Vec<Victim>),
    /// The body path that was read, if there is a row and it has one.
    BodyPath(Option<String>),
    /// It was done.
    Done,
}

/// How a step went.
pub enum EventView {
    Row(Option<RowView>),
    FileThere(bool),
    Count(i64),
    Oldest(Seq<VictimView>),
    BodyPath(Option<Seq<char>>),
    Done,
}

impl View for CacheEvent {
    type V = EventView;

    open spec fn view(&self) -> EventView {
        match self {
            CacheEvent::Row(Some(row)) => EventView::Row(Some(row@)),
            CacheEvent::Row(None) => EventView::Row(None),
            CacheEvent::FileThere(b) => EventView::FileThere(*b),
            CacheEvent::Count(n) => EventView::Count(*n),
            CacheEvent::Oldest(list) => EventView::Oldest(victim_views(list@)),
            CacheEvent::BodyPath(path) => EventView::BodyPath(optional_text(*path)),
            CacheEvent::Done => EventView::Done,
        }
    }
}

// ---------------------------------------------------------------------------
// Runs
// ---------------------------------------------------------------------------

/// What a run waits for.
enum Phase {
    Selecting,
    Checking { entry: CacheEntry },
    Touching { entry: CacheEntry },
    FindingBody { key: String },
    DroppingRow { body_path: Option<String> },
    DroppingFile,
    Writing,
    Counting,
    Ranking,
    EvictingRow { body_path: Option<String>, victims: Vec<Victim>, at: usize },
    EvictingFile { victims: Vec<Victim>, at: usize },
    Over { found: Option<CacheEntry> },
}

/// What a run waits for.
pub enum PhaseView {
    /// The row that is looked up.
    Selecting,
    /// Whether the file of the body of the entry is there.
    Checking { entry: EntryView },
    /// That the access to the entry is noted.
    Touching { entry: EntryView },
    /// The body path of the row that is deleted.
    FindingBody { key: Seq<char> },
    /// That the row is deleted.
    DroppingRow { body_path: Option<Seq<char>> },
    /// That the file of the deleted row is deleted.
    DroppingFile,
    /// That the new row is written.
    Writing,
    /// How many rows there are.
    Counting,
    /// The rows to be evicted.
    Ranking,
    /// That a row is evicted; the others are still to come.
    EvictingRow { body_path: Option<Seq<char>>, rest: Seq<VictimView> },
    /// That the file of an evicted row is deleted.
    EvictingFile { rest: Seq<VictimView> },
    /// Nothing; an entry may have been found.
    Over { found: Option<EntryView> },
}

/// The state of a run: the time it goes by, the number of rows the table may
/// have (0 is any number), and what it waits for.
pub struct RunView {
    pub now: i64,
    pub max_entries: usize,
    pub phase: PhaseView,
}

/// A lookup, a store or a deletion under way.
pub struct CacheRun {
    now: i64,
    max_entries: usize,
    phase: Phase,
}

/// The entry, if there is one.
pub open spec fn optional_entry(e: Option<CacheEntry>) -> Option<EntryView> {
    match e {
        Some(e) => Some(e@),
        None => None,
    }
}

impl Phase {
    spec fn shown(self) -> PhaseView {
        match self {
            Phase::Selecting => PhaseView::Selecting,
            Phase::Checking { entry } => PhaseView::Checking { entry: entry@ },
            Phase::Touching { entry } => PhaseView::Touching { entry: entry@ },
            Phase::FindingBody { key } => PhaseView::FindingBody { key: key@ },
            Phase::DroppingRow { body_path } => PhaseView::DroppingRow {
                body_path: optional_text(body_path),
            },
            Phase::DroppingFile => PhaseView::DroppingFile,
            Phase::Writing => PhaseView::Writing,
            Phase::Counting => PhaseView::Counting,
            Phase::Ranking => PhaseView::Ranking,
            Phase::EvictingRow { body_path, victims, at } => PhaseView::EvictingRow {
                body_path: optional_text(body_path),
                rest: victim_views(victims@).skip(at as int),
            },
            Phase::EvictingFile { victims, at } => PhaseView::EvictingFile {
                rest: victim_views(victims@).skip(at as int),
            },
            Phase::Over { found } => PhaseView::Over { found: optional_entry(found) },
        }
    }

    spec fn in_bounds(self) -> bool {
        match self {
            Phase::EvictingRow { body_path, victims, at } => at <= victims@.len(),
            Phase::EvictingFile { victims, at } => at <= victims@.len(),
            _ => true,
        }
    }
}

impl CacheRun {
    #[verifier::type_invariant]
    spec fn valid(self) -> bool {
        self.phase.in_bounds()
    }
}

impl View for CacheRun {
    type V = RunView;

    closed spec fn view(&self) -> RunView {
        RunView { now: self.now, max_entries: self.max_entries, phase: self.phase.shown() }
    }
}

/// The entry as it is after an access.
pub open spec fn accessed(entry: EntryView, now: i64) -> EntryView {
    EntryView { last_access: now, ..entry }
}

/// What follows when a row is found to be good.
pub open spec fn note_access(entry: EntryView, now: i64) -> (PhaseView, StepView) {
    (PhaseView::Touching { entry }, StepView::Touch { key: entry.key, now })
}

/// How a deletion begins.
pub open spec fn begin_deletion(key: Seq<char>) -> (PhaseView, StepView) {
    (PhaseView::FindingBody { key }, StepView::SelectBodyPath { key })
}

/// How a run ends.
pub open spec fn end(found: Option<EntryView>) -> (PhaseView, StepView) {
    (PhaseView::Over { found }, StepView::Finished)
}

/// What follows while there are rows to be evicted.
pub open spec fn evict_next(rest: Seq<VictimView>) -> (PhaseView, StepView) {
    if rest.len() == 0 {
        end(None)
    } else {
        (
            PhaseView::EvictingRow { body_path: rest[0].body_path, rest: rest.skip(1) },
            StepView::DeleteRow { key: rest[0].key },
        )
    }
}

/// What a run does after a step: what it waits for then, and the next step.
/// A run that is told what it did not ask for ends without an entry.
pub open spec fn follow(run: RunView, event: EventView) -> (PhaseView, StepView) {
    match (run.phase, event) {
        (PhaseView::Selecting, EventView::Row(Some(row))) => {
            let entry = entry_of(row);
            if entry.expires_at <= run.now {
                begin_deletion(entry.key)
            } else {
                match entry.body_path {
                    Some(path) => (PhaseView::Checking { entry }, StepView::CheckFile { path }),
                    None => note_access(entry, run.now),
                }
            }
        },
        (PhaseView::Checking { entry }, EventView::FileThere(there)) => if there {
            note_access(entry, run.now)
        } else {
            begin_deletion(entry.key)
        },
        (PhaseView::Touching { entry }, EventView::Done) => end(Some(accessed(entry, run.now))),
        (PhaseView::FindingBody { key }, EventView::BodyPath(body_path)) => (
            PhaseView::DroppingRow { body_path },
            StepView::DeleteRow { key },
        ),
        (PhaseView::DroppingRow { body_path: Some(path) }, EventView::Done) => (
            PhaseView::DroppingFile,
            StepView::RemoveFile { path },
        ),
        (PhaseView::Writing, EventView::Done) => if run.max_entries > 0 {
            (PhaseView::Counting, StepView::CountRows)
        } else {
            end(None)
        },
        (PhaseView::Counting, EventView::Count(n)) => if n > run.max_entries {
            (
                PhaseView::Ranking,
                StepView::SelectOldest { limit: (n - run.max_entries) as i64 },
            )
        } else {
            end(None)
        },
        (PhaseView::Ranking, EventView::Oldest(victims)) => evict_next(victims),
        (PhaseView::EvictingRow { body_path: Some(path), rest }, EventView::Done) => (
            PhaseView::EvictingFile { rest },
            StepView::RemoveFile { path },
        ),
        (PhaseView::EvictingRow { body_path: None, rest }, EventView::Done) => evict_next(rest),
        (PhaseView::EvictingFile { rest }, EventView::Done) => evict_next(rest),
        _ => end(None),
    }
}

fn clone_victim(v: &Victim) -> (r: Victim)
    ensures
        r@ == v@,
{
    Victim {
        key: v.key.clone(),
        body_path: match &v.body_path {
            Some(path) => Some(path.clone()),
            None => None,
        },
    }
}

fn next_victim(victims: Vec<Victim>, at: usize) -> (r: (Phase, CacheStep))
    requires
        at <= victims@.len(),
    ensures
        r.0.in_bounds(),
        (r.0.shown(), r.1@) == evict_next(victim_views(victims@).skip(at as int)),
{
    let ghost rest = victim_views(victims@).skip(at as int);
    if at == victims.len() {
        (Phase::Over { found: None }, CacheStep::Finished)
    } else {
        let victim = clone_victim(&victims[at]);
        assert(rest[0] == victim@);
        assert(rest.skip(1) =~= victim_views(victims@).skip(at + 1));
        (
            Phase::EvictingRow { body_path: victim.body_path, victims, at: at + 1 },
            CacheStep::DeleteRow { key: victim.key },
        )
    }
}

fn touch(entry: CacheEntry, now: i64) -> (r: (Phase, CacheStep))
    ensures
        r.0.in_bounds(),
        (r.0.shown(), r.1@) == note_access(entry@, now),
{
    let key = entry.key.clone();
    (Phase::Touching { entry }, CacheStep::Touch { key, now })
}

fn drop_entry(key: String) -> (r: (Phase, CacheStep))
    ensures
        r.0.in_bounds(),
        (r.0.shown(), r.1@) == begin_deletion(key@),
{
    let again = key.clone();
    (Phase::FindingBody { key }, CacheStep::SelectBodyPath { key: again })
}

fn nothing_found() -> (r: (Phase, CacheStep))
    ensures
        r.0.in_bounds(),
        (r.0.shown(), r.1@) == end(None),
{
    (Phase::Over { found: None }, CacheStep::Finished)
}

fn judge_row(row: CacheRow, now: i64) -> (r: (Phase, CacheStep))
    ensures
        r.0.in_bounds(),
        (r.0.shown(), r.1@) == ({
            let entry = entry_of(row@);
            if entry.expires_at <= now {
                begin_deletion(entry.key)
            } else {
                match entry.body_path {
                    Some(path) => (PhaseView::Checking { entry }, StepView::CheckFile { path }),
                    None => note_access(entry, now),
                }
            }
        }),
{
    let entry = entry_from(row);
    if entry.expires_at <= now {
        return drop_entry(entry.key);
    }
    let path = match &entry.body_path {
        Some(path) => path.clone(),
        None => {
            return touch(entry, now);
        },
    };
    (Phase::Checking { entry }, CacheStep::CheckFile { path })
}

fn judge_count(n: i64, max_entries: usize) -> (r: (Phase, CacheStep))
    ensures
        r.0.in_bounds(),
        (r.0.shown(), r.1@) == (if n > max_entries {
            (PhaseView::Ranking, StepView::SelectOldest { limit: (n - max_entries) as i64 })
        } else {
            end(None)
        }),
{
    if n > 0 && n as u64 > max_entries as u64 {
        let limit: i64 = (n as u64 - max_entries as u64) as i64;
        (Phase::Ranking, CacheStep::SelectOldest { limit })
    } else {
        nothing_found()
    }
}

fn follow_exec(phase: Phase, event: CacheEvent, now: i64, max_entries: usize) -> (r: (
    Phase,
    CacheStep,
))
    requires
        phase.in_bounds(),
    ensures
        r.0.in_bounds(),
        (r.0.shown(), r.1@) == follow(RunView { now, max_entries, phase: phase.shown() }, event@),
{
    match (phase, event) {
        (Phase::Selecting, CacheEvent::Row(Some(row))) => judge_row(row, now),
        (Phase::Checking { entry }, CacheEvent::FileThere(there)) => if there {
            touch(entry, now)
        } else {
            drop_entry(entry.key)
        },
        (Phase::Touching { entry }, CacheEvent::Done) => {
            let mut found = entry;
            found.last_access = now;
            assert(found@ =~= accessed(entry@, now));
            (Phase::Over { found: Some(found) }, CacheStep::Finished)
        },
        (Phase::FindingBody { key }, CacheEvent::BodyPath(body_path)) => (
            Phase::DroppingRow { body_path },
            CacheStep::DeleteRow { key },
        ),
        (Phase::DroppingRow { body_path: Some(path) }, CacheEvent::Done) => (
            Phase::DroppingFile,
            CacheStep::RemoveFile { path },
        ),
        (Phase::Writing, CacheEvent::Done) => if max_entries > 0 {
            (Phase::Counting, CacheStep::CountRows)
        } else {
            nothing_found()
        },
        (Phase::Counting, CacheEvent::Count(n)) => judge_count(n, max_entries),
        (Phase::Ranking, CacheEvent::Oldest(victims)) => {
            assert(victim_views(victims@).skip(0) =~= victim_views(victims@));
            next_victim(victims, 0)
        },
        (Phase::EvictingRow { body_path: Some(path), victims, at }, CacheEvent::Done) => (
            Phase::EvictingFile { victims, at },
            CacheStep::RemoveFile { path },
        ),
        (Phase::EvictingRow { body_path: None, victims, at }, CacheEvent::Done) => next_victim(
            victims,
            at,
        ),
        (Phase::EvictingFile { victims, at }, CacheEvent::Done) => next_victim(victims, at),
        _ => nothing_found(),
    }
}

impl CacheRun {
    /// Begins the lookup of the entry for a request, at the time `now`.
    pub fn lookup(method: &str, url: &str, now: i64) -> (r: (CacheRun, CacheStep))
        ensures
            r.0@ == (RunView { now, max_entries: 0, phase: PhaseView::Selecting }),
            r.1@ == (StepView::SelectRow { key: key_of(method@, url@) }),
    {
        let key = cache_key(method, url);
        (CacheRun { now, max_entries: 0, phase: Phase::Selecting }, CacheStep::SelectRow { key })
    }

    /// Begins to store an entry in a table that may have `max_entries` rows, or
    /// any number if that is 0.
    pub fn store(request: CacheStoreRequest, max_entries: usize) -> (r: (CacheRun, CacheStep))
        ensures
            r.0@ == (RunView { now: request.created_at, max_entries, phase: PhaseView::Writing }),
            r.1@ == (StepView::Upsert { row: row_of(request@) }),
            entry_of(row_of(request@)) == request@,
    {
        let now = request.created_at;
        let row = row_for(request);
        (CacheRun { now, max_entries, phase: Phase::Writing }, CacheStep::Upsert { row })
    }

    /// Begins to delete the entry with the key.
    pub fn delete(key: &str) -> (r: (CacheRun, CacheStep))
        ensures
            r.0@ == (RunView { now: 0, max_entries: 0, phase: begin_deletion(key@).0 }),
            r.1@ == begin_deletion(key@).1,
    {
        let (phase, step) = drop_entry(String::from_str(key));
        (CacheRun { now: 0, max_entries: 0, phase }, step)
    }

    /// Goes on after a step: the run from then on, and the next step.
    pub fn next(self, event: CacheEvent) -> (r: (CacheRun, CacheStep))
        ensures
            r.0@.now == self@.now,
            r.0@.max_entries == self@.max_entries,
            (r.0@.phase, r.1@) == follow(self@, event@),
    {
        proof {
            use_type_invariant(&self);
        }
        let now = self.now;
        let max_entries = self.max_entries;
        let (phase, step) = follow_exec(self.phase, event, now, max_entries);
        (CacheRun { now, max_entries, phase }, step)
    }

    /// The entry that a lookup found, once there is nothing more to do.
    pub fn found(self) -> (r: Option<CacheEntry>)
        ensures
            optional_entry(r) == (match self@.phase {
                PhaseView::Over { found } => found,
                _ => None,
            }),
    {
        match self.phase {
            Phase::Over { found } => found,
            _ => None,
        }
    }
}

} // verus!
