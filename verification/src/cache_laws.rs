//! What lookups, stores and deletions do to the table and the files as a whole,
//! whatever the order in which rows of equal age are found.

use crate::cache::{key_of, CacheEntry, CacheStoreRequest, EntryView};
use crate::cache_index::{
    accessed, begin_deletion, entry_of, entry_with, evict_next, follow, headers_from_json,
    headers_json, optional_entry, row_of, CacheEvent, CacheRow, EventView, PhaseView, RowView,
    RunView, StepView, Victim, VictimView,
};
use crate::message_laws::{how_64_bits_are_read, what_a_key_is_made_of};
use vstd::prelude::*;

verus! {

/// The rows of the table by their keys, and the files that are there.
#[verifier::ext_equal]
pub struct Store {
    pub rows: Map<Seq<char>, RowView>,
    pub files: Set<Seq<char>>,
}

impl Store {
    /// A table has finitely many rows, each under its own key.
    pub open spec fn valid(self) -> bool {
        &&& self.rows.dom().finite()
        &&& forall|key: Seq<char>| #[trigger]
            self.rows.contains_key(key) ==> self.rows[key].key == key
    }

    /// The row with the key, if there is one.
    pub open spec fn row(self, key: Seq<char>) -> Option<RowView> {
        if self.rows.contains_key(key) {
            Some(self.rows[key])
        } else {
            None
        }
    }

    /// The body path of the row with the key, if there is one and it has one.
    pub open spec fn body_path(self, key: Seq<char>) -> Option<Seq<char>> {
        if self.rows.contains_key(key) {
            self.rows[key].body_path
        } else {
            None
        }
    }

    /// The store without the file, if one is named.
    pub open spec fn without_file(self, path: Option<Seq<char>>) -> Store {
        match path {
            Some(path) => Store { files: self.files.remove(path), ..self },
            None => self,
        }
    }

    /// The store without the row with the key and the file of its body.
    pub open spec fn without(self, key: Seq<char>) -> Store {
        Store { rows: self.rows.remove(key), ..self }.without_file(self.body_path(key))
    }

    /// The store with the time of last access of a row set.
    pub open spec fn touched(self, key: Seq<char>, now: i64) -> Store {
        if self.rows.contains_key(key) {
            Store {
                rows: self.rows.insert(key, RowView { last_access: now, ..self.rows[key] }),
                ..self
            }
        } else {
            self
        }
    }

    /// The store with the row, in place of one with the same key.
    pub open spec fn with(self, row: RowView) -> Store {
        Store { rows: self.rows.insert(row.key, row), ..self }
    }

    /// The store without the rows, taken out one after the other, and without
    /// the files of their bodies.
    pub open spec fn evicting(self, victims: Seq<VictimView>) -> Store
        decreases victims.len(),
    {
        if victims.len() == 0 {
            self
        } else {
            Store { rows: self.rows.remove(victims[0].key), ..self }.without_file(
                victims[0].body_path,
            ).evicting(victims.skip(1))
        }
    }

    /// Whether there is a row with the key that has not expired and whose body,
    /// if it has one, is there.
    pub open spec fn fresh(self, key: Seq<char>, now: i64) -> bool {
        &&& self.rows.contains_key(key)
        &&& self.rows[key].expires_at > now
        &&& self.rows[key].body_path matches Some(path) ==> self.files.contains(path)
    }

    /// Whether the victims are the rows that were not accessed for longest, as
    /// many as the limit says or as there are.
    pub open spec fn oldest(self, limit: int, victims: Seq<VictimView>) -> bool {
        &&& victims.len() == if limit < self.rows.len() {
            limit
        } else {
            self.rows.len() as int
        }
        &&& forall|i: int|
            0 <= i < victims.len() ==> self.rows.contains_key((#[trigger] victims[i]).key)
                && victims[i].body_path == self.rows[victims[i].key].body_path
        &&& forall|i: int, j: int|
            0 <= i < j < victims.len() ==> (#[trigger] victims[i]).key != (
            #[trigger] victims[j]).key
        &&& forall|i: int, key: Seq<char>|
            0 <= i < victims.len() && #[trigger] self.rows.contains_key(key) && !among(victims, key)
                ==> self.rows[(#[trigger] victims[i]).key].last_access
                <= self.rows[key].last_access
    }

    /// What a step does.
    pub open spec fn after(self, step: StepView) -> Store {
        match step {
            StepView::Touch { key, now } => self.touched(key, now),
            StepView::Upsert { row } => self.with(row),
            StepView::DeleteRow { key } => Store { rows: self.rows.remove(key), ..self },
            StepView::RemoveFile { path } => Store { files: self.files.remove(path), ..self },
            _ => self,
        }
    }

    /// Whether the event tells how the step went.
    pub open spec fn tells(self, step: StepView, event: EventView) -> bool {
        match step {
            StepView::SelectRow { key } => event == EventView::Row(self.row(key)),
            StepView::CheckFile { path } => event == EventView::FileThere(
                self.files.contains(path),
            ),
            StepView::CountRows => event matches EventView::Count(n) && n == self.rows.len(),
            StepView::SelectOldest { limit } => event matches EventView::Oldest(victims)
                && self.oldest(limit as int, victims),
            StepView::SelectBodyPath { key } => event == EventView::BodyPath(self.body_path(key)),
            _ => event == EventView::Done,
        }
    }
}

/// Whether one of the victims has the key.
pub open spec fn among(victims: Seq<VictimView>, key: Seq<char>) -> bool {
    exists|i: int| 0 <= i < victims.len() && (#[trigger] victims[i]).key == key
}

/// Whether the run, with the step to be done next, can end within `n` steps
/// with the store as `after` and the entry `found`, each step being done and
/// its outcome told as it is.
pub open spec fn ends(
    run: RunView,
    step: StepView,
    before: Store,
    after: Store,
    found: Option<EntryView>,
    n: nat,
) -> bool
    decreases n,
{
    if step is Finished {
        after == before && run.phase == (PhaseView::Over { found })
    } else {
        n > 0 && exists|event: EventView| #[trigger]
            before.tells(step, event) && ends(
                RunView { phase: follow(run, event).0, ..run },
                follow(run, event).1,
                before.after(step),
                after,
                found,
                (n - 1) as nat,
            )
    }
}

proof fn a_step_is_taken(
    run: RunView,
    step: StepView,
    before: Store,
    after: Store,
    found: Option<EntryView>,
    n: nat,
) -> (event: EventView)
    requires
        ends(run, step, before, after, found, n),
        !(step is Finished),
    ensures
        n > 0,
        before.tells(step, event),
        ends(
            RunView { phase: follow(run, event).0, ..run },
            follow(run, event).1,
            before.after(step),
            after,
            found,
            (n - 1) as nat,
        ),
{
    choose|event: EventView| #[trigger]
        before.tells(step, event) && ends(
            RunView { phase: follow(run, event).0, ..run },
            follow(run, event).1,
            before.after(step),
            after,
            found,
            (n - 1) as nat,
        )
}

// ---------------------------------------------------------------------------
// Deletion
// ---------------------------------------------------------------------------

/// A deletion takes out the row with the key and the file of its body, and
/// leaves everything else as it is.
pub proof fn what_a_deletion_does(
    run: RunView,
    key: Seq<char>,
    before: Store,
    after: Store,
    found: Option<EntryView>,
    n: nat,
)
    requires
        run.phase == begin_deletion(key).0,
        ends(run, begin_deletion(key).1, before, after, found, n),
    ensures
        after == before.without(key),
        found is None,
{
    let path = before.body_path(key);
    let step1 = begin_deletion(key).1;
    let event1 = a_step_is_taken(run, step1, before, after, found, n);
    let run1 = RunView { phase: follow(run, event1).0, ..run };
    let step2 = follow(run, event1).1;
    let n1 = (n - 1) as nat;
    let event2 = a_step_is_taken(run1, step2, before, after, found, n1);
    let store2 = before.after(step2);
    let run2 = RunView { phase: follow(run1, event2).0, ..run1 };
    let step3 = follow(run1, event2).1;
    if path is Some {
        let event3 = a_step_is_taken(run2, step3, store2, after, found, (n1 - 1) as nat);
    }
}

// ---------------------------------------------------------------------------
// Lookup
// ---------------------------------------------------------------------------

/// A lookup finds the entry for the request if it is fresh, with the access
/// noted in it and in the table. A row that has expired, or whose body is gone,
/// is not found, and is deleted. A lookup for which there is no row changes
/// nothing.
pub proof fn what_a_lookup_does(
    method: Seq<char>,
    url: Seq<char>,
    now: i64,
    before: Store,
    after: Store,
    found: Option<EntryView>,
    n: nat,
)
    requires
        before.valid(),
        ends(
            RunView { now, max_entries: 0, phase: PhaseView::Selecting },
            StepView::SelectRow { key: key_of(method, url) },
            before,
            after,
            found,
            n,
        ),
    ensures
        before.fresh(key_of(method, url), now) ==> found == Some(
            accessed(entry_of(before.rows[key_of(method, url)]), now),
        ) && after == before.touched(key_of(method, url), now),
        !before.fresh(key_of(method, url), now) ==> found is None && after == (
        if before.rows.contains_key(key_of(method, url)) {
            before.without(key_of(method, url))
        } else {
            before
        }),
{
    let key = key_of(method, url);
    let run = RunView { now, max_entries: 0, phase: PhaseView::Selecting };
    let step = StepView::SelectRow { key };
    let event = a_step_is_taken(run, step, before, after, found, n);
    let run1 = RunView { phase: follow(run, event).0, ..run };
    let step1 = follow(run, event).1;
    let n1 = (n - 1) as nat;
    if before.rows.contains_key(key) {
        let entry = entry_of(before.rows[key]);
        if entry.expires_at <= now {
            what_a_deletion_does(run1, key, before, after, found, n1);
        } else {
            let (run2, step2, n2) = if entry.body_path is Some {
                let event1 = a_step_is_taken(run1, step1, before, after, found, n1);
                (
                    RunView { phase: follow(run1, event1).0, ..run1 },
                    follow(run1, event1).1,
                    (n1 - 1) as nat,
                )
            } else {
                (run1, step1, n1)
            };
            if before.fresh(key, now) {
                assert(step2 == (StepView::Touch { key, now }));
                let event2 = a_step_is_taken(run2, step2, before, after, found, n2);
            } else {
                what_a_deletion_does(run2, key, before, after, found, n2);
            }
        }
    }
}

/// No lookup gives an entry that has expired, or whose body is gone.
pub proof fn what_is_found_is_fresh(
    method: Seq<char>,
    url: Seq<char>,
    now: i64,
    before: Store,
    after: Store,
    found: Option<EntryView>,
    n: nat,
)
    requires
        before.valid(),
        ends(
            RunView { now, max_entries: 0, phase: PhaseView::Selecting },
            StepView::SelectRow { key: key_of(method, url) },
            before,
            after,
            found,
            n,
        ),
    ensures
        found matches Some(entry) ==> {
            &&& entry.key == key_of(method, url)
            &&& entry.expires_at > now
            &&& entry.last_access == now
            &&& entry.body_path matches Some(path) ==> before.files.contains(path)
        },
{
    what_a_lookup_does(method, url, now, before, after, found, n);
}

/// After a deletion the entry is not found.
pub proof fn a_deleted_entry_is_not_found(
    method: Seq<char>,
    url: Seq<char>,
    now: i64,
    before: Store,
    deleted: Store,
    nothing: Option<EntryView>,
    after: Store,
    found: Option<EntryView>,
    run: RunView,
    n1: nat,
    n2: nat,
)
    requires
        before.valid(),
        run.phase == begin_deletion(key_of(method, url)).0,
        ends(run, begin_deletion(key_of(method, url)).1, before, deleted, nothing, n1),
        ends(
            RunView { now, max_entries: 0, phase: PhaseView::Selecting },
            StepView::SelectRow { key: key_of(method, url) },
            deleted,
            after,
            found,
            n2,
        ),
    ensures
        found is None,
        after == deleted,
{
    let key = key_of(method, url);
    what_a_deletion_does(run, key, before, deleted, nothing, n1);
    assert(deleted.rows == before.rows.remove(key));
    assert(deleted.valid());
    what_a_lookup_does(method, url, now, deleted, after, found, n2);
}

// ---------------------------------------------------------------------------
// Store
// ---------------------------------------------------------------------------

proof fn an_eviction_ends(
    run: RunView,
    rest: Seq<VictimView>,
    before: Store,
    after: Store,
    found: Option<EntryView>,
    n: nat,
)
    requires
        run.phase == evict_next(rest).0,
        ends(run, evict_next(rest).1, before, after, found, n),
    ensures
        after == before.evicting(rest),
        found is None,
    decreases rest.len(),
{
    if rest.len() > 0 {
        let step = evict_next(rest).1;
        let event = a_step_is_taken(run, step, before, after, found, n);
        let run1 = RunView { phase: follow(run, event).0, ..run };
        let store1 = before.after(step);
        let n1 = (n - 1) as nat;
        match rest[0].body_path {
            Some(path) => {
                let step1 = follow(run, event).1;
                let event1 = a_step_is_taken(run1, step1, store1, after, found, n1);
                let run2 = RunView { phase: follow(run1, event1).0, ..run1 };
                an_eviction_ends(
                    run2,
                    rest.skip(1),
                    store1.after(step1),
                    after,
                    found,
                    (n1 - 1) as nat,
                );
            },
            None => {
                an_eviction_ends(run1, rest.skip(1), store1, after, found, n1);
            },
        }
    }
}

/// Whether `after` is the store with the row added, less the rows that were not
/// accessed for longest where there are more than `max_entries`.
pub open spec fn is_stored(
    before: Store,
    row: RowView,
    max_entries: usize,
    after: Store,
) -> bool {
    let with = before.with(row);
    if max_entries == 0 || with.rows.len() <= max_entries {
        after == with
    } else {
        exists|victims: Seq<VictimView>| #[trigger]
            with.oldest(with.rows.len() - max_entries, victims) && after == with.evicting(victims)
    }
}

/// A store adds the row, in place of one with the same key, and then takes out
/// the rows that were not accessed for longest, and the files of their bodies,
/// until there are no more rows than allowed.
pub proof fn what_a_store_does(
    now: i64,
    row: RowView,
    max_entries: usize,
    before: Store,
    after: Store,
    found: Option<EntryView>,
    n: nat,
)
    requires
        ends(
            RunView { now, max_entries, phase: PhaseView::Writing },
            StepView::Upsert { row },
            before,
            after,
            found,
            n,
        ),
    ensures
        is_stored(before, row, max_entries, after),
{
    let with = before.with(row);
    let run = RunView { now, max_entries, phase: PhaseView::Writing };
    let event = a_step_is_taken(run, StepView::Upsert { row }, before, after, found, n);
    let run1 = RunView { phase: follow(run, event).0, ..run };
    let step1 = follow(run, event).1;
    let n1 = (n - 1) as nat;
    if max_entries > 0 {
        let event1 = a_step_is_taken(run1, step1, with, after, found, n1);
        let run2 = RunView { phase: follow(run1, event1).0, ..run1 };
        let step2 = follow(run1, event1).1;
        let n2 = (n1 - 1) as nat;
        if with.rows.len() > max_entries {
            let event2 = a_step_is_taken(run2, step2, with, after, found, n2);
            let victims = event2->Oldest_0;
            assert(with.oldest(with.rows.len() - max_entries, victims));
            let run3 = RunView { phase: follow(run2, event2).0, ..run2 };
            an_eviction_ends(run3, victims, with, after, found, (n2 - 1) as nat);
        }
    }
}

/// Whether the file is that of the body of one of the victims.
spec fn is_body_of(victims: Seq<VictimView>, path: Seq<char>) -> bool {
    exists|i: int| 0 <= i < victims.len() && (#[trigger] victims[i]).body_path == Some(path)
}

proof fn what_evicting_leaves(before: Store, victims: Seq<VictimView>)
    ensures
        forall|key: Seq<char>| #[trigger]
            before.evicting(victims).rows.contains_key(key) <==> before.rows.contains_key(key)
                && !among(victims, key),
        forall|key: Seq<char>| #[trigger]
            before.evicting(victims).rows.contains_key(key) ==> before.evicting(victims).rows[key]
                == before.rows[key],
        before.rows.dom().finite() ==> before.evicting(victims).rows.dom().finite(),
        forall|path: Seq<char>| #[trigger]
            before.evicting(victims).files.contains(path) <==> before.files.contains(path)
                && !is_body_of(victims, path),
    decreases victims.len(),
{
    if victims.len() > 0 {
        let first = Store { rows: before.rows.remove(victims[0].key), ..before }.without_file(
            victims[0].body_path,
        );
        let rest = victims.skip(1);
        what_evicting_leaves(first, rest);
        let left = before.evicting(victims);
        assert(left == first.evicting(rest));
        assert(first.rows == before.rows.remove(victims[0].key));
        assert forall|key: Seq<char>| among(victims, key) <==> key == victims[0].key || among(
            rest,
            key,
        ) by {
            if among(victims, key) && key != victims[0].key {
                let i = choose|i: int|
                    0 <= i < victims.len() && (#[trigger] victims[i]).key == key;
                assert(rest[i - 1] == victims[i]);
            }
            if among(rest, key) {
                let i = choose|i: int| 0 <= i < rest.len() && (#[trigger] rest[i]).key == key;
                assert(victims[i + 1] == rest[i]);
            }
        }
        assert forall|key: Seq<char>|
            (#[trigger] left.rows.contains_key(key) <==> before.rows.contains_key(key) && !among(
                victims,
                key,
            )) && (left.rows.contains_key(key) ==> left.rows[key] == before.rows[key]) by {
            assert(among(victims, key) <==> key == victims[0].key || among(rest, key));
            assert(first.evicting(rest).rows.contains_key(key) <==> first.rows.contains_key(key)
                && !among(rest, key));
        }
        assert forall|path: Seq<char>| #[trigger]
            left.files.contains(path) <==> before.files.contains(path) && !is_body_of(
                victims,
                path,
            ) by {
            if is_body_of(victims, path) && victims[0].body_path != Some(path) {
                let i = choose|i: int|
                    0 <= i < victims.len() && (#[trigger] victims[i]).body_path == Some(path);
                assert(rest[i - 1] == victims[i]);
            }
            if is_body_of(rest, path) {
                let i = choose|i: int|
                    0 <= i < rest.len() && (#[trigger] rest[i]).body_path == Some(path);
                assert(victims[i + 1] == rest[i]);
            }
            assert(first.evicting(rest).files.contains(path) <==> first.files.contains(path)
                && !is_body_of(rest, path));
        }
    }
}

proof fn how_many_evicting_leaves(before: Store, victims: Seq<VictimView>)
    requires
        before.rows.dom().finite(),
        forall|i: int|
            0 <= i < victims.len() ==> before.rows.contains_key((#[trigger] victims[i]).key),
        forall|i: int, j: int|
            0 <= i < j < victims.len() ==> (#[trigger] victims[i]).key != (
            #[trigger] victims[j]).key,
    ensures
        before.evicting(victims).rows.len() == before.rows.len() - victims.len(),
    decreases victims.len(),
{
    if victims.len() > 0 {
        let first = Store { rows: before.rows.remove(victims[0].key), ..before }.without_file(
            victims[0].body_path,
        );
        let rest = victims.skip(1);
        assert(first.rows == before.rows.remove(victims[0].key));
        assert(first.rows.dom() =~= before.rows.dom().remove(victims[0].key));
        assert forall|i: int| 0 <= i < rest.len() implies first.rows.contains_key(
            (#[trigger] rest[i]).key,
        ) by {
            assert(rest[i] == victims[i + 1]);
            assert(victims[0].key != victims[i + 1].key);
        }
        assert forall|i: int, j: int| 0 <= i < j < rest.len() implies (#[trigger] rest[i]).key != (
        #[trigger] rest[j]).key by {
            assert(rest[i] == victims[i + 1]);
            assert(rest[j] == victims[j + 1]);
        }
        how_many_evicting_leaves(first, rest);
    }
}

/// After a store the table has no more rows than allowed.
pub proof fn a_store_keeps_to_the_limit(
    before: Store,
    row: RowView,
    max_entries: usize,
    after: Store,
)
    requires
        before.valid(),
        is_stored(before, row, max_entries, after),
    ensures
        max_entries > 0 ==> after.rows.len() <= max_entries,
        max_entries > 0 && before.with(row).rows.len() >= max_entries ==> after.rows.len()
            == max_entries,
        after.valid(),
{
    let with = before.with(row);
    if max_entries > 0 && with.rows.len() > max_entries {
        let victims = choose|victims: Seq<VictimView>| #[trigger]
            with.oldest(with.rows.len() - max_entries, victims) && after == with.evicting(victims);
        how_many_evicting_leaves(with, victims);
        what_evicting_leaves(with, victims);
    }
}

/// A store changes no row but the new one, and takes out only rows that were not
/// accessed since any of the rows that stay.
pub proof fn a_store_takes_out_the_least_recently_used(
    before: Store,
    row: RowView,
    max_entries: usize,
    after: Store,
    gone: Seq<char>,
    kept: Seq<char>,
)
    requires
        is_stored(before, row, max_entries, after),
        before.with(row).rows.contains_key(gone),
        !after.rows.contains_key(gone),
        after.rows.contains_key(kept),
    ensures
        before.with(row).rows.contains_key(kept),
        after.rows[kept] == before.with(row).rows[kept],
        before.with(row).rows[gone].last_access <= after.rows[kept].last_access,
{
    let with = before.with(row);
    let victims = choose|victims: Seq<VictimView>| #[trigger]
        with.oldest(with.rows.len() - max_entries, victims) && after == with.evicting(victims);
    what_evicting_leaves(with, victims);
    let i = choose|i: int| 0 <= i < victims.len() && (#[trigger] victims[i]).key == gone;
    assert(with.rows.contains_key(kept) && !among(victims, kept));
}

/// Whether the file is that of the body of a row that the store takes out.
pub open spec fn is_body_of_gone(with: Store, after: Store, path: Seq<char>) -> bool {
    exists|key: Seq<char>| #[trigger]
        with.rows.contains_key(key) && !after.rows.contains_key(key) && with.rows[key].body_path
            == Some(path)
}

/// A store deletes exactly the files of the bodies of the rows that it takes out.
pub proof fn a_store_deletes_the_files_of_what_it_takes_out(
    before: Store,
    row: RowView,
    max_entries: usize,
    after: Store,
    path: Seq<char>,
)
    requires
        is_stored(before, row, max_entries, after),
    ensures
        after.files.contains(path) <==> before.files.contains(path) && !is_body_of_gone(
            before.with(row),
            after,
            path,
        ),
{
    let with = before.with(row);
    if max_entries > 0 && with.rows.len() > max_entries {
        let victims = choose|victims: Seq<VictimView>| #[trigger]
            with.oldest(with.rows.len() - max_entries, victims) && after == with.evicting(victims);
        what_evicting_leaves(with, victims);
        assert(after.files.contains(path) <==> with.files.contains(path) && !is_body_of(
            victims,
            path,
        ));
        if is_body_of(victims, path) {
            let i = choose|i: int|
                0 <= i < victims.len() && (#[trigger] victims[i]).body_path == Some(path);
            let key = victims[i].key;
            assert(with.rows.contains_key(key) && !after.rows.contains_key(key));
        }
        if is_body_of_gone(with, after, path) {
            let key = choose|key: Seq<char>| #[trigger]
                with.rows.contains_key(key) && !after.rows.contains_key(key)
                    && with.rows[key].body_path == Some(path);
            let i = choose|i: int| 0 <= i < victims.len() && (#[trigger] victims[i]).key == key;
            assert(victims[i].body_path == Some(path));
        }
    }
}

/// A row that is newer than every other is not taken out by its own store.
pub proof fn the_newest_row_stays(
    before: Store,
    row: RowView,
    max_entries: usize,
    after: Store,
)
    requires
        before.valid(),
        is_stored(before, row, max_entries, after),
        forall|key: Seq<char>| #[trigger]
            before.rows.contains_key(key) && key != row.key ==> before.rows[key].last_access
                < row.last_access,
    ensures
        after.rows.contains_key(row.key),
        after.rows[row.key] == row,
{
    let with = before.with(row);
    if max_entries > 0 && with.rows.len() > max_entries {
        let victims = choose|victims: Seq<VictimView>| #[trigger]
            with.oldest(with.rows.len() - max_entries, victims) && after == with.evicting(victims);
        how_many_evicting_leaves(with, victims);
        what_evicting_leaves(with, victims);
        if !after.rows.contains_key(row.key) {
            assert(after.rows.dom().len() > 0);
            let kept = after.rows.dom().choose();
            assert(after.rows.contains_key(kept));
            a_store_takes_out_the_least_recently_used(
                before,
                row,
                max_entries,
                after,
                row.key,
                kept,
            );
            assert(before.rows.contains_key(kept));
        }
    }
}

/// A lookup gives back what was stored: once a row is in the table, the lookup
/// of its request before it expires finds the entry in the row, provided that
/// the file of its body is there.
pub proof fn a_lookup_gives_back_what_was_stored(
    method: Seq<char>,
    url: Seq<char>,
    row: RowView,
    max_entries: usize,
    before: Store,
    stored: Store,
    now: i64,
    after: Store,
    found: Option<EntryView>,
    n: nat,
)
    requires
        before.valid(),
        row.key == key_of(method, url),
        is_stored(before, row, max_entries, stored),
        stored.rows.contains_key(row.key),
        now < row.expires_at,
        row.body_path matches Some(path) ==> stored.files.contains(path),
        ends(
            RunView { now, max_entries: 0, phase: PhaseView::Selecting },
            StepView::SelectRow { key: key_of(method, url) },
            stored,
            after,
            found,
            n,
        ),
    ensures
        found == Some(accessed(entry_of(row), now)),
{
    a_store_keeps_to_the_limit(before, row, max_entries, stored);
    let with = before.with(row);
    if max_entries > 0 && with.rows.len() > max_entries {
        let victims = choose|victims: Seq<VictimView>| #[trigger]
            with.oldest(with.rows.len() - max_entries, victims) && stored == with.evicting(victims);
        what_evicting_leaves(with, victims);
    }
    what_a_lookup_does(method, url, now, stored, after, found, n);
}

/// How far a run is from its end, in stages.
pub open spec fn stage(phase: PhaseView) -> nat {
    match phase {
        PhaseView::Selecting => 6,
        PhaseView::Checking { .. } => 5,
        PhaseView::FindingBody { .. } => 4,
        PhaseView::DroppingRow { .. } => 3,
        PhaseView::DroppingFile => 2,
        PhaseView::Touching { .. } => 2,
        PhaseView::Writing => 6,
        PhaseView::Counting => 5,
        PhaseView::Ranking => 4,
        PhaseView::EvictingRow { .. } => 1,
        PhaseView::EvictingFile { .. } => 1,
        PhaseView::Over { .. } => 0,
    }
}

/// How many steps a stage can still take.
pub open spec fn steps_left(phase: PhaseView) -> nat {
    match phase {
        PhaseView::EvictingRow { rest, .. } => 2 * rest.len() + 2,
        PhaseView::EvictingFile { rest } => 2 * rest.len() + 1,
        _ => 0,
    }
}

/// Every run ends: whatever it is told, it comes to a later stage or has fewer
/// steps left in the one it is in, and it has nothing more to do exactly when it
/// is over.
pub proof fn every_run_ends(run: RunView, event: EventView)
    requires
        !(run.phase is Over),
    ensures
        ({
            let (phase, step) = follow(run, event);
            &&& stage(phase) < stage(run.phase) || (stage(phase) == stage(run.phase) && steps_left(
                phase,
            ) < steps_left(run.phase))
            &&& step is Finished <==> phase is Over
        }),
{
}

// ---------------------------------------------------------------------------
// Rows and entries, field by field
// ---------------------------------------------------------------------------

/// A row says what its entry says, and an entry what its row says: the headers by way of
/// their text, where one that cannot be read stands for none, and the size by way of the
/// same 64 bits. An access changes the time of last access and nothing else.
pub proof fn what_rows_and_entries_say(
    e: EntryView,
    row: RowView,
    list: Option<Seq<(Seq<char>, Seq<char>)>>,
    now: i64,
)
    ensures
        ({
            let r = row_of(e);
            &&& (r.key, r.method, r.url, r.status) == (e.key, e.method, e.url, e.status)
            &&& (r.body_path, r.created_at) == (e.body_path, e.created_at)
            &&& (r.expires_at, r.last_access) == (e.expires_at, e.last_access)
            &&& r.headers == headers_json(e.headers)
            &&& e.body_size < 0x8000_0000_0000_0000 ==> r.body_size == e.body_size
            &&& e.body_size >= 0x8000_0000_0000_0000 ==> r.body_size == e.body_size
                - 0x1_0000_0000_0000_0000
        }),
        ({
            let f = entry_with(row, list);
            &&& (f.key, f.method, f.url, f.status) == (row.key, row.method, row.url, row.status)
            &&& (f.body_path, f.created_at) == (row.body_path, row.created_at)
            &&& (f.expires_at, f.last_access) == (row.expires_at, row.last_access)
            &&& list is Some ==> f.headers == list->0
            &&& list is None ==> f.headers.len() == 0
            &&& row.body_size >= 0 ==> f.body_size == row.body_size
            &&& row.body_size < 0 ==> f.body_size == row.body_size + 0x1_0000_0000_0000_0000
        }),
        entry_of(row) == entry_with(row, headers_from_json(row.headers)),
        ({
            let a = accessed(e, now);
            &&& (a.key, a.method, a.url, a.status) == (e.key, e.method, e.url, e.status)
            &&& (a.headers, a.body_path, a.body_size) == (e.headers, e.body_path, e.body_size)
            &&& (a.created_at, a.expires_at) == (e.created_at, e.expires_at)
            &&& a.last_access == now
        }),
{
    how_64_bits_are_read(e.body_size, row.body_size);
}

/// Whether there is a row for the key that expires after `now` and whose body, if it has
/// one, is among the files.
pub open spec fn can_be_found(before: Store, key: Seq<char>, now: i64) -> bool {
    &&& before.rows.dom().contains(key)
    &&& now < before.rows[key].expires_at
    &&& before.rows[key].body_path is None || before.files.contains(
        before.rows[key].body_path->0,
    )
}

/// A lookup finds an entry exactly if there is a row for the method and the URL that
/// expires after the time of the lookup and whose body is there. It then has what the row
/// has, and only the time of last access of that row is set; no file goes. Any other row
/// for them goes with its body, and nothing else does.
pub proof fn what_a_lookup_finds_and_leaves(
    method: Seq<char>,
    url: Seq<char>,
    now: i64,
    before: Store,
    after: Store,
    found: Option<EntryView>,
    n: nat,
    other: Seq<char>,
    path: Seq<char>,
)
    requires
        before.valid(),
        ends(
            RunView { now, max_entries: 0, phase: PhaseView::Selecting },
            StepView::SelectRow { key: key_of(method, url) },
            before,
            after,
            found,
            n,
        ),
    ensures
        ({
            let key = method.push(' ') + url;
            let row = before.rows[key];
            &&& found is Some <==> can_be_found(before, key, now)
            &&& found is Some ==> {
                let e = found->0;
                &&& (e.key, e.method, e.url, e.status) == (key, row.method, row.url, row.status)
                &&& (e.body_path, e.created_at) == (row.body_path, row.created_at)
                &&& (e.expires_at, e.last_access) == (row.expires_at, now)
                &&& row.body_size >= 0 ==> e.body_size == row.body_size
                &&& headers_from_json(row.headers) is Some ==> e.headers == headers_from_json(
                    row.headers,
                )->0
                &&& after.rows.contains_key(key)
                &&& after.rows[key] == (RowView { last_access: now, ..row })
                &&& after.files == before.files
            }
            &&& found is None ==> {
                &&& !after.rows.contains_key(key)
                &&& after.files.contains(path) <==> before.files.contains(path) && !(
                before.rows.contains_key(key) && row.body_path == Some(path))
            }
            &&& other != key ==> {
                &&& after.rows.contains_key(other) <==> before.rows.contains_key(other)
                &&& before.rows.contains_key(other) ==> after.rows[other] == before.rows[other]
            }
        }),
{
    what_a_key_is_made_of(method, url);
    what_a_lookup_does(method, url, now, before, after, found, n);
    let key = method.push(' ') + url;
    let row = before.rows[key];
    what_rows_and_entries_say(entry_of(row), row, headers_from_json(row.headers), now);
    assert(before.fresh(key, now) <==> can_be_found(before, key, now));
}

/// A deletion takes out the row with the key and the file of its body: every other row and
/// every other file stays as it is.
pub proof fn what_a_deletion_leaves(
    run: RunView,
    key: Seq<char>,
    before: Store,
    after: Store,
    found: Option<EntryView>,
    n: nat,
    other: Seq<char>,
    path: Seq<char>,
)
    requires
        run.phase == begin_deletion(key).0,
        ends(run, begin_deletion(key).1, before, after, found, n),
    ensures
        found is None,
        !after.rows.contains_key(key),
        other != key ==> (after.rows.contains_key(other) <==> before.rows.contains_key(other)),
        other != key && before.rows.contains_key(other) ==> after.rows[other]
            == before.rows[other],
        after.files.contains(path) <==> before.files.contains(path) && !(before.rows.contains_key(
            key,
        ) && before.rows[key].body_path == Some(path)),
{
    what_a_deletion_does(run, key, before, after, found, n);
}

/// A store into a table with room to spare adds the row, in place of one with the same
/// key, and changes nothing else; a limit of 0 is no limit.
pub proof fn what_a_store_with_room_does(
    now: i64,
    row: RowView,
    max_entries: usize,
    before: Store,
    after: Store,
    found: Option<EntryView>,
    n: nat,
)
    requires
        before.valid(),
        ends(
            RunView { now, max_entries, phase: PhaseView::Writing },
            StepView::Upsert { row },
            before,
            after,
            found,
            n,
        ),
        max_entries == 0 || before.rows.len() < max_entries || (before.rows.contains_key(row.key)
            && before.rows.len() == max_entries),
    ensures
        after.rows == before.rows.insert(row.key, row),
        after.files == before.files,
{
    what_a_store_does(now, row, max_entries, before, after, found, n);
    let with = before.rows.insert(row.key, row);
    assert(with.dom() =~= before.rows.dom().insert(row.key));
    assert(before.with(row).rows == with);
    if before.rows.contains_key(row.key) {
        assert(with.dom() =~= before.rows.dom());
    }
}

/// After a store every row but the new one is as it was, or gone; and as many are gone as
/// the table had too many.
pub proof fn what_a_store_leaves(
    now: i64,
    row: RowView,
    max_entries: usize,
    before: Store,
    after: Store,
    found: Option<EntryView>,
    n: nat,
    other: Seq<char>,
)
    requires
        before.valid(),
        ends(
            RunView { now, max_entries, phase: PhaseView::Writing },
            StepView::Upsert { row },
            before,
            after,
            found,
            n,
        ),
    ensures
        after.rows.contains_key(other) && other != row.key ==> before.rows.contains_key(other)
            && after.rows[other] == before.rows[other],
        after.rows.contains_key(row.key) ==> after.rows[row.key] == row,
        max_entries > 0 && before.rows.len() >= max_entries ==> after.rows.len() == max_entries,
{
    what_a_store_does(now, row, max_entries, before, after, found, n);
    let with = before.with(row);
    a_store_keeps_to_the_limit(before, row, max_entries, after);
    assert(with.rows.dom() =~= before.rows.dom().insert(row.key));
    if max_entries > 0 && with.rows.len() > max_entries {
        let victims = choose|victims: Seq<VictimView>| #[trigger]
            with.oldest(with.rows.len() - max_entries, victims) && after == with.evicting(victims);
        what_evicting_leaves(with, victims);
    }
}

/// Whether the outcome is of the sort that a run in the phase waits for.
pub open spec fn is_awaited(phase: PhaseView, event: EventView) -> bool {
    match phase {
        PhaseView::Selecting => event is Row,
        PhaseView::Checking { .. } => event is FileThere,
        PhaseView::FindingBody { .. } => event is BodyPath,
        PhaseView::Counting => event is Count,
        PhaseView::Ranking => event is Oldest,
        PhaseView::Over { .. } => false,
        _ => event is Done,
    }
}

/// A run that is told what it did not ask for has nothing more to do and has found nothing.
pub proof fn what_was_not_asked_for_ends_a_run(run: RunView, event: EventView)
    requires
        !is_awaited(run.phase, event),
    ensures
        follow(run, event).1 is Finished,
        follow(run, event).0 == (PhaseView::Over { found: None }),
{
}

// ---------------------------------------------------------------------------
// What is seen of entries, rows and requests
// ---------------------------------------------------------------------------

/// What is said of an entry, of a request to store one, and of a row, is what their fields
/// hold; an entry that is to be stored counts as used when it is made.
pub proof fn what_is_seen_of_entries(
    entry: CacheEntry,
    request: CacheStoreRequest,
    row: CacheRow,
    victim: Victim,
)
    ensures
        (entry@.key, entry@.method, entry@.url) == (entry.key@, entry.method@, entry.url@),
        (entry@.status, entry@.body_size) == (entry.status, entry.body_size),
        (entry@.created_at, entry@.expires_at) == (entry.created_at, entry.expires_at),
        entry@.last_access == entry.last_access,
        entry@.headers.len() == entry.headers@.len(),
        forall|i: int|
            0 <= i < entry.headers@.len() ==> (#[trigger] entry@.headers[i]) == (
                entry.headers@[i].0@,
                entry.headers@[i].1@,
            ),
        entry.body_path is None ==> entry@.body_path is None,
        entry.body_path is Some ==> entry@.body_path == Some(entry.body_path->0@),
        (request@.key, request@.method) == (request.key@, request.method@),
        (request@.url, request@.status) == (request.url@, request.status),
        request@.body_size == request.body_size,
        (request@.created_at, request@.expires_at) == (request.created_at, request.expires_at),
        request@.last_access == request.created_at,
        request@.headers.len() == request.headers@.len(),
        forall|i: int|
            0 <= i < request.headers@.len() ==> (#[trigger] request@.headers[i]) == (
                request.headers@[i].0@,
                request.headers@[i].1@,
            ),
        request.body_path is None ==> request@.body_path is None,
        request.body_path is Some ==> request@.body_path == Some(request.body_path->0@),
        (row@.key, row@.method, row@.url) == (row.key@, row.method@, row.url@),
        (row@.status, row@.body_size) == (row.status, row.body_size),
        row@.headers == row.headers@,
        (row@.created_at, row@.expires_at) == (row.created_at, row.expires_at),
        row@.last_access == row.last_access,
        row.body_path is None ==> row@.body_path is None,
        row.body_path is Some ==> row@.body_path == Some(row.body_path->0@),
        victim@.key == victim.key@,
        victim.body_path is None ==> victim@.body_path is None,
        victim.body_path is Some ==> victim@.body_path == Some(victim.body_path->0@),
{
}

/// What a run is told of rows to be evicted, of paths and of entries is what is in them.
pub proof fn what_is_seen_of_outcomes(
    victims: Vec<Victim>,
    path: Option<String>,
    row: CacheRow,
    entry: Option<CacheEntry>,
    i: int,
)
    ensures
        CacheEvent::Oldest(victims)@ is Oldest,
        CacheEvent::Oldest(victims)@->Oldest_0.len() == victims@.len(),
        0 <= i < victims@.len() ==> CacheEvent::Oldest(victims)@->Oldest_0[i] == victims@[i]@,
        CacheEvent::BodyPath(path)@ is BodyPath,
        path is Some ==> CacheEvent::BodyPath(path)@->BodyPath_0 == Some(path->0@),
        path is None ==> CacheEvent::BodyPath(path)@->BodyPath_0 is None,
        CacheEvent::Row(Some(row))@ == EventView::Row(Some(row@)),
        CacheEvent::Row(None)@ == EventView::Row(None),
        entry is Some <==> optional_entry(entry) is Some,
        entry is Some ==> optional_entry(entry)->0 == entry->0@,
{
}

} // verus!
