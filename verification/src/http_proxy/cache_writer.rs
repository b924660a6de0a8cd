//! Writing the body of a response to the cache while it is passed on. The writer
//! says one step at a time what to do to the files and to the cache, and is told
//! how the step went. What is not written whole is not kept.

use crate::cache::{pairs, CacheStoreRequest, EntryView};
use vstd::prelude::*;

verus! {

/// A response that is to be kept, and what is asked of its body.
#[derive(Debug, Clone)]
pub struct WritePlan {
    pub key: String,
    pub method: String,
    pub url: String,
    pub status: u16,
    pub headers: Vec<(String, String)>,
    /// Where the body is kept once it is whole.
    pub body_path: String,
    pub created_at: i64,
    pub expires_at: i64,
    /// The length that the response announces, if it does.
    pub content_length: Option<u64>,
    /// The greatest length of a body that is kept; 0 is any length.
    pub max_object_size_bytes: u64,
    /// Whether a response that announces no length is not kept.
    pub require_content_length: bool,
    /// How long to rest after each part of the body.
    pub writer_delay_ms: u64,
}

/// The entry for a response with a body of the size.
pub open spec fn entry_written(plan: WritePlan, size: nat) -> EntryView {
    EntryView {
        key: plan.key@,
        method: plan.method@,
        url: plan.url@,
        status: plan.status,
        headers: pairs(plan.headers@),
        body_path: Some(plan.body_path@),
        body_size: size as u64,
        created_at: plan.created_at,
        expires_at: plan.expires_at,
        last_access: plan.created_at,
    }
}

/// What a writer is doing.
#[derive(Debug, Clone, Copy, PartialEq, Eq, Structural)]
pub enum WriterPhase {
    /// Making the file that the body is written to.
    Creating,
    /// Waiting for the next part of the body.
    Receiving,
    /// Writing a part of the body.
    Writing,
    /// Resting after a part of the body.
    Pausing,
    /// Waiting to hear how the body ended.
    Completing,
    /// Writing what is still held back.
    Flushing,
    /// Moving the file to where the body is kept.
    Renaming,
    /// Handing the entry to the cache.
    Storing,
    /// Deleting the file that was written to; `raise_abort` tells the sender to
    /// send no more.
    Discarding { raise_abort: bool },
    /// Deleting the file that the cache did not take.
    RemovingFinal,
    /// Nothing more.
    Over { stored: bool },
}

/// One thing to do for a writer.
#[derive(Debug, Clone)]
pub enum WriterStep {
    /// Make the file that the body is written to.
    CreateTemp,
    /// Wait for the next part of the body, or for the end of the parts.
    Receive,
    /// Write the part of the body that came.
    Write,
    /// Rest.
    Pause { ms: u64 },
    /// Wait to hear how the body ended.
    AwaitCompletion,
    /// Write what is still held back.
    Flush,
    /// Move the file to where the body is kept.
    Rename,
    /// Hand the entry to the cache.
    Store { request: CacheStoreRequest },
    /// Delete the file that was written to, and tell the sender to send no more
    /// if `raise_abort` says so.
    Discard { raise_abort: bool },
    /// Delete the file where the body is kept.
    RemoveFinal,
    /// There is nothing more to do.
    Finished,
}

/// How a step went.
#[derive(Debug, Clone, Copy, PartialEq, Eq, Structural)]
pub enum WriterEvent {
    /// It was done.
    Done,
    /// It failed.
    Failed,
    /// A part of the body came, `len` bytes long. `aborted` says whether the
    /// sender has given up.
    Chunk { len: u64, aborted: bool },
    /// No more parts come. `aborted` says whether the sender has given up.
    Closed { aborted: bool },
    /// How the body ended, if that was said: whether it was whole.
    Completion(Option<bool>),
}

/// The state of a writer: how much has come, and what it is doing.
pub struct WriterView {
    pub plan: WritePlan,
    pub size: nat,
    pub phase: WriterPhase,
}

/// A writer at the start.
pub open spec fn writer_start(plan: WritePlan) -> WriterView {
    WriterView { plan, size: 0, phase: WriterPhase::Creating }
}

/// Whether a body of the size is too long to be kept.
pub open spec fn too_long(plan: WritePlan, size: nat) -> bool {
    plan.max_object_size_bytes > 0 && size > plan.max_object_size_bytes
}

/// Whether a body of the size is whole and may be kept. Where a length was
/// announced it decides; where none was, how the body ended does.
pub open spec fn acceptable(plan: WritePlan, size: nat, completion: Option<bool>) -> bool {
    &&& match plan.content_length {
        Some(expected) => size == expected,
        None => completion == Some(true),
    }
    &&& !too_long(plan, size)
}

/// The phase in which what was written is thrown away.
pub open spec fn discarding(raise_abort: bool) -> WriterPhase {
    WriterPhase::Discarding { raise_abort }
}

/// The phase in which there is nothing more to do.
pub open spec fn over(stored: bool) -> WriterPhase {
    WriterPhase::Over { stored }
}

/// What a writer does after a step. To be told what was not asked for is a
/// failure.
pub open spec fn phase_after(w: WriterView, event: WriterEvent) -> WriterPhase {
    match (w.phase, event) {
        (WriterPhase::Creating, WriterEvent::Done) => WriterPhase::Receiving,
        (WriterPhase::Creating, _) => over(false),
        (WriterPhase::Receiving, WriterEvent::Chunk { len, aborted }) => if aborted {
            discarding(false)
        } else if too_long(w.plan, w.size + len as nat) {
            discarding(true)
        } else {
            WriterPhase::Writing
        },
        (WriterPhase::Receiving, WriterEvent::Closed { aborted }) => if aborted {
            discarding(false)
        } else if w.plan.require_content_length && w.plan.content_length is None {
            discarding(false)
        } else {
            WriterPhase::Completing
        },
        (WriterPhase::Writing, WriterEvent::Done) => if w.plan.writer_delay_ms > 0 {
            WriterPhase::Pausing
        } else {
            WriterPhase::Receiving
        },
        (WriterPhase::Pausing, WriterEvent::Done) => WriterPhase::Receiving,
        (WriterPhase::Completing, WriterEvent::Completion(completion)) => if acceptable(
            w.plan,
            w.size,
            completion,
        ) {
            WriterPhase::Flushing
        } else {
            discarding(false)
        },
        (WriterPhase::Flushing, WriterEvent::Done) => WriterPhase::Renaming,
        (WriterPhase::Flushing, _) => discarding(false),
        (WriterPhase::Renaming, WriterEvent::Done) => WriterPhase::Storing,
        (WriterPhase::Renaming, _) => discarding(false),
        (WriterPhase::Storing, WriterEvent::Done) => over(true),
        (WriterPhase::Storing, _) => WriterPhase::RemovingFinal,
        (WriterPhase::Discarding { .. }, _) => over(false),
        (WriterPhase::RemovingFinal, _) => over(false),
        (WriterPhase::Over { stored }, _) => over(stored),
        _ => discarding(true),
    }
}

/// How much of the body a writer has been given after a step. What it throws
/// away does not count.
pub open spec fn size_after(w: WriterView, event: WriterEvent) -> nat {
    match (w.phase, event) {
        (WriterPhase::Receiving, WriterEvent::Chunk { len, aborted }) => if aborted || too_long(
            w.plan,
            w.size + len as nat,
        ) {
            w.size
        } else {
            w.size + len as nat
        },
        _ => w.size,
    }
}

/// A writer after a step.
pub open spec fn writer_after(w: WriterView, event: WriterEvent) -> WriterView {
    WriterView { plan: w.plan, size: size_after(w, event), phase: phase_after(w, event) }
}

/// Whether the size stays in the range of the machine.
pub open spec fn size_fits(w: WriterView, event: WriterEvent) -> bool {
    size_after(w, event) <= u64::MAX
}

/// What is to be done, as far as it is a matter of the phase.
pub open spec fn is_step_of(step: WriterStep, w: WriterView) -> bool {
    match w.phase {
        WriterPhase::Creating => step is CreateTemp,
        WriterPhase::Receiving => step is Receive,
        WriterPhase::Writing => step is Write,
        WriterPhase::Pausing => step == (WriterStep::Pause { ms: w.plan.writer_delay_ms }),
        WriterPhase::Completing => step is AwaitCompletion,
        WriterPhase::Flushing => step is Flush,
        WriterPhase::Renaming => step is Rename,
        WriterPhase::Storing => step matches WriterStep::Store { request } && request@
            == entry_written(w.plan, w.size),
        WriterPhase::Discarding { raise_abort } => step == (WriterStep::Discard { raise_abort }),
        WriterPhase::RemovingFinal => step is RemoveFinal,
        WriterPhase::Over { .. } => step is Finished,
    }
}

/// The writing of one response.
pub struct CacheWriter {
    plan: WritePlan,
    size: u64,
    phase: WriterPhase,
}

impl View for CacheWriter {
    type V = WriterView;

    closed spec fn view(&self) -> WriterView {
        WriterView { plan: self.plan, size: self.size as nat, phase: self.phase }
    }
}

fn clone_pairs(list: &Vec<(String, String)>) -> (r: Vec<(String, String)>)
    ensures
        pairs(r@) == pairs(list@),
{
    let mut r: Vec<(String, String)> = Vec::new();
    let mut i: usize = 0;
    while i < list.len()
        invariant
            i <= list.len(),
            r@.len() == i,
            forall|j: int|
                0 <= j < i ==> (#[trigger] r@[j]).0@ == list@[j].0@ && r@[j].1@ == list@[j].1@,
        decreases list.len() - i,
    {
        r.push((list[i].0.clone(), list[i].1.clone()));
        i += 1;
    }
    assert(pairs(r@) =~= pairs(list@));
    r
}

impl CacheWriter {
    /// Begins to write the response.
    pub fn new(plan: WritePlan) -> (r: Self)
        ensures
            r@ == writer_start(plan),
    {
        CacheWriter { plan, size: 0, phase: WriterPhase::Creating }
    }

    /// How much of the body has come.
    pub fn size(&self) -> (r: u64)
        ensures
            r == self@.size,
    {
        self.size
    }

    /// Whether the size stays in the range of the machine after a step.
    pub fn has_room_for(&self, event: WriterEvent) -> (r: bool)
        ensures
            r == size_fits(self@, event),
    {
        match (self.phase, event) {
            (WriterPhase::Receiving, WriterEvent::Chunk { len, aborted }) => {
                aborted || self.plan.max_object_size_bytes > 0 || len <= u64::MAX - self.size
            },
            _ => true,
        }
    }

    fn exceeds(&self, size: u64) -> (r: bool)
        ensures
            r == too_long(self.plan, size as nat),
    {
        self.plan.max_object_size_bytes > 0 && size > self.plan.max_object_size_bytes
    }

    fn exceeds_with(&self, len: u64) -> (r: bool)
        ensures
            r == too_long(self.plan, self.size as nat + len as nat),
    {
        self.plan.max_object_size_bytes > 0 && (len > u64::MAX - self.size || self.size + len
            > self.plan.max_object_size_bytes)
    }

    /// What is to be done.
    pub fn step(&self) -> (r: WriterStep)
        ensures
            is_step_of(r, self@),
    {
        match self.phase {
            WriterPhase::Creating => WriterStep::CreateTemp,
            WriterPhase::Receiving => WriterStep::Receive,
            WriterPhase::Writing => WriterStep::Write,
            WriterPhase::Pausing => WriterStep::Pause { ms: self.plan.writer_delay_ms },
            WriterPhase::Completing => WriterStep::AwaitCompletion,
            WriterPhase::Flushing => WriterStep::Flush,
            WriterPhase::Renaming => WriterStep::Rename,
            WriterPhase::Storing => {
                let request = CacheStoreRequest {
                    key: self.plan.key.clone(),
                    method: self.plan.method.clone(),
                    url: self.plan.url.clone(),
                    status: self.plan.status,
                    headers: clone_pairs(&self.plan.headers),
                    body_path: Some(self.plan.body_path.clone()),
                    body_size: self.size,
                    created_at: self.plan.created_at,
                    expires_at: self.plan.expires_at,
                };
                assert(request@ =~= entry_written(self.plan, self.size as nat));
                WriterStep::Store { request }
            },
            WriterPhase::Discarding { raise_abort } => WriterStep::Discard { raise_abort },
            WriterPhase::RemovingFinal => WriterStep::RemoveFinal,
            WriterPhase::Over { stored } => WriterStep::Finished,
        }
    }

    fn judge(&self, completion: Option<bool>) -> (r: bool)
        ensures
            r == acceptable(self.plan, self.size as nat, completion),
    {
        let whole = match self.plan.content_length {
            Some(expected) => self.size == expected,
            None => match completion {
                Some(clean) => clean,
                None => false,
            },
        };
        whole && !self.exceeds(self.size)
    }

    /// Goes on after a step.
    pub fn next(&mut self, event: WriterEvent)
        requires
            size_fits(old(self)@, event),
        ensures
            final(self)@ == writer_after(old(self)@, event),
    {
        let mut size: u64 = self.size;
        let phase = match (self.phase, event) {
            (WriterPhase::Creating, WriterEvent::Done) => WriterPhase::Receiving,
            (WriterPhase::Creating, _) => WriterPhase::Over { stored: false },
            (WriterPhase::Receiving, WriterEvent::Chunk { len, aborted }) => {
                if aborted {
                    WriterPhase::Discarding { raise_abort: false }
                } else if self.exceeds_with(len) {
                    WriterPhase::Discarding { raise_abort: true }
                } else {
                    size = size + len;
                    WriterPhase::Writing
                }
            },
            (WriterPhase::Receiving, WriterEvent::Closed { aborted }) => {
                if aborted {
                    WriterPhase::Discarding { raise_abort: false }
                } else if self.plan.require_content_length && self.plan.content_length.is_none() {
                    WriterPhase::Discarding { raise_abort: false }
                } else {
                    WriterPhase::Completing
                }
            },
            (WriterPhase::Writing, WriterEvent::Done) => {
                if self.plan.writer_delay_ms > 0 {
                    WriterPhase::Pausing
                } else {
                    WriterPhase::Receiving
                }
            },
            (WriterPhase::Pausing, WriterEvent::Done) => WriterPhase::Receiving,
            (WriterPhase::Completing, WriterEvent::Completion(completion)) => {
                if self.judge(completion) {
                    WriterPhase::Flushing
                } else {
                    WriterPhase::Discarding { raise_abort: false }
                }
            },
            (WriterPhase::Flushing, WriterEvent::Done) => WriterPhase::Renaming,
            (WriterPhase::Flushing, _) => WriterPhase::Discarding { raise_abort: false },
            (WriterPhase::Renaming, WriterEvent::Done) => WriterPhase::Storing,
            (WriterPhase::Renaming, _) => WriterPhase::Discarding { raise_abort: false },
            (WriterPhase::Storing, WriterEvent::Done) => WriterPhase::Over { stored: true },
            (WriterPhase::Storing, _) => WriterPhase::RemovingFinal,
            (WriterPhase::Discarding { .. }, _) => WriterPhase::Over { stored: false },
            (WriterPhase::RemovingFinal, _) => WriterPhase::Over { stored: false },
            (WriterPhase::Over { stored }, _) => WriterPhase::Over { stored },
            _ => WriterPhase::Discarding { raise_abort: true },
        };
        self.size = size;
        self.phase = phase;
    }
}

// ---------------------------------------------------------------------------
// What is kept
// ---------------------------------------------------------------------------

/// A writer after the steps.
pub open spec fn writer_after_all(plan: WritePlan, events: Seq<WriterEvent>) -> WriterView
    decreases events.len(),
{
    if events.len() == 0 {
        writer_start(plan)
    } else {
        writer_after(writer_after_all(plan, events.drop_last()), events.last())
    }
}

/// The length of the parts of the body that came.
pub open spec fn total(events: Seq<WriterEvent>) -> nat
    decreases events.len(),
{
    if events.len() == 0 {
        0
    } else {
        total(events.drop_last()) + match events.last() {
            WriterEvent::Chunk { len, .. } => len as nat,
            _ => 0,
        }
    }
}

/// Whether a step failed, or the sender was found to have given up.
pub open spec fn is_trouble(event: WriterEvent) -> bool {
    match event {
        WriterEvent::Failed => true,
        WriterEvent::Chunk { aborted, .. } => aborted,
        WriterEvent::Closed { aborted } => aborted,
        _ => false,
    }
}

/// Whether nothing went wrong.
pub open spec fn untroubled(events: Seq<WriterEvent>) -> bool {
    forall|i: int| 0 <= i < events.len() ==> !is_trouble(#[trigger] events[i])
}

/// Whether the writer has yet to decide what becomes of the body.
spec fn under_way(phase: WriterPhase) -> bool {
    match phase {
        WriterPhase::Creating => true,
        WriterPhase::Receiving => true,
        WriterPhase::Writing => true,
        WriterPhase::Pausing => true,
        WriterPhase::Completing => true,
        _ => false,
    }
}

/// Whether the writer has found the body whole.
spec fn accepted(phase: WriterPhase) -> bool {
    match phase {
        WriterPhase::Flushing => true,
        WriterPhase::Renaming => true,
        WriterPhase::Storing => true,
        _ => false,
    }
}

/// Only a whole body is kept. When the entry is handed to the cache, no step has
/// failed, and the sender was done and had not given up; every part of the body that
/// came counts; the size is the announced one, or, where none was announced (and none
/// was demanded), the body was said to have ended whole; and the size is within
/// the limit.
pub proof fn only_a_whole_body_is_kept(plan: WritePlan, events: Seq<WriterEvent>)
    requires
        writer_after_all(plan, events).phase == WriterPhase::Storing,
    ensures
        untroubled(events),
        events.contains(WriterEvent::Closed { aborted: false }),
        writer_after_all(plan, events).size == total(events),
        plan.content_length matches Some(expected) ==> total(events) == expected,
        plan.content_length is None ==> !plan.require_content_length && events.contains(
            WriterEvent::Completion(Some(true)),
        ),
        plan.max_object_size_bytes > 0 ==> total(events) <= plan.max_object_size_bytes,
{
    what_has_come(plan, events);
}

proof fn what_has_come(plan: WritePlan, events: Seq<WriterEvent>)
    ensures
        ({
            let w = writer_after_all(plan, events);
            &&& w.plan == plan
            &&& under_way(w.phase) || accepted(w.phase) ==> untroubled(events) && w.size == total(
                events,
            )
            &&& w.phase == WriterPhase::Completing || accepted(w.phase) ==> events.contains(
                WriterEvent::Closed { aborted: false },
            )
            &&& (w.phase == WriterPhase::Completing || accepted(w.phase))
                && plan.content_length is None ==> !plan.require_content_length
            &&& accepted(w.phase) ==> !too_long(plan, w.size) && (match plan.content_length {
                Some(expected) => w.size == expected,
                None => events.contains(WriterEvent::Completion(Some(true))),
            })
        }),
    decreases events.len(),
{
    if events.len() > 0 {
        let before = events.drop_last();
        let event = events.last();
        what_has_come(plan, before);
        assert(events =~= before.push(event));
        if before.contains(WriterEvent::Completion(Some(true))) {
            let i = before.index_of(WriterEvent::Completion(Some(true)));
            assert(events[i] == WriterEvent::Completion(Some(true)));
        }
        if before.contains(WriterEvent::Closed { aborted: false }) {
            let i = before.index_of(WriterEvent::Closed { aborted: false });
            assert(events[i] == WriterEvent::Closed { aborted: false });
        }
        assert(events[before.len() as int] == event);
        let w = writer_after_all(plan, events);
        if under_way(w.phase) || accepted(w.phase) {
            assert forall|i: int| 0 <= i < events.len() implies !is_trouble(
                #[trigger] events[i],
            ) by {
                if i < before.len() {
                    assert(!is_trouble(before[i]));
                }
            }
        }
    }
}

/// Whether the event says how the step went that the writer is at.
pub open spec fn answers(w: WriterView, event: WriterEvent) -> bool {
    match w.phase {
        WriterPhase::Receiving => event is Chunk || event is Closed,
        WriterPhase::Completing => event is Completion,
        _ => event is Done || event is Failed,
    }
}

/// No file is left behind. A writer is over either before it made a file, or
/// after it deleted the one that it made, or after the cache took the entry.
pub proof fn no_file_is_left_behind(w: WriterView, event: WriterEvent)
    requires
        !(w.phase is Over),
        answers(w, event),
        writer_after(w, event).phase is Over,
    ensures
        ({
            ||| w.phase == WriterPhase::Creating && event is Failed
            ||| w.phase is Discarding
            ||| w.phase == WriterPhase::RemovingFinal
            ||| w.phase == WriterPhase::Storing && event is Done
        }),
        writer_after(w, event).phase == over(true) <==> w.phase == WriterPhase::Storing,
{
}

/// The body is where it is kept before the cache hears of it: an entry is handed
/// over only once the file was moved.
pub proof fn the_body_is_in_place_before_its_entry(w: WriterView, event: WriterEvent)
    requires
        w.phase != WriterPhase::Storing,
        writer_after(w, event).phase == WriterPhase::Storing,
    ensures
        w.phase == WriterPhase::Renaming,
        event == WriterEvent::Done,
{
}

// ---------------------------------------------------------------------------
// What is not refused
// ---------------------------------------------------------------------------

/// What a writer is told while a body comes in parts of these lengths and every
/// step is done.
pub open spec fn told_of_parts(plan: WritePlan, lens: Seq<u64>) -> Seq<WriterEvent>
    decreases lens.len(),
{
    if lens.len() == 0 {
        seq![WriterEvent::Done]
    } else {
        let before = told_of_parts(plan, lens.drop_last()).push(
            WriterEvent::Chunk { len: lens.last(), aborted: false },
        ).push(WriterEvent::Done);
        if plan.writer_delay_ms > 0 {
            before.push(WriterEvent::Done)
        } else {
            before
        }
    }
}

/// What a writer is told when a body of parts of these lengths comes whole and
/// every step is done, up to the store.
pub open spec fn told_of_body(plan: WritePlan, lens: Seq<u64>) -> Seq<WriterEvent> {
    told_of_parts(plan, lens).push(WriterEvent::Closed { aborted: false }).push(
        WriterEvent::Completion(Some(true)),
    ).push(WriterEvent::Done).push(WriterEvent::Done)
}

/// The sum of the lengths.
pub open spec fn sum(lens: Seq<u64>) -> nat
    decreases lens.len(),
{
    if lens.len() == 0 {
        0
    } else {
        sum(lens.drop_last()) + lens.last() as nat
    }
}

proof fn one_more(plan: WritePlan, events: Seq<WriterEvent>, event: WriterEvent)
    ensures
        writer_after_all(plan, events.push(event)) == writer_after(
            writer_after_all(plan, events),
            event,
        ),
{
    assert(events.push(event).drop_last() =~= events);
}

proof fn parts_are_received(plan: WritePlan, lens: Seq<u64>)
    requires
        !too_long(plan, sum(lens)),
    ensures
        writer_after_all(plan, told_of_parts(plan, lens)) == (WriterView {
            plan,
            size: sum(lens),
            phase: WriterPhase::Receiving,
        }),
    decreases lens.len(),
{
    if lens.len() == 0 {
        let none = Seq::<WriterEvent>::empty();
        assert(seq![WriterEvent::Done] =~= none.push(WriterEvent::Done));
        one_more(plan, none, WriterEvent::Done);
    } else {
        parts_are_received(plan, lens.drop_last());
        let a = told_of_parts(plan, lens.drop_last());
        let chunk = WriterEvent::Chunk { len: lens.last(), aborted: false };
        one_more(plan, a, chunk);
        one_more(plan, a.push(chunk), WriterEvent::Done);
        one_more(plan, a.push(chunk).push(WriterEvent::Done), WriterEvent::Done);
    }
}

/// A whole body is kept: if it has the announced length, or none was announced
/// and none is demanded, and it is within the limit, then nothing but a failing
/// step keeps its entry from being handed to the cache, in however many parts it
/// comes.
pub proof fn a_whole_body_is_kept(plan: WritePlan, lens: Seq<u64>)
    requires
        plan.content_length matches Some(expected) ==> sum(lens) == expected,
        plan.content_length is None ==> !plan.require_content_length,
        plan.max_object_size_bytes > 0 ==> sum(lens) <= plan.max_object_size_bytes,
    ensures
        writer_after_all(plan, told_of_body(plan, lens)) == (WriterView {
            plan,
            size: sum(lens),
            phase: WriterPhase::Storing,
        }),
{
    parts_are_received(plan, lens);
    let a = told_of_parts(plan, lens);
    let b = a.push(WriterEvent::Closed { aborted: false });
    let c = b.push(WriterEvent::Completion(Some(true)));
    one_more(plan, a, WriterEvent::Closed { aborted: false });
    one_more(plan, b, WriterEvent::Completion(Some(true)));
    one_more(plan, c, WriterEvent::Done);
    one_more(plan, c.push(WriterEvent::Done), WriterEvent::Done);
}

/// Where a length was announced, it alone decides whether the body is whole: a body of
/// that length, within the limit, is kept whatever is said of how it ended, and if nothing
/// is said. A body of another length is not kept whatever is said.
pub proof fn an_announced_length_decides(
    plan: WritePlan,
    lens: Seq<u64>,
    announced: u64,
    said: Option<bool>,
)
    requires
        plan.content_length == Some(announced),
        plan.max_object_size_bytes > 0 ==> sum(lens) <= plan.max_object_size_bytes,
    ensures
        ({
            let told = told_of_parts(plan, lens).push(WriterEvent::Closed { aborted: false }).push(
                WriterEvent::Completion(said),
            );
            let stored = told.push(WriterEvent::Done).push(WriterEvent::Done);
            &&& sum(lens) == announced ==> writer_after_all(plan, stored).phase
                == WriterPhase::Storing && writer_after_all(plan, stored).size == announced
            &&& sum(lens) != announced ==> writer_after_all(plan, told).phase
                == (WriterPhase::Discarding { raise_abort: false })
        }),
{
    parts_are_received(plan, lens);
    let a = told_of_parts(plan, lens);
    let b = a.push(WriterEvent::Closed { aborted: false });
    let c = b.push(WriterEvent::Completion(said));
    one_more(plan, a, WriterEvent::Closed { aborted: false });
    one_more(plan, b, WriterEvent::Completion(said));
    one_more(plan, c, WriterEvent::Done);
    one_more(plan, c.push(WriterEvent::Done), WriterEvent::Done);
}

/// Where no length was announced and none is demanded, how the body ended decides: it is
/// kept exactly if it is said to be whole.
pub proof fn without_a_length_the_end_decides(
    plan: WritePlan,
    lens: Seq<u64>,
    said: Option<bool>,
)
    requires
        plan.content_length is None,
        !plan.require_content_length,
        plan.max_object_size_bytes > 0 ==> sum(lens) <= plan.max_object_size_bytes,
    ensures
        ({
            let told = told_of_parts(plan, lens).push(WriterEvent::Closed { aborted: false }).push(
                WriterEvent::Completion(said),
            );
            let stored = told.push(WriterEvent::Done).push(WriterEvent::Done);
            &&& said == Some(true) ==> writer_after_all(plan, stored).phase == WriterPhase::Storing
                && writer_after_all(plan, stored).size == sum(lens)
            &&& said != Some(true) ==> writer_after_all(plan, told).phase
                == (WriterPhase::Discarding { raise_abort: false })
        }),
{
    parts_are_received(plan, lens);
    let a = told_of_parts(plan, lens);
    let b = a.push(WriterEvent::Closed { aborted: false });
    let c = b.push(WriterEvent::Completion(said));
    one_more(plan, a, WriterEvent::Closed { aborted: false });
    one_more(plan, b, WriterEvent::Completion(said));
    one_more(plan, c, WriterEvent::Done);
    one_more(plan, c.push(WriterEvent::Done), WriterEvent::Done);
}

/// A body that grows beyond the limit is thrown away with the part that makes it too long,
/// and the sender is told; up to the limit, and without a limit, it is not.
pub proof fn a_body_may_grow_up_to_the_limit(plan: WritePlan, lens: Seq<u64>, len: u64)
    requires
        plan.max_object_size_bytes > 0 ==> sum(lens) <= plan.max_object_size_bytes,
    ensures
        ({
            let told = told_of_parts(plan, lens).push(WriterEvent::Chunk { len, aborted: false });
            let limit = plan.max_object_size_bytes;
            &&& limit > 0 && sum(lens) + len > limit ==> writer_after_all(plan, told).phase
                == (WriterPhase::Discarding { raise_abort: true })
            &&& limit == 0 || sum(lens) + len <= limit ==> writer_after_all(plan, told).phase
                == WriterPhase::Writing && writer_after_all(plan, told).size == sum(lens) + len
        }),
{
    parts_are_received(plan, lens);
    one_more(
        plan,
        told_of_parts(plan, lens),
        WriterEvent::Chunk { len, aborted: false },
    );
}

/// What a writer asks for. The entry that it hands to the cache has the key, method, URL,
/// status, headers, path and times of the plan, and the size of what came; it rests as long
/// as the plan says; and it passes on whether the sender is to be told to give up.
pub proof fn what_a_writer_asks_for(step: WriterStep, w: WriterView)
    requires
        is_step_of(step, w),
    ensures
        step matches WriterStep::Store { request } ==> {
            &&& w.phase == WriterPhase::Storing
            &&& request.key@ == w.plan.key@
            &&& request.method@ == w.plan.method@
            &&& request.url@ == w.plan.url@
            &&& request.status == w.plan.status
            &&& pairs(request.headers@) == pairs(w.plan.headers@)
            &&& request.body_path is Some
            &&& request.body_path->0@ == w.plan.body_path@
            &&& w.size <= u64::MAX ==> request.body_size == w.size
            &&& request.created_at == w.plan.created_at
            &&& request.expires_at == w.plan.expires_at
        },
        step is Store <==> w.phase == WriterPhase::Storing,
        step matches WriterStep::Pause { ms } ==> ms == w.plan.writer_delay_ms,
        step is Pause <==> w.phase == WriterPhase::Pausing,
        step matches WriterStep::Discard { raise_abort } ==> w.phase == (WriterPhase::Discarding {
            raise_abort,
        }),
        step is Discard <==> w.phase is Discarding,
        step is Finished <==> w.phase is Over,
        step is Write <==> w.phase == WriterPhase::Writing,
        step is Flush <==> w.phase == WriterPhase::Flushing,
        step is Rename <==> w.phase == WriterPhase::Renaming,
        step is Receive <==> w.phase == WriterPhase::Receiving,
        step is CreateTemp <==> w.phase == WriterPhase::Creating,
        step is RemoveFinal <==> w.phase == WriterPhase::RemovingFinal,
        step is AwaitCompletion <==> w.phase == WriterPhase::Completing,
{
    if step is Store {
        let request = step->request;
        assert(request@ == entry_written(w.plan, w.size));
        assert(pairs(request.headers@) == request@.headers);
    }
}

/// What a failure comes to. Nothing follows where no file could be made; where a part could
/// not be written the sender is told and the file goes; where the file could not be flushed
/// or moved it goes; and where the cache did not take the entry, the file that was moved
/// goes. A sender that has given up makes the file go at the next sign of it.
pub proof fn what_a_failure_comes_to(w: WriterView, len: u64)
    ensures
        w.phase == WriterPhase::Creating ==> writer_after(w, WriterEvent::Failed).phase
            == (WriterPhase::Over { stored: false }),
        w.phase == WriterPhase::Writing ==> writer_after(w, WriterEvent::Failed).phase
            == (WriterPhase::Discarding { raise_abort: true }),
        w.phase == WriterPhase::Flushing || w.phase == WriterPhase::Renaming ==> writer_after(
            w,
            WriterEvent::Failed,
        ).phase == (WriterPhase::Discarding { raise_abort: false }),
        w.phase == WriterPhase::Storing ==> writer_after(w, WriterEvent::Failed).phase
            == WriterPhase::RemovingFinal,
        w.phase == WriterPhase::Receiving ==> {
            &&& writer_after(w, WriterEvent::Chunk { len, aborted: true }).phase
                == (WriterPhase::Discarding { raise_abort: false })
            &&& writer_after(w, WriterEvent::Closed { aborted: true }).phase
                == (WriterPhase::Discarding { raise_abort: false })
        },
        w.phase is Discarding || w.phase == WriterPhase::RemovingFinal ==> writer_after(
            w,
            WriterEvent::Done,
        ).phase == (WriterPhase::Over { stored: false }),
        w.phase == WriterPhase::Storing ==> writer_after(w, WriterEvent::Done).phase
            == (WriterPhase::Over { stored: true }),
{
}

/// A writer rests after each part that it wrote, if the plan says so, and then waits for the
/// next. A body that announces no length where one is demanded is thrown away at its end.
pub proof fn how_parts_follow_each_other(w: WriterView)
    ensures
        w.phase == WriterPhase::Writing && w.plan.writer_delay_ms > 0 ==> writer_after(
            w,
            WriterEvent::Done,
        ).phase == WriterPhase::Pausing,
        w.phase == WriterPhase::Writing && w.plan.writer_delay_ms == 0 ==> writer_after(
            w,
            WriterEvent::Done,
        ).phase == WriterPhase::Receiving,
        w.phase == WriterPhase::Pausing ==> writer_after(w, WriterEvent::Done).phase
            == WriterPhase::Receiving,
        w.phase == WriterPhase::Receiving && w.plan.content_length is None
            && w.plan.require_content_length ==> writer_after(
            w,
            WriterEvent::Closed { aborted: false },
        ).phase == (WriterPhase::Discarding { raise_abort: false }),
        w.phase == WriterPhase::Receiving && (w.plan.content_length is Some
            || !w.plan.require_content_length) ==> writer_after(
            w,
            WriterEvent::Closed { aborted: false },
        ).phase == WriterPhase::Completing,
        w.phase != WriterPhase::Receiving ==> writer_after(w, WriterEvent::Done).size == w.size,
{
}

/// Whether the outcome is of the sort that a writer in the phase waits for.
pub open spec fn is_awaited(phase: WriterPhase, event: WriterEvent) -> bool {
    match phase {
        WriterPhase::Receiving => event is Chunk || event is Closed,
        WriterPhase::Completing => event is Completion,
        WriterPhase::Writing | WriterPhase::Pausing => event is Done,
        _ => true,
    }
}

/// A writer that is told what it did not ask for, while the body comes, throws away what it
/// wrote and tells the sender to give up. What a writer was when it was over it stays.
pub proof fn what_was_not_asked_for_is_a_failure(w: WriterView, event: WriterEvent)
    ensures
        !is_awaited(w.phase, event) ==> writer_after(w, event).phase == (WriterPhase::Discarding {
            raise_abort: true,
        }),
        w.phase is Over ==> writer_after(w, event).phase == w.phase,
        !(w.phase == WriterPhase::Receiving && event is Chunk) ==> writer_after(w, event).size
            == w.size,
        writer_after(w, event).plan == w.plan,
{
}

// ---------------------------------------------------------------------------
// What the file holds
// ---------------------------------------------------------------------------

/// The files on disk, and what they hold.
pub type Files = Map<Seq<char>, Seq<u8>>;

/// How many parts of the body came.
pub open spec fn parts_told(events: Seq<WriterEvent>) -> nat
    decreases events.len(),
{
    if events.len() == 0 {
        0
    } else {
        parts_told(events.drop_last()) + if events.last() is Chunk {
            1nat
        } else {
            0nat
        }
    }
}

/// Whether these are the parts that the writer was told of: one for each, of the
/// length that was told.
pub open spec fn are_parts(parts: Seq<Seq<u8>>, events: Seq<WriterEvent>) -> bool
    decreases events.len(),
{
    if events.len() == 0 {
        parts.len() == 0
    } else {
        match events.last() {
            WriterEvent::Chunk { len, .. } => {
                &&& parts.len() > 0
                &&& parts.last().len() == len
                &&& are_parts(parts.drop_last(), events.drop_last())
            },
            _ => are_parts(parts, events.drop_last()),
        }
    }
}

/// The files after a step of a writer went as the event says, where the part that
/// came last is `part`. A body is written to the file at `temp`, and moved to where
/// the plan has it kept. A step that failed is taken to have changed nothing: what
/// it left behind is not read again.
pub open spec fn files_after(
    files: Files,
    temp: Seq<char>,
    w: WriterView,
    event: WriterEvent,
    part: Seq<u8>,
) -> Files {
    match (w.phase, event) {
        (WriterPhase::Creating, WriterEvent::Done) => files.insert(temp, Seq::empty()),
        (WriterPhase::Writing, WriterEvent::Done) => files.insert(temp, files[temp] + part),
        (WriterPhase::Renaming, WriterEvent::Done) => files.remove(temp).insert(
            w.plan.body_path@,
            files[temp],
        ),
        (WriterPhase::Discarding { .. }, WriterEvent::Done) => files.remove(temp),
        (WriterPhase::RemovingFinal, WriterEvent::Done) => files.remove(w.plan.body_path@),
        _ => files,
    }
}

/// The files after the steps, where `parts` are the parts that came.
pub open spec fn files_after_all(
    files: Files,
    temp: Seq<char>,
    plan: WritePlan,
    events: Seq<WriterEvent>,
    parts: Seq<Seq<u8>>,
) -> Files
    decreases events.len(),
{
    if events.len() == 0 {
        files
    } else {
        let before = events.drop_last();
        let told = parts_told(before) as int;
        files_after(
            files_after_all(files, temp, plan, before, parts.take(told)),
            temp,
            writer_after_all(plan, before),
            events.last(),
            parts[told - 1],
        )
    }
}

proof fn there_are_as_many_parts(parts: Seq<Seq<u8>>, events: Seq<WriterEvent>)
    requires
        are_parts(parts, events),
    ensures
        parts.len() == parts_told(events),
        parts.flatten().len() == total(events),
    decreases events.len(),
{
    if events.len() == 0 {
        assert(parts =~= Seq::empty());
        assert(parts.flatten().len() == 0);
    } else if events.last() is Chunk {
        there_are_as_many_parts(parts.drop_last(), events.drop_last());
        parts_are_joined(parts.drop_last(), parts.last());
        assert(parts =~= parts.drop_last().push(parts.last()));
    } else {
        there_are_as_many_parts(parts, events.drop_last());
    }
}

proof fn parts_are_joined(parts: Seq<Seq<u8>>, part: Seq<u8>)
    ensures
        parts.push(part).flatten() == parts.flatten() + part,
    decreases parts.len(),
{
    if parts.len() == 0 {
        assert(parts.push(part).drop_first() =~= Seq::empty());
        assert(parts.push(part).drop_first().flatten() =~= Seq::<u8>::empty());
        assert(parts.flatten() =~= Seq::<u8>::empty());
        assert(parts.push(part).first() == part);
    } else {
        parts_are_joined(parts.drop_first(), part);
        assert(parts.push(part).drop_first() =~= parts.drop_first().push(part));
        assert(parts.push(part).first() == parts.first());
    }
    assert(parts.push(part).flatten() =~= parts.flatten() + part);
}

proof fn what_the_file_holds(
    files: Files,
    temp: Seq<char>,
    plan: WritePlan,
    events: Seq<WriterEvent>,
    parts: Seq<Seq<u8>>,
)
    requires
        are_parts(parts, events),
    ensures
        ({
            let phase = writer_after_all(plan, events).phase;
            let now = files_after_all(files, temp, plan, events, parts);
            &&& phase == WriterPhase::Creating ==> events.len() == 0
            &&& phase == WriterPhase::Writing ==> parts.len() > 0 && now[temp]
                == parts.drop_last().flatten()
            &&& phase == WriterPhase::Receiving || phase == WriterPhase::Pausing || phase
                == WriterPhase::Completing || phase == WriterPhase::Flushing || phase
                == WriterPhase::Renaming ==> now[temp] == parts.flatten()
            &&& phase == WriterPhase::Storing ==> now.contains_key(plan.body_path@)
                && now[plan.body_path@] == parts.flatten()
        }),
    decreases events.len(),
{
    if events.len() > 0 {
        let before = events.drop_last();
        let told = parts_told(before) as int;
        there_are_as_many_parts(parts, events);
        what_has_come(plan, before);
        if events.last() is Chunk {
            there_are_as_many_parts(parts.drop_last(), before);
            assert(parts.take(told) =~= parts.drop_last());
            what_the_file_holds(files, temp, plan, before, parts.drop_last());
        } else {
            there_are_as_many_parts(parts, before);
            assert(parts.take(told) =~= parts);
            what_the_file_holds(files, temp, plan, before, parts);
            if before.len() == 0 {
                assert(parts =~= Seq::empty());
                assert(parts.flatten() =~= Seq::<u8>::empty());
            }
            if parts.len() > 0 {
                parts_are_joined(parts.drop_last(), parts.last());
                assert(parts =~= parts.drop_last().push(parts.last()));
                assert(parts[told - 1] == parts.last());
            }
        }
    }
}

/// A body is kept byte for byte: when its entry is handed to the cache, the file
/// that the entry names is there and holds all the parts that came, in their order
/// and nothing else, as many bytes as the entry says.
pub proof fn a_body_is_kept_byte_for_byte(
    files: Files,
    temp: Seq<char>,
    plan: WritePlan,
    events: Seq<WriterEvent>,
    parts: Seq<Seq<u8>>,
)
    requires
        are_parts(parts, events),
        writer_after_all(plan, events).phase == WriterPhase::Storing,
    ensures
        files_after_all(files, temp, plan, events, parts).contains_key(plan.body_path@),
        files_after_all(files, temp, plan, events, parts)[plan.body_path@] == parts.flatten(),
        parts.flatten().len() == total(events),
        parts.flatten().len() == writer_after_all(plan, events).size,
{
    what_the_file_holds(files, temp, plan, events, parts);
    there_are_as_many_parts(parts, events);
    what_has_come(plan, events);
}

/// Whether every deletion that the writer asked for was done.
pub open spec fn deletions_succeed(plan: WritePlan, events: Seq<WriterEvent>) -> bool
    decreases events.len(),
{
    if events.len() == 0 {
        true
    } else {
        let phase = writer_after_all(plan, events.drop_last()).phase;
        &&& deletions_succeed(plan, events.drop_last())
        &&& phase is Discarding || phase == WriterPhase::RemovingFinal ==> events.last()
            == WriterEvent::Done
    }
}

/// Whether the files are as they were but for the one at `path`.
pub open spec fn are_as_before_but_for(now: Files, files: Files, path: Seq<char>) -> bool {
    now.remove(path) == files.remove(path)
}

/// What is not stored leaves no file. Once the writer is over and its deletions were
/// done, the file that it wrote to is gone, and the others are as they were. Only
/// where the cache did not take the entry, what was kept for the same request before
/// is gone as well: it was replaced.
pub proof fn what_is_not_stored_leaves_no_file(
    files: Files,
    temp: Seq<char>,
    plan: WritePlan,
    events: Seq<WriterEvent>,
    parts: Seq<Seq<u8>>,
)
    requires
        !files.contains_key(temp),
        temp != plan.body_path@,
        deletions_succeed(plan, events),
        writer_after_all(plan, events).phase == over(false),
    ensures
        ({
            let now = files_after_all(files, temp, plan, events, parts);
            now == files || now == files.remove(plan.body_path@)
        }),
{
    what_a_writer_leaves(files, temp, plan, events, parts);
}

proof fn what_a_writer_leaves(
    files: Files,
    temp: Seq<char>,
    plan: WritePlan,
    events: Seq<WriterEvent>,
    parts: Seq<Seq<u8>>,
)
    requires
        !files.contains_key(temp),
        temp != plan.body_path@,
        deletions_succeed(plan, events),
    ensures
        ({
            let phase = writer_after_all(plan, events).phase;
            let now = files_after_all(files, temp, plan, events, parts);
            match phase {
                WriterPhase::Creating => now == files,
                WriterPhase::Over { stored } => !stored ==> now == files || now == files.remove(
                    plan.body_path@,
                ),
                WriterPhase::Storing => !now.contains_key(temp) && are_as_before_but_for(
                    now,
                    files,
                    plan.body_path@,
                ),
                WriterPhase::RemovingFinal => !now.contains_key(temp) && are_as_before_but_for(
                    now,
                    files,
                    plan.body_path@,
                ),
                _ => are_as_before_but_for(now, files, temp),
            }
        }),
    decreases events.len(),
{
    if events.len() > 0 {
        let before = events.drop_last();
        let earlier = parts.take(parts_told(before) as int);
        what_has_come(plan, before);
        what_a_writer_leaves(files, temp, plan, before, earlier);
        let then = files_after_all(files, temp, plan, before, earlier);
        let now = files_after_all(files, temp, plan, events, parts);
        let body = plan.body_path@;
        assert(files.remove(temp) =~= files);
        if writer_after_all(plan, before).phase == WriterPhase::Creating || writer_after_all(
            plan,
            before,
        ).phase == WriterPhase::Writing {
            assert(now.remove(temp) =~= then.remove(temp));
        }
        if writer_after_all(plan, before).phase == WriterPhase::Renaming && events.last()
            == WriterEvent::Done {
            assert(now.remove(body) =~= then.remove(temp).remove(body));
        }
        if writer_after_all(plan, before).phase is Discarding {
            assert(now =~= files);
        }
        if writer_after_all(plan, before).phase == WriterPhase::RemovingFinal {
            assert(now =~= files.remove(body));
        }
    }
}

} // verus!
