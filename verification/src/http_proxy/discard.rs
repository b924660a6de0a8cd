//! What becomes of the copy of a body that does not come whole: what happens to the
//! body as it is passed on, and what the writer of the cache is told of it, taken
//! together.

use crate::http_proxy::cache_writer::{
    deletions_succeed, files_after_all, only_a_whole_body_is_kept, over, parts_told,
    writer_after_all, Files, WritePlan, WriterEvent, WriterPhase,
};
use crate::http_proxy::tee_body::{
    ends_whole, reports, tee_after, tee_after_all, tee_start, whole_is_said_of_a_whole_body_only,
    SendOutcome, TeeEvent,
};
use vstd::prelude::*;

verus! {

/// Whether the writer was told to give up in the course of what happened to the body.
pub open spec fn is_abort_raised(body: Seq<TeeEvent>) -> bool
    decreases body.len(),
{
    body.len() > 0 && (is_abort_raised(body.drop_last()) || tee_after(
        tee_after_all(body.drop_last()),
        body.last(),
    ).1.raise_abort)
}

/// Whether the writer can be told this when so much has happened to the body. With
/// a part of the body, and at the end of the parts, it sees whether it was told to
/// give up. The parts end when no more are offered, and then it hears how the body
/// ended, if that is said to it at all.
pub open spec fn can_be_told(body: Seq<TeeEvent>, event: WriterEvent) -> bool {
    match event {
        WriterEvent::Chunk { aborted, .. } => aborted == is_abort_raised(body),
        WriterEvent::Closed { aborted } => !tee_after_all(body).open && aborted
            == is_abort_raised(body),
        WriterEvent::Completion(said) => !tee_after_all(body).pending && reports(body)
            == match said {
            Some(whole) => seq![whole],
            None => Seq::<bool>::empty(),
        },
        _ => true,
    }
}

/// Whether the writer is told the events while these things happen to the body, each
/// event when as many of them have happened as `times` says.
pub open spec fn go_together(
    body: Seq<TeeEvent>,
    events: Seq<WriterEvent>,
    times: Seq<int>,
) -> bool {
    &&& times.len() == events.len()
    &&& forall|j: int|
        0 <= j < events.len() ==> 0 <= #[trigger] times[j] <= body.len() && can_be_told(
            body.take(times[j]),
            events[j],
        )
}

/// Whether the body comes to grief at `k`, after the writer was given every part
/// until then: it breaks off, the writer falls behind or is gone, or nobody wants the
/// rest of it and no length tells what is missing.
pub open spec fn fails_at(body: Seq<TeeEvent>, k: int, announced: bool) -> bool {
    &&& 0 <= k < body.len()
    &&& forall|i: int| 0 <= i < k ==> #[trigger] body[i] == TeeEvent::Offered(SendOutcome::Sent)
    &&& match body[k] {
        TeeEvent::Broken => true,
        TeeEvent::Offered(outcome) => outcome != SendOutcome::Sent,
        TeeEvent::Dropped => !announced,
        TeeEvent::Ended => false,
    }
}

proof fn until_then_all_is_well(body: Seq<TeeEvent>, t: int)
    requires
        0 <= t <= body.len(),
        forall|i: int| 0 <= i < t ==> #[trigger] body[i] == TeeEvent::Offered(SendOutcome::Sent),
    ensures
        tee_after_all(body.take(t)) == tee_start(),
    decreases t,
{
    if t > 0 {
        until_then_all_is_well(body, t - 1);
        assert(body.take(t).drop_last() =~= body.take(t - 1));
        assert(body.take(t).last() == body[t - 1]);
    }
}

proof fn after_that_the_abort_is_raised(body: Seq<TeeEvent>, k: int, announced: bool, t: int)
    requires
        fails_at(body, k, announced),
        body[k] != TeeEvent::Dropped,
        k < t <= body.len(),
    ensures
        is_abort_raised(body.take(t)),
    decreases t,
{
    assert(body.take(t).drop_last() =~= body.take(t - 1));
    assert(body.take(t).last() == body[t - 1]);
    if t - 1 > k {
        after_that_the_abort_is_raised(body, k, announced, t - 1);
    } else {
        until_then_all_is_well(body, k);
    }
}

proof fn a_failed_body_is_not_being_stored(
    body: Seq<TeeEvent>,
    k: int,
    plan: WritePlan,
    events: Seq<WriterEvent>,
    times: Seq<int>,
)
    requires
        fails_at(body, k, plan.content_length is Some),
        go_together(body, events, times),
    ensures
        writer_after_all(plan, events).phase != WriterPhase::Storing,
{
    if writer_after_all(plan, events).phase == WriterPhase::Storing {
        only_a_whole_body_is_kept(plan, events);
        if body[k] == TeeEvent::Dropped {
            let j = events.index_of(WriterEvent::Completion(Some(true)));
            let so_far = body.take(times[j]);
            assert(can_be_told(so_far, events[j]));
            assert(reports(so_far)[0]);
            assert(reports(so_far).contains(true));
            whole_is_said_of_a_whole_body_only(so_far);
            let e = choose|e: int| ends_whole(so_far, e);
            assert(so_far[e] == body[e]);
            if k < e {
                assert(so_far[k] == body[k]);
            }
        } else {
            let j = events.index_of(WriterEvent::Closed { aborted: false });
            let t = times[j];
            assert(can_be_told(body.take(t), events[j]));
            if t <= k {
                until_then_all_is_well(body, t);
            } else {
                after_that_the_abort_is_raised(body, k, plan.content_length is Some, t);
            }
        }
    }
}

/// A body that broke off, that the writer could not keep up with, or that nobody
/// wanted the rest of and that announced no length, is never stored.
pub proof fn a_failed_body_is_never_stored(
    body: Seq<TeeEvent>,
    k: int,
    plan: WritePlan,
    events: Seq<WriterEvent>,
    times: Seq<int>,
)
    requires
        fails_at(body, k, plan.content_length is Some),
        go_together(body, events, times),
    ensures
        writer_after_all(plan, events).phase != WriterPhase::Storing,
        writer_after_all(plan, events).phase != WriterPhase::RemovingFinal,
        writer_after_all(plan, events).phase != over(true),
    decreases events.len(),
{
    a_failed_body_is_not_being_stored(body, k, plan, events, times);
    if events.len() > 0 {
        what_goes_together_did_before(body, events, times);
        a_failed_body_is_never_stored(body, k, plan, events.drop_last(), times.drop_last());
    }
}

proof fn what_goes_together_did_before(
    body: Seq<TeeEvent>,
    events: Seq<WriterEvent>,
    times: Seq<int>,
)
    requires
        go_together(body, events, times),
        events.len() > 0,
    ensures
        go_together(body, events.drop_last(), times.drop_last()),
{
    let fewer = events.drop_last();
    let earlier = times.drop_last();
    assert forall|j: int| 0 <= j < fewer.len() implies 0 <= #[trigger] earlier[j] <= body.len()
        && can_be_told(body.take(earlier[j]), fewer[j]) by {
        assert(earlier[j] == times[j]);
        assert(fewer[j] == events[j]);
    }
}

/// A body that failed leaves no file: once the writer is over and its deletions were
/// done, the files are what they were before.
pub proof fn a_failed_body_leaves_no_file(
    body: Seq<TeeEvent>,
    k: int,
    plan: WritePlan,
    events: Seq<WriterEvent>,
    times: Seq<int>,
    files: Files,
    temp: Seq<char>,
    parts: Seq<Seq<u8>>,
)
    requires
        fails_at(body, k, plan.content_length is Some),
        go_together(body, events, times),
        !files.contains_key(temp),
        deletions_succeed(plan, events),
        writer_after_all(plan, events).phase is Over,
    ensures
        files_after_all(files, temp, plan, events, parts) == files,
{
    what_a_failed_body_leaves(body, k, plan, events, times, files, temp, parts);
}

proof fn what_a_failed_body_leaves(
    body: Seq<TeeEvent>,
    k: int,
    plan: WritePlan,
    events: Seq<WriterEvent>,
    times: Seq<int>,
    files: Files,
    temp: Seq<char>,
    parts: Seq<Seq<u8>>,
)
    requires
        fails_at(body, k, plan.content_length is Some),
        go_together(body, events, times),
        !files.contains_key(temp),
        deletions_succeed(plan, events),
    ensures
        ({
            let phase = writer_after_all(plan, events).phase;
            let now = files_after_all(files, temp, plan, events, parts);
            if phase == WriterPhase::Creating || phase is Over {
                now == files
            } else {
                now.remove(temp) == files
            }
        }),
    decreases events.len(),
{
    assert(files.remove(temp) =~= files);
    if events.len() > 0 {
        let before = events.drop_last();
        let earlier = parts.take(parts_told(before) as int);
        what_goes_together_did_before(body, events, times);
        a_failed_body_is_never_stored(body, k, plan, events, times);
        a_failed_body_is_never_stored(body, k, plan, before, times.drop_last());
        what_a_failed_body_leaves(
            body,
            k,
            plan,
            before,
            times.drop_last(),
            files,
            temp,
            earlier,
        );
        let then = files_after_all(files, temp, plan, before, earlier);
        let now = files_after_all(files, temp, plan, events, parts);
        assert(now.remove(temp) =~= then.remove(temp));
    }
}

} // verus!
