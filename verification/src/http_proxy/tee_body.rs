//! Passing a body on while a copy of it goes to the writer of the cache. The
//! writer may fall behind or give up: the copy ends then, and the body goes on.

use vstd::prelude::*;

verus! {

/// What became of a part of the body that was offered to the writer.
#[derive(Debug, Clone, Copy, PartialEq, Eq, Structural)]
pub enum SendOutcome {
    /// The writer will get it.
    Sent,
    /// The writer has fallen too far behind.
    Full,
    /// The writer is gone.
    Closed,
}

/// What happens to a body that is passed on.
#[derive(Debug, Clone, Copy, PartialEq, Eq, Structural)]
pub enum TeeEvent {
    /// A part of it was offered to the writer.
    Offered(SendOutcome),
    /// It broke off.
    Broken,
    /// It ended.
    Ended,
    /// Nobody wants the rest of it.
    Dropped,
}

/// What the writer is to see of it.
#[derive(Debug, Clone, Copy, PartialEq, Eq, Structural)]
pub struct TeeAction {
    /// Tell the writer to give up.
    pub raise_abort: bool,
    /// Offer the writer no more parts.
    pub close: bool,
    /// Tell the writer how the body ended: whether it was whole.
    pub report: Option<bool>,
}

/// The copy of a body.
#[derive(Debug, Clone, Copy, PartialEq, Eq, Structural)]
pub struct TeeState {
    /// Whether the writer is offered the parts of the body.
    pub open: bool,
    /// Whether the writer waits to hear how the body ended.
    pub pending: bool,
}

/// The copy of a body at the start.
pub open spec fn tee_start() -> TeeState {
    TeeState { open: true, pending: true }
}

/// The copy of a body when nothing more is said to the writer.
pub open spec fn tee_done() -> TeeState {
    TeeState { open: false, pending: false }
}

/// What the writer is to hear of the end, if it still waits.
pub open spec fn report_if(pending: bool, whole: bool) -> Option<bool> {
    if pending {
        Some(whole)
    } else {
        None
    }
}

/// What becomes of the copy, and what the writer is to see of it.
pub open spec fn tee_after(s: TeeState, event: TeeEvent) -> (TeeState, TeeAction) {
    match event {
        TeeEvent::Offered(outcome) => if !s.open || outcome == SendOutcome::Sent {
            (s, TeeAction { raise_abort: false, close: false, report: None })
        } else {
            (tee_done(), TeeAction { raise_abort: true, close: true, report: None })
        },
        TeeEvent::Broken => (
            tee_done(),
            TeeAction { raise_abort: true, close: true, report: report_if(s.pending, false) },
        ),
        TeeEvent::Ended => (
            tee_done(),
            TeeAction { raise_abort: false, close: true, report: report_if(s.pending, true) },
        ),
        TeeEvent::Dropped => if s.pending {
            (tee_done(), TeeAction { raise_abort: false, close: true, report: Some(false) })
        } else {
            (s, TeeAction { raise_abort: false, close: false, report: None })
        },
    }
}

impl TeeState {
    /// The copy of a body of which nothing has come yet.
    pub fn new() -> (r: Self)
        ensures
            r == tee_start(),
    {
        TeeState { open: true, pending: true }
    }

    /// Goes on after an event, and says what the writer is to see of it.
    pub fn next(&mut self, event: TeeEvent) -> (r: TeeAction)
        ensures
            (*final(self), r) == tee_after(*old(self), event),
    {
        match event {
            TeeEvent::Offered(outcome) => {
                if !self.open || outcome == SendOutcome::Sent {
                    TeeAction { raise_abort: false, close: false, report: None }
                } else {
                    self.open = false;
                    self.pending = false;
                    TeeAction { raise_abort: true, close: true, report: None }
                }
            },
            TeeEvent::Broken => self.finish(false, true),
            TeeEvent::Ended => self.finish(true, false),
            TeeEvent::Dropped => {
                if self.pending {
                    self.finish(false, false)
                } else {
                    TeeAction { raise_abort: false, close: false, report: None }
                }
            },
        }
    }

    fn finish(&mut self, whole: bool, raise_abort: bool) -> (r: TeeAction)
        ensures
            *final(self) == tee_done(),
            r == (TeeAction {
                raise_abort,
                close: true,
                report: report_if(old(self).pending, whole),
            }),
    {
        let report = if self.pending {
            Some(whole)
        } else {
            None
        };
        self.open = false;
        self.pending = false;
        TeeAction { raise_abort, close: true, report }
    }
}

/// The copy after the events.
pub open spec fn tee_after_all(events: Seq<TeeEvent>) -> TeeState
    decreases events.len(),
{
    if events.len() == 0 {
        tee_start()
    } else {
        tee_after(tee_after_all(events.drop_last()), events.last()).0
    }
}

/// What the writer hears of the end, in the course of the events.
pub open spec fn reports(events: Seq<TeeEvent>) -> Seq<bool>
    decreases events.len(),
{
    if events.len() == 0 {
        Seq::empty()
    } else {
        let before = reports(events.drop_last());
        match tee_after(tee_after_all(events.drop_last()), events.last()).1.report {
            Some(whole) => before.push(whole),
            None => before,
        }
    }
}

/// Whether the events are those of a body that came to its end with the writer
/// keeping up, and possibly more after that.
pub open spec fn ends_whole(events: Seq<TeeEvent>, k: int) -> bool {
    &&& 0 <= k < events.len()
    &&& events[k] == TeeEvent::Ended
    &&& forall|i: int|
        0 <= i < k ==> #[trigger] events[i] == TeeEvent::Offered(SendOutcome::Sent)
}

proof fn what_the_writer_has_heard(events: Seq<TeeEvent>)
    ensures
        ({
            let s = tee_after_all(events);
            &&& s.open == s.pending
            &&& s.pending ==> reports(events).len() == 0 && forall|i: int|
                0 <= i < events.len() ==> #[trigger] events[i] == TeeEvent::Offered(
                    SendOutcome::Sent,
                )
            &&& reports(events).len() <= 1
            &&& reports(events).len() == 1 && reports(events)[0] ==> exists|k: int|
                ends_whole(events, k)
        }),
    decreases events.len(),
{
    if events.len() > 0 {
        let before = events.drop_last();
        what_the_writer_has_heard(before);
        let s = tee_after_all(before);
        let now = tee_after_all(events);
        if now.pending {
            assert forall|i: int| 0 <= i < events.len() implies #[trigger] events[i]
                == TeeEvent::Offered(SendOutcome::Sent) by {
                if i < before.len() {
                    assert(before[i] == TeeEvent::Offered(SendOutcome::Sent));
                }
            }
        }
        if reports(events).len() == 1 && reports(events)[0] {
            if s.pending {
                let k = events.len() - 1;
                assert forall|i: int| 0 <= i < k implies #[trigger] events[i] == TeeEvent::Offered(
                    SendOutcome::Sent,
                ) by {
                    assert(before[i] == TeeEvent::Offered(SendOutcome::Sent));
                }
                assert(ends_whole(events, k));
            } else {
                let k = choose|k: int| ends_whole(before, k);
                assert forall|i: int| 0 <= i < k implies #[trigger] events[i] == TeeEvent::Offered(
                    SendOutcome::Sent,
                ) by {
                    assert(before[i] == TeeEvent::Offered(SendOutcome::Sent));
                }
                assert(events[k] == before[k]);
                assert(ends_whole(events, k));
            }
        }
    }
}

/// The writer hears of the end at most once, and hears that the body was whole
/// only if the body came to its end and the writer was given every part of it.
pub proof fn whole_is_said_of_a_whole_body_only(events: Seq<TeeEvent>)
    ensures
        reports(events).len() <= 1,
        reports(events).contains(true) ==> exists|k: int| ends_whole(events, k),
{
    what_the_writer_has_heard(events);
}

/// A body that broke off, or that the writer could not keep up with, makes the
/// writer give up, unless the writer was done with the body before.
pub proof fn a_broken_copy_is_given_up(events: Seq<TeeEvent>, event: TeeEvent)
    requires
        tee_after_all(events).open,
        event == TeeEvent::Broken || event == TeeEvent::Offered(SendOutcome::Full) || event
            == TeeEvent::Offered(SendOutcome::Closed),
    ensures
        tee_after(tee_after_all(events), event).1.raise_abort,
        tee_after(tee_after_all(events), event).0 == tee_done(),
{
}

/// `n` parts of a body, each of which the writer will get.
pub open spec fn all_sent(n: nat) -> Seq<TeeEvent> {
    Seq::new(n, |i: int| TeeEvent::Offered(SendOutcome::Sent))
}

proof fn nothing_is_said_while_parts_are_sent(n: nat)
    ensures
        tee_after_all(all_sent(n)) == (TeeState { open: true, pending: true }),
        reports(all_sent(n)) == Seq::<bool>::empty(),
    decreases n,
{
    if n > 0 {
        nothing_is_said_while_parts_are_sent((n - 1) as nat);
        assert(all_sent(n).drop_last() =~= all_sent((n - 1) as nat));
        assert(all_sent(n).last() == TeeEvent::Offered(SendOutcome::Sent));
    }
}

/// After any number of parts that the writer will get, it is still offered the next. If the
/// body ends then, the writer hears that it was whole; if nobody wants the rest, or it
/// breaks off, that it was not; and if the writer falls behind or is gone, it hears nothing.
/// It is told to give up exactly if the body breaks off or the writer falls behind or is
/// gone. After any of these it is offered nothing more.
pub proof fn what_the_writer_is_told(n: nat, last: TeeEvent)
    requires
        last != TeeEvent::Offered(SendOutcome::Sent),
    ensures
        ({
            let sent = all_sent(n);
            let action = tee_after(tee_after_all(sent), last).1;
            &&& tee_after_all(sent).open
            &&& reports(sent).len() == 0
            &&& last == TeeEvent::Ended ==> reports(sent.push(last)) == seq![true]
            &&& last == TeeEvent::Dropped || last == TeeEvent::Broken ==> reports(sent.push(last))
                == seq![false]
            &&& last is Offered ==> reports(sent.push(last)).len() == 0
            &&& action.raise_abort <==> last == TeeEvent::Broken || last is Offered
            &&& action.close
            &&& !tee_after_all(sent.push(last)).open
            &&& !tee_after_all(sent.push(last)).pending
        }),
{
    nothing_is_said_while_parts_are_sent(n);
    let sent = all_sent(n);
    assert(sent.push(last).drop_last() =~= sent);
    assert(sent.push(last).last() == last);
    assert(Seq::<bool>::empty().push(true) =~= seq![true]);
    assert(Seq::<bool>::empty().push(false) =~= seq![false]);
}

/// While the writer gets every part, nothing is asked of it.
pub proof fn a_part_that_is_sent_changes_nothing(s: TeeState)
    ensures
        tee_after(s, TeeEvent::Offered(SendOutcome::Sent)).0 == s,
        !tee_after(s, TeeEvent::Offered(SendOutcome::Sent)).1.raise_abort,
        !tee_after(s, TeeEvent::Offered(SendOutcome::Sent)).1.close,
        tee_after(s, TeeEvent::Offered(SendOutcome::Sent)).1.report is None,
{
}

/// Once the copy is done, nothing is said to the writer any more, whatever happens to the
/// body.
pub proof fn nothing_is_said_after_the_end(s: TeeState, event: TeeEvent)
    requires
        !s.open,
        !s.pending,
    ensures
        tee_after(s, event).0 == s,
        tee_after(s, event).1.report is None,
{
}

} // verus!
