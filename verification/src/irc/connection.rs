//! Connection-level values: the events that cross the boundary between the
//! transport reader and the event loop, and the bounded-retry policy the
//! reader follows on read failures.

use vstd::prelude::*;

verus! {

/// The only values exchanged between the reader task, the dispatcher and the
/// transport: an outbound line, an inbound line, or the terminate signal.
pub enum ConnectionEvent {
    Output(String),
    Received(String),
    Quit,
}

/// The mathematical image of a `ConnectionEvent`: the same shape over
/// character sequences.
pub enum EventView {
    Output(Seq<char>),
    Received(Seq<char>),
    Quit,
}

impl View for ConnectionEvent {
    type V = EventView;

    open spec fn view(&self) -> EventView {
        match self {
            ConnectionEvent::Output(s) => EventView::Output(s@),
            ConnectionEvent::Received(s) => EventView::Received(s@),
            ConnectionEvent::Quit => EventView::Quit,
        }
    }
}

impl DeepView for ConnectionEvent {
    type V = EventView;

    open spec fn deep_view(&self) -> EventView {
        self.view()
    }
}

/// The next consecutive-failure count after one read attempt: a success
/// resets the count, a failure raises it by one.
pub open spec fn policy_next(failures: int, ok: bool) -> int {
    if ok {
        0
    } else {
        failures + 1
    }
}

/// Whether the reader stops after this attempt: exactly on the fifth
/// consecutive failure.
pub open spec fn policy_stops(failures: int, ok: bool) -> bool {
    !ok && failures + 1 == 5
}

/// How many read attempts the reader performs, starting with `failures`
/// consecutive failures on record, when successive attempts turn out as
/// `outcomes` says (`true` is a successful read): it attempts reads one by
/// one and stops for good on the fifth consecutive failure.
pub open spec fn reads_performed(outcomes: Seq<bool>, failures: int) -> int
    decreases outcomes.len(),
{
    if outcomes.len() == 0 {
        0
    } else if policy_stops(failures, outcomes[0]) {
        1
    } else {
        1 + reads_performed(outcomes.drop_first(), policy_next(failures, outcomes[0]))
    }
}

/// What the reader does after a read attempt: hand the line on, sleep and
/// retry, or stop for good.
pub enum ReaderAction {
    Deliver,
    Retry,
    Stop,
}

/// The reader task's bounded-retry state: the number of consecutive read
/// failures seen so far, always below five while the reader is running.
pub struct ReaderPolicy {
    pub failures: u8,
}

impl ReaderPolicy {
    /// A fresh policy with no failures on record.
    pub fn new() -> (r: ReaderPolicy)
        ensures
            r.failures == 0,
    {
        ReaderPolicy { failures: 0 }
    }

    /// Record the outcome of one read attempt and say what to do next: a
    /// success resets the failure count and delivers the line; a failure
    /// raises the count, stopping on the fifth consecutive failure and
    /// retrying after a delay before that.
    pub fn on_read(&mut self, ok: bool) -> (a: ReaderAction)
        requires
            old(self).failures < 5,
        ensures
            final(self).failures as int == policy_next(old(self).failures as int, ok),
            a is Stop <==> policy_stops(old(self).failures as int, ok),
            a is Deliver <==> ok,
            a is Retry <==> !ok && old(self).failures + 1 < 5,
    {
        if ok {
            self.failures = 0;
            ReaderAction::Deliver
        } else {
            self.failures = self.failures + 1;
            if self.failures == 5 {
                ReaderAction::Stop
            } else {
                ReaderAction::Retry
            }
        }
    }
}

/// Five consecutive read failures terminate the reader: with the first five
/// outcomes all failures, exactly five reads are attempted, whatever would
/// come after — there is no sixth attempt.
pub proof fn lemma_reader_stops_after_five_failures(outcomes: Seq<bool>)
    requires
        outcomes.len() >= 5,
        forall|j: int| 0 <= j < 5 ==> !outcomes[j],
    ensures
        reads_performed(outcomes, 0) == 5,
{
    let o1 = outcomes.drop_first();
    let o2 = o1.drop_first();
    let o3 = o2.drop_first();
    let o4 = o3.drop_first();
    assert(o1[0] == outcomes[1] && o1[1] == outcomes[2] && o1[2] == outcomes[3] && o1[3]
        == outcomes[4]);
    assert(o2[0] == o1[1] && o2[1] == o1[2] && o2[2] == o1[3]);
    assert(o3[0] == o2[1] && o3[1] == o2[2]);
    assert(o4[0] == o3[1]);
    assert(reads_performed(o4, 4) == 1);
    assert(reads_performed(o3, 3) == 1 + reads_performed(o4, 4));
    assert(reads_performed(o2, 2) == 1 + reads_performed(o3, 3));
    assert(reads_performed(o1, 1) == 1 + reads_performed(o2, 2));
    assert(reads_performed(outcomes, 0) == 1 + reads_performed(o1, 1));
}

/// A failure followed by a success does not terminate the reader, and the
/// success resets the failure count to zero: the run goes on exactly as a
/// fresh run over the remaining outcomes.
pub proof fn lemma_reader_success_resets(outcomes: Seq<bool>)
    requires
        outcomes.len() >= 2,
        !outcomes[0],
        outcomes[1],
    ensures
        policy_next(policy_next(0, outcomes[0]), outcomes[1]) == 0,
        reads_performed(outcomes, 0) == 2 + reads_performed(outcomes.drop_first().drop_first(), 0),
{
    let o1 = outcomes.drop_first();
    assert(o1[0] == outcomes[1]);
    assert(reads_performed(outcomes, 0) == 1 + reads_performed(o1, 1));
    assert(reads_performed(o1, 1) == 1 + reads_performed(o1.drop_first(), 0));
}

} // verus!
