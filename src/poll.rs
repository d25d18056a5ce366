//! The decisions of the poll loop, as a state machine: the loop runner
//! performs each action and reports how it ended.

use vstd::prelude::*;

verus! {

/// How long the loop waits between two cycles, in milliseconds.
pub const POLL_INTERVAL_MS: u64 = 3000;

/// How long the loop waits after disconnecting, so that the remote side
/// observes the close, in milliseconds.
pub const GRACE_PERIOD_MS: u64 = 3000;

#[derive(Debug, Clone, Copy, PartialEq, Eq, Structural)]
pub enum PollPhase {
    Connecting,
    FetchingGraph,
    /// The first step of a cycle: the counters are being fetched.
    FetchingStatuses,
    /// The description is being built and laid out.
    Rendering,
    /// The image is being handed to the consumer.
    Delivering,
    /// The fixed interval between two cycles.
    Waiting,
    Disconnecting,
    GracePeriod,
    Stopped,
    Failed,
}

/// How the action of the current phase ended.
#[derive(Debug, Clone, Copy, PartialEq, Eq, Structural)]
pub enum PollEvent {
    Succeeded,
    Errored,
    /// The cancellation signal won the race against the cycle.
    Cancelled,
}

/// What the loop runner performs next.
#[derive(Debug, Clone, Copy, PartialEq, Eq, Structural)]
pub enum PollAction {
    Connect,
    FetchGraph,
    FetchStatuses,
    Render,
    Deliver,
    WaitInterval,
    Disconnect,
    WaitGrace,
    /// The loop has stopped after an orderly disconnect.
    Finish,
    /// The loop has failed; the error goes to the loop's caller.
    Abort,
}

pub open spec fn is_terminal(p: PollPhase) -> bool {
    p is Stopped || p is Failed
}

/// The phases of a cycle, which race against the cancellation signal.
pub open spec fn in_cycle(p: PollPhase) -> bool {
    p is FetchingStatuses || p is Rendering || p is Delivering || p is Waiting
}

/// An action that sends a request to the remote process.
pub open spec fn is_request(a: PollAction) -> bool {
    a is Connect || a is FetchGraph || a is FetchStatuses
}

/// An event can come in a phase that is not terminal; a cancellation only
/// during a cycle, the one place where it is observed.
pub open spec fn admissible(p: PollPhase, e: PollEvent) -> bool {
    !is_terminal(p) && (e is Cancelled ==> in_cycle(p))
}

/// The phase the loop enters on `e` and the action it performs there.
pub open spec fn next(p: PollPhase, e: PollEvent) -> (PollPhase, PollAction) {
    match e {
        PollEvent::Errored => (PollPhase::Failed, PollAction::Abort),
        PollEvent::Cancelled => (PollPhase::Disconnecting, PollAction::Disconnect),
        PollEvent::Succeeded => match p {
            PollPhase::Connecting => (PollPhase::FetchingGraph, PollAction::FetchGraph),
            PollPhase::FetchingGraph => (PollPhase::FetchingStatuses, PollAction::FetchStatuses),
            PollPhase::FetchingStatuses => (PollPhase::Rendering, PollAction::Render),
            PollPhase::Rendering => (PollPhase::Delivering, PollAction::Deliver),
            PollPhase::Delivering => (PollPhase::Waiting, PollAction::WaitInterval),
            PollPhase::Waiting => (PollPhase::FetchingStatuses, PollAction::FetchStatuses),
            PollPhase::Disconnecting => (PollPhase::GracePeriod, PollAction::WaitGrace),
            _ => (PollPhase::Stopped, PollAction::Finish),
        },
    }
}

/// The phase the loop starts in, and its first action.
pub fn start() -> (r: (PollPhase, PollAction))
    ensures
        r == (PollPhase::Connecting, PollAction::Connect),
{
    (PollPhase::Connecting, PollAction::Connect)
}

/// Decides where the loop goes once the action of `phase` ended with `event`.
pub fn step(phase: PollPhase, event: PollEvent) -> (r: (PollPhase, PollAction))
    requires
        admissible(phase, event),
    ensures
        r == next(phase, event),
{
    match event {
        PollEvent::Errored => (PollPhase::Failed, PollAction::Abort),
        PollEvent::Cancelled => (PollPhase::Disconnecting, PollAction::Disconnect),
        PollEvent::Succeeded => match phase {
            PollPhase::Connecting => (PollPhase::FetchingGraph, PollAction::FetchGraph),
            PollPhase::FetchingGraph => (PollPhase::FetchingStatuses, PollAction::FetchStatuses),
            PollPhase::FetchingStatuses => (PollPhase::Rendering, PollAction::Render),
            PollPhase::Rendering => (PollPhase::Delivering, PollAction::Deliver),
            PollPhase::Delivering => (PollPhase::Waiting, PollAction::WaitInterval),
            PollPhase::Waiting => (PollPhase::FetchingStatuses, PollAction::FetchStatuses),
            PollPhase::Disconnecting => (PollPhase::GracePeriod, PollAction::WaitGrace),
            _ => (PollPhase::Stopped, PollAction::Finish),
        },
    }
}

impl PollPhase {
    /// Whether the loop is over.
    pub fn is_terminal(&self) -> (r: bool)
        ensures
            r == is_terminal(*self),
    {
        match self {
            PollPhase::Stopped | PollPhase::Failed => true,
            _ => false,
        }
    }

    /// Whether the action of this phase races against the cancellation signal.
    pub fn observes_cancellation(&self) -> (r: bool)
        ensures
            r == in_cycle(*self),
    {
        match self {
            PollPhase::FetchingStatuses | PollPhase::Rendering | PollPhase::Delivering
            | PollPhase::Waiting => true,
            _ => false,
        }
    }
}

/// The actions the loop performs from `p` on, as `events` come; the run ends
/// at a terminal phase or at an event that cannot come there.
pub open spec fn run(p: PollPhase, events: Seq<PollEvent>) -> Seq<PollAction>
    decreases events.len(),
{
    if events.len() == 0 || !admissible(p, events[0]) {
        Seq::empty()
    } else {
        seq![next(p, events[0]).1] + run(next(p, events[0]).0, events.drop_first())
    }
}

proof fn lemma_no_request_after_disconnect(p: PollPhase, events: Seq<PollEvent>)
    requires
        p is Disconnecting || p is GracePeriod || is_terminal(p),
    ensures
        forall|i: int| 0 <= i < run(p, events).len() ==> !is_request(#[trigger] run(p, events)[i]),
    decreases events.len(),
{
    if events.len() > 0 && admissible(p, events[0]) {
        let q = next(p, events[0]).0;
        lemma_no_request_after_disconnect(q, events.drop_first());
        let r = run(p, events);
        assert(r == seq![next(p, events[0]).1] + run(q, events.drop_first()));
        assert forall|i: int| 0 <= i < r.len() implies !is_request(#[trigger] r[i]) by {
            if i > 0 {
                assert(r[i] == run(q, events.drop_first())[i - 1]);
            }
        }
    }
}

/// A cancellation observed at any point of a cycle, the interval wait
/// included, leads straight to the disconnect, and whatever happens after it,
/// the loop sends no further request to the remote process.
pub proof fn lemma_cancel_leads_to_disconnect(p: PollPhase, later: Seq<PollEvent>)
    requires
        in_cycle(p),
    ensures
        run(p, seq![PollEvent::Cancelled] + later)[0] == PollAction::Disconnect,
        forall|i: int|
            0 <= i < run(p, seq![PollEvent::Cancelled] + later).len() ==> !is_request(
                #[trigger] run(p, seq![PollEvent::Cancelled] + later)[i],
            ),
{
    let events = seq![PollEvent::Cancelled] + later;
    assert(events[0] == PollEvent::Cancelled);
    assert(events.drop_first() =~= later);
    lemma_no_request_after_disconnect(PollPhase::Disconnecting, later);
    let r = run(p, events);
    let rest = run(PollPhase::Disconnecting, later);
    assert(r == seq![PollAction::Disconnect] + rest);
    assert forall|i: int| 0 <= i < r.len() implies !is_request(#[trigger] r[i]) by {
        if i > 0 {
            assert(r[i] == rest[i - 1]);
        }
    }
}

} // verus!
