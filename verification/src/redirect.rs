//! Forwarding a connection to its target: which of the resolved addresses is connected to,
//! and what follows each step on the way to the copying of bytes.

use vstd::prelude::*;

verus! {

/// The family of a resolved address.
#[derive(Clone, Copy, Debug, PartialEq, Eq, Structural)]
pub enum IpFamily {
    V4,
    V6,
}

/// The index of the first IPv6 address among `candidates` at or after `i`, or their number
/// where there is none.
pub open spec fn first_v6_from(candidates: Seq<IpFamily>, i: int) -> int
    decreases candidates.len() - i,
{
    if 0 <= i < candidates.len() && candidates[i] != IpFamily::V6 {
        first_v6_from(candidates, i + 1)
    } else if 0 <= i < candidates.len() {
        i
    } else {
        candidates.len() as int
    }
}

/// The address that is connected to, by its index among the resolved `candidates`: the first
/// IPv6 address where there is one, else the first address; none where nothing was resolved.
pub open spec fn chosen(candidates: Seq<IpFamily>) -> Option<usize> {
    if candidates.len() == 0 {
        None
    } else if first_v6_from(candidates, 0) < candidates.len() {
        Some(first_v6_from(candidates, 0) as usize)
    } else {
        Some(0)
    }
}

/// The chosen address is one of the candidates; it is an IPv4 address only where all are; and
/// no IPv6 address stands before it.
pub proof fn law_chosen_prefers_v6(candidates: Seq<IpFamily>)
    requires
        candidates.len() <= usize::MAX,
    ensures
        chosen(candidates) is Some <==> candidates.len() > 0,
        chosen(candidates) matches Some(at) ==> {
            &&& at < candidates.len()
            &&& candidates[at as int] == IpFamily::V4 ==> forall|j: int|
                0 <= j < candidates.len() ==> candidates[j] == IpFamily::V4
            &&& forall|j: int| 0 <= j < at ==> candidates[j] == IpFamily::V4
        },
{
    lemma_first_v6(candidates, 0);
}

/// [`first_v6_from`] gives the first IPv6 address at or after `i`.
pub proof fn lemma_first_v6(candidates: Seq<IpFamily>, i: int)
    requires
        0 <= i <= candidates.len(),
    ensures
        i <= first_v6_from(candidates, i) <= candidates.len(),
        first_v6_from(candidates, i) < candidates.len() ==> candidates[first_v6_from(
            candidates,
            i,
        )] == IpFamily::V6,
        forall|j: int| i <= j < first_v6_from(candidates, i) ==> candidates[j] == IpFamily::V4,
    decreases candidates.len() - i,
{
    if i < candidates.len() && candidates[i] != IpFamily::V6 {
        lemma_first_v6(candidates, i + 1);
    }
}

/// Chooses the address to connect to among the resolved `candidates`.
pub fn choose_target(candidates: &[IpFamily]) -> (r: Option<usize>)
    ensures
        r == chosen(candidates@),
{
    if candidates.len() == 0 {
        return None;
    }
    let mut i: usize = 0;
    while i < candidates.len()
        invariant
            i <= candidates@.len(),
            first_v6_from(candidates@, i as int) == first_v6_from(candidates@, 0),
        decreases candidates@.len() - i,
    {
        match candidates[i] {
            IpFamily::V6 => {
                return Some(i);
            },
            IpFamily::V4 => {},
        }
        i += 1;
    }
    Some(0)
}

/// How far a redirect has come.
#[derive(Clone, Copy, Debug, PartialEq, Eq, Structural)]
pub enum Stage {
    /// The target is being resolved.
    Resolving,
    /// The connection to the chosen address is being opened.
    Connecting,
    /// The bytes that the client sent first are being written to the target.
    Flushing,
    /// Bytes are copied between client and target.
    Copying,
    /// Both sides are torn down.
    Closed,
}

/// What happened to the step that a redirect waited for.
#[derive(Clone, Debug)]
pub enum Event {
    /// The target was resolved to these addresses, in this order.
    Resolved(Vec<IpFamily>),
    /// The step succeeded: the connection is open, the bytes are written, or the copying
    /// ended because one side closed.
    Done,
    /// The step failed.
    Failed,
}

/// Why a redirect ended.
#[derive(Clone, Copy, Debug, PartialEq, Eq, Structural)]
pub enum Ending {
    /// The target was not resolved to any address.
    Unresolved,
    /// No connection to the chosen address was opened.
    Unconnected,
    /// The bytes that the client sent first were not written to the target.
    Unflushed,
    /// The copying failed.
    Broken,
    /// One side closed the connection.
    Completed,
    /// Something was reported that the redirect did not wait for.
    OutOfTurn,
}

/// What is done next for a redirect.
#[derive(Clone, Copy, Debug, PartialEq, Eq, Structural)]
pub enum Step {
    /// A connection is opened to the candidate with this index.
    Connect(usize),
    /// The bytes that the client sent first are written to the target.
    Flush,
    /// Bytes are copied between client and target until one side closes or fails.
    Copy,
    /// Both sides are torn down, for this reason. Nothing is tried again.
    TearDown(Ending),
}

/// The stage that a redirect is in after an event, and what is done next.
#[derive(Clone, Copy, Debug, PartialEq, Eq, Structural)]
pub struct Move {
    pub stage: Stage,
    pub step: Step,
}

/// What happened, with the addresses as a sequence.
pub enum EventView {
    Resolved(Seq<IpFamily>),
    Done,
    Failed,
}

impl View for Event {
    type V = EventView;

    open spec fn view(&self) -> EventView {
        match *self {
            Event::Resolved(candidates) => EventView::Resolved(candidates@),
            Event::Done => EventView::Done,
            Event::Failed => EventView::Failed,
        }
    }
}

/// The redirect that ends for the reason `why`.
pub open spec fn torn_down(why: Ending) -> Move {
    Move { stage: Stage::Closed, step: Step::TearDown(why) }
}

/// What follows `event` in `stage`. The steps come in one order: resolve, connect, write the
/// first bytes, copy. A failure of any of them ends the redirect, as does an event that the
/// stage does not wait for.
pub open spec fn redirected(stage: Stage, event: EventView) -> Move {
    match (stage, event) {
        (Stage::Resolving, EventView::Resolved(candidates)) => match chosen(candidates) {
            Some(at) => Move { stage: Stage::Connecting, step: Step::Connect(at) },
            None => torn_down(Ending::Unresolved),
        },
        (Stage::Resolving, EventView::Failed) => torn_down(Ending::Unresolved),
        (Stage::Connecting, EventView::Done) => Move { stage: Stage::Flushing, step: Step::Flush },
        (Stage::Connecting, EventView::Failed) => torn_down(Ending::Unconnected),
        (Stage::Flushing, EventView::Done) => Move { stage: Stage::Copying, step: Step::Copy },
        (Stage::Flushing, EventView::Failed) => torn_down(Ending::Unflushed),
        (Stage::Copying, EventView::Done) => torn_down(Ending::Completed),
        (Stage::Copying, EventView::Failed) => torn_down(Ending::Broken),
        _ => torn_down(Ending::OutOfTurn),
    }
}

/// Says what follows `event` for a redirect in `stage`. A redirect starts in
/// [`Stage::Resolving`], with the resolution of its target under way.
pub fn redirect(stage: Stage, event: &Event) -> (r: Move)
    ensures
        r == redirected(stage, event@),
{
    match stage {
        Stage::Resolving => match event {
            Event::Resolved(candidates) => match choose_target(candidates.as_slice()) {
                Some(at) => Move { stage: Stage::Connecting, step: Step::Connect(at) },
                None => Move { stage: Stage::Closed, step: Step::TearDown(Ending::Unresolved) },
            },
            Event::Failed => Move { stage: Stage::Closed, step: Step::TearDown(Ending::Unresolved) },
            Event::Done => Move { stage: Stage::Closed, step: Step::TearDown(Ending::OutOfTurn) },
        },
        Stage::Connecting => match event {
            Event::Done => Move { stage: Stage::Flushing, step: Step::Flush },
            Event::Failed => Move {
                stage: Stage::Closed,
                step: Step::TearDown(Ending::Unconnected),
            },
            Event::Resolved(_) => Move {
                stage: Stage::Closed,
                step: Step::TearDown(Ending::OutOfTurn),
            },
        },
        Stage::Flushing => match event {
            Event::Done => Move { stage: Stage::Copying, step: Step::Copy },
            Event::Failed => Move { stage: Stage::Closed, step: Step::TearDown(Ending::Unflushed) },
            Event::Resolved(_) => Move {
                stage: Stage::Closed,
                step: Step::TearDown(Ending::OutOfTurn),
            },
        },
        Stage::Copying => match event {
            Event::Done => Move { stage: Stage::Closed, step: Step::TearDown(Ending::Completed) },
            Event::Failed => Move { stage: Stage::Closed, step: Step::TearDown(Ending::Broken) },
            Event::Resolved(_) => Move {
                stage: Stage::Closed,
                step: Step::TearDown(Ending::OutOfTurn),
            },
        },
        Stage::Closed => Move { stage: Stage::Closed, step: Step::TearDown(Ending::OutOfTurn) },
    }
}

/// Bytes are copied only once the first bytes of the client are written, those are written
/// only once the connection is open, and a connection is opened only to an address that was
/// resolved; whatever fails, the redirect ends and nothing is tried again.
pub proof fn law_redirect_order(stage: Stage, event: EventView)
    requires
        event matches EventView::Resolved(candidates) ==> candidates.len() <= usize::MAX,
    ensures
        redirected(stage, event).step is Copy ==> stage == Stage::Flushing && event is Done,
        redirected(stage, event).step is Flush ==> stage == Stage::Connecting && event is Done,
        redirected(stage, event).step matches Step::Connect(at) ==> stage == Stage::Resolving
            && event is Resolved && at < event->Resolved_0.len(),
        event is Failed ==> redirected(stage, event).stage == Stage::Closed,
        redirected(stage, event).step is TearDown <==> redirected(stage, event).stage
            == Stage::Closed,
{
    if let EventView::Resolved(candidates) = event {
        law_chosen_prefers_v6(candidates);
    }
}

} // verus!
