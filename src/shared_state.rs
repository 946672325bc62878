//! The completion cell shared by a background reader and the promise that
//! waits for it.
//!
//! A reader thread reads a whole resource and records the outcome here
//! exactly once; the promise polls the cell. A poll that finds no outcome
//! leaves its wake notifier behind, and the completing write hands that
//! notifier back so the caller can wake the waiting task. Both sides go
//! through one lock, so a notifier is never stored after the completion that
//! should have taken it (no lost wakeup).
//!
//! The notifier type `W` is left open: the cell only stores and returns it.

use vstd::prelude::*;

verus! {

/// Why a read of a resource failed.
#[derive(Clone, Copy, Debug, PartialEq, Eq, Structural)]
pub enum ReadFailure {
    /// The resource does not exist.
    NotFound,
    /// The resource may not be read.
    PermissionDenied,
    /// The read stopped before the end of the resource.
    UnexpectedEof,
    /// Any other fault of the underlying read.
    Other,
}

/// What a finished read produced, as mathematical values.
pub type OutcomeSpec = Result<Seq<u8>, ReadFailure>;

/// The mathematical value of an outcome.
pub open spec fn outcome_view(o: Result<Vec<u8>, ReadFailure>) -> OutcomeSpec {
    match o {
        Ok(bytes) => Ok(bytes@),
        Err(e) => Err(e),
    }
}

/// The abstract state of a completion cell.
pub struct CellState<W> {
    /// The recorded outcome; `None` while the read is still running.
    pub outcome: Option<OutcomeSpec>,
    /// The notifier of the most recent poll that found no outcome.
    pub notifier: Option<W>,
}

/// The cell as it is created: no outcome, nobody waiting.
pub open spec fn initial_state<W>() -> CellState<W> {
    CellState { outcome: None, notifier: None }
}

/// The state after a poll with notifier `w`: a finished cell is left as it
/// is; otherwise `w` replaces any earlier notifier.
pub open spec fn polled<W>(s: CellState<W>, w: W) -> CellState<W> {
    if s.outcome is Some {
        s
    } else {
        CellState { outcome: None, notifier: Some(w) }
    }
}

/// What a poll answers: the outcome once there is one, `None` for pending.
pub open spec fn poll_answer<W>(s: CellState<W>) -> Option<OutcomeSpec> {
    s.outcome
}

/// The state after the reader records `o`: only the first outcome counts,
/// and recording it consumes the stored notifier.
pub open spec fn completed<W>(s: CellState<W>, o: OutcomeSpec) -> CellState<W> {
    if s.outcome is Some {
        s
    } else {
        CellState { outcome: Some(o), notifier: None }
    }
}

/// The notifier that recording an outcome hands back to be woken.
pub open spec fn completion_notifier<W>(s: CellState<W>) -> Option<W> {
    if s.outcome is Some {
        None
    } else {
        s.notifier
    }
}

/// One step taken on a cell under its lock: a poll with a notifier, or the
/// reader recording an outcome.
pub enum CellEvent<W> {
    Poll(W),
    Complete(OutcomeSpec),
}

/// The state after one event.
pub open spec fn apply<W>(s: CellState<W>, e: CellEvent<W>) -> CellState<W> {
    match e {
        CellEvent::Poll(w) => polled(s, w),
        CellEvent::Complete(o) => completed(s, o),
    }
}

/// The state after a run of events, in order.
pub open spec fn run<W>(s: CellState<W>, events: Seq<CellEvent<W>>) -> CellState<W>
    decreases events.len(),
{
    if events.len() == 0 {
        s
    } else {
        run(apply(s, events[0]), events.drop_first())
    }
}

/// The outcome of the first completion in a run of events, if any.
pub open spec fn first_completion<W>(events: Seq<CellEvent<W>>) -> Option<OutcomeSpec>
    decreases events.len(),
{
    if events.len() == 0 {
        None
    } else {
        match events[0] {
            CellEvent::Complete(o) => Some(o),
            CellEvent::Poll(_) => first_completion(events.drop_first()),
        }
    }
}

/// Once a cell holds an outcome, no later poll or completion changes it.
pub proof fn lemma_outcome_is_final<W>(s: CellState<W>, events: Seq<CellEvent<W>>)
    requires
        s.outcome is Some,
    ensures
        run(s, events).outcome == s.outcome,
    decreases events.len(),
{
    if events.len() > 0 {
        lemma_outcome_is_final(apply(s, events[0]), events.drop_first());
    }
}

/// Single resolution: from a fresh cell, whatever the order of polls and
/// completions, the cell becomes ready exactly at the first completion and
/// keeps that first outcome; later completions are ignored.
pub proof fn lemma_single_resolution<W>(s: CellState<W>, events: Seq<CellEvent<W>>)
    requires
        s.outcome is None,
    ensures
        run(s, events).outcome == first_completion(events),
    decreases events.len(),
{
    if events.len() > 0 {
        let t = apply(s, events[0]);
        match events[0] {
            CellEvent::Complete(o) => {
                lemma_outcome_is_final(t, events.drop_first());
            },
            CellEvent::Poll(w) => {
                lemma_single_resolution(t, events.drop_first());
            },
        }
    }
}

/// Resolution and content fidelity: once the reader has recorded outcome `o`
/// (the bytes it read, or its failure), every later poll answers exactly `o`,
/// whatever else happened in between.
pub proof fn lemma_polls_answer_outcome<W>(
    s: CellState<W>,
    o: OutcomeSpec,
    events: Seq<CellEvent<W>>,
    w: W,
)
    requires
        s.outcome is None,
    ensures
        poll_answer(run(completed(s, o), events)) == Some(o),
        poll_answer(polled(run(completed(s, o), events), w)) == Some(o),
{
    lemma_outcome_is_final(completed(s, o), events);
}

/// No lost wakeup: a poll that answers pending leaves its notifier so that
/// the completion that follows hands it back to be woken; and a poll that
/// comes after the completion answers ready. These are the two orders in
/// which a poll and the completion can take the lock.
pub proof fn lemma_no_lost_wakeup<W>(s: CellState<W>, w: W, o: OutcomeSpec)
    requires
        s.outcome is None,
    ensures
        poll_answer(s) is None ==> completion_notifier(polled(s, w)) == Some(w),
        poll_answer(completed(s, o)) == Some(o),
        completed(polled(s, w), o).outcome == Some(o),
{
}

/// Idempotent notifier: waking a task again only leads to more polls, and a
/// poll of a finished cell changes nothing and answers the same outcome, so
/// nothing resolves twice.
pub proof fn lemma_repeated_polls_change_nothing<W>(s: CellState<W>, w1: W, w2: W)
    requires
        s.outcome is Some,
    ensures
        polled(s, w1) == s,
        polled(polled(s, w1), w2) == s,
        poll_answer(polled(s, w1)) == poll_answer(s),
        completion_notifier(s) is None,
{
}

/// The answer of one poll of a read promise.
pub enum ReadPoll {
    /// The read has not finished; the notifier was stored.
    Pending,
    /// The read has finished with this outcome.
    Ready(Result<Vec<u8>, ReadFailure>),
}

impl ReadPoll {
    /// `None` for pending, else the outcome as mathematical values.
    pub open spec fn answer(&self) -> Option<OutcomeSpec> {
        match self {
            ReadPoll::Pending => None,
            ReadPoll::Ready(o) => Some(outcome_view(*o)),
        }
    }
}

/// The completion cell: the outcome of the read, whether it is ready, and
/// the notifier of the task waiting for it.
pub struct SharedState<W> {
    file_data: Option<Result<Vec<u8>, ReadFailure>>,
    ready: bool,
    waker: Option<W>,
}

impl<W> View for SharedState<W> {
    type V = CellState<W>;

    closed spec fn view(&self) -> CellState<W> {
        CellState {
            outcome: match self.file_data {
                Some(o) => Some(outcome_view(o)),
                None => None,
            },
            notifier: self.waker,
        }
    }
}

impl<W> SharedState<W> {
    /// The readiness flag agrees with the presence of an outcome.
    pub closed spec fn wf(&self) -> bool {
        self.ready == (self.file_data is Some)
    }

    /// A cell for a read that has just started.
    pub fn new() -> (r: Self)
        ensures
            r.wf(),
            r@ == initial_state::<W>(),
    {
        SharedState { file_data: None, ready: false, waker: None }
    }

    /// Whether the reader has recorded its outcome.
    pub fn is_ready(&self) -> (r: bool)
        requires
            self.wf(),
        ensures
            r == (self@.outcome is Some),
    {
        self.ready
    }

    /// Polls the cell. A finished cell answers with a copy of its outcome
    /// and is left unchanged, so repeated polls keep answering the same.
    /// An unfinished one stores `waker`, dropping any earlier notifier, and
    /// answers pending.
    pub fn poll(&mut self, waker: W) -> (r: ReadPoll)
        requires
            old(self).wf(),
        ensures
            final(self).wf(),
            final(self)@ == polled(old(self)@, waker),
            r.answer() == poll_answer(old(self)@),
    {
        if self.ready {
            match &self.file_data {
                Some(Ok(bytes)) => {
                    let copy = bytes.clone();
                    assert(copy@ =~= bytes@);
                    ReadPoll::Ready(Ok(copy))
                },
                Some(Err(e)) => ReadPoll::Ready(Err(*e)),
                None => ReadPoll::Pending,
            }
        } else {
            self.waker = Some(waker);
            ReadPoll::Pending
        }
    }

    /// Records the outcome of the read and hands back the notifier to wake.
    /// Only the first outcome is kept: on a finished cell this changes
    /// nothing and returns `None`.
    pub fn complete(&mut self, outcome: Result<Vec<u8>, ReadFailure>) -> (r: Option<W>)
        requires
            old(self).wf(),
        ensures
            final(self).wf(),
            final(self)@ == completed(old(self)@, outcome_view(outcome)),
            r == completion_notifier(old(self)@),
    {
        if self.ready {
            None
        } else {
            self.file_data = Some(outcome);
            self.ready = true;
            self.waker.take()
        }
    }
}

} // verus!
