//! The budget that bounds a drain, and when its clock starts.

use crate::duration;
use crate::duration::Duration;
use vstd::prelude::*;

verus! {

/// The longest a drain may take before the process gives up and ends anyway, in
/// seconds.
///
/// **A CONSTANT rather than a setting**, deliberately. It has to outlast the
/// slowest legitimate call, and it has to expire, with five seconds left to log
/// the outcome and exit, before the grace period of a drain that was asked for
/// from outside. A deployment that lowers the grace period below thirty seconds
/// has to lower this with it.
pub const DRAIN_BUDGET: u64 = 25;

/// The longest a drain may take before the process gives up and ends anyway.
pub fn drain_budget() -> (budget: Duration)
    ensures
        budget@ == duration::seconds(DRAIN_BUDGET as int),
{
    Duration::from_secs(DRAIN_BUDGET)
}

/// The seconds a process needs to log the outcome of a drain and exit.
pub open spec fn exit_margin() -> nat {
    duration::seconds(5)
}

/// The grace period a process is given where a deployment states none.
pub open spec fn default_grace() -> nat {
    duration::seconds(30)
}

/// The budget and the margin to log and exit fit inside the default grace
/// period.
pub proof fn the_budget_and_its_margin_fit_inside_the_default_grace()
    ensures
        duration::seconds(DRAIN_BUDGET as int) + exit_margin() <= default_grace(),
{
}

/// What became of a drain.
#[derive(Debug)]
pub enum Drain<T> {
    /// The server stopped within its budget. Carries whatever it returned.
    Finished(T),
    /// The budget expired with work still in flight, and the caller should end
    /// the process anyway.
    Overran,
}

/// Something a drain is told.
#[derive(Debug)]
pub enum Occurrence<T> {
    /// Something asked for the server to stop.
    StopRequested,
    /// The server was asked to stop, whether or not it was there to hear it.
    Asked,
    /// The server ended, and returned this.
    Ended(T),
    /// The budget's clock ran out.
    Expired,
}

/// What to do until the next occurrence.
#[derive(Clone, Copy, Debug, PartialEq, Eq)]
pub enum Act {
    /// Wait for something to ask for the server to stop. No clock runs.
    AwaitStop,
    /// Ask the server to stop. No clock runs.
    AskToStop,
    /// Start a clock of this length, and wait for the server to end or the clock
    /// to run out.
    AwaitEnd(Duration),
    /// Nothing: the drain is over.
    Finish,
}

/// [`Act`], as plain values: spans in nanoseconds.
pub enum ActView {
    AwaitStop,
    AskToStop,
    AwaitEnd(nat),
    Finish,
}

impl View for Act {
    type V = ActView;

    open spec fn view(&self) -> ActView {
        match *self {
            Act::AwaitStop => ActView::AwaitStop,
            Act::AskToStop => ActView::AskToStop,
            Act::AwaitEnd(span) => ActView::AwaitEnd(span@),
            Act::Finish => ActView::Finish,
        }
    }
}

/// Where a drain is. A server that ended on its own is kept with what it
/// returned until the drain is asked for.
#[derive(Debug)]
pub enum Stage<T> {
    /// Nothing has asked for the server to stop.
    Serving(Option<T>),
    /// The server is about to be asked to stop.
    Asking(Option<T>),
    /// The server was asked to stop, and the clock runs.
    Stopping,
    /// The drain is over, and this is what became of it.
    Over(Drain<T>),
}

/// [`Draining`], as plain values: the budget in nanoseconds.
pub struct DrainingView<T> {
    pub budget: nat,
    pub stage: Stage<T>,
}

/// What a server returned first, given what it returned before and what it
/// returned now.
pub open spec fn first_returned<T>(before: Option<T>, now: T) -> Option<T> {
    match before {
        Some(returned) => Some(returned),
        None => Some(now),
    }
}

impl<T> DrainingView<T> {
    /// A drain of a server that serves.
    pub open spec fn within(budget: nat) -> Self {
        DrainingView { budget, stage: Stage::Serving(None) }
    }

    /// What a drain in this state has its caller do.
    pub open spec fn act(self) -> ActView {
        match self.stage {
            Stage::Serving(_) => ActView::AwaitStop,
            Stage::Asking(_) => ActView::AskToStop,
            Stage::Stopping => ActView::AwaitEnd(self.budget),
            Stage::Over(_) => ActView::Finish,
        }
    }

    /// The state after an occurrence.
    ///
    /// Until the server was asked to stop, no clock is looked at. Every stop
    /// that was requested is handed on to the server, though it may have ended
    /// on its own by then; a server that did is drained as soon as it was asked,
    /// with what it returned. Otherwise the first of the two that occurs from
    /// then on, the server's end or the clock's, decides.
    pub open spec fn after(self, occurrence: Occurrence<T>) -> Self {
        DrainingView {
            stage: match (self.stage, occurrence) {
                (Stage::Serving(ended), Occurrence::StopRequested) => Stage::Asking(ended),
                (Stage::Serving(ended), Occurrence::Ended(returned)) => Stage::Serving(
                    first_returned(ended, returned),
                ),
                (Stage::Asking(ended), Occurrence::Ended(returned)) => Stage::Asking(
                    first_returned(ended, returned),
                ),
                (Stage::Asking(Some(returned)), Occurrence::Asked) => Stage::Over(
                    Drain::Finished(returned),
                ),
                (Stage::Asking(None), Occurrence::Asked) => Stage::Stopping,
                (Stage::Stopping, Occurrence::Ended(returned)) => Stage::Over(
                    Drain::Finished(returned),
                ),
                (Stage::Stopping, Occurrence::Expired) => Stage::Over(Drain::Overran),
                (stage, _) => stage,
            },
            ..self
        }
    }

    /// The state after each of a list of occurrences, in order.
    pub open spec fn after_all(self, occurrences: Seq<Occurrence<T>>) -> Self
        decreases occurrences.len(),
    {
        if occurrences.len() == 0 {
            self
        } else {
            self.after_all(occurrences.drop_last()).after(occurrences.last())
        }
    }
}

/// A drain: a wait for a stop, a server asked to shut down, and a budget for it
/// to finish in.
///
/// **THE CLOCK STARTS WHEN SHUTDOWN IS REQUESTED, AND THAT IS THE WHOLE POINT OF
/// THIS TYPE EXISTING.** A clock started any earlier bounds the SERVER'S WHOLE
/// LIFE rather than its drain.
///
/// **`Overran` is not a reason to fail.** The caller logs and exits 0: the
/// restart is the point.
#[derive(Debug)]
pub struct Draining<T> {
    budget: Duration,
    stage: Stage<T>,
}

impl<T> View for Draining<T> {
    type V = DrainingView<T>;

    closed spec fn view(&self) -> DrainingView<T> {
        DrainingView { budget: self.budget@, stage: self.stage }
    }
}

/// What a server returned first.
fn first<T>(before: Option<T>, now: T) -> (returned: Option<T>)
    ensures
        returned == first_returned(before, now),
{
    match before {
        Some(returned) => Some(returned),
        None => Some(now),
    }
}

impl<T> Draining<T> {
    /// A drain of a server that serves.
    pub fn within(budget: Duration) -> (draining: Self)
        ensures
            draining@ == DrainingView::<T>::within(budget@),
    {
        Draining { budget, stage: Stage::Serving(None) }
    }

    /// What to do until the next occurrence.
    pub fn act(&self) -> (act: Act)
        ensures
            act@ == self@.act(),
    {
        match &self.stage {
            Stage::Serving(_) => Act::AwaitStop,
            Stage::Asking(_) => Act::AskToStop,
            Stage::Stopping => Act::AwaitEnd(self.budget),
            Stage::Over(_) => Act::Finish,
        }
    }

    /// Take in what occurred.
    pub fn observe(self, occurrence: Occurrence<T>) -> (draining: Self)
        ensures
            draining@ == self@.after(occurrence),
    {
        let stage: Stage<T> = match self.stage {
            Stage::Serving(ended) => match occurrence {
                Occurrence::StopRequested => Stage::Asking(ended),
                Occurrence::Ended(returned) => Stage::Serving(first(ended, returned)),
                _ => Stage::Serving(ended),
            },
            Stage::Asking(ended) => match occurrence {
                Occurrence::Asked => match ended {
                    Some(returned) => Stage::Over(Drain::Finished(returned)),
                    None => Stage::Stopping,
                },
                Occurrence::Ended(returned) => Stage::Asking(first(ended, returned)),
                _ => Stage::Asking(ended),
            },
            Stage::Stopping => match occurrence {
                Occurrence::Ended(returned) => Stage::Over(Drain::Finished(returned)),
                Occurrence::Expired => Stage::Over(Drain::Overran),
                _ => Stage::Stopping,
            },
            Stage::Over(outcome) => Stage::Over(outcome),
        };
        Draining { budget: self.budget, stage }
    }

    /// What became of the drain, where it is over.
    pub fn outcome(self) -> (outcome: Option<Drain<T>>)
        ensures
            match outcome {
                Some(outcome) => self@.stage == Stage::Over(outcome),
                None => !(self@.stage is Over),
            },
    {
        match self.stage {
            Stage::Over(outcome) => Some(outcome),
            _ => None,
        }
    }
}

/// **The budget does not run until something asks for the server to stop.**
/// However much else occurs first, a drain that was not asked for still waits to
/// be.
pub proof fn no_clock_runs_before_the_stop<T>(budget: nat, occurrences: Seq<Occurrence<T>>)
    requires
        forall|i: int|
            0 <= i < occurrences.len() ==> !((#[trigger] occurrences[i]) is StopRequested),
    ensures
        DrainingView::<T>::within(budget).after_all(occurrences).act() == ActView::AwaitStop,
    decreases occurrences.len(),
{
    if occurrences.len() > 0 {
        let before = occurrences.drop_last();
        assert(forall|i: int| 0 <= i < before.len() ==> before[i] == occurrences[i]);
        no_clock_runs_before_the_stop(budget, before);
        assert(occurrences.last() == occurrences[occurrences.len() - 1]);
    }
}

/// **Every stop is handed on.** A drain that waits for a stop and gets one has
/// the server asked, whatever the server did on its own before.
pub proof fn every_stop_asks_the_server<T>(state: DrainingView<T>)
    requires
        state.act() == ActView::AwaitStop,
    ensures
        state.after(Occurrence::StopRequested).act() == ActView::AskToStop,
{
}

/// A drain that is over or whose clock runs had the server asked to stop: there
/// is an occurrence that says so, and it came when the drain said to ask.
pub proof fn no_drain_goes_on_unasked<T>(budget: nat, occurrences: Seq<Occurrence<T>>)
    requires
        ({
            let stage = DrainingView::<T>::within(budget).after_all(occurrences).stage;
            stage is Stopping || stage is Over
        }),
    ensures
        exists|i: int|
            0 <= i < occurrences.len() && (#[trigger] occurrences[i]) is Asked
                && DrainingView::<T>::within(budget).after_all(occurrences.take(i)).act()
                == ActView::AskToStop,
    decreases occurrences.len(),
{
    let start = DrainingView::<T>::within(budget);
    if occurrences.len() > 0 {
        let before = occurrences.drop_last();
        let last = occurrences.len() - 1;
        let from = start.after_all(before);
        if from.stage is Stopping || from.stage is Over {
            no_drain_goes_on_unasked(budget, before);
            let i = choose|i: int|
                0 <= i < before.len() && (#[trigger] before[i]) is Asked && start.after_all(
                    before.take(i),
                ).act() == ActView::AskToStop;
            assert(occurrences[i] == before[i]);
            assert(occurrences.take(i) =~= before.take(i));
        } else {
            assert(occurrences.take(last) =~= before);
            assert(occurrences[last] is Asked);
        }
    }
}

/// The clock that starts when a server that still serves was asked to stop is
/// the whole budget, however often a clock ran out before.
pub proof fn the_stop_starts_the_whole_budget<T>(budget: nat, occurrences: Seq<Occurrence<T>>)
    requires
        forall|i: int| 0 <= i < occurrences.len() ==> (#[trigger] occurrences[i]) is Expired,
    ensures
        DrainingView::<T>::within(budget).after_all(occurrences).after(
            Occurrence::StopRequested,
        ).after(Occurrence::Asked).act() == ActView::AwaitEnd(budget),
    decreases occurrences.len(),
{
    if occurrences.len() > 0 {
        let before = occurrences.drop_last();
        assert(forall|i: int| 0 <= i < before.len() ==> before[i] == occurrences[i]);
        the_stop_starts_the_whole_budget(budget, before);
        assert(occurrences.last() == occurrences[occurrences.len() - 1]);
    }
}

/// **A server that ended on its own is not an error.** Whatever occurs between
/// its end and the request, it is drained as soon as it was asked to stop, with
/// what it returned.
pub proof fn a_server_that_ended_on_its_own_is_drained_at_once<T>(
    budget: nat,
    returned: T,
    occurrences: Seq<Occurrence<T>>,
)
    requires
        forall|i: int|
            0 <= i < occurrences.len() ==> !((#[trigger] occurrences[i]) is StopRequested),
    ensures
        DrainingView::<T>::within(budget).after(Occurrence::Ended(returned)).after_all(
            occurrences,
        ).after(Occurrence::StopRequested).after(Occurrence::Asked).stage == Stage::Over(
            Drain::Finished(returned),
        ),
    decreases occurrences.len(),
{
    if occurrences.len() > 0 {
        let before = occurrences.drop_last();
        assert(forall|i: int| 0 <= i < before.len() ==> before[i] == occurrences[i]);
        a_server_that_ended_on_its_own_is_drained_at_once(budget, returned, before);
        assert(occurrences.last() == occurrences[occurrences.len() - 1]);
    }
}

/// Once the clock runs, the drain ends with the server's end or the clock's,
/// whichever occurs first: with what the server returned, or with the budget
/// overrun.
pub proof fn a_drain_that_was_asked_for_ends<T>(
    state: DrainingView<T>,
    occurrence: Occurrence<T>,
)
    requires
        state.stage is Stopping,
        occurrence is Ended || occurrence is Expired,
    ensures
        state.after(occurrence).act() == ActView::Finish,
        occurrence matches Occurrence::Ended(returned) ==> state.after(occurrence).stage
            == Stage::Over(Drain::Finished(returned)),
        occurrence is Expired ==> state.after(occurrence).stage == Stage::Over(Drain::<T>::Overran),
{
}

/// The first thing a server returned is what is kept, and nothing but its end
/// changes that; no clock that runs out before the drain was asked for does
/// anything.
pub proof fn what_a_server_returned_first_is_kept<T>(
    budget: nat,
    ended: Option<T>,
    now: T,
    occurrence: Occurrence<T>,
)
    ensures
        ({
            let serving = DrainingView { budget, stage: Stage::Serving(ended) };
            let asking = DrainingView { budget, stage: Stage::Asking(ended) };
            let kept = if ended is Some {
                ended
            } else {
                Some(now)
            };
            &&& serving.after(Occurrence::Ended(now)).stage == Stage::Serving(kept)
            &&& asking.after(Occurrence::Ended(now)).stage == Stage::Asking(kept)
            &&& occurrence is Expired || occurrence is Asked ==> serving.after(occurrence)
                == serving
            &&& occurrence is Expired || occurrence is StopRequested ==> asking.after(occurrence)
                == asking
            &&& serving.after(Occurrence::StopRequested).stage == Stage::Asking(ended)
        }),
{
}

/// Once the server was asked to stop, it is over at once with what the server
/// had returned by then, where it had; otherwise the clock of the whole budget
/// runs, and no further request restarts it.
pub proof fn being_asked_starts_the_clock_or_ends_the_drain<T>(
    budget: nat,
    returned: T,
    occurrence: Occurrence<T>,
)
    ensures
        ({
            let over = DrainingView { budget, stage: Stage::Asking(Some(returned)) };
            let waiting = DrainingView { budget, stage: Stage::<T>::Asking(None) };
            let stopping = waiting.after(Occurrence::Asked);
            &&& over.after(Occurrence::Asked).stage == Stage::Over(Drain::Finished(returned))
            &&& stopping.stage == Stage::<T>::Stopping
            &&& stopping.act() == ActView::AwaitEnd(budget)
            &&& occurrence is StopRequested || occurrence is Asked ==> stopping.after(occurrence)
                == stopping
        }),
{
}

/// No occurrence changes the budget.
pub proof fn the_budget_stands<T>(state: DrainingView<T>, occurrences: Seq<Occurrence<T>>)
    ensures
        state.after_all(occurrences).budget == state.budget,
    decreases occurrences.len(),
{
    if occurrences.len() > 0 {
        the_budget_stands(state, occurrences.drop_last());
    }
}

/// What a drain has its caller do is what its stage says, and a drain begins
/// with a server that serves.
pub proof fn a_stage_says_what_to_do<T>(state: DrainingView<T>, budget: nat, span: Duration)
    ensures
        DrainingView::<T>::within(budget).budget == budget,
        DrainingView::<T>::within(budget).stage == Stage::<T>::Serving(None),
        state.stage is Serving ==> state.act() == ActView::AwaitStop,
        state.stage is Asking ==> state.act() == ActView::AskToStop,
        state.stage is Stopping ==> state.act() == ActView::AwaitEnd(state.budget),
        state.stage is Over ==> state.act() == ActView::Finish,
        Act::AwaitStop@ == ActView::AwaitStop,
        Act::AskToStop@ == ActView::AskToStop,
        Act::AwaitEnd(span)@ == ActView::AwaitEnd(span@),
        Act::Finish@ == ActView::Finish,
{
}

/// What became of a drain does not change afterwards.
pub proof fn an_outcome_stands<T>(state: DrainingView<T>, occurrences: Seq<Occurrence<T>>)
    requires
        state.stage is Over,
    ensures
        state.after_all(occurrences) == state,
    decreases occurrences.len(),
{
    if occurrences.len() > 0 {
        an_outcome_stands(state, occurrences.drop_last());
    }
}

} // verus!
