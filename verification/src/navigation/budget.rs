//! Path-planning budget: how many requests a frame takes, whether they are
//! planned serially, and what becomes of a request once its search is done.
use vstd::prelude::*;

verus! {

/// Below this many requests the planner stays serial: spawning tasks costs
/// more than the searches themselves.
pub const SERIAL_PATH_THRESHOLD: usize = 16;
/// Requests planned per frame at most.
pub const PATHS_PER_FRAME: usize = 128;

/// Requests taken this frame out of `pending`, in their order.
pub fn batch_size(pending: usize) -> (r: usize)
    ensures
        r == if pending < PATHS_PER_FRAME { pending } else { PATHS_PER_FRAME },
{
    if pending < PATHS_PER_FRAME {
        pending
    } else {
        PATHS_PER_FRAME
    }
}

/// Whether a batch of `batch` requests is planned on the calling thread.
pub fn plans_serially(batch: usize) -> (r: bool)
    ensures
        r == (batch < SERIAL_PATH_THRESHOLD),
{
    batch < SERIAL_PATH_THRESHOLD
}

/// What happens to one request after its search.
#[derive(Clone, Copy, Debug, PartialEq, Eq, Structural)]
pub enum PlanOutcome {
    /// A route was found and is handed to the unit.
    Routed,
    /// No route, but only because the start sits in an obstacle margin
    /// while the goal fits the hull: the order stays pending and a later
    /// frame tries again.
    Retry,
    /// No route for good: the move order is dropped and counted.
    Dropped,
}

/// Decides a request's fate from its search result and the clearance
/// probes of its goal and start.
pub fn plan_outcome(found: bool, goal_clear: bool, start_clear: bool, start_walkable: bool) -> (r:
    PlanOutcome)
    ensures
        found ==> r == PlanOutcome::Routed,
        !found && goal_clear && (!start_clear || !start_walkable) ==> r == PlanOutcome::Retry,
        !found && !(goal_clear && (!start_clear || !start_walkable)) ==> r == PlanOutcome::Dropped,
{
    if found {
        PlanOutcome::Routed
    } else if goal_clear && (!start_clear || !start_walkable) {
        PlanOutcome::Retry
    } else {
        PlanOutcome::Dropped
    }
}

/// Planner counters (the frame timing is kept by the engine side).
#[derive(Clone, Copy, Debug, PartialEq, Eq, Structural)]
pub struct NavigationStats {
    /// Routes handed out since start.
    pub planned: usize,
    /// Requests dropped since start.
    pub failed: usize,
    /// Requests taken in the last frame.
    pub last_planned: usize,
}

impl Default for NavigationStats {
    fn default() -> (r: Self)
        ensures
            r == (NavigationStats { planned: 0, failed: 0, last_planned: 0 }),
    {
        NavigationStats { planned: 0, failed: 0, last_planned: 0 }
    }
}

/// Number of entries of `outcomes` equal to `o`.
pub open spec fn count_outcome(outcomes: Seq<PlanOutcome>, o: PlanOutcome) -> nat
    decreases outcomes.len(),
{
    if outcomes.len() == 0 {
        0
    } else {
        count_outcome(outcomes.drop_last(), o) + if outcomes.last() == o {
            1nat
        } else {
            0nat
        }
    }
}

proof fn lemma_count_bounded(outcomes: Seq<PlanOutcome>, o: PlanOutcome)
    ensures
        count_outcome(outcomes, o) <= outcomes.len(),
    decreases outcomes.len(),
{
    if outcomes.len() > 0 {
        lemma_count_bounded(outcomes.drop_last(), o);
    }
}

impl NavigationStats {
    /// Records one frame: `outcomes` holds the fate of each request taken,
    /// in order.
    pub fn record_frame(&mut self, outcomes: &Vec<PlanOutcome>)
        requires
            old(self).planned + outcomes@.len() <= usize::MAX,
            old(self).failed + outcomes@.len() <= usize::MAX,
        ensures
            final(self).last_planned == outcomes@.len(),
            final(self).planned == old(self).planned + count_outcome(outcomes@, PlanOutcome::Routed),
            final(self).failed == old(self).failed + count_outcome(outcomes@, PlanOutcome::Dropped),
    {
        self.last_planned = outcomes.len();
        let ghost planned0 = self.planned;
        let ghost failed0 = self.failed;
        let mut i: usize = 0;
        while i < outcomes.len()
            invariant
                i <= outcomes@.len(),
                planned0 + outcomes@.len() <= usize::MAX,
                failed0 + outcomes@.len() <= usize::MAX,
                self.last_planned == outcomes@.len(),
                self.planned == planned0 + count_outcome(outcomes@.take(i as int), PlanOutcome::Routed),
                self.failed == failed0 + count_outcome(outcomes@.take(i as int), PlanOutcome::Dropped),
            decreases outcomes@.len() - i,
        {
            proof {
                assert(outcomes@.take(i + 1).drop_last() =~= outcomes@.take(i as int));
                lemma_count_bounded(outcomes@.take(i as int), PlanOutcome::Routed);
                lemma_count_bounded(outcomes@.take(i as int), PlanOutcome::Dropped);
            }
            match outcomes[i] {
                PlanOutcome::Routed => {
                    self.planned = self.planned + 1;
                },
                PlanOutcome::Dropped => {
                    self.failed = self.failed + 1;
                },
                PlanOutcome::Retry => {},
            }
            i = i + 1;
        }
        assert(outcomes@.take(i as int) =~= outcomes@);
    }
}

} // verus!
