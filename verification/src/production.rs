//! Factory queues and the retry rhythm of a blocked exit.
//!
//! The queued work item (`P`, the construction project) and the rally point
//! (`R`) are carried through untouched: what the rules read are the kinds,
//! tiers, counters and flags.
use crate::economy::balance::MAX_QUEUE;
use crate::units::archetype::{spec_tier, UnitKind};
use std::collections::VecDeque;
use vstd::prelude::*;

verus! {

/// Ready ticks a blocked factory waits between exit probes (about one
/// second at the 20 Hz economy tick).
pub const BLOCKED_RETRY_TICKS: u8 = 20;

/// A queued unit and its construction project.
pub struct Job<P> {
    pub kind: UnitKind,
    pub project: P,
}

/// A factory: its queue, rally point and blocked-exit bookkeeping.
pub struct Factory<P, R> {
    pub queue: VecDeque<Job<P>>,
    pub rally: Option<R>,
    pub blocked: bool,
    pub tier: u8,
    /// Ready ticks left before the next exit probe while blocked.
    pub retry_in: u8,
    /// Rally point at the last failed probe; `None` until the first block.
    pub retry_rally: Option<R>,
}

/// Whether a factory of `tier` with `len` jobs queued accepts `kind`: the
/// unique Commander is never queued, tier-2 kinds need a tier-2 factory, and
/// the queue is capped.
pub open spec fn accepts(tier: u8, len: nat, kind: UnitKind) -> bool {
    kind != UnitKind::Commander && spec_tier(kind) <= tier && len < MAX_QUEUE
}

/// What one ready tick decides for a factory whose front job is complete.
#[derive(Clone, Copy, Debug, PartialEq, Eq, Structural)]
pub enum ExitStep {
    /// Still cooling down after a failed probe: no search this tick.
    Wait,
    /// Look for a free exit now.
    Probe,
}

impl<P, R> Default for Factory<P, R> {
    fn default() -> (r: Self)
        ensures
            r.queue@.len() == 0,
            r.rally is None,
            !r.blocked,
            r.tier == 1,
            r.retry_in == 0,
            r.retry_rally is None,
    {
        Factory {
            queue: VecDeque::new(),
            rally: None,
            blocked: false,
            tier: 1,
            retry_in: 0,
            retry_rally: None,
        }
    }
}

impl<P, R: Copy> Factory<P, R> {
    /// Queues `kind` with its project when the factory accepts it.
    pub fn enqueue(&mut self, kind: UnitKind, project: P) -> (r: bool)
        ensures
            r == accepts(old(self).tier, old(self).queue@.len(), kind),
            r ==> final(self).queue@ == old(self).queue@.push(Job { kind, project }),
            !r ==> final(self).queue@ == old(self).queue@,
            final(self).tier == old(self).tier,
            final(self).blocked == old(self).blocked,
            final(self).retry_in == old(self).retry_in,
            final(self).rally == old(self).rally,
            final(self).retry_rally == old(self).retry_rally,
    {
        if kind.is_commander() {
            return false;
        }
        if kind.tier() > self.tier {
            return false;
        }
        if self.queue.len() >= MAX_QUEUE {
            return false;
        }
        self.queue.push_back(Job { kind, project });
        true
    }

    /// Drops the job at `index` (nothing when out of range; no refund).
    /// Cancelling the front job clears the blocked state.
    pub fn cancel(&mut self, index: usize)
        ensures
            index < old(self).queue@.len() ==> final(self).queue@ == old(self).queue@.remove(
                index as int,
            ),
            index >= old(self).queue@.len() ==> final(self).queue@ == old(self).queue@,
            index == 0 ==> !final(self).blocked && final(self).retry_in == 0,
            index != 0 ==> final(self).blocked == old(self).blocked && final(self).retry_in == old(self).retry_in,
            final(self).tier == old(self).tier,
            final(self).rally == old(self).rally,
            final(self).retry_rally == old(self).retry_rally,
    {
        let _ = self.queue.remove(index);
        if index == 0 {
            self.blocked = false;
            self.retry_in = 0;
        }
    }

    /// One ready tick: a blocked factory whose rally has not moved since the
    /// failed probe waits out its cooldown; otherwise it probes. A rally
    /// change bypasses the wait.
    pub fn exit_tick(&mut self, rally_unchanged: bool) -> (r: ExitStep)
        ensures
            (old(self).blocked && rally_unchanged && old(self).retry_in > 0) ==> r == ExitStep::Wait
                && final(self).retry_in == old(self).retry_in - 1,
            !(old(self).blocked && rally_unchanged && old(self).retry_in > 0) ==> r
                == ExitStep::Probe && final(self).retry_in == old(self).retry_in,
            final(self).queue@ == old(self).queue@,
            final(self).blocked == old(self).blocked,
            final(self).tier == old(self).tier,
            final(self).rally == old(self).rally,
            final(self).retry_rally == old(self).retry_rally,
    {
        if self.blocked && rally_unchanged && self.retry_in > 0 {
            self.retry_in = self.retry_in - 1;
            ExitStep::Wait
        } else {
            ExitStep::Probe
        }
    }

    /// Whether this factory makes an exit probe this tick: its front job is
    /// `ready` and it is not waiting out a blocked cooldown. When no live
    /// factory needs one, the engine skips gathering occupancy entirely.
    pub fn needs_probe(&self, ready: bool, rally_unchanged: bool) -> (r: bool)
        ensures
            r == (ready && !(self.blocked && rally_unchanged && self.retry_in > 0)),
    {
        ready && !(self.blocked && rally_unchanged && self.retry_in > 0)
    }

    /// Outcome of a probe. Without an exit the factory blocks, keeps its
    /// product, remembers the rally and waits [`BLOCKED_RETRY_TICKS`] ready
    /// ticks; with one, the front job leaves the queue and the factory
    /// unblocks.
    pub fn probe_result(&mut self, exit_found: bool) -> (r: Option<Job<P>>)
        ensures
            !exit_found ==> r is None && final(self).queue@ == old(self).queue@ && final(self).blocked
                && final(self).retry_in == BLOCKED_RETRY_TICKS && final(self).retry_rally == old(self).rally,
            exit_found && old(self).queue@.len() > 0 ==> r == Some(old(self).queue@[0]) && final(self).queue@ == old(self).queue@.drop_first(),
            exit_found && old(self).queue@.len() == 0 ==> r is None && final(self).queue@ == old(self).queue@,
            exit_found ==> !final(self).blocked && final(self).retry_in == 0 && final(self).retry_rally is None,
            final(self).tier == old(self).tier,
            final(self).rally == old(self).rally,
    {
        if !exit_found {
            self.blocked = true;
            self.retry_in = BLOCKED_RETRY_TICKS;
            self.retry_rally = self.rally;
            return None;
        }
        let job = self.queue.pop_front();
        self.blocked = false;
        self.retry_in = 0;
        self.retry_rally = None;
        job
    }
}

/// The queue never grows past its cap and never holds a Commander: both
/// hold after any enqueue that starts from a queue satisfying them.
pub proof fn queue_stays_capped_and_commander_free<P>(
    tier: u8,
    q: Seq<Job<P>>,
    kind: UnitKind,
    project: P,
)
    requires
        q.len() <= MAX_QUEUE,
        forall|i: int| 0 <= i < q.len() ==> (#[trigger] q[i]).kind != UnitKind::Commander,
    ensures
        ({
            let next = if accepts(tier, q.len(), kind) { q.push(Job { kind, project }) } else { q };
            &&& next.len() <= MAX_QUEUE
            &&& forall|i: int| 0 <= i < next.len() ==> (#[trigger] next[i]).kind != UnitKind::Commander
        }),
{
}

/// A tier-1 factory never accepts a tier-2 kind.
pub proof fn tier_gate(len: nat, kind: UnitKind)
    requires
        spec_tier(kind) == 2,
    ensures
        !accepts(1, len, kind),
{
}

} // verus!
