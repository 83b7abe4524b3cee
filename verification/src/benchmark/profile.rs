//! Opt-in per-system-set profiler for benchmark runs.
//!
//! Marker systems open and close named spans around the simulation sets;
//! the profile keeps the open spans as a stack and accumulates, per label,
//! the total time and the number of closed spans. Times are monotonic clock
//! readings in nanoseconds taken by the caller. A close with no matching
//! open span is ignored.
use crate::text::str_equals;
use vstd::prelude::*;

verus! {

/// Mathematical view of a profile.
pub struct ProfileView {
    /// Open spans, oldest first: label and start time.
    pub open: Seq<(Seq<char>, u64)>,
    /// Per label, in first-close order: label, total nanoseconds, spans.
    pub totals: Seq<(Seq<char>, u64, u64)>,
}

/// Per-label span accounting.
pub struct SystemProfile {
    open: Vec<(&'static str, u64)>,
    totals: Vec<(&'static str, u64, u64)>,
}

pub open spec fn open_view(s: Seq<(&'static str, u64)>) -> Seq<(Seq<char>, u64)> {
    s.map_values(|e: (&'static str, u64)| (e.0@, e.1))
}

pub open spec fn totals_view(s: Seq<(&'static str, u64, u64)>) -> Seq<(Seq<char>, u64, u64)> {
    s.map_values(|e: (&'static str, u64, u64)| (e.0@, e.1, e.2))
}

impl View for SystemProfile {
    type V = ProfileView;

    closed spec fn view(&self) -> ProfileView {
        ProfileView { open: open_view(self.open@), totals: totals_view(self.totals@) }
    }
}

/// Index of the most recently opened span named `label`.
pub open spec fn last_open(open: Seq<(Seq<char>, u64)>, label: Seq<char>) -> Option<int>
    decreases open.len(),
{
    if open.len() == 0 {
        None
    } else if open.last().0 == label {
        Some(open.len() - 1)
    } else {
        last_open(open.drop_last(), label)
    }
}

/// Index of the totals entry for `label`.
pub open spec fn total_index(totals: Seq<(Seq<char>, u64, u64)>, label: Seq<char>) -> Option<int>
    decreases totals.len(),
{
    if totals.len() == 0 {
        None
    } else {
        match total_index(totals.drop_last(), label) {
            Some(i) => Some(i),
            None => if totals.last().0 == label {
                Some(totals.len() - 1)
            } else {
                None
            },
        }
    }
}

/// Totals after adding one span of `elapsed` nanoseconds to `label`.
pub open spec fn spec_account(
    totals: Seq<(Seq<char>, u64, u64)>,
    label: Seq<char>,
    elapsed: u64,
) -> Seq<(Seq<char>, u64, u64)> {
    match total_index(totals, label) {
        Some(j) => totals.update(
            j,
            (label, totals[j].1.saturating_add(elapsed), totals[j].2.saturating_add(1)),
        ),
        None => totals.push((label, elapsed, 1)),
    }
}

/// The profile after closing the latest open span named `label` at time
/// `now`; unchanged when there is none.
pub open spec fn spec_close(v: ProfileView, label: Seq<char>, now: u64) -> ProfileView {
    match last_open(v.open, label) {
        None => v,
        Some(i) => ProfileView {
            open: v.open.remove(i),
            totals: spec_account(v.totals, label, now.saturating_sub(v.open[i].1)),
        },
    }
}

proof fn lemma_last_open_bounds(open: Seq<(Seq<char>, u64)>, label: Seq<char>)
    ensures
        last_open(open, label) matches Some(i) ==> 0 <= i < open.len() && open[i].0 == label,
        last_open(open, label) matches Some(i) ==> forall|k: int|
            i < k < open.len() ==> #[trigger] open[k].0 != label,
        last_open(open, label) is None ==> forall|k: int|
            0 <= k < open.len() ==> #[trigger] open[k].0 != label,
    decreases open.len(),
{
    if open.len() > 0 {
        let d = open.drop_last();
        lemma_last_open_bounds(d, label);
        if open.last().0 != label {
            if let Some(i) = last_open(d, label) {
                assert(open[i] == d[i]);
                assert forall|k: int| i < k < open.len() implies #[trigger] open[k].0 != label by {
                    if k < open.len() - 1 {
                        assert(open[k] == d[k]);
                    }
                }
            } else {
                assert forall|k: int| 0 <= k < open.len() implies #[trigger] open[k].0 != label by {
                    if k < open.len() - 1 {
                        assert(open[k] == d[k]);
                    }
                }
            }
        }
    }
}

proof fn lemma_total_index_bounds(totals: Seq<(Seq<char>, u64, u64)>, label: Seq<char>)
    ensures
        total_index(totals, label) matches Some(j) ==> 0 <= j < totals.len() && totals[j].0
            == label,
        total_index(totals, label) matches Some(j) ==> forall|k: int|
            0 <= k < j ==> #[trigger] totals[k].0 != label,
        total_index(totals, label) is None ==> forall|k: int|
            0 <= k < totals.len() ==> #[trigger] totals[k].0 != label,
    decreases totals.len(),
{
    if totals.len() > 0 {
        let d = totals.drop_last();
        lemma_total_index_bounds(d, label);
        if let Some(j) = total_index(d, label) {
            assert(totals[j] == d[j]);
            assert forall|k: int| 0 <= k < j implies #[trigger] totals[k].0 != label by {
                assert(totals[k] == d[k]);
            }
        } else {
            assert forall|k: int| 0 <= k < totals.len() - 1 implies #[trigger] totals[k].0 != label by {
                assert(totals[k] == d[k]);
            }
        }
    }
}

/// The latest `i` with the label is the one `last_open` names.
proof fn lemma_last_open_is(open: Seq<(Seq<char>, u64)>, label: Seq<char>, i: int)
    requires
        0 <= i < open.len(),
        open[i].0 == label,
        forall|k: int| i < k < open.len() ==> #[trigger] open[k].0 != label,
    ensures
        last_open(open, label) == Some(i),
    decreases open.len(),
{
    if i < open.len() - 1 {
        assert(open.drop_last()[i] == open[i]);
        lemma_last_open_is(open.drop_last(), label, i);
    }
}

proof fn lemma_total_index_is(totals: Seq<(Seq<char>, u64, u64)>, label: Seq<char>, j: int)
    requires
        0 <= j < totals.len(),
        totals[j].0 == label,
        forall|k: int| 0 <= k < j ==> #[trigger] totals[k].0 != label,
    ensures
        total_index(totals, label) == Some(j),
    decreases totals.len(),
{
    if j < totals.len() - 1 {
        assert(totals.drop_last()[j] == totals[j]);
        lemma_total_index_is(totals.drop_last(), label, j);
    } else {
        lemma_total_index_bounds(totals.drop_last(), label);
        if let Some(m) = total_index(totals.drop_last(), label) {
            assert(totals[m].0 == label);
        }
    }
}

proof fn lemma_last_open_none(open: Seq<(Seq<char>, u64)>, label: Seq<char>)
    requires
        forall|k: int| 0 <= k < open.len() ==> #[trigger] open[k].0 != label,
    ensures
        last_open(open, label) is None,
    decreases open.len(),
{
    if open.len() > 0 {
        assert(open.last().0 != label);
        lemma_last_open_none(open.drop_last(), label);
    }
}

proof fn lemma_total_index_none(totals: Seq<(Seq<char>, u64, u64)>, label: Seq<char>)
    requires
        forall|k: int| 0 <= k < totals.len() ==> #[trigger] totals[k].0 != label,
    ensures
        total_index(totals, label) is None,
    decreases totals.len(),
{
    if totals.len() > 0 {
        assert(totals.last().0 != label);
        lemma_total_index_none(totals.drop_last(), label);
    }
}

impl Default for SystemProfile {
    fn default() -> (r: Self)
        ensures
            r@.open.len() == 0,
            r@.totals.len() == 0,
    {
        SystemProfile { open: Vec::new(), totals: Vec::new() }
    }
}

impl SystemProfile {
    /// Opens a span named `label` at time `now`.
    pub fn open(&mut self, label: &'static str, now: u64)
        ensures
            final(self)@.open == old(self)@.open.push((label@, now)),
            final(self)@.totals == old(self)@.totals,
    {
        self.open.push((label, now));
        proof {
            assert(open_view(self.open@) =~= open_view(old(self).open@).push((label@, now)));
        }
    }

    /// Closes the latest open span named `label` at time `now` and adds its
    /// duration to the label's total; a close with no matching open span
    /// changes nothing.
    pub fn close(&mut self, label: &'static str, now: u64)
        ensures
            final(self)@ == spec_close(old(self)@, label@, now),
    {
        let ghost v = self@;
        let mut i: usize = self.open.len();
        while i > 0
            invariant
                i <= self.open@.len(),
                self@ == v,
                forall|k: int| i <= k < v.open.len() ==> #[trigger] v.open[k].0 != label@,
            ensures
                i == 0 || v.open[i - 1].0 == label@,
            decreases i,
        {
            proof {
                assert(v.open[i - 1].0 == self.open@[i - 1].0@);
            }
            if str_equals(self.open[i - 1].0, label) {
                break;
            }
            i = i - 1;
        }
        if i == 0 {
            proof {
                lemma_last_open_none(v.open, label@);
            }
            return;
        }
        let index = i - 1;
        proof {
            assert(v.open[index as int].0 == self.open@[index as int].0@);
            lemma_last_open_is(v.open, label@, index as int);
        }
        let (_, start) = self.open.remove(index);
        let elapsed = now.saturating_sub(start);
        proof {
            assert(open_view(self.open@) =~= v.open.remove(index as int));
        }
        let mut j: usize = 0;
        while j < self.totals.len()
            invariant
                j <= self.totals@.len(),
                totals_view(self.totals@) == v.totals,
                forall|k: int| 0 <= k < j ==> #[trigger] v.totals[k].0 != label@,
            ensures
                j == self.totals@.len() || v.totals[j as int].0 == label@,
            decreases self.totals@.len() - j,
        {
            proof {
                assert(v.totals[j as int].0 == self.totals@[j as int].0@);
            }
            if str_equals(self.totals[j].0, label) {
                break;
            }
            j = j + 1;
        }
        if j < self.totals.len() {
            let (name, total, calls) = self.totals[j];
            proof {
                assert(v.totals[j as int].0 == name@);
                lemma_total_index_is(v.totals, label@, j as int);
            }
            self.totals.set(j, (name, total.saturating_add(elapsed), calls.saturating_add(1)));
            proof {
                assert(totals_view(self.totals@) =~= spec_account(v.totals, label@, elapsed));
            }
        } else {
            proof {
                lemma_total_index_none(v.totals, label@);
            }
            self.totals.push((label, elapsed, 1));
            proof {
                assert(totals_view(self.totals@) =~= spec_account(v.totals, label@, elapsed));
            }
        }
    }

    /// Mean nanoseconds per closed span, per label in first-close order
    /// (a label is listed only once a span of it has closed).
    pub fn means(&self) -> (r: Vec<(&'static str, u64)>)
        ensures
            r@.len() == self@.totals.len(),
            forall|k: int|
                0 <= k < r@.len() ==> (#[trigger] r@[k]).0@ == self@.totals[k].0 && r@[k].1
                    == self@.totals[k].1 / (if self@.totals[k].2 == 0 {
                    1
                } else {
                    self@.totals[k].2
                }),
    {
        let mut out: Vec<(&'static str, u64)> = Vec::new();
        let mut k: usize = 0;
        while k < self.totals.len()
            invariant
                k <= self.totals@.len(),
                out@.len() == k,
                forall|m: int|
                    0 <= m < k ==> (#[trigger] out@[m]).0@ == self@.totals[m].0 && out@[m].1
                        == self@.totals[m].1 / (if self@.totals[m].2 == 0 {
                        1
                    } else {
                        self@.totals[m].2
                    }),
            decreases self.totals@.len() - k,
        {
            let (label, total, calls) = self.totals[k];
            let divisor = if calls == 0 {
                1
            } else {
                calls
            };
            out.push((label, total / divisor));
            k = k + 1;
        }
        out
    }
}

/// A close with no open span of its label leaves the profile unchanged.
pub proof fn stray_close_is_ignored(v: ProfileView, label: Seq<char>, now: u64)
    requires
        forall|k: int| 0 <= k < v.open.len() ==> #[trigger] v.open[k].0 != label,
    ensures
        spec_close(v, label, now) == v,
{
    lemma_last_open_none(v.open, label);
}

/// Opening and then closing a span of a label already measured (its entry
/// is `j`) adds one
/// span to that label's count and the span's duration to its total, and
/// leaves the other open spans as they were.
pub proof fn spans_accumulate(v: ProfileView, label: Seq<char>, start: u64, now: u64, j: int)
    requires
        0 <= j < v.totals.len(),
        v.totals[j].0 == label,
        forall|k: int| 0 <= k < j ==> #[trigger] v.totals[k].0 != label,
    ensures
        ({
            let after = spec_close(ProfileView { open: v.open.push((label, start)), totals: v.totals }, label, now);
            &&& after.open == v.open
            &&& after.totals[j].1 == v.totals[j].1.saturating_add(now.saturating_sub(start))
            &&& after.totals[j].2 == v.totals[j].2.saturating_add(1)
            &&& after.totals.len() == v.totals.len()
        }),
{
    let opened = v.open.push((label, start));
    lemma_last_open_is(opened, label, v.open.len() as int);
    assert(opened.remove(v.open.len() as int) =~= v.open);
    lemma_total_index_is(v.totals, label, j);
}

} // verus!
