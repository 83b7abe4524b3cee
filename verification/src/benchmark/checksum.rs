//! End-of-run checksum of a benchmark world and its repeat check.
//!
//! Each surviving unit contributes its id and the bit patterns of its
//! position, in the order the world lists them; the health of every unit
//! follows, sorted by `(id, bits)` so the entity store's iteration order does
//! not matter. Words are folded with FNV-1a. Repeats of one case must all
//! produce the checksum of the first.
use crate::benchmark::cli::Workload;
use crate::replay::{fnv_round, FNV_OFFSET, FNV_PRIME};
use vstd::prelude::*;
use vstd::relations::{sorted_by, total_ordering};

verus! {

broadcast use vstd::seq_lib::group_to_multiset_ensures;

/// Lexicographic order on `(id, health bits)` pairs.
pub open spec fn pair_le(a: (u32, u32), b: (u32, u32)) -> bool {
    a.0 < b.0 || (a.0 == b.0 && a.1 <= b.1)
}

/// [`pair_le`] as a relation.
pub open spec fn health_order() -> spec_fn((u32, u32), (u32, u32)) -> bool {
    |a: (u32, u32), b: (u32, u32)| pair_le(a, b)
}

/// [`health_order`] is a total order.
pub proof fn lemma_health_order_total()
    ensures
        total_ordering(health_order()),
{
    let r = health_order();
    assert forall|x: (u32, u32), y: (u32, u32)| #[trigger] r(x, y) && #[trigger] r(y, x) implies x
        == y by {
        assert(x.0 == y.0 && x.1 == y.1);
    }
}

/// FNV-1a fold of 64-bit words starting from `h`.
pub open spec fn fold_words(h: u64, words: Seq<u64>) -> u64
    decreases words.len(),
{
    if words.len() == 0 {
        h
    } else {
        fnv_round(fold_words(h, words.drop_last()), words.last())
    }
}

/// Health pairs as words, id first.
pub open spec fn health_words(s: Seq<(u32, u32)>) -> Seq<u64>
    decreases s.len(),
{
    if s.len() == 0 {
        Seq::empty()
    } else {
        health_words(s.drop_last()) + seq![s.last().0 as u64, s.last().1 as u64]
    }
}

/// Checksum of a finished run.
pub open spec fn spec_run_checksum(position_words: Seq<u64>, health: Seq<(u32, u32)>) -> u64 {
    fold_words(FNV_OFFSET, position_words + health_words(health.sort_by(health_order())))
}

/// The health pairs sorted by `(id, bits)`.
pub fn sort_health(health: &Vec<(u32, u32)>) -> (r: Vec<(u32, u32)>)
    ensures
        r@ == health@.sort_by(health_order()),
{
    let mut out: Vec<(u32, u32)> = Vec::new();
    let mut i: usize = 0;
    while i < health.len()
        invariant
            i <= health@.len(),
            sorted_by(out@, health_order()),
            out@.to_multiset() == health@.take(i as int).to_multiset(),
        decreases health@.len() - i,
    {
        let x = health[i];
        let mut p: usize = 0;
        while p < out.len() && (out[p].0 < x.0 || (out[p].0 == x.0 && out[p].1 <= x.1))
            invariant
                p <= out@.len(),
                forall|k: int| 0 <= k < p ==> pair_le(#[trigger] out@[k], x),
            decreases out@.len() - p,
        {
            p = p + 1;
        }
        let ghost before = out@;
        out.insert(p, x);
        proof {
            assert(health@.take(i + 1) =~= health@.take(i as int).push(x));
            let r = health_order();
            assert forall|a: int, b: int| 0 <= a < b < out@.len() implies #[trigger] r(
                out@[a],
                out@[b],
            ) by {
                if b < p {
                    assert(r(before[a], before[b]));
                } else if a > p {
                    assert(r(before[a - 1], before[b - 1]));
                } else if a == p {
                    assert(!pair_le(before[p as int], x));
                    if b - 1 > p {
                        assert(r(before[p as int], before[b - 1]));
                    }
                } else {
                    assert(pair_le(before[a], x));
                }
            }
        }
        i = i + 1;
    }
    proof {
        assert(health@.take(i as int) =~= health@);
        lemma_health_order_total();
        health@.lemma_sort_by_ensures(health_order());
        vstd::seq_lib::lemma_sorted_unique(out@, health@.sort_by(health_order()), health_order());
    }
    out
}

/// FNV-1a fold of `words` from the offset basis.
pub fn fold_checksum(words: &Vec<u64>) -> (r: u64)
    ensures
        r == fold_words(FNV_OFFSET, words@),
{
    let mut h: u64 = FNV_OFFSET;
    let mut i: usize = 0;
    while i < words.len()
        invariant
            i <= words@.len(),
            h == fold_words(FNV_OFFSET, words@.take(i as int)),
        decreases words@.len() - i,
    {
        proof {
            assert(words@.take(i + 1).drop_last() =~= words@.take(i as int));
        }
        h = (h ^ words[i]).wrapping_mul(FNV_PRIME);
        i = i + 1;
    }
    assert(words@.take(i as int) =~= words@);
    h
}

/// Checksum of a finished run: `position_words` holds, per surviving unit in
/// world order, its id and the bits of its x, y and z; `health` holds the
/// id and health bits of every unit.
pub fn run_checksum(position_words: &Vec<u64>, health: &Vec<(u32, u32)>) -> (r: u64)
    ensures
        r == spec_run_checksum(position_words@, health@),
{
    let sorted = sort_health(health);
    let mut words: Vec<u64> = Vec::new();
    let mut i: usize = 0;
    while i < position_words.len()
        invariant
            i <= position_words@.len(),
            words@ == position_words@.take(i as int),
        decreases position_words@.len() - i,
    {
        words.push(position_words[i]);
        i = i + 1;
        proof {
            assert(words@ =~= position_words@.take(i as int));
        }
    }
    assert(position_words@.take(i as int) =~= position_words@);
    let mut k: usize = 0;
    while k < sorted.len()
        invariant
            k <= sorted@.len(),
            words@ == position_words@ + health_words(sorted@.take(k as int)),
        decreases sorted@.len() - k,
    {
        let (id, bits) = sorted[k];
        words.push(id as u64);
        words.push(bits as u64);
        proof {
            assert(sorted@.take(k + 1).drop_last() =~= sorted@.take(k as int));
            assert(words@ =~= position_words@ + health_words(sorted@.take(k + 1)));
        }
        k = k + 1;
    }
    assert(sorted@.take(k as int) =~= sorted@);
    fold_checksum(&words)
}

/// The health part of the checksum does not depend on the order in which
/// the units are listed.
pub proof fn checksum_ignores_listing_order(
    position_words: Seq<u64>,
    a: Seq<(u32, u32)>,
    b: Seq<(u32, u32)>,
)
    requires
        a.to_multiset() == b.to_multiset(),
    ensures
        spec_run_checksum(position_words, a) == spec_run_checksum(position_words, b),
{
    lemma_health_order_total();
    a.lemma_sort_by_ensures(health_order());
    b.lemma_sort_by_ensures(health_order());
    vstd::seq_lib::lemma_sorted_unique(
        a.sort_by(health_order()),
        b.sort_by(health_order()),
        health_order(),
    );
}

/// Identifies the cases whose repeats must agree.
#[derive(Clone, Copy, Debug, PartialEq, Eq, Structural)]
pub struct CaseKey {
    pub per_team: usize,
    pub workload: Workload,
    pub ticks: usize,
}

/// First checksum seen for each case.
pub struct ChecksumLedger {
    entries: Vec<(CaseKey, u64)>,
}

/// Index of the entry for `key`.
pub open spec fn ledger_index(entries: Seq<(CaseKey, u64)>, key: CaseKey) -> Option<int>
    decreases entries.len(),
{
    if entries.len() == 0 {
        None
    } else {
        match ledger_index(entries.drop_last(), key) {
            Some(i) => Some(i),
            None => if entries.last().0 == key {
                Some(entries.len() - 1)
            } else {
                None
            },
        }
    }
}

/// The first checksum recorded for each case.
pub open spec fn ledger_map(entries: Seq<(CaseKey, u64)>) -> Map<CaseKey, u64>
    decreases entries.len(),
{
    if entries.len() == 0 {
        Map::empty()
    } else {
        let m = ledger_map(entries.drop_last());
        if m.contains_key(entries.last().0) {
            m
        } else {
            m.insert(entries.last().0, entries.last().1)
        }
    }
}

proof fn lemma_ledger_index(entries: Seq<(CaseKey, u64)>, key: CaseKey)
    ensures
        ledger_index(entries, key) matches Some(i) ==> 0 <= i < entries.len() && entries[i].0
            == key && ledger_map(entries).contains_key(key) && ledger_map(entries)[key]
            == entries[i].1,
        ledger_index(entries, key) is None ==> !ledger_map(entries).contains_key(key) && forall|
            k: int,
        | 0 <= k < entries.len() ==> #[trigger] entries[k].0 != key,
    decreases entries.len(),
{
    if entries.len() > 0 {
        let d = entries.drop_last();
        lemma_ledger_index(d, key);
        lemma_ledger_index(d, entries.last().0);
        if let Some(i) = ledger_index(d, key) {
            assert(entries[i] == d[i]);
        } else {
            assert forall|k: int| 0 <= k < entries.len() - 1 implies #[trigger] entries[k].0
                != key by {
                assert(entries[k] == d[k]);
            }
        }
    }
}

impl ChecksumLedger {
    pub closed spec fn spec_map(&self) -> Map<CaseKey, u64> {
        ledger_map(self.entries@)
    }

    /// No case seen yet.
    pub fn new() -> (r: Self)
        ensures
            r.spec_map() == Map::<CaseKey, u64>::empty(),
    {
        ChecksumLedger { entries: Vec::new() }
    }

    /// Records the checksum of one repeat of `key`: the first repeat of a
    /// case sets the reference and agrees; later ones agree exactly when
    /// they reproduce it.
    pub fn agrees(&mut self, key: CaseKey, checksum: u64) -> (r: bool)
        ensures
            old(self).spec_map().contains_key(key) ==> final(self).spec_map() == old(
                self,
            ).spec_map() && r == (old(self).spec_map()[key] == checksum),
            !old(self).spec_map().contains_key(key) ==> final(self).spec_map() == old(
                self,
            ).spec_map().insert(key, checksum) && r,
    {
        let ghost e = self.entries@;
        proof {
            lemma_ledger_index(e, key);
        }
        let mut i: usize = 0;
        while i < self.entries.len()
            invariant
                i <= self.entries@.len(),
                self.entries@ == e,
                forall|k: int| 0 <= k < i ==> #[trigger] e[k].0 != key,
            decreases self.entries@.len() - i,
        {
            if self.entries[i].0 == key {
                proof {
                    lemma_ledger_index_is(e, key, i as int);
                    lemma_ledger_index(e, key);
                }
                return self.entries[i].1 == checksum;
            }
            i = i + 1;
        }
        proof {
            lemma_ledger_none(e, key);
            lemma_ledger_index(e, key);
        }
        self.entries.push((key, checksum));
        proof {
            assert(self.entries@.drop_last() =~= e);
        }
        true
    }
}

proof fn lemma_ledger_index_is(entries: Seq<(CaseKey, u64)>, key: CaseKey, i: int)
    requires
        0 <= i < entries.len(),
        entries[i].0 == key,
        forall|k: int| 0 <= k < i ==> #[trigger] entries[k].0 != key,
    ensures
        ledger_index(entries, key) == Some(i),
    decreases entries.len(),
{
    if i < entries.len() - 1 {
        assert(entries.drop_last()[i] == entries[i]);
        lemma_ledger_index_is(entries.drop_last(), key, i);
    } else {
        lemma_ledger_index(entries.drop_last(), key);
        if let Some(m) = ledger_index(entries.drop_last(), key) {
            assert(entries[m] == entries.drop_last()[m]);
        }
    }
}

proof fn lemma_ledger_none(entries: Seq<(CaseKey, u64)>, key: CaseKey)
    requires
        forall|k: int| 0 <= k < entries.len() ==> #[trigger] entries[k].0 != key,
    ensures
        ledger_index(entries, key) is None,
    decreases entries.len(),
{
    if entries.len() > 0 {
        assert(entries.last().0 != key);
        assert forall|k: int| 0 <= k < entries.len() - 1 implies #[trigger] entries.drop_last()[k].0
            != key by {
            assert(entries.drop_last()[k] == entries[k]);
        }
        lemma_ledger_none(entries.drop_last(), key);
    }
}

} // verus!
