//! Deterministic replay telemetry: per-tick checksums chained with FNV-1a.
use vstd::prelude::*;

verus! {

/// FNV-1a 64-bit offset basis.
pub const FNV_OFFSET: u64 = 0xcbf29ce484222325;
/// FNV-1a 64-bit prime.
pub const FNV_PRIME: u64 = 0x100000001b3;

/// One FNV-1a round: xor the input in, then multiply modulo 2^64.
pub open spec fn fnv_round(hash: u64, input: u64) -> u64 {
    vstd::wrapping::u64_specs::wrapping_mul(hash ^ input, FNV_PRIME)
}

/// FNV-1a over a byte sequence, folded from the left.
pub open spec fn spec_fnv1a(bytes: Seq<u8>) -> u64
    decreases bytes.len(),
{
    if bytes.len() == 0 {
        FNV_OFFSET
    } else {
        fnv_round(spec_fnv1a(bytes.drop_last()), bytes.last() as u64)
    }
}

/// Rotation of a 64-bit word one bit to the left.
pub open spec fn rotl1(x: u64) -> u64 {
    (x << 1u64) | (x >> 63u64)
}

/// Contribution of one `(tick, checksum)` entry to the chained hash.
pub open spec fn entry_word(entry: (u64, u64)) -> u64 {
    vstd::wrapping::u64_specs::wrapping_add(entry.0, rotl1(entry.1))
}

/// FNV-1a chain over the entries, in order, from the offset basis.
pub open spec fn spec_chain(entries: Seq<(u64, u64)>) -> u64
    decreases entries.len(),
{
    if entries.len() == 0 {
        FNV_OFFSET
    } else {
        fnv_round(spec_chain(entries.drop_last()), entry_word(entries.last()))
    }
}

/// Combined hash of every recorded entry: the chain over them, and 0 when
/// nothing has been recorded.
pub open spec fn spec_combined(entries: Seq<(u64, u64)>) -> u64 {
    if entries.len() == 0 {
        0
    } else {
        spec_chain(entries)
    }
}

/// Ticks are recorded strictly in increasing order.
pub open spec fn ascending(entries: Seq<(u64, u64)>) -> bool {
    forall|i: int, j: int| 0 <= i < j < entries.len() ==> entries[i].0 < entries[j].0
}

/// What recording `(tick, checksum)` does to the entries: a tick that is not
/// after the last recorded one (a rewind or a duplicate) is ignored.
pub open spec fn spec_push(entries: Seq<(u64, u64)>, tick: u64, checksum: u64) -> Seq<(u64, u64)> {
    if entries.len() > 0 && tick <= entries.last().0 {
        entries
    } else {
        entries.push((tick, checksum))
    }
}

/// Per-tick checksums, in tick order.
#[derive(Debug, Clone)]
pub struct TickChecksums {
    /// `(tick, checksum)` pairs in increasing tick order.
    pub entries: Vec<(u64, u64)>,
}

impl Default for TickChecksums {
    fn default() -> (r: Self)
        ensures
            r.entries@ == Seq::<(u64, u64)>::empty(),
    {
        TickChecksums { entries: Vec::new() }
    }
}

fn rotate_left_one(x: u64) -> (r: u64)
    ensures
        r == rotl1(x),
{
    (x << 1u64) | (x >> 63u64)
}

impl TickChecksums {
    /// Records a checksum; ticks that do not advance past the last recorded
    /// one are ignored, so restarts never poison historical comparisons.
    pub fn push_tick(&mut self, tick: u64, checksum: u64)
        ensures
            final(self).entries@ == spec_push(old(self).entries@, tick, checksum),
    {
        let n = self.entries.len();
        if n > 0 && tick <= self.entries[n - 1].0 {
            return;
        }
        self.entries.push((tick, checksum));
    }

    /// Chained FNV-1a hash of all recorded ticks; 0 when empty.
    pub fn combined(&self) -> (r: u64)
        ensures
            r == spec_combined(self.entries@),
    {
        if self.entries.len() == 0 {
            return 0;
        }
        let mut hash: u64 = FNV_OFFSET;
        let mut i: usize = 0;
        while i < self.entries.len()
            invariant
                i <= self.entries.len(),
                hash == spec_chain(self.entries@.take(i as int)),
            decreases self.entries.len() - i,
        {
            let (tick, checksum) = self.entries[i];
            let word = tick.wrapping_add(rotate_left_one(checksum));
            hash = (hash ^ word).wrapping_mul(FNV_PRIME);
            assert(self.entries@.take(i + 1).drop_last() =~= self.entries@.take(i as int));
            i = i + 1;
        }
        assert(self.entries@.take(i as int) =~= self.entries@);
        hash
    }

    pub fn len(&self) -> (r: usize)
        ensures
            r == self.entries@.len(),
    {
        self.entries.len()
    }

    pub fn is_empty(&self) -> (r: bool)
        ensures
            r == (self.entries@.len() == 0),
    {
        self.entries.len() == 0
    }
}

/// FNV-1a (64-bit) over arbitrary bytes.
pub fn fnv1a_64(bytes: &[u8]) -> (r: u64)
    ensures
        r == spec_fnv1a(bytes@),
{
    let mut hash: u64 = FNV_OFFSET;
    let mut i: usize = 0;
    while i < bytes.len()
        invariant
            i <= bytes.len(),
            hash == spec_fnv1a(bytes@.take(i as int)),
        decreases bytes.len() - i,
    {
        hash = (hash ^ (bytes[i] as u64)).wrapping_mul(FNV_PRIME);
        assert(bytes@.take(i + 1).drop_last() =~= bytes@.take(i as int));
        i = i + 1;
    }
    assert(bytes@.take(i as int) =~= bytes@);
    hash
}

/// Recording never breaks tick order: starting from ascending entries, any
/// push leaves them ascending.
pub proof fn push_keeps_ascending(entries: Seq<(u64, u64)>, tick: u64, checksum: u64)
    requires
        ascending(entries),
    ensures
        ascending(spec_push(entries, tick, checksum)),
{
}

/// A rewind (a tick at or before the last recorded one) leaves the entries
/// and therefore the combined hash unchanged.
pub proof fn rewinds_leave_combined_unchanged(entries: Seq<(u64, u64)>, tick: u64, checksum: u64)
    requires
        entries.len() > 0,
        tick <= entries.last().0,
    ensures
        spec_push(entries, tick, checksum) == entries,
        spec_combined(spec_push(entries, tick, checksum)) == spec_combined(entries),
{
}

/// Recording a fresh tick extends the chain (which starts from the offset
/// basis) by exactly one FNV round.
pub proof fn fresh_tick_extends_chain(entries: Seq<(u64, u64)>, tick: u64, checksum: u64)
    requires
        entries.len() == 0 || tick > entries.last().0,
    ensures
        spec_push(entries, tick, checksum).len() == entries.len() + 1,
        spec_combined(spec_push(entries, tick, checksum)) == fnv_round(
            spec_chain(entries),
            entry_word((tick, checksum)),
        ),
{
    assert(spec_push(entries, tick, checksum).drop_last() =~= entries);
}

} // verus!
