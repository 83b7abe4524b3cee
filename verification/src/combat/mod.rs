//! Integer core of combat: deterministic per-entity hashes that stagger
//! volleys and spread shots, and the choice of what a splash hits.
//!
//! Distances and angles are the engine's floating-point work; it hands in
//! whether each candidate is alive and inside the blast, and turns hash bits
//! into phases and offsets.
pub mod acquire;
pub mod behaviour;
pub mod fire;

use vstd::prelude::*;
use vstd::wrapping::u64_specs::{wrapping_add, wrapping_mul};

verus! {

/// Golden-ratio multiplier of the desync and spread hashes.
pub const HASH_GOLDEN: u64 = 0x9E3779B97F4A7C15;
/// Second splitmix64 multiplier.
pub const HASH_MIX_A: u64 = 0xBF58476D1CE4E5B9;
/// Third splitmix64 multiplier.
pub const HASH_MIX_B: u64 = 0x94D049BB133111EB;

/// Phase slot, in thousandths of a cooldown, that staggers an entity's
/// first volley: `id · golden mod 2^64`, then `mod 1000`.
pub fn desync_slot(id: u64) -> (r: u64)
    ensures
        r == wrapping_mul(id, HASH_GOLDEN) % 1000,
        r < 1000,
{
    id.wrapping_mul(HASH_GOLDEN) % 1000
}

/// Spread hash of one shot: seeded by shooter, tick and gun, then mixed by
/// the splitmix64 finaliser.
pub open spec fn spec_spread_hash(shooter_bits: u64, tick: u64, gun_idx: u64) -> u64 {
    let h0 = wrapping_add(
        wrapping_add(wrapping_mul(shooter_bits, HASH_GOLDEN), wrapping_mul(tick, HASH_MIX_A)),
        wrapping_mul((gun_idx + 1) as u64, HASH_MIX_B),
    );
    let h1 = wrapping_mul(h0 ^ (h0 >> 30u64), HASH_MIX_A);
    let h2 = wrapping_mul(h1 ^ (h1 >> 27u64), HASH_MIX_B);
    h2 ^ (h2 >> 31u64)
}

/// Hash bits of one shot's spread; the high and low halves become the
/// angle and radius of the offset.
pub fn spread_hash(shooter_bits: u64, tick: u64, gun_idx: u64) -> (r: u64)
    requires
        gun_idx < u64::MAX,
    ensures
        r == spec_spread_hash(shooter_bits, tick, gun_idx),
{
    let mut h = shooter_bits.wrapping_mul(HASH_GOLDEN).wrapping_add(tick.wrapping_mul(HASH_MIX_A)).wrapping_add(
        (gun_idx + 1).wrapping_mul(HASH_MIX_B),
    );
    h = h ^ (h >> 30);
    h = h.wrapping_mul(HASH_MIX_A);
    h = h ^ (h >> 27);
    h = h.wrapping_mul(HASH_MIX_B);
    h ^ (h >> 31)
}

/// What a splash reads of one body near the impact: its id bits, its team,
/// and whether it is alive and inside the blast radius.
#[derive(Clone, Copy, Debug, PartialEq, Eq, Structural)]
pub struct SplashCandidate {
    pub bits: u64,
    pub team: u8,
    pub hit: bool,
}

/// `c` takes splash damage from a shot of `shooter_team`.
pub open spec fn splash_hits(c: SplashCandidate, shooter_team: u8) -> bool {
    c.team != shooter_team && c.hit
}

/// Ids strictly increase.
pub open spec fn strictly_increasing(s: Seq<u64>) -> bool {
    forall|i: int, j: int| 0 <= i < j < s.len() ==> #[trigger] s[i] < #[trigger] s[j]
}

/// Some candidate among the first `n` with id `x` is hit.
pub open spec fn hit_among(candidates: Seq<SplashCandidate>, n: int, shooter_team: u8, x: u64) -> bool {
    exists|i: int| 0 <= i < n && splash_hits(#[trigger] candidates[i], shooter_team) && candidates[i].bits == x
}

/// Ids of the live enemies inside the blast, ascending and without
/// duplicates, so damage is applied in the same order on every run.
pub fn splash_targets(candidates: &Vec<SplashCandidate>, shooter_team: u8) -> (r: Vec<u64>)
    ensures
        strictly_increasing(r@),
        forall|x: u64| r@.contains(x) <==> hit_among(candidates@, candidates@.len() as int, shooter_team, x),
{
    let mut out: Vec<u64> = Vec::new();
    let mut i: usize = 0;
    while i < candidates.len()
        invariant
            i <= candidates@.len(),
            strictly_increasing(out@),
            forall|x: u64| out@.contains(x) <==> hit_among(candidates@, i as int, shooter_team, x),
        decreases candidates@.len() - i,
    {
        let c = candidates[i];
        let ghost before = out@;
        if c.team != shooter_team && c.hit {
            let x = c.bits;
            let mut p: usize = 0;
            while p < out.len() && out[p] < x
                invariant
                    p <= out@.len(),
                    forall|k: int| 0 <= k < p ==> #[trigger] out@[k] < x,
                decreases out@.len() - p,
            {
                p = p + 1;
            }
            if p < out.len() && out[p] == x {
                proof {
                    assert forall|y: u64| out@.contains(y) <==> hit_among(candidates@, i + 1, shooter_team, y) by {
                        if hit_among(candidates@, i + 1, shooter_team, y) && !hit_among(candidates@, i as int, shooter_team, y) {
                            let j = choose|j: int| 0 <= j < i + 1 && splash_hits(#[trigger] candidates@[j], shooter_team) && candidates@[j].bits == y;
                            assert(j == i);
                            assert(out@[p as int] == y);
                        }
                        if hit_among(candidates@, i as int, shooter_team, y) {
                            let j = choose|j: int| 0 <= j < i && splash_hits(#[trigger] candidates@[j], shooter_team) && candidates@[j].bits == y;
                            assert(0 <= j < i + 1);
                        }
                    }
                }
            } else {
                out.insert(p, x);
                proof {
                    assert forall|a: int, b: int| 0 <= a < b < out@.len() implies #[trigger] out@[a] < #[trigger] out@[b] by {
                        if b < p {
                            assert(before[a] < before[b]);
                        } else if a > p {
                            assert(before[a - 1] < before[b - 1]);
                        } else if a == p {
                            assert(before[p as int] > x || before[p as int] == x);
                            assert(before[p as int] != x);
                            if b - 1 > p {
                                assert(before[p as int] < before[b - 1]);
                            }
                        } else {
                            assert(before[a] < x);
                        }
                    }
                    assert forall|y: u64| out@.contains(y) <==> hit_among(candidates@, i + 1, shooter_team, y) by {
                        if out@.contains(y) {
                            let k = choose|k: int| 0 <= k < out@.len() && out@[k] == y;
                            if k < p {
                                assert(before[k] == y);
                                assert(before.contains(y));
                            } else if k > p {
                                assert(before[k - 1] == y);
                                assert(before.contains(y));
                            } else {
                                assert(splash_hits(candidates@[i as int], shooter_team));
                            }
                            if before.contains(y) {
                                let j = choose|j: int| 0 <= j < i && splash_hits(#[trigger] candidates@[j], shooter_team) && candidates@[j].bits == y;
                                assert(0 <= j < i + 1);
                            }
                        }
                        if hit_among(candidates@, i + 1, shooter_team, y) {
                            let j = choose|j: int| 0 <= j < i + 1 && splash_hits(#[trigger] candidates@[j], shooter_team) && candidates@[j].bits == y;
                            if j == i {
                                assert(out@[p as int] == y);
                            } else {
                                assert(hit_among(candidates@, i as int, shooter_team, y));
                                assert(before.contains(y));
                                let k = choose|k: int| 0 <= k < before.len() && before[k] == y;
                                if k < p {
                                    assert(out@[k] == y);
                                } else {
                                    assert(out@[k + 1] == y);
                                }
                            }
                        }
                    }
                }
            }
        } else {
            proof {
                assert forall|y: u64| out@.contains(y) <==> hit_among(candidates@, i + 1, shooter_team, y) by {
                    if hit_among(candidates@, i + 1, shooter_team, y) {
                        let j = choose|j: int| 0 <= j < i + 1 && splash_hits(#[trigger] candidates@[j], shooter_team) && candidates@[j].bits == y;
                        assert(j != i);
                        assert(hit_among(candidates@, i as int, shooter_team, y));
                    }
                    if hit_among(candidates@, i as int, shooter_team, y) {
                        let j = choose|j: int| 0 <= j < i && splash_hits(#[trigger] candidates@[j], shooter_team) && candidates@[j].bits == y;
                        assert(0 <= j < i + 1);
                    }
                }
            }
        }
        i = i + 1;
    }
    out
}

/// A weapon fires this tick when its cooldown has run out, the locked
/// target is indexed and alive and inside weapon range, and the barrel has
/// traversed onto it (`aimed`), unless the shot skips the traverse gate
/// (`ungated`, see [`fire::shot_plan`]).
pub fn may_fire(ready: bool, target_known: bool, target_alive: bool, in_range: bool, ungated: bool, aimed: bool) -> (r: bool)
    ensures
        r == (ready && target_known && target_alive && in_range && (ungated || aimed)),
{
    ready && target_known && target_alive && in_range && (ungated || aimed)
}

} // verus!
