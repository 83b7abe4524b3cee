//! Unit kinds and the integer parts of their archetype table.
use vstd::prelude::*;

verus! {

#[derive(Clone, Copy, Debug, PartialEq, Eq, Hash, Structural)]
pub enum UnitKind {
    Scout,
    HeavyTank,
    Artillery,
    Commander,
    Engineer,
    LightTank,
    HeavyTank2,
    Artillery2,
}

pub open spec fn kind_index(k: UnitKind) -> int {
    match k {
        UnitKind::Scout => 0,
        UnitKind::HeavyTank => 1,
        UnitKind::Artillery => 2,
        UnitKind::Commander => 3,
        UnitKind::Engineer => 4,
        UnitKind::LightTank => 5,
        UnitKind::HeavyTank2 => 6,
        UnitKind::Artillery2 => 7,
    }
}

/// Production tier of a kind: tier-2 hulls need the tier-2 laboratory.
pub open spec fn spec_tier(k: UnitKind) -> u8 {
    match k {
        UnitKind::HeavyTank2 | UnitKind::Artillery2 => 2,
        _ => 1,
    }
}

/// Heavy-front round robin: of every ten units, five heavy tanks, three
/// light tanks, one scout and one artillery piece.
pub open spec fn spec_kind_for_index(index: int) -> UnitKind {
    let r = index % 10;
    if r <= 4 {
        UnitKind::HeavyTank
    } else if r <= 7 {
        UnitKind::LightTank
    } else if r == 8 {
        UnitKind::Scout
    } else {
        UnitKind::Artillery
    }
}

impl UnitKind {
    /// Every kind, in table order.
    pub fn all() -> (r: [UnitKind; 8])
        ensures
            forall|i: int| 0 <= i < 8 ==> kind_index(#[trigger] r@[i]) == i,
    {
        [
            UnitKind::Scout,
            UnitKind::HeavyTank,
            UnitKind::Artillery,
            UnitKind::Commander,
            UnitKind::Engineer,
            UnitKind::LightTank,
            UnitKind::HeavyTank2,
            UnitKind::Artillery2,
        ]
    }

    /// Kinds a factory can queue: every kind but the unique Commander.
    pub fn producible() -> (r: [UnitKind; 7])
        ensures
            forall|i: int| 0 <= i < 7 ==> #[trigger] r@[i] != UnitKind::Commander,
            forall|k: UnitKind| k != UnitKind::Commander ==> r@.contains(k),
    {
        let r = [
            UnitKind::Scout,
            UnitKind::HeavyTank,
            UnitKind::Artillery,
            UnitKind::Engineer,
            UnitKind::LightTank,
            UnitKind::HeavyTank2,
            UnitKind::Artillery2,
        ];
        assert forall|k: UnitKind| k != UnitKind::Commander implies r@.contains(k) by {
            match k {
                UnitKind::Scout => assert(r@[0] == k),
                UnitKind::HeavyTank => assert(r@[1] == k),
                UnitKind::Artillery => assert(r@[2] == k),
                UnitKind::Engineer => assert(r@[3] == k),
                UnitKind::LightTank => assert(r@[4] == k),
                UnitKind::HeavyTank2 => assert(r@[5] == k),
                UnitKind::Artillery2 => assert(r@[6] == k),
                UnitKind::Commander => {},
            }
        }
        r
    }

    /// Row of the kind in every per-kind table.
    pub fn index(self) -> (r: usize)
        ensures
            r == kind_index(self),
    {
        match self {
            UnitKind::Scout => 0,
            UnitKind::HeavyTank => 1,
            UnitKind::Artillery => 2,
            UnitKind::Commander => 3,
            UnitKind::Engineer => 4,
            UnitKind::LightTank => 5,
            UnitKind::HeavyTank2 => 6,
            UnitKind::Artillery2 => 7,
        }
    }

    pub fn is_commander(self) -> (r: bool)
        ensures
            r == (self == UnitKind::Commander),
    {
        match self {
            UnitKind::Commander => true,
            _ => false,
        }
    }

    /// Builders: the Commander and the Engineer.
    pub fn is_builder(self) -> (r: bool)
        ensures
            r == (self == UnitKind::Commander || self == UnitKind::Engineer),
    {
        match self {
            UnitKind::Commander | UnitKind::Engineer => true,
            _ => false,
        }
    }

    /// Production tier (1 = factory, 2 = tier-2 laboratory).
    pub fn tier(self) -> (r: u8)
        ensures
            r == spec_tier(self),
    {
        match self {
            UnitKind::HeavyTank2 | UnitKind::Artillery2 => 2,
            _ => 1,
        }
    }
}

/// Deterministic force composition shared by the playground demo and the
/// skirmish benchmark.
pub fn kind_for_index(index: usize) -> (r: UnitKind)
    ensures
        r == spec_kind_for_index(index as int),
{
    let r = index % 10;
    if r <= 4 {
        UnitKind::HeavyTank
    } else if r <= 7 {
        UnitKind::LightTank
    } else if r == 8 {
        UnitKind::Scout
    } else {
        UnitKind::Artillery
    }
}

/// Occurrences of `k` among the kinds of indices `0..n`.
pub open spec fn composition_count(n: nat, k: UnitKind) -> nat
    decreases n,
{
    if n == 0 {
        0
    } else {
        composition_count((n - 1) as nat, k) + if spec_kind_for_index(n - 1) == k { 1nat } else { 0nat }
    }
}

/// The composition repeats every ten units.
pub proof fn composition_is_periodic(index: int)
    requires
        index >= 0,
    ensures
        spec_kind_for_index(index + 10) == spec_kind_for_index(index),
{
    assert((index + 10) % 10 == index % 10);
}

/// Every full block of ten units holds five heavy tanks, three light tanks,
/// one scout and one artillery piece, and never a commander or engineer.
pub proof fn composition_is_heavy_front(blocks: nat)
    ensures
        composition_count(10 * blocks, UnitKind::HeavyTank) == 5 * blocks,
        composition_count(10 * blocks, UnitKind::LightTank) == 3 * blocks,
        composition_count(10 * blocks, UnitKind::Scout) == blocks,
        composition_count(10 * blocks, UnitKind::Artillery) == blocks,
        composition_count(10 * blocks, UnitKind::Commander) == 0,
    decreases blocks,
{
    if blocks > 0 {
        composition_is_heavy_front((blocks - 1) as nat);
        let b = 10 * (blocks - 1);
        assert(b % 10 == 0) by (nonlinear_arith)
            requires b == 10 * (blocks - 1);
        assert((b + 0) % 10 == 0);
        assert((b + 1) % 10 == 1);
        assert((b + 2) % 10 == 2);
        assert((b + 3) % 10 == 3);
        assert((b + 4) % 10 == 4);
        assert((b + 5) % 10 == 5);
        assert((b + 6) % 10 == 6);
        assert((b + 7) % 10 == 7);
        assert((b + 8) % 10 == 8);
        assert((b + 9) % 10 == 9);
        assert(10 * blocks == b + 10);
        reveal_with_fuel(composition_count, 11);
    }
}

} // verus!
