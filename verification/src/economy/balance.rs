//! Industrial tuning that is not a rate: building kinds and the queue cap.
use vstd::prelude::*;

verus! {

/// Longest factory queue.
pub const MAX_QUEUE: usize = 12;

#[derive(Clone, Copy, Debug, PartialEq, Eq, Structural)]
pub enum BuildingKind {
    Metal,
    Solar,
    Factory,
    Turret,
    Wall,
    LabT2,
    Lance,
}

pub open spec fn building_index(k: BuildingKind) -> int {
    match k {
        BuildingKind::Metal => 0,
        BuildingKind::Solar => 1,
        BuildingKind::Factory => 2,
        BuildingKind::Turret => 3,
        BuildingKind::Wall => 4,
        BuildingKind::LabT2 => 5,
        BuildingKind::Lance => 6,
    }
}

pub open spec fn building_name(k: BuildingKind) -> Seq<char> {
    match k {
        BuildingKind::Metal => "Metal generator"@,
        BuildingKind::Solar => "Solar panel"@,
        BuildingKind::Factory => "Vehicle factory"@,
        BuildingKind::Turret => "Laser turret"@,
        BuildingKind::Wall => "Wall"@,
        BuildingKind::LabT2 => "Tier-2 laboratory"@,
        BuildingKind::Lance => "Lance turret"@,
    }
}

impl BuildingKind {
    /// Every kind, in table order.
    pub fn all() -> (r: [BuildingKind; 7])
        ensures
            forall|i: int| 0 <= i < 7 ==> building_index(#[trigger] r@[i]) == i,
    {
        [
            BuildingKind::Metal,
            BuildingKind::Solar,
            BuildingKind::Factory,
            BuildingKind::Turret,
            BuildingKind::Wall,
            BuildingKind::LabT2,
            BuildingKind::Lance,
        ]
    }

    /// Row of the kind in the building table.
    pub fn index(self) -> (r: usize)
        ensures
            r == building_index(self),
    {
        match self {
            BuildingKind::Metal => 0,
            BuildingKind::Solar => 1,
            BuildingKind::Factory => 2,
            BuildingKind::Turret => 3,
            BuildingKind::Wall => 4,
            BuildingKind::LabT2 => 5,
            BuildingKind::Lance => 6,
        }
    }

    /// Display name from the building table.
    pub fn name(self) -> (r: &'static str)
        ensures
            r@ == building_name(self),
    {
        match self {
            BuildingKind::Metal => "Metal generator",
            BuildingKind::Solar => "Solar panel",
            BuildingKind::Factory => "Vehicle factory",
            BuildingKind::Turret => "Laser turret",
            BuildingKind::Wall => "Wall",
            BuildingKind::LabT2 => "Tier-2 laboratory",
            BuildingKind::Lance => "Lance turret",
        }
    }

    /// Static defenses: turrets and walls.
    pub fn is_defense(self) -> (r: bool)
        ensures
            r == (self == BuildingKind::Turret || self == BuildingKind::Wall || self
                == BuildingKind::Lance),
    {
        match self {
            BuildingKind::Turret | BuildingKind::Wall | BuildingKind::Lance => true,
            _ => false,
        }
    }

    /// Unit producers: the tier-1 factory and the tier-2 laboratory.
    pub fn is_factory(self) -> (r: bool)
        ensures
            r == (self == BuildingKind::Factory || self == BuildingKind::LabT2),
    {
        match self {
            BuildingKind::Factory | BuildingKind::LabT2 => true,
            _ => false,
        }
    }

    /// Production tier of a factory kind, 0 for buildings that never produce.
    pub fn factory_tier(self) -> (r: u8)
        ensures
            self == BuildingKind::Factory ==> r == 1,
            self == BuildingKind::LabT2 ==> r == 2,
            !(self == BuildingKind::Factory || self == BuildingKind::LabT2) ==> r == 0,
    {
        match self {
            BuildingKind::Factory => 1,
            BuildingKind::LabT2 => 2,
            _ => 0,
        }
    }
}

/// A defense never produces units.
pub proof fn defenses_never_produce(k: BuildingKind)
    ensures
        (k == BuildingKind::Turret || k == BuildingKind::Wall || k == BuildingKind::Lance) ==> !(k
            == BuildingKind::Factory || k == BuildingKind::LabT2),
{
}

} // verus!
