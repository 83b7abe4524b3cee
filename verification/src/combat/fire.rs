//! How a weapon's technology turns a shot into a projectile.
//!
//! Primary and secondary guns share the fire path but differ in two places:
//! a primary top-attack lob drops straight onto the locked point and skips
//! the turret's traverse gate, while a secondary lob takes the spread aim
//! and waits for its pod; a secondary laser fires straight off the pod
//! without waiting on the turret.
use vstd::prelude::*;

verus! {

/// Weapon technology of a gun.
#[derive(Clone, Copy, Debug, PartialEq, Eq, Structural)]
pub enum WeaponTech {
    /// Steering missile.
    Homing,
    /// Straight shot with spread.
    Gun,
    /// Unguided rocket.
    Dumbfire,
    /// Arcing shell.
    Mortar,
    /// Instant beam.
    Laser,
    /// Shell falling from above the target.
    TopAttack,
}

/// Which of a unit's guns fires.
#[derive(Clone, Copy, Debug, PartialEq, Eq, Structural)]
pub enum Gun {
    Primary,
    Secondary,
}

/// Form of the projectile a shot spawns.
#[derive(Clone, Copy, Debug, PartialEq, Eq, Structural)]
pub enum Delivery {
    /// Beam flash plus a zero-travel shot at the target.
    Beam,
    /// Steering missile.
    Guided,
    /// Falls from above its aim point.
    Plunge,
    /// Flies straight to its aim point.
    Shot,
}

/// How one shot is fired.
#[derive(Clone, Copy, Debug, PartialEq, Eq, Structural)]
pub struct ShotPlan {
    pub delivery: Delivery,
    /// The gun fires only once its barrel has traversed onto the target.
    pub traverse_gated: bool,
    /// The aim point carries the gun's deterministic spread.
    pub spread: bool,
    /// The projectile draws the mortar arc.
    pub arc: bool,
    /// The projectile carries the gun's splash radius.
    pub splash: bool,
}

pub open spec fn spec_delivery(tech: WeaponTech) -> Delivery {
    match tech {
        WeaponTech::Laser => Delivery::Beam,
        WeaponTech::Homing => Delivery::Guided,
        WeaponTech::TopAttack => Delivery::Plunge,
        _ => Delivery::Shot,
    }
}

/// How `gun` fires a shot of `tech`.
pub fn shot_plan(gun: Gun, tech: WeaponTech) -> (r: ShotPlan)
    ensures
        r.delivery == spec_delivery(tech),
        r.traverse_gated == !((gun == Gun::Primary && tech == WeaponTech::TopAttack) || (gun
            == Gun::Secondary && tech == WeaponTech::Laser)),
        r.spread == (r.delivery == Delivery::Shot || (gun == Gun::Secondary && tech
            == WeaponTech::TopAttack)),
        r.arc == (tech == WeaponTech::Mortar),
        r.splash == (r.delivery == Delivery::Shot || r.delivery == Delivery::Plunge),
{
    let secondary = match gun {
        Gun::Primary => false,
        Gun::Secondary => true,
    };
    match tech {
        WeaponTech::Laser => ShotPlan {
            delivery: Delivery::Beam,
            traverse_gated: !secondary,
            spread: false,
            arc: false,
            splash: false,
        },
        WeaponTech::Homing => ShotPlan {
            delivery: Delivery::Guided,
            traverse_gated: true,
            spread: false,
            arc: false,
            splash: false,
        },
        WeaponTech::TopAttack => ShotPlan {
            delivery: Delivery::Plunge,
            traverse_gated: secondary,
            spread: secondary,
            arc: false,
            splash: true,
        },
        WeaponTech::Mortar => ShotPlan {
            delivery: Delivery::Shot,
            traverse_gated: true,
            spread: true,
            arc: true,
            splash: true,
        },
        WeaponTech::Gun | WeaponTech::Dumbfire => ShotPlan {
            delivery: Delivery::Shot,
            traverse_gated: true,
            spread: true,
            arc: false,
            splash: true,
        },
    }
}

} // verus!
