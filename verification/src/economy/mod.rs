//! Economy rules that do not involve rates: the building table, which
//! builders push a construction site forward, and what a site's status line
//! says.
pub mod balance;

use crate::orders::UnitOrder;
use vstd::prelude::*;

verus! {

/// What the economy reads of one live builder: who it is, its team, whether
/// the site lies within its build radius, and its current order.
pub struct BuilderProbe<P> {
    pub entity: u64,
    pub team: u8,
    pub in_range: bool,
    pub order: UnitOrder<P>,
}

/// The order is to build `site`.
pub open spec fn builds_site<P>(order: UnitOrder<P>, site: u64) -> bool {
    order matches UnitOrder::Build { site: s } && s == site
}

/// Directly tasked on `site`: same team, a `Build` order for it, and the
/// site inside the builder's own radius.
pub open spec fn is_direct<P>(b: BuilderProbe<P>, site: u64, team: u8) -> bool {
    b.team == team && b.in_range && builds_site(b.order, site)
}

/// `ward` is a builder directly tasked on `site`, working inside its radius.
pub open spec fn ward_is_direct<P>(builders: Seq<BuilderProbe<P>>, site: u64, team: u8, ward: u64) -> bool {
    exists|j: int| 0 <= j < builders.len() && is_direct(#[trigger] builders[j], site, team) && builders[j].entity == ward
}

/// Builder `i` adds its power to `site`: same team, in range, and either
/// building the site itself or guarding another builder that does.
pub open spec fn contributes<P>(builders: Seq<BuilderProbe<P>>, i: int, site: u64, team: u8) -> bool {
    let b = builders[i];
    &&& b.team == team
    &&& b.in_range
    &&& (builds_site(b.order, site) || (b.order matches UnitOrder::Guard { target: ward } && ward
        != b.entity && ward_is_direct(builders, site, team, ward)))
}

fn build_target<P>(order: &UnitOrder<P>) -> (r: Option<u64>)
    ensures
        r == (match order {
            UnitOrder::Build { site } => Some(*site),
            _ => None::<u64>,
        }),
{
    match order {
        UnitOrder::Build { site } => Some(*site),
        _ => None,
    }
}

/// Whether some builder is directly tasked on `site` and is `ward`.
fn has_direct_builder<P>(builders: &Vec<BuilderProbe<P>>, site: u64, team: u8, ward: u64) -> (r: bool)
    ensures
        r == ward_is_direct(builders@, site, team, ward),
{
    let mut j: usize = 0;
    while j < builders.len()
        invariant
            j <= builders@.len(),
            forall|m: int| 0 <= m < j ==> !(is_direct(#[trigger] builders@[m], site, team) && builders@[m].entity == ward),
        decreases builders@.len() - j,
    {
        let b = &builders[j];
        if b.team == team && b.in_range && build_target(&b.order) == Some(site) && b.entity == ward {
            assert(is_direct(builders@[j as int], site, team));
            return true;
        }
        j = j + 1;
    }
    false
}

/// Marks the builders whose power goes to `site` of `team` this tick. Only
/// tasked builders count, and only inside their own radius: standing in
/// range is not enough, and guarding a builder assists only while that
/// builder works the site from inside its radius.
pub fn site_contributors<P>(site: u64, team: u8, builders: &Vec<BuilderProbe<P>>) -> (r: Vec<bool>)
    ensures
        r@.len() == builders@.len(),
        forall|i: int| 0 <= i < builders@.len() ==> r@[i] == contributes(builders@, i, site, team),
{
    let mut out: Vec<bool> = Vec::new();
    let mut i: usize = 0;
    while i < builders.len()
        invariant
            i <= builders@.len(),
            out@.len() == i,
            forall|k: int| 0 <= k < i ==> out@[k] == contributes(builders@, k, site, team),
        decreases builders@.len() - i,
    {
        let b = &builders[i];
        let mut counts = false;
        if b.team == team && b.in_range {
            match &b.order {
                UnitOrder::Build { site: s } => {
                    counts = *s == site;
                },
                UnitOrder::Guard { target } => {
                    counts = *target != b.entity && has_direct_builder(builders, site, team, *target);
                },
                _ => {},
            }
        }
        out.push(counts);
        i = i + 1;
    }
    out
}

/// Status line of a construction project, in priority order.
pub open spec fn spec_status(
    short_metal: bool,
    short_energy: bool,
    complete: bool,
    powered: bool,
) -> &'static str {
    if short_metal && short_energy {
        "SHORTAGE: metal + energy"
    } else if short_metal {
        "SHORTAGE: metal"
    } else if short_energy {
        "SHORTAGE: energy"
    } else if complete {
        "Complete"
    } else if !powered {
        "WAITING FOR BUILDER: move one in range"
    } else {
        "Working"
    }
}

/// Status line of a project from its shortage flags, whether its work is
/// done, and whether any builder powered it on the last tick.
pub fn status_text(short_metal: bool, short_energy: bool, complete: bool, powered: bool) -> (r:
    &'static str)
    ensures
        r == spec_status(short_metal, short_energy, complete, powered),
{
    if short_metal && short_energy {
        "SHORTAGE: metal + energy"
    } else if short_metal {
        "SHORTAGE: metal"
    } else if short_energy {
        "SHORTAGE: energy"
    } else if complete {
        "Complete"
    } else if !powered {
        "WAITING FOR BUILDER: move one in range"
    } else {
        "Working"
    }
}

/// Without a builder directly tasked on the site from inside its radius
/// nobody contributes: guarding a builder that walked away (out of range,
/// or any new order that replaced `Build`) assists nothing, so the site
/// stalls until a builder works it again.
pub proof fn no_direct_builder_stalls_site<P>(builders: Seq<BuilderProbe<P>>, site: u64, team: u8, i: int)
    requires
        0 <= i < builders.len(),
        forall|j: int| 0 <= j < builders.len() ==> !is_direct(#[trigger] builders[j], site, team),
    ensures
        !contributes(builders, i, site, team),
{
    assert(!is_direct(builders[i], site, team));
}

} // verus!
