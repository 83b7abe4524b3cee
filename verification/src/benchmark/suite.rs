//! Which benchmark runs are made, and how a finished run is judged.
use super::cli::{Config, ConfigView, SuitePreset, Workload};
use crate::scenario::Scenario;
use vstd::prelude::*;

verus! {

/// One benchmark case: a workload at one army size, run `repeats` times for
/// `ticks` measured ticks each.
#[derive(Clone, Copy, Debug, PartialEq, Eq, Structural)]
pub struct Case {
    pub workload: Workload,
    pub per_team: usize,
    pub ticks: usize,
    pub repeats: usize,
}

pub open spec fn case(workload: Workload, per_team: usize, ticks: usize, repeats: usize) -> Case {
    Case { workload, per_team, ticks, repeats }
}

/// The cases of each preset, before command-line overrides.
pub open spec fn preset_cases(p: SuitePreset) -> Seq<Case> {
    match p {
        SuitePreset::Quick => seq![
            case(Workload::Idle, 1000, 600, 3),
            case(Workload::Crossing, 1000, 3600, 3),
            case(Workload::Crowd, 1000, 900, 3),
            case(Workload::Skirmish, 1000, 600, 3),
        ],
        SuitePreset::Full => seq![
            case(Workload::Idle, 100, 600, 5),
            case(Workload::Idle, 1000, 600, 5),
            case(Workload::Crossing, 100, 3600, 5),
            case(Workload::Crossing, 500, 3600, 5),
            case(Workload::Crossing, 1000, 3600, 5),
            case(Workload::Crowd, 500, 900, 5),
            case(Workload::Crowd, 1000, 900, 5),
            case(Workload::Crowd, 2500, 900, 5),
            case(Workload::Skirmish, 100, 1800, 5),
            case(Workload::Skirmish, 500, 1800, 5),
            case(Workload::Skirmish, 1000, 1800, 5),
            case(Workload::Skirmish, 5000, 600, 3),
        ],
    }
}

/// A case after the `--ticks` / `--repeats` overrides.
pub open spec fn overridden(c: Case, cfg: ConfigView) -> Case {
    Case {
        workload: c.workload,
        per_team: c.per_team,
        ticks: if cfg.ticks_overridden { cfg.ticks } else { c.ticks },
        repeats: if cfg.repeats_overridden { cfg.repeats } else { c.repeats },
    }
}

pub open spec fn spec_suite_cases(cfg: ConfigView) -> Seq<Case> {
    preset_cases(cfg.preset).map_values(|c: Case| overridden(c, cfg))
}

fn push_case(cases: &mut Vec<Case>, workload: Workload, per_team: usize, ticks: usize, repeats: usize)
    ensures
        final(cases)@ == old(cases)@.push(case(workload, per_team, ticks, repeats)),
{
    cases.push(Case { workload, per_team, ticks, repeats });
}

/// Cases of the configured suite preset, with tick and repeat overrides
/// applied to every case.
pub fn suite_cases(config: &Config) -> (r: Vec<Case>)
    ensures
        r@ == spec_suite_cases(config@),
{
    let mut cases: Vec<Case> = Vec::new();
    match config.preset {
        SuitePreset::Quick => {
            push_case(&mut cases, Workload::Idle, 1000, 600, 3);
            push_case(&mut cases, Workload::Crossing, 1000, 3600, 3);
            push_case(&mut cases, Workload::Crowd, 1000, 900, 3);
            push_case(&mut cases, Workload::Skirmish, 1000, 600, 3);
        },
        SuitePreset::Full => {
            push_case(&mut cases, Workload::Idle, 100, 600, 5);
            push_case(&mut cases, Workload::Idle, 1000, 600, 5);
            push_case(&mut cases, Workload::Crossing, 100, 3600, 5);
            push_case(&mut cases, Workload::Crossing, 500, 3600, 5);
            push_case(&mut cases, Workload::Crossing, 1000, 3600, 5);
            push_case(&mut cases, Workload::Crowd, 500, 900, 5);
            push_case(&mut cases, Workload::Crowd, 1000, 900, 5);
            push_case(&mut cases, Workload::Crowd, 2500, 900, 5);
            push_case(&mut cases, Workload::Skirmish, 100, 1800, 5);
            push_case(&mut cases, Workload::Skirmish, 500, 1800, 5);
            push_case(&mut cases, Workload::Skirmish, 1000, 1800, 5);
            push_case(&mut cases, Workload::Skirmish, 5000, 600, 3);
        },
    }
    assert(cases@ =~= preset_cases(config.preset));
    let ghost base = cases@;
    let mut i: usize = 0;
    while i < cases.len()
        invariant
            i <= cases@.len(),
            cases@.len() == base.len(),
            base == preset_cases(config@.preset),
            forall|k: int| 0 <= k < i ==> cases@[k] == overridden(base[k], config@),
            forall|k: int| i <= k < cases@.len() ==> cases@[k] == base[k],
        decreases cases@.len() - i,
    {
        let mut c = cases[i];
        if config.ticks_overridden {
            c.ticks = config.ticks;
        }
        if config.repeats_overridden {
            c.repeats = config.repeats;
        }
        cases.set(i, c);
        i = i + 1;
    }
    assert(cases@ =~= spec_suite_cases(config@));
    cases
}

/// The cases a headless invocation runs: the suite, or the single case the
/// command line describes, run once.
pub fn planned_cases(config: &Config) -> (r: Vec<Case>)
    ensures
        config.suite ==> r@ == spec_suite_cases(config@),
        !config.suite ==> r@ == seq![case(config.workload, config.per_team, config.ticks, 1)],
{
    if config.suite {
        suite_cases(config)
    } else {
        let mut cases: Vec<Case> = Vec::new();
        push_case(&mut cases, config.workload, config.per_team, config.ticks, 1);
        cases
    }
}

/// Report label of a headless invocation.
pub fn run_label(config: &Config) -> (r: &'static str)
    ensures
        config.suite && config.preset == SuitePreset::Quick ==> r@ == "quick"@,
        config.suite && config.preset == SuitePreset::Full ==> r@ == "full"@,
        !config.suite && config.profile_capture ==> r@ == "profile"@,
        !config.suite && !config.profile_capture ==> r@ == "custom"@,
{
    if config.suite {
        config.preset.as_str()
    } else if config.profile_capture {
        "profile"
    } else {
        "custom"
    }
}

/// Army layout of a case: crowd and skirmish stage the armies face to face,
/// the other workloads use the benchmark formation.
pub fn scenario_for(c: Case) -> (r: Scenario)
    ensures
        (c.workload == Workload::Crowd || c.workload == Workload::Skirmish) ==> r == (
        Scenario::Skirmish { per_team: c.per_team }),
        !(c.workload == Workload::Crowd || c.workload == Workload::Skirmish) ==> r == (
        Scenario::Benchmark { per_team: c.per_team }),
{
    match c.workload {
        Workload::Crowd | Workload::Skirmish => Scenario::Skirmish { per_team: c.per_team },
        _ => Scenario::Benchmark { per_team: c.per_team },
    }
}

/// Simulation systems a case loads besides navigation, units and movement.
#[derive(Clone, Copy, Debug, PartialEq, Eq, Structural)]
pub struct CasePlugins {
    /// The spatial index and crowd avoidance.
    pub spatial: bool,
    /// Weapons, targeting and projectiles.
    pub combat: bool,
}

/// A crowd needs avoidance only; skirmish and escort runs also fight.
pub fn plugins_for(workload: Workload) -> (r: CasePlugins)
    ensures
        r.spatial == (workload == Workload::Crowd || workload == Workload::Skirmish || workload
            == Workload::Guard),
        r.combat == (workload == Workload::Skirmish || workload == Workload::Guard),
{
    match workload {
        Workload::Crowd => CasePlugins { spatial: true, combat: false },
        Workload::Skirmish | Workload::Guard => CasePlugins { spatial: true, combat: true },
        _ => CasePlugins { spatial: false, combat: false },
    }
}

/// Telemetry of a measured run is refreshed every `interval` ticks after
/// the first.
pub fn telemetry_due(tick: usize, interval: usize) -> (r: bool)
    requires
        interval > 0,
    ensures
        r == (tick > 0 && tick % interval == 0),
{
    tick > 0 && tick % interval == 0
}

/// Judgement of a finished run.
#[derive(Clone, Copy, Debug, PartialEq, Eq, Structural)]
pub struct Verdict {
    pub arrived: usize,
    pub kills: usize,
    pub correctness_pass: bool,
}

/// What a run must show, per workload. `expected` is the number of units the
/// run started with, `survivors` the units left, `arrived_at_goal` the units
/// found at rest on their assigned slot, `in_bounds` whether every final
/// position was finite, on the map and (where required) clear of obstacles,
/// `guards` / `patrols` the live guard and patrol orders.
pub open spec fn spec_verdict(
    workload: Workload,
    in_bounds: bool,
    failed: usize,
    expected: usize,
    survivors: usize,
    arrived_at_goal: usize,
    guards: usize,
    patrols: usize,
) -> Verdict {
    let valid = in_bounds && (survivors == expected || workload == Workload::Skirmish);
    match workload {
        Workload::Skirmish | Workload::AiTest => {
            let kills = if expected >= survivors { (expected - survivors) as usize } else { 0 };
            Verdict {
                arrived: survivors,
                kills,
                correctness_pass: valid && failed == 0 && kills > 0 && survivors + kills == expected,
            }
        },
        Workload::Crowd => Verdict {
            arrived: survivors,
            kills: 0,
            correctness_pass: valid && failed == 0 && survivors == expected,
        },
        Workload::Guard => Verdict {
            arrived: survivors,
            kills: 0,
            correctness_pass: valid && failed == 0 && survivors == expected && patrols == 2 && guards
                + 2 == expected,
        },
        Workload::Idle | Workload::Crossing => Verdict {
            arrived: arrived_at_goal,
            kills: 0,
            correctness_pass: valid && failed == 0 && arrived_at_goal == expected,
        },
    }
}

/// Judges a finished run (see [`spec_verdict`]).
pub fn verdict(
    workload: Workload,
    in_bounds: bool,
    failed: usize,
    expected: usize,
    survivors: usize,
    arrived_at_goal: usize,
    guards: usize,
    patrols: usize,
) -> (r: Verdict)
    ensures
        r == spec_verdict(workload, in_bounds, failed, expected, survivors, arrived_at_goal, guards, patrols),
{
    let valid = in_bounds && (survivors == expected || workload == Workload::Skirmish);
    match workload {
        Workload::Skirmish | Workload::AiTest => {
            let kills = expected.saturating_sub(survivors);
            Verdict {
                arrived: survivors,
                kills,
                correctness_pass: valid && failed == 0 && kills > 0 && survivors as u128 + kills as u128
                    == expected as u128,
            }
        },
        Workload::Crowd => Verdict {
            arrived: survivors,
            kills: 0,
            correctness_pass: valid && failed == 0 && survivors == expected,
        },
        Workload::Guard => Verdict {
            arrived: survivors,
            kills: 0,
            correctness_pass: valid && failed == 0 && survivors == expected && patrols == 2
                && guards as u128 + 2 == expected as u128,
        },
        Workload::Idle | Workload::Crossing => Verdict {
            arrived: arrived_at_goal,
            kills: 0,
            correctness_pass: valid && failed == 0 && arrived_at_goal == expected,
        },
    }
}

/// No run passes out of bounds or with a failed path plan.
pub proof fn passing_runs_are_clean(
    workload: Workload,
    in_bounds: bool,
    failed: usize,
    expected: usize,
    survivors: usize,
    arrived_at_goal: usize,
    guards: usize,
    patrols: usize,
)
    ensures
        spec_verdict(workload, in_bounds, failed, expected, survivors, arrived_at_goal, guards, patrols).correctness_pass
            ==> in_bounds && failed == 0,
{
}

/// A marching run (idle or crossing) reports the units found on their
/// goal, and passes exactly when it is clean, every unit survived and
/// every unit reached its goal.
pub proof fn marches_pass_when_every_unit_arrives(
    workload: Workload,
    in_bounds: bool,
    failed: usize,
    expected: usize,
    survivors: usize,
    arrived_at_goal: usize,
    guards: usize,
    patrols: usize,
)
    requires
        workload == Workload::Idle || workload == Workload::Crossing,
    ensures
        ({
            let v = spec_verdict(workload, in_bounds, failed, expected, survivors, arrived_at_goal, guards, patrols);
            &&& v.correctness_pass <==> (in_bounds && failed == 0 && survivors == expected && arrived_at_goal
                == expected)
            &&& v.arrived == arrived_at_goal
            &&& v.kills == 0
        }),
{
}

/// A crowd run passes exactly when it is clean and nobody was lost; a
/// guard run needs besides that the two patrols and one guard order for
/// every other unit.
pub proof fn crowds_and_escorts_pass_when_nobody_is_lost(
    workload: Workload,
    in_bounds: bool,
    failed: usize,
    expected: usize,
    survivors: usize,
    arrived_at_goal: usize,
    guards: usize,
    patrols: usize,
)
    requires
        workload == Workload::Crowd || workload == Workload::Guard,
    ensures
        ({
            let v = spec_verdict(workload, in_bounds, failed, expected, survivors, arrived_at_goal, guards, patrols);
            &&& workload == Workload::Crowd ==> (v.correctness_pass <==> (in_bounds && failed == 0 && survivors
                == expected))
            &&& workload == Workload::Guard ==> (v.correctness_pass <==> (in_bounds && failed == 0 && survivors
                == expected && patrols == 2 && guards + 2 == expected))
            &&& v.arrived == survivors
            &&& v.kills == 0
        }),
{
}

/// A fight counts every missing unit as a kill (none when more units are
/// found than started) and passes only when
/// somebody died. A skirmish passes exactly when it is clean and at least
/// one unit fell; an AI test must also keep every unit, so it never does.
pub proof fn fights_pass_only_with_losses(
    workload: Workload,
    in_bounds: bool,
    failed: usize,
    expected: usize,
    survivors: usize,
    arrived_at_goal: usize,
    guards: usize,
    patrols: usize,
)
    requires
        workload == Workload::Skirmish || workload == Workload::AiTest,
    ensures
        ({
            let v = spec_verdict(workload, in_bounds, failed, expected, survivors, arrived_at_goal, guards, patrols);
            &&& survivors <= expected ==> v.kills + survivors == expected
            &&& survivors > expected ==> v.kills == 0
            &&& v.arrived == survivors
            &&& v.correctness_pass ==> survivors < expected
            &&& workload == Workload::Skirmish ==> (v.correctness_pass <==> (in_bounds && failed == 0 && survivors
                < expected))
            &&& workload == Workload::AiTest ==> !v.correctness_pass
        }),
{
}

/// Why a headless benchmark run as a whole fails.
#[derive(Clone, Copy, Debug, PartialEq, Eq, Structural)]
pub enum HeadlessError {
    /// A profile capture was asked for, but the build has no profiling
    /// support; nothing is run and nothing is written.
    ProfilingNotBuilt,
    /// At least one run failed its correctness check; the report is still
    /// written.
    ChecksFailed,
}

pub open spec fn headless_error_text(e: HeadlessError) -> Seq<char> {
    match e {
        HeadlessError::ProfilingNotBuilt => "profile capture requires Cargo feature profile-chrome"@,
        HeadlessError::ChecksFailed => "Benchmark correctness checks failed; see report.md"@,
    }
}

impl HeadlessError {
    /// The message shown for the error.
    pub fn message(self) -> (r: &'static str)
        ensures
            r@ == headless_error_text(self),
    {
        match self {
            HeadlessError::ProfilingNotBuilt => "profile capture requires Cargo feature profile-chrome",
            HeadlessError::ChecksFailed => "Benchmark correctness checks failed; see report.md",
        }
    }
}

/// The outcome of a headless benchmark. A profile capture without
/// profiling support is refused before anything runs; otherwise the
/// benchmark succeeds exactly when every run (`passes`, one flag per run,
/// each from [`verdict`] and the repeat agreement) passed its check.
pub fn headless_outcome(profile_capture: bool, profiling_built: bool, passes: &Vec<bool>) -> (r: Result<(), HeadlessError>)
    ensures
        profile_capture && !profiling_built ==> r == Err::<(), HeadlessError>(HeadlessError::ProfilingNotBuilt),
        !(profile_capture && !profiling_built) ==> (r is Ok <==> forall|i: int| 0 <= i < passes@.len() ==> #[trigger] passes@[i]),
        !(profile_capture && !profiling_built) && !(r is Ok) ==> r == Err::<(), HeadlessError>(HeadlessError::ChecksFailed),
{
    if profile_capture && !profiling_built {
        return Err(HeadlessError::ProfilingNotBuilt);
    }
    let mut i: usize = 0;
    while i < passes.len()
        invariant
            0 <= i <= passes@.len(),
            !(profile_capture && !profiling_built),
            forall|j: int| 0 <= j < i ==> #[trigger] passes@[j],
        decreases passes@.len() - i,
    {
        if !passes[i] {
            return Err(HeadlessError::ChecksFailed);
        }
        i = i + 1;
    }
    Ok(())
}

} // verus!
