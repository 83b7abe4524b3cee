use rust_rts::benchmark::cli::{Config, SecondsReading, SuitePreset, Workload};
use rust_rts::benchmark::suite::{
    headless_outcome, planned_cases, plugins_for, run_label, scenario_for, suite_cases, telemetry_due, verdict, Case,
    CasePlugins, HeadlessError,
};
use rust_rts::scenario::Scenario;

fn config(args: &[&str]) -> Config {
    let words: Vec<String> = args.iter().map(|a| (*a).to_owned()).collect();
    let readings = vec![SecondsReading::Unparsable; words.len()];
    Config::parse(&words, &readings).unwrap().unwrap()
}

#[test]
fn quick_suite_has_four_cases() {
    let quick = config(&["--benchmark-suite", "quick"]);
    let cases = suite_cases(&quick);
    assert_eq!(cases.len(), 4);
    assert_eq!(
        cases[1],
        Case {
            workload: Workload::Crossing,
            per_team: 1000,
            ticks: 3600,
            repeats: 3
        }
    );
    assert_eq!(run_label(&quick), "quick");
}

#[test]
fn overrides_apply_to_every_case() {
    let full = config(&["--benchmark-suite", "full", "--ticks", "120", "--repeats", "2"]);
    assert_eq!(full.preset, SuitePreset::Full);
    let cases = suite_cases(&full);
    assert_eq!(cases.len(), 12);
    assert!(cases.iter().all(|c| c.ticks == 120 && c.repeats == 2));
}

#[test]
fn single_case_runs_once() {
    let single = config(&["--benchmark", "--headless", "--workload", "guard"]);
    let cases = planned_cases(&single);
    assert_eq!(cases.len(), 1);
    assert_eq!(cases[0].workload, Workload::Guard);
    assert_eq!(cases[0].repeats, 1);
    assert_eq!(run_label(&single), "custom");
}

#[test]
fn armies_face_off_only_for_crowd_and_skirmish() {
    let case = |workload| Case {
        workload,
        per_team: 10,
        ticks: 60,
        repeats: 1,
    };
    assert_eq!(scenario_for(case(Workload::Crowd)), Scenario::Skirmish { per_team: 10 });
    assert_eq!(scenario_for(case(Workload::Skirmish)), Scenario::Skirmish { per_team: 10 });
    assert_eq!(scenario_for(case(Workload::Guard)), Scenario::Benchmark { per_team: 10 });
}

#[test]
fn verdicts_per_workload() {
    let skirmish = verdict(Workload::Skirmish, true, 0, 20, 15, 0, 0, 0);
    assert_eq!(skirmish.kills, 5);
    assert!(skirmish.correctness_pass);
    assert!(!verdict(Workload::Skirmish, true, 0, 20, 20, 0, 0, 0).correctness_pass);
    assert!(verdict(Workload::Crossing, true, 0, 20, 20, 20, 0, 0).correctness_pass);
    assert!(!verdict(Workload::Crossing, true, 1, 20, 20, 20, 0, 0).correctness_pass);
    assert!(verdict(Workload::Guard, true, 0, 20, 20, 0, 18, 2).correctness_pass);
    assert!(!verdict(Workload::Guard, true, 0, 20, 20, 0, 17, 2).correctness_pass);
    assert!(!verdict(Workload::Crowd, false, 0, 20, 20, 0, 0, 0).correctness_pass);
}

#[test]
fn workloads_load_only_the_systems_they_measure() {
    assert_eq!(plugins_for(Workload::Crowd), CasePlugins { spatial: true, combat: false });
    assert_eq!(plugins_for(Workload::Skirmish), CasePlugins { spatial: true, combat: true });
    assert_eq!(plugins_for(Workload::Guard), CasePlugins { spatial: true, combat: true });
    for w in [Workload::Idle, Workload::Crossing, Workload::AiTest] {
        assert_eq!(plugins_for(w), CasePlugins { spatial: false, combat: false });
    }
}

#[test]
fn telemetry_refreshes_on_interval_ticks_after_the_first() {
    let due: Vec<usize> = (0..100).filter(|t| telemetry_due(*t, 30)).collect();
    assert_eq!(due, vec![30, 60, 90]);
    assert!(!telemetry_due(0, 1));
    assert!(telemetry_due(1, 1));
}

#[test]
fn profile_capture_without_profiling_is_refused_first() {
    assert_eq!(headless_outcome(true, false, &vec![true, true]), Err(HeadlessError::ProfilingNotBuilt));
    assert_eq!(headless_outcome(true, false, &vec![false]), Err(HeadlessError::ProfilingNotBuilt));
    assert_eq!(
        HeadlessError::ProfilingNotBuilt.message(),
        "profile capture requires Cargo feature profile-chrome"
    );
}

#[test]
fn headless_run_passes_only_when_every_run_passes() {
    assert_eq!(headless_outcome(false, false, &vec![true, true, true]), Ok(()));
    assert_eq!(headless_outcome(true, true, &vec![true]), Ok(()));
    assert_eq!(headless_outcome(false, false, &vec![]), Ok(()));
    assert_eq!(headless_outcome(false, true, &vec![true, false, true]), Err(HeadlessError::ChecksFailed));
    assert_eq!(
        HeadlessError::ChecksFailed.message(),
        "Benchmark correctness checks failed; see report.md"
    );
}
