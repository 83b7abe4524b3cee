use rust_rts::benchmark::cli::{Config, SecondsReading, SuitePreset, Workload};
use rust_rts::benchmark::report::profile;

fn reading(word: &str) -> SecondsReading {
    match word.parse::<f64>() {
        Err(_) => SecondsReading::Unparsable,
        Ok(v) if v.is_finite() && (1.0..=600.0).contains(&v) => SecondsReading::InRange,
        Ok(_) => SecondsReading::OutOfRange,
    }
}

fn parse(args: &[&str]) -> Result<Config, String> {
    let words: Vec<String> = args.iter().map(|arg| (*arg).to_owned()).collect();
    let readings: Vec<SecondsReading> = args.iter().map(|arg| reading(arg)).collect();
    Config::parse(&words, &readings).map(|value| value.unwrap())
}

#[test]
fn parses_presets_workloads_and_legacy_alias() {
    let quick = parse(&["--benchmark-suite", "quick"]).unwrap();
    assert!(quick.headless && quick.suite && quick.benchmark);
    assert_eq!(quick.preset, SuitePreset::Quick);

    assert_eq!(
        parse(&["--benchmark", "--headless", "--workload", "guard"])
            .unwrap()
            .workload,
        Workload::Guard
    );
    let legacy = parse(&["--benchmark", "--headless", "--skirmish"]).unwrap();
    assert_eq!(legacy.workload, Workload::Skirmish);
    assert_eq!(
        parse(&["--benchmark", "--headless", "--workload", "crowd"])
            .unwrap()
            .workload,
        Workload::Crowd
    );
}

#[test]
fn rejects_invalid_combinations() {
    for args in [
        &["--units-per-team", "0"][..],
        &["--seconds", "NaN"],
        &["--ticks"],
        &["--unknown"],
        &["--headless"],
        &["--profile-systems"],
        &["--benchmark-suite", "unknown"],
        &[
            "--benchmark",
            "--headless",
            "--profile-capture",
            "--record-history",
        ][..],
        &[
            "--benchmark",
            "--headless",
            "--profile-capture",
            "--benchmark-suite",
            "quick",
        ][..],
        &["--profile-report", "trace.json"],
    ] {
        assert!(parse(args).is_err(), "{args:?} should fail");
    }
    assert!(parse(&["--benchmark", "--headless", "--profile-capture"]).is_ok());
    assert!(parse(&["--benchmark", "--profile-capture"]).is_ok());
}

#[test]
fn parses_ai_workload_and_options() {
    let ai = parse(&["--benchmark", "--headless", "--workload", "ai-test"]).unwrap();
    assert_eq!(ai.workload, Workload::AiTest);
    assert_eq!(ai.ai, "off");
    let skirmish = parse(&[
        "--ai",
        "skirmish",
        "--ai-team",
        "1",
        "--ai-personality",
        "rusher",
    ])
    .unwrap();
    assert_eq!(skirmish.ai, "skirmish");
    assert_eq!(skirmish.ai_team, 1);
    assert_eq!(skirmish.ai_personality, "rusher");
    let both = parse(&[
        "--ai",
        "both",
        "--ai-personality",
        "turtle",
        "--ai-personality2",
        "rusher",
    ])
    .unwrap();
    assert_eq!(both.ai, "both");
    assert_eq!(both.ai_personality2, "rusher");
    let both_team = parse(&["--ai", "both", "--ai-team", "2"]).unwrap();
    assert_eq!(both_team.ai_team, 2);
    for args in [
        &["--ai", "neural"][..],
        &["--ai-team", "3"][..],
        &["--ai-personality", "random"][..],
        &["--ai-personality2", "random"][..],
    ] {
        assert!(parse(args).is_err(), "{args:?} should fail");
    }
}

#[test]
fn help_flag_asks_for_help_text() {
    let words = vec!["--help".to_owned()];
    let readings = vec![SecondsReading::Unparsable];
    assert!(matches!(Config::parse(&words, &readings), Ok(None)));
}

#[test]
fn defaults_without_arguments() {
    let config = parse(&[]).unwrap();
    assert!(!config.benchmark && !config.headless && !config.suite);
    assert_eq!(config.workload, Workload::Crossing);
    assert_eq!(config.preset, SuitePreset::Full);
    assert_eq!(config.ai, "off");
}

#[test]
fn seconds_reading_decides_duration_validity() {
    assert!(parse(&["--benchmark", "--seconds", "60"]).is_ok());
    assert!(parse(&["--benchmark", "--seconds", "0.5"]).is_err());
    assert!(parse(&["--benchmark", "--seconds", "abc"]).is_err());
}

#[test]
fn workload_names_round_trip() {
    for workload in [
        Workload::Idle,
        Workload::Crossing,
        Workload::Crowd,
        Workload::Skirmish,
        Workload::Guard,
        Workload::AiTest,
    ] {
        assert_eq!(Workload::parse(workload.as_str()), Ok(workload));
    }
    assert!(Workload::parse("stampede").is_err());
    assert_eq!(SuitePreset::Quick.as_str(), "quick");
    assert_eq!(SuitePreset::Full.as_str(), "full");
}

#[test]
fn report_profile_label_follows_build() {
    assert_eq!(profile(false), "release");
    assert_eq!(
        profile(true),
        "dev (crate opt-level=1, dependencies opt-level=3)"
    );
}
