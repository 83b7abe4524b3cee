//! Command-line grammar of the benchmark and match launcher.
//!
//! Durations are the one floating-point option: the caller reads each word
//! as a number once and hands the verdict in as a [`SecondsReading`], so the
//! grammar itself stays exact.
use crate::text::{
    dash_prefixed, parse_unsigned, spec_parse_unsigned, starts_with_dash, str_equals,
};
use vstd::prelude::*;

verus! {

/// Benchmark workloads.
#[derive(Clone, Copy, Debug, PartialEq, Eq, Hash, Structural)]
pub enum Workload {
    Idle,
    Crossing,
    Crowd,
    Skirmish,
    Guard,
    AiTest,
}

/// Benchmark suite presets.
#[derive(Clone, Copy, Debug, PartialEq, Eq, Structural)]
pub enum SuitePreset {
    Quick,
    Full,
}

/// What a `--seconds` word reads as, decided by the caller's number reader:
/// not a number at all, a finite value in `1..=600`, or any other value.
#[derive(Clone, Copy, Debug, PartialEq, Eq, Structural)]
pub enum SecondsReading {
    Unparsable,
    InRange,
    OutOfRange,
}

pub open spec fn workload_name(w: Workload) -> Seq<char> {
    match w {
        Workload::Idle => "idle"@,
        Workload::Crossing => "crossing"@,
        Workload::Crowd => "crowd"@,
        Workload::Skirmish => "skirmish"@,
        Workload::Guard => "guard"@,
        Workload::AiTest => "ai-test"@,
    }
}

pub open spec fn spec_parse_workload(s: Seq<char>) -> Option<Workload> {
    if s == "idle"@ {
        Some(Workload::Idle)
    } else if s == "crossing"@ {
        Some(Workload::Crossing)
    } else if s == "crowd"@ {
        Some(Workload::Crowd)
    } else if s == "skirmish"@ {
        Some(Workload::Skirmish)
    } else if s == "guard"@ {
        Some(Workload::Guard)
    } else if s == "ai-test"@ {
        Some(Workload::AiTest)
    } else {
        None
    }
}

pub open spec fn workload_error(s: Seq<char>) -> Seq<char> {
    "Unknown workload '"@ + s
        + "'; use idle, crossing, crowd, skirmish, guard or ai-test"@
}

pub open spec fn preset_name(p: SuitePreset) -> Seq<char> {
    match p {
        SuitePreset::Quick => "quick"@,
        SuitePreset::Full => "full"@,
    }
}

impl Default for Workload {
    fn default() -> (r: Self)
        ensures
            r == Workload::Crossing,
    {
        Workload::Crossing
    }
}

impl Default for SuitePreset {
    fn default() -> (r: Self)
        ensures
            r == SuitePreset::Full,
    {
        SuitePreset::Full
    }
}

impl Workload {
    /// Command-line spelling of the workload.
    pub fn as_str(self) -> (r: &'static str)
        ensures
            r@ == workload_name(self),
    {
        match self {
            Workload::Idle => "idle",
            Workload::Crossing => "crossing",
            Workload::Crowd => "crowd",
            Workload::Skirmish => "skirmish",
            Workload::Guard => "guard",
            Workload::AiTest => "ai-test",
        }
    }

    /// Reads a workload name; any other word is an error that lists the
    /// valid names.
    pub fn parse(value: &str) -> (r: Result<Workload, String>)
        ensures
            match r {
                Ok(w) => spec_parse_workload(value@) == Some(w),
                Err(e) => spec_parse_workload(value@) is None && e@ == workload_error(value@),
            },
    {
        if str_equals(value, "idle") {
            Ok(Workload::Idle)
        } else if str_equals(value, "crossing") {
            Ok(Workload::Crossing)
        } else if str_equals(value, "crowd") {
            Ok(Workload::Crowd)
        } else if str_equals(value, "skirmish") {
            Ok(Workload::Skirmish)
        } else if str_equals(value, "guard") {
            Ok(Workload::Guard)
        } else if str_equals(value, "ai-test") {
            Ok(Workload::AiTest)
        } else {
            let mut e = String::from_str("Unknown workload '");
            e.append(value);
            e.append("'; use idle, crossing, crowd, skirmish, guard or ai-test");
            Err(e)
        }
    }
}

impl SuitePreset {
    /// Command-line spelling of the preset.
    pub fn as_str(self) -> (r: &'static str)
        ensures
            r@ == preset_name(self),
    {
        match self {
            SuitePreset::Quick => "quick",
            SuitePreset::Full => "full",
        }
    }
}

/// Launch configuration. Paths and free-form words stay text; the duration
/// keeps the word it was given (`None` for the 30 s default) together with
/// its reading.
#[derive(Clone, Debug)]
pub struct Config {
    pub benchmark: bool,
    pub economy_benchmark: bool,
    pub suite: bool,
    pub preset: SuitePreset,
    pub headless: bool,
    pub workload: Workload,
    pub profile_capture: bool,
    pub record_history: bool,
    pub history_report: bool,
    pub profile_report: Option<String>,
    pub profile_run: Option<String>,
    pub per_team: usize,
    pub ticks: usize,
    pub repeats: usize,
    pub ticks_overridden: bool,
    pub repeats_overridden: bool,
    pub seconds: Option<String>,
    pub seconds_reading: SecondsReading,
    pub output: Option<String>,
    pub ai: String,
    /// 0 = blue, 1 = red, 2 = both (AI-versus-AI demo).
    pub ai_team: u8,
    /// Personality of the red team (or of the only AI team).
    pub ai_personality: String,
    /// Personality of the blue team when both teams are AI.
    pub ai_personality2: String,
}

/// Mathematical view of a [`Config`]: text fields as character sequences.
pub struct ConfigView {
    pub benchmark: bool,
    pub economy_benchmark: bool,
    pub suite: bool,
    pub preset: SuitePreset,
    pub headless: bool,
    pub workload: Workload,
    pub profile_capture: bool,
    pub record_history: bool,
    pub history_report: bool,
    pub profile_report: Option<Seq<char>>,
    pub profile_run: Option<Seq<char>>,
    pub per_team: usize,
    pub ticks: usize,
    pub repeats: usize,
    pub ticks_overridden: bool,
    pub repeats_overridden: bool,
    pub seconds: Option<Seq<char>>,
    pub seconds_reading: SecondsReading,
    pub output: Option<Seq<char>>,
    pub ai: Seq<char>,
    pub ai_team: u8,
    pub ai_personality: Seq<char>,
    pub ai_personality2: Seq<char>,
}

pub open spec fn text_view(o: Option<String>) -> Option<Seq<char>> {
    match o {
        Some(s) => Some(s@),
        None => None,
    }
}

impl View for Config {
    type V = ConfigView;

    open spec fn view(&self) -> ConfigView {
        ConfigView {
            benchmark: self.benchmark,
            economy_benchmark: self.economy_benchmark,
            suite: self.suite,
            preset: self.preset,
            headless: self.headless,
            workload: self.workload,
            profile_capture: self.profile_capture,
            record_history: self.record_history,
            history_report: self.history_report,
            profile_report: text_view(self.profile_report),
            profile_run: text_view(self.profile_run),
            per_team: self.per_team,
            ticks: self.ticks,
            repeats: self.repeats,
            ticks_overridden: self.ticks_overridden,
            repeats_overridden: self.repeats_overridden,
            seconds: text_view(self.seconds),
            seconds_reading: self.seconds_reading,
            output: text_view(self.output),
            ai: self.ai@,
            ai_team: self.ai_team,
            ai_personality: self.ai_personality@,
            ai_personality2: self.ai_personality2@,
        }
    }
}

/// The defaults: graphical crossing, 1000 units per team, 1800 ticks,
/// 3 repeats, 30 s, AI off on the red team (turtle), blue demo AI rusher.
pub open spec fn default_view() -> ConfigView {
    ConfigView {
        benchmark: false,
        economy_benchmark: false,
        suite: false,
        preset: SuitePreset::Full,
        headless: false,
        workload: Workload::Crossing,
        profile_capture: false,
        record_history: false,
        history_report: false,
        profile_report: None,
        profile_run: None,
        per_team: 1000,
        ticks: 1800,
        repeats: 3,
        ticks_overridden: false,
        repeats_overridden: false,
        seconds: None,
        seconds_reading: SecondsReading::InRange,
        output: None,
        ai: "off"@,
        ai_team: 1,
        ai_personality: "turtle"@,
        ai_personality2: "rusher"@,
    }
}

/// Options that take the next word as their value.
pub open spec fn takes_value(a: Seq<char>) -> bool {
    ||| a == "--workload"@
    ||| a == "--units-per-team"@
    ||| a == "--ticks"@
    ||| a == "--repeats"@
    ||| a == "--seconds"@
    ||| a == "--output"@
    ||| a == "--profile-report"@
    ||| a == "--profile-run"@
    ||| a == "--ai"@
    ||| a == "--ai-team"@
    ||| a == "--ai-personality"@
    ||| a == "--ai-personality2"@
}

/// Effect of a valued option `a` with value `v` (whose duration reading is
/// `reading`) on the configuration being built.
pub open spec fn apply_value(
    a: Seq<char>,
    v: Seq<char>,
    reading: SecondsReading,
    c: ConfigView,
) -> Result<ConfigView, Seq<char>> {
    if a == "--workload"@ {
        match spec_parse_workload(v) {
            Some(w) => Ok(ConfigView { workload: w, ..c }),
            None => Err(workload_error(v)),
        }
    } else if a == "--units-per-team"@ {
        match spec_parse_unsigned(v, usize::MAX as nat) {
            Some(n) => Ok(ConfigView { per_team: n as usize, ..c }),
            None => Err("Invalid unit count"@),
        }
    } else if a == "--ticks"@ {
        match spec_parse_unsigned(v, usize::MAX as nat) {
            Some(n) => Ok(ConfigView { ticks: n as usize, ticks_overridden: true, ..c }),
            None => Err("Invalid tick count"@),
        }
    } else if a == "--repeats"@ {
        match spec_parse_unsigned(v, usize::MAX as nat) {
            Some(n) => Ok(ConfigView { repeats: n as usize, repeats_overridden: true, ..c }),
            None => Err("Invalid repeat count"@),
        }
    } else if a == "--seconds"@ {
        if reading == SecondsReading::Unparsable {
            Err("Invalid duration"@)
        } else {
            Ok(ConfigView { seconds: Some(v), seconds_reading: reading, ..c })
        }
    } else if a == "--ai-team"@ {
        match spec_parse_unsigned(v, u8::MAX as nat) {
            Some(n) => Ok(ConfigView { ai_team: n as u8, ..c }),
            None => Err("Invalid AI team"@),
        }
    } else if a == "--profile-report"@ {
        Ok(ConfigView { profile_report: Some(v), ..c })
    } else if a == "--profile-run"@ {
        Ok(ConfigView { profile_run: Some(v), ..c })
    } else if a == "--ai"@ {
        Ok(ConfigView { ai: v, ..c })
    } else if a == "--ai-personality"@ {
        Ok(ConfigView { ai_personality: v, ..c })
    } else if a == "--ai-personality2"@ {
        Ok(ConfigView { ai_personality2: v, ..c })
    } else {
        Ok(ConfigView { output: Some(v), ..c })
    }
}

/// Reads the words from position `i` on, starting from configuration `c`:
/// `Ok(None)` for a help request, `Ok(Some(_))` for the configuration built
/// when the words run out, `Err(_)` for the first unusable word.
pub open spec fn scan(
    args: Seq<Seq<char>>,
    readings: Seq<SecondsReading>,
    i: int,
    c: ConfigView,
) -> Result<Option<ConfigView>, Seq<char>>
    decreases args.len() - i,
{
    if i < 0 || i >= args.len() {
        Ok(Some(c))
    } else {
        let a = args[i];
        if a == "--help"@ || a == "-h"@ {
            Ok(None)
        } else if switch_effect(a, c) is Some {
            scan(args, readings, i + 1, switch_effect(a, c)->0)
        } else if a == "--benchmark-suite"@ {
            let c2 = ConfigView { benchmark: true, suite: true, headless: true, ..c };
            if i + 1 < args.len() && !starts_with_dash(args[i + 1]) {
                let v = args[i + 1];
                if v == "quick"@ {
                    scan(args, readings, i + 2, ConfigView { preset: SuitePreset::Quick, ..c2 })
                } else if v == "full"@ {
                    scan(args, readings, i + 2, ConfigView { preset: SuitePreset::Full, ..c2 })
                } else {
                    Err("Unknown suite preset '"@ + v + "'; use quick or full"@)
                }
            } else {
                scan(args, readings, i + 1, c2)
            }
        } else if a == "--profile-systems"@ {
            Err("--profile-systems was replaced by scripts/profile.sh (Chrome Trace)"@)
        } else if takes_value(a) {
            if i + 1 >= args.len() {
                Err("Missing value for "@ + a)
            } else {
                match apply_value(a, args[i + 1], readings[i + 1], c) {
                    Ok(c3) => scan(args, readings, i + 2, c3),
                    Err(e) => Err(e),
                }
            }
        } else {
            Err("Unknown option: "@ + a)
        }
    }
}

pub open spec fn is_ai_mode(s: Seq<char>) -> bool {
    s == "off"@ || s == "test"@ || s == "skirmish"@ || s == "both"@
}

pub open spec fn is_personality(s: Seq<char>) -> bool {
    s == "turtle"@ || s == "rusher"@
}

/// The checks applied once every word has been read. Report requests skip
/// the benchmark bounds; otherwise the first violated rule is reported.
pub open spec fn validate(c: ConfigView) -> Result<Option<ConfigView>, Seq<char>> {
    if c.history_report || c.profile_report is Some {
        if (c.profile_report is Some) != (c.profile_run is Some) {
            Err("Use --profile-report and --profile-run together"@)
        } else {
            Ok(Some(c))
        }
    } else if !(1 <= c.per_team <= 10_000) {
        Err("Units per team must be 1..10000"@)
    } else if !(60 <= c.ticks <= 36_000) {
        Err("Ticks must be 60..36000"@)
    } else if !(1 <= c.repeats <= 10) {
        Err("Repeats must be 1..10"@)
    } else if c.seconds_reading != SecondsReading::InRange {
        Err("Seconds must be 1..600"@)
    } else if c.headless && !c.benchmark {
        Err("Use --headless with --benchmark or --benchmark-suite"@)
    } else if c.profile_capture && (!c.benchmark || c.suite) {
        Err("Profile capture requires one benchmark case (headless or graphical)"@)
    } else if c.record_history && !c.suite {
        Err("Benchmark history can only record a complete suite"@)
    } else if !is_ai_mode(c.ai) {
        Err("AI mode must be off|test|skirmish|both"@)
    } else if c.ai_team > 2 {
        Err("AI team must be 0, 1 or 2 (both)"@)
    } else if !is_personality(c.ai_personality) {
        Err("AI personality must be turtle|rusher"@)
    } else if !is_personality(c.ai_personality2) {
        Err("AI personality2 must be turtle|rusher"@)
    } else {
        Ok(Some(c))
    }
}

/// The whole command line, read from the defaults.
pub open spec fn spec_parse(args: Seq<Seq<char>>, readings: Seq<SecondsReading>) -> Result<
    Option<ConfigView>,
    Seq<char>,
> {
    match scan(args, readings, 0, default_view()) {
        Ok(Some(c)) => validate(c),
        other => other,
    }
}

pub open spec fn words(args: Seq<String>) -> Seq<Seq<char>> {
    args.map_values(|s: String| s@)
}

/// How a parse result compares with its specification.
pub open spec fn parse_matches(
    r: Result<Option<Config>, String>,
    s: Result<Option<ConfigView>, Seq<char>>,
) -> bool {
    match r {
        Ok(Some(c)) => s == Ok::<Option<ConfigView>, Seq<char>>(Some(c@)),
        Ok(None) => s == Ok::<Option<ConfigView>, Seq<char>>(None),
        Err(e) => s == Err::<Option<ConfigView>, Seq<char>>(e@),
    }
}

impl Default for Config {
    fn default() -> (r: Self)
        ensures
            r@ == default_view(),
    {
        Config {
            benchmark: false,
            economy_benchmark: false,
            suite: false,
            preset: SuitePreset::Full,
            headless: false,
            workload: Workload::Crossing,
            profile_capture: false,
            record_history: false,
            history_report: false,
            profile_report: None,
            profile_run: None,
            per_team: 1000,
            ticks: 1800,
            repeats: 3,
            ticks_overridden: false,
            repeats_overridden: false,
            seconds: None,
            seconds_reading: SecondsReading::InRange,
            output: None,
            ai: String::from_str("off"),
            ai_team: 1,
            ai_personality: String::from_str("turtle"),
            ai_personality2: String::from_str("rusher"),
        }
    }
}

fn message(text: &str) -> (r: String)
    ensures
        r@ == text@,
{
    String::from_str(text)
}

fn message_with(prefix: &str, word: &str, suffix: &str) -> (r: String)
    ensures
        r@ == prefix@ + word@ + suffix@,
{
    let mut e = String::from_str(prefix);
    e.append(word);
    e.append(suffix);
    e
}

fn message_after(prefix: &str, word: &str) -> (r: String)
    ensures
        r@ == prefix@ + word@,
{
    let mut e = String::from_str(prefix);
    e.append(word);
    e
}

fn is_value_option(a: &str) -> (r: bool)
    ensures
        r == takes_value(a@),
{
    str_equals(a, "--workload") || str_equals(a, "--units-per-team") || str_equals(a, "--ticks")
        || str_equals(a, "--repeats") || str_equals(a, "--seconds") || str_equals(a, "--output")
        || str_equals(a, "--profile-report") || str_equals(a, "--profile-run") || str_equals(
        a,
        "--ai",
    ) || str_equals(a, "--ai-team") || str_equals(a, "--ai-personality") || str_equals(
        a,
        "--ai-personality2",
    )
}

fn copy_text(s: &String) -> (r: String)
    ensures
        r@ == s@,
{
    s.clone()
}

fn set_workload(config: &mut Config, value: &str) -> (r: Result<(), String>)
    ensures
        match spec_parse_workload(value@) {
            Some(w) => r is Ok && final(config)@ == ConfigView { workload: w, ..old(config)@ },
            None => r matches Err(m) && m@ == workload_error(value@),
        },
{
    match Workload::parse(value) {
        Ok(w) => {
            config.workload = w;
            Ok(())
        },
        Err(e) => Err(e),
    }
}

fn set_per_team(config: &mut Config, value: &str) -> (r: Result<(), String>)
    ensures
        match spec_parse_unsigned(value@, usize::MAX as nat) {
            Some(n) => r is Ok && final(config)@ == ConfigView { per_team: n as usize, ..old(config)@ },
            None => r matches Err(m) && m@ == "Invalid unit count"@,
        },
{
    match parse_unsigned(value, usize::MAX as u64) {
        Some(n) => {
            config.per_team = n as usize;
            Ok(())
        },
        None => Err(message("Invalid unit count")),
    }
}

fn set_ticks(config: &mut Config, value: &str) -> (r: Result<(), String>)
    ensures
        match spec_parse_unsigned(value@, usize::MAX as nat) {
            Some(n) => r is Ok && final(config)@ == ConfigView {
                ticks: n as usize,
                ticks_overridden: true,
                ..old(config)@
            },
            None => r matches Err(m) && m@ == "Invalid tick count"@,
        },
{
    match parse_unsigned(value, usize::MAX as u64) {
        Some(n) => {
            config.ticks = n as usize;
            config.ticks_overridden = true;
            Ok(())
        },
        None => Err(message("Invalid tick count")),
    }
}

fn set_repeats(config: &mut Config, value: &str) -> (r: Result<(), String>)
    ensures
        match spec_parse_unsigned(value@, usize::MAX as nat) {
            Some(n) => r is Ok && final(config)@ == ConfigView {
                repeats: n as usize,
                repeats_overridden: true,
                ..old(config)@
            },
            None => r matches Err(m) && m@ == "Invalid repeat count"@,
        },
{
    match parse_unsigned(value, usize::MAX as u64) {
        Some(n) => {
            config.repeats = n as usize;
            config.repeats_overridden = true;
            Ok(())
        },
        None => Err(message("Invalid repeat count")),
    }
}

fn set_seconds(config: &mut Config, v: &String, reading: SecondsReading) -> (r: Result<(), String>)
    ensures
        if reading == SecondsReading::Unparsable {
            r matches Err(m) && m@ == "Invalid duration"@
        } else {
            r is Ok && final(config)@ == ConfigView {
                seconds: Some(v@),
                seconds_reading: reading,
                ..old(config)@
            }
        },
{
    if reading == SecondsReading::Unparsable {
        Err(message("Invalid duration"))
    } else {
        config.seconds = Some(copy_text(v));
        config.seconds_reading = reading;
        Ok(())
    }
}

fn set_ai_team(config: &mut Config, value: &str) -> (r: Result<(), String>)
    ensures
        match spec_parse_unsigned(value@, u8::MAX as nat) {
            Some(n) => r is Ok && final(config)@ == ConfigView { ai_team: n as u8, ..old(config)@ },
            None => r matches Err(m) && m@ == "Invalid AI team"@,
        },
{
    match parse_unsigned(value, u8::MAX as u64) {
        Some(n) => {
            config.ai_team = n as u8;
            Ok(())
        },
        None => Err(message("Invalid AI team")),
    }
}

fn set_text(config: &mut Config, a: &str, v: &String, reading: SecondsReading)
    requires
        takes_value(a@),
        a@ != "--workload"@,
        a@ != "--units-per-team"@,
        a@ != "--ticks"@,
        a@ != "--repeats"@,
        a@ != "--seconds"@,
        a@ != "--ai-team"@,
    ensures
        apply_value(a@, v@, reading, old(config)@) == Ok::<ConfigView, Seq<char>>(final(config)@),
{
    if str_equals(a, "--profile-report") {
        config.profile_report = Some(copy_text(v));
    } else if str_equals(a, "--profile-run") {
        config.profile_run = Some(copy_text(v));
    } else if str_equals(a, "--ai") {
        config.ai = copy_text(v);
    } else if str_equals(a, "--ai-personality") {
        config.ai_personality = copy_text(v);
    } else if str_equals(a, "--ai-personality2") {
        config.ai_personality2 = copy_text(v);
    } else {
        config.output = Some(copy_text(v));
    }
}

/// Applies valued option `a` with value `v` to `config`.
fn set_value(config: &mut Config, a: &str, v: &String, reading: SecondsReading) -> (r: Result<
    (),
    String,
>)
    requires
        takes_value(a@),
    ensures
        match apply_value(a@, v@, reading, old(config)@) {
            Ok(c) => r is Ok && final(config)@ == c,
            Err(e) => r matches Err(m) && m@ == e,
        },
{
    let value = v.as_str();
    if str_equals(a, "--workload") {
        set_workload(config, value)
    } else if str_equals(a, "--units-per-team") {
        set_per_team(config, value)
    } else if str_equals(a, "--ticks") {
        set_ticks(config, value)
    } else if str_equals(a, "--repeats") {
        set_repeats(config, value)
    } else if str_equals(a, "--seconds") {
        set_seconds(config, v, reading)
    } else if str_equals(a, "--ai-team") {
        set_ai_team(config, value)
    } else {
        set_text(config, a, v, reading);
        Ok(())
    }
}

/// Outcome of reading the word at one position.
enum Step {
    Help,
    Next(usize),
    Fail(String),
}

/// Effect of a word that is a plain switch, if it is one.
pub open spec fn switch_effect(a: Seq<char>, c: ConfigView) -> Option<ConfigView> {
    if a == "--benchmark"@ {
        Some(ConfigView { benchmark: true, ..c })
    } else if a == "--economy-benchmark"@ {
        Some(ConfigView { economy_benchmark: true, ..c })
    } else if a == "--headless"@ {
        Some(ConfigView { headless: true, ..c })
    } else if a == "--skirmish"@ {
        Some(ConfigView { workload: Workload::Skirmish, ..c })
    } else if a == "--record-history"@ {
        Some(ConfigView { record_history: true, ..c })
    } else if a == "--history-report"@ {
        Some(ConfigView { history_report: true, ..c })
    } else if a == "--profile-capture"@ {
        Some(ConfigView { profile_capture: true, ..c })
    } else {
        None
    }
}

fn apply_switch(config: &mut Config, a: &str) -> (r: bool)
    ensures
        r == (switch_effect(a@, old(config)@) is Some),
        r ==> final(config)@ == switch_effect(a@, old(config)@)->0,
        !r ==> *final(config) == *old(config),
{
    if str_equals(a, "--benchmark") {
        config.benchmark = true;
        true
    } else if str_equals(a, "--economy-benchmark") {
        config.economy_benchmark = true;
        true
    } else if str_equals(a, "--headless") {
        config.headless = true;
        true
    } else if str_equals(a, "--skirmish") {
        config.workload = Workload::Skirmish;
        true
    } else if str_equals(a, "--record-history") {
        config.record_history = true;
        true
    } else if str_equals(a, "--history-report") {
        config.history_report = true;
        true
    } else if str_equals(a, "--profile-capture") {
        config.profile_capture = true;
        true
    } else {
        false
    }
}

fn step(config: &mut Config, args: &Vec<String>, readings: &Vec<SecondsReading>, i: usize) -> (r: Step)
    requires
        i < args@.len(),
        readings@.len() == args@.len(),
    ensures
        match r {
            Step::Help => scan(words(args@), readings@, i as int, old(config)@) == Ok::<
                Option<ConfigView>,
                Seq<char>,
            >(None),
            Step::Next(j) => i < j <= args@.len() && scan(words(args@), readings@, i as int, old(config)@)
                == scan(words(args@), readings@, j as int, final(config)@),
            Step::Fail(e) => scan(words(args@), readings@, i as int, old(config)@) == Err::<
                Option<ConfigView>,
                Seq<char>,
            >(e@),
        },
{
    let ghost w = words(args@);
    let n = args.len();
    let a = args[i].as_str();
    assert(w[i as int] == a@);
    if str_equals(a, "--help") || str_equals(a, "-h") {
        return Step::Help;
    }
    if apply_switch(config, a) {
        return Step::Next(i + 1);
    }
    if str_equals(a, "--benchmark-suite") {
        config.benchmark = true;
        config.suite = true;
        config.headless = true;
        if i + 1 < n && !dash_prefixed(args[i + 1].as_str()) {
            let v = args[i + 1].as_str();
            assert(w[i + 1] == v@);
            if str_equals(v, "quick") {
                config.preset = SuitePreset::Quick;
            } else if str_equals(v, "full") {
                config.preset = SuitePreset::Full;
            } else {
                return Step::Fail(message_with("Unknown suite preset '", v, "'; use quick or full"));
            }
            return Step::Next(i + 2);
        }
        return Step::Next(i + 1);
    }
    if str_equals(a, "--profile-systems") {
        return Step::Fail(message("--profile-systems was replaced by scripts/profile.sh (Chrome Trace)"));
    }
    if is_value_option(a) {
        if i + 1 >= n {
            return Step::Fail(message_after("Missing value for ", a));
        }
        assert(w[i + 1] == args@[i + 1]@);
        return match set_value(config, a, &args[i + 1], readings[i + 1]) {
            Ok(()) => Step::Next(i + 2),
            Err(e) => Step::Fail(e),
        };
    }
    Step::Fail(message_after("Unknown option: ", a))
}

fn check(config: Config) -> (r: Result<Option<Config>, String>)
    ensures
        parse_matches(r, validate(config@)),
{
    if config.history_report || config.profile_report.is_some() {
        if config.profile_report.is_some() != config.profile_run.is_some() {
            return Err(message("Use --profile-report and --profile-run together"));
        }
        return Ok(Some(config));
    }
    if !(1 <= config.per_team && config.per_team <= 10_000) {
        return Err(message("Units per team must be 1..10000"));
    }
    if !(60 <= config.ticks && config.ticks <= 36_000) {
        return Err(message("Ticks must be 60..36000"));
    }
    if !(1 <= config.repeats && config.repeats <= 10) {
        return Err(message("Repeats must be 1..10"));
    }
    if config.seconds_reading != SecondsReading::InRange {
        return Err(message("Seconds must be 1..600"));
    }
    if config.headless && !config.benchmark {
        return Err(message("Use --headless with --benchmark or --benchmark-suite"));
    }
    if config.profile_capture && (!config.benchmark || config.suite) {
        return Err(message("Profile capture requires one benchmark case (headless or graphical)"));
    }
    if config.record_history && !config.suite {
        return Err(message("Benchmark history can only record a complete suite"));
    }
    let ai = config.ai.as_str();
    if !(str_equals(ai, "off") || str_equals(ai, "test") || str_equals(ai, "skirmish")
        || str_equals(ai, "both")) {
        return Err(message("AI mode must be off|test|skirmish|both"));
    }
    if config.ai_team > 2 {
        return Err(message("AI team must be 0, 1 or 2 (both)"));
    }
    let p1 = config.ai_personality.as_str();
    if !(str_equals(p1, "turtle") || str_equals(p1, "rusher")) {
        return Err(message("AI personality must be turtle|rusher"));
    }
    let p2 = config.ai_personality2.as_str();
    if !(str_equals(p2, "turtle") || str_equals(p2, "rusher")) {
        return Err(message("AI personality2 must be turtle|rusher"));
    }
    Ok(Some(config))
}

impl Config {
    /// Reads the command line. `readings[i]` is the caller's number reading
    /// of `args[i]`; only the words given to `--seconds` consult it.
    /// `Ok(None)` asks for the help text.
    pub fn parse(args: &Vec<String>, readings: &Vec<SecondsReading>) -> (r: Result<
        Option<Config>,
        String,
    >)
        requires
            readings@.len() == args@.len(),
        ensures
            parse_matches(r, spec_parse(words(args@), readings@)),
    {
        let ghost w = words(args@);
        let mut config = Config::default();
        let n = args.len();
        let mut i: usize = 0;
        while i < n
            invariant
                n == args@.len(),
                readings@.len() == n,
                w == words(args@),
                i <= n,
                scan(w, readings@, 0, default_view()) == scan(w, readings@, i as int, config@),
            decreases n - i,
        {
            match step(&mut config, args, readings, i) {
                Step::Help => {
                    return Ok(None);
                },
                Step::Next(j) => {
                    i = j;
                },
                Step::Fail(e) => {
                    return Err(e);
                },
            }
        }
        check(config)
    }
}

} // verus!
