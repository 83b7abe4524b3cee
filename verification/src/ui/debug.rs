//! Opt-in presentation diagnostics: which tools are on and what they may show.
use crate::session::ViewState;
use vstd::prelude::*;

verus! {

/// Number of diagnostic tools.
pub const TOOL_COUNT: usize = 11;

#[derive(Clone, Copy, Debug, PartialEq, Eq, Structural)]
pub enum DebugTool {
    Performance,
    Simulation,
    Navigation,
    Economy,
    Decisions,
    Knowledge,
    Units,
    Buildings,
    Bases,
    Routes,
    Inspector,
}

pub open spec fn tool_index(t: DebugTool) -> int {
    match t {
        DebugTool::Performance => 0,
        DebugTool::Simulation => 1,
        DebugTool::Navigation => 2,
        DebugTool::Economy => 3,
        DebugTool::Decisions => 4,
        DebugTool::Knowledge => 5,
        DebugTool::Units => 6,
        DebugTool::Buildings => 7,
        DebugTool::Bases => 8,
        DebugTool::Routes => 9,
        DebugTool::Inspector => 10,
    }
}

pub open spec fn tool_label(t: DebugTool) -> Seq<char> {
    match t {
        DebugTool::Performance => "Performance"@,
        DebugTool::Simulation => "Simulation"@,
        DebugTool::Navigation => "Navigation"@,
        DebugTool::Economy => "Economy"@,
        DebugTool::Decisions => "AI decisions"@,
        DebugTool::Knowledge => "AI knowledge"@,
        DebugTool::Units => "AI unit markers"@,
        DebugTool::Buildings => "AI building markers"@,
        DebugTool::Bases => "AI base markers"@,
        DebugTool::Routes => "Selected routes"@,
        DebugTool::Inspector => "Entity inspector"@,
    }
}

impl DebugTool {
    /// Every tool, in panel order.
    pub fn all() -> (r: [DebugTool; 11])
        ensures
            forall|i: int| 0 <= i < 11 ==> tool_index(#[trigger] r@[i]) == i,
    {
        [
            DebugTool::Performance,
            DebugTool::Simulation,
            DebugTool::Navigation,
            DebugTool::Economy,
            DebugTool::Decisions,
            DebugTool::Knowledge,
            DebugTool::Units,
            DebugTool::Buildings,
            DebugTool::Bases,
            DebugTool::Routes,
            DebugTool::Inspector,
        ]
    }

    /// Position of the tool in the panel and in the settings array.
    pub fn index(self) -> (r: usize)
        ensures
            r == tool_index(self),
            r < TOOL_COUNT,
    {
        match self {
            DebugTool::Performance => 0,
            DebugTool::Simulation => 1,
            DebugTool::Navigation => 2,
            DebugTool::Economy => 3,
            DebugTool::Decisions => 4,
            DebugTool::Knowledge => 5,
            DebugTool::Units => 6,
            DebugTool::Buildings => 7,
            DebugTool::Bases => 8,
            DebugTool::Routes => 9,
            DebugTool::Inspector => 10,
        }
    }

    pub fn label(self) -> (r: &'static str)
        ensures
            r@ == tool_label(self),
    {
        match self {
            DebugTool::Performance => "Performance",
            DebugTool::Simulation => "Simulation",
            DebugTool::Navigation => "Navigation",
            DebugTool::Economy => "Economy",
            DebugTool::Decisions => "AI decisions",
            DebugTool::Knowledge => "AI knowledge",
            DebugTool::Units => "AI unit markers",
            DebugTool::Buildings => "AI building markers",
            DebugTool::Bases => "AI base markers",
            DebugTool::Routes => "Selected routes",
            DebugTool::Inspector => "Entity inspector",
        }
    }
}

/// Number of `true` entries.
pub open spec fn count_on(s: Seq<bool>) -> nat
    decreases s.len(),
{
    if s.len() == 0 {
        0
    } else {
        count_on(s.drop_last()) + if s.last() { 1nat } else { 0nat }
    }
}

/// Diagnostics panel state. Opening the panel enables no tool by itself.
#[derive(Clone, Copy, Debug)]
pub struct DebugSettings {
    pub open: bool,
    pub tools: [bool; 11],
    /// Restrict team-private overlays to one team.
    pub team: Option<u8>,
    pub selected_only: bool,
    pub full_view: bool,
}

impl Default for DebugSettings {
    fn default() -> (r: Self)
        ensures
            !r.open,
            forall|i: int| 0 <= i < 11 ==> !#[trigger] r.tools@[i],
            r.team is None,
            !r.selected_only,
            !r.full_view,
    {
        DebugSettings { open: false, tools: [false; 11], team: None, selected_only: false, full_view: false }
    }
}

impl DebugSettings {
    pub fn on(&self, tool: DebugTool) -> (r: bool)
        ensures
            r == self.tools@[tool_index(tool)],
    {
        self.tools[tool.index()]
    }

    /// Flips one tool and nothing else.
    pub fn toggle(&mut self, tool: DebugTool)
        ensures
            final(self).tools@ == old(self).tools@.update(
                tool_index(tool),
                !old(self).tools@[tool_index(tool)],
            ),
            final(self).open == old(self).open,
            final(self).team == old(self).team,
            final(self).selected_only == old(self).selected_only,
            final(self).full_view == old(self).full_view,
    {
        let i = tool.index();
        let v = !self.tools[i];
        self.tools[i] = v;
    }

    /// Enabled tools, counting the full-view override as one.
    pub fn count(&self) -> (r: usize)
        ensures
            r == count_on(self.tools@) + if self.full_view { 1nat } else { 0nat },
    {
        let mut n: usize = 0;
        let mut i: usize = 0;
        while i < 11
            invariant
                i <= 11,
                self.tools@.len() == 11,
                n == count_on(self.tools@.take(i as int)),
                n <= i,
            decreases 11 - i,
        {
            assert(self.tools@.take(i + 1).drop_last() =~= self.tools@.take(i as int));
            if self.tools[i] {
                n = n + 1;
            }
            i = i + 1;
        }
        assert(self.tools@.take(11) =~= self.tools@);
        if self.full_view {
            n + 1
        } else {
            n
        }
    }

    /// Team-private overlays for `team` are drawn only when the team filter
    /// admits it and the view may reveal its private data.
    pub fn allows(&self, view: &ViewState, team: u8) -> (r: bool)
        ensures
            r == ((self.team is None || self.team == Some(team)) && (!view.fog_on || team
                == view.team)),
    {
        let filtered = match self.team {
            None => true,
            Some(t) => t == team,
        };
        filtered && view.permits_private_data(team)
    }
}

/// Toggling a tool twice restores every tool.
pub proof fn toggle_twice_restores(tools: Seq<bool>, i: int)
    requires
        0 <= i < tools.len(),
    ensures
        tools.update(i, !tools[i]).update(i, !tools.update(i, !tools[i])[i]) == tools,
{
    assert(tools.update(i, !tools[i]).update(i, !tools.update(i, !tools[i])[i]) =~= tools);
}

/// Tools are independent: toggling one leaves every other tool as it was.
pub proof fn toggle_leaves_others(tools: Seq<bool>, i: int, j: int)
    requires
        0 <= i < tools.len(),
        0 <= j < tools.len(),
        i != j,
    ensures
        tools.update(i, !tools[i])[j] == tools[j],
{
}

/// Fog cannot be bypassed: with fog on, no filter reveals another team's
/// private data.
pub proof fn filters_cannot_bypass_fog(settings: DebugSettings, view: ViewState, team: u8)
    requires
        view.fog_on,
        team != view.team,
    ensures
        !((settings.team is None || settings.team == Some(team)) && (!view.fog_on || team
            == view.team)),
{
}

/// A section of the diagnostics text.
#[derive(Clone, Copy, Debug, PartialEq, Eq, Structural)]
pub enum Section {
    Performance,
    Simulation,
    Navigation,
    Economy(u8),
    Decisions(u8),
    Knowledge(u8),
    Inspector,
}

/// The team filter admits `team` and the view may reveal its private data.
pub open spec fn spec_allows(settings: DebugSettings, view: ViewState, team: u8) -> bool {
    (settings.team is None || settings.team == Some(team)) && (!view.fog_on || team == view.team)
}

/// `x` when `b` holds, else nothing.
pub open spec fn opt(b: bool, x: Section) -> Seq<Section> {
    if b {
        seq![x]
    } else {
        seq![]
    }
}

/// Sections of the diagnostics text, in order: performance, simulation,
/// navigation, each admitted team's economy, each admitted team's AI
/// decisions and knowledge, and the inspector.
pub open spec fn spec_sections(settings: DebugSettings, view: ViewState) -> Seq<Section> {
    let on = |t: DebugTool| settings.tools@[tool_index(t)];
    opt(on(DebugTool::Performance), Section::Performance) + opt(on(DebugTool::Simulation), Section::Simulation)
        + opt(on(DebugTool::Navigation), Section::Navigation) + opt(
        on(DebugTool::Economy) && spec_allows(settings, view, 0),
        Section::Economy(0),
    ) + opt(on(DebugTool::Economy) && spec_allows(settings, view, 1), Section::Economy(1)) + opt(
        on(DebugTool::Decisions) && spec_allows(settings, view, 0),
        Section::Decisions(0),
    ) + opt(on(DebugTool::Knowledge) && spec_allows(settings, view, 0), Section::Knowledge(0)) + opt(
        on(DebugTool::Decisions) && spec_allows(settings, view, 1),
        Section::Decisions(1),
    ) + opt(on(DebugTool::Knowledge) && spec_allows(settings, view, 1), Section::Knowledge(1)) + opt(
        on(DebugTool::Inspector),
        Section::Inspector,
    )
}

fn push_if(out: &mut Vec<Section>, b: bool, x: Section)
    ensures
        final(out)@ == old(out)@ + opt(b, x),
{
    if b {
        out.push(x);
    } else {
        assert(old(out)@ + opt(b, x) =~= old(out)@);
    }
}

impl DebugSettings {
    /// The sections the diagnostics text shows under `view`.
    pub fn sections(&self, view: &ViewState) -> (r: Vec<Section>)
        ensures
            r@ == spec_sections(*self, *view),
    {
        let economy = self.on(DebugTool::Economy);
        let decisions = self.on(DebugTool::Decisions);
        let knowledge = self.on(DebugTool::Knowledge);
        let allow0 = self.allows(view, 0);
        let allow1 = self.allows(view, 1);
        let mut out: Vec<Section> = Vec::new();
        push_if(&mut out, self.on(DebugTool::Performance), Section::Performance);
        push_if(&mut out, self.on(DebugTool::Simulation), Section::Simulation);
        push_if(&mut out, self.on(DebugTool::Navigation), Section::Navigation);
        push_if(&mut out, economy && allow0, Section::Economy(0));
        push_if(&mut out, economy && allow1, Section::Economy(1));
        push_if(&mut out, decisions && allow0, Section::Decisions(0));
        push_if(&mut out, knowledge && allow0, Section::Knowledge(0));
        push_if(&mut out, decisions && allow1, Section::Decisions(1));
        push_if(&mut out, knowledge && allow1, Section::Knowledge(1));
        push_if(&mut out, self.on(DebugTool::Inspector), Section::Inspector);
        assert(out@ =~= spec_sections(*self, *view));
        out
    }
}

/// Text of the diagnostics panel when it has no section to show: no tool
/// enabled, or only overlays. `None` when there are sections.
pub fn diagnostics_fallback(tool_count: usize, sections: usize) -> (r: Option<&'static str>)
    ensures
        tool_count == 0 ==> r == Some("No tools enabled."),
        tool_count != 0 && sections == 0 ==> r == Some("Overlays enabled.\nNo data for this perspective/filter."),
        tool_count != 0 && sections != 0 ==> r is None,
{
    if tool_count == 0 {
        Some("No tools enabled.")
    } else if sections == 0 {
        Some("Overlays enabled.\nNo data for this perspective/filter.")
    } else {
        None
    }
}

/// A section shows no private data of a team other than the viewed one,
/// or there is no fog.
pub open spec fn fog_safe(x: Section, view: ViewState) -> bool {
    !view.fog_on || match x {
        Section::Economy(t) => t == view.team,
        Section::Decisions(t) => t == view.team,
        Section::Knowledge(t) => t == view.team,
        _ => true,
    }
}

proof fn lemma_all_fog_safe(a: Seq<Section>, b: Seq<Section>, view: ViewState)
    requires
        forall|k: int| 0 <= k < a.len() ==> fog_safe(#[trigger] a[k], view),
        forall|k: int| 0 <= k < b.len() ==> fog_safe(#[trigger] b[k], view),
    ensures
        forall|k: int| 0 <= k < (a + b).len() ==> fog_safe(#[trigger] (a + b)[k], view),
{
    assert forall|k: int| 0 <= k < (a + b).len() implies fog_safe(#[trigger] (a + b)[k], view) by {
        if k < a.len() {
            assert((a + b)[k] == a[k]);
        } else {
            assert((a + b)[k] == b[k - a.len()]);
        }
    }
}

/// Under fog, the diagnostics text has no section about another team.
pub proof fn diagnostics_respect_fog(settings: DebugSettings, view: ViewState)
    ensures
        forall|k: int|
            0 <= k < spec_sections(settings, view).len() ==> fog_safe(
                #[trigger] spec_sections(settings, view)[k],
                view,
            ),
{
    let on = |t: DebugTool| settings.tools@[tool_index(t)];
    let p0 = opt(on(DebugTool::Performance), Section::Performance);
    let p1 = opt(on(DebugTool::Simulation), Section::Simulation);
    let p2 = opt(on(DebugTool::Navigation), Section::Navigation);
    let p3 = opt(on(DebugTool::Economy) && spec_allows(settings, view, 0), Section::Economy(0));
    let p4 = opt(on(DebugTool::Economy) && spec_allows(settings, view, 1), Section::Economy(1));
    let p5 = opt(on(DebugTool::Decisions) && spec_allows(settings, view, 0), Section::Decisions(0));
    let p6 = opt(on(DebugTool::Knowledge) && spec_allows(settings, view, 0), Section::Knowledge(0));
    let p7 = opt(on(DebugTool::Decisions) && spec_allows(settings, view, 1), Section::Decisions(1));
    let p8 = opt(on(DebugTool::Knowledge) && spec_allows(settings, view, 1), Section::Knowledge(1));
    let p9 = opt(on(DebugTool::Inspector), Section::Inspector);
    lemma_all_fog_safe(p0, p1, view);
    lemma_all_fog_safe(p0 + p1, p2, view);
    lemma_all_fog_safe(p0 + p1 + p2, p3, view);
    lemma_all_fog_safe(p0 + p1 + p2 + p3, p4, view);
    lemma_all_fog_safe(p0 + p1 + p2 + p3 + p4, p5, view);
    lemma_all_fog_safe(p0 + p1 + p2 + p3 + p4 + p5, p6, view);
    lemma_all_fog_safe(p0 + p1 + p2 + p3 + p4 + p5 + p6, p7, view);
    lemma_all_fog_safe(p0 + p1 + p2 + p3 + p4 + p5 + p6 + p7, p8, view);
    lemma_all_fog_safe(p0 + p1 + p2 + p3 + p4 + p5 + p6 + p7 + p8, p9, view);
}

} // verus!
