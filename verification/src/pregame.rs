//! Before the game starts: the starting tasks offered to newcomers, and which state each
//! command-line flag of the title screen enters.
use vstd::prelude::*;
use crate::text::str_eq;
use crate::title_screen;
use crate::title_screen::Executable;

verus! {

/// A starting task offered to newcomers.
#[derive(Clone, Copy, Debug, PartialEq, Eq, Structural)]
pub enum StarterAction {
    ObserveTraffic,
    TestStreetChange,
    CompareBeforeAfter,
}

/// The starting tasks, in the order they are offered.
pub open spec fn starter_order() -> Seq<StarterAction> {
    seq![
        StarterAction::ObserveTraffic,
        StarterAction::TestStreetChange,
        StarterAction::CompareBeforeAfter,
    ]
}

/// The label of a starting task.
pub open spec fn starter_label(a: StarterAction) -> Seq<char> {
    match a {
        StarterAction::ObserveTraffic => "Observe traffic"@,
        StarterAction::TestStreetChange => "Test a street change"@,
        StarterAction::CompareBeforeAfter => "Compare before and after"@,
    }
}

/// The description of a starting task.
pub open spec fn starter_description(a: StarterAction) -> Seq<char> {
    match a {
        StarterAction::ObserveTraffic => "Run the current scenario and inspect how people move."@,
        StarterAction::TestStreetChange => "Edit a street, then run the simulation to observe the effects."@,
        StarterAction::CompareBeforeAfter => "Save a proposal and use map layers and dashboards to compare results."@,
    }
}

/// The guidance that a starting task shows: a title and lines of text.
pub struct Guidance {
    pub title: &'static str,
    pub lines: Vec<&'static str>,
}

impl StarterAction {
    /// The starting tasks, in the order they are offered.
    pub fn all() -> (v: Vec<StarterAction>)
        ensures
            v@ == starter_order(),
    {
        let mut v: Vec<StarterAction> = Vec::new();
        v.push(StarterAction::ObserveTraffic);
        v.push(StarterAction::TestStreetChange);
        v.push(StarterAction::CompareBeforeAfter);
        assert(v@ =~= starter_order());
        v
    }

    pub fn label(self) -> (l: &'static str)
        ensures
            l@ == starter_label(self),
    {
        match self {
            StarterAction::ObserveTraffic => "Observe traffic",
            StarterAction::TestStreetChange => "Test a street change",
            StarterAction::CompareBeforeAfter => "Compare before and after",
        }
    }

    pub fn description(self) -> (d: &'static str)
        ensures
            d@ == starter_description(self),
    {
        match self {
            StarterAction::ObserveTraffic => "Run the current scenario and inspect how people move.",
            StarterAction::TestStreetChange => "Edit a street, then run the simulation to observe the effects.",
            StarterAction::CompareBeforeAfter => "Save a proposal and use map layers and dashboards to compare results.",
        }
    }
}

/// Whether the starter panel is shown before the sandbox starts or as help inside it.
#[derive(Clone, Copy, Debug, PartialEq, Eq, Structural)]
pub enum StarterContext {
    BeforeSandbox,
    InSandbox,
}

/// A starting task as the panel offers it: a button with its label, beside its
/// description.
#[derive(Clone, Copy, Debug)]
pub struct StarterTask {
    pub action: StarterAction,
    pub label: &'static str,
    pub description: &'static str,
}

/// The panel of starting tasks: its heading with the close button beside it, the notes
/// below it, one row per starting task in order, and the button that starts exploring
/// freely.
pub struct StarterPanel {
    pub context: StarterContext,
    pub heading: &'static str,
    pub close_button: &'static str,
    pub notes: Vec<&'static str>,
    pub tasks: Vec<StarterTask>,
    pub explore_button: &'static str,
}

/// The notes below the panel's heading.
pub open spec fn starter_notes() -> Seq<Seq<char>> {
    seq![
        "Choose a starting task, or close this panel to explore freely."@,
        "Simulation results are estimates based on available map data and simplified assumptions."@,
    ]
}

/// `p` is the starter panel shown in `context`.
pub open spec fn is_starter_panel(p: StarterPanel, context: StarterContext) -> bool {
    &&& p.context == context
    &&& p.heading@ == "What would you like to do?"@
    &&& p.close_button@ == "close"@
    &&& p.notes@.map_values(|n: &'static str| n@) == starter_notes()
    &&& p.tasks.len() == starter_order().len()
    &&& forall|k: int|
        0 <= k < p.tasks.len() ==> (#[trigger] p.tasks@[k]).action == starter_order()[k] && p.tasks@[k].label@
            == starter_label(starter_order()[k]) && p.tasks@[k].description@ == starter_description(
            starter_order()[k],
        )
    &&& p.explore_button@ == "Start exploring"@
}

/// The lines of a starting task's guidance.
pub open spec fn guidance_lines(a: StarterAction) -> Seq<Seq<char>> {
    match a {
        StarterAction::TestStreetChange => seq![
            "Open Edit map to change lanes, speed limits, or intersection controls."@,
            "Save the change as a proposal, then run the simulation to inspect effects."@,
        ],
        StarterAction::CompareBeforeAfter => seq![
            "Save your street changes as a proposal before running the new scenario."@,
            "Use map layers and dashboards to compare travel times and traffic patterns."@,
        ],
        StarterAction::ObserveTraffic => Seq::empty(),
    }
}

/// What a click on the starter panel does.
#[derive(Clone, Copy, Debug, PartialEq, Eq, Structural)]
pub enum StarterClick {
    /// Replace the panel by the sandbox, which then shows the guidance of the chosen starting action.
    LaunchSandbox(Option<StarterAction>),
    /// Close the panel, then show the guidance of the chosen starting action.
    Close(Option<StarterAction>),
}

/// The first starting task, in order, whose label is `x`.
pub open spec fn starter_for_label(x: Seq<char>) -> Option<StarterAction> {
    if starter_label(StarterAction::ObserveTraffic) == x {
        Some(StarterAction::ObserveTraffic)
    } else if starter_label(StarterAction::TestStreetChange) == x {
        Some(StarterAction::TestStreetChange)
    } else if starter_label(StarterAction::CompareBeforeAfter) == x {
        Some(StarterAction::CompareBeforeAfter)
    } else {
        None
    }
}

/// Whether a starting task shows guidance: all but observing traffic do.
pub open spec fn has_guidance(a: StarterAction) -> bool {
    a != StarterAction::ObserveTraffic
}

/// What a click on the button `x` does in the given context.
pub open spec fn starter_click_of(context: StarterContext, x: Seq<char>) -> StarterClick {
    match context {
        StarterContext::BeforeSandbox => StarterClick::LaunchSandbox(starter_for_label(x)),
        StarterContext::InSandbox => match starter_for_label(x) {
            Some(a) => if has_guidance(a) {
                StarterClick::Close(Some(a))
            } else {
                StarterClick::Close(None)
            },
            None => StarterClick::Close(None),
        },
    }
}

impl StarterPanel {
    /// The panel shown before the sandbox starts.
    pub fn new_state() -> (p: Self)
        ensures
            is_starter_panel(p, StarterContext::BeforeSandbox),
    {
        Self::build(StarterContext::BeforeSandbox)
    }

    /// The panel shown as help inside the sandbox.
    pub fn help_state() -> (p: Self)
        ensures
            is_starter_panel(p, StarterContext::InSandbox),
    {
        Self::build(StarterContext::InSandbox)
    }

    /// The panel of starting tasks shown in `context`.
    pub fn build(context: StarterContext) -> (p: Self)
        ensures
            is_starter_panel(p, context),
    {
        let mut notes: Vec<&'static str> = Vec::new();
        notes.push("Choose a starting task, or close this panel to explore freely.");
        notes.push("Simulation results are estimates based on available map data and simplified assumptions.");
        assert(notes@.map_values(|n: &'static str| n@) =~= starter_notes());
        let actions = StarterAction::all();
        let mut tasks: Vec<StarterTask> = Vec::new();
        let mut i: usize = 0;
        while i < actions.len()
            invariant
                actions@ == starter_order(),
                i <= actions.len(),
                tasks.len() == i,
                forall|k: int|
                    0 <= k < i ==> (#[trigger] tasks@[k]).action == starter_order()[k] && tasks@[k].label@
                        == starter_label(starter_order()[k]) && tasks@[k].description@ == starter_description(
                        starter_order()[k],
                    ),
            decreases actions.len() - i,
        {
            let a = actions[i];
            tasks.push(StarterTask { action: a, label: a.label(), description: a.description() });
            i = i + 1;
        }
        StarterPanel {
            context,
            heading: "What would you like to do?",
            close_button: "close",
            notes,
            tasks,
            explore_button: "Start exploring",
        }
    }

    /// The guidance of a starting task: none for observing traffic.
    pub fn guidance(action: StarterAction) -> (g: Option<Guidance>)
        ensures
            g is Some <==> has_guidance(action),
            g matches Some(gd) ==> gd.title@ == starter_label(action) && gd.lines@.map_values(
                |l: &'static str| l@,
            ) == guidance_lines(action),
    {
        match action {
            StarterAction::ObserveTraffic => None,
            StarterAction::TestStreetChange => {
                let mut lines: Vec<&'static str> = Vec::new();
                lines.push("Open Edit map to change lanes, speed limits, or intersection controls.");
                lines.push("Save the change as a proposal, then run the simulation to inspect effects.");
                assert(lines@.map_values(|l: &'static str| l@) =~= guidance_lines(action));
                Some(Guidance { title: "Test a street change", lines })
            },
            StarterAction::CompareBeforeAfter => {
                let mut lines: Vec<&'static str> = Vec::new();
                lines.push("Save your street changes as a proposal before running the new scenario.");
                lines.push("Use map layers and dashboards to compare travel times and traffic patterns.");
                assert(lines@.map_values(|l: &'static str| l@) =~= guidance_lines(action));
                Some(Guidance { title: "Compare before and after", lines })
            },
        }
    }

    /// What a click on the button labelled `x` does: before the sandbox, it starts the
    /// sandbox with the chosen task; inside it, it closes the panel and shows the task's
    /// guidance, if any.
    pub fn on_click(&self, x: &str) -> (c: StarterClick)
        ensures
            c == starter_click_of(self.context, x@),
    {
        let action = if str_eq(StarterAction::ObserveTraffic.label(), x) {
            Some(StarterAction::ObserveTraffic)
        } else if str_eq(StarterAction::TestStreetChange.label(), x) {
            Some(StarterAction::TestStreetChange)
        } else if str_eq(StarterAction::CompareBeforeAfter.label(), x) {
            Some(StarterAction::CompareBeforeAfter)
        } else {
            None
        };
        match self.context {
            StarterContext::BeforeSandbox => StarterClick::LaunchSandbox(action),
            StarterContext::InSandbox => {
                match action {
                    Some(a) => {
                        match a {
                            StarterAction::ObserveTraffic => StarterClick::Close(None),
                            _ => StarterClick::Close(Some(a)),
                        }
                    },
                    None => StarterClick::Close(None),
                }
            },
        }
    }
}

/// The state that a flag of the title screen enters.
#[derive(Clone, Copy, Debug, PartialEq, Eq, Structural)]
pub enum EnterTarget {
    TutorialIntro,
    Challenges,
    Explore,
    OpenProject,
    Starter,
    Sandbox,
    Proposals,
    Ungap,
    DevTools,
}

/// The state that the flag `f` enters, for the flags that the title screen passes.
pub open spec fn target_of(f: Seq<char>) -> Option<EnterTarget> {
    if f == "--tutorial-intro"@ {
        Some(EnterTarget::TutorialIntro)
    } else if f == "--challenges"@ {
        Some(EnterTarget::Challenges)
    } else if f == "--explore"@ {
        Some(EnterTarget::Explore)
    } else if f == "--open-project"@ {
        Some(EnterTarget::OpenProject)
    } else if f == "--starter"@ {
        Some(EnterTarget::Starter)
    } else if f == "--sandbox"@ {
        Some(EnterTarget::Sandbox)
    } else if f == "--proposals"@ {
        Some(EnterTarget::Proposals)
    } else if f == "--ungap"@ {
        Some(EnterTarget::Ungap)
    } else if f == "--devtools"@ {
        Some(EnterTarget::DevTools)
    } else {
        None
    }
}

/// The state that the title screen enters, from the first of its arguments.
pub fn enter_state(args: &Vec<&str>) -> (t: EnterTarget)
    requires
        args.len() > 0,
        target_of(args[0]@) is Some,
    ensures
        Some(t) == target_of(args[0]@),
{
    let f = args[0];
    if str_eq(f, "--tutorial-intro") {
        EnterTarget::TutorialIntro
    } else if str_eq(f, "--challenges") {
        EnterTarget::Challenges
    } else if str_eq(f, "--explore") {
        EnterTarget::Explore
    } else if str_eq(f, "--open-project") {
        EnterTarget::OpenProject
    } else if str_eq(f, "--starter") {
        EnterTarget::Starter
    } else if str_eq(f, "--sandbox") {
        EnterTarget::Sandbox
    } else if str_eq(f, "--proposals") {
        EnterTarget::Proposals
    } else if str_eq(f, "--ungap") {
        EnterTarget::Ungap
    } else {
        EnterTarget::DevTools
    }
}

/// Clicking a starting task's label chooses that task, and only its own label chooses it;
/// before the sandbox the click launches the sandbox with that task.
pub proof fn lemma_clicked_label_chooses_its_task(a: StarterAction, x: Seq<char>)
    ensures
        starter_for_label(starter_label(a)) == Some(a),
        starter_for_label(x) == Some(a) ==> x == starter_label(a),
        starter_click_of(StarterContext::BeforeSandbox, starter_label(a)) == StarterClick::LaunchSandbox(
            Some(a),
        ),
{
    reveal_strlit("Observe traffic");
    assert("Observe traffic"@.len() == 15);
    reveal_strlit("Test a street change");
    assert("Test a street change"@.len() == 20);
    reveal_strlit("Compare before and after");
    assert("Compare before and after"@.len() == 24);
}

/// Each starting task in order, with its label, its description and the lines of its
/// guidance.
pub open spec fn starter_table() -> Seq<(StarterAction, Seq<char>, Seq<char>, Seq<Seq<char>>)> {
    seq![
        (
            StarterAction::ObserveTraffic,
            "Observe traffic"@,
            "Run the current scenario and inspect how people move."@,
            Seq::empty(),
        ),
        (
            StarterAction::TestStreetChange,
            "Test a street change"@,
            "Edit a street, then run the simulation to observe the effects."@,
            seq![
                "Open Edit map to change lanes, speed limits, or intersection controls."@,
                "Save the change as a proposal, then run the simulation to inspect effects."@,
            ],
        ),
        (
            StarterAction::CompareBeforeAfter,
            "Compare before and after"@,
            "Save a proposal and use map layers and dashboards to compare results."@,
            seq![
                "Save your street changes as a proposal before running the new scenario."@,
                "Use map layers and dashboards to compare travel times and traffic patterns."@,
            ],
        ),
    ]
}

/// The starting tasks are offered in the order observe traffic, test a street change,
/// compare before and after, each with its own label, description and guidance; observing
/// traffic has no guidance. Inside the sandbox, choosing a task closes the panel and shows
/// that task's guidance exactly when it has some; a click on anything but a task closes
/// it with none.
pub proof fn lemma_tasks_show_their_own_guidance(a: StarterAction, x: Seq<char>)
    ensures
        starter_order().len() == starter_table().len(),
        forall|i: int|
            0 <= i < starter_table().len() ==> #[trigger] starter_order()[i] == starter_table()[i].0
                && starter_label(starter_table()[i].0) == starter_table()[i].1 && starter_description(
                starter_table()[i].0,
            ) == starter_table()[i].2 && guidance_lines(starter_table()[i].0) == starter_table()[i].3,
        has_guidance(a) <==> guidance_lines(a).len() > 0,
        starter_click_of(StarterContext::InSandbox, starter_label(a)) == StarterClick::Close(
            if guidance_lines(a).len() > 0 {
                Some(a)
            } else {
                None
            },
        ),
        starter_for_label(x) is None ==> starter_click_of(StarterContext::InSandbox, x)
            == StarterClick::Close(None) && starter_click_of(StarterContext::BeforeSandbox, x)
            == StarterClick::LaunchSandbox(None),
{
    reveal_strlit("Observe traffic");
    assert("Observe traffic"@.len() == 15);
    reveal_strlit("Test a street change");
    assert("Test a street change"@.len() == 20);
    reveal_strlit("Compare before and after");
    assert("Compare before and after"@.len() == 24);
    assert(starter_order() =~= seq![
        StarterAction::ObserveTraffic,
        StarterAction::TestStreetChange,
        StarterAction::CompareBeforeAfter,
    ]);
}

/// Each flag of the title screen with the state it names.
pub open spec fn flag_table() -> Seq<(Seq<char>, EnterTarget)> {
    seq![
        ("--tutorial-intro"@, EnterTarget::TutorialIntro),
        ("--challenges"@, EnterTarget::Challenges),
        ("--explore"@, EnterTarget::Explore),
        ("--open-project"@, EnterTarget::OpenProject),
        ("--starter"@, EnterTarget::Starter),
        ("--sandbox"@, EnterTarget::Sandbox),
        ("--proposals"@, EnterTarget::Proposals),
        ("--ungap"@, EnterTarget::Ungap),
        ("--devtools"@, EnterTarget::DevTools),
    ]
}

proof fn lemma_flags_spelled()
    ensures
        "--tutorial-intro"@.len() == 16 && "--tutorial-intro"@[2] == 't' && "--tutorial-intro"@[3] == 'u',
        "--challenges"@.len() == 12 && "--challenges"@[2] == 'c' && "--challenges"@[3] == 'h',
        "--explore"@.len() == 9 && "--explore"@[2] == 'e' && "--explore"@[3] == 'x',
        "--open-project"@.len() == 14 && "--open-project"@[2] == 'o' && "--open-project"@[3] == 'p',
        "--starter"@.len() == 9 && "--starter"@[2] == 's' && "--starter"@[3] == 't',
        "--sandbox"@.len() == 9 && "--sandbox"@[2] == 's' && "--sandbox"@[3] == 'a',
        "--proposals"@.len() == 11 && "--proposals"@[2] == 'p' && "--proposals"@[3] == 'r',
        "--ungap"@.len() == 7 && "--ungap"@[2] == 'u' && "--ungap"@[3] == 'n',
        "--devtools"@.len() == 10 && "--devtools"@[2] == 'd' && "--devtools"@[3] == 'e',
{
    reveal_strlit("--tutorial-intro");
    assert("--tutorial-intro"@.len() == 16 && "--tutorial-intro"@[2] == 't' && "--tutorial-intro"@[3] == 'u');
    reveal_strlit("--challenges");
    assert("--challenges"@.len() == 12 && "--challenges"@[2] == 'c' && "--challenges"@[3] == 'h');
    reveal_strlit("--explore");
    assert("--explore"@.len() == 9 && "--explore"@[2] == 'e' && "--explore"@[3] == 'x');
    reveal_strlit("--open-project");
    assert("--open-project"@.len() == 14 && "--open-project"@[2] == 'o' && "--open-project"@[3] == 'p');
    reveal_strlit("--starter");
    assert("--starter"@.len() == 9 && "--starter"@[2] == 's' && "--starter"@[3] == 't');
    reveal_strlit("--sandbox");
    assert("--sandbox"@.len() == 9 && "--sandbox"@[2] == 's' && "--sandbox"@[3] == 'a');
    reveal_strlit("--proposals");
    assert("--proposals"@.len() == 11 && "--proposals"@[2] == 'p' && "--proposals"@[3] == 'r');
    reveal_strlit("--ungap");
    assert("--ungap"@.len() == 7 && "--ungap"@[2] == 'u' && "--ungap"@[3] == 'n');
    reveal_strlit("--devtools");
    assert("--devtools"@.len() == 10 && "--devtools"@[2] == 'd' && "--devtools"@[3] == 'e');
}

/// Each of the nine flags enters the state it names, no other flag is accepted, and
/// distinct flags enter distinct states.
pub proof fn lemma_flags_enter_the_states_they_name(f: Seq<char>, g: Seq<char>)
    ensures
        forall|i: int| 0 <= i < flag_table().len() ==> target_of(#[trigger] flag_table()[i].0) == Some(
            flag_table()[i].1,
        ),
        target_of(f) is Some <==> exists|i: int| 0 <= i < flag_table().len() && #[trigger] flag_table()[i].0 == f,
        target_of(f) is Some && target_of(f) == target_of(g) ==> f == g,
{
    lemma_flags_spelled();
    let t = flag_table();
    if target_of(f) is Some {
        let i: int = if f == t[0].0 { 0 } else if f == t[1].0 { 1 } else if f == t[2].0 { 2 } else if f
            == t[3].0 { 3 } else if f == t[4].0 { 4 } else if f == t[5].0 { 5 } else if f == t[6].0 { 6 } else if f
            == t[7].0 { 7 } else { 8 };
        assert(t[i].0 == f);
    }
}

/// The flag that a click on the title screen passes to A/B Street, if it runs A/B Street.
pub open spec fn game_flag(c: title_screen::TitleClick) -> Option<Seq<char>> {
    match c {
        title_screen::TitleClick::Run(Executable::ABStreet, Some(f)) => Some(f@),
        _ => None,
    }
}

/// Each entry of the title screen that runs A/B Street, with the state of the game that it
/// opens.
pub open spec fn menu_target_table() -> Seq<(title_screen::MenuAction, EnterTarget)> {
    seq![
        (title_screen::MenuAction::ExploreCity, EnterTarget::Explore),
        (title_screen::MenuAction::OpenProject, EnterTarget::OpenProject),
        (title_screen::MenuAction::BeginnerHelp, EnterTarget::Starter),
        (title_screen::MenuAction::SimulationChallenges, EnterTarget::Challenges),
        (title_screen::MenuAction::CommunityProposals, EnterTarget::Proposals),
        (title_screen::MenuAction::Ungap, EnterTarget::Ungap),
        (title_screen::MenuAction::AdvancedTools, EnterTarget::DevTools),
    ]
}

/// Clicking an entry's label does what that entry does; each entry that runs A/B Street
/// passes the flag of its own state (exploring a city enters the city browser, community
/// proposals the proposals, and so on), the game accepts every such flag, and no two
/// entries pass the same flag.
pub proof fn lemma_menu_entries_open_their_own_states(a: title_screen::MenuAction, b: title_screen::MenuAction)
    ensures
        title_screen::action_for_label(title_screen::label_of(a)) == Some(a),
        title_screen::click_of(title_screen::label_of(a)) == title_screen::click_of_action(a),
        forall|i: int|
            0 <= i < menu_target_table().len() ==> (#[trigger] game_flag(
                title_screen::click_of_action(menu_target_table()[i].0),
            )) is Some && target_of(game_flag(title_screen::click_of_action(menu_target_table()[i].0))->0)
                == Some(menu_target_table()[i].1),
        game_flag(title_screen::click_of_action(a)) is Some ==> target_of(
            game_flag(title_screen::click_of_action(a))->0,
        ) is Some,
        a != b && game_flag(title_screen::click_of_action(a)) is Some ==> game_flag(
            title_screen::click_of_action(a),
        ) != game_flag(title_screen::click_of_action(b)),
{
    lemma_flags_spelled();
    title_screen::lemma_labels_spelled();
    reveal_with_fuel(title_screen::first_action_labelled, 12);
    reveal_strlit("--explore");
    reveal_strlit("--open-project");
    reveal_strlit("--starter");
    reveal_strlit("--challenges");
    reveal_strlit("--proposals");
    reveal_strlit("--ungap");
    reveal_strlit("--devtools");
}

/// The game's title screen.
pub struct TitleScreen;

impl TitleScreen {
    /// The shared title screen of A/B Street, run from the game itself (so its own menu
    /// actions enter states of the game), in a window of `window_width` whole pixels.
    pub fn new_state(window_width: u64) -> (t: title_screen::TitleScreen)
        ensures
            title_screen::is_title_screen(t, Executable::ABStreet, window_width),
    {
        title_screen::TitleScreen::new_state(Executable::ABStreet, window_width)
    }
}

} // verus!
