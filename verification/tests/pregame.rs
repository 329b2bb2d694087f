use abstreet_ui::pregame::{
    enter_state, EnterTarget, StarterAction, StarterClick, StarterPanel, TitleScreen,
};
use abstreet_ui::title_screen::Executable;

#[test]
fn starter_actions_use_plain_language() {
    let labels = StarterAction::all()
        .iter()
        .map(|action| action.label())
        .collect::<Vec<_>>();

    assert_eq!(
        labels,
        vec![
            "Observe traffic",
            "Test a street change",
            "Compare before and after",
        ]
    );
}

#[test]
fn observing_traffic_needs_no_guidance() {
    assert!(StarterPanel::guidance(StarterAction::ObserveTraffic).is_none());
    let g = StarterPanel::guidance(StarterAction::TestStreetChange).unwrap();
    assert_eq!(g.title, "Test a street change");
    assert_eq!(g.lines.len(), 2);
    assert_eq!(
        StarterAction::CompareBeforeAfter.description(),
        "Save a proposal and use map layers and dashboards to compare results."
    );
}

#[test]
fn starter_clicks_depend_on_the_context() {
    let before = StarterPanel::new_state();
    assert_eq!(
        before.on_click("Observe traffic"),
        StarterClick::LaunchSandbox(Some(StarterAction::ObserveTraffic))
    );
    assert_eq!(before.on_click("Start exploring"), StarterClick::LaunchSandbox(None));
    let help = StarterPanel::help_state();
    assert_eq!(help.on_click("Observe traffic"), StarterClick::Close(None));
    assert_eq!(
        help.on_click("Compare before and after"),
        StarterClick::Close(Some(StarterAction::CompareBeforeAfter))
    );
}

#[test]
fn flags_enter_their_states() {
    assert_eq!(enter_state(&vec!["--explore"]), EnterTarget::Explore);
    assert_eq!(enter_state(&vec!["--devtools", "x"]), EnterTarget::DevTools);
    assert_eq!(enter_state(&vec!["--open-project"]), EnterTarget::OpenProject);
    assert_eq!(TitleScreen::new_state(1920).current_exe, Executable::ABStreet);
}

#[test]
fn the_starter_panel_offers_each_task_in_order() {
    let p = StarterPanel::new_state();
    assert_eq!(p.heading, "What would you like to do?");
    assert_eq!(p.close_button, "close");
    assert_eq!(p.notes.len(), 2);
    let labels: Vec<&str> = p.tasks.iter().map(|t| t.label).collect();
    assert_eq!(labels, vec!["Observe traffic", "Test a street change", "Compare before and after"]);
    assert_eq!(p.tasks[0].description, "Run the current scenario and inspect how people move.");
    assert_eq!(p.explore_button, "Start exploring");
}

#[test]
fn the_games_title_screen_is_the_shared_one() {
    let t = TitleScreen::new_state(1000);
    assert_eq!(t.current_exe, Executable::ABStreet);
    assert_eq!(t.main_buttons.len(), 3);
    assert_eq!(t.main_buttons[0].entry.label, "Explore a city");
    assert!(t.main_buttons[0].solid_primary);
    assert_eq!(t.credits_name, "Credits");
    assert!(t.more_tool_buttons.iter().all(|r| r.len() <= 2));
}
