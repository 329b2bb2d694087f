use abstreet_ui::title_screen::{
    main_menu_entries, menu_entry, more_tool_rows, Executable, MenuAction, MenuSection,
    RunOutcome, TitleClick, TitleScreen, version_text,
};

#[test]
fn focused_menu_has_one_map_first_primary_action() {
    let entries = main_menu_entries();
    let primary = entries
        .iter()
        .filter(|entry| entry.section == MenuSection::Primary)
        .collect::<Vec<_>>();

    assert_eq!(primary.len(), 1);
    assert_eq!(primary[0].action, MenuAction::ExploreCity);
    assert_eq!(primary[0].label, "Explore a city");
}

#[test]
fn focused_menu_does_not_expose_santa() {
    assert!(main_menu_entries()
        .iter()
        .all(|entry| !entry.label.to_ascii_lowercase().contains("santa")));
}

#[test]
fn specialist_features_live_under_more_tools() {
    for action in [
        MenuAction::Ungap,
        MenuAction::FifteenMinuteNeighbourhoods,
        MenuAction::LowTrafficNeighbourhoods,
        MenuAction::AdvancedTools,
    ] {
        let entry = main_menu_entries()
            .iter()
            .find(|entry| entry.action == action)
            .copied()
            .unwrap();
        assert_eq!(entry.section, MenuSection::More);
    }
}

#[test]
fn more_tools_form_two_compact_rows() {
    let rows = more_tool_rows(1_920);

    assert_eq!(rows.len(), 2);
    assert_eq!(rows[0].len(), 4);
    assert_eq!(rows[1].len(), 4);

    let narrow_rows = more_tool_rows(900);
    assert_eq!(narrow_rows.len(), 4);
    assert!(narrow_rows.iter().all(|row| row.len() == 2));
}

#[test]
fn rows_follow_the_menu_order_and_switch_at_1200() {
    let rows = more_tool_rows(1_200);
    assert_eq!(
        rows[0],
        vec![
            MenuAction::SimulationChallenges,
            MenuAction::CommunityProposals,
            MenuAction::Ungap,
            MenuAction::FifteenMinuteNeighbourhoods
        ]
    );
    assert_eq!(more_tool_rows(1_199).len(), 4);
}

#[test]
fn menu_entry_finds_each_action() {
    let e = menu_entry(MenuAction::ActDev);
    assert_eq!(e.label, "ActDev");
    assert_eq!(e.section, MenuSection::More);
    assert_eq!(menu_entry(MenuAction::BeginnerHelp).label, "New here?");
    assert_eq!(menu_entry(MenuAction::OpenProject).section, MenuSection::Secondary);
}

#[test]
fn clicks_run_the_right_app() {
    let t = TitleScreen::new_state(Executable::ABStreet, 1920);
    assert!(matches!(
        t.on_click("Explore a city"),
        TitleClick::Run(Executable::ABStreet, Some("--explore"))
    ));
    assert!(matches!(
        t.on_click("Low traffic neighbourhoods"),
        TitleClick::Run(Executable::LTN, None)
    ));
    assert!(matches!(t.on_click("About"), TitleClick::ShowAbout));
    assert!(matches!(
        t.on_click("Credits"),
        TitleClick::OpenBrowser("https://a-b-street.github.io/docs/project/team.html")
    ));
    assert!(matches!(
        t.on_click("ActDev"),
        TitleClick::OpenBrowser("https://actdev.cyipt.bike")
    ));
    assert_eq!(t.run(Executable::ABStreet), RunOutcome::EnterState);
    assert_eq!(t.run(Executable::LTN), RunOutcome::ReplaceProcess(Executable::LTN));
}

#[test]
fn executables_name_their_binaries_and_pages() {
    assert_eq!(Executable::ABStreet.binary_name(), "game");
    assert_eq!(Executable::RawMapEditor.binary_name(), "map_editor");
    assert_eq!(Executable::ABStreet.web_page(), Some("abstreet"));
    assert_eq!(Executable::ParkingMapper.web_page(), None);
    assert!(Executable::RawMapEditor.takes_raw_map());
    assert!(!Executable::LTN.takes_raw_map());
}

#[test]
fn replacing_the_process_hands_over_the_map() {
    let l = Executable::RawMapEditor.replace_process(vec!["--x"], "m.bin", "raw.bin", "1,2");
    assert_eq!(l.binary, "map_editor");
    assert_eq!(l.page, Some("map_editor"));
    assert_eq!(l.args, vec!["--x".to_string(), "raw.bin".to_string(), "--cam=1,2".to_string()]);
    let l = Executable::ParkingMapper.replace_process(vec![], "m.bin", "raw.bin", "1,2");
    assert_eq!(l.binary, "parking_mapper");
    assert_eq!(l.page, None);
    assert_eq!(l.args, vec!["m.bin".to_string()]);
}

#[test]
fn the_panel_has_a_button_per_entry() {
    let t = TitleScreen::new_state(Executable::LTN, 1000);
    assert_eq!(t.current_exe, Executable::LTN);
    let main: Vec<&str> = t.main_buttons.iter().map(|b| b.entry.label).collect();
    assert_eq!(main, vec!["Explore a city", menu_entry(MenuAction::OpenProject).label, "New here?"]);
    assert!(t.main_buttons[0].solid_primary);
    assert!(!t.main_buttons[1].solid_primary && !t.main_buttons[2].solid_primary);
    assert_eq!(t.main_buttons[0].entry.tooltip, menu_entry(MenuAction::ExploreCity).tooltip);
    let narrow: usize = t.more_tool_buttons.iter().map(|r| r.len()).sum();
    assert!(t.more_tool_buttons.iter().all(|r| r.len() <= 2));
    assert!(t.more_tool_buttons.iter().flatten().all(|b| !b.solid_primary && b.entry.section == MenuSection::More));
    let wide = TitleScreen::new_state(Executable::LTN, 1200);
    assert!(wide.more_tool_buttons.iter().all(|r| r.len() <= 4));
    let wide_count: usize = wide.more_tool_buttons.iter().map(|r| r.len()).sum();
    assert_eq!(narrow, wide_count);
    assert_eq!(t.credits_name, "Credits");
    assert_eq!(t.credits_label, "Created by Dustin Carlino, Yuwen Li, & Michael Kirk");
}

#[test]
fn the_version_text_writes_the_build_date() {
    assert_eq!(version_text(2024, 3, 7), "This version built on 2024-03-07");
    assert_eq!(version_text(987, 12, 31), "This version built on 0987-12-31");
    assert_eq!(version_text(12345, 1, 1), "This version built on +12345-01-01");
}
