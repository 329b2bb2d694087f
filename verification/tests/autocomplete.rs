use abstreet_ui::autocomplete::{matching_choice_labels, Autocomplete};

#[test]
fn compact_results_hide_empty_queries_and_respect_the_limit() {
    let choices = (0..8)
        .map(|n| (format!("city {}", n), vec![n]))
        .collect::<Vec<_>>();

    assert!(matching_choice_labels(&choices, "", 6, false).is_empty());

    let matches = matching_choice_labels(&choices, "city", 6, false);
    assert_eq!(matches.len(), 6);
    assert_eq!(matches[0], "anything matching \"city\"");
}

#[test]
fn a_single_match_is_listed_alone_and_case_is_ignored() {
    let choices = vec![
        ("Kuching".to_string(), vec![1]),
        ("Miri".to_string(), vec![2]),
    ];
    assert_eq!(matching_choice_labels(&choices, "KUCH", 6, true), vec!["Kuching".to_string()]);
    assert_eq!(
        matching_choice_labels(&choices, "", 10, true),
        vec![
            "anything matching \"\"".to_string(),
            "Kuching".to_string(),
            "Miri".to_string()
        ]
    );
    assert_eq!(
        matching_choice_labels(&choices, "zz", 10, true),
        vec!["anything matching \"zz\"".to_string()]
    );
}

#[test]
fn every_limit_is_respected() {
    let choices = vec![
        ("alpha".to_string(), vec![1]),
        ("beta".to_string(), vec![2]),
    ];
    assert_eq!(
        matching_choice_labels(&choices, "beta", 1, true),
        vec!["anything matching \"beta\"".to_string()]
    );
    assert_eq!(
        matching_choice_labels(&choices, "", 1, true),
        vec!["anything matching \"\"".to_string()]
    );
    assert!(matching_choice_labels(&choices, "", 0, true).is_empty());
    assert_eq!(matching_choice_labels(&choices, "a", 2, true), vec!["alpha".to_string()]);
    assert_eq!(matching_choice_labels(&choices, "a", 3, true).len(), 3);
}

fn raw(pairs: &[(&str, &str)]) -> Vec<(String, String)> {
    pairs.iter().map(|(a, b)| (a.to_string(), b.to_string())).collect()
}

#[test]
fn names_are_grouped_with_sorted_distinct_values() {
    let mut a = Autocomplete::new_widget(
        raw(&[("seattle", "us/seattle"), ("london", "gb/london"), ("seattle", "us/seattle"), ("seattle", "au/seattle")]),
        10,
    );
    assert_eq!(a.textbox_chars(), 50);
    assert_eq!(
        a.menu_labels(),
        &vec![
            "anything matching \"\"".to_string(),
            "london".to_string(),
            "seattle".to_string()
        ]
    );
    a.menu_clicked("seattle");
    assert_eq!(
        a.take_final_value(),
        Some(vec!["au/seattle".to_string(), "us/seattle".to_string()])
    );
    assert_eq!(a.take_final_value(), None);
}

#[test]
fn anything_matching_chooses_every_match() {
    let mut a = Autocomplete::new_compact_widget(
        raw(&[("Seattle", "s"), ("London", "l"), ("Salzburg", "z")]),
        6,
        26,
    );
    assert!(a.menu_labels().is_empty());
    assert!(a.line_changed("s"));
    assert!(!a.line_changed("s"));
    assert_eq!(a.menu_labels()[0], "anything matching \"s\"");
    a.menu_clicked("anything matching \"s\"");
    assert_eq!(
        a.take_final_value(),
        Some(vec!["z".to_string(), "s".to_string()])
    );
}
