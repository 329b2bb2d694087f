use abstreet_ui::city_picker::{
    browse_click, chose_city, chose_city_in_country, chose_city_name, CountryCityChoice, MapChoice, maps_per_city, reimport_city, cities_per_country_from_manifest, city_availability_label,
    city_browser_layout, city_search_label, countries_by_region, country_name, geographic_region, letter_rows,
    other_places, picker_click, AllCityPicker, BrowseClick, CitiesInCountryPicker, CountryTransition,
    SearchEvent, SearchTransition, BrowseCities, BrowseEvent, BrowseTransition, CityChoice, CityName,
    CityPicker, MapName, PickerClick, PickerEvent, PickerTransition,
};

#[test]
fn city_search_labels_include_city_and_country() {
    let seattle = CityName::new("us", "seattle");

    assert_eq!(
        city_search_label(&seattle, "United States of America"),
        "seattle (United States of America)"
    );
}

#[test]
fn search_labels_show_underscores_as_spaces() {
    let city = CityName::new("gb", "st_albans");
    assert_eq!(city_search_label(&city, "Great Britain"), "st albans (Great Britain)");
}

#[test]
fn countries_are_grouped_into_geographic_regions() {
    assert_eq!(geographic_region("us"), "Americas");
    assert_eq!(geographic_region("gb"), "Europe");
    assert_eq!(geographic_region("tw"), "Asia-Pacific");
    assert_eq!(geographic_region("my"), "Asia-Pacific");
    assert_eq!(geographic_region("ly"), "Africa and Middle East");
}

#[test]
fn unknown_countries_fall_in_other() {
    assert_eq!(geographic_region("zz"), "Other");
    assert_eq!(geographic_region(""), "Other");
    assert_eq!(geographic_region("usa"), "Other");
}

#[test]
fn city_availability_distinguishes_partial_installations() {
    assert_eq!(city_availability_label(0, 3, false), "Download");
    assert_eq!(city_availability_label(1, 3, false), "Partly installed");
    assert_eq!(city_availability_label(3, 3, false), "Installed");
    assert_eq!(city_availability_label(0, 3, true), "Available online");
}

#[test]
fn city_browser_layout_stays_compact_and_stacks_on_narrow_windows() {
    let wide = city_browser_layout(1_920);
    assert_eq!(wide.autocomplete_chars, 26);
    assert_eq!(wide.search_results, 6);
    assert_eq!(wide.geography_width_percent, 34);
    assert!(!wide.stacked);

    let narrow = city_browser_layout(900);
    assert_eq!(narrow.geography_width_percent, 78);
    assert!(narrow.stacked);
}

#[test]
fn layout_switches_at_1100_pixels() {
    assert!(!city_browser_layout(1_100).stacked);
    assert!(city_browser_layout(1_099).stacked);
    assert_eq!(city_browser_layout(1_099).panel_height_percent, 86);
    assert_eq!(city_browser_layout(1_100).panel_width_percent, 82);
}

fn city(country: &str, name: &str) -> CityName {
    CityName::new(country, name)
}

#[test]
fn cities_are_grouped_by_country_in_order() {
    let grouped = cities_per_country_from_manifest(vec![
        city("us", "seattle"),
        city("gb", "london"),
        city("us", "detroit"),
        city("at", "salzburg"),
    ]);
    let countries: Vec<&str> = grouped.iter().map(|(c, _)| c.as_str()).collect();
    assert_eq!(countries, vec!["at", "gb", "us"]);
    assert_eq!(grouped[2].1, vec![city("us", "seattle"), city("us", "detroit")]);
}

#[test]
fn regions_are_listed_in_the_browser_order() {
    let countries: Vec<String> = vec!["at", "br", "gb", "my", "zz"]
        .into_iter()
        .map(|s| s.to_string())
        .collect();
    let listing = countries_by_region(&countries);
    let regions: Vec<&str> = listing.iter().map(|(r, _)| *r).collect();
    assert_eq!(regions, vec!["Americas", "Europe", "Asia-Pacific", "Other"]);
    assert_eq!(listing[1].1, vec!["at".to_string(), "gb".to_string()]);
}

#[test]
fn browser_clicks_name_countries_and_cities() {
    assert!(matches!(browse_click("close"), BrowseClick::Close));
    match browse_click("country:my") {
        BrowseClick::Country(c) => assert_eq!(c, "my"),
        _ => panic!("expected a country"),
    }
    match browse_click("city:my/kuching") {
        BrowseClick::City(c) => assert_eq!(c, "my/kuching"),
        _ => panic!("expected a city"),
    }
    assert!(matches!(browse_click("countries"), BrowseClick::Nothing));
    assert_eq!(picker_click("Search all maps"), PickerClick::SearchAllMaps);
    assert_eq!(picker_click("re-import this city"), PickerClick::ReimportThisCity);
    assert_eq!(picker_click("gb"), PickerClick::Other);
}

#[test]
fn cities_are_filed_by_their_upper_case_initial() {
    let rows = letter_rows(
        vec![
            city("my", "bintulu"),
            city("my", "kuching"),
            city("my", "kota_kinabalu"),
            city("my", "miri"),
        ],
        &city("my", "miri"),
    );
    assert_eq!(rows.len(), 2);
    assert_eq!(rows[0].0, 'B');
    assert_eq!(rows[1].0, 'K');
    assert_eq!(rows[1].1.len(), 2);
}

#[test]
fn a_country_whose_only_city_is_current_is_not_offered() {
    let per_country = cities_per_country_from_manifest(vec![
        city("my", "kuching"),
        city("us", "seattle"),
        city("us", "detroit"),
    ]);
    let places = other_places(&per_country, &city("my", "kuching"));
    assert_eq!(places, vec![("us".to_string(), 2)]);
    let places = other_places(&per_country, &city("us", "seattle"));
    assert_eq!(places.len(), 2);
}

#[test]
fn a_city_with_one_map_loads_it() {
    let m = MapName::new("my", "kuching", "center");
    match chose_city_name(vec![m.clone()]) {
        CityChoice::OnlyMap(x) => assert_eq!(x, m),
        CityChoice::Districts => panic!("expected the only map"),
    }
    assert!(matches!(chose_city_name(vec![]), CityChoice::Districts));
    let b = CityPicker::new_state(&city("gb", "london"), vec![city("gb", "london")], &vec![], &vec![], 1920, false);
    assert_eq!(b.selected_country, "gb");
}

#[test]
fn maps_are_grouped_by_city_in_order() {
    let grouped = maps_per_city(vec![
        MapName::new("us", "seattle", "montlake"),
        MapName::new("gb", "london", "camden"),
        MapName::new("us", "detroit", "downtown"),
        MapName::new("us", "seattle", "arboretum"),
    ]);
    let cities: Vec<(&str, &str)> = grouped
        .iter()
        .map(|(c, _)| (c.country.as_str(), c.city.as_str()))
        .collect();
    assert_eq!(cities, vec![("gb", "london"), ("us", "detroit"), ("us", "seattle")]);
    assert_eq!(grouped[2].1.len(), 2);
    assert_eq!(grouped[2].1[1].map, "arboretum");
}

#[test]
fn reimport_names_the_updated_map() {
    let (args, name) = reimport_city("/bin/cli", "my_kuching_center");
    assert_eq!(
        args,
        vec![
            "/bin/cli".to_string(),
            "one-step-import".to_string(),
            "--geojson-path=boundary.json".to_string(),
            "--map-name=updated_my_kuching_center".to_string()
        ]
    );
    assert_eq!(name, MapName::new("zz", "oneshot", "updated_my_kuching_center"));
}

fn manifest_cities() -> Vec<CityName> {
    vec![
        city("us", "seattle"),
        city("my", "kota_kinabalu"),
        city("gb", "london"),
        city("my", "kuching"),
    ]
}

fn manifest_maps() -> Vec<(MapName, bool)> {
    vec![
        (MapName::new("my", "kuching", "center"), true),
        (MapName::new("my", "kuching", "north"), false),
        (MapName::new("my", "kota_kinabalu", "center"), false),
        (MapName::new("us", "seattle", "montlake"), true),
        (MapName::new("gb", "london", "camden"), true),
    ]
}

fn country_names() -> Vec<(String, String)> {
    vec![
        ("my".to_string(), "Malaysia".to_string()),
        ("us".to_string(), "United States of America".to_string()),
    ]
}

#[test]
fn the_browser_lists_the_selected_countrys_cities() {
    let b = BrowseCities::new_state(
        "my".to_string(),
        manifest_cities(),
        &manifest_maps(),
        &country_names(),
        900,
        false,
    );
    assert_eq!(b.city_rows.len(), 2);
    assert_eq!(b.city_rows[0].label, "kota kinabalu");
    assert_eq!(b.city_rows[0].button, "city:my/kota_kinabalu");
    assert_eq!(b.city_rows[0].availability, "Download");
    assert_eq!(b.city_rows[1].button, "city:my/kuching");
    assert_eq!(b.city_rows[1].availability, "Partly installed");
    assert!(b.layout.stacked);
    assert!(b.country_button_disabled("my"));
    assert!(!b.country_button_disabled("us"));
    let online = BrowseCities::new_state(
        "my".to_string(),
        manifest_cities(),
        &manifest_maps(),
        &country_names(),
        1920,
        true,
    );
    assert_eq!(online.city_rows[1].availability, "Available online");
}

#[test]
fn the_search_lists_every_city_by_country() {
    let b = BrowseCities::new_state(
        "gb".to_string(),
        manifest_cities(),
        &manifest_maps(),
        &country_names(),
        1920,
        false,
    );
    let paths: Vec<&str> = b.search_entries.iter().map(|e| e.1.as_str()).collect();
    assert_eq!(paths, vec!["gb/london", "my/kota_kinabalu", "my/kuching", "us/seattle"]);
    assert_eq!(b.search_entries[0].0, "london (gb)");
    assert_eq!(b.search_entries[1].0, "kota kinabalu (Malaysia)");
    assert_eq!(b.city_rows.len(), 1);
    assert_eq!(b.city_rows[0].availability, "Installed");
    let regions: Vec<&str> = b.regions.iter().map(|(r, _)| *r).collect();
    assert_eq!(regions, vec!["Americas", "Europe", "Asia-Pacific"]);
    let gb = &b.regions[1].1[0];
    assert_eq!(gb.name, "country:gb");
    assert!(gb.disabled);
    let my = &b.regions[2].1[0];
    assert_eq!(my.country, "my");
    assert_eq!(my.country_name, "Malaysia");
    assert_eq!(my.cities, 2);
    assert!(!my.disabled);
}

#[test]
fn unknown_countries_are_named_by_their_code() {
    assert_eq!(country_name(&country_names(), "my"), "Malaysia");
    assert_eq!(country_name(&country_names(), "zz"), "zz");
}

#[test]
fn the_browser_hands_the_callback_on_or_keeps_it() {
    let mut on_load = Some(7);
    assert!(matches!(
        BrowseCities::event(&mut on_load, BrowseEvent::Clicked("close".to_string())),
        BrowseTransition::Pop
    ));
    assert_eq!(on_load, Some(7));
    assert!(matches!(
        BrowseCities::event(&mut on_load, BrowseEvent::SearchDone(vec![])),
        BrowseTransition::Keep
    ));
    assert_eq!(on_load, Some(7));
    match BrowseCities::event(
        &mut on_load,
        BrowseEvent::SearchDone(vec!["my/kuching".to_string(), "us/seattle".to_string()]),
    ) {
        BrowseTransition::ChooseCity(p, cb) => {
            assert_eq!(p, "my/kuching");
            assert_eq!(cb, 7);
        }
        _ => panic!("expected the first city"),
    }
    assert_eq!(on_load, None);
    assert!(matches!(
        BrowseCities::event(&mut on_load, BrowseEvent::Clicked("country:gb".to_string())),
        BrowseTransition::Pop
    ));
    let mut on_load = Some(8);
    match BrowseCities::event(&mut on_load, BrowseEvent::Clicked("country:gb".to_string())) {
        BrowseTransition::BrowseCountry(c, cb) => {
            assert_eq!(c, "gb");
            assert_eq!(cb, 8);
        }
        _ => panic!("expected a country"),
    }
    assert_eq!(on_load, None);
}

#[test]
fn the_district_picker_hands_the_callback_on_or_keeps_it() {
    let mut on_load = Some(1);
    assert!(matches!(
        CityPicker::event(&mut on_load, PickerEvent::Clicked("close".to_string(), None), false),
        PickerTransition::Pop
    ));
    assert_eq!(on_load, Some(1));
    assert!(matches!(
        CityPicker::event(&mut on_load, PickerEvent::Clicked("import new city".to_string(), None), true),
        PickerTransition::OpenBrowser("https://a-b-street.github.io/docs/user/new_city.html")
    ));
    assert_eq!(on_load, Some(1));
    assert!(matches!(
        CityPicker::event(&mut on_load, PickerEvent::Clicked("re-import this city".to_string(), None), false),
        PickerTransition::ReimportThisCity
    ));
    assert_eq!(on_load, Some(1));
    match CityPicker::event(&mut on_load, PickerEvent::Clicked("gb".to_string(), None), false) {
        PickerTransition::BrowseCountry(c, cb) => {
            assert_eq!(c, "gb");
            assert_eq!(cb, 1);
        }
        _ => panic!("expected a country"),
    }
    assert_eq!(on_load, None);
    assert!(matches!(
        CityPicker::event(&mut on_load, PickerEvent::Nothing, false),
        PickerTransition::Pop
    ));
    let mut on_load = Some(2);
    let m = MapName::new("my", "kuching", "north");
    match CityPicker::event(&mut on_load, PickerEvent::District(m.clone()), false) {
        PickerTransition::ChooseMap(x, cb) => {
            assert_eq!(x, m);
            assert_eq!(cb, 2);
        }
        _ => panic!("expected the district"),
    }
    let mut on_load = Some(3);
    assert!(matches!(
        CityPicker::event(&mut on_load, PickerEvent::Clicked("Search all maps".to_string(), None), false),
        PickerTransition::SearchAllMaps(3)
    ));
    assert_eq!(on_load, None);
}

#[test]
fn the_district_picker_disables_the_current_map() {
    let kuching = city("my", "kuching");
    let maps = vec![
        MapName::new("my", "kuching", "center"),
        MapName::new("my", "kuching", "north"),
    ];
    let per_country = cities_per_country_from_manifest(vec![kuching.clone(), city("us", "seattle")]);
    let p = CityPicker::new_in_city(&kuching, maps, &MapName::new("my", "kuching", "north"), &per_country);
    assert_eq!(p.city_file, "system/my/kuching/city.bin");
    assert_eq!(p.heading, "More districts in kuching (my)");
    assert_eq!(p.districts.len(), 2);
    assert!(!p.districts[0].1);
    assert!(p.districts[1].1);
    assert_eq!(p.districts[1].0.map, "north");
    assert_eq!(p.other_places, vec![("us".to_string(), 1)]);
}

#[test]
fn the_search_over_all_maps_describes_each_map_and_chooses_the_first_path() {
    let entries = AllCityPicker::new_state(&vec![
        MapName::new("my", "kuching", "center"),
        MapName::new("us", "seattle", "montlake"),
    ]);
    assert_eq!(entries, vec!["center (in kuching (my))", "montlake (in seattle (us))"]);
    let mut on_load = Some(5);
    assert!(matches!(
        AllCityPicker::event(&mut on_load, SearchEvent::Clicked("close".to_string())),
        SearchTransition::Pop
    ));
    assert_eq!(on_load, Some(5));
    match AllCityPicker::event(&mut on_load, SearchEvent::SearchDone(vec!["a.bin".to_string(), "b.bin".to_string()])) {
        SearchTransition::ChooseMap(p, cb) => {
            assert_eq!(p, "a.bin");
            assert_eq!(cb, 5);
        }
        _ => panic!("expected the first map"),
    }
    assert!(matches!(AllCityPicker::event(&mut on_load, SearchEvent::Nothing), SearchTransition::Pop));
}

#[test]
fn the_country_list_goes_back_or_chooses_a_city() {
    let mut on_load = Some(9);
    assert!(matches!(CitiesInCountryPicker::event(&mut on_load, None), CountryTransition::Keep));
    assert!(matches!(
        CitiesInCountryPicker::event(&mut on_load, Some("close".to_string())),
        CountryTransition::BackToBrowser(9)
    ));
    assert_eq!(on_load, None);
    let mut on_load = Some(10);
    match CitiesInCountryPicker::event(&mut on_load, Some("my/miri".to_string())) {
        CountryTransition::ChooseCity(p, cb) => {
            assert_eq!(p, "my/miri");
            assert_eq!(cb, 10);
        }
        _ => panic!("expected a city"),
    }
}

#[test]
fn a_missing_map_is_offered_for_download_natively() {
    let m = MapName::new("my", "kuching", "center");
    assert!(matches!(chose_city(m.clone(), false, false), MapChoice::PromptDownload(_)));
    assert!(matches!(chose_city(m.clone(), true, false), MapChoice::Load(_)));
    assert!(matches!(chose_city(m, false, true), MapChoice::Load(_)));
}

#[test]
fn a_missing_district_file_is_offered_for_download() {
    let a = MapName::new("my", "kuching", "center");
    let b = MapName::new("my", "kuching", "north");
    assert_eq!(city("my", "kuching").city_file(), "system/my/kuching/city.bin");
    match chose_city_in_country(vec![a.clone()], true, false, false) {
        CountryCityChoice::OnlyMap(m) => assert_eq!(m, a),
        _ => panic!("expected the only map"),
    }
    match chose_city_in_country(vec![a.clone(), b.clone()], true, false, false) {
        CountryCityChoice::PromptDownload(m) => assert_eq!(m, b),
        _ => panic!("expected the download prompt"),
    }
    assert!(matches!(
        chose_city_in_country(vec![a.clone(), b.clone()], true, true, false),
        CountryCityChoice::Districts
    ));
    assert!(matches!(
        chose_city_in_country(vec![a, b], true, false, true),
        CountryCityChoice::Districts
    ));
}
