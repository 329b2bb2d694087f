use abstreet_ui::city_picker::MapName;
use abstreet_ui::import::{target_map_name, TargetNameError};
use abstreet_ui::load::{
    extra_font, remote_map_url, LoadAction, LoadEvent, LoadStart, MapLoad, MapLoader, ReloadStep,
};

#[test]
fn defaults_keep_one_shot_imports_in_the_fake_city() {
    assert_eq!(
        target_map_name("zz", "oneshot", "demo").unwrap(),
        MapName::new("zz", "oneshot", "demo")
    );
}

#[test]
fn named_imports_can_target_a_real_city() {
    assert_eq!(
        target_map_name("my", "kuching", "center").unwrap(),
        MapName::new("my", "kuching", "center")
    );
}

#[test]
fn target_components_must_be_filename_safe() {
    assert!(target_map_name("my", "", "center").is_err());
    assert!(target_map_name("my", "kuching", "city center").is_err());
}

#[test]
fn unsafe_components_are_named_in_the_error() {
    let e = target_map_name("my", "a/b", "c\\d").unwrap_err();
    match &e {
        TargetNameError::Unsafe { label, component } => {
            assert_eq!(*label, "city");
            assert_eq!(component, "a/b");
        }
        TargetNameError::BadCityName(_) => panic!("expected an unsafe city"),
    }
    assert_eq!(e.message(), "city must be a non-empty, filename-safe name: a/b");
    match target_map_name("my", "kuching", "").unwrap_err() {
        TargetNameError::Unsafe { label, .. } => assert_eq!(label, "map"),
        TargetNameError::BadCityName(_) => panic!("expected an unsafe map"),
    }
}

#[test]
fn a_country_with_a_slash_is_not_a_city_name() {
    let e = target_map_name("m/y", "kuching", "center").unwrap_err();
    match &e {
        TargetNameError::BadCityName(p) => assert_eq!(p, "m/y/kuching"),
        TargetNameError::Unsafe { .. } => panic!("expected a bad city name"),
    }
    assert_eq!(e.message(), "Bad CityName m/y/kuching");
}

#[test]
fn sarawak_web_maps_use_the_cors_enabled_owned_host() {
    assert!(remote_map_url("dev", &MapName::new("us", "seattle", "montlake")).is_none());
    assert_eq!(
        remote_map_url("dev", &MapName::new("my", "kuching", "center")).unwrap(),
        "https://tyu1996.github.io/abstreet/sarawak-data-v1/data--system--my--kuching--maps--center.bin.gz"
    );
}

#[test]
fn countries_with_other_scripts_need_fonts() {
    assert_eq!(extra_font("jp"), Some("NotoSerifCJKtc-Regular.otf"));
    assert_eq!(extra_font("ly"), Some("NotoSansArabic-Regular.ttf"));
    assert_eq!(extra_font("gb"), None);
}

#[test]
fn the_current_map_is_not_reloaded() {
    let a = MapName::new("my", "kuching", "center");
    let b = MapName::new("my", "kuching", "north");
    assert_eq!(MapLoader::new_state(&a, &a.clone()), LoadStart::AlreadyLoaded);
    assert_eq!(MapLoader::new_state(&a, &b), LoadStart::Reload);
}

#[test]
fn fonts_load_before_the_map() {
    let seoul = MapName::new("kr", "seoul", "center");
    match MapLoader::force_reload(&seoul, "p.bin", false, &vec![]) {
        ReloadStep::LoadFont(f) => assert_eq!(f, "NotoSansKR-Regular.ttf"),
        ReloadStep::LoadMap(_) => panic!("expected a font"),
    }
    match MapLoader::force_reload(&seoul, "p.bin", false, &vec!["NotoSansKR-Regular.ttf".to_string()]) {
        ReloadStep::LoadMap(p) => assert_eq!(p, "p.bin"),
        ReloadStep::LoadFont(_) => panic!("expected the map"),
    }
    let kuching = MapName::new("my", "kuching", "center");
    match MapLoader::force_reload(&kuching, "p.bin", true, &vec![]) {
        ReloadStep::LoadMap(p) => assert!(p.ends_with("data--system--my--kuching--maps--center.bin.gz")),
        ReloadStep::LoadFont(_) => panic!("expected the map"),
    }
}

#[test]
fn a_forced_reload_reads_the_font_then_the_map_then_calls_back_once() {
    let seoul = MapName::new("kr", "seoul", "center");
    let (mut load, first) = MapLoad::force_reload(seoul, "p.bin", false, &vec![], 42);
    assert!(matches!(first, LoadAction::ReadFont("NotoSansKR-Regular.ttf")));
    match load.event(LoadEvent::FontRead(Ok(()))) {
        LoadAction::ReadMap(p) => assert_eq!(p, "p.bin"),
        _ => panic!("expected the map to be read"),
    }
    assert!(matches!(load.event(LoadEvent::FontRead(Ok(()))), LoadAction::Wait));
    assert!(matches!(load.event(LoadEvent::MapRead(Ok(()))), LoadAction::SwitchMapThenCall(42)));
    assert!(matches!(load.event(LoadEvent::MapRead(Ok(()))), LoadAction::Wait));
}

#[test]
fn the_current_map_is_reloaded_when_forced() {
    let a = MapName::new("my", "kuching", "center");
    let (_, first) = MapLoad::force_reload(a.clone(), "p.bin", false, &vec![], ());
    assert!(matches!(first, LoadAction::ReadMap(_)));
    let (_, first) = MapLoad::new_state(&a, a.clone(), "p.bin", false, &vec![], ());
    assert!(matches!(first, LoadAction::Call(())));
}

#[test]
fn a_failed_map_read_shows_an_error_and_drops_the_callback() {
    let a = MapName::new("my", "kuching", "center");
    let (mut load, _) = MapLoad::new_state(&MapName::new("us", "seattle", "montlake"), a, "p.bin", true, &vec![], 1);
    match load.event(LoadEvent::MapRead(Err("no such file".to_string()))) {
        LoadAction::ShowError(lines) => assert_eq!(
            lines,
            vec!["Couldn't load center (in kuching (my))".to_string(), "no such file".to_string()]
        ),
        _ => panic!("expected an error"),
    }
    assert!(matches!(load.event(LoadEvent::MapRead(Ok(()))), LoadAction::Wait));
}

#[test]
fn a_failed_font_read_shows_an_error() {
    let tokyo = MapName::new("jp", "tokyo", "shibuya");
    let (mut load, _) = MapLoad::force_reload(tokyo, "p.bin", false, &vec![], 1);
    match load.event(LoadEvent::FontRead(Err("gone".to_string()))) {
        LoadAction::ShowError(lines) => assert_eq!(
            lines,
            vec!["Couldn't load NotoSerifCJKtc-Regular.otf".to_string(), "gone".to_string()]
        ),
        _ => panic!("expected an error"),
    }
}
