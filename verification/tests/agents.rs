use std::time::Duration;

use abstreet_ui::agents::{
    is_faded, should_recalculate_unzoomed_agents, should_refresh_unzoomed_agents, visible_agents,
    AgentCache, Traversable, UnzoomedAgents, UnzoomedColor, VehicleType,
};

type Agent = (u32, Option<VehicleType>);

fn no_agents() -> Vec<Agent> {
    Vec::new()
}

fn some_agents() -> Vec<Agent> {
    vec![
        (1, Some(VehicleType::Car)),
        (2, None),
        (3, Some(VehicleType::Bike)),
        (4, Some(VehicleType::Train)),
    ]
}

#[test]
fn reuses_cached_unzoomed_agents_while_dragging() {
    assert!(!should_refresh_unzoomed_agents(true, true));
}

#[test]
fn calculates_unzoomed_agents_when_drag_starts_without_a_cache() {
    assert!(should_refresh_unzoomed_agents(true, false));
}

#[test]
fn refreshes_unzoomed_agents_after_dragging() {
    assert!(should_refresh_unzoomed_agents(false, true));
}

#[test]
fn throttles_sim_time_refreshes_before_two_seconds() {
    assert!(!should_recalculate_unzoomed_agents(
        false,
        true,
        false,
        false,
        Some(Duration::from_millis(1_999).as_nanos()),
    ));
}

#[test]
fn refreshes_sim_time_after_two_seconds() {
    assert!(should_recalculate_unzoomed_agents(
        false,
        true,
        false,
        false,
        Some(Duration::from_secs(2).as_nanos()),
    ));
}

#[test]
fn forced_refresh_bypasses_the_interval() {
    assert!(should_recalculate_unzoomed_agents(
        false,
        true,
        false,
        true,
        Some(Duration::ZERO.as_nanos()),
    ));
}

#[test]
fn filter_changes_bypass_the_interval() {
    assert!(should_recalculate_unzoomed_agents(
        false,
        false,
        true,
        false,
        Some(Duration::ZERO.as_nanos()),
    ));
}

#[test]
fn missing_cache_bypasses_the_interval() {
    assert!(should_recalculate_unzoomed_agents(true, false, false, false, None));
}

#[test]
fn invalidating_cache_forces_the_next_stale_refresh() {
    let mut cache: AgentCache<(), ()> = AgentCache::new();
    cache.calculate_unzoomed_agents(0, false, no_agents, |_| ());
    assert!(cache.has_refresh_moment());

    cache.refresh_unzoomed_agents_next_time();

    assert!(!cache.has_refresh_moment());
}

#[test]
fn unchanged_time_keeps_the_drawing_even_when_forced() {
    assert!(!should_recalculate_unzoomed_agents(false, false, false, true, None));
}

#[test]
fn unknown_refresh_moment_refreshes_on_new_time() {
    assert!(should_recalculate_unzoomed_agents(false, true, false, false, None));
}

#[test]
fn first_calculation_builds_then_reuses_the_drawing() {
    let mut cache: AgentCache<(), u32> = AgentCache::new();
    assert_eq!(*cache.calculate_unzoomed_agents(10, false, no_agents, |_| 1), 1);
    // Same time, same filters: the drawing is kept.
    assert_eq!(*cache.calculate_unzoomed_agents(10, true, no_agents, |_| 2), 1);
    // New time, refresh moment just recorded: throttled.
    assert_eq!(*cache.calculate_unzoomed_agents(11, false, no_agents, |_| 3), 1);
    // Forced at a new time: rebuilt.
    assert_eq!(*cache.calculate_unzoomed_agents(11, true, no_agents, |_| 4), 4);
    // Invalidated, new time: rebuilt.
    cache.refresh_unzoomed_agents_next_time();
    assert_eq!(*cache.calculate_unzoomed_agents(12, false, no_agents, |_| 5), 5);
}

#[test]
fn filter_change_rebuilds_with_the_new_filters() {
    let has_cars = |shown: Vec<(u32, UnzoomedColor)>| shown.iter().any(|a| a.1 == UnzoomedColor::Car);
    let mut cache: AgentCache<(), bool> = AgentCache::new();
    assert!(*cache.calculate_unzoomed_agents(10, false, some_agents, has_cars));
    let mut filters = cache.unzoomed_agents();
    filters.update(false, true, true, true);
    cache.set_unzoomed_agents(filters);
    assert!(!*cache.calculate_unzoomed_agents(10, false, some_agents, has_cars));
}

#[test]
fn dragging_keeps_the_drawing_and_a_finished_drag_forces_it() {
    let mut cache: AgentCache<(), u32> = AgentCache::new();
    assert_eq!(*cache.draw_unzoomed_agents(true, true, 10, no_agents, |_| 1), 1);
    assert_eq!(*cache.draw_unzoomed_agents(true, true, 11, no_agents, |_| 2), 1);
    assert_eq!(*cache.draw_unzoomed_agents(false, true, 11, no_agents, |_| 3), 3);
}

#[test]
fn lists_are_built_once_per_time_and_dropped_when_it_changes() {
    let lane = Traversable::Lane(3);
    let turn = Traversable::Turn { parent: 1, src: 3, dst: 4 };
    let mut cache: AgentCache<Vec<u32>, ()> = AgentCache::new();
    cache.populate_if_needed(lane, 100, || vec![1, 2]);
    cache.populate_if_needed(turn, 100, || vec![3]);
    cache.populate_if_needed(lane, 100, || vec![9]);
    assert_eq!(cache.get(lane), &vec![1, 2]);
    assert_eq!(cache.get(turn), &vec![3]);
    cache.populate_if_needed(lane, 200, || vec![5]);
    assert_eq!(cache.get(lane), &vec![5]);
    assert!(!cache.is_cached(turn));
}

#[test]
fn filters_pick_the_colour_of_each_kind() {
    let mut u = UnzoomedAgents::new();
    assert!(u.cars() && u.bikes() && u.buses_and_trains() && u.peds());
    assert_eq!(u.color(Some(VehicleType::Train)), Some(UnzoomedColor::Bus));
    assert_eq!(u.color(None), Some(UnzoomedColor::Pedestrian));
    u.update(false, true, false, true);
    assert_eq!(u.color(Some(VehicleType::Car)), None);
    assert_eq!(u.color(Some(VehicleType::Bike)), Some(UnzoomedColor::Bike));
    assert_eq!(u.color(Some(VehicleType::Bus)), None);
}

#[test]
fn visible_agents_keep_the_shown_kinds_in_order() {
    let mut filters = UnzoomedAgents::new();
    assert_eq!(
        visible_agents(&filters, &some_agents()),
        vec![
            (1, UnzoomedColor::Car),
            (2, UnzoomedColor::Pedestrian),
            (3, UnzoomedColor::Bike),
            (4, UnzoomedColor::Bus),
        ]
    );
    filters.update(true, false, false, true);
    assert_eq!(
        visible_agents(&filters, &some_agents()),
        vec![(1, UnzoomedColor::Car), (2, UnzoomedColor::Pedestrian)]
    );
    filters.update(false, false, false, false);
    assert!(visible_agents(&filters, &some_agents()).is_empty());
}

#[test]
fn rebuilt_drawing_is_made_from_the_visible_agents() {
    let mut cache: AgentCache<(), Vec<u32>> = AgentCache::new();
    let mut filters = cache.unzoomed_agents();
    filters.update(false, true, true, false);
    cache.set_unzoomed_agents(filters);
    let ids = |shown: Vec<(u32, UnzoomedColor)>| shown.iter().map(|a| a.0).collect::<Vec<u32>>();
    assert_eq!(*cache.calculate_unzoomed_agents(5, false, some_agents, ids), vec![3, 4]);
}

#[test]
fn the_interval_decides_on_the_given_elapsed_time() {
    let mut cache: AgentCache<(), u32> = AgentCache::new();
    assert!(!cache.has_refresh_moment());
    assert_eq!(*cache.calculate_unzoomed_agents_after(10, false, None, no_agents, |_| 1), 1);
    assert!(cache.has_refresh_moment());
    // A new simulation time 1.999 s after the last refresh: throttled.
    assert_eq!(
        *cache.calculate_unzoomed_agents_after(11, false, Some(1_999_000_000), no_agents, |_| 2),
        1
    );
    // Two seconds after it: rebuilt.
    assert_eq!(
        *cache.calculate_unzoomed_agents_after(11, false, Some(2_000_000_000), no_agents, |_| 3),
        3
    );
    // Forced: rebuilt however recent the last refresh.
    assert_eq!(*cache.calculate_unzoomed_agents_after(12, true, Some(0), no_agents, |_| 4), 4);
    // Same time and filters: kept, even forced and long after.
    assert_eq!(
        *cache.calculate_unzoomed_agents_after(12, true, Some(9_000_000_000), no_agents, |_| 5),
        4
    );
}

#[test]
fn a_finished_drag_forces_the_refresh() {
    let mut cache: AgentCache<(), u32> = AgentCache::new();
    assert_eq!(*cache.draw_unzoomed_agents_after(false, false, 10, None, no_agents, |_| 1), 1);
    // Still dragging: the drawing is kept whatever the time.
    assert_eq!(
        *cache.draw_unzoomed_agents_after(true, true, 11, Some(5_000_000_000), no_agents, |_| 2),
        1
    );
    // Not dragging at all, new time, recent refresh: throttled.
    assert_eq!(*cache.draw_unzoomed_agents_after(false, false, 11, Some(0), no_agents, |_| 3), 1);
    // The drag just ended: forced.
    assert_eq!(*cache.draw_unzoomed_agents_after(false, true, 11, Some(0), no_agents, |_| 4), 4);
}

#[test]
fn only_people_outside_the_highlight_fade() {
    assert!(!is_faded(&None, Some(3)));
    assert!(!is_faded(&Some(vec![1, 2]), None));
    assert!(is_faded(&Some(vec![1, 2]), Some(3)));
    assert!(!is_faded(&Some(vec![1, 2]), Some(2)));
}
