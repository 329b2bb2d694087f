# abstreet_ui

The decision logic behind A/B Street's title screen, city browser, map loader,
autocomplete box and unzoomed-agent cache, written in Verus with its contracts proved.

- `src/text.rs`: character-level string operations (ASCII lower-casing, substring search,
  prefix stripping, character replacement, lexicographic order).
- `src/grouping.rs`: grouping keyed values in ascending key order, and sorting strings
  into a set.
- `src/autocomplete.rs`: which labels the search menu lists, and what a click chooses.
- `src/agents.rs`: when the per-lane agent lists and the unzoomed drawing are rebuilt,
  with the two-second throttle of simulation-time refreshes, and which agents the drawing
  holds.
- `src/title_screen.rs`, `src/pregame.rs`: the menus, their layout, and what each click
  and command-line flag leads to.
- `src/city_picker.rs`, `src/load.rs`, `src/import.rs`: cities grouped by country and
  region, the browser's contents, the pickers' steps with their pending callback, the
  steps of loading a map, and import names.
- `app/lib.rs`: the floating-point conversions around the library.
