//! Decision logic of the A/B Street title screen, city browser, map loader,
//! autocomplete widget and unzoomed-agent cache, with its contracts.

pub mod agents;
pub mod text;
pub mod autocomplete;
pub mod grouping;
pub mod title_screen;
pub mod city_picker;
pub mod load;
pub mod import;
pub mod pregame;
