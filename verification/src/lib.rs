//! Game rules of the Ascenoria strategy prototype: data lookups, research,
//! ship design validation, hull selection, planet surface connectivity and
//! the planet economy, victory tracking and the new-game setup screens.

pub mod data;
pub mod grid;
pub mod modding;
pub mod planet_data;
pub mod planet_view;
pub mod preview;
pub mod research;
pub mod screens;
pub mod ship_blueprints;
pub mod species;
pub mod star;
pub mod ship_design;
pub mod ship_ui;
pub mod text;
pub mod victory;
