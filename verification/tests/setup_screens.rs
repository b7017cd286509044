use ascenoria::data::{Language, Tech};
use ascenoria::preview::{clamp_selection, LocalizationSettings, TechState};
use ascenoria::screens::GameState;
use ascenoria::ship_blueprints::ShipBlueprint;
use ascenoria::ship_design::{ModuleCategory, ShipDesign};
use ascenoria::species::{
    generate_mission_briefing, intro_key_transition, NewGameSettings, SelectionKey, SettingsButton,
};
use ascenoria::star::{planet_label, planet_marker_size, system_title, to_roman, PlanetVisual};
use ascenoria::victory::VictoryState;

#[test]
fn language_toggles_back_and_forth() {
    let mut settings = LocalizationSettings::default();
    assert_eq!(settings.language, Language::En);
    settings.toggle();
    assert_eq!(settings.language, Language::Ru);
    settings.toggle();
    assert_eq!(settings.language, Language::En);
}

fn techs() -> Vec<Tech> {
    vec![
        Tech { id: "a".to_string(), research_cost: 1 },
        Tech { id: "b".to_string(), research_cost: 2 },
    ]
}

#[test]
fn tech_unlocks() {
    let state = TechState { completed: vec!["b".to_string()] };
    let techs = techs();
    assert!(state.is_unlocked(-1, &techs));
    assert!(!state.is_unlocked(0, &techs));
    assert!(state.is_unlocked(1, &techs));
    assert!(!state.is_unlocked(2, &techs));
    assert!(!state.is_unlocked(-2, &techs));
    assert_eq!(state.available_positions(&[0, -1, 1, 5], &techs), vec![1, 2]);
}

#[test]
fn selection_is_clamped_to_available_options() {
    assert_eq!(clamp_selection(3, 0), 0);
    assert_eq!(clamp_selection(5, 3), 2);
    assert_eq!(clamp_selection(1, 3), 1);
}

#[test]
fn victory_conditions() {
    let mut state = VictoryState::new(-4);
    assert_eq!(state.total_systems, 0);
    state.controlled_systems = 0;
    assert!(!state.check_domination_with(0));

    let mut state = VictoryState::new(10);
    state.controlled_systems = 6;
    assert!(!state.check_domination_with(7));
    assert!(state.check_domination_with(6));
    state.controlled_systems = 1;
    assert!(state.check_domination_with(6));

    assert!(!state.check_tech_victory(0, 0));
    assert!(!state.check_tech_victory(5, 4));
    assert!(state.check_tech_victory(5, 5));
    assert!(state.check_tech_victory(5, 0));
    state.mark_ascension_victory();
    assert!(state.ascension_victory);
}

#[test]
fn settings_buttons_cycle() {
    let mut s = NewGameSettings::default();
    assert_eq!((s.star_density, s.num_species, s.atmosphere), (1, 5, 0));
    s.press_settings_button(SettingsButton::StarDensity);
    s.press_settings_button(SettingsButton::StarDensity);
    assert_eq!(s.star_density, 0);
    s.press_settings_button(SettingsButton::NumSpecies);
    s.press_settings_button(SettingsButton::NumSpecies);
    assert_eq!(s.num_species, 7);
    s.press_settings_button(SettingsButton::NumSpecies);
    assert_eq!(s.num_species, 1);
    s.press_settings_button(SettingsButton::Atmosphere);
    s.press_settings_button(SettingsButton::Atmosphere);
    assert_eq!(s.atmosphere, 2);
    s.press_settings_button(SettingsButton::PlayerColor(4));
    assert_eq!(s.player_color, 4);
    assert_eq!(
        s.galaxy_info_text(),
        "Sparse Star Cluster\nOne Species\nMethane Atmosphere"
    );
}

#[test]
fn species_keyboard_navigation() {
    let mut s = NewGameSettings::default();
    assert_eq!(s.handle_selection_key(SelectionKey::ArrowUp, 3), (None, false));
    assert_eq!(s.handle_selection_key(SelectionKey::ArrowDown, 3), (None, true));
    assert_eq!(s.handle_selection_key(SelectionKey::ArrowDown, 3), (None, true));
    assert_eq!(s.handle_selection_key(SelectionKey::ArrowDown, 3), (None, false));
    assert_eq!(s.selected_species_index, 2);
    assert_eq!(s.handle_selection_key(SelectionKey::Escape, 3), (Some(GameState::MainMenu), false));
    assert_eq!(s.handle_selection_key(SelectionKey::Enter, 3), (Some(GameState::SpeciesIntro), false));
    assert_eq!(s.handle_selection_key(SelectionKey::Enter, 0), (None, false));
    assert!(s.select_species(0));
    assert!(!s.select_species(0));
}

#[test]
fn intro_keys() {
    assert_eq!(intro_key_transition(true, true, false), Some(GameState::SpeciesSelection));
    assert_eq!(intro_key_transition(false, false, true), Some(GameState::InGame));
    assert_eq!(intro_key_transition(false, false, false), None);
}

#[test]
fn mission_briefings() {
    let b = generate_mission_briefing("Orfa", "orfa");
    assert!(b.starts_with("The mysterious Orfa venture forth"));
    assert!(b.ends_with("Your journey into the unknown begins now."));
    let d = generate_mission_briefing("Blobs", "blobs");
    assert_eq!(
        d,
        "The Blobs embark on an epic journey to the stars. A new chapter in your species' history begins today.\n\nExplore the cosmos. Build your civilization. Write your legend among the stars."
    );
}

#[test]
fn planet_visuals_and_numerals() {
    assert_eq!(PlanetVisual::from_surface_type("eden"), PlanetVisual::Lush);
    assert_eq!(PlanetVisual::from_surface_type("supermineral"), PlanetVisual::Rocky);
    assert_eq!(PlanetVisual::from_surface_type("tycoon"), PlanetVisual::Desert);
    assert_eq!(PlanetVisual::from_surface_type("husk"), PlanetVisual::Volcanic);
    assert_eq!(PlanetVisual::from_surface_type("gas_giant"), PlanetVisual::Gas);
    assert_eq!(PlanetVisual::from_surface_type("ocean"), PlanetVisual::Rocky);
    assert_eq!(to_roman(4), "IV");
    assert_eq!(to_roman(10), "X");
    assert_eq!(to_roman(0), "?");
    assert_eq!(planet_marker_size(10), 20);
    assert_eq!(planet_marker_size(11), 30);
    assert_eq!(planet_marker_size(50), 40);
    assert_eq!(planet_marker_size(51), 50);
}

#[test]
fn blueprint_file_name() {
    let mut design = ShipDesign::new("small");
    design.add_module(ModuleCategory::Engine, "tonklin_motor");
    let bp = ShipBlueprint { name: "test_ship".to_string(), design };
    assert_eq!(bp.file_name(), "test_ship.toml");
}

#[test]
fn planet_labels_drop_system_prefix() {
    assert_eq!(planet_label(Some("System-Vega"), 0), "Vega I");
    assert_eq!(planet_label(Some("Sol"), 3), "Sol IV");
    assert_eq!(planet_label(Some("System-A System-B"), 9), "A B X");
    assert_eq!(planet_label(Some("Syst"), 10), "Syst ?");
    assert_eq!(planet_label(None, 1), "Unknown System II");
}

#[test]
fn system_titles_name_icarus() {
    assert_eq!(system_title("System-12"), "Icarus12 I");
    assert_eq!(system_title("Altair"), "Altair I");
}

#[test]
fn tech_state_records_each_tech_once() {
    let mut state = TechState::default();
    assert!(state.completed.is_empty());
    state.complete("lasers");
    state.complete("shields");
    state.complete("lasers");
    assert_eq!(state.completed, vec!["lasers".to_string(), "shields".to_string()]);
}
