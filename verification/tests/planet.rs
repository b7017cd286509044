use ascenoria::data::{GameData, GameRegistry, SurfaceBuilding};
use ascenoria::planet_data::{BuildingType, PlanetSurface, TileColor};
use ascenoria::planet_view::economy::{PlanetViewState, TileUpdateEvent, UIAction};
use ascenoria::planet_view::logic::update_connectivity;
use ascenoria::planet_view::modal::PlanetInfoModalState;
use ascenoria::screens::GameState;

fn set_building(surface: &mut PlanetSurface, x: usize, y: usize, b: BuildingType) {
    let i = y * surface.row_width + x;
    surface.tiles[i].building = Some(b);
}

fn grid_data_with(flags: &[(BuildingType, bool)]) -> GameData {
    let mut data = GameData::empty();
    for (b, counts) in flags {
        data.surface_buildings.push(SurfaceBuilding {
            id: b.definition_id().to_string(),
            counts_for_adjacency: *counts,
        });
    }
    data
}

fn grid_data() -> GameData {
    grid_data_with(&[
        (BuildingType::Base, true),
        (BuildingType::Farm, true),
        (BuildingType::Habitat, true),
        (BuildingType::Factory, true),
        (BuildingType::Laboratory, true),
        (BuildingType::Passage, true),
        (BuildingType::Terraformer, true),
    ])
}

fn connected_map(surface: &PlanetSurface) -> Vec<bool> {
    surface.tiles.iter().map(|t| t.connected).collect()
}

#[test]
fn base_neighbors_and_passage_corner_are_connected() {
    let mut surface = PlanetSurface::new(3, 3);
    for tile in surface.tiles.iter_mut() {
        tile.color = TileColor::White;
    }
    set_building(&mut surface, 1, 1, BuildingType::Base);
    set_building(&mut surface, 1, 0, BuildingType::Passage);
    update_connectivity(&mut surface, &grid_data(), &GameRegistry);

    assert!(surface.get(1, 1).unwrap().connected);
    assert!(surface.get(1, 0).unwrap().connected);
    assert!(surface.get(1, 2).unwrap().connected);
    assert!(surface.get(0, 1).unwrap().connected);
    assert!(surface.get(2, 1).unwrap().connected);
    assert!(surface.get(0, 0).unwrap().connected);
    assert!(surface.get(2, 0).unwrap().connected);
    assert!(!surface.get(0, 2).unwrap().connected);
    assert!(!surface.get(2, 2).unwrap().connected);
}

#[test]
fn without_base_nothing_is_connected() {
    let mut surface = PlanetSurface::new(4, 2);
    set_building(&mut surface, 0, 0, BuildingType::Farm);
    for tile in surface.tiles.iter_mut() {
        tile.connected = true;
    }
    update_connectivity(&mut surface, &grid_data(), &GameRegistry);
    assert!(connected_map(&surface).iter().all(|c| !c));
    assert_eq!(surface.tiles[0].building, Some(BuildingType::Farm));
}

#[test]
fn grid_grows_along_building_chains_only() {
    // 5 wide, 3 high. Base at (0,1), chain of buildings (1,1),(2,1), gap at (3,1),
    // isolated farm at (4,1).
    let mut surface = PlanetSurface::new(5, 3);
    set_building(&mut surface, 0, 1, BuildingType::Base);
    set_building(&mut surface, 1, 1, BuildingType::Farm);
    set_building(&mut surface, 2, 1, BuildingType::Habitat);
    set_building(&mut surface, 4, 1, BuildingType::Farm);
    update_connectivity(&mut surface, &grid_data(), &GameRegistry);
    let expected = vec![
        true, true, true, false, false, //
        true, true, true, true, false, //
        true, true, true, false, false,
    ];
    assert_eq!(connected_map(&surface), expected);
}

#[test]
fn grid_does_not_wrap_around_rows() {
    let mut surface = PlanetSurface::new(3, 2);
    set_building(&mut surface, 2, 0, BuildingType::Base);
    set_building(&mut surface, 0, 1, BuildingType::Farm);
    update_connectivity(&mut surface, &grid_data(), &GameRegistry);
    assert_eq!(connected_map(&surface), vec![false, true, true, false, false, true]);
}

#[test]
fn building_that_does_not_count_is_no_grid_node() {
    let mut surface = PlanetSurface::new(3, 1);
    set_building(&mut surface, 0, 0, BuildingType::Base);
    set_building(&mut surface, 1, 0, BuildingType::Farm);
    let data = grid_data_with(&[(BuildingType::Farm, false)]);
    update_connectivity(&mut surface, &data, &GameRegistry);
    assert_eq!(connected_map(&surface), vec![true, true, false]);
}

#[test]
fn building_without_definition_is_no_grid_node() {
    let mut surface = PlanetSurface::new(3, 1);
    set_building(&mut surface, 0, 0, BuildingType::Base);
    set_building(&mut surface, 1, 0, BuildingType::Farm);
    update_connectivity(&mut surface, &GameData::empty(), &GameRegistry);
    assert_eq!(connected_map(&surface), vec![true, true, false]);
}

#[test]
fn counting_building_extends_grid() {
    let mut surface = PlanetSurface::new(3, 1);
    set_building(&mut surface, 0, 0, BuildingType::Base);
    set_building(&mut surface, 1, 0, BuildingType::Farm);
    let data = grid_data_with(&[(BuildingType::Farm, true)]);
    update_connectivity(&mut surface, &data, &GameRegistry);
    assert_eq!(connected_map(&surface), vec![true, true, true]);
}

#[test]
fn partial_row_without_base_clears_every_flag() {
    let mut surface = PlanetSurface::new(3, 1);
    surface.tiles.push(surface.tiles[0]);
    for tile in surface.tiles.iter_mut() {
        tile.connected = true;
    }
    update_connectivity(&mut surface, &grid_data(), &GameRegistry);
    assert_eq!(connected_map(&surface), vec![false, false, false, false]);
}

#[test]
fn partial_last_row_stays_unpowered() {
    let mut surface = PlanetSurface::new(2, 2);
    surface.tiles.push(surface.tiles[0]);
    set_building(&mut surface, 0, 1, BuildingType::Base);
    update_connectivity(&mut surface, &grid_data(), &GameRegistry);
    assert_eq!(connected_map(&surface), vec![true, false, true, true, false]);
}

#[test]
fn surface_lookup_respects_bounds() {
    let surface = PlanetSurface::new(3, 2);
    assert_eq!(surface.height(), 2);
    assert!(surface.get(2, 1).is_some());
    assert!(surface.get(3, 0).is_none());
    assert!(surface.get(0, 2).is_none());
    assert_eq!(surface.index_of(1, 1), Some(4));
}

fn colony() -> PlanetViewState {
    let mut surface = PlanetSurface::new(3, 3);
    for tile in surface.tiles.iter_mut() {
        tile.color = TileColor::White;
    }
    surface.tiles[0].color = TileColor::Black;
    set_building(&mut surface, 1, 1, BuildingType::Base);
    PlanetViewState::start(surface, &grid_data(), &GameRegistry)
}

#[test]
fn starting_view_has_base_yields() {
    let state = colony();
    assert_eq!(state.turn, 1);
    assert_eq!((state.food, state.housing, state.production, state.science), (1, 3, 1, 1));
    assert!(state.surface.as_ref().unwrap().tiles[4].connected);
}

#[test]
fn end_turn_collects_yields() {
    let mut state = colony();
    {
        let surface = state.surface.as_mut().unwrap();
        set_building(surface, 1, 0, BuildingType::Farm);
        set_building(surface, 0, 1, BuildingType::Habitat);
        set_building(surface, 2, 1, BuildingType::Laboratory);
        set_building(surface, 1, 2, BuildingType::Factory);
    }
    state.end_turn();
    assert_eq!(state.turn, 2);
    assert_eq!(state.food, 1 + 2);
    assert_eq!(state.housing, 3 + 5);
    assert_eq!(state.production, 1 + 2);
    assert_eq!(state.science, 1 + 2);
    assert_eq!(state.research_progress, 3);
    assert!(!state.terraforming_unlocked);
}

#[test]
fn research_threshold_unlocks_terraforming() {
    let mut state = colony();
    state.research_progress = 98;
    state.end_turn();
    assert_eq!(state.science, 2);
    assert_eq!(state.research_progress, 100);
    assert!(state.terraforming_unlocked);
}

#[test]
fn placement_rules() {
    let mut state = colony();
    state.production = 100;
    // Nothing selected.
    assert_eq!(state.handle_tile_click(1, 0), None);
    state.apply_ui_action(UIAction::SelectBuilding(BuildingType::Farm));
    // Not adjacent to any building.
    assert_eq!(state.handle_tile_click(2, 2), None);
    // Occupied.
    assert_eq!(state.handle_tile_click(1, 1), None);
    // Adjacent white tile: placed.
    assert_eq!(state.handle_tile_click(1, 0), Some(TileUpdateEvent { x: 1, y: 0 }));
    assert_eq!(state.production, 90);
    assert_eq!(state.surface.as_ref().unwrap().tiles[1].building, Some(BuildingType::Farm));
    // Black tile needs a passage or terraformer.
    assert_eq!(state.handle_tile_click(0, 0), None);
    state.apply_ui_action(UIAction::SelectBuilding(BuildingType::Terraformer));
    // Terraforming not researched yet.
    assert_eq!(state.handle_tile_click(0, 0), None);
    state.terraforming_unlocked = true;
    assert_eq!(state.handle_tile_click(0, 0), Some(TileUpdateEvent { x: 0, y: 0 }));
    let tile = state.surface.as_ref().unwrap().tiles[0];
    assert_eq!(tile.color, TileColor::White);
    assert_eq!(tile.building, None);
    assert_eq!(state.production, 80);
    assert!(!state.victory);
}

#[test]
fn not_enough_production_blocks_placement() {
    let mut state = colony();
    state.production = 9;
    state.selected_building = Some(BuildingType::Farm);
    assert_eq!(state.handle_tile_click(1, 0), None);
    assert_eq!(state.production, 9);
}

#[test]
fn filling_every_tile_wins() {
    let mut surface = PlanetSurface::new(2, 1);
    for tile in surface.tiles.iter_mut() {
        tile.color = TileColor::White;
    }
    set_building(&mut surface, 0, 0, BuildingType::Base);
    let mut state = PlanetViewState::start(surface, &grid_data(), &GameRegistry);
    state.production = 10;
    state.selected_building = Some(BuildingType::Factory);
    assert_eq!(state.handle_tile_click(1, 0), Some(TileUpdateEvent { x: 1, y: 0 }));
    assert!(state.victory);
    assert_eq!(state.production, 0);
}

#[test]
fn quit_returns_to_main_menu() {
    let mut state = colony();
    assert_eq!(state.apply_ui_action(UIAction::Quit), Some(GameState::MainMenu));
    assert_eq!(state.apply_ui_action(UIAction::EndTurn), None);
    assert_eq!(state.turn, 2);
}

#[test]
fn build_menu_queues_project_for_target() {
    let mut state = colony();
    state.build_menu_open = true;
    state.build_menu_target_tile = Some(7);
    let event = state.choose_from_build_menu(BuildingType::Laboratory);
    assert_eq!(event, Some(TileUpdateEvent { x: 1, y: 2 }));
    assert!(!state.build_menu_open);
    assert_eq!(state.build_menu_target_tile, None);
    assert_eq!(state.production_queue.len(), 1);
    let project = state.production_queue[0];
    assert_eq!(project.total_cost, 50);
    assert_eq!(project.progress, 0);
    assert_eq!(project.target_tile_index, 7);

    state.build_menu_open = true;
    assert_eq!(state.choose_from_build_menu(BuildingType::Farm), None);
    assert_eq!(state.production_queue.len(), 1);

    state.build_menu_open = true;
    state.build_menu_target_tile = Some(3);
    state.cancel_build_menu();
    assert!(!state.build_menu_open);
    assert_eq!(state.build_menu_target_tile, None);
    assert_eq!(state.production_queue.len(), 1);
}

#[test]
fn modal_show_hide_and_texts() {
    let mut modal = PlanetInfoModalState::default();
    assert!(!modal.visible);
    modal.show("Icarus I", 1, 4, 3, 10);
    assert!(modal.visible);
    assert_eq!(modal.title_text(), "Icarus I Prosperity: 1 per day");
    assert_eq!(modal.growth_text(), "Population will grow in 4 days.");
    assert_eq!(modal.population_text(), "Population: 3 / 10");
    modal.hide_modal();
    assert!(!modal.visible);
    assert_eq!(modal.planet_name, "Icarus I");
    modal.days_to_growth = 0;
    assert_eq!(modal.growth_text(), "Population at maximum capacity.");
}

#[test]
fn building_definition_ids() {
    assert_eq!(BuildingType::Base.definition_id(), "building_base");
    assert_eq!(BuildingType::Farm.definition_id(), "building_farm_1");
    assert_eq!(BuildingType::Habitat.definition_id(), "building_habitat_1");
    assert_eq!(BuildingType::Factory.definition_id(), "building_factory_1");
    assert_eq!(BuildingType::Laboratory.definition_id(), "building_laboratory_1");
    assert_eq!(BuildingType::Passage.definition_id(), "building_passage");
    assert_eq!(BuildingType::Terraformer.definition_id(), "building_terraformer");
}
