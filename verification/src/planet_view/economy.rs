//! Turn economy of a colony: yields, building placement and the build menu.

use vstd::prelude::*;
use std::collections::VecDeque;
use crate::data::{GameData, GameRegistry};
use crate::planet_data::{BuildingType, PlanetSurface, SurfaceTile, TileColor};
use crate::planet_view::logic::{update_connectivity, has_base, first_base, powered, rows};
use crate::screens::GameState;

verus! {

/// Production cost of placing a building by clicking a tile.
pub const PLACEMENT_COST: i32 = 10i32;

/// Production cost of a project queued from the build menu.
pub const QUEUED_PROJECT_COST: i32 = 50i32;

/// Research points that unlock terraforming.
pub const TERRAFORMING_RESEARCH: i32 = 100i32;

/// A tile whose visuals must be refreshed.
#[derive(Clone, Copy, Debug, PartialEq, Eq, Structural)]
pub struct TileUpdateEvent {
    pub x: usize,
    pub y: usize,
}

/// What a production project builds.
#[derive(Clone, Copy, Debug, PartialEq, Eq, Structural)]
pub enum ProjectType {
    Building(BuildingType),
}

/// An entry of the production queue.
#[derive(Clone, Copy, Debug, PartialEq, Eq, Structural)]
pub struct ProductionProject {
    pub project_type: ProjectType,
    pub total_cost: i32,
    pub progress: i32,
    pub target_tile_index: usize,
}

/// Buttons of the planet view overlay.
#[derive(Clone, Copy, Debug, PartialEq, Eq, Structural)]
pub enum UIAction {
    EndTurn,
    SelectBuilding(BuildingType),
    Quit,
}

/// State of the planet view: the surface and the colony's stockpiles.
#[derive(Debug)]
pub struct PlanetViewState {
    /// Index of the currently viewed planet within its star system.
    pub planet_index: usize,
    pub surface: Option<PlanetSurface>,
    pub turn: i32,
    pub food: i32,
    pub housing: i32,
    pub production: i32,
    pub science: i32,
    pub research_progress: i32,
    pub terraforming_unlocked: bool,
    pub victory: bool,
    pub selected_building: Option<BuildingType>,
    pub production_queue: VecDeque<ProductionProject>,
    pub build_menu_open: bool,
    pub build_menu_target_tile: Option<usize>,
}

/// Number of tiles carrying building `b`.
pub open spec fn count_building(tiles: Seq<SurfaceTile>, b: BuildingType) -> int
    decreases tiles.len(),
{
    if tiles.len() == 0 {
        0
    } else {
        count_building(tiles.drop_last(), b) + if tiles.last().building == Some(b) {
            1int
        } else {
            0int
        }
    }
}

/// Counting over a prefix never exceeds counting over the whole.
proof fn lemma_count_prefix(tiles: Seq<SurfaceTile>, b: BuildingType, k: int)
    requires
        0 <= k <= tiles.len(),
    ensures
        0 <= count_building(tiles.subrange(0, k), b) <= count_building(tiles, b),
    decreases tiles.len() - k,
{
    if k < tiles.len() {
        lemma_count_prefix(tiles, b, k + 1);
        assert(tiles.subrange(0, k + 1).drop_last() =~= tiles.subrange(0, k));
    } else {
        assert(tiles.subrange(0, k) =~= tiles);
    }
    lemma_count_nonneg(tiles.subrange(0, k), b);
}

proof fn lemma_count_nonneg(tiles: Seq<SurfaceTile>, b: BuildingType)
    ensures
        count_building(tiles, b) >= 0,
    decreases tiles.len(),
{
    if tiles.len() > 0 {
        lemma_count_nonneg(tiles.drop_last(), b);
    }
}

/// Tiles of the surface, or none without a surface.
pub open spec fn surface_tiles(surface: Option<PlanetSurface>) -> Seq<SurfaceTile> {
    match surface {
        Some(s) => s.tiles@,
        None => Seq::empty(),
    }
}

/// Food produced per turn: one per base and one per farm.
pub open spec fn food_yield(tiles: Seq<SurfaceTile>) -> int {
    count_building(tiles, BuildingType::Base) + count_building(tiles, BuildingType::Farm)
}

/// Housing produced per turn: three per base and two per habitat.
pub open spec fn housing_yield(tiles: Seq<SurfaceTile>) -> int {
    3 * count_building(tiles, BuildingType::Base) + 2 * count_building(tiles, BuildingType::Habitat)
}

/// Production per turn: one per base and one per factory.
pub open spec fn production_yield(tiles: Seq<SurfaceTile>) -> int {
    count_building(tiles, BuildingType::Base) + count_building(tiles, BuildingType::Factory)
}

/// Science per turn: one per base and one per laboratory.
pub open spec fn science_yield(tiles: Seq<SurfaceTile>) -> int {
    count_building(tiles, BuildingType::Base) + count_building(tiles, BuildingType::Laboratory)
}

/// Every tile carries a building.
pub open spec fn all_built(tiles: Seq<SurfaceTile>) -> bool {
    forall|i: int| 0 <= i < tiles.len() ==> (#[trigger] tiles[i]).building is Some
}

/// Tile at column `x`, row `y` lies on the surface and carries a building.
pub open spec fn built_at(s: PlanetSurface, x: int, y: int) -> bool {
    &&& x >= 0
    &&& y >= 0
    &&& s.spec_index(x, y) matches Some(i) && s.tiles@[i].building is Some
}

/// An orthogonal neighbour of column `x`, row `y` carries a building.
pub open spec fn next_to_building(s: PlanetSurface, x: int, y: int) -> bool {
    built_at(s, x, y + 1) || built_at(s, x, y - 1) || built_at(s, x + 1, y) || built_at(s, x - 1, y)
}

/// Terrain on which building `b` may be placed.
pub open spec fn terrain_allows(b: BuildingType, color: TileColor) -> bool {
    if b == BuildingType::Terraformer || b == BuildingType::Passage {
        color == TileColor::Black
    } else {
        color == TileColor::White
    }
}

/// The tile after placing `b` on it: a terraformer turns the tile white,
/// anything else is built on it.
pub open spec fn placed_tile(t: SurfaceTile, b: BuildingType) -> SurfaceTile {
    if b == BuildingType::Terraformer {
        SurfaceTile { color: TileColor::White, ..t }
    } else {
        SurfaceTile { building: Some(b), ..t }
    }
}

/// A placement of `b` at column `x`, row `y` is allowed on `s`.
pub open spec fn placement_allowed(s: PlanetSurface, x: int, y: int, b: BuildingType, terraforming: bool) -> bool {
    let i = y * s.row_width + x;
    &&& terrain_allows(b, s.tiles@[i].color)
    &&& s.tiles@[i].building is None
    &&& next_to_building(s, x, y)
    &&& (b == BuildingType::Terraformer ==> terraforming)
}

/// Changing what one tile carries changes the count of `b` by what left the
/// tile and what came onto it.
pub proof fn lemma_count_after_update(tiles: Seq<SurfaceTile>, i: int, t: SurfaceTile, b: BuildingType)
    requires
        0 <= i < tiles.len(),
    ensures
        count_building(tiles.update(i, t), b) == count_building(tiles, b) - (if tiles[i].building == Some(b) {
            1int
        } else {
            0int
        }) + (if t.building == Some(b) {
            1int
        } else {
            0int
        }),
    decreases tiles.len(),
{
    let u = tiles.update(i, t);
    if i == tiles.len() - 1 {
        assert(u.drop_last() =~= tiles.drop_last());
    } else {
        assert(u.drop_last() =~= tiles.drop_last().update(i, t));
        lemma_count_after_update(tiles.drop_last(), i, t, b);
    }
}

/// Production comes from bases and factories only: building on an empty tile
/// raises the production per turn by one for a base or a factory and leaves
/// it as it was for any other building.
pub proof fn lemma_production_from_bases_and_factories(tiles: Seq<SurfaceTile>, i: int, t: SurfaceTile)
    requires
        0 <= i < tiles.len(),
        tiles[i].building is None,
    ensures
        production_yield(tiles.update(i, t)) == production_yield(tiles) + (if t.building == Some(
            BuildingType::Base,
        ) || t.building == Some(BuildingType::Factory) {
            1int
        } else {
            0int
        }),
{
    lemma_count_after_update(tiles, i, t, BuildingType::Base);
    lemma_count_after_update(tiles, i, t, BuildingType::Factory);
}

/// Building on an empty tile changes the other yields per turn by what that
/// building brings: a base one food, three housing and one science; a farm
/// one food; a habitat two housing; a laboratory one science; anything else
/// nothing.
pub proof fn lemma_yields_after_building(tiles: Seq<SurfaceTile>, i: int, t: SurfaceTile)
    requires
        0 <= i < tiles.len(),
        tiles[i].building is None,
    ensures
        food_yield(tiles.update(i, t)) == food_yield(tiles) + (if t.building == Some(BuildingType::Base)
            || t.building == Some(BuildingType::Farm) {
            1int
        } else {
            0int
        }),
        housing_yield(tiles.update(i, t)) == housing_yield(tiles) + (if t.building == Some(
            BuildingType::Base,
        ) {
            3int
        } else if t.building == Some(BuildingType::Habitat) {
            2int
        } else {
            0int
        }),
        science_yield(tiles.update(i, t)) == science_yield(tiles) + (if t.building == Some(
            BuildingType::Base,
        ) || t.building == Some(BuildingType::Laboratory) {
            1int
        } else {
            0int
        }),
{
    lemma_count_after_update(tiles, i, t, BuildingType::Base);
    lemma_count_after_update(tiles, i, t, BuildingType::Farm);
    lemma_count_after_update(tiles, i, t, BuildingType::Habitat);
    lemma_count_after_update(tiles, i, t, BuildingType::Laboratory);
}

/// A surface without buildings yields nothing.
pub proof fn lemma_no_buildings_no_yield(tiles: Seq<SurfaceTile>)
    requires
        forall|i: int| 0 <= i < tiles.len() ==> (#[trigger] tiles[i]).building is None,
    ensures
        production_yield(tiles) == 0,
        food_yield(tiles) == 0,
        housing_yield(tiles) == 0,
        science_yield(tiles) == 0,
    decreases tiles.len(),
{
    if tiles.len() > 0 {
        assert forall|i: int| 0 <= i < tiles.drop_last().len() implies (#[trigger] tiles.drop_last()[i]).building is None by {
            assert(tiles.drop_last()[i] == tiles[i]);
        }
        lemma_no_buildings_no_yield(tiles.drop_last());
        assert(tiles.last().building is None);
    }
}

/// At the end of a turn the production grows by the number of tiles carrying
/// a base plus the number carrying a factory.
pub proof fn lemma_turn_production(old: PlanetViewState, new: PlanetViewState)
    requires
        PlanetViewState::end_turn_result(&old, &new),
    ensures
        new.production == old.production + count_building(surface_tiles(old.surface), BuildingType::Base)
            + count_building(surface_tiles(old.surface), BuildingType::Factory),
{
}

/// Where a building may be placed: passages and terraformers only on black
/// tiles, every other building only on white ones, always on an empty tile
/// next to a building, and a terraformer only once terraforming is unlocked.
pub proof fn lemma_placement_rules(s: PlanetSurface, x: int, y: int, b: BuildingType, terraforming: bool)
    ensures
        placement_allowed(s, x, y, b, terraforming) <==> ({
            let tile = s.tiles@[y * s.row_width + x];
            &&& if b == BuildingType::Passage || b == BuildingType::Terraformer {
                tile.color == TileColor::Black
            } else {
                tile.color == TileColor::White
            }
            &&& tile.building is None
            &&& next_to_building(s, x, y)
            &&& (b == BuildingType::Terraformer ==> terraforming)
        }),
{
}

impl PlanetViewState {
    /// The stockpiles stay within `i32` when this turn's yields are added.
    pub open spec fn end_turn_fits(&self) -> bool {
        let tiles = surface_tiles(self.surface);
        &&& self.turn < i32::MAX
        &&& self.food + food_yield(tiles) <= i32::MAX
        &&& self.housing + housing_yield(tiles) <= i32::MAX
        &&& self.production + production_yield(tiles) <= i32::MAX
        &&& self.science + science_yield(tiles) <= i32::MAX
        &&& i32::MIN <= self.research_progress + self.science + science_yield(tiles) <= i32::MAX
    }

    /// `new` is `old` after the turn ended.
    pub open spec fn end_turn_result(old: &Self, new: &Self) -> bool {
        let tiles = surface_tiles(old.surface);
        &&& new.same_except_economy(old)
        &&& new.turn == old.turn + 1
        &&& new.food == old.food + food_yield(tiles)
        &&& new.housing == old.housing + housing_yield(tiles)
        &&& new.production == old.production + production_yield(tiles)
        &&& new.science == old.science + science_yield(tiles)
        &&& new.research_progress == old.research_progress + new.science
        &&& new.terraforming_unlocked == (old.terraforming_unlocked || new.research_progress
            >= TERRAFORMING_RESEARCH)
        &&& new.victory == old.victory
    }

    /// Only the selected building differs between `old` and `new`.
    pub open spec fn only_selection_changed(old: &Self, new: &Self) -> bool {
        &&& new.planet_index == old.planet_index
        &&& new.surface == old.surface
        &&& new.production_queue == old.production_queue
        &&& new.build_menu_open == old.build_menu_open
        &&& new.build_menu_target_tile == old.build_menu_target_tile
        &&& new.turn == old.turn
        &&& new.food == old.food
        &&& new.housing == old.housing
        &&& new.production == old.production
        &&& new.science == old.science
        &&& new.research_progress == old.research_progress
        &&& new.terraforming_unlocked == old.terraforming_unlocked
        &&& new.victory == old.victory
    }

    /// Everything but the stockpiles, the turn and the flags is unchanged.
    pub open spec fn same_except_economy(&self, other: &Self) -> bool {
        &&& self.planet_index == other.planet_index
        &&& self.surface == other.surface
        &&& self.selected_building == other.selected_building
        &&& self.production_queue == other.production_queue
        &&& self.build_menu_open == other.build_menu_open
        &&& self.build_menu_target_tile == other.build_menu_target_tile
    }

    /// The view of a freshly generated surface: powered tiles computed, turn
    /// one, and the base's yields of one food, three housing, one production
    /// and one science.
    pub fn start(surface: PlanetSurface, game_data: &GameData, registry: &GameRegistry) -> (s: Self)
        requires
            surface.row_width > 0,
            forall|b: int|
                #[trigger] first_base(surface.tiles@, b) ==> b < surface.row_width * rows(
                    surface.tiles@,
                    surface.row_width as int,
                ),
        ensures
            s.planet_index == 0,
            s.turn == 1,
            s.food == 1,
            s.housing == 3,
            s.production == 1,
            s.science == 1,
            s.research_progress == 0,
            !s.terraforming_unlocked,
            !s.victory,
            s.selected_building is None,
            s.production_queue@.len() == 0,
            !s.build_menu_open,
            s.build_menu_target_tile is None,
            s.surface matches Some(t) && t.row_width == surface.row_width && t.tiles.len()
                == surface.tiles.len() && (forall|i: int|
                0 <= i < surface.tiles.len() ==> (#[trigger] t.tiles[i]).color == surface.tiles[i].color
                    && t.tiles[i].building == surface.tiles[i].building) && (!has_base(surface.tiles@)
                ==> forall|i: int| 0 <= i < t.tiles.len() ==> !(#[trigger] t.tiles[i]).connected) && (
            forall|b: int, i: int|
                #![trigger first_base(surface.tiles@, b), t.tiles[i]]
                first_base(surface.tiles@, b) && 0 <= i < surface.tiles.len() ==> t.tiles[i].connected
                    == powered(game_data.surface_buildings@, surface.tiles@, surface.row_width as int, b, i)),
    {
        let mut surface = surface;
        update_connectivity(&mut surface, game_data, registry);
        PlanetViewState {
            planet_index: 0,
            surface: Some(surface),
            turn: 1,
            food: 1,
            housing: 3,
            production: 1,
            science: 1,
            research_progress: 0,
            terraforming_unlocked: false,
            victory: false,
            selected_building: None,
            production_queue: VecDeque::new(),
            build_menu_open: false,
            build_menu_target_tile: None,
        }
    }

    /// End the turn: collect the yields of all buildings, add this turn's
    /// science to the research progress, and unlock terraforming once the
    /// progress reaches the threshold.
    pub fn end_turn(&mut self)
        requires
            old(self).end_turn_fits(),
        ensures
            Self::end_turn_result(&*old(self), &*final(self)),
            ({
                let tiles = surface_tiles(old(self).surface);
                &&& final(self).production == old(self).production + count_building(tiles, BuildingType::Base)
                    + count_building(tiles, BuildingType::Factory)
                &&& final(self).food == old(self).food + count_building(tiles, BuildingType::Base)
                    + count_building(tiles, BuildingType::Farm)
                &&& final(self).housing == old(self).housing + 3 * count_building(tiles, BuildingType::Base)
                    + 2 * count_building(tiles, BuildingType::Habitat)
                &&& final(self).science == old(self).science + count_building(tiles, BuildingType::Base)
                    + count_building(tiles, BuildingType::Laboratory)
            }),
    {
        self.turn = self.turn + 1;
        let ghost tiles = surface_tiles(self.surface);
        let ghost food0 = self.food;
        let ghost housing0 = self.housing;
        let ghost production0 = self.production;
        let ghost science0 = self.science;
        let ghost before = *self;
        match &self.surface {
            Some(surface) => {
                let mut i: usize = 0;
                while i < surface.tiles.len()
                    invariant
                        i <= surface.tiles@.len(),
                        tiles == surface.tiles@,
                        self.same_except_economy(&before),
                        self.turn == before.turn,
                        self.research_progress == before.research_progress,
                        self.terraforming_unlocked == before.terraforming_unlocked,
                        self.victory == before.victory,
                        before.research_progress + before.science + science_yield(tiles) <= i32::MAX,
                        i32::MIN <= before.research_progress + before.science + science_yield(tiles),
                        science0 == before.science,
                        food0 + food_yield(tiles) <= i32::MAX,
                        housing0 + housing_yield(tiles) <= i32::MAX,
                        production0 + production_yield(tiles) <= i32::MAX,
                        science0 + science_yield(tiles) <= i32::MAX,
                        self.food == food0 + food_yield(tiles.subrange(0, i as int)),
                        self.housing == housing0 + housing_yield(tiles.subrange(0, i as int)),
                        self.production == production0 + production_yield(tiles.subrange(0, i as int)),
                        self.science == science0 + science_yield(tiles.subrange(0, i as int)),
                    decreases surface.tiles@.len() - i,
                {
                    let ghost pre = tiles.subrange(0, i as int);
                    let ghost post = tiles.subrange(0, i + 1);
                    proof {
                        assert(post.drop_last() =~= pre);
                        assert(post.last() == tiles[i as int]);
                        lemma_count_prefix(tiles, BuildingType::Base, i + 1);
                        lemma_count_prefix(tiles, BuildingType::Farm, i + 1);
                        lemma_count_prefix(tiles, BuildingType::Habitat, i + 1);
                        lemma_count_prefix(tiles, BuildingType::Factory, i + 1);
                        lemma_count_prefix(tiles, BuildingType::Laboratory, i + 1);
                        lemma_count_prefix(tiles, BuildingType::Base, i as int);
                        lemma_count_prefix(tiles, BuildingType::Farm, i as int);
                        lemma_count_prefix(tiles, BuildingType::Habitat, i as int);
                        lemma_count_prefix(tiles, BuildingType::Factory, i as int);
                        lemma_count_prefix(tiles, BuildingType::Laboratory, i as int);
                    }
                    match surface.tiles[i].building {
                        Some(BuildingType::Base) => {
                            self.food = self.food + 1;
                            self.housing = self.housing + 3;
                            self.production = self.production + 1;
                            self.science = self.science + 1;
                        },
                        Some(BuildingType::Farm) => {
                            self.food = self.food + 1;
                        },
                        Some(BuildingType::Habitat) => {
                            self.housing = self.housing + 2;
                        },
                        Some(BuildingType::Factory) => {
                            self.production = self.production + 1;
                        },
                        Some(BuildingType::Laboratory) => {
                            self.science = self.science + 1;
                        },
                        _ => {},
                    }
                    i = i + 1;
                }
                proof {
                    assert(tiles.subrange(0, tiles.len() as int) =~= tiles);
                }
            },
            None => {},
        }
        self.research_progress = self.research_progress + self.science;
        if self.research_progress >= TERRAFORMING_RESEARCH {
            self.terraforming_unlocked = true;
        }
    }

    /// Place the selected building on the tile at column `x`, row `y`.
    ///
    /// Nothing happens without a selected building, with less production than
    /// the placement cost, without a surface, on the wrong terrain (passages and
    /// terraformers go on black tiles, everything else on white ones), on an
    /// occupied tile, away from every existing building, or for a terraformer
    /// before terraforming is researched. Otherwise the cost is paid, the tile
    /// is built on (a terraformer instead turns it white), victory is declared
    /// once every tile is built on, and the tile is reported for a refresh.
    pub fn handle_tile_click(&mut self, x: usize, y: usize) -> (r: Option<TileUpdateEvent>)
        requires
            (old(self).selected_building is Some && old(self).production >= PLACEMENT_COST
                && old(self).surface is Some) ==> {
                let s = old(self).surface->0;
                &&& s.wf()
                &&& s.spec_index(x as int, y as int) is Some
                &&& (terrain_allows(
                    old(self).selected_building->0,
                    s.tiles@[y * s.row_width + x].color,
                ) && s.tiles@[y * s.row_width + x].building is None) ==> (x < i32::MAX && y
                    < i32::MAX)
            },
        ensures
            final(self).planet_index == old(self).planet_index,
            final(self).selected_building == old(self).selected_building,
            final(self).production_queue == old(self).production_queue,
            final(self).build_menu_open == old(self).build_menu_open,
            final(self).build_menu_target_tile == old(self).build_menu_target_tile,
            final(self).turn == old(self).turn,
            final(self).food == old(self).food,
            final(self).housing == old(self).housing,
            final(self).science == old(self).science,
            final(self).research_progress == old(self).research_progress,
            final(self).terraforming_unlocked == old(self).terraforming_unlocked,
            ({
                let placed = match (old(self).selected_building, old(self).surface) {
                    (Some(b), Some(s)) => old(self).production >= PLACEMENT_COST && placement_allowed(
                        s,
                        x as int,
                        y as int,
                        b,
                        old(self).terraforming_unlocked,
                    ),
                    _ => false,
                };
                if placed {
                    let b = old(self).selected_building->0;
                    let s = old(self).surface->0;
                    let i = y * s.row_width + x;
                    let new_tiles = s.tiles@.update(i, placed_tile(s.tiles@[i], b));
                    &&& r == Some(TileUpdateEvent { x, y })
                    &&& final(self).production == old(self).production - PLACEMENT_COST
                    &&& final(self).surface matches Some(t) && t.row_width == s.row_width && t.tiles@
                        == new_tiles
                    &&& final(self).victory == (old(self).victory || all_built(new_tiles))
                } else {
                    &&& r is None
                    &&& final(self).production == old(self).production
                    &&& final(self).surface == old(self).surface
                    &&& final(self).victory == old(self).victory
                }
            }),
            r is Some ==> (old(self).selected_building matches Some(b) && old(self).surface matches Some(s)
                && if b == BuildingType::Passage || b == BuildingType::Terraformer {
                s.tiles@[y * s.row_width + x].color == TileColor::Black
            } else {
                s.tiles@[y * s.row_width + x].color == TileColor::White
            }),
            (match old(self).surface {
                Some(s) => {
                    let i = y * s.row_width + x;
                    (old(self).selected_building == Some(BuildingType::Passage) && old(self).production
                        >= PLACEMENT_COST && s.tiles@[i].color == TileColor::Black
                        && s.tiles@[i].building is None && next_to_building(s, x as int, y as int)) ==> {
                        &&& r == Some(TileUpdateEvent { x, y })
                        &&& final(self).production == old(self).production - PLACEMENT_COST
                        &&& final(self).surface matches Some(t) && t.tiles@[i].building == Some(BuildingType::Passage)
                    }
                },
                None => true,
            }),
    {
        let building_type = match self.selected_building {
            Some(b) => b,
            None => {
                return None;
            },
        };
        let cost = PLACEMENT_COST;
        if self.production < cost {
            return None;
        }
        let allowed = match &self.surface {
            None => {
                return None;
            },
            Some(surface) => {
                let tile = *surface.get(x, y).unwrap();
                let valid_terrain = if building_type == BuildingType::Terraformer || building_type
                    == BuildingType::Passage {
                    tile.color == TileColor::Black
                } else {
                    tile.color == TileColor::White
                };
                if !valid_terrain || tile.building.is_some() {
                    false
                } else {
                    let adjacent = building_next_to(surface, x, y);
                    adjacent && !(building_type == BuildingType::Terraformer
                        && !self.terraforming_unlocked)
                }
            },
        };
        if !allowed {
            return None;
        }
        self.production = self.production - cost;
        let mut surface = self.surface.take().unwrap();
        let idx = surface.index_of(x, y).unwrap();
        let mut tile = surface.tiles[idx];
        if building_type == BuildingType::Terraformer {
            tile.color = TileColor::White;
        } else {
            tile.building = Some(building_type);
        }
        surface.tiles.set(idx, tile);
        let mut all = true;
        let mut i: usize = 0;
        while i < surface.tiles.len()
            invariant
                i <= surface.tiles@.len(),
                all == forall|k: int| 0 <= k < i ==> (#[trigger] surface.tiles@[k]).building is Some,
            decreases surface.tiles@.len() - i,
        {
            if surface.tiles[i].building.is_none() {
                all = false;
            }
            i = i + 1;
        }
        if all {
            self.victory = true;
        }
        self.surface = Some(surface);
        Some(TileUpdateEvent { x, y })
    }

    /// Apply a button of the planet view overlay; quitting returns the screen
    /// to switch to.
    pub fn apply_ui_action(&mut self, action: UIAction) -> (r: Option<GameState>)
        requires
            action == UIAction::EndTurn ==> old(self).end_turn_fits(),
        ensures
            match action {
                UIAction::EndTurn => r is None && Self::end_turn_result(&*old(self), &*final(self)),
                UIAction::SelectBuilding(b) => r is None && final(self).selected_building == Some(b)
                    && Self::only_selection_changed(&*old(self), &*final(self)),
                UIAction::Quit => r == Some(GameState::MainMenu) && *final(self) == *old(self),
            },
    {
        match action {
            UIAction::EndTurn => {
                self.end_turn();
                None
            },
            UIAction::SelectBuilding(b) => {
                self.selected_building = Some(b);
                None
            },
            UIAction::Quit => Some(GameState::MainMenu),
        }
    }

    /// A building was picked in the build menu: queue it for the menu's target
    /// tile (if any), report that tile for a refresh when there is a surface,
    /// and close the menu.
    pub fn choose_from_build_menu(&mut self, b: BuildingType) -> (r: Option<TileUpdateEvent>)
        requires
            old(self).build_menu_target_tile is Some ==> (old(self).surface matches Some(s)
                ==> s.row_width > 0),
        ensures
            !final(self).build_menu_open,
            final(self).build_menu_target_tile is None,
            final(self).planet_index == old(self).planet_index,
            final(self).surface == old(self).surface,
            final(self).turn == old(self).turn,
            final(self).food == old(self).food,
            final(self).housing == old(self).housing,
            final(self).production == old(self).production,
            final(self).science == old(self).science,
            final(self).research_progress == old(self).research_progress,
            final(self).terraforming_unlocked == old(self).terraforming_unlocked,
            final(self).victory == old(self).victory,
            final(self).selected_building == old(self).selected_building,
            match old(self).build_menu_target_tile {
                Some(t) => {
                    &&& final(self).production_queue@ == old(self).production_queue@.push(
                        ProductionProject {
                            project_type: ProjectType::Building(b),
                            total_cost: QUEUED_PROJECT_COST,
                            progress: 0,
                            target_tile_index: t,
                        },
                    )
                    &&& r == match old(self).surface {
                        Some(s) => Some(
                            TileUpdateEvent {
                                x: (t as int % s.row_width as int) as usize,
                                y: (t as int / s.row_width as int) as usize,
                            },
                        ),
                        None => None,
                    }
                },
                None => r is None && final(self).production_queue == old(self).production_queue,
            },
    {
        let mut event = None;
        if let Some(target_idx) = self.build_menu_target_tile {
            let cost = QUEUED_PROJECT_COST;
            self.production_queue.push_back(
                ProductionProject {
                    project_type: ProjectType::Building(b),
                    total_cost: cost,
                    progress: 0,
                    target_tile_index: target_idx,
                },
            );
            if let Some(surface) = &self.surface {
                let x = target_idx % surface.row_width;
                let y = target_idx / surface.row_width;
                event = Some(TileUpdateEvent { x, y });
            }
        }
        self.build_menu_open = false;
        self.build_menu_target_tile = None;
        event
    }

    /// The build menu was cancelled: close it without queuing anything.
    pub fn cancel_build_menu(&mut self)
        ensures
            !final(self).build_menu_open,
            final(self).build_menu_target_tile is None,
            final(self).planet_index == old(self).planet_index,
            final(self).surface == old(self).surface,
            final(self).production_queue == old(self).production_queue,
            final(self).turn == old(self).turn,
            final(self).food == old(self).food,
            final(self).housing == old(self).housing,
            final(self).production == old(self).production,
            final(self).science == old(self).science,
            final(self).research_progress == old(self).research_progress,
            final(self).terraforming_unlocked == old(self).terraforming_unlocked,
            final(self).victory == old(self).victory,
            final(self).selected_building == old(self).selected_building,
    {
        self.build_menu_open = false;
        self.build_menu_target_tile = None;
    }
}

/// Whether an orthogonal neighbour of column `x`, row `y` carries a building.
fn building_next_to(surface: &PlanetSurface, x: usize, y: usize) -> (r: bool)
    requires
        surface.wf(),
        x < i32::MAX,
        y < i32::MAX,
    ensures
        r == next_to_building(*surface, x as int, y as int),
{
    let dxs: [i32; 4] = [0, 0, 1, -1];
    let dys: [i32; 4] = [1, -1, 0, 0];
    let mut adjacent = false;
    let mut k: usize = 0;
    while k < 4
        invariant
            k <= 4,
            surface.wf(),
            x < i32::MAX,
            y < i32::MAX,
            dxs@ == seq![0i32, 0i32, 1i32, -1i32],
            dys@ == seq![1i32, -1i32, 0i32, 0i32],
            adjacent == exists|m: int| 0 <= m < k && built_at(*surface, x + dxs@[m], y + dys@[m]),
        decreases 4 - k,
    {
        let nx = x as i32 + dxs[k];
        let ny = y as i32 + dys[k];
        if nx >= 0 && ny >= 0 {
            match surface.get(nx as usize, ny as usize) {
                Some(neighbor) => {
                    if neighbor.building.is_some() {
                        adjacent = true;
                    }
                },
                None => {},
            }
        }
        proof {
            assert(nx == x + dxs@[k as int] && ny == y + dys@[k as int]);
        }
        k = k + 1;
    }
    proof {
        if next_to_building(*surface, x as int, y as int) {
            if built_at(*surface, x as int, y + 1) {
                assert(built_at(*surface, x + dxs@[0], y + dys@[0]));
            } else if built_at(*surface, x as int, y - 1) {
                assert(built_at(*surface, x + dxs@[1], y + dys@[1]));
            } else if built_at(*surface, x + 1, y as int) {
                assert(built_at(*surface, x + dxs@[2], y + dys@[2]));
            } else {
                assert(built_at(*surface, x + dxs@[3], y + dys@[3]));
            }
        }
    }
    adjacent
}

} // verus!
