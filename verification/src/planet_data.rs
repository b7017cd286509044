//! Planet surface grid: tile colors, building kinds and the surface itself.

use vstd::prelude::*;

verus! {

/// Terrain color of a surface tile.
#[derive(Clone, Copy, Debug, PartialEq, Eq, Structural)]
pub enum TileColor {
    /// Hostile terrain: only passages and terraformers go here.
    Black,
    /// Marginal terrain: ordinary buildings go here.
    White,
    /// Mineral terrain.
    Red,
    /// Fertile terrain.
    Green,
    /// Special terrain.
    Blue,
}

/// Kinds of surface buildings.
#[derive(Clone, Copy, Debug, PartialEq, Eq, Structural)]
pub enum BuildingType {
    Base,
    Farm,
    Habitat,
    Factory,
    Laboratory,
    Passage,
    Terraformer,
}

/// Identifier of the surface-building definition that gives each kind of
/// building its look.
pub open spec fn building_definition_id(b: BuildingType) -> Seq<char> {
    match b {
        BuildingType::Base => "building_base"@,
        BuildingType::Farm => "building_farm_1"@,
        BuildingType::Habitat => "building_habitat_1"@,
        BuildingType::Factory => "building_factory_1"@,
        BuildingType::Laboratory => "building_laboratory_1"@,
        BuildingType::Passage => "building_passage"@,
        BuildingType::Terraformer => "building_terraformer"@,
    }
}

impl BuildingType {
    /// Identifier of this building's surface-building definition.
    pub fn definition_id(&self) -> (r: &'static str)
        ensures
            r@ == building_definition_id(*self),
    {
        match self {
            BuildingType::Base => "building_base",
            BuildingType::Farm => "building_farm_1",
            BuildingType::Habitat => "building_habitat_1",
            BuildingType::Factory => "building_factory_1",
            BuildingType::Laboratory => "building_laboratory_1",
            BuildingType::Passage => "building_passage",
            BuildingType::Terraformer => "building_terraformer",
        }
    }
}

/// One tile of a planet surface.
#[derive(Clone, Copy, Debug, PartialEq, Eq, Structural)]
pub struct SurfaceTile {
    pub color: TileColor,
    pub building: Option<BuildingType>,
    /// Whether the tile is powered by the colony's building grid.
    pub connected: bool,
}

/// A rectangular grid of tiles stored row by row.
#[derive(Clone, Debug)]
pub struct PlanetSurface {
    /// Number of tiles in one row.
    pub row_width: usize,
    /// Tiles in row-major order.
    pub tiles: Vec<SurfaceTile>,
}

impl PlanetSurface {
    /// A well-formed surface has a positive row width and whole rows only.
    pub open spec fn wf(&self) -> bool {
        &&& self.row_width > 0
        &&& (self.tiles.len() as int) % (self.row_width as int) == 0
    }

    /// Number of rows of the surface.
    pub open spec fn spec_height(&self) -> int {
        (self.tiles.len() as int) / (self.row_width as int)
    }

    /// Row-major index of column `x` in row `y`, when it lies on the surface.
    pub open spec fn spec_index(&self, x: int, y: int) -> Option<int> {
        if 0 <= x < self.row_width && 0 <= y < self.spec_height() {
            Some(y * self.row_width + x)
        } else {
            None
        }
    }

    /// A surface of `width` by `height` black, empty, unpowered tiles.
    pub fn new(width: usize, height: usize) -> (s: Self)
        requires
            width > 0,
            width * height <= usize::MAX,
        ensures
            s.wf(),
            s.row_width == width,
            s.tiles.len() == width * height,
            forall|i: int|
                0 <= i < s.tiles.len() ==> s.tiles[i] == (SurfaceTile {
                    color: TileColor::Black,
                    building: None,
                    connected: false,
                }),
    {
        let total = width * height;
        let mut tiles: Vec<SurfaceTile> = Vec::new();
        let mut i: usize = 0;
        while i < total
            invariant
                i <= total,
                tiles.len() == i,
                forall|k: int|
                    0 <= k < i ==> tiles[k] == (SurfaceTile {
                        color: TileColor::Black,
                        building: None,
                        connected: false,
                    }),
            decreases total - i,
        {
            tiles.push(SurfaceTile { color: TileColor::Black, building: None, connected: false });
            i = i + 1;
        }
        proof {
            vstd::arithmetic::div_mod::lemma_mod_multiples_basic(height as int, width as int);
            vstd::arithmetic::mul::lemma_mul_is_commutative(width as int, height as int);
        }
        PlanetSurface { row_width: width, tiles }
    }

    /// Number of rows of the surface.
    pub fn height(&self) -> (h: usize)
        requires
            self.row_width > 0,
        ensures
            h == self.spec_height(),
    {
        self.tiles.len() / self.row_width
    }

    /// Row-major index of the tile at column `x` in row `y`, if it lies on the surface.
    pub fn index_of(&self, x: usize, y: usize) -> (r: Option<usize>)
        requires
            self.wf(),
        ensures
            r matches Some(i) ==> self.spec_index(x as int, y as int) == Some(i as int) && i
                < self.tiles.len(),
            r is None ==> self.spec_index(x as int, y as int) is None,
    {
        let height = self.tiles.len() / self.row_width;
        if x >= self.row_width || y >= height {
            return None;
        }
        proof {
            crate::grid::lemma_cell_in_grid(
                self.row_width as int,
                height as int,
                x as int,
                y as int,
            );
            crate::grid::lemma_whole_rows(self.tiles.len() as int, self.row_width as int);
        }
        Some(y * self.row_width + x)
    }

    /// The tile at column `x` in row `y`, if it lies on the surface.
    pub fn get(&self, x: usize, y: usize) -> (r: Option<&SurfaceTile>)
        requires
            self.wf(),
        ensures
            match self.spec_index(x as int, y as int) {
                Some(i) => r == Some(&self.tiles[i]),
                None => r is None,
            },
    {
        match self.index_of(x, y) {
            Some(i) => Some(&self.tiles[i]),
            None => None,
        }
    }
}

} // verus!
