//! Power-grid connectivity of a planet surface.
//!
//! A tile is powered when it is part of the building grid grown from the
//! colony base (a chain of orthogonally adjacent buildings that count for
//! adjacency, starting at the base), or when it lies orthogonally next to
//! such a grid node.

use vstd::prelude::*;
use crate::data::{GameData, GameRegistry, HasId, SurfaceBuilding, is_first_with_id};
use crate::planet_data::{BuildingType, PlanetSurface, SurfaceTile, building_definition_id};
use crate::grid::lemma_index_coords;

verus! {

/// Number of whole rows of width `w` in `tiles`.
pub open spec fn rows(tiles: Seq<SurfaceTile>, w: int) -> int {
    tiles.len() as int / w
}

/// `j` is an orthogonal neighbour of `i` in a `w` by `h` grid.
pub open spec fn grid_adjacent(w: int, h: int, i: int, j: int) -> bool {
    &&& 0 <= i < w * h
    &&& {
        ||| (i % w > 0 && j == i - 1)
        ||| (i % w < w - 1 && j == i + 1)
        ||| (i / w > 0 && j == i - w)
        ||| (i / w < h - 1 && j == i + w)
    }
}

/// Whether buildings of kind `b` extend the power grid: the base always
/// does, any other building when its definition (the first one with the
/// building's definition identifier) says it counts for adjacency.
pub open spec fn counts_for_grid(defs: Seq<SurfaceBuilding>, b: BuildingType) -> bool {
    ||| b == BuildingType::Base
    ||| exists|k: int|
        #[trigger] is_first_with_id(defs, building_definition_id(b), k) && defs[k].counts_for_adjacency
}

/// Tile `i` carries a building that extends the power grid.
pub open spec fn extends_grid(defs: Seq<SurfaceBuilding>, tiles: Seq<SurfaceTile>, i: int) -> bool {
    tiles[i].building matches Some(b) && counts_for_grid(defs, b)
}

/// Tile `i` carries the colony base.
pub open spec fn is_base(tiles: Seq<SurfaceTile>, i: int) -> bool {
    tiles[i].building == Some(BuildingType::Base)
}

/// Some tile carries the colony base.
pub open spec fn has_base(tiles: Seq<SurfaceTile>) -> bool {
    exists|b: int| 0 <= b < tiles.len() && #[trigger] is_base(tiles, b)
}

/// `b` is the first tile (in row-major order) that carries the colony base.
pub open spec fn first_base(tiles: Seq<SurfaceTile>, b: int) -> bool {
    &&& 0 <= b < tiles.len()
    &&& is_base(tiles, b)
    &&& forall|k: int| 0 <= k < b ==> !#[trigger] is_base(tiles, k)
}

/// `p` is a walk from `b` through orthogonally adjacent built tiles.
pub open spec fn grid_path(defs: Seq<SurfaceBuilding>, tiles: Seq<SurfaceTile>, w: int, b: int, p: Seq<int>) -> bool {
    let h = rows(tiles, w);
    &&& p.len() > 0
    &&& p[0] == b
    &&& forall|k: int|
        0 < k < p.len() ==> grid_adjacent(w, h, #[trigger] p[k - 1], p[k]) && extends_grid(defs, 
            tiles,
            p[k],
        )
}

/// Tile `i` belongs to the building grid grown from `b`.
pub open spec fn grid_node(defs: Seq<SurfaceBuilding>, tiles: Seq<SurfaceTile>, w: int, b: int, i: int) -> bool {
    exists|p: Seq<int>| #[trigger] grid_path(defs, tiles, w, b, p) && p.last() == i
}

/// Tile `i` is powered by the grid grown from `b`: it is a grid node or
/// an orthogonal neighbour of one.
pub open spec fn powered(defs: Seq<SurfaceBuilding>, tiles: Seq<SurfaceTile>, w: int, b: int, i: int) -> bool {
    exists|g: int|
        #[trigger] grid_node(defs, tiles, w, b, g) && (g == i || grid_adjacent(
            w,
            rows(tiles, w),
            g,
            i,
        ))
}

/// `g` is `j` or one of its orthogonal neighbours.
pub open spec fn near(w: int, h: int, g: int, j: int) -> bool {
    g == j || grid_adjacent(w, h, g, j)
}

/// Some marked tile below `k` is `j` or an orthogonal neighbour of `j`.
pub open spec fn covered(marked: Seq<bool>, w: int, h: int, k: int, j: int) -> bool {
    exists|g: int| 0 <= g < k && #[trigger] marked[g] && near(w, h, g, j)
}

/// What recomputing the power grid of `before` gives: colors and buildings
/// are kept, and a tile is connected exactly when it is powered by the grid
/// grown from the first base (never, without a base).
pub open spec fn connectivity_updated(defs: Seq<SurfaceBuilding>, before: PlanetSurface, after: PlanetSurface) -> bool {
    let t0 = before.tiles@;
    let t1 = after.tiles@;
    &&& after.row_width == before.row_width
    &&& t1.len() == t0.len()
    &&& forall|i: int|
        0 <= i < t0.len() ==> (#[trigger] t1[i]).color == t0[i].color && t1[i].building
            == t0[i].building
    &&& !has_base(t0) ==> forall|i: int| 0 <= i < t1.len() ==> !(#[trigger] t1[i]).connected
    &&& forall|b: int, i: int|
        #![trigger first_base(t0, b), t1[i]]
        first_base(t0, b) && 0 <= i < t0.len() ==> t1[i].connected == powered(defs, 
            t0,
            before.row_width as int,
            b,
            i,
        )
}

/// The base and its orthogonal neighbours are always powered.
pub proof fn lemma_base_surroundings_powered(defs: Seq<SurfaceBuilding>, tiles: Seq<SurfaceTile>, w: int, b: int, i: int)
    requires
        first_base(tiles, b),
        i == b || grid_adjacent(w, rows(tiles, w), b, i),
    ensures
        powered(defs, tiles, w, b, i),
{
    let p = seq![b];
    assert(grid_path(defs, tiles, w, b, p));
    assert(grid_node(defs, tiles, w, b, b));
}

/// Paths of the building grid only look at which tiles carry buildings.
proof fn lemma_paths_follow_buildings(defs: Seq<SurfaceBuilding>, 
    t1: Seq<SurfaceTile>,
    t2: Seq<SurfaceTile>,
    w: int,
    b: int,
    p: Seq<int>,
)
    requires
        w > 0,
        t1.len() == t2.len(),
        w * rows(t1, w) <= t1.len(),
        forall|k: int| 0 <= k < t1.len() ==> (#[trigger] t1[k]).building == t2[k].building,
        grid_path(defs, t1, w, b, p),
    ensures
        grid_path(defs, t2, w, b, p),
{
    assert forall|k: int| 0 < k < p.len() implies grid_adjacent(w, rows(t2, w), #[trigger] p[k - 1], p[k])
        && extends_grid(defs, t2, p[k]) by {
        assert(grid_adjacent(w, rows(t1, w), p[k - 1], p[k]));
        lemma_index_coords(w, rows(t1, w), p[k - 1]);
        assert(t1[p[k]].building == t2[p[k]].building);
    }
}

/// Which tiles are powered depends only on which tiles carry which buildings.
pub proof fn lemma_power_depends_on_buildings(defs: Seq<SurfaceBuilding>, t1: Seq<SurfaceTile>, t2: Seq<SurfaceTile>, w: int)
    requires
        w > 0,
        t1.len() == t2.len(),
        forall|k: int| 0 <= k < t1.len() ==> (#[trigger] t1[k]).building == t2[k].building,
    ensures
        forall|b: int, i: int| powered(defs, t1, w, b, i) == powered(defs, t2, w, b, i),
        forall|b: int| first_base(t1, b) == first_base(t2, b),
        has_base(t1) == has_base(t2),
{
    crate::grid::lemma_rows_fit(t1.len() as int, w);
    assert forall|k: int| 0 <= k < t2.len() implies (#[trigger] t2[k]).building == t1[k].building by {
        assert(t1[k].building == t2[k].building);
    }
    assert forall|b: int, g: int| grid_node(defs, t1, w, b, g) == grid_node(defs, t2, w, b, g) by {
        if grid_node(defs, t1, w, b, g) {
            let p = choose|p: Seq<int>| #[trigger] grid_path(defs, t1, w, b, p) && p.last() == g;
            lemma_paths_follow_buildings(defs, t1, t2, w, b, p);
        }
        if grid_node(defs, t2, w, b, g) {
            let p = choose|p: Seq<int>| #[trigger] grid_path(defs, t2, w, b, p) && p.last() == g;
            lemma_paths_follow_buildings(defs, t2, t1, w, b, p);
        }
    }
    assert forall|b: int, i: int| powered(defs, t1, w, b, i) == powered(defs, t2, w, b, i) by {
        if powered(defs, t1, w, b, i) {
            let g = choose|g: int| #[trigger] grid_node(defs, t1, w, b, g) && (g == i || grid_adjacent(w, rows(t1, w), g, i));
            assert(grid_node(defs, t2, w, b, g));
        }
        if powered(defs, t2, w, b, i) {
            let g = choose|g: int| #[trigger] grid_node(defs, t2, w, b, g) && (g == i || grid_adjacent(w, rows(t2, w), g, i));
            assert(grid_node(defs, t1, w, b, g));
        }
    }
    assert forall|b: int| first_base(t1, b) == first_base(t2, b) by {
        if 0 <= b < t1.len() {
            assert(t1[b].building == t2[b].building);
            if first_base(t1, b) {
                assert forall|k: int| 0 <= k < b implies !#[trigger] is_base(t2, k) by {
                    assert(t1[k].building == t2[k].building);
                    assert(!is_base(t1, k));
                }
            }
            if first_base(t2, b) {
                assert forall|k: int| 0 <= k < b implies !#[trigger] is_base(t1, k) by {
                    assert(t1[k].building == t2[k].building);
                    assert(!is_base(t2, k));
                }
            }
        }
    }
    if has_base(t1) {
        let b = choose|b: int| 0 <= b < t1.len() && #[trigger] is_base(t1, b);
        assert(t1[b].building == t2[b].building);
        assert(is_base(t2, b));
    }
    if has_base(t2) {
        let b = choose|b: int| 0 <= b < t2.len() && #[trigger] is_base(t2, b);
        assert(t1[b].building == t2[b].building);
        assert(is_base(t1, b));
    }
}

/// Recomputing the power grid a second time changes nothing.
pub proof fn lemma_connectivity_idempotent(defs: Seq<SurfaceBuilding>, s1: PlanetSurface, s2: PlanetSurface, s3: PlanetSurface)
    requires
        s1.row_width > 0,
        connectivity_updated(defs, s1, s2),
        connectivity_updated(defs, s2, s3),
    ensures
        s3.row_width == s2.row_width,
        s3.tiles@ == s2.tiles@,
{
    let w = s1.row_width as int;
    let t1 = s1.tiles@;
    let t2 = s2.tiles@;
    let t3 = s3.tiles@;
    lemma_power_depends_on_buildings(defs, t1, t2, w);
    assert forall|i: int| 0 <= i < t3.len() implies t3[i] == t2[i] by {
        assert(t3[i].color == t2[i].color && t3[i].building == t2[i].building);
        if has_base(t1) {
            lemma_first_base_exists(t1);
            let b = choose|b: int| first_base(t1, b);
            assert(first_base(t2, b));
            assert(t2[i].connected == powered(defs, t1, w, b, i));
            assert(t3[i].connected == powered(defs, t2, w, b, i));
        } else {
            assert(!t2[i].connected);
            assert(!t3[i].connected);
        }
    }
    assert(t3 =~= t2);
}

/// A surface with a base has a first base.
pub proof fn lemma_first_base_exists(tiles: Seq<SurfaceTile>)
    requires
        has_base(tiles),
    ensures
        exists|b: int| first_base(tiles, b),
{
    let b = choose|b: int| 0 <= b < tiles.len() && #[trigger] is_base(tiles, b);
    lemma_first_base_below(tiles, b);
}

proof fn lemma_first_base_below(tiles: Seq<SurfaceTile>, b: int)
    requires
        0 <= b < tiles.len(),
        is_base(tiles, b),
    ensures
        exists|f: int| first_base(tiles, f),
    decreases b,
{
    if exists|k: int| 0 <= k < b && #[trigger] is_base(tiles, k) {
        let k = choose|k: int| 0 <= k < b && #[trigger] is_base(tiles, k);
        lemma_first_base_below(tiles, k);
    } else {
        assert(first_base(tiles, b));
    }
}

/// Extending the range of marked tiles by one tile.
proof fn lemma_covered_step(marked: Seq<bool>, w: int, h: int, g: int, j: int)
    requires
        0 <= g < marked.len(),
    ensures
        covered(marked, w, h, g + 1, j) == (covered(marked, w, h, g, j) || (marked[g] && near(
            w,
            h,
            g,
            j,
        ))),
{
    if covered(marked, w, h, g + 1, j) && !(marked[g] && near(w, h, g, j)) {
        let gg = choose|gg: int| 0 <= gg < g + 1 && #[trigger] marked[gg] && near(w, h, gg, j);
        assert(gg < g);
    }
    if covered(marked, w, h, g, j) {
        let gg = choose|gg: int| 0 <= gg < g && #[trigger] marked[gg] && near(w, h, gg, j);
        assert(0 <= gg < g + 1);
    }
}

/// A sequence of distinct indices below `n` has at most `n` entries.
proof fn lemma_distinct_bounded(s: Seq<usize>, n: usize)
    requires
        s.no_duplicates(),
        forall|i: int| 0 <= i < s.len() ==> #[trigger] s[i] < n,
    ensures
        s.len() <= n,
{
    s.unique_seq_to_set();
    <usize as vstd::set_lib::FiniteRange>::range_properties(0, n);
    let range = Set::new(|i: usize| 0 <= i < n);
    assert(s.to_set().subset_of(range)) by {
        assert forall|x: usize| s.to_set().contains(x) implies range.contains(x) by {
            let k = choose|k: int| 0 <= k < s.len() && s[k] == x;
            assert(s[k] < n);
        }
    }
    vstd::set_lib::lemma_len_subset(s.to_set(), range);
}

/// Every tile reached by a grid path lies in a marked set that contains the
/// start and is closed under stepping to adjacent built tiles.
proof fn lemma_closed_contains_paths(defs: Seq<SurfaceBuilding>, 
    tiles: Seq<SurfaceTile>,
    w: int,
    b: int,
    marked: Seq<bool>,
    p: Seq<int>,
)
    requires
        w > 0,
        w * rows(tiles, w) <= tiles.len(),
        marked.len() == w * rows(tiles, w),
        0 <= b < marked.len(),
        marked[b],
        forall|i: int, j: int|
            0 <= i < marked.len() && #[trigger] marked[i] && grid_adjacent(
                w,
                rows(tiles, w),
                i,
                j,
            ) && extends_grid(defs, tiles, j) ==> #[trigger] marked[j],
        grid_path(defs, tiles, w, b, p),
    ensures
        0 <= p.last() < marked.len(),
        marked[p.last()],
    decreases p.len(),
{
    if p.len() > 1 {
        let q = p.drop_last();
        assert(grid_path(defs, tiles, w, b, q)) by {
            assert forall|k: int| 0 < k < q.len() implies grid_adjacent(
                w,
                rows(tiles, w),
                #[trigger] q[k - 1],
                q[k],
            ) && extends_grid(defs, tiles, q[k]) by {
                assert(q[k - 1] == p[k - 1]);
                assert(q[k] == p[k]);
            }
        }
        lemma_closed_contains_paths(defs, tiles, w, b, marked, q);
        let k = p.len() - 1;
        assert(grid_adjacent(w, rows(tiles, w), p[k - 1], p[k]));
        assert(q.last() == p[k - 1]);
        lemma_index_coords(w, rows(tiles, w), p[k - 1]);
        assert(0 <= p[k] < tiles.len());
        assert(marked[p[k - 1]]);
        assert(extends_grid(defs, tiles, p[k]));
        assert(marked[p[k]]);
    } else {
        assert(p.last() == p[0]);
    }
}

/// Indices of the orthogonal neighbours of tile `idx`.
fn orthogonal_neighbors(idx: usize, width: usize, height: usize) -> (r: Vec<usize>)
    requires
        width > 0,
        idx < width * height,
        width * height <= usize::MAX,
    ensures
        forall|k: int|
            0 <= k < r.len() ==> grid_adjacent(width as int, height as int, idx as int, #[trigger] r[k] as int)
                && r[k] < width * height,
        forall|j: int|
            grid_adjacent(width as int, height as int, idx as int, j) ==> exists|k: int|
                0 <= k < r.len() && #[trigger] r[k] == j,
{
    proof {
        lemma_index_coords(width as int, height as int, idx as int);
    }
    let x = idx % width;
    let y = idx / width;
    let mut neighbors: Vec<usize> = Vec::new();
    if x > 0 {
        neighbors.push(idx - 1);
    }
    let ghost n1 = neighbors@;
    if x < width - 1 {
        neighbors.push(idx + 1);
    }
    let ghost n2 = neighbors@;
    if y > 0 {
        neighbors.push(idx - width);
    }
    let ghost n3 = neighbors@;
    if y < height - 1 {
        neighbors.push(idx + width);
    }
    proof {
        let w = width as int;
        let h = height as int;
        let i = idx as int;
        assert forall|j: int| grid_adjacent(w, h, i, j) implies exists|k: int|
            0 <= k < neighbors.len() && #[trigger] neighbors[k] == j by {
            if x > 0 && j == i - 1 {
                assert(neighbors[0] == j);
            } else if x < width - 1 && j == i + 1 {
                assert(neighbors[n1.len() as int] == j);
            } else if y > 0 && j == i - w {
                assert(neighbors[n2.len() as int] == j);
            } else {
                assert(neighbors[n3.len() as int] == j);
            }
        }
    }
    neighbors
}

/// Whether `tile` carries a building that extends the power grid, going by
/// the building definitions of `data`.
fn tile_extends_grid(tile: &SurfaceTile, data: &GameData, registry: &GameRegistry) -> (r: bool)
    ensures
        r == (tile.building matches Some(b) && counts_for_grid(data.surface_buildings@, b)),
{
    match tile.building {
        None => false,
        Some(BuildingType::Base) => true,
        Some(b) => {
            let found = registry.surface_building(data, b.definition_id());
            proof {
                crate::data::lemma_lookup_some_iff(data.surface_buildings@, building_definition_id(b));
                if let Some(d) = found {
                    let k = choose|k: int| is_first_with_id(data.surface_buildings@, building_definition_id(b), k)
                        && *d == data.surface_buildings@[k];
                    crate::data::lemma_first_with_id_unique(data.surface_buildings@, building_definition_id(b), k);
                } else {
                    if counts_for_grid(data.surface_buildings@, b) {
                        let k = choose|k: int| #[trigger] is_first_with_id(data.surface_buildings@, building_definition_id(b), k)
                            && data.surface_buildings@[k].counts_for_adjacency;
                        assert(data.surface_buildings@[k].spec_id() == building_definition_id(b));
                    }
                }
            }
            match found {
                Some(d) => d.counts_for_adjacency,
                None => false,
            }
        },
    }
}

/// Sets the `connected` flag of tile `j`, leaving everything else as it was.
fn mark_connected(tiles: &mut Vec<SurfaceTile>, j: usize)
    requires
        j < old(tiles).len(),
    ensures
        final(tiles).len() == old(tiles).len(),
        final(tiles)[j as int].connected,
        final(tiles)[j as int].color == old(tiles)[j as int].color,
        final(tiles)[j as int].building == old(tiles)[j as int].building,
        forall|k: int| 0 <= k < old(tiles).len() && k != j ==> #[trigger] final(tiles)[k] == old(tiles)[k],
{
    let mut t = tiles[j];
    t.connected = true;
    tiles.set(j, t);
}

/// Marks every tile powered by the colony's building grid.
///
/// The grid starts at the first tile carrying the base and grows through
/// orthogonally adjacent tiles whose building counts for adjacency in the
/// building definitions of `game_data`. A tile ends up `connected` exactly
/// when it is a grid node or orthogonally next to one; the grid covers the
/// whole rows of the surface. Without a base no tile is connected. Colors and
/// buildings are untouched.
pub fn update_connectivity(
    surface: &mut PlanetSurface,
    game_data: &GameData,
    registry: &GameRegistry,
)
    requires
        old(surface).row_width > 0,
        forall|b: int|
            #[trigger] first_base(old(surface).tiles@, b) ==> b < old(surface).row_width * rows(
                old(surface).tiles@,
                old(surface).row_width as int,
            ),
    ensures
        final(surface).row_width == old(surface).row_width,
        final(surface).tiles.len() == old(surface).tiles.len(),
        forall|i: int|
            0 <= i < old(surface).tiles.len() ==> (#[trigger] final(surface).tiles[i]).color
                == old(surface).tiles[i].color && final(surface).tiles[i].building == old(surface).tiles[i].building,
        !has_base(old(surface).tiles@) ==> forall|i: int|
            0 <= i < final(surface).tiles.len() ==> !(#[trigger] final(surface).tiles[i]).connected,
        forall|b: int, i: int|
            #![trigger first_base(old(surface).tiles@, b), final(surface).tiles[i]]
            first_base(old(surface).tiles@, b) && 0 <= i < old(surface).tiles.len() ==> (
            final(surface).tiles[i]).connected == powered(game_data.surface_buildings@, 
                old(surface).tiles@,
                old(surface).row_width as int,
                b,
                i,
            ),
        connectivity_updated(game_data.surface_buildings@, *old(surface), *final(surface)),
{
    let ghost defs = game_data.surface_buildings@;
    let ghost tiles0 = surface.tiles@;
    let width = surface.row_width;
    let n = surface.tiles.len();
    let height = n / width;
    let ghost w = width as int;
    let ghost h = height as int;
    proof {
        crate::grid::lemma_rows_fit(n as int, w);
    }

    // Step 1: reset all tiles to disconnected.
    let mut i: usize = 0;
    while i < n
        invariant
            i <= n,
            n == surface.tiles.len(),
            surface.row_width == width,
            forall|k: int|
                0 <= k < n ==> (#[trigger] surface.tiles[k]).color == tiles0[k].color
                    && surface.tiles[k].building == tiles0[k].building,
            forall|k: int| 0 <= k < i ==> !(#[trigger] surface.tiles[k]).connected,
        decreases n - i,
    {
        let mut t = surface.tiles[i];
        t.connected = false;
        surface.tiles.set(i, t);
        i = i + 1;
    }

    // Step 2: find the base building.
    let mut base_index: Option<usize> = None;
    let mut i: usize = 0;
    while i < n && base_index.is_none()
        invariant
            i <= n,
            n == surface.tiles.len(),
            n == tiles0.len(),
            forall|k: int|
                0 <= k < n ==> (#[trigger] surface.tiles[k]).color == tiles0[k].color
                    && surface.tiles[k].building == tiles0[k].building,
            base_index matches Some(b) ==> first_base(tiles0, b as int),
            base_index is None ==> forall|k: int| 0 <= k < i ==> !#[trigger] is_base(tiles0, k),
        decreases n - i,
    {
        if let Some(BuildingType::Base) = surface.tiles[i].building {
            proof {
                assert(surface.tiles[i as int].building == tiles0[i as int].building);
                assert(is_base(tiles0, i as int));
                assert(first_base(tiles0, i as int));
            }
            base_index = Some(i);
        }
        i = i + 1;
    }
    let start_node = match base_index {
        Some(b) => b,
        None => {
            return ;
        },
    };

    // Step 3: breadth-first search for the grid nodes of the whole rows.
    let cells = width * height;
    proof {
        assert(first_base(tiles0, start_node as int));
        assert(start_node < cells);
    }
    let mut visited: Vec<bool> = Vec::new();
    let mut i: usize = 0;
    while i < cells
        invariant
            i <= cells,
            visited.len() == i,
            forall|k: int| 0 <= k < i ==> !(#[trigger] visited[k]),
        decreases cells - i,
    {
        visited.push(false);
        i = i + 1;
    }
    visited.set(start_node, true);
    let mut queue: Vec<usize> = Vec::new();
    queue.push(start_node);
    let mut head: usize = 0;
    proof {
        let p = seq![start_node as int];
        assert(grid_path(defs, tiles0, w, start_node as int, p));
        assert(grid_node(defs, tiles0, w, start_node as int, start_node as int));
        assert forall|j: int| 0 <= j < cells implies (#[trigger] visited[j] <==> queue@.contains(j as usize)) by {
            if j == start_node {
                assert(queue[0] == start_node);
            }
            if queue@.contains(j as usize) {
                assert(queue[0] == j as usize);
            }
        }
    }

    while head < queue.len()
        invariant
            defs == game_data.surface_buildings@,
            n == surface.tiles.len(),
            cells <= n,
            n == tiles0.len(),
            surface.row_width == width,
            w == width,
            h == height,
            cells == w * h,
            width > 0,
            first_base(tiles0, start_node as int),
            h == rows(tiles0, w),
            forall|k: int|
                0 <= k < n ==> (#[trigger] surface.tiles[k]).color == tiles0[k].color
                    && surface.tiles[k].building == tiles0[k].building,
            forall|k: int| 0 <= k < n ==> !(#[trigger] surface.tiles[k]).connected,
            visited.len() == cells,
            start_node < cells,
            visited[start_node as int],
            head <= queue.len(),
            queue@.no_duplicates(),
            forall|q: int| 0 <= q < queue.len() ==> #[trigger] queue[q] < cells,
            forall|j: int| 0 <= j < cells ==> (#[trigger] visited[j] <==> queue@.contains(j as usize)),
            forall|j: int| 0 <= j < cells && #[trigger] visited[j] ==> grid_node(defs, tiles0, w, start_node as int, j),
            forall|q: int, j: int|
                0 <= q < head && grid_adjacent(w, h, #[trigger] queue[q] as int, j) && extends_grid(defs, 
                    tiles0,
                    j,
                ) ==> #[trigger] visited[j],
        decreases cells - head,
    {
        proof {
            lemma_distinct_bounded(queue@, cells);
        }
        let idx = queue[head];
        proof {
            assert(queue@.contains(idx));
            assert(visited[idx as int]);
        }
        head = head + 1;
        let neighbors = orthogonal_neighbors(idx, width, height);
        let ghost visited_before = visited@;
        let ghost queue_before = queue@;
        let mut k: usize = 0;
        while k < neighbors.len()
            invariant
                n == surface.tiles.len(),
            cells <= n,
                n == tiles0.len(),
                defs == game_data.surface_buildings@,
                w == width,
                h == height,
                cells == w * h,
                width > 0,
                idx < cells,
                head >= 1,
                queue_before[head - 1] == idx,
                h == rows(tiles0, w),
                k <= neighbors.len(),
                forall|m: int|
                    0 <= m < neighbors.len() ==> grid_adjacent(w, h, idx as int, #[trigger] neighbors[m] as int)
                        && neighbors[m] < cells,
                forall|j: int| 0 <= j < cells && visited_before[j] ==> #[trigger] visited[j],
                forall|q: int, j: int|
                    0 <= q < head - 1 && grid_adjacent(w, h, #[trigger] queue_before[q] as int, j)
                        && extends_grid(defs, tiles0, j) ==> #[trigger] visited_before[j],
                queue_before.len() <= queue.len(),
                forall|q: int| 0 <= q < queue_before.len() ==> #[trigger] queue[q] == queue_before[q],
                head <= queue_before.len(),
                forall|kk: int|
                    0 <= kk < n ==> (#[trigger] surface.tiles[kk]).building == tiles0[kk].building,
                visited.len() == cells,
                queue@.no_duplicates(),
                forall|q: int| 0 <= q < queue.len() ==> #[trigger] queue[q] < cells,
                forall|j: int| 0 <= j < cells ==> (#[trigger] visited[j] <==> queue@.contains(j as usize)),
                forall|j: int| 0 <= j < cells && #[trigger] visited[j] ==> grid_node(defs, tiles0, w, start_node as int, j),
                grid_node(defs, tiles0, w, start_node as int, idx as int),
                forall|m: int| 0 <= m < k && extends_grid(defs, tiles0, #[trigger] neighbors[m] as int) ==> visited[neighbors[m] as int],
            decreases neighbors.len() - k,
        {
            let n_idx = neighbors[k];
            if !visited[n_idx] && tile_extends_grid(&surface.tiles[n_idx], game_data, registry) {
                proof {
                    let p = choose|p: Seq<int>| #[trigger] grid_path(defs, tiles0, w, start_node as int, p) && p.last() == idx as int;
                    let p2 = p.push(n_idx as int);
                    assert(grid_path(defs, tiles0, w, start_node as int, p2)) by {
                        assert forall|m: int| 0 < m < p2.len() implies grid_adjacent(
                            w,
                            rows(tiles0, w),
                            #[trigger] p2[m - 1],
                            p2[m],
                        ) && extends_grid(defs, tiles0, p2[m]) by {
                            if m < p.len() {
                                assert(p2[m - 1] == p[m - 1]);
                                assert(p2[m] == p[m]);
                            } else {
                                assert(p2[m - 1] == idx);
                                assert(p2[m] == n_idx);
                                assert(neighbors[k as int] == n_idx);
                                assert(grid_adjacent(w, h, idx as int, n_idx as int));
                                assert(surface.tiles[n_idx as int].building == tiles0[n_idx as int].building);
                                assert(extends_grid(defs, tiles0, n_idx as int));
                            }
                        }
                    }
                    assert(p2.last() == n_idx);
                    assert(!queue@.contains(n_idx));
                }
                let ghost vq = queue@;
                let ghost vv = visited@;
                visited.set(n_idx, true);
                queue.push(n_idx);
                proof {
                    assert forall|j: int| 0 <= j < cells implies (#[trigger] visited[j] <==> queue@.contains(j as usize)) by {
                        if j == n_idx {
                            assert(queue[queue.len() - 1] == n_idx);
                        } else {
                            assert(visited[j] == vv[j]);
                            if vq.contains(j as usize) {
                                let q = choose|q: int| 0 <= q < vq.len() && vq[q] == j as usize;
                                assert(queue[q] == j as usize);
                            }
                            if queue@.contains(j as usize) {
                                let q = choose|q: int| 0 <= q < queue.len() && queue[q] == j as usize;
                                assert(q < vq.len());
                                assert(vq[q] == j as usize);
                            }
                        }
                    }
                    assert(queue@.no_duplicates()) by {
                        assert forall|a: int, c: int| 0 <= a < queue.len() && 0 <= c < queue.len() && a != c implies queue[a] != queue[c] by {
                            if a < vq.len() && c < vq.len() {
                                assert(vq[a] != vq[c]);
                            } else if a < vq.len() {
                                assert(vq.contains(vq[a]));
                            } else if c < vq.len() {
                                assert(vq.contains(vq[c]));
                            }
                        }
                    }
                }
            }
            k = k + 1;
        }
        proof {
            lemma_index_coords(w, h, idx as int);
            assert forall|q: int, j: int|
                0 <= q < head && grid_adjacent(w, h, #[trigger] queue[q] as int, j) && extends_grid(defs, 
                    tiles0,
                    j,
                ) implies #[trigger] visited[j] by {
                if q < head - 1 {
                    assert(queue[q] == queue_before[q]);
                    assert(grid_adjacent(w, h, queue_before[q] as int, j));
                    assert(0 <= q < head - 1);
                    assert(visited_before[j]);
                    lemma_index_coords(w, h, queue[q] as int);
                } else {
                    assert(queue[q] == idx);
                    let m = choose|m: int| 0 <= m < neighbors.len() && #[trigger] neighbors[m] == j;
                    assert(extends_grid(defs, tiles0, neighbors[m] as int));
                }
            }
        }
    }

    // Every grid node was visited.
    proof {
        assert forall|i: int, j: int|
            0 <= i < visited.len() && #[trigger] visited[i] && grid_adjacent(w, rows(tiles0, w), i, j)
                && extends_grid(defs, tiles0, j) implies #[trigger] visited[j] by {
            assert(queue@.contains(i as usize));
            let q = choose|q: int| 0 <= q < queue.len() && queue[q] == i as usize;
            assert(grid_adjacent(w, h, queue[q] as int, j));
        }
        assert forall|j: int| 0 <= j < cells implies (visited[j] <==> grid_node(defs, tiles0, w, start_node as int, j)) by {
            if grid_node(defs, tiles0, w, start_node as int, j) {
                let p = choose|p: Seq<int>| #[trigger] grid_path(defs, tiles0, w, start_node as int, p) && p.last() == j;
                lemma_closed_contains_paths(defs, tiles0, w, start_node as int, visited@, p);
            }
        }
    }

    // Step 4: mark the grid nodes and their orthogonal neighbours.
    let mut g: usize = 0;
    while g < cells
        invariant
            g <= cells,
            n == surface.tiles.len(),
            cells <= n,
            n == tiles0.len(),
            surface.row_width == width,
            w == width,
            h == height,
            cells == w * h,
            width > 0,
            visited.len() == cells,
            forall|k: int|
                0 <= k < n ==> (#[trigger] surface.tiles[k]).color == tiles0[k].color
                    && surface.tiles[k].building == tiles0[k].building,
            forall|j: int|
                0 <= j < n ==> (#[trigger] surface.tiles[j]).connected == covered(
                    visited@,
                    w,
                    h,
                    g as int,
                    j,
                ),
        decreases cells - g,
    {
        let ghost before = surface.tiles@;
        if visited[g] {
            mark_connected(&mut surface.tiles, g);
            let neighbors = orthogonal_neighbors(g, width, height);
            let mut k: usize = 0;
            while k < neighbors.len()
                invariant
                    n == surface.tiles.len(),
            cells <= n,
                    surface.row_width == width,
                    k <= neighbors.len(),
                    forall|m: int|
                        0 <= m < neighbors.len() ==> grid_adjacent(
                            w,
                            h,
                            g as int,
                            #[trigger] neighbors[m] as int,
                        ) && neighbors[m] < cells,
                    forall|j: int|
                        0 <= j < n ==> (#[trigger] surface.tiles[j]).color == before[j].color
                            && surface.tiles[j].building == before[j].building,
                    forall|j: int|
                        0 <= j < n ==> (#[trigger] surface.tiles[j]).connected == (
                        before[j].connected || j == g || exists|m: int|
                            0 <= m < k && #[trigger] neighbors[m] == j),
                decreases neighbors.len() - k,
            {
                let ghost mid = surface.tiles@;
                mark_connected(&mut surface.tiles, neighbors[k]);
                proof {
                    assert forall|j: int| 0 <= j < n implies (#[trigger] surface.tiles[j]).connected == (
                    before[j].connected || j == g || exists|m: int|
                        0 <= m < k + 1 && #[trigger] neighbors[m] == j) by {
                        if j == neighbors[k as int] {
                            assert(neighbors[k as int] == j);
                        } else {
                            assert(surface.tiles[j].connected == mid[j].connected);
                            if exists|m: int| 0 <= m < k + 1 && #[trigger] neighbors[m] == j {
                                let m = choose|m: int| 0 <= m < k + 1 && #[trigger] neighbors[m] == j;
                                assert(m < k);
                            }
                        }
                    }
                }
                k = k + 1;
            }
            proof {
                assert forall|j: int| 0 <= j < n implies (#[trigger] surface.tiles[j]).connected
                    == covered(visited@, w, h, g + 1, j) by {
                    lemma_covered_step(visited@, w, h, g as int, j);
                    if j != g && grid_adjacent(w, h, g as int, j) {
                        let m = choose|m: int| 0 <= m < neighbors.len() && #[trigger] neighbors[m] == j;
                    }
                    if exists|m: int| 0 <= m < neighbors.len() && #[trigger] neighbors[m] == j {
                        let m = choose|m: int| 0 <= m < neighbors.len() && #[trigger] neighbors[m] == j;
                        assert(grid_adjacent(w, h, g as int, j));
                    }
                }
            }
        } else {
            proof {
                assert forall|j: int| 0 <= j < n implies (#[trigger] surface.tiles[j]).connected
                    == covered(visited@, w, h, g + 1, j) by {
                    lemma_covered_step(visited@, w, h, g as int, j);
                }
            }
        }
        g = g + 1;
    }

    proof {
        let b = start_node as int;
        assert forall|bb: int, i: int|
            #![trigger first_base(tiles0, bb), surface.tiles[i]]
            first_base(tiles0, bb) && 0 <= i < n implies (surface.tiles[i]).connected == powered(defs, tiles0, w, bb, i) by {
            assert(bb == b) by {
                if bb < b {
                    assert(!is_base(tiles0, bb));
                } else if b < bb {
                    assert(!is_base(tiles0, b));
                }
            }
            if covered(visited@, w, h, cells as int, i) {
                let gg = choose|gg: int| 0 <= gg < cells && #[trigger] visited@[gg] && near(w, h, gg, i);
                assert(grid_node(defs, tiles0, w, b, gg));
            }
            if powered(defs, tiles0, w, b, i) {
                let gg = choose|gg: int| #[trigger] grid_node(defs, tiles0, w, b, gg) && (gg == i || grid_adjacent(w, rows(tiles0, w), gg, i));
                let p = choose|p: Seq<int>| #[trigger] grid_path(defs, tiles0, w, b, p) && p.last() == gg;
                lemma_closed_contains_paths(defs, tiles0, w, b, visited@, p);
                assert(visited@[gg] && near(w, h, gg, i));
            }
        }
    }
}

} // verus!
