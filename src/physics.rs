//! Terrain and occupancy queries.
//!
//! Terrain is what a cell is (tile plus hole state); occupancy is which
//! guards stand in it. Support combines the two.
use vstd::prelude::*;

use crate::entity::{ActorState, Guard, Hole};
use crate::tile::Tile;

verus! {

/// What the terrain at one cell looks like, entities excluded.
#[derive(Clone, Copy, PartialEq, Eq, Structural, Debug)]
pub struct TerrainCell {
    pub passable: bool,
    pub climbable: bool,
    pub hangable: bool,
    /// An active hole is at this cell.
    pub hole: bool,
}

/// `tiles` has `height` rows of `width` cells each.
pub open spec fn grid_wf<T>(tiles: Seq<Vec<T>>, width: int, height: int) -> bool {
    &&& tiles.len() == height
    &&& forall|y: int| 0 <= y < height ==> (#[trigger] tiles[y])@.len() == width
}

pub open spec fn in_bounds(width: int, height: int, x: int, y: int) -> bool {
    0 <= x < width && 0 <= y < height
}

pub open spec fn tile_of(tiles: Seq<Vec<Tile>>, x: int, y: int) -> Tile {
    tiles[y]@[x]
}

/// The hole grid marks (x, y); cells outside it are unmarked.
pub open spec fn hole_flag(hole_grid: Seq<Vec<bool>>, x: int, y: int) -> bool {
    0 <= y < hole_grid.len() && 0 <= x < hole_grid[y]@.len() && hole_grid[y]@[x]
}

pub open spec fn wall_cell() -> TerrainCell {
    TerrainCell { passable: false, climbable: false, hangable: false, hole: false }
}

pub open spec fn hole_cell() -> TerrainCell {
    TerrainCell { passable: true, climbable: false, hangable: false, hole: true }
}

pub open spec fn tile_cell(t: Tile) -> TerrainCell {
    TerrainCell { passable: t.is_passable(), climbable: t.is_climbable(), hangable: t.is_hangable(), hole: false }
}

/// Terrain at (x, y): a wall outside the map, an open cell where a hole is
/// active, else the tile's own properties.
pub open spec fn terrain_spec(tiles: Seq<Vec<Tile>>, width: int, height: int, hole_grid: Seq<Vec<bool>>, x: int, y: int) -> TerrainCell {
    if !in_bounds(width, height, x, y) {
        wall_cell()
    } else if hole_flag(hole_grid, x, y) {
        hole_cell()
    } else {
        tile_cell(tile_of(tiles, x, y))
    }
}

/// Support from terrain alone: bottom row, on a ladder or rope, or above a
/// solid or climbable cell.
pub open spec fn terrain_support_spec(tiles: Seq<Vec<Tile>>, width: int, height: int, hole_grid: Seq<Vec<bool>>, x: int, y: int) -> bool {
    let here = terrain_spec(tiles, width, height, hole_grid, x, y);
    let below = terrain_spec(tiles, width, height, hole_grid, x, y + 1);
    y + 1 >= height || here.climbable || here.hangable || !below.passable || below.climbable
}

pub open spec fn guard_at(g: Guard, x: int, y: int) -> bool {
    g.x == x && g.y == y
}

pub open spec fn is_trapped(g: Guard) -> bool {
    g.state == ActorState::InHole
}

/// Neither dead nor trapped.
pub open spec fn is_active_guard(g: Guard) -> bool {
    g.state != ActorState::Dead && g.state != ActorState::InHole
}

/// Neither dead nor falling: a floor for the player.
pub open spec fn is_standing(g: Guard) -> bool {
    g.state != ActorState::Dead && g.state != ActorState::Falling
}

pub open spec fn trapped_at(guards: Seq<Guard>, x: int, y: int, skip: int) -> bool {
    exists|j: int| 0 <= j < guards.len() && j != skip && guard_at(#[trigger] guards[j], x, y) && is_trapped(guards[j])
}

pub open spec fn active_at(guards: Seq<Guard>, x: int, y: int, skip: int) -> bool {
    exists|j: int| 0 <= j < guards.len() && j != skip && guard_at(#[trigger] guards[j], x, y) && is_active_guard(guards[j])
}

pub open spec fn standing_at(guards: Seq<Guard>, x: int, y: int) -> bool {
    exists|j: int| 0 <= j < guards.len() && guard_at(#[trigger] guards[j], x, y) && is_standing(guards[j])
}

/// Terrain support, or a trapped guard directly below other than `skip`
/// (pass -1 to exclude nobody).
pub open spec fn support_spec(tiles: Seq<Vec<Tile>>, width: int, height: int, hole_grid: Seq<Vec<bool>>, guards: Seq<Guard>, x: int, y: int, skip: int) -> bool {
    terrain_support_spec(tiles, width, height, hole_grid, x, y)
        || (y + 1 < height && trapped_at(guards, x, y + 1, skip))
}

/// Terrain support, or any standing guard directly below.
pub open spec fn player_support_spec(tiles: Seq<Vec<Tile>>, width: int, height: int, hole_grid: Seq<Vec<bool>>, guards: Seq<Guard>, x: int, y: int) -> bool {
    terrain_support_spec(tiles, width, height, hole_grid, x, y)
        || (y + 1 < height && standing_at(guards, x, y + 1))
}

/// State resolution by priority: sticky Dead/InHole, then ladder, rope,
/// support, and otherwise falling.
pub open spec fn resolve_spec(tiles: Seq<Vec<Tile>>, width: int, height: int, hole_grid: Seq<Vec<bool>>, guards: Seq<Guard>, x: int, y: int, current: ActorState) -> ActorState {
    let here = terrain_spec(tiles, width, height, hole_grid, x, y);
    if current == ActorState::Dead || current == ActorState::InHole {
        current
    } else if here.climbable {
        ActorState::OnLadder
    } else if here.hangable {
        ActorState::OnRope
    } else if support_spec(tiles, width, height, hole_grid, guards, x, y, -1) {
        ActorState::OnGround
    } else {
        ActorState::Falling
    }
}

/// Some hole in the list is active at (x, y).
pub open spec fn active_hole_at(holes: Seq<Hole>, x: int, y: int) -> bool {
    exists|i: int| 0 <= i < holes.len() && (#[trigger] holes[i]).x == x && holes[i].y == y && holes[i].spec_is_active()
}

/// The hole grid is the materialised view of the hole list.
pub open spec fn hole_grid_matches(grid: Seq<Vec<bool>>, holes: Seq<Hole>, width: int, height: int) -> bool {
    &&& grid_wf(grid, width, height)
    &&& forall|x: int, y: int| in_bounds(width, height, x, y) ==> (#[trigger] grid[y]@[x] <==> active_hole_at(holes, x, y))
}

/// Terrain at (x, y) from tiles and the hole grid.
pub fn terrain_at(tiles: &[Vec<Tile>], width: usize, height: usize, hole_grid: &[Vec<bool>], x: usize, y: usize) -> (r: TerrainCell)
    requires
        grid_wf(tiles@, width as int, height as int),
    ensures
        r == terrain_spec(tiles@, width as int, height as int, hole_grid@, x as int, y as int),
{
    if x >= width || y >= height {
        return TerrainCell { passable: false, climbable: false, hangable: false, hole: false };
    }
    if y < hole_grid.len() && x < hole_grid[y].len() && hole_grid[y][x] {
        return TerrainCell { passable: true, climbable: false, hangable: false, hole: true };
    }
    let tile = tiles[y][x];
    TerrainCell { passable: tile.is_passable(), climbable: tile.is_climbable(), hangable: tile.is_hangable(), hole: false }
}

/// Does terrain alone (no entities) support an actor at (x, y)?
pub fn terrain_support(tiles: &[Vec<Tile>], width: usize, height: usize, hole_grid: &[Vec<bool>], x: usize, y: usize) -> (r: bool)
    requires
        grid_wf(tiles@, width as int, height as int),
    ensures
        r == terrain_support_spec(tiles@, width as int, height as int, hole_grid@, x as int, y as int),
{
    if y >= height || y + 1 >= height {
        return true;
    }
    let here = terrain_at(tiles, width, height, hole_grid, x, y);
    if here.climbable || here.hangable {
        return true;
    }
    let below = terrain_at(tiles, width, height, hole_grid, x, y + 1);
    if !below.passable || below.climbable {
        return true;
    }
    false
}

/// Is there a trapped (InHole) guard at (x, y)?
pub fn has_trapped_guard(guards: &[Guard], x: usize, y: usize) -> (r: bool)
    ensures
        r == trapped_at(guards@, x as int, y as int, -1),
{
    let mut j: usize = 0;
    while j < guards.len()
        invariant
            j <= guards@.len(),
            forall|k: int| 0 <= k < j ==> !(guard_at(#[trigger] guards@[k], x as int, y as int) && is_trapped(guards@[k])),
        decreases guards.len() - j,
    {
        let g = guards[j];
        if g.x == x && g.y == y && g.state == ActorState::InHole {
            return true;
        }
        j = j + 1;
    }
    false
}

/// Is there a trapped guard at (x, y) other than the one at index `skip`?
pub fn has_trapped_guard_except(guards: &[Guard], x: usize, y: usize, skip: usize) -> (r: bool)
    ensures
        r == trapped_at(guards@, x as int, y as int, skip as int),
{
    let mut j: usize = 0;
    while j < guards.len()
        invariant
            j <= guards@.len(),
            forall|k: int| 0 <= k < j && k != skip ==> !(guard_at(#[trigger] guards@[k], x as int, y as int) && is_trapped(guards@[k])),
        decreases guards.len() - j,
    {
        let g = guards[j];
        if j != skip && g.x == x && g.y == y && g.state == ActorState::InHole {
            return true;
        }
        j = j + 1;
    }
    false
}

/// Is there an active (neither dead nor trapped) guard at (x, y)?
pub fn has_active_guard(guards: &[Guard], x: usize, y: usize) -> (r: bool)
    ensures
        r == active_at(guards@, x as int, y as int, -1),
{
    let mut j: usize = 0;
    while j < guards.len()
        invariant
            j <= guards@.len(),
            forall|k: int| 0 <= k < j ==> !(guard_at(#[trigger] guards@[k], x as int, y as int) && is_active_guard(guards@[k])),
        decreases guards.len() - j,
    {
        let g = guards[j];
        if g.x == x && g.y == y && g.state != ActorState::Dead && g.state != ActorState::InHole {
            return true;
        }
        j = j + 1;
    }
    false
}

/// Is there a guard at (x, y) that is neither dead nor falling?
/// Such a guard is a floor for the player.
pub fn has_standing_guard(guards: &[Guard], x: usize, y: usize) -> (r: bool)
    ensures
        r == standing_at(guards@, x as int, y as int),
{
    let mut j: usize = 0;
    while j < guards.len()
        invariant
            j <= guards@.len(),
            forall|k: int| 0 <= k < j ==> !(guard_at(#[trigger] guards@[k], x as int, y as int) && is_standing(guards@[k])),
        decreases guards.len() - j,
    {
        let g = guards[j];
        if g.x == x && g.y == y && g.state != ActorState::Dead && g.state != ActorState::Falling {
            return true;
        }
        j = j + 1;
    }
    false
}

/// Is there an active guard at (x, y) other than the one at index `skip`?
pub fn has_active_guard_except(guards: &[Guard], x: usize, y: usize, skip: usize) -> (r: bool)
    ensures
        r == active_at(guards@, x as int, y as int, skip as int),
{
    let mut j: usize = 0;
    while j < guards.len()
        invariant
            j <= guards@.len(),
            forall|k: int| 0 <= k < j && k != skip ==> !(guard_at(#[trigger] guards@[k], x as int, y as int) && is_active_guard(guards@[k])),
        decreases guards.len() - j,
    {
        let g = guards[j];
        if j != skip && g.x == x && g.y == y && g.state != ActorState::Dead && g.state != ActorState::InHole {
            return true;
        }
        j = j + 1;
    }
    false
}

/// Full support: terrain, or a trapped guard directly below acting as floor.
pub fn has_support(tiles: &[Vec<Tile>], width: usize, height: usize, hole_grid: &[Vec<bool>], guards: &[Guard], x: usize, y: usize) -> (r: bool)
    requires
        grid_wf(tiles@, width as int, height as int),
    ensures
        r == support_spec(tiles@, width as int, height as int, hole_grid@, guards@, x as int, y as int, -1),
{
    if terrain_support(tiles, width, height, hole_grid, x, y) {
        return true;
    }
    y + 1 < height && has_trapped_guard(guards, x, y + 1)
}

/// Player support: terrain, or any standing guard directly below.
pub fn has_support_for_player(tiles: &[Vec<Tile>], width: usize, height: usize, hole_grid: &[Vec<bool>], guards: &[Guard], x: usize, y: usize) -> (r: bool)
    requires
        grid_wf(tiles@, width as int, height as int),
    ensures
        r == player_support_spec(tiles@, width as int, height as int, hole_grid@, guards@, x as int, y as int),
{
    if terrain_support(tiles, width, height, hole_grid, x, y) {
        return true;
    }
    y + 1 < height && has_standing_guard(guards, x, y + 1)
}

/// Support for the guard at index `guard_idx`: terrain, or another trapped
/// guard directly below.
pub fn has_support_for_guard(
    tiles: &[Vec<Tile>],
    width: usize,
    height: usize,
    hole_grid: &[Vec<bool>],
    guards: &[Guard],
    x: usize,
    y: usize,
    guard_idx: usize,
) -> (r: bool)
    requires
        grid_wf(tiles@, width as int, height as int),
    ensures
        r == support_spec(tiles@, width as int, height as int, hole_grid@, guards@, x as int, y as int, guard_idx as int),
{
    if terrain_support(tiles, width, height, hole_grid, x, y) {
        return true;
    }
    y + 1 < height && has_trapped_guard_except(guards, x, y + 1, guard_idx)
}

/// Resolve an actor's state from terrain and occupancy.
pub fn resolve_state(
    tiles: &[Vec<Tile>],
    width: usize,
    height: usize,
    hole_grid: &[Vec<bool>],
    guards: &[Guard],
    x: usize,
    y: usize,
    current: ActorState,
) -> (r: ActorState)
    requires
        grid_wf(tiles@, width as int, height as int),
    ensures
        r == resolve_spec(tiles@, width as int, height as int, hole_grid@, guards@, x as int, y as int, current),
{
    if current == ActorState::Dead || current == ActorState::InHole {
        return current;
    }
    let here = terrain_at(tiles, width, height, hole_grid, x, y);
    if here.climbable {
        return ActorState::OnLadder;
    }
    if here.hangable {
        return ActorState::OnRope;
    }
    if has_support(tiles, width, height, hole_grid, guards, x, y) {
        return ActorState::OnGround;
    }
    ActorState::Falling
}

/// Is some hole in the list active at (x, y)?
pub fn hole_active_at(holes: &[Hole], x: usize, y: usize) -> (r: bool)
    ensures
        r == active_hole_at(holes@, x as int, y as int),
{
    let mut i: usize = 0;
    while i < holes.len()
        invariant
            i <= holes@.len(),
            forall|k: int| 0 <= k < i ==> !((#[trigger] holes@[k]).x == x && holes@[k].y == y && holes@[k].spec_is_active()),
        decreases holes.len() - i,
    {
        let h = holes[i];
        if h.x == x && h.y == y && h.is_active() {
            return true;
        }
        i = i + 1;
    }
    false
}

/// Build the hole grid: `true` exactly at cells where an active hole stands.
pub fn build_hole_grid(holes: &[Hole], width: usize, height: usize) -> (grid: Vec<Vec<bool>>)
    ensures
        hole_grid_matches(grid@, holes@, width as int, height as int),
{
    let mut grid: Vec<Vec<bool>> = Vec::new();
    let mut y: usize = 0;
    while y < height
        invariant
            y <= height,
            grid@.len() == y,
            forall|yy: int| 0 <= yy < y ==> (#[trigger] grid@[yy])@.len() == width,
            forall|xx: int, yy: int| 0 <= xx < width && 0 <= yy < y ==> (#[trigger] grid@[yy]@[xx] <==> active_hole_at(holes@, xx, yy)),
        decreases height - y,
    {
        let mut row: Vec<bool> = Vec::new();
        let mut x: usize = 0;
        while x < width
            invariant
                x <= width,
                row@.len() == x,
                forall|xx: int| 0 <= xx < x ==> (#[trigger] row@[xx] <==> active_hole_at(holes@, xx, y as int)),
            decreases width - x,
        {
            let b = hole_active_at(holes, x, y);
            row.push(b);
            x = x + 1;
        }
        grid.push(row);
        y = y + 1;
    }
    grid
}

/// An active hole overrides the tile: its cell is passable, a hole, and
/// neither climbable nor hangable, whatever was dug there.
pub proof fn lemma_hole_overrides_terrain(
    tiles: Seq<Vec<Tile>>,
    width: int,
    height: int,
    hole_grid: Seq<Vec<bool>>,
    holes: Seq<Hole>,
    x: int,
    y: int,
)
    requires
        hole_grid_matches(hole_grid, holes, width, height),
        in_bounds(width, height, x, y),
        active_hole_at(holes, x, y),
    ensures
        terrain_spec(tiles, width, height, hole_grid, x, y) == hole_cell(),
        terrain_spec(tiles, width, height, hole_grid, x, y).passable,
        terrain_spec(tiles, width, height, hole_grid, x, y).hole,
{
    assert(hole_grid[y]@[x]);
}

/// The bottom row always has support, for guards and for the player.
pub proof fn lemma_bottom_row_supported(
    tiles: Seq<Vec<Tile>>,
    width: int,
    height: int,
    hole_grid: Seq<Vec<bool>>,
    guards: Seq<Guard>,
    x: int,
    skip: int,
)
    requires
        height > 0,
    ensures
        support_spec(tiles, width, height, hole_grid, guards, x, height - 1, skip),
        player_support_spec(tiles, width, height, hole_grid, guards, x, height - 1),
{
}

/// A trapped guard is a floor: the cell above it has support for every other
/// guard and for the player.
pub proof fn lemma_trapped_guard_is_floor(
    tiles: Seq<Vec<Tile>>,
    width: int,
    height: int,
    hole_grid: Seq<Vec<bool>>,
    guards: Seq<Guard>,
    j: int,
    skip: int,
)
    requires
        0 <= j < guards.len(),
        guards[j].state == ActorState::InHole,
        guards[j].y >= 1,
        guards[j].y < height,
        skip != j,
    ensures
        support_spec(tiles, width, height, hole_grid, guards, guards[j].x as int, guards[j].y - 1, skip),
        player_support_spec(tiles, width, height, hole_grid, guards, guards[j].x as int, guards[j].y - 1),
{
    let (x, y) = (guards[j].x as int, guards[j].y - 1);
    assert(guard_at(guards[j], x, y + 1) && is_trapped(guards[j]));
    assert(guard_at(guards[j], x, y + 1) && is_standing(guards[j]));
}

/// Where terrain gives no support and the guards directly below are all
/// untrapped, an active guard below holds up the player but no guard.
pub proof fn lemma_active_guard_floor_for_player_only(
    tiles: Seq<Vec<Tile>>,
    width: int,
    height: int,
    hole_grid: Seq<Vec<bool>>,
    guards: Seq<Guard>,
    j: int,
    skip: int,
)
    requires
        0 <= j < guards.len(),
        guards[j].state == ActorState::OnGround,
        guards[j].y >= 1,
        guards[j].y < height,
        !terrain_support_spec(tiles, width, height, hole_grid, guards[j].x as int, guards[j].y - 1),
        forall|k: int| 0 <= k < guards.len() && guard_at(#[trigger] guards[k], guards[j].x as int, guards[j].y as int) ==> !is_trapped(guards[k]),
    ensures
        player_support_spec(tiles, width, height, hole_grid, guards, guards[j].x as int, guards[j].y - 1),
        !support_spec(tiles, width, height, hole_grid, guards, guards[j].x as int, guards[j].y - 1, skip),
{
    assert(guard_at(guards[j], guards[j].x as int, guards[j].y as int) && is_standing(guards[j]));
}

/// Dead or falling guards are no floor: above them, without terrain
/// support, nobody is supported.
pub proof fn lemma_dead_or_falling_guard_no_floor(
    tiles: Seq<Vec<Tile>>,
    width: int,
    height: int,
    hole_grid: Seq<Vec<bool>>,
    guards: Seq<Guard>,
    x: int,
    y: int,
    skip: int,
)
    requires
        !terrain_support_spec(tiles, width, height, hole_grid, x, y),
        forall|k: int|
            0 <= k < guards.len() && guard_at(#[trigger] guards[k], x, y + 1) ==> (guards[k].state == ActorState::Dead || guards[k].state
                == ActorState::Falling),
    ensures
        !support_spec(tiles, width, height, hole_grid, guards, x, y, skip),
        !player_support_spec(tiles, width, height, hole_grid, guards, x, y),
{
}

/// Dead and InHole are sticky: state resolution keeps them on any terrain.
pub proof fn lemma_resolve_sticky(
    tiles: Seq<Vec<Tile>>,
    width: int,
    height: int,
    hole_grid: Seq<Vec<bool>>,
    guards: Seq<Guard>,
    x: int,
    y: int,
    current: ActorState,
)
    requires
        current == ActorState::Dead || current == ActorState::InHole,
    ensures
        resolve_spec(tiles, width, height, hole_grid, guards, x, y, current) == current,
{
}

} // verus!
