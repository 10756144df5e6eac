//! Movement and dig legality over tiles alone (no occupancy, no holes).
//!
//! Voluntary input is judged by these rules; gravity is resolved afterwards
//! by the physics layer.
use vstd::prelude::*;

use crate::entity::{ActorState, Facing};
use crate::physics::{grid_wf, tile_of};
use crate::tile::Tile;

verus! {

/// Read-only view of a tile map.
pub struct MapView<'a> {
    pub tiles: &'a Vec<Vec<Tile>>,
    pub width: usize,
    pub height: usize,
}

/// The tile at (x, y); concrete outside the map.
pub open spec fn map_tile(tiles: Seq<Vec<Tile>>, width: int, height: int, x: int, y: int) -> Tile {
    if 0 <= x < width && 0 <= y < height {
        tile_of(tiles, x, y)
    } else {
        Tile::Concrete
    }
}

/// Terrain-only support: bottom row, on a ladder or rope, or above a solid
/// or climbable tile.
pub open spec fn map_support(tiles: Seq<Vec<Tile>>, width: int, height: int, x: int, y: int) -> bool {
    let here = map_tile(tiles, width, height, x, y);
    let below = map_tile(tiles, width, height, x, y + 1);
    y + 1 >= height || here.is_climbable() || here.is_hangable() || below.is_solid() || below.is_climbable()
}

impl<'a> MapView<'a> {
    pub open spec fn wf(&self) -> bool {
        grid_wf(self.tiles@, self.width as int, self.height as int)
    }

    pub open spec fn tile_spec(&self, x: int, y: int) -> Tile {
        map_tile(self.tiles@, self.width as int, self.height as int, x, y)
    }

    pub open spec fn support_spec(&self, x: int, y: int) -> bool {
        map_support(self.tiles@, self.width as int, self.height as int, x, y)
    }

    pub fn tile_at(&self, x: usize, y: usize) -> (r: Tile)
        requires
            self.wf(),
        ensures
            r == self.tile_spec(x as int, y as int),
    {
        if x >= self.width || y >= self.height {
            return Tile::Concrete;
        }
        self.tiles[y][x]
    }

    pub fn is_passable(&self, x: usize, y: usize) -> (r: bool)
        requires
            self.wf(),
        ensures
            r == self.tile_spec(x as int, y as int).is_passable(),
    {
        self.tile_at(x, y).is_passable()
    }

    pub fn has_support(&self, x: usize, y: usize) -> (r: bool)
        requires
            self.wf(),
        ensures
            r == self.support_spec(x as int, y as int),
    {
        if y >= self.height || y + 1 >= self.height {
            return true;
        }
        let here = self.tile_at(x, y);
        if here.is_climbable() || here.is_hangable() {
            return true;
        }
        let below = self.tile_at(x, y + 1);
        below.is_solid() || below.is_climbable()
    }
}

/// Falling, dead or trapped: no voluntary movement.
pub open spec fn immobile(state: ActorState) -> bool {
    state == ActorState::Falling || state == ActorState::Dead || state == ActorState::InHole
}

pub open spec fn tile_resolve_spec(tiles: Seq<Vec<Tile>>, width: int, height: int, x: int, y: int, current: ActorState) -> ActorState {
    if current == ActorState::Dead || current == ActorState::InHole {
        current
    } else if map_tile(tiles, width, height, x, y).is_climbable() {
        ActorState::OnLadder
    } else if map_tile(tiles, width, height, x, y).is_hangable() {
        ActorState::OnRope
    } else if map_support(tiles, width, height, x, y) {
        ActorState::OnGround
    } else {
        ActorState::Falling
    }
}

pub open spec fn left_spec(tiles: Seq<Vec<Tile>>, width: int, height: int, x: int, y: int, state: ActorState) -> bool {
    x > 0 && !immobile(state) && map_tile(tiles, width, height, x - 1, y).is_passable()
}

pub open spec fn right_spec(tiles: Seq<Vec<Tile>>, width: int, height: int, x: int, y: int, state: ActorState) -> bool {
    x + 1 < width && !immobile(state) && map_tile(tiles, width, height, x + 1, y).is_passable()
}

pub open spec fn up_spec(tiles: Seq<Vec<Tile>>, width: int, height: int, x: int, y: int, state: ActorState) -> bool {
    y > 0 && !immobile(state) && map_tile(tiles, width, height, x, y).is_climbable() && map_tile(tiles, width, height, x, y - 1).is_passable()
}

pub open spec fn down_spec(tiles: Seq<Vec<Tile>>, width: int, height: int, x: int, y: int, state: ActorState) -> bool {
    let here = map_tile(tiles, width, height, x, y);
    let below = map_tile(tiles, width, height, x, y + 1);
    &&& y + 1 < height
    &&& state != ActorState::Dead && state != ActorState::InHole
    &&& (((here.is_climbable() || here.is_hangable()) && below.is_passable()) || below.is_climbable())
}

/// The column beside x in direction `dir`, if it is on the map.
pub open spec fn side_column(tiles: Seq<Vec<Tile>>, width: int, height: int, x: int, dir: Facing) -> Option<int> {
    match dir {
        Facing::Left => if x > 0 { Some(x - 1) } else { None },
        Facing::Right => if x + 1 < width { Some(x + 1) } else { None },
    }
}

/// Dig target for an actor at (x, y) facing `dir`, when digging is legal.
pub open spec fn dig_spec(tiles: Seq<Vec<Tile>>, width: int, height: int, x: int, y: int, state: ActorState, dir: Facing) -> Option<(int, int)> {
    if immobile(state) {
        None
    } else if !map_support(tiles, width, height, x, y) && state != ActorState::OnLadder && state != ActorState::OnRope {
        None
    } else {
        match side_column(tiles, width, height, x, dir) {
            None => None,
            Some(sx) => {
                if y + 1 >= height {
                    None
                } else if !map_tile(tiles, width, height, sx, y).is_passable() || map_tile(tiles, width, height, sx, y).is_climbable() {
                    None
                } else if map_tile(tiles, width, height, sx, y + 1).is_diggable() {
                    Some((sx, y + 1))
                } else {
                    None
                }
            },
        }
    }
}

/// Determine an actor's state from tiles alone.
pub fn resolve_state(map: &MapView, x: usize, y: usize, current: ActorState) -> (r: ActorState)
    requires
        map.wf(),
    ensures
        r == tile_resolve_spec(map.tiles@, map.width as int, map.height as int, x as int, y as int, current),
{
    if current == ActorState::Dead || current == ActorState::InHole {
        return current;
    }
    let here = map.tile_at(x, y);
    if here.is_climbable() {
        return ActorState::OnLadder;
    }
    if here.is_hangable() {
        return ActorState::OnRope;
    }
    if map.has_support(x, y) {
        return ActorState::OnGround;
    }
    ActorState::Falling
}

fn is_immobile(state: ActorState) -> (r: bool)
    ensures
        r == immobile(state),
{
    matches!(state, ActorState::Falling | ActorState::Dead | ActorState::InHole)
}

pub fn can_move_left(map: &MapView, x: usize, y: usize, state: ActorState) -> (r: bool)
    requires
        map.wf(),
    ensures
        r == left_spec(map.tiles@, map.width as int, map.height as int, x as int, y as int, state),
{
    if x == 0 {
        return false;
    }
    if is_immobile(state) {
        return false;
    }
    map.is_passable(x - 1, y)
}

pub fn can_move_right(map: &MapView, x: usize, y: usize, state: ActorState) -> (r: bool)
    requires
        map.wf(),
    ensures
        r == right_spec(map.tiles@, map.width as int, map.height as int, x as int, y as int, state),
{
    if x >= map.width || x + 1 >= map.width {
        return false;
    }
    if is_immobile(state) {
        return false;
    }
    map.is_passable(x + 1, y)
}

pub fn can_move_up(map: &MapView, x: usize, y: usize, state: ActorState) -> (r: bool)
    requires
        map.wf(),
    ensures
        r == up_spec(map.tiles@, map.width as int, map.height as int, x as int, y as int, state),
{
    if y == 0 {
        return false;
    }
    if is_immobile(state) {
        return false;
    }
    if !map.tile_at(x, y).is_climbable() {
        return false;
    }
    map.is_passable(x, y - 1)
}

pub fn can_move_down(map: &MapView, x: usize, y: usize, state: ActorState) -> (r: bool)
    requires
        map.wf(),
    ensures
        r == down_spec(map.tiles@, map.width as int, map.height as int, x as int, y as int, state),
{
    if y >= map.height || y + 1 >= map.height {
        return false;
    }
    if state == ActorState::Dead || state == ActorState::InHole {
        return false;
    }
    let here = map.tile_at(x, y);
    let below = map.tile_at(x, y + 1);
    if (here.is_climbable() || here.is_hangable()) && below.is_passable() {
        return true;
    }
    below.is_climbable()
}

/// The cell a dig would open, if digging is legal: the cell below the
/// neighbour in direction `dir`.
pub fn can_dig(map: &MapView, x: usize, y: usize, state: ActorState, dir: Facing) -> (r: Option<(usize, usize)>)
    requires
        map.wf(),
    ensures
        dig_spec(map.tiles@, map.width as int, map.height as int, x as int, y as int, state, dir) == (match r {
            Some(t) => Some((t.0 as int, t.1 as int)),
            None => None::<(int, int)>,
        }),
{
    if is_immobile(state) {
        return None;
    }
    if !map.has_support(x, y) && state != ActorState::OnLadder && state != ActorState::OnRope {
        return None;
    }
    let side_x: usize = match dir {
        Facing::Left => {
            if x == 0 {
                return None;
            }
            x - 1
        },
        Facing::Right => {
            if x >= map.width || x + 1 >= map.width {
                return None;
            }
            x + 1
        },
    };
    if y >= map.height || y + 1 >= map.height {
        return None;
    }
    let dig_y = y + 1;
    if !map.is_passable(side_x, y) {
        return None;
    }
    if map.tile_at(side_x, y).is_climbable() {
        return None;
    }
    if map.tile_at(side_x, dig_y).is_diggable() {
        Some((side_x, dig_y))
    } else {
        None
    }
}

/// Should the actor fall? (Tiles only.)
pub fn should_fall(map: &MapView, x: usize, y: usize) -> (r: bool)
    requires
        map.wf(),
    ensures
        r == !map_support(map.tiles@, map.width as int, map.height as int, x as int, y as int),
{
    !map.has_support(x, y)
}

/// Dead and InHole are sticky under the tile rules too.
pub proof fn lemma_tile_resolve_sticky(tiles: Seq<Vec<Tile>>, width: int, height: int, x: int, y: int, current: ActorState)
    requires
        current == ActorState::Dead || current == ActorState::InHole,
    ensures
        tile_resolve_spec(tiles, width, height, x, y, current) == current,
{
}

/// Digging is refused while falling, at the map edge in the facing
/// direction, beneath a ladder, and into anything but brick (concrete in
/// particular).
pub proof fn lemma_dig_denied(tiles: Seq<Vec<Tile>>, width: int, height: int, x: int, y: int, state: ActorState, dir: Facing)
    ensures
        state == ActorState::Falling ==> dig_spec(tiles, width, height, x, y, state, dir) is None,
        (dir == Facing::Left && x == 0) ==> dig_spec(tiles, width, height, x, y, state, dir) is None,
        (dir == Facing::Right && x + 1 >= width) ==> dig_spec(tiles, width, height, x, y, state, dir) is None,
        (match side_column(tiles, width, height, x, dir) {
            Some(sx) => map_tile(tiles, width, height, sx, y).is_climbable() || !map_tile(tiles, width, height, sx, y + 1).is_diggable(),
            None => false,
        }) ==> dig_spec(tiles, width, height, x, y, state, dir) is None,
        (match side_column(tiles, width, height, x, dir) {
            Some(sx) => map_tile(tiles, width, height, sx, y + 1) == Tile::Concrete,
            None => false,
        }) ==> dig_spec(tiles, width, height, x, y, state, dir) is None,
{
}

/// Standing on supported ground, or on a ladder, beside an open,
/// non-ladder cell with brick below it, the dig opens that brick.
pub proof fn lemma_dig_allowed(tiles: Seq<Vec<Tile>>, width: int, height: int, x: int, y: int, state: ActorState, dir: Facing, sx: int)
    requires
        state == ActorState::OnGround || state == ActorState::OnLadder,
        state == ActorState::OnGround ==> map_support(tiles, width, height, x, y),
        side_column(tiles, width, height, x, dir) == Some(sx),
        y + 1 < height,
        map_tile(tiles, width, height, sx, y).is_passable(),
        !map_tile(tiles, width, height, sx, y).is_climbable(),
        map_tile(tiles, width, height, sx, y + 1) == Tile::Brick,
    ensures
        dig_spec(tiles, width, height, x, y, state, dir) == Some((sx, y + 1)),
{
}

} // verus!
