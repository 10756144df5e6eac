//! The world aggregate: tile layers, entities, the derived hole grid, and
//! the game bookkeeping around them.
//!
//! `base_tiles` is the level as loaded; `tiles` is the effective terrain.
//! Tiles change only through `set_tile`, `clear_tile` and `reset_tiles`, and
//! the hole grid only through `rebuild_hole_grid`.
use vstd::prelude::*;

use crate::config::SpeedConfig;
use crate::entity::{ActorState, DigInProgress, Guard, Hole, Player};
use crate::physics::{self, grid_wf, hole_grid_matches, in_bounds, tile_of, TerrainCell};
use crate::tile::Tile;

verus! {

/// A level pack, as listed in the pack selector.
#[derive(Clone, Debug)]
pub struct PackInfo {
    pub name: String,
    pub author: String,
    pub description: String,
    pub level_count: usize,
    /// A pack file path, or one of the two built-in source markers.
    pub path: String,
}

#[derive(Clone, Copy, PartialEq, Eq, Structural, Debug)]
pub enum Phase {
    Title,
    LevelSelect,
    PackSelect,
    LevelIntro,
    LevelReady,
    Playing,
    LevelOutro,
    LevelComplete,
    Dying,
    GameOver,
    GameComplete,
}

/// A viewport into the world: `(x, y)` is the world cell at its top-left,
/// `view_w` by `view_h` cells are visible.
#[derive(Clone, Copy, Debug)]
pub struct Camera {
    pub x: i32,
    pub y: i32,
    pub view_w: usize,
    pub view_h: usize,
}

pub struct WorldState {
    /// The level as loaded; never changed during play.
    pub base_tiles: Vec<Vec<Tile>>,
    /// Effective terrain: base plus runtime changes.
    pub tiles: Vec<Vec<Tile>>,
    pub width: usize,
    pub height: usize,
    pub player: Player,
    pub guards: Vec<Guard>,
    pub holes: Vec<Hole>,
    pub digs: Vec<DigInProgress>,
    /// `hole_grid[y][x]` exactly when an active hole is at (x, y).
    pub hole_grid: Vec<Vec<bool>>,
    pub gold_remaining: usize,
    pub gold_total: usize,
    pub exit_enabled: bool,
    pub speed: SpeedConfig,
    pub phase: Phase,
    pub score: u32,
    pub lives: u32,
    pub current_level: usize,
    pub total_levels: usize,
    pub level_name: String,
    pub tick: u64,
    pub message: String,
    pub message_timer: u32,
    pub player_spawn: (usize, usize),
    pub exit_columns: Vec<usize>,
    pub hidden_ladder_positions: Vec<(usize, usize)>,
    pub anim_tick: u32,
    pub anim_player_y: i32,
    pub paused: bool,
    pub camera: Camera,
    pub select_cursor: usize,
    pub select_scroll: usize,
    pub level_names: Vec<String>,
    pub has_save: bool,
    pub pack_list: Vec<PackInfo>,
    pub pack_cursor: usize,
    pub pack_scroll: usize,
    pub active_pack: String,
    pub active_pack_path: String,
}

/// Two grids hold the same cells.
pub open spec fn same_grid<T>(a: Seq<Vec<T>>, b: Seq<Vec<T>>) -> bool {
    a.len() == b.len() && forall|y: int| 0 <= y < a.len() ==> (#[trigger] a[y])@ == b[y]@
}

/// `b` is `a` with the in-bounds cell (x, y) set to `v`, or `a` unchanged when
/// (x, y) is off the map.
pub open spec fn grid_set<T>(a: Seq<Vec<T>>, b: Seq<Vec<T>>, width: int, height: int, x: int, y: int, v: T) -> bool {
    &&& b.len() == a.len()
    &&& forall|yy: int| 0 <= yy < a.len() ==> (#[trigger] b[yy])@.len() == a[yy]@.len()
    &&& forall|xx: int, yy: int|
        0 <= yy < a.len() && 0 <= xx < a[yy]@.len() ==> #[trigger] b[yy]@[xx] == (if xx == x && yy == y && in_bounds(width, height, x, y) {
            v
        } else {
            a[yy]@[xx]
        })
}

/// Offset that centres a world of `world` cells in a view of `view` cells,
/// when the world fits.
pub open spec fn centred(view: int, world: int) -> int {
    -((view - world) / 2)
}

pub open spec fn clamp_spec(v: int, lo: int, hi: int) -> int {
    if v < lo { lo } else if v > hi { hi } else { v }
}

/// One axis of `center_on`.
pub open spec fn center_axis(target: int, view: int, world: int) -> int {
    if world <= view { centred(view, world) } else { clamp_spec(target - view / 2, 0, world - view) }
}

/// One axis of `follow`: scroll only when the target leaves the inner part
/// of the view (a fifth of the view is margin on each side).
pub open spec fn follow_axis(cur: int, target: int, view: int, world: int) -> int {
    if world <= view {
        centred(view, world)
    } else {
        let margin = view / 5;
        let moved = if target < cur + margin {
            target - margin
        } else if target > cur + view - margin - 1 {
            target - view + margin + 1
        } else {
            cur
        };
        clamp_spec(moved, 0, world - view)
    }
}

pub open spec fn fits_i32(v: int) -> bool {
    v <= i32::MAX
}

fn clamp_i64(v: i64, lo: i64, hi: i64) -> (r: i64)
    requires
        lo <= hi,
    ensures
        r == clamp_spec(v as int, lo as int, hi as int),
{
    if v < lo {
        lo
    } else if v > hi {
        hi
    } else {
        v
    }
}

fn center_axis_exec(target: usize, view: usize, world: usize) -> (r: i32)
    requires
        fits_i32(target as int) && fits_i32(view as int) && fits_i32(world as int),
    ensures
        r == center_axis(target as int, view as int, world as int),
{
    let v = view as i64;
    let w = world as i64;
    if w <= v {
        let c = -((v - w) / 2);
        c as i32
    } else {
        let c = clamp_i64(target as i64 - v / 2, 0, w - v);
        c as i32
    }
}

fn follow_axis_exec(cur: i32, target: usize, view: usize, world: usize) -> (r: i32)
    requires
        fits_i32(target as int) && fits_i32(view as int) && fits_i32(world as int),
    ensures
        r == follow_axis(cur as int, target as int, view as int, world as int),
{
    let v = view as i64;
    let w = world as i64;
    if w <= v {
        let c = -((v - w) / 2);
        return c as i32;
    }
    let margin = v / 5;
    let t = target as i64;
    let c = cur as i64;
    let moved = if t < c + margin {
        t - margin
    } else if t > c + v - margin - 1 {
        t - v + margin + 1
    } else {
        c
    };
    clamp_i64(moved, 0, w - v) as i32
}

impl Camera {
    pub fn new() -> (r: Camera)
        ensures
            r.x == 0 && r.y == 0 && r.view_w == 0 && r.view_h == 0,
    {
        Camera { x: 0, y: 0, view_w: 0, view_h: 0 }
    }

    /// All sizes and the target fit the camera's `i32` coordinates.
    pub open spec fn in_range(&self, tx: usize, ty: usize, world_w: usize, world_h: usize) -> bool {
        fits_i32(self.view_w as int) && fits_i32(self.view_h as int) && fits_i32(tx as int) && fits_i32(ty as int) && fits_i32(
            world_w as int,
        ) && fits_i32(world_h as int)
    }

    /// Follow a target with a dead zone; a world narrower than the view is
    /// centred. An empty view, or sizes beyond `i32`, leave the camera alone.
    pub fn follow(&mut self, target_x: usize, target_y: usize, world_w: usize, world_h: usize)
        ensures
            (old(self).view_w == 0 || old(self).view_h == 0 || !old(self).in_range(target_x, target_y, world_w, world_h)) ==> *final(self) == *old(self),
            (old(self).view_w > 0 && old(self).view_h > 0 && old(self).in_range(target_x, target_y, world_w, world_h)) ==> *final(self) == (Camera {
                x: follow_axis(old(self).x as int, target_x as int, old(self).view_w as int, world_w as int) as i32,
                y: follow_axis(old(self).y as int, target_y as int, old(self).view_h as int, world_h as int) as i32,
                ..*old(self)
            }),
    {
        if self.view_w == 0 || self.view_h == 0 {
            return;
        }
        if self.view_w > 2147483647 || self.view_h > 2147483647 || target_x > 2147483647 || target_y > 2147483647 || world_w
            > 2147483647 || world_h > 2147483647 {
            return;
        }
        self.x = follow_axis_exec(self.x, target_x, self.view_w, world_w);
        self.y = follow_axis_exec(self.y, target_y, self.view_h, world_h);
    }

    /// Centre directly on a target (clamped to the world); a world narrower
    /// than the view is centred. An empty view, or sizes beyond `i32`, leave
    /// the camera alone.
    pub fn center_on(&mut self, target_x: usize, target_y: usize, world_w: usize, world_h: usize)
        ensures
            (old(self).view_w == 0 || old(self).view_h == 0 || !old(self).in_range(target_x, target_y, world_w, world_h)) ==> *final(self) == *old(self),
            (old(self).view_w > 0 && old(self).view_h > 0 && old(self).in_range(target_x, target_y, world_w, world_h)) ==> *final(self) == (Camera {
                x: center_axis(target_x as int, old(self).view_w as int, world_w as int) as i32,
                y: center_axis(target_y as int, old(self).view_h as int, world_h as int) as i32,
                ..*old(self)
            }),
    {
        if self.view_w == 0 || self.view_h == 0 {
            return;
        }
        if self.view_w > 2147483647 || self.view_h > 2147483647 || target_x > 2147483647 || target_y > 2147483647 || world_w
            > 2147483647 || world_h > 2147483647 {
            return;
        }
        self.x = center_axis_exec(target_x, self.view_w, world_w);
        self.y = center_axis_exec(target_y, self.view_h, world_h);
    }

    /// Viewport cell of a world cell, if it is visible.
    pub fn world_to_view(&self, wx: usize, wy: usize) -> (r: Option<(usize, usize)>)
        ensures
            ({
                let vx = wx - self.x;
                let vy = wy - self.y;
                if 0 <= vx < self.view_w && 0 <= vy < self.view_h {
                    r == Some((vx as usize, vy as usize))
                } else {
                    r is None
                }
            }),
    {
        let vx: i128 = wx as i128 - self.x as i128;
        let vy: i128 = wy as i128 - self.y as i128;
        if vx >= 0 && vx < self.view_w as i128 && vy >= 0 && vy < self.view_h as i128 {
            Some((vx as usize, vy as usize))
        } else {
            None
        }
    }
}

impl WorldState {
    /// Both tile layers are `height` rows of `width` cells.
    pub open spec fn tiles_wf(&self) -> bool {
        grid_wf(self.tiles@, self.width as int, self.height as int)
            && grid_wf(self.base_tiles@, self.width as int, self.height as int)
    }

    /// Tile layers are well formed and the hole grid matches the hole list.
    pub open spec fn wf(&self) -> bool {
        self.tiles_wf() && hole_grid_matches(self.hole_grid@, self.holes@, self.width as int, self.height as int)
    }

    /// Effective tile at (x, y); concrete outside the map.
    pub open spec fn tile_spec(&self, x: int, y: int) -> Tile {
        if in_bounds(self.width as int, self.height as int, x, y) {
            tile_of(self.tiles@, x, y)
        } else {
            Tile::Concrete
        }
    }

    pub open spec fn terrain_spec(&self, x: int, y: int) -> TerrainCell {
        physics::terrain_spec(self.tiles@, self.width as int, self.height as int, self.hole_grid@, x, y)
    }

    /// This world with its effective tiles replaced.
    pub open spec fn with_tiles(self, tiles: Vec<Vec<Tile>>) -> WorldState {
        WorldState { tiles, ..self }
    }

    /// Effective tile at (x, y); concrete (a wall) outside the map.
    pub fn terrain_at(&self, x: usize, y: usize) -> (r: Tile)
        requires
            self.tiles_wf(),
        ensures
            r == self.tile_spec(x as int, y as int),
    {
        if x < self.width && y < self.height {
            self.tiles[y][x]
        } else {
            Tile::Concrete
        }
    }

    /// Set an effective tile; off-map writes are ignored.
    pub fn set_tile(&mut self, x: usize, y: usize, tile: Tile)
        requires
            old(self).tiles_wf(),
        ensures
            final(self).tiles_wf(),
            *final(self) == old(self).with_tiles(final(self).tiles),
            grid_set(old(self).tiles@, final(self).tiles@, old(self).width as int, old(self).height as int, x as int, y as int, tile),
    {
        if x < self.width && y < self.height {
            self.tiles[y][x] = tile;
        }
    }

    /// Revert one effective tile to its base value; off-map cells are ignored.
    pub fn clear_tile(&mut self, x: usize, y: usize)
        requires
            old(self).tiles_wf(),
        ensures
            final(self).tiles_wf(),
            *final(self) == old(self).with_tiles(final(self).tiles),
            in_bounds(old(self).width as int, old(self).height as int, x as int, y as int) ==> grid_set(
                old(self).tiles@,
                final(self).tiles@,
                old(self).width as int,
                old(self).height as int,
                x as int,
                y as int,
                tile_of(old(self).base_tiles@, x as int, y as int),
            ),
            !in_bounds(old(self).width as int, old(self).height as int, x as int, y as int) ==> final(self).tiles == old(self).tiles,
    {
        if x < self.width && y < self.height {
            let t = self.base_tiles[y][x];
            self.tiles[y][x] = t;
        }
    }

    /// Revert every effective tile to its base value.
    pub fn reset_tiles(&mut self)
        requires
            old(self).tiles_wf(),
        ensures
            final(self).tiles_wf(),
            *final(self) == old(self).with_tiles(final(self).tiles),
            same_grid(final(self).tiles@, old(self).base_tiles@),
    {
        self.tiles = copy_grid(&self.base_tiles);
    }

    /// Rebuild the hole grid from the hole list.
    pub fn rebuild_hole_grid(&mut self)
        requires
            old(self).tiles_wf(),
        ensures
            final(self).wf(),
            *final(self) == (WorldState { hole_grid: final(self).hole_grid, ..*old(self) }),
    {
        self.hole_grid = physics::build_hole_grid(self.holes.as_slice(), self.width, self.height);
    }

    /// Terrain at (x, y) with holes applied.
    pub fn terrain_cell(&self, x: usize, y: usize) -> (r: TerrainCell)
        requires
            self.tiles_wf(),
        ensures
            r == self.terrain_spec(x as int, y as int),
    {
        physics::terrain_at(self.tiles.as_slice(), self.width, self.height, self.hole_grid.as_slice(), x, y)
    }

    /// Support from terrain alone.
    pub fn terrain_support(&self, x: usize, y: usize) -> (r: bool)
        requires
            self.tiles_wf(),
        ensures
            r == physics::terrain_support_spec(self.tiles@, self.width as int, self.height as int, self.hole_grid@, x as int, y as int),
    {
        physics::terrain_support(self.tiles.as_slice(), self.width, self.height, self.hole_grid.as_slice(), x, y)
    }

    /// Terrain support, or a trapped guard below.
    pub fn has_support(&self, x: usize, y: usize) -> (r: bool)
        requires
            self.tiles_wf(),
        ensures
            r == physics::support_spec(self.tiles@, self.width as int, self.height as int, self.hole_grid@, self.guards@, x as int, y as int, -1),
    {
        physics::has_support(self.tiles.as_slice(), self.width, self.height, self.hole_grid.as_slice(), self.guards.as_slice(), x, y)
    }

    /// Terrain support, or a standing guard below.
    pub fn has_support_for_player(&self, x: usize, y: usize) -> (r: bool)
        requires
            self.tiles_wf(),
        ensures
            r == physics::player_support_spec(self.tiles@, self.width as int, self.height as int, self.hole_grid@, self.guards@, x as int, y as int),
    {
        physics::has_support_for_player(self.tiles.as_slice(), self.width, self.height, self.hole_grid.as_slice(), self.guards.as_slice(), x, y)
    }

    /// Terrain support, or a trapped guard below other than `guard_idx`.
    pub fn has_support_for_guard(&self, x: usize, y: usize, guard_idx: usize) -> (r: bool)
        requires
            self.tiles_wf(),
        ensures
            r == physics::support_spec(
                self.tiles@,
                self.width as int,
                self.height as int,
                self.hole_grid@,
                self.guards@,
                x as int,
                y as int,
                guard_idx as int,
            ),
    {
        physics::has_support_for_guard(
            self.tiles.as_slice(),
            self.width,
            self.height,
            self.hole_grid.as_slice(),
            self.guards.as_slice(),
            x,
            y,
            guard_idx,
        )
    }

    /// Resolve an actor's state from terrain and occupancy.
    pub fn resolve_actor_state(&self, x: usize, y: usize, current: ActorState) -> (r: ActorState)
        requires
            self.tiles_wf(),
        ensures
            r == physics::resolve_spec(
                self.tiles@,
                self.width as int,
                self.height as int,
                self.hole_grid@,
                self.guards@,
                x as int,
                y as int,
                current,
            ),
    {
        physics::resolve_state(
            self.tiles.as_slice(),
            self.width,
            self.height,
            self.hole_grid.as_slice(),
            self.guards.as_slice(),
            x,
            y,
            current,
        )
    }

    /// Is the terrain at (x, y) passable?
    pub fn can_enter(&self, x: usize, y: usize) -> (r: bool)
        requires
            self.tiles_wf(),
        ensures
            r == self.terrain_spec(x as int, y as int).passable,
    {
        self.terrain_cell(x, y).passable
    }

    /// An empty world on the title screen.
    pub fn new() -> (r: WorldState)
        ensures
            r.wf(),
            r.width == 0 && r.height == 0,
            r.guards@.len() == 0 && r.holes@.len() == 0 && r.digs@.len() == 0,
            r.phase == Phase::Title,
            r.score == 0 && r.lives == 5 && r.tick == 0,
            r.gold_remaining == 0 && r.gold_total == 0 && !r.exit_enabled,
            r.speed == (SpeedConfig {
                tick_rate_ms: 75,
                player_move_rate: 2,
                guard_move_rate: 5,
                dig_duration: 5,
                hole_open_ticks: 100,
                hole_close_ticks: 20,
                trap_escape_ticks: 70,
                guard_respawn_ticks: 80,
                gold_carry_ticks: 150,
            }),
            r.player == Player::new_spec(0, 0),
            r.message@.len() == 0 && r.message_timer == 0,
    {
        WorldState {
            base_tiles: Vec::new(),
            tiles: Vec::new(),
            width: 0,
            height: 0,
            player: Player::new(0, 0),
            guards: Vec::new(),
            holes: Vec::new(),
            digs: Vec::new(),
            hole_grid: Vec::new(),
            gold_remaining: 0,
            gold_total: 0,
            exit_enabled: false,
            speed: SpeedConfig {
                tick_rate_ms: 75,
                player_move_rate: 2,
                guard_move_rate: 5,
                dig_duration: 5,
                hole_open_ticks: 100,
                hole_close_ticks: 20,
                trap_escape_ticks: 70,
                guard_respawn_ticks: 80,
                gold_carry_ticks: 150,
            },
            phase: Phase::Title,
            score: 0,
            lives: 5,
            current_level: 0,
            total_levels: 0,
            level_name: String::new(),
            tick: 0,
            message: String::new(),
            message_timer: 0,
            player_spawn: (0, 0),
            exit_columns: Vec::new(),
            hidden_ladder_positions: Vec::new(),
            anim_tick: 0,
            anim_player_y: 0,
            paused: false,
            camera: Camera::new(),
            select_cursor: 0,
            select_scroll: 0,
            level_names: Vec::new(),
            has_save: false,
            pack_list: Vec::new(),
            pack_cursor: 0,
            pack_scroll: 0,
            active_pack: String::from_str("Built-in Levels"),
            active_pack_path: String::from_str("__embedded__"),
        }
    }

    /// Show a banner message for `duration` ticks.
    pub fn set_message(&mut self, msg: &str, duration: u32)
        ensures
            final(self).message@ == msg@,
            *final(self) == (WorldState { message: final(self).message, message_timer: duration, ..*old(self) }),
    {
        self.message = String::from_str(msg);
        self.message_timer = duration;
    }
}

/// A cell-by-cell copy of a grid.
pub fn copy_grid<T: Copy>(g: &Vec<Vec<T>>) -> (r: Vec<Vec<T>>)
    ensures
        same_grid(r@, g@),
{
    let mut out: Vec<Vec<T>> = Vec::new();
    let mut y: usize = 0;
    while y < g.len()
        invariant
            y <= g@.len(),
            out@.len() == y,
            forall|yy: int| 0 <= yy < y ==> (#[trigger] out@[yy])@ == g@[yy]@,
        decreases g.len() - y,
    {
        let src = &g[y];
        let mut row: Vec<T> = Vec::new();
        let mut x: usize = 0;
        while x < src.len()
            invariant
                x <= src@.len(),
                row@ == src@.subrange(0, x as int),
            decreases src.len() - x,
        {
            row.push(src[x]);
            x = x + 1;
        }
        assert(row@ == src@);
        out.push(row);
        y = y + 1;
    }
    out
}

} // verus!
