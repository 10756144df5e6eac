//! Snapshots of a running game: everything needed to resume play exactly
//! at a tick boundary.
use vstd::prelude::*;

use crate::entity::{ActorState, DigInProgress, Facing, Guard, Hole, Player};
use crate::physics::grid_wf;
use crate::tile::Tile;
use crate::world::{copy_grid, same_grid, WorldState};

verus! {

/// Saved progress: level, score and lives, with a mid-level snapshot when
/// the save was made during play.
#[derive(Debug)]
pub struct SaveData {
    pub level: usize,
    pub score: u32,
    pub lives: u32,
    pub snapshot: Option<Snapshot>,
}

#[derive(Debug)]
pub struct Snapshot {
    pub tick: u64,
    pub width: usize,
    pub height: usize,
    pub tiles: Vec<Vec<Tile>>,
    pub player: SnapshotPlayer,
    pub guards: Vec<SnapshotGuard>,
    pub holes: Vec<SnapshotHole>,
    pub digs: Vec<SnapshotDig>,
    pub gold_remaining: usize,
    pub gold_total: usize,
    pub exit_enabled: bool,
    pub exit_columns: Vec<usize>,
    pub hidden_ladder_positions: Vec<(usize, usize)>,
    pub player_spawn: (usize, usize),
}

#[derive(Clone, Copy, Debug)]
pub struct SnapshotPlayer {
    pub x: usize,
    pub y: usize,
    pub facing: Facing,
    pub state: ActorState,
    pub move_cooldown: u32,
}

#[derive(Clone, Copy, Debug)]
pub struct SnapshotGuard {
    pub id: usize,
    pub x: usize,
    pub y: usize,
    pub facing: Facing,
    pub state: ActorState,
    pub carry_gold: bool,
    pub carry_gold_timer: u32,
    pub stuck_timer: u32,
    pub move_cooldown: u32,
    pub spawn_x: usize,
    pub spawn_y: usize,
    pub respawn_timer: u32,
    pub separation_timer: u32,
}

#[derive(Clone, Copy, Debug)]
pub struct SnapshotHole {
    pub x: usize,
    pub y: usize,
    pub open_remaining: u32,
    pub close_remaining: u32,
}

#[derive(Clone, Copy, Debug)]
pub struct SnapshotDig {
    pub x: usize,
    pub y: usize,
    pub ticks_remaining: u32,
    pub total_ticks: u32,
}

pub open spec fn guard_record(g: Guard) -> SnapshotGuard {
    SnapshotGuard {
        id: g.id,
        x: g.x,
        y: g.y,
        facing: g.facing,
        state: g.state,
        carry_gold: g.carry_gold,
        carry_gold_timer: g.carry_gold_timer,
        stuck_timer: g.stuck_timer,
        move_cooldown: g.move_cooldown,
        spawn_x: g.spawn_x,
        spawn_y: g.spawn_y,
        respawn_timer: g.respawn_timer,
        separation_timer: g.separation_timer,
    }
}

pub open spec fn guard_of(g: SnapshotGuard) -> Guard {
    Guard {
        id: g.id,
        x: g.x,
        y: g.y,
        facing: g.facing,
        state: g.state,
        carry_gold: g.carry_gold,
        carry_gold_timer: g.carry_gold_timer,
        stuck_timer: g.stuck_timer,
        move_cooldown: g.move_cooldown,
        spawn_x: g.spawn_x,
        spawn_y: g.spawn_y,
        respawn_timer: g.respawn_timer,
        separation_timer: g.separation_timer,
    }
}

pub open spec fn hole_record(h: Hole) -> SnapshotHole {
    SnapshotHole { x: h.x, y: h.y, open_remaining: h.open_remaining, close_remaining: h.close_remaining }
}

pub open spec fn hole_of(h: SnapshotHole) -> Hole {
    Hole { x: h.x, y: h.y, open_remaining: h.open_remaining, close_remaining: h.close_remaining }
}

pub open spec fn dig_record(d: DigInProgress) -> SnapshotDig {
    SnapshotDig { x: d.x, y: d.y, ticks_remaining: d.ticks_remaining, total_ticks: d.total_ticks }
}

pub open spec fn dig_of(d: SnapshotDig) -> DigInProgress {
    DigInProgress { x: d.x, y: d.y, ticks_remaining: d.ticks_remaining, total_ticks: d.total_ticks }
}

fn copy_list<T: Copy>(v: &Vec<T>) -> (r: Vec<T>)
    ensures
        r@ == v@,
{
    let mut out: Vec<T> = Vec::new();
    let mut i: usize = 0;
    while i < v.len()
        invariant
            i <= v@.len(),
            out@ == v@.subrange(0, i as int),
        decreases v.len() - i,
    {
        out.push(v[i]);
        i = i + 1;
    }
    out
}

/// Capture a full snapshot of the world.
pub fn capture_snapshot(w: &WorldState) -> (s: Snapshot)
    ensures
        s.tick == w.tick && s.width == w.width && s.height == w.height,
        same_grid(s.tiles@, w.tiles@),
        s.player == (SnapshotPlayer {
            x: w.player.x,
            y: w.player.y,
            facing: w.player.facing,
            state: w.player.state,
            move_cooldown: w.player.move_cooldown,
        }),
        s.guards@ == w.guards@.map_values(|g: Guard| guard_record(g)),
        s.holes@ == w.holes@.map_values(|h: Hole| hole_record(h)),
        s.digs@ == w.digs@.map_values(|d: DigInProgress| dig_record(d)),
        s.gold_remaining == w.gold_remaining && s.gold_total == w.gold_total && s.exit_enabled == w.exit_enabled,
        s.exit_columns@ == w.exit_columns@,
        s.hidden_ladder_positions@ == w.hidden_ladder_positions@,
        s.player_spawn == w.player_spawn,
{
    let mut guards: Vec<SnapshotGuard> = Vec::new();
    let mut i: usize = 0;
    while i < w.guards.len()
        invariant
            i <= w.guards@.len(),
            guards@ == w.guards@.subrange(0, i as int).map_values(|g: Guard| guard_record(g)),
        decreases w.guards.len() - i,
    {
        let g = w.guards[i];
        guards.push(
            SnapshotGuard {
                id: g.id,
                x: g.x,
                y: g.y,
                facing: g.facing,
                state: g.state,
                carry_gold: g.carry_gold,
                carry_gold_timer: g.carry_gold_timer,
                stuck_timer: g.stuck_timer,
                move_cooldown: g.move_cooldown,
                spawn_x: g.spawn_x,
                spawn_y: g.spawn_y,
                respawn_timer: g.respawn_timer,
                separation_timer: g.separation_timer,
            },
        );
        i = i + 1;
        assert(w.guards@.subrange(0, i as int).drop_last() == w.guards@.subrange(0, i - 1));
    }
    assert(w.guards@.subrange(0, w.guards@.len() as int) == w.guards@);
    let mut holes: Vec<SnapshotHole> = Vec::new();
    let mut i: usize = 0;
    while i < w.holes.len()
        invariant
            i <= w.holes@.len(),
            holes@ == w.holes@.subrange(0, i as int).map_values(|h: Hole| hole_record(h)),
        decreases w.holes.len() - i,
    {
        let h = w.holes[i];
        holes.push(SnapshotHole { x: h.x, y: h.y, open_remaining: h.open_remaining, close_remaining: h.close_remaining });
        i = i + 1;
        assert(w.holes@.subrange(0, i as int).drop_last() == w.holes@.subrange(0, i - 1));
    }
    assert(w.holes@.subrange(0, w.holes@.len() as int) == w.holes@);
    let mut digs: Vec<SnapshotDig> = Vec::new();
    let mut i: usize = 0;
    while i < w.digs.len()
        invariant
            i <= w.digs@.len(),
            digs@ == w.digs@.subrange(0, i as int).map_values(|d: DigInProgress| dig_record(d)),
        decreases w.digs.len() - i,
    {
        let d = w.digs[i];
        digs.push(SnapshotDig { x: d.x, y: d.y, ticks_remaining: d.ticks_remaining, total_ticks: d.total_ticks() });
        i = i + 1;
        assert(w.digs@.subrange(0, i as int).drop_last() == w.digs@.subrange(0, i - 1));
    }
    assert(w.digs@.subrange(0, w.digs@.len() as int) == w.digs@);
    Snapshot {
        tick: w.tick,
        width: w.width,
        height: w.height,
        tiles: copy_grid(&w.tiles),
        player: SnapshotPlayer {
            x: w.player.x,
            y: w.player.y,
            facing: w.player.facing,
            state: w.player.state,
            move_cooldown: w.player.move_cooldown,
        },
        guards,
        holes,
        digs,
        gold_remaining: w.gold_remaining,
        gold_total: w.gold_total,
        exit_enabled: w.exit_enabled,
        exit_columns: copy_list(&w.exit_columns),
        hidden_ladder_positions: copy_list(&w.hidden_ladder_positions),
        player_spawn: w.player_spawn,
    }
}

/// Restore a snapshot into a world whose level (base tiles) is already
/// loaded. The hole grid is rebuilt from the restored holes.
pub fn restore_snapshot(w: &mut WorldState, snap: &Snapshot)
    requires
        grid_wf(snap.tiles@, snap.width as int, snap.height as int),
        grid_wf(old(w).base_tiles@, snap.width as int, snap.height as int),
    ensures
        final(w).wf(),
        final(w).tick == snap.tick && final(w).width == snap.width && final(w).height == snap.height,
        same_grid(final(w).tiles@, snap.tiles@),
        final(w).player == (Player {
            x: snap.player.x,
            y: snap.player.y,
            facing: snap.player.facing,
            state: snap.player.state,
            alive: true,
            move_cooldown: snap.player.move_cooldown,
        }),
        final(w).guards@ == snap.guards@.map_values(|g: SnapshotGuard| guard_of(g)),
        final(w).holes@ == snap.holes@.map_values(|h: SnapshotHole| hole_of(h)),
        final(w).digs@ == snap.digs@.map_values(|d: SnapshotDig| dig_of(d)),
        final(w).gold_remaining == snap.gold_remaining && final(w).gold_total == snap.gold_total,
        final(w).exit_enabled == snap.exit_enabled,
        final(w).exit_columns@ == snap.exit_columns@,
        final(w).hidden_ladder_positions@ == snap.hidden_ladder_positions@,
        final(w).player_spawn == snap.player_spawn,
        *final(w) == (WorldState {
            tick: snap.tick,
            width: snap.width,
            height: snap.height,
            tiles: final(w).tiles,
            player: final(w).player,
            guards: final(w).guards,
            holes: final(w).holes,
            digs: final(w).digs,
            gold_remaining: snap.gold_remaining,
            gold_total: snap.gold_total,
            exit_enabled: snap.exit_enabled,
            exit_columns: final(w).exit_columns,
            hidden_ladder_positions: final(w).hidden_ladder_positions,
            player_spawn: snap.player_spawn,
            hole_grid: final(w).hole_grid,
            camera: final(w).camera,
            ..*old(w)
        }),
{
    w.tick = snap.tick;
    w.width = snap.width;
    w.height = snap.height;
    w.tiles = copy_grid(&snap.tiles);
    w.player = Player {
        x: snap.player.x,
        y: snap.player.y,
        facing: snap.player.facing,
        state: snap.player.state,
        alive: true,
        move_cooldown: snap.player.move_cooldown,
    };
    let mut guards: Vec<Guard> = Vec::new();
    let mut i: usize = 0;
    while i < snap.guards.len()
        invariant
            i <= snap.guards@.len(),
            guards@ == snap.guards@.subrange(0, i as int).map_values(|g: SnapshotGuard| guard_of(g)),
        decreases snap.guards.len() - i,
    {
        let g = snap.guards[i];
        guards.push(
            Guard {
                id: g.id,
                x: g.x,
                y: g.y,
                facing: g.facing,
                state: g.state,
                carry_gold: g.carry_gold,
                carry_gold_timer: g.carry_gold_timer,
                stuck_timer: g.stuck_timer,
                move_cooldown: g.move_cooldown,
                spawn_x: g.spawn_x,
                spawn_y: g.spawn_y,
                respawn_timer: g.respawn_timer,
                separation_timer: g.separation_timer,
            },
        );
        i = i + 1;
        assert(snap.guards@.subrange(0, i as int).drop_last() == snap.guards@.subrange(0, i - 1));
    }
    assert(snap.guards@.subrange(0, snap.guards@.len() as int) == snap.guards@);
    w.guards = guards;
    let mut holes: Vec<Hole> = Vec::new();
    let mut i: usize = 0;
    while i < snap.holes.len()
        invariant
            i <= snap.holes@.len(),
            holes@ == snap.holes@.subrange(0, i as int).map_values(|h: SnapshotHole| hole_of(h)),
        decreases snap.holes.len() - i,
    {
        let h = snap.holes[i];
        holes.push(Hole::new(h.x, h.y, h.open_remaining, h.close_remaining));
        i = i + 1;
        assert(snap.holes@.subrange(0, i as int).drop_last() == snap.holes@.subrange(0, i - 1));
    }
    assert(snap.holes@.subrange(0, snap.holes@.len() as int) == snap.holes@);
    w.holes = holes;
    let mut digs: Vec<DigInProgress> = Vec::new();
    let mut i: usize = 0;
    while i < snap.digs.len()
        invariant
            i <= snap.digs@.len(),
            digs@ == snap.digs@.subrange(0, i as int).map_values(|d: SnapshotDig| dig_of(d)),
        decreases snap.digs.len() - i,
    {
        let d = snap.digs[i];
        digs.push(DigInProgress::new_with_state(d.x, d.y, d.ticks_remaining, d.total_ticks));
        i = i + 1;
        assert(snap.digs@.subrange(0, i as int).drop_last() == snap.digs@.subrange(0, i - 1));
    }
    assert(snap.digs@.subrange(0, snap.digs@.len() as int) == snap.digs@);
    w.digs = digs;
    w.gold_remaining = snap.gold_remaining;
    w.gold_total = snap.gold_total;
    w.exit_enabled = snap.exit_enabled;
    w.exit_columns = copy_list(&snap.exit_columns);
    w.hidden_ladder_positions = copy_list(&snap.hidden_ladder_positions);
    w.player_spawn = snap.player_spawn;
    w.rebuild_hole_grid();
    let (px, py, ww, wh) = (w.player.x, w.player.y, w.width, w.height);
    w.camera.center_on(px, py, ww, wh);
}

/// The level-file character of a tile.
pub fn tile_to_char(t: Tile) -> (c: char)
    ensures
        char_to_tile_spec(c) == t,
{
    match t {
        Tile::Empty => ' ',
        Tile::Brick => '#',
        Tile::Concrete => '=',
        Tile::Ladder => 'H',
        Tile::Rope => '-',
        Tile::Gold => '$',
        Tile::HiddenLadder => '~',
        Tile::TrapBrick => 'T',
    }
}

/// Tile of a saved-grid character; anything unknown is empty.
pub open spec fn char_to_tile_spec(c: char) -> Tile {
    if c == '#' {
        Tile::Brick
    } else if c == '=' {
        Tile::Concrete
    } else if c == 'H' {
        Tile::Ladder
    } else if c == '-' {
        Tile::Rope
    } else if c == '$' {
        Tile::Gold
    } else if c == '~' {
        Tile::HiddenLadder
    } else if c == 'T' {
        Tile::TrapBrick
    } else {
        Tile::Empty
    }
}

pub fn char_to_tile(c: char) -> (t: Tile)
    ensures
        t == char_to_tile_spec(c),
{
    match c {
        '#' => Tile::Brick,
        '=' => Tile::Concrete,
        'H' => Tile::Ladder,
        '-' => Tile::Rope,
        '$' => Tile::Gold,
        '~' => Tile::HiddenLadder,
        'T' => Tile::TrapBrick,
        _ => Tile::Empty,
    }
}

/// Snapshot records lose nothing: restoring the records of captured guards,
/// holes and digs gives back the same guards, holes and digs.
pub proof fn lemma_snapshot_records_round_trip(guards: Seq<Guard>, holes: Seq<Hole>, digs: Seq<DigInProgress>)
    ensures
        guards.map_values(|g: Guard| guard_record(g)).map_values(|g: SnapshotGuard| guard_of(g)) == guards,
        holes.map_values(|h: Hole| hole_record(h)).map_values(|h: SnapshotHole| hole_of(h)) == holes,
        digs.map_values(|d: DigInProgress| dig_record(d)).map_values(|d: SnapshotDig| dig_of(d)) == digs,
{
    assert(guards.map_values(|g: Guard| guard_record(g)).map_values(|g: SnapshotGuard| guard_of(g)) =~= guards);
    assert(holes.map_values(|h: Hole| hole_record(h)).map_values(|h: SnapshotHole| hole_of(h)) =~= holes);
    assert(digs.map_values(|d: DigInProgress| dig_record(d)).map_values(|d: SnapshotDig| dig_of(d)) =~= digs);
}

} // verus!
