//! One simulation tick: a fixed sequence of resolution stages over the world.
//!
//! Order per tick: dig request, dig progress, player movement, guard
//! movement, trap bricks, gravity, hole traps, gold pickup, guard gold drop,
//! enemy collision (which ends the tick early), timers, win check.
use vstd::prelude::*;

use crate::ai;
use crate::entity::{ActorState, DigInProgress, Facing, FrameInput, Guard, Hole, MoveDir, Player};
use crate::event::GameEvent;
use crate::physics::{self, in_bounds};
use crate::rules::{self, MapView};
use crate::tile::Tile;
use crate::world::{Phase, WorldState};

verus! {

/// Some hole in the list, active or not, is at (x, y).
pub open spec fn hole_listed_at(holes: Seq<Hole>, x: int, y: int) -> bool {
    exists|i: int| 0 <= i < holes.len() && (#[trigger] holes[i]).x == x && holes[i].y == y
}

/// Some hole at (x, y) is in its closing phase.
pub open spec fn closing_hole_at(holes: Seq<Hole>, x: int, y: int) -> bool {
    exists|i: int| 0 <= i < holes.len() && (#[trigger] holes[i]).x == x && holes[i].y == y && holes[i].spec_is_closing()
}

/// A dig is already under way at (x, y).
pub open spec fn dig_listed_at(digs: Seq<DigInProgress>, x: int, y: int) -> bool {
    exists|i: int| 0 <= i < digs.len() && (#[trigger] digs[i]).x == x && digs[i].y == y
}

/// The living player stands in a closing hole and cannot get out.
pub open spec fn player_sealed_in(w: WorldState) -> bool {
    w.player.alive && closing_hole_at(w.holes@, w.player.x as int, w.player.y as int)
}

/// Gold may rest at (x, y): an empty cell on the map above solid ground or on
/// the bottom row.
pub open spec fn droppable(w: WorldState, x: int, y: int) -> bool {
    &&& in_bounds(w.width as int, w.height as int, x, y)
    &&& w.tile_spec(x, y) == Tile::Empty
    &&& (y + 1 >= w.height || w.tile_spec(x, y + 1).is_solid())
}

/// The cell a dig request in direction `dir` opens, if any: a legal dig
/// target that is not already being dug or holed and has no gold above it.
pub open spec fn dig_request(w: WorldState, dir: Facing) -> Option<(int, int)> {
    match rules::dig_spec(w.tiles@, w.width as int, w.height as int, w.player.x as int, w.player.y as int, w.player.state, dir) {
        Some(t) => {
            if dig_listed_at(w.digs@, t.0, t.1) || hole_listed_at(w.holes@, t.0, t.1) || (t.1 > 0 && w.tile_spec(t.0, t.1 - 1)
                == Tile::Gold) {
                None
            } else {
                Some(t)
            }
        },
        None => None,
    }
}

/// A dig after one tick of progress.
pub open spec fn dig_dec(d: DigInProgress) -> DigInProgress {
    DigInProgress { ticks_remaining: if d.ticks_remaining > 0 { (d.ticks_remaining - 1) as u32 } else { 0 }, ..d }
}

/// The digs still counting down after one tick, in order.
pub open spec fn digs_left(s: Seq<DigInProgress>) -> Seq<DigInProgress>
    decreases s.len(),
{
    if s.len() == 0 {
        Seq::empty()
    } else {
        let p = digs_left(s.drop_last());
        if dig_dec(s.last()).ticks_remaining > 0 {
            p.push(dig_dec(s.last()))
        } else {
            p
        }
    }
}

/// The digs that complete on this tick, in order.
pub open spec fn digs_done(s: Seq<DigInProgress>) -> Seq<DigInProgress>
    decreases s.len(),
{
    if s.len() == 0 {
        Seq::empty()
    } else {
        let p = digs_done(s.drop_last());
        if dig_dec(s.last()).ticks_remaining > 0 {
            p
        } else {
            p.push(s.last())
        }
    }
}

/// The holes opened by completed digs.
pub open spec fn holes_from(s: Seq<DigInProgress>, open: u32, close: u32) -> Seq<Hole> {
    s.map_values(|d: DigInProgress| Hole { x: d.x, y: d.y, open_remaining: open, close_remaining: close })
}

/// Effective tiles of `b` are those of `a`, with every in-bounds cell of a
/// completed dig emptied.
pub open spec fn tiles_dug(a: WorldState, b: WorldState, done: Seq<DigInProgress>) -> bool {
    forall|x: int, y: int|
        in_bounds(a.width as int, a.height as int, x, y) ==> #[trigger] b.tile_spec(x, y) == (if dig_listed_at(done, x, y) {
            Tile::Empty
        } else {
            a.tile_spec(x, y)
        })
}

/// The player's voluntary move in direction `m` is legal by the tile rules.
pub open spec fn move_legal(w: WorldState, m: MoveDir) -> bool {
    let (t, wd, ht, x, y, s) = (w.tiles@, w.width as int, w.height as int, w.player.x as int, w.player.y as int, w.player.state);
    match m {
        MoveDir::Left => rules::left_spec(t, wd, ht, x, y, s),
        MoveDir::Right => rules::right_spec(t, wd, ht, x, y, s),
        MoveDir::Up => rules::up_spec(t, wd, ht, x, y, s),
        MoveDir::Down => rules::down_spec(t, wd, ht, x, y, s),
    }
}

pub open spec fn move_delta(m: MoveDir) -> (int, int) {
    match m {
        MoveDir::Left => (-1, 0),
        MoveDir::Right => (1, 0),
        MoveDir::Up => (0, -1),
        MoveDir::Down => (0, 1),
    }
}

/// The player's state after stepping onto (x, y): tile rules, except that a
/// standing guard below turns a fall into standing.
pub open spec fn landed_state(w: WorldState, x: int, y: int, current: ActorState) -> ActorState {
    let s = rules::tile_resolve_spec(w.tiles@, w.width as int, w.height as int, x, y, current);
    if s == ActorState::Falling && physics::player_support_spec(
        w.tiles@,
        w.width as int,
        w.height as int,
        w.hole_grid@,
        w.guards@,
        x,
        y,
    ) {
        ActorState::OnGround
    } else {
        s
    }
}

/// The player after one tick of voluntary movement.
pub open spec fn player_moved(w: WorldState, movement: Option<MoveDir>) -> Player {
    let p = w.player;
    if !p.alive || p.state == ActorState::Falling || player_sealed_in(w) {
        p
    } else if p.move_cooldown > 0 {
        Player { move_cooldown: (p.move_cooldown - 1) as u32, ..p }
    } else {
        match movement {
            Some(m) => {
                if move_legal(w, m) {
                    let nx = p.x + move_delta(m).0;
                    let ny = p.y + move_delta(m).1;
                    Player {
                        x: nx as usize,
                        y: ny as usize,
                        facing: if m == MoveDir::Left {
                            Facing::Left
                        } else if m == MoveDir::Right {
                            Facing::Right
                        } else {
                            p.facing
                        },
                        move_cooldown: w.speed.player_move_rate,
                        state: landed_state(w, nx, ny, p.state),
                        ..p
                    }
                } else {
                    p
                }
            },
            None => p,
        }
    }
}

fn player_in_closing_hole(world: &WorldState) -> (r: bool)
    ensures
        r == player_sealed_in(*world),
{
    if !world.player.alive {
        return false;
    }
    let mut i: usize = 0;
    while i < world.holes.len()
        invariant
            i <= world.holes@.len(),
            world.player.alive,
            forall|k: int|
                0 <= k < i ==> !((#[trigger] world.holes@[k]).x == world.player.x && world.holes@[k].y == world.player.y
                    && world.holes@[k].spec_is_closing()),
        decreases world.holes.len() - i,
    {
        let h = world.holes[i];
        if h.x == world.player.x && h.y == world.player.y && h.is_closing() {
            assert(world.holes@[i as int] == h);
            return true;
        }
        i = i + 1;
    }
    false
}

/// Can gold be placed at (x, y)?
fn can_drop_gold_at(world: &WorldState, x: usize, y: usize) -> (r: bool)
    requires
        world.tiles_wf(),
    ensures
        r == droppable(*world, x as int, y as int),
{
    if x >= world.width || y >= world.height {
        return false;
    }
    if world.terrain_at(x, y) != Tile::Empty {
        return false;
    }
    if y + 1 >= world.height {
        return true;
    }
    world.terrain_at(x, y + 1).is_solid()
}

fn dig_exists(digs: &Vec<DigInProgress>, x: usize, y: usize) -> (r: bool)
    ensures
        r == dig_listed_at(digs@, x as int, y as int),
{
    let mut i: usize = 0;
    while i < digs.len()
        invariant
            i <= digs@.len(),
            forall|k: int| 0 <= k < i ==> !((#[trigger] digs@[k]).x == x && digs@[k].y == y),
        decreases digs.len() - i,
    {
        if digs[i].x == x && digs[i].y == y {
            return true;
        }
        i = i + 1;
    }
    false
}

fn hole_exists(holes: &Vec<Hole>, x: usize, y: usize) -> (r: bool)
    ensures
        r == hole_listed_at(holes@, x as int, y as int),
{
    let mut i: usize = 0;
    while i < holes.len()
        invariant
            i <= holes@.len(),
            forall|k: int| 0 <= k < i ==> !((#[trigger] holes@[k]).x == x && holes@[k].y == y),
        decreases holes.len() - i,
    {
        if holes[i].x == x && holes[i].y == y {
            return true;
        }
        i = i + 1;
    }
    false
}

/// Start a dig when one is requested and allowed.
fn resolve_dig(world: &mut WorldState, dig_dir: Option<Facing>, events: &mut Vec<GameEvent>)
    requires
        old(world).wf(),
    ensures
        dig_done(*old(world), *final(world), old(events)@, final(events)@, dig_dir),
{
    let dir = match dig_dir {
        Some(d) => d,
        None => return,
    };
    let target = {
        let map = MapView { tiles: &world.tiles, width: world.width, height: world.height };
        rules::can_dig(&map, world.player.x, world.player.y, world.player.state, dir)
    };
    match target {
        Some((dx, dy)) => {
            if dig_exists(&world.digs, dx, dy) {
                return;
            }
            if hole_exists(&world.holes, dx, dy) {
                return;
            }
            if dy > 0 && world.terrain_at(dx, dy - 1) == Tile::Gold {
                return;
            }
            let d = DigInProgress::new(dx, dy, world.speed.dig_duration);
            world.digs.push(d);
            events.push(GameEvent::HoleCreated { x: dx, y: dy });
        },
        None => {},
    }
}

/// Advance every dig; completed digs empty their cell and open a hole.
fn resolve_dig_progress(world: &mut WorldState)
    requires
        old(world).tiles_wf(),
    ensures
        dig_progress_done(*old(world), *final(world)),
{
    let ghost w0 = *world;
    let mut old_digs: Vec<DigInProgress> = Vec::new();
    std::mem::swap(&mut old_digs, &mut world.digs);
    let mut kept: Vec<DigInProgress> = Vec::new();
    let mut i: usize = 0;
    while i < old_digs.len()
        invariant
            i <= old_digs@.len(),
            old_digs@ == w0.digs@,
            world.tiles_wf(),
            kept@ == digs_left(old_digs@.subrange(0, i as int)),
            world.holes@ == w0.holes@ + holes_from(digs_done(old_digs@.subrange(0, i as int)), w0.speed.hole_open_ticks, w0.speed.hole_close_ticks),
            tiles_dug(w0, *world, digs_done(old_digs@.subrange(0, i as int))),
            *world == (WorldState { tiles: world.tiles, digs: world.digs, holes: world.holes, ..w0 }),
            world.digs@.len() == 0,
        decreases old_digs.len() - i,
    {
        let ghost pre = old_digs@.subrange(0, i as int);
        let ghost cur = old_digs@.subrange(0, i as int + 1);
        assert(cur.drop_last() == pre);
        let mut d = old_digs[i];
        if d.ticks_remaining > 0 {
            d.ticks_remaining = d.ticks_remaining - 1;
        }
        if d.ticks_remaining > 0 {
            kept.push(d);
            assert(digs_done(cur) == digs_done(pre));
        } else {
            let ghost before = *world;
            world.set_tile(d.x, d.y, Tile::Empty);
            let h = Hole::new(d.x, d.y, world.speed.hole_open_ticks, world.speed.hole_close_ticks);
            world.holes.push(h);
            proof {
                let done = digs_done(cur);
                assert(done == digs_done(pre).push(old_digs@[i as int]));
                assert(holes_from(done, w0.speed.hole_open_ticks, w0.speed.hole_close_ticks) == holes_from(
                    digs_done(pre),
                    w0.speed.hole_open_ticks,
                    w0.speed.hole_close_ticks,
                ).push(h));
                assert forall|x: int, y: int| in_bounds(w0.width as int, w0.height as int, x, y) implies #[trigger] world.tile_spec(x, y)
                    == (if dig_listed_at(done, x, y) {
                    Tile::Empty
                } else {
                    w0.tile_spec(x, y)
                }) by {
                    if x == d.x && y == d.y {
                        assert(done[done.len() - 1] == old_digs@[i as int]);
                    } else {
                        assert(world.tile_spec(x, y) == before.tile_spec(x, y));
                        if dig_listed_at(done, x, y) {
                            let k = choose|k: int| 0 <= k < done.len() && (#[trigger] done[k]).x == x && done[k].y == y;
                            assert(k < done.len() - 1);
                            assert(done[k] == digs_done(pre)[k]);
                        } else {
                            assert forall|k: int| 0 <= k < digs_done(pre).len() implies !((#[trigger] digs_done(pre)[k]).x == x
                                && digs_done(pre)[k].y == y) by {
                                assert(done[k] == digs_done(pre)[k]);
                            }
                        }
                    }
                }
            }
        }
        i = i + 1;
    }
    assert(old_digs@.subrange(0, old_digs@.len() as int) == old_digs@);
    let ghost wl = *world;
    world.digs = kept;
    assert forall|x: int, y: int| in_bounds(w0.width as int, w0.height as int, x, y) implies #[trigger] world.tile_spec(x, y) == (
    if dig_listed_at(digs_done(w0.digs@), x, y) {
        Tile::Empty
    } else {
        w0.tile_spec(x, y)
    }) by {
        assert(world.tile_spec(x, y) == wl.tile_spec(x, y));
    }
}

/// Voluntary player movement by the tile rules, with a move cooldown.
fn resolve_player_movement(world: &mut WorldState, movement: Option<MoveDir>)
    requires
        old(world).wf(),
    ensures
        player_move_done(*old(world), *final(world), movement),
{
    if !world.player.alive {
        return;
    }
    if world.player.state == ActorState::Falling {
        return;
    }
    if player_in_closing_hole(world) {
        return;
    }
    if world.player.move_cooldown > 0 {
        world.player.move_cooldown = world.player.move_cooldown - 1;
        return;
    }
    let m = match movement {
        Some(m) => m,
        None => return,
    };
    let can_move = {
        let map = MapView { tiles: &world.tiles, width: world.width, height: world.height };
        let p = world.player;
        match m {
            MoveDir::Left => rules::can_move_left(&map, p.x, p.y, p.state),
            MoveDir::Right => rules::can_move_right(&map, p.x, p.y, p.state),
            MoveDir::Up => rules::can_move_up(&map, p.x, p.y, p.state),
            MoveDir::Down => rules::can_move_down(&map, p.x, p.y, p.state),
        }
    };
    if !can_move {
        return;
    }
    let ghost w0 = *world;
    let mut p = world.player;
    match m {
        MoveDir::Left => {
            p.x = p.x - 1;
            p.facing = Facing::Left;
        },
        MoveDir::Right => {
            p.x = p.x + 1;
            p.facing = Facing::Right;
        },
        MoveDir::Up => {
            p.y = p.y - 1;
        },
        MoveDir::Down => {
            p.y = p.y + 1;
        },
    }
    p.move_cooldown = world.speed.player_move_rate;
    let s = {
        let map = MapView { tiles: &world.tiles, width: world.width, height: world.height };
        rules::resolve_state(&map, p.x, p.y, p.state)
    };
    p.state = s;
    if s == ActorState::Falling {
        if world.has_support_for_player(p.x, p.y) {
            p.state = ActorState::OnGround;
        }
    }
    world.player = p;
    assert(world.player == player_moved(w0, movement));
}

/// The separation timer after this tick's countdown.
pub open spec fn sep_ticked(g: Guard) -> Guard {
    Guard { separation_timer: if g.separation_timer > 0 { (g.separation_timer - 1) as u32 } else { 0 }, ..g }
}

/// Neither dead, trapped nor falling: the guard may choose a move.
pub open spec fn may_move(g: Guard) -> bool {
    g.state != ActorState::Dead && g.state != ActorState::InHole && g.state != ActorState::Falling
}

/// The AI's step for guard `i` among `gs`: separation while its timer runs,
/// else chase.
pub open spec fn ai_step(w: WorldState, gs: Seq<Guard>, i: int) -> (i32, i32) {
    let g = gs[i];
    if g.separation_timer > 0 {
        ai::separation_spec(w.tiles@, w.width as int, w.height as int, w.hole_grid@, gs, i, g.x as int, g.y as int, g.state, w.player.x as int, w.player.y as int)
    } else {
        ai::chase_spec(w.tiles@, w.width as int, w.height as int, w.hole_grid@, gs, g.x as int, g.y as int, g.state, w.player.x as int, w.player.y as int)
    }
}

/// Guard `i`'s intended move: target cell and horizontal direction, when it
/// is ready (may move, cooldown 0) and the AI step lands on a passable cell.
pub open spec fn move_target(w: WorldState, gs: Seq<Guard>, i: int) -> Option<(usize, usize, i32)> {
    let g = gs[i];
    let d = ai_step(w, gs, i);
    let (nx, ny) = (g.x + d.0, g.y + d.1);
    if !may_move(g) || g.move_cooldown > 0 || d == (0i32, 0i32) {
        None
    } else if 0 <= nx < w.width && 0 <= ny < w.height && w.terrain_spec(nx, ny).passable {
        Some((nx as usize, ny as usize, d.0))
    } else {
        None
    }
}

pub open spec fn move_at(m: Option<(usize, usize, i32)>, x: int, y: int) -> bool {
    match m {
        Some(t) => t.0 == x && t.1 == y,
        None => false,
    }
}

/// An approved move already claims (x, y).
pub open spec fn claimed(moves: Seq<Option<(usize, usize, i32)>>, x: int, y: int) -> bool {
    exists|j: int| 0 <= j < moves.len() && move_at(#[trigger] moves[j], x, y)
}

/// Approved moves of guards `0..n` in index order: an intent is approved when
/// no other active guard stands on its target and no earlier approved move
/// claimed it.
pub open spec fn approvals(w: WorldState, gs: Seq<Guard>, n: int) -> Seq<Option<(usize, usize, i32)>>
    decreases n,
{
    if n <= 0 {
        Seq::empty()
    } else {
        let p = approvals(w, gs, n - 1);
        let d = match move_target(w, gs, n - 1) {
            Some(t) => if !physics::active_at(gs, t.0 as int, t.1 as int, n - 1) && !claimed(p, t.0 as int, t.1 as int) {
                Some(t)
            } else {
                None
            },
            None => None,
        };
        p.push(d)
    }
}

/// A guard after its approved move (cooldown reset, facing the move), or,
/// when it may move but is cooling down, one tick of cooldown.
pub open spec fn moved_guard(g: Guard, m: Option<(usize, usize, i32)>, rate: u32) -> Guard {
    match m {
        Some(t) => Guard {
            x: t.0,
            y: t.1,
            facing: if t.2 < 0 { Facing::Left } else if t.2 > 0 { Facing::Right } else { g.facing },
            move_cooldown: rate,
            ..g
        },
        None => if may_move(g) && g.move_cooldown > 0 { Guard { move_cooldown: (g.move_cooldown - 1) as u32, ..g } } else { g },
    }
}

/// Guard `i` is in contact with another guard.
pub open spec fn has_contact(gs: Seq<Guard>, i: int) -> bool {
    exists|j: int| 0 <= j < gs.len() && j != i && in_contact(gs[i], #[trigger] gs[j])
}

/// Both guards are active and at most one cell apart.
pub open spec fn in_contact(a: Guard, b: Guard) -> bool {
    physics::is_active_guard(a) && physics::is_active_guard(b) && ai::manhattan_spec(a.x as int, a.y as int, b.x as int, b.y as int) <= 1
}

/// The guard kept its identity and everything its movement does not touch.
pub open spec fn same_guard_record(a: Guard, b: Guard) -> bool {
    &&& a.id == b.id
    &&& a.carry_gold == b.carry_gold
    &&& a.carry_gold_timer == b.carry_gold_timer
    &&& a.stuck_timer == b.stuck_timer
    &&& a.spawn_x == b.spawn_x
    &&& a.spawn_y == b.spawn_y
    &&& a.respawn_timer == b.respawn_timer
}

fn claimed_in(moves: &Vec<Option<(usize, usize, i32)>>, x: usize, y: usize) -> (r: bool)
    ensures
        r == claimed(moves@, x as int, y as int),
{
    let mut k: usize = 0;
    while k < moves.len()
        invariant
            k <= moves@.len(),
            forall|j: int| 0 <= j < k ==> !move_at(#[trigger] moves@[j], x as int, y as int),
        decreases moves.len() - k,
    {
        match moves[k] {
            Some(t) => {
                if t.0 == x && t.1 == y {
                    assert(move_at(moves@[k as int], x as int, y as int));
                    return true;
                }
            },
            None => {},
        }
        k = k + 1;
    }
    false
}

/// Guard movement: tick separation timers; in index order, approve each
/// ready guard's AI move unless an active guard stands on the target or an
/// earlier approved move claimed it; apply the approved moves (cooldown
/// reset, facing the move) and count down the other cooldowns; re-resolve
/// every living untrapped guard's state; arm separation for guards in
/// contact.
#[verifier::rlimit(80)]
fn resolve_guard_movement(world: &mut WorldState)
    requires
        old(world).wf(),
    ensures
        guard_move_done(*old(world), *final(world)),
{
    let ghost w0 = *world;
    let ghost gs1 = w0.guards@.map_values(|g: Guard| sep_ticked(g));
    let px = world.player.x;
    let py = world.player.y;
    let n = world.guards.len();

    let mut i: usize = 0;
    while i < n
        invariant
            n == world.guards@.len(),
            n == w0.guards@.len(),
            i <= n,
            *world == (WorldState { guards: world.guards, ..w0 }),
            gs1 == w0.guards@.map_values(|g: Guard| sep_ticked(g)),
            forall|k: int| 0 <= k < i ==> #[trigger] world.guards@[k] == gs1[k],
            forall|k: int| i <= k < n ==> #[trigger] world.guards@[k] == w0.guards@[k],
        decreases n - i,
    {
        if world.guards[i].separation_timer > 0 {
            world.guards[i].separation_timer = world.guards[i].separation_timer - 1;
        }
        i = i + 1;
    }
    assert(world.guards@ =~= gs1);
    let ghost w1 = *world;

    let mut moves: Vec<Option<(usize, usize, i32)>> = Vec::new();
    let mut i: usize = 0;
    while i < n
        invariant
            n == world.guards@.len(),
            i <= n,
            w0.wf(),
            *world == w1,
            w1 == (WorldState { guards: w1.guards, ..w0 }),
            w1.guards@ == gs1,
            moves@ == approvals(w0, gs1, i as int),
            moves@.len() == i,
            px == w0.player.x && py == w0.player.y,
            forall|k: int|
                0 <= k < moves@.len() ==> (#[trigger] moves@[k] matches Some(t) ==> t.0 < w0.width && t.1 < w0.height),
        decreases n - i,
    {
        let g = world.guards[i];
        assert(g == gs1[i as int]);
        assert(world.tiles@ == w0.tiles@ && world.hole_grid@ == w0.hole_grid@ && world.player == w0.player);
        let mut target: Option<(usize, usize, i32)> = None;
        if g.state != ActorState::Dead && g.state != ActorState::InHole && g.state != ActorState::Falling && g.move_cooldown == 0 {
            let (dx, dy) = if g.separation_timer > 0 {
                ai::find_separation_direction(
                    world.tiles.as_slice(),
                    world.width,
                    world.height,
                    world.hole_grid.as_slice(),
                    world.guards.as_slice(),
                    i,
                    g.x,
                    g.y,
                    g.state,
                    px,
                    py,
                )
            } else {
                ai::find_direction(
                    world.tiles.as_slice(),
                    world.width,
                    world.height,
                    world.hole_grid.as_slice(),
                    world.guards.as_slice(),
                    g.x,
                    g.y,
                    g.state,
                    px,
                    py,
                )
            };
            assert((dx, dy) == ai_step(w0, gs1, i as int));
            if !(dx == 0 && dy == 0) {
                let nx: usize = if dx < 0 { g.x - 1 } else if dx > 0 { g.x + 1 } else { g.x };
                let ny: usize = if dy < 0 { g.y - 1 } else if dy > 0 { g.y + 1 } else { g.y };
                if nx < world.width && ny < world.height && world.can_enter(nx, ny) {
                    target = Some((nx, ny, dx));
                }
            }
        }
        assert(target == move_target(w0, gs1, i as int));
        let decision = match target {
            Some(t) => {
                if !physics::has_active_guard_except(world.guards.as_slice(), t.0, t.1, i) && !claimed_in(&moves, t.0, t.1) {
                    Some(t)
                } else {
                    None
                }
            },
            None => None,
        };
        moves.push(decision);
        i = i + 1;
    }
    let ghost mv = moves@;
    assert(mv == approvals(w0, gs1, n as int));

    let rate = world.speed.guard_move_rate;
    let mut i: usize = 0;
    while i < n
        invariant
            n == world.guards@.len(),
            i <= n,
            w0.wf(),
            *world == (WorldState { guards: world.guards, ..w0 }),
            moves@ == mv,
            mv.len() == n,
            rate == w0.speed.guard_move_rate,
            forall|k: int| 0 <= k < mv.len() ==> (#[trigger] mv[k] matches Some(t) ==> t.0 < w0.width && t.1 < w0.height),
            forall|k: int| 0 <= k < i ==> #[trigger] world.guards@[k] == moved_guard(gs1[k], mv[k], rate),
            forall|k: int| i <= k < n ==> #[trigger] world.guards@[k] == gs1[k],
        decreases n - i,
    {
        let g = world.guards[i];
        match moves[i] {
            Some(t) => {
                let mut g2 = g;
                g2.x = t.0;
                g2.y = t.1;
                if t.2 < 0 {
                    g2.facing = Facing::Left;
                }
                if t.2 > 0 {
                    g2.facing = Facing::Right;
                }
                g2.move_cooldown = rate;
                world.guards.set(i, g2);
            },
            None => {
                if g.state != ActorState::Dead && g.state != ActorState::InHole && g.state != ActorState::Falling && g.move_cooldown > 0 {
                    world.guards[i].move_cooldown = g.move_cooldown - 1;
                }
            },
        }
        i = i + 1;
    }

    let ghost w2 = *world;
    let mut i: usize = 0;
    while i < n
        invariant
            i <= n,
            n == world.guards@.len(),
            w0.wf(),
            *world == (WorldState { guards: world.guards, ..w0 }),
            forall|j: int|
                0 <= j < n ==> {
                    let (g, b) = (#[trigger] world.guards@[j], w2.guards@[j]);
                    &&& g == (Guard { state: g.state, ..b })
                    &&& physics::is_active_guard(g) == physics::is_active_guard(b)
                    &&& !physics::is_active_guard(b) ==> g.state == b.state
                },
        decreases n - i,
    {
        let g = world.guards[i];
        if g.state != ActorState::Dead && g.state != ActorState::InHole {
            let s = world.resolve_actor_state(g.x, g.y, g.state);
            world.guards[i].state = s;
        }
        i = i + 1;
    }

    let ghost g3 = world.guards@;
    let mut i: usize = 0;
    while i < n
        invariant
            i <= n,
            n == world.guards@.len(),
            n == g3.len(),
            w0.wf(),
            *world == (WorldState { guards: world.guards, ..w0 }),
            forall|j: int| 0 <= j < n ==> #[trigger] world.guards@[j] == (Guard { separation_timer: world.guards@[j].separation_timer, ..g3[j] }),
            forall|a: int|
                0 <= a < n ==> (#[trigger] world.guards@[a]).separation_timer == (if g3[a].separation_timer == 0 && (exists|b: int|
                    0 <= b < n && b != a && in_contact(g3[a], #[trigger] g3[b]) && ((if a < b { a } else { b }) < i)) {
                    ai::SEPARATION_TICKS
                } else {
                    g3[a].separation_timer
                }),
        decreases n - i,
    {
        let gi = world.guards[i];
        if gi.state == ActorState::Dead || gi.state == ActorState::InHole {
            proof {
                assert forall|a: int| 0 <= a < n implies (#[trigger] world.guards@[a]).separation_timer == (if g3[a].separation_timer == 0 && (exists|b: int|
                    0 <= b < n && b != a && in_contact(g3[a], #[trigger] g3[b]) && ((if a < b { a } else { b }) < i + 1)) {
                    ai::SEPARATION_TICKS
                } else {
                    g3[a].separation_timer
                }) by {
                    if exists|b: int| 0 <= b < n && b != a && in_contact(g3[a], #[trigger] g3[b]) && ((if a < b { a } else { b }) < i + 1) {
                        let b = choose|b: int| 0 <= b < n && b != a && in_contact(g3[a], #[trigger] g3[b]) && ((if a < b { a } else { b }) < i + 1);
                        if (if a < b { a } else { b }) == i {
                            assert(g3[i as int] == (Guard { separation_timer: g3[i as int].separation_timer, ..gi }));
                            assert(false);
                        }
                    }
                }
            }
            i = i + 1;
            continue;
        }
        let mut j: usize = i + 1;
        while j < n
            invariant
                i < n,
                i + 1 <= j <= n,
                n == world.guards@.len(),
                n == g3.len(),
                w0.wf(),
                *world == (WorldState { guards: world.guards, ..w0 }),
                physics::is_active_guard(g3[i as int]),
                forall|k: int| 0 <= k < n ==> #[trigger] world.guards@[k] == (Guard { separation_timer: world.guards@[k].separation_timer, ..g3[k] }),
                forall|a: int|
                    0 <= a < n ==> (#[trigger] world.guards@[a]).separation_timer == (if g3[a].separation_timer == 0 && (exists|b: int|
                        0 <= b < n && b != a && in_contact(g3[a], #[trigger] g3[b]) && (((if a < b { a } else { b }) < i) || ((if a < b { a } else { b }) == i
                            && (if a < b { b } else { a }) < j))) {
                        ai::SEPARATION_TICKS
                    } else {
                        g3[a].separation_timer
                    }),
            decreases n - j,
        {
            let a = world.guards[i];
            let b = world.guards[j];
            let ghost before = world.guards@;
            let mut touch = false;
            if b.state != ActorState::Dead && b.state != ActorState::InHole {
                let ddx: usize = if a.x >= b.x { a.x - b.x } else { b.x - a.x };
                let ddy: usize = if a.y >= b.y { a.y - b.y } else { b.y - a.y };
                if ddx <= 1 && ddy <= 1 - ddx {
                    touch = true;
                    if a.separation_timer == 0 {
                        world.guards[i].separation_timer = ai::SEPARATION_TICKS;
                    }
                    if b.separation_timer == 0 {
                        world.guards[j].separation_timer = ai::SEPARATION_TICKS;
                    }
                }
            }
            proof {
                assert(touch == in_contact(g3[i as int], g3[j as int]));
                assert(in_contact(g3[i as int], g3[j as int]) == in_contact(g3[j as int], g3[i as int]));
                assert forall|x: int| 0 <= x < n implies (#[trigger] world.guards@[x]).separation_timer == (if g3[x].separation_timer == 0 && (exists|y: int|
                    0 <= y < n && y != x && in_contact(g3[x], #[trigger] g3[y]) && (((if x < y { x } else { y }) < i) || ((if x < y { x } else { y }) == i
                        && (if x < y { y } else { x }) < j + 1))) {
                    ai::SEPARATION_TICKS
                } else {
                    g3[x].separation_timer
                }) by {
                    let old_e = exists|y: int|
                        0 <= y < n && y != x && in_contact(g3[x], #[trigger] g3[y]) && (((if x < y { x } else { y }) < i) || ((if x < y { x } else { y }) == i
                            && (if x < y { y } else { x }) < j));
                    let new_e = exists|y: int|
                        0 <= y < n && y != x && in_contact(g3[x], #[trigger] g3[y]) && (((if x < y { x } else { y }) < i) || ((if x < y { x } else { y }) == i
                            && (if x < y { y } else { x }) < j + 1));
                    if x == i as int && touch {
                        assert(in_contact(g3[x], g3[j as int]));
                    } else if x == j as int && touch {
                        assert(in_contact(g3[x], g3[i as int]));
                    } else {
                        if new_e && !old_e {
                            let y = choose|y: int|
                                0 <= y < n && y != x && in_contact(g3[x], #[trigger] g3[y]) && (((if x < y { x } else { y }) < i) || ((if x < y { x } else { y }) == i
                                    && (if x < y { y } else { x }) < j + 1));
                            assert((x == i && y == j) || (x == j && y == i));
                        }
                    }
                }
            }
            j = j + 1;
        }
        i = i + 1;
    }
    proof {
        let gf = world.guards@;
        assert forall|a: int| 0 <= a < n implies (exists|b: int|
            0 <= b < n && b != a && in_contact(g3[a], #[trigger] g3[b]) && ((if a < b { a } else { b }) < n)) == has_contact(gf, a) by {
            if has_contact(gf, a) {
                let b = choose|b: int| 0 <= b < gf.len() && b != a && in_contact(gf[a], #[trigger] gf[b]);
                assert(in_contact(g3[a], g3[b]));
            }
            if exists|b: int| 0 <= b < n && b != a && in_contact(g3[a], #[trigger] g3[b]) && ((if a < b { a } else { b }) < n) {
                let b = choose|b: int| 0 <= b < n && b != a && in_contact(g3[a], #[trigger] g3[b]) && ((if a < b { a } else { b }) < n);
                assert(in_contact(gf[a], gf[b]));
            }
        }
    }
}

/// Some actor stands directly on top of (x, y): the living player or a
/// guard that is not dead.
pub open spec fn actor_above(w: WorldState, x: int, y: int) -> bool {
    (w.player.alive && w.player.x == x && w.player.y + 1 == y) || exists|k: int|
        0 <= k < w.guards@.len() && (#[trigger] w.guards@[k]).state != ActorState::Dead && w.guards@[k].x == x && w.guards@[k].y + 1 == y
}

/// Tiles of `b` are those of `a` except cells that went from empty to gold.
pub open spec fn only_gold_drops(a: WorldState, b: WorldState) -> bool {
    &&& b.tiles_wf()
    &&& forall|x: int, y: int|
        in_bounds(a.width as int, a.height as int, x, y) ==> #[trigger] b.tile_spec(x, y) == a.tile_spec(x, y) || (a.tile_spec(x, y)
            == Tile::Empty && b.tile_spec(x, y) == Tile::Gold)
}

/// The player after gravity: sealed in a closing hole it stays put; without
/// support it drops one row when the tile below is passable; landing after a
/// fall resolves its state (standing when only a guard holds it up).
pub open spec fn player_after_gravity(w: WorldState) -> Player {
    let p = w.player;
    if player_sealed_in(w) {
        p
    } else if !physics::player_support_spec(w.tiles@, w.width as int, w.height as int, w.hole_grid@, w.guards@, p.x as int, p.y as int) {
        if p.y + 1 < w.height && w.tile_spec(p.x as int, p.y + 1).is_passable() {
            Player { y: (p.y + 1) as usize, state: ActorState::Falling, ..p }
        } else {
            p
        }
    } else if p.state == ActorState::Falling {
        let s = rules::tile_resolve_spec(w.tiles@, w.width as int, w.height as int, p.x as int, p.y as int, p.state);
        Player { state: if s == ActorState::Falling { ActorState::OnGround } else { s }, move_cooldown: 0, ..p }
    } else {
        p
    }
}

/// Trap bricks under the player or a guard collapse.
fn resolve_trap_bricks(world: &mut WorldState, events: &mut Vec<GameEvent>)
    requires
        old(world).wf(),
    ensures
        trap_done(*old(world), *final(world), old(events)@, final(events)@),
{
    let ghost w0 = *world;
    if world.player.alive {
        let (x, y) = (world.player.x, world.player.y);
        if y < world.height && y + 1 < world.height && world.terrain_at(x, y + 1) == Tile::TrapBrick {
            world.set_tile(x, y + 1, Tile::Empty);
            events.push(GameEvent::TrapCollapsed { x, y: y + 1 });
        }
    }
    let n = world.guards.len();
    let mut i: usize = 0;
    while i < n
        invariant
            i <= n,
            n == w0.guards@.len(),
            w0.wf(),
            world.wf(),
            *world == (WorldState { tiles: world.tiles, ..w0 }),
            forall|x: int, y: int|
                in_bounds(w0.width as int, w0.height as int, x, y) ==> #[trigger] world.tile_spec(x, y) == (if w0.tile_spec(x, y)
                    == Tile::TrapBrick && ((w0.player.alive && w0.player.x == x && w0.player.y + 1 == y) || exists|k: int|
                    0 <= k < i && (#[trigger] w0.guards@[k]).state != ActorState::Dead && w0.guards@[k].x == x && w0.guards@[k].y + 1
                        == y) {
                    Tile::Empty
                } else {
                    w0.tile_spec(x, y)
                }),
        decreases n - i,
    {
        let g = world.guards[i];
        let ghost before = *world;
        if g.state != ActorState::Dead && g.y < world.height && g.y + 1 < world.height && world.terrain_at(g.x, g.y + 1) == Tile::TrapBrick {
            world.set_tile(g.x, g.y + 1, Tile::Empty);
            events.push(GameEvent::TrapCollapsed { x: g.x, y: g.y + 1 });
        }
        proof {
            assert forall|x: int, y: int| in_bounds(w0.width as int, w0.height as int, x, y) implies #[trigger] world.tile_spec(x, y)
                == (if w0.tile_spec(x, y) == Tile::TrapBrick && ((w0.player.alive && w0.player.x == x && w0.player.y + 1 == y)
                || exists|k: int|
                0 <= k < i + 1 && (#[trigger] w0.guards@[k]).state != ActorState::Dead && w0.guards@[k].x == x && w0.guards@[k].y + 1
                    == y) {
                Tile::Empty
            } else {
                w0.tile_spec(x, y)
            }) by {
                assert(before.tile_spec(x, y) == world.tile_spec(x, y) || (x == g.x && y == g.y + 1));
                if x == g.x && y == g.y + 1 && g.state != ActorState::Dead {
                    assert(w0.guards@[i as int] == g);
                }
            }
        }
        i = i + 1;
    }
}

/// A guard drops into a hole: trapped, escape countdown armed, and gold it
/// carries dropped at `(hole_x, drop_y)` when that cell can take it.
fn guard_enter_hole(world: &mut WorldState, idx: usize, hole_x: usize, drop_y: Option<usize>)
    requires
        old(world).wf(),
        idx < old(world).guards@.len(),
    ensures
        final(world).wf(),
        enters_hole(*old(world), *final(world), idx as int, old(world).guards@[idx as int], hole_x, drop_y),
{
    let mut g = world.guards[idx];
    g.state = ActorState::InHole;
    g.stuck_timer = world.speed.trap_escape_ticks;
    if g.carry_gold {
        match drop_y {
            Some(dy) => {
                if can_drop_gold_at(world, hole_x, dy) {
                    world.set_tile(hole_x, dy, Tile::Gold);
                    g.carry_gold = false;
                    g.carry_gold_timer = 0;
                }
            },
            None => {},
        }
    }
    world.guards.set(idx, g);
}

/// `b`'s tiles are `a`'s with the cell (x, y) set to `t`.
pub open spec fn grid_set_at(a: WorldState, b: WorldState, x: int, y: int, t: Tile) -> bool {
    forall|xx: int, yy: int|
        in_bounds(a.width as int, a.height as int, xx, yy) ==> #[trigger] b.tile_spec(xx, yy) == (if xx == x && yy == y {
            t
        } else {
            a.tile_spec(xx, yy)
        })
}

/// `b` is `a` with guard `i` replaced by `g`.
pub open spec fn guard_set(a: WorldState, b: WorldState, i: int, g: Guard) -> bool {
    b.guards@ == a.guards@.update(i, g) && b == (WorldState { guards: b.guards, ..a })
}

/// A falling guard lands; any other keeps its state.
pub open spec fn landed(g: Guard) -> Guard {
    if g.state == ActorState::Falling { Guard { state: ActorState::OnGround, ..g } } else { g }
}

/// Guard `idx`, as `g`, enters a hole: trapped with the escape countdown
/// armed; gold it carries is dropped at `(hole_x, drop_y)` when that cell
/// can take it, else kept.
pub open spec fn enters_hole(a: WorldState, b: WorldState, idx: int, g: Guard, hole_x: usize, drop_y: Option<usize>) -> bool {
    let drops = g.carry_gold && match drop_y {
        Some(dy) => droppable(a, hole_x as int, dy as int),
        None => false,
    };
    let g2 = Guard {
        state: ActorState::InHole,
        stuck_timer: a.speed.trap_escape_ticks,
        carry_gold: if drops { false } else { g.carry_gold },
        carry_gold_timer: if drops { 0 } else { g.carry_gold_timer },
        ..g
    };
    &&& b.guards@ == a.guards@.update(idx, g2)
    &&& b == (WorldState { guards: b.guards, tiles: b.tiles, ..a })
    &&& b.tiles_wf()
    &&& drops ==> grid_set_at(a, b, hole_x as int, drop_y.unwrap() as int, Tile::Gold)
    &&& !drops ==> b.tiles == a.tiles
}

/// Gravity for guard `i` (§ step 7): on an active hole cell it is trapped
/// unless another guard is trapped there (then it rides on top); supported,
/// a fall ends; unsupported, it stops on the bottom row or solid ground,
/// falls into an empty hole below (trapped at once, gold left above), stands
/// on a guard trapped in a hole below, or falls one row through open space.
pub open spec fn guard_fall(a: WorldState, b: WorldState, i: int) -> bool {
    let g = a.guards@[i];
    let (x, y) = (g.x as int, g.y as int);
    let h = a.height as int;
    if g.state == ActorState::Dead || g.state == ActorState::InHole {
        b == a
    } else if a.terrain_spec(x, y).hole {
        if !physics::trapped_at(a.guards@, x, y, i) {
            enters_hole(a, b, i, g, g.x, if g.y > 0 { Some((g.y - 1) as usize) } else { None })
        } else {
            guard_set(a, b, i, landed(g))
        }
    } else if physics::support_spec(a.tiles@, a.width as int, h, a.hole_grid@, a.guards@, x, y, i) {
        guard_set(a, b, i, landed(g))
    } else if y + 1 >= h || !a.terrain_spec(x, y + 1).passable {
        guard_set(a, b, i, Guard { state: ActorState::OnGround, ..g })
    } else if a.terrain_spec(x, y + 1).hole && !physics::trapped_at(a.guards@, x, y + 1, -1) {
        enters_hole(a, b, i, Guard { y: (y + 1) as usize, ..g }, g.x, Some(g.y))
    } else if a.terrain_spec(x, y + 1).hole {
        guard_set(a, b, i, Guard { state: ActorState::OnGround, ..g })
    } else {
        guard_set(a, b, i, Guard { y: (y + 1) as usize, state: ActorState::Falling, ..g })
    }
}

/// Gravity applied to guards `0..n` in index order, from `a` to `b`.
pub open spec fn guards_fall(a: WorldState, b: WorldState, n: int) -> bool {
    exists|tr: Seq<WorldState>|
        #![trigger tr.len()]
        tr.len() == n + 1 && tr[0] == a && tr[n] == b && forall|k: int| 0 <= k < n ==> guard_fall(#[trigger] tr[k], tr[k + 1], k)
}

/// The player starts falling on this tick: it was not falling and gravity
/// moves it down.
pub open spec fn fall_starts(w: WorldState) -> bool {
    !player_sealed_in(w) && !physics::player_support_spec(w.tiles@, w.width as int, w.height as int, w.hole_grid@, w.guards@, w.player.x as int, w.player.y as int)
        && w.player.y + 1 < w.height && w.tile_spec(w.player.x as int, w.player.y + 1).is_passable() && w.player.state != ActorState::Falling
}

/// Gravity for the player, then for each guard in index order.
fn resolve_gravity(world: &mut WorldState, events: &mut Vec<GameEvent>)
    requires
        old(world).wf(),
    ensures
        gravity_done(*old(world), *final(world), old(events)@, final(events)@),
{
    let ghost w0 = *world;
    if !player_in_closing_hole(world) {
        let was_falling = world.player.state == ActorState::Falling;
        let px = world.player.x;
        let py = world.player.y;
        let full_support = world.has_support_for_player(px, py);
        if !full_support {
            if py < world.height && py + 1 < world.height && world.terrain_at(px, py + 1).is_passable() {
                world.player.y = py + 1;
                world.player.state = ActorState::Falling;
                if !was_falling {
                    events.push(GameEvent::PlayerFallStart);
                }
            }
        } else if was_falling {
            let s = {
                let map = MapView { tiles: &world.tiles, width: world.width, height: world.height };
                rules::resolve_state(&map, px, py, world.player.state)
            };
            world.player.state = if s == ActorState::Falling { ActorState::OnGround } else { s };
            world.player.move_cooldown = 0;
        }
    }
    assert(world.player == player_after_gravity(w0));
    let ghost w1 = *world;
    assert(w1 == (WorldState { player: player_after_gravity(w0), ..w0 }));
    assert(events@ =~= old(events)@ + (if fall_starts(w0) { seq![GameEvent::PlayerFallStart] } else { Seq::empty() }));
    let ghost mut tr: Seq<WorldState> = seq![w1];

    let n = world.guards.len();
    let mut i: usize = 0;
    while i < n
        invariant
            i <= n,
            n == world.guards@.len(),
            w0.wf(),
            world.wf(),
            world.player == w1.player,
            *world == (WorldState { player: world.player, guards: world.guards, tiles: world.tiles, ..w0 }),
            only_gold_drops(w0, *world),
            tr.len() == i + 1 && tr[0] == w1 && tr[i as int] == *world,
            forall|k: int| 0 <= k < i ==> guard_fall(#[trigger] tr[k], tr[k + 1], k),
            events@ == old(events)@ + (if fall_starts(w0) { seq![GameEvent::PlayerFallStart] } else { Seq::empty() }),
        decreases n - i,
    {
        let ghost before = *world;
        guard_gravity(world, i);
        proof {
            tr = tr.push(*world);
            assert forall|x: int, y: int| in_bounds(w0.width as int, w0.height as int, x, y) implies #[trigger] world.tile_spec(x, y)
                == w0.tile_spec(x, y) || (w0.tile_spec(x, y) == Tile::Empty && world.tile_spec(x, y) == Tile::Gold) by {
                assert(before.tile_spec(x, y) == w0.tile_spec(x, y) || (w0.tile_spec(x, y) == Tile::Empty && before.tile_spec(x, y)
                    == Tile::Gold));
            }
        }
        i = i + 1;
    }
    assert(guards_fall(w1, *world, n as int));
}

/// Gravity for one guard.
#[verifier::rlimit(40)]
fn guard_gravity(world: &mut WorldState, i: usize)
    requires
        old(world).wf(),
        i < old(world).guards@.len(),
    ensures
        final(world).wf(),
        guard_fall(*old(world), *final(world), i as int),
        final(world).guards@.len() == old(world).guards@.len(),
        *final(world) == (WorldState { guards: final(world).guards, tiles: final(world).tiles, ..*old(world) }),
        only_gold_drops(*old(world), *final(world)),
{
    let ghost before = *world;
    let g = world.guards[i];
    assert(before.guards@.update(i as int, g) =~= before.guards@);
    if g.state == ActorState::Dead || g.state == ActorState::InHole {
        return;
    }
    let here = world.terrain_cell(g.x, g.y);
    if here.hole {
        if !physics::has_trapped_guard_except(world.guards.as_slice(), g.x, g.y, i) {
            let drop_y = if g.y > 0 { Some(g.y - 1) } else { None };
            guard_enter_hole(world, i, g.x, drop_y);
            assert(enters_hole(before, *world, i as int, g, g.x, drop_y));
        } else {
            if g.state == ActorState::Falling {
                world.guards[i].state = ActorState::OnGround;
            }
            assert(guard_set(before, *world, i as int, landed(g)));
        }
    } else if world.has_support_for_guard(g.x, g.y, i) {
        if g.state == ActorState::Falling {
            world.guards[i].state = ActorState::OnGround;
        }
        assert(guard_set(before, *world, i as int, landed(g)));
    } else if g.y >= world.height || g.y + 1 >= world.height {
        world.guards[i].state = ActorState::OnGround;
        assert(guard_set(before, *world, i as int, Guard { state: ActorState::OnGround, ..g }));
    } else {
        let ny = g.y + 1;
        let below = world.terrain_cell(g.x, ny);
        if !below.passable {
            world.guards[i].state = ActorState::OnGround;
            assert(guard_set(before, *world, i as int, Guard { state: ActorState::OnGround, ..g }));
        } else if below.hole && !physics::has_trapped_guard(world.guards.as_slice(), g.x, ny) {
            world.guards[i].y = ny;
            let ghost m = *world;
            assert(m.guards@ == before.guards@.update(i as int, Guard { y: ny, ..g }));
            guard_enter_hole(world, i, g.x, Some(g.y));
            assert(world.guards@ =~= before.guards@.update(i as int, world.guards@[i as int]));
            assert(droppable(m, g.x as int, g.y as int) == droppable(before, g.x as int, g.y as int));
            assert(enters_hole(before, *world, i as int, Guard { y: ny, ..g }, g.x, Some(g.y)));
        } else if below.hole {
            world.guards[i].state = ActorState::OnGround;
            assert(guard_set(before, *world, i as int, Guard { state: ActorState::OnGround, ..g }));
        } else {
            let mut g2 = g;
            g2.y = ny;
            g2.state = ActorState::Falling;
            world.guards.set(i, g2);
            assert(guard_set(before, *world, i as int, Guard { y: ny, state: ActorState::Falling, ..g }));
        }
    }

    proof {
        assert forall|x: int, y: int| in_bounds(before.width as int, before.height as int, x, y) implies #[trigger] world.tile_spec(x, y)
            == before.tile_spec(x, y) || (before.tile_spec(x, y) == Tile::Empty && world.tile_spec(x, y) == Tile::Gold) by {
        }
    }
}

/// Catch guards standing on an active hole cell that are not trapped yet.
fn resolve_hole_traps(world: &mut WorldState, events: &mut Vec<GameEvent>)
    requires
        old(world).wf(),
    ensures
        hole_traps_done(*old(world), *final(world), old(events)@, final(events)@),
{
    let ghost w0 = *world;
    let n = world.guards.len();
    let mut i: usize = 0;
    while i < n
        invariant
            i <= n,
            n == world.guards@.len(),
            w0.wf(),
            world.wf(),
            *world == (WorldState { guards: world.guards, tiles: world.tiles, ..w0 }),
            world.hole_grid == w0.hole_grid,
            only_gold_drops(w0, *world),
            forall|k: int| i <= k < n ==> #[trigger] world.guards@[k] == w0.guards@[k],
            forall|k: int|
                0 <= k < n ==> {
                    let (g, b) = (#[trigger] world.guards@[k], w0.guards@[k]);
                    &&& g.id == b.id && g.x == b.x && g.y == b.y && g.spawn_x == b.spawn_x && g.spawn_y == b.spawn_y
                    &&& !physics::is_active_guard(b) ==> g == b
                    &&& (g.state == ActorState::InHole && b.state != ActorState::InHole) ==> g.stuck_timer == w0.speed.trap_escape_ticks
                    &&& (physics::is_active_guard(g) && k < i) ==> (g == b && !(world.terrain_spec(g.x as int, g.y as int).hole
                        && !physics::trapped_at(world.guards@, g.x as int, g.y as int, k)))
                },
        decreases n - i,
    {
        let ghost before = *world;
        let g = world.guards[i];
        if g.state != ActorState::InHole && g.state != ActorState::Dead {
            let here = world.terrain_cell(g.x, g.y);
            if here.hole && !physics::has_trapped_guard_except(world.guards.as_slice(), g.x, g.y, i) {
                events.push(GameEvent::GuardTrapped { id: g.id, x: g.x, y: g.y });
                let drop_y = if g.y > 0 { Some(g.y - 1) } else { None };
                guard_enter_hole(world, i, g.x, drop_y);
            }
        }
        proof {
            assert forall|x: int, y: int| in_bounds(w0.width as int, w0.height as int, x, y) implies #[trigger] world.tile_spec(x, y)
                == w0.tile_spec(x, y) || (w0.tile_spec(x, y) == Tile::Empty && world.tile_spec(x, y) == Tile::Gold) by {
                assert(before.tile_spec(x, y) == w0.tile_spec(x, y) || (w0.tile_spec(x, y) == Tile::Empty && before.tile_spec(x, y)
                    == Tile::Gold));
            }
            assert forall|k: int| 0 <= k < n implies {
                let (gg, b) = (#[trigger] world.guards@[k], w0.guards@[k]);
                (physics::is_active_guard(gg) && k < i + 1) ==> (gg == b && !(world.terrain_spec(gg.x as int, gg.y as int).hole
                    && !physics::trapped_at(world.guards@, gg.x as int, gg.y as int, k)))
            } by {
                let gg = world.guards@[k];
                if physics::is_active_guard(gg) && k < i + 1 && world.terrain_spec(gg.x as int, gg.y as int).hole {
                    if k < i {
                        let j = choose|j: int| 0 <= j < n && j != k && physics::guard_at(#[trigger] before.guards@[j], gg.x as int, gg.y as int) && physics::is_trapped(before.guards@[j]);
                        assert(physics::guard_at(world.guards@[j], gg.x as int, gg.y as int) && physics::is_trapped(world.guards@[j]));
                    } else {
                        let j = choose|j: int| 0 <= j < n && j != k && physics::guard_at(#[trigger] before.guards@[j], gg.x as int, gg.y as int) && physics::is_trapped(before.guards@[j]);
                        assert(physics::guard_at(world.guards@[j], gg.x as int, gg.y as int) && physics::is_trapped(world.guards@[j]));
                    }
                }
            }
        }
        i = i + 1;
    }
}

/// Some cell of column x strictly below row y is climbable.
pub open spec fn climb_below(w: WorldState, x: int, y: int) -> bool {
    exists|yy: int| y < yy < w.height && (#[trigger] w.tile_spec(x, yy)).is_climbable()
}

/// Some cell of column x at or above row y is climbable.
pub open spec fn climb_at_or_above(w: WorldState, x: int, y: int) -> bool {
    exists|yy: int| 0 <= yy <= y && (#[trigger] w.tile_spec(x, yy)).is_climbable()
}

/// (x, y) lies above the topmost climbable cell of its column.
pub open spec fn above_top_ladder(w: WorldState, x: int, y: int) -> bool {
    climb_below(w, x, y) && !climb_at_or_above(w, x, y)
}

/// `b`'s tiles are `a`'s with every empty cell satisfying `stamp` turned into
/// a hidden ladder.
pub open spec fn stamped(a: WorldState, b: WorldState, stamp: spec_fn(int, int) -> bool) -> bool {
    forall|x: int, y: int|
        in_bounds(a.width as int, a.height as int, x, y) ==> #[trigger] b.tile_spec(x, y) == (if a.tile_spec(x, y) == Tile::Empty
            && stamp(x, y) {
            Tile::HiddenLadder
        } else {
            a.tile_spec(x, y)
        })
}

/// Tiles of `b` are those of `a` except cells that went from empty to
/// hidden ladder.
pub open spec fn only_ladder_stamps(a: WorldState, b: WorldState) -> bool {
    forall|x: int, y: int|
        in_bounds(a.width as int, a.height as int, x, y) ==> #[trigger] b.tile_spec(x, y) == a.tile_spec(x, y) || (a.tile_spec(x, y)
            == Tile::Empty && b.tile_spec(x, y) == Tile::HiddenLadder)
}

/// Some listed position is (x, y).
pub open spec fn position_listed(ps: Seq<(usize, usize)>, x: int, y: int) -> bool {
    exists|k: int| 0 <= k < ps.len() && (#[trigger] ps[k]).0 == x && ps[k].1 == y
}

/// Extend column x with hidden ladder from row 0 down to its topmost
/// climbable cell. Returns whether any cell was stamped.
fn stamp_column(world: &mut WorldState, x: usize) -> (placed: bool)
    requires
        old(world).wf(),
    ensures
        final(world).wf(),
        *final(world) == (WorldState { tiles: final(world).tiles, ..*old(world) }),
        stamped(*old(world), *final(world), |xx: int, yy: int| xx == x && above_top_ladder(*old(world), xx, yy)),
        placed == exists|yy: int|
            0 <= yy < old(world).height && x < old(world).width && #[trigger] old(world).tile_spec(x as int, yy) == Tile::Empty
                && above_top_ladder(*old(world), x as int, yy),
{
    let ghost w0 = *world;
    let h = world.height;
    let mut top: usize = 0;
    while top < h && !world.terrain_at(x, top).is_climbable()
        invariant
            world.tiles_wf(),
            top <= h,
            h == world.height,
            forall|yy: int| 0 <= yy < top ==> !(#[trigger] world.tile_spec(x as int, yy)).is_climbable(),
        decreases h - top,
    {
        top = top + 1;
    }
    if top >= h {
        assert forall|xx: int, yy: int| in_bounds(w0.width as int, w0.height as int, xx, yy) implies !(xx == x && above_top_ladder(w0, xx, yy)) by {
            if xx == x && climb_below(w0, xx, yy) {
                let y2 = choose|y2: int| yy < y2 < w0.height && (#[trigger] w0.tile_spec(xx, y2)).is_climbable();
                assert(!w0.tile_spec(x as int, y2).is_climbable());
            }
        }
        return false;
    }
    assert forall|yy: int| 0 <= yy < h implies above_top_ladder(w0, x as int, yy) == (yy < top) by {
        if yy < top {
            assert(w0.tile_spec(x as int, top as int).is_climbable());
        } else {
            assert(w0.tile_spec(x as int, top as int).is_climbable());
        }
    }
    let mut placed = false;
    let mut y: usize = 0;
    while y < top
        invariant
            w0.wf(),
            world.wf(),
            top < h,
            h == w0.height,
            y <= top,
            *world == (WorldState { tiles: world.tiles, ..w0 }),
            forall|yy: int| 0 <= yy < h ==> above_top_ladder(w0, x as int, yy) == (yy < top),
            forall|xx: int, yy: int|
                in_bounds(w0.width as int, w0.height as int, xx, yy) ==> #[trigger] world.tile_spec(xx, yy) == (if w0.tile_spec(xx, yy)
                    == Tile::Empty && xx == x && yy < y {
                    Tile::HiddenLadder
                } else {
                    w0.tile_spec(xx, yy)
                }),
            placed == exists|yy: int| 0 <= yy < y && x < w0.width && #[trigger] w0.tile_spec(x as int, yy) == Tile::Empty,
        decreases top - y,
    {
        let ghost before = *world;
        if world.terrain_at(x, y) == Tile::Empty {
            world.set_tile(x, y, Tile::HiddenLadder);
            placed = true;
        }
        proof {
            assert forall|xx: int, yy: int| in_bounds(w0.width as int, w0.height as int, xx, yy) implies #[trigger] world.tile_spec(xx, yy)
                == (if w0.tile_spec(xx, yy) == Tile::Empty && xx == x && yy < y + 1 {
                Tile::HiddenLadder
            } else {
                w0.tile_spec(xx, yy)
            }) by {
                assert(before.tile_spec(xx, yy) == world.tile_spec(xx, yy) || (xx == x && yy == y));
            }
            if x < w0.width && w0.tile_spec(x as int, y as int) == Tile::Empty {
                assert(placed);
            }
        }
        y = y + 1;
    }
    placed
}

/// Open the exit: explicit hidden-ladder positions if the level lists any;
/// otherwise extend ladders to the top in the marked columns, or in every
/// column when none are marked or the marked ones stamp nothing.
fn enable_exit(world: &mut WorldState)
    requires
        old(world).wf(),
    ensures
        exit_opened(*old(world), *final(world)),
{
    let ghost wstart = *world;
    world.exit_enabled = true;
    let ghost w0 = *world;
    let np = world.hidden_ladder_positions.len();
    if np > 0 {
        let mut k: usize = 0;
        while k < np
            invariant
                w0.wf(),
                world.wf(),
                k <= np,
                np == w0.hidden_ladder_positions@.len(),
                *world == (WorldState { tiles: world.tiles, ..w0 }),
                forall|xx: int, yy: int|
                    in_bounds(w0.width as int, w0.height as int, xx, yy) ==> #[trigger] world.tile_spec(xx, yy) == (if w0.tile_spec(xx, yy)
                        == Tile::Empty && position_listed(w0.hidden_ladder_positions@.subrange(0, k as int), xx, yy) {
                        Tile::HiddenLadder
                    } else {
                        w0.tile_spec(xx, yy)
                    }),
            decreases np - k,
        {
            let ghost before = *world;
            let (x, y) = world.hidden_ladder_positions[k];
            if y < world.height && x < world.width && world.terrain_at(x, y) == Tile::Empty {
                world.set_tile(x, y, Tile::HiddenLadder);
            }
            proof {
                let ps = w0.hidden_ladder_positions@;
                assert forall|xx: int, yy: int| in_bounds(w0.width as int, w0.height as int, xx, yy) implies #[trigger] world.tile_spec(xx, yy)
                    == (if w0.tile_spec(xx, yy) == Tile::Empty && position_listed(ps.subrange(0, k + 1), xx, yy) {
                    Tile::HiddenLadder
                } else {
                    w0.tile_spec(xx, yy)
                }) by {
                    assert(ps.subrange(0, k + 1)[k as int] == ps[k as int]);
                    if position_listed(ps.subrange(0, k as int), xx, yy) {
                        let j = choose|j: int| 0 <= j < k && (#[trigger] ps.subrange(0, k as int)[j]).0 == xx && ps.subrange(0, k as int)[j].1 == yy;
                        assert(ps.subrange(0, k + 1)[j] == ps.subrange(0, k as int)[j]);
                    }
                    if position_listed(ps.subrange(0, k + 1), xx, yy) && !(xx == x && yy == y) {
                        let j = choose|j: int| 0 <= j < k + 1 && (#[trigger] ps.subrange(0, k + 1)[j]).0 == xx && ps.subrange(0, k + 1)[j].1 == yy;
                        assert(ps.subrange(0, k as int)[j] == ps.subrange(0, k + 1)[j]);
                    }
                }
            }
            k = k + 1;
        }
        assert(w0.hidden_ladder_positions@.subrange(0, np as int) == w0.hidden_ladder_positions@);
        return;
    }
    let nc = world.exit_columns.len();
    if nc > 0 {
        let mut placed_any = false;
        let mut k: usize = 0;
        while k < nc
            invariant
                world.wf(),
                w0.wf(),
                k <= nc,
                nc == w0.exit_columns@.len(),
                *world == (WorldState { tiles: world.tiles, ..w0 }),
                only_ladder_stamps(w0, *world),
                stamped(w0, *world, |xx: int, yy: int| col_listed(w0.exit_columns@.subrange(0, k as int), xx) && above_top_ladder(w0, xx, yy)),
                placed_any == marked_places(w0, w0.exit_columns@.subrange(0, k as int)),
            decreases nc - k,
        {
            let ghost before = *world;
            let x = world.exit_columns[k];
            let ghost pre = w0.exit_columns@.subrange(0, k as int);
            let ghost cur = w0.exit_columns@.subrange(0, k + 1);
            assert(cur == pre.push(x));
            proof {
                lemma_col_listed_push(pre, x);
                if col_listed(pre, x as int) {
                    assert forall|y: int| 0 <= y < w0.height implies #[trigger] before.tile_spec(x as int, y) == (if w0.tile_spec(x as int, y) == Tile::Empty
                        && above_top_ladder(w0, x as int, y) {
                        Tile::HiddenLadder
                    } else {
                        w0.tile_spec(x as int, y)
                    }) by {
                        if x < w0.width {
                            assert(in_bounds(w0.width as int, w0.height as int, x as int, y));
                        }
                    }
                    lemma_restamp_noop(w0, before, x as int);
                } else {
                    assert forall|y: int| 0 <= y < w0.height implies #[trigger] before.tile_spec(x as int, y) == w0.tile_spec(x as int, y) by {
                        if x < w0.width {
                            assert(in_bounds(w0.width as int, w0.height as int, x as int, y));
                        }
                    }
                    lemma_column_top(before, w0, x as int);
                }
            }
            let placed_here = stamp_column(world, x);
            if placed_here {
                placed_any = true;
            }
            proof {
                assert forall|xx: int, yy: int| in_bounds(w0.width as int, w0.height as int, xx, yy) implies #[trigger] world.tile_spec(xx, yy)
                    == (if w0.tile_spec(xx, yy) == Tile::Empty && (col_listed(cur, xx) && above_top_ladder(w0, xx, yy)) {
                    Tile::HiddenLadder
                } else {
                    w0.tile_spec(xx, yy)
                }) by {
                    assert(before.tile_spec(xx, yy) == (if w0.tile_spec(xx, yy) == Tile::Empty && (col_listed(pre, xx) && above_top_ladder(w0, xx, yy)) {
                        Tile::HiddenLadder
                    } else {
                        w0.tile_spec(xx, yy)
                    }));
                    if xx == x && col_listed(pre, x as int) {
                        assert(!(before.tile_spec(xx, yy) == Tile::Empty && above_top_ladder(before, xx, yy)));
                    }
                }
                assert(stamped(w0, *world, |xx: int, yy: int| col_listed(cur, xx) && above_top_ladder(w0, xx, yy)));
                if placed_here {
                    let yy = choose|yy: int|
                        0 <= yy < before.height && x < before.width && #[trigger] before.tile_spec(x as int, yy) == Tile::Empty
                            && above_top_ladder(before, x as int, yy);
                    assert(cur[k as int] as int == x as int);
                    assert(col_listed(cur, x as int) && in_bounds(w0.width as int, w0.height as int, x as int, yy) && w0.tile_spec(x as int, yy) == Tile::Empty
                        && above_top_ladder(w0, x as int, yy) && cur[k as int] == x);
                    assert(marked_places(w0, cur));
                }
                if marked_places(w0, cur) && !marked_places(w0, pre) {
                    let (xx, yy) = choose|xx: int, yy: int|
                        #![trigger col_listed(cur, xx), w0.tile_spec(xx, yy)]
                        col_listed(cur, xx) && in_bounds(w0.width as int, w0.height as int, xx, yy) && w0.tile_spec(xx, yy) == Tile::Empty
                            && above_top_ladder(w0, xx, yy);
                    if xx != x {
                        let i = choose|i: int| 0 <= i < cur.len() && cur[i] as int == xx;
                        assert(i < pre.len() && pre[i] as int == xx);
                        assert(col_listed(pre, xx));
                    }
                    assert(xx == x);
                    assert(!col_listed(pre, xx));
                    assert(before.tile_spec(x as int, yy) == Tile::Empty);
                }
                if marked_places(w0, pre) {
                    let (xx, yy) = choose|xx: int, yy: int|
                        #![trigger col_listed(pre, xx), w0.tile_spec(xx, yy)]
                        col_listed(pre, xx) && in_bounds(w0.width as int, w0.height as int, xx, yy) && w0.tile_spec(xx, yy) == Tile::Empty
                            && above_top_ladder(w0, xx, yy);
                    let i = choose|i: int| 0 <= i < pre.len() && pre[i] as int == xx;
                    assert(cur[i] as int == xx);
                    assert(col_listed(cur, xx));
                }
                assert forall|xx: int, yy: int| in_bounds(w0.width as int, w0.height as int, xx, yy) implies #[trigger] world.tile_spec(xx, yy)
                    == w0.tile_spec(xx, yy) || (w0.tile_spec(xx, yy) == Tile::Empty && world.tile_spec(xx, yy) == Tile::HiddenLadder) by {
                    assert(before.tile_spec(xx, yy) == w0.tile_spec(xx, yy) || (w0.tile_spec(xx, yy) == Tile::Empty && before.tile_spec(xx, yy)
                        == Tile::HiddenLadder));
                }
            }
            k = k + 1;
        }
        assert(w0.exit_columns@.subrange(0, nc as int) == w0.exit_columns@);
        if placed_any {
            proof {
                lemma_same_tiles_top(w0, wstart);
                let (xx, yy) = choose|xx: int, yy: int|
                    #![trigger col_listed(w0.exit_columns@, xx), w0.tile_spec(xx, yy)]
                    col_listed(w0.exit_columns@, xx) && in_bounds(w0.width as int, w0.height as int, xx, yy) && w0.tile_spec(xx, yy) == Tile::Empty
                        && above_top_ladder(w0, xx, yy);
                assert(above_top_ladder(wstart, xx, yy) && wstart.tile_spec(xx, yy) == Tile::Empty);
                assert(marked_places(wstart, wstart.exit_columns@));
                assert forall|xx: int, yy: int| in_bounds(w0.width as int, w0.height as int, xx, yy) implies #[trigger] world.tile_spec(xx, yy)
                    == (if wstart.tile_spec(xx, yy) == Tile::Empty && (col_listed(wstart.exit_columns@, xx) && above_top_ladder(wstart, xx, yy)) {
                    Tile::HiddenLadder
                } else {
                    wstart.tile_spec(xx, yy)
                }) by {
                    assert(above_top_ladder(w0, xx, yy) == above_top_ladder(wstart, xx, yy));
                }
            }
            return;
        }
        proof {
            lemma_same_tiles_top(w0, wstart);
            if marked_places(wstart, wstart.exit_columns@) {
                let (xx, yy) = choose|xx: int, yy: int|
                    #![trigger col_listed(wstart.exit_columns@, xx), wstart.tile_spec(xx, yy)]
                    col_listed(wstart.exit_columns@, xx) && in_bounds(wstart.width as int, wstart.height as int, xx, yy) && wstart.tile_spec(xx, yy)
                        == Tile::Empty && above_top_ladder(wstart, xx, yy);
                assert(above_top_ladder(w0, xx, yy) && w0.tile_spec(xx, yy) == Tile::Empty);
                assert(marked_places(w0, w0.exit_columns@));
            }
            assert forall|xx: int, yy: int| in_bounds(w0.width as int, w0.height as int, xx, yy) implies #[trigger] world.tile_spec(xx, yy)
                == w0.tile_spec(xx, yy) by {
                if w0.tile_spec(xx, yy) == Tile::Empty && col_listed(w0.exit_columns@, xx) && above_top_ladder(w0, xx, yy) {
                    assert(marked_places(w0, w0.exit_columns@));
                }
            }
        }
    }
    proof {
        lemma_same_tiles_top(w0, wstart);
        assert forall|xx: int, yy: int| in_bounds(w0.width as int, w0.height as int, xx, yy) implies #[trigger] world.tile_spec(xx, yy)
            == w0.tile_spec(xx, yy) by {
        }
        lemma_same_specs_top(*world, w0);
    }
    let w = world.width;
    let mut x: usize = 0;
    let ghost w1 = *world;
    while x < w
        invariant
            w0.wf(),
            only_ladder_stamps(w0, w1),
            w1.wf(),
            world.wf(),
            x <= w,
            w == w1.width,
            *world == (WorldState { tiles: world.tiles, ..w1 }),
            forall|xx: int, yy: int|
                in_bounds(w1.width as int, w1.height as int, xx, yy) ==> #[trigger] world.tile_spec(xx, yy) == (if w1.tile_spec(xx, yy)
                    == Tile::Empty && xx < x && above_top_ladder(w1, xx, yy) {
                    Tile::HiddenLadder
                } else {
                    w1.tile_spec(xx, yy)
                }),
        decreases w - x,
    {
        let ghost before = *world;
        proof {
            assert forall|yy: int| 0 <= yy < w1.height implies above_top_ladder(before, x as int, yy) == above_top_ladder(w1, x as int, yy) by {
                assert forall|y2: int| 0 <= y2 < w1.height implies #[trigger] before.tile_spec(x as int, y2) == w1.tile_spec(x as int, y2) by {
                }
                if climb_below(w1, x as int, yy) {
                    let y2 = choose|y2: int| yy < y2 < w1.height && (#[trigger] w1.tile_spec(x as int, y2)).is_climbable();
                    assert(before.tile_spec(x as int, y2) == w1.tile_spec(x as int, y2));
                }
                if climb_below(before, x as int, yy) {
                    let y2 = choose|y2: int| yy < y2 < w1.height && (#[trigger] before.tile_spec(x as int, y2)).is_climbable();
                    assert(before.tile_spec(x as int, y2) == w1.tile_spec(x as int, y2));
                }
                if climb_at_or_above(w1, x as int, yy) {
                    let y2 = choose|y2: int| 0 <= y2 <= yy && (#[trigger] w1.tile_spec(x as int, y2)).is_climbable();
                    assert(before.tile_spec(x as int, y2) == w1.tile_spec(x as int, y2));
                }
                if climb_at_or_above(before, x as int, yy) {
                    let y2 = choose|y2: int| 0 <= y2 <= yy && (#[trigger] before.tile_spec(x as int, y2)).is_climbable();
                    assert(before.tile_spec(x as int, y2) == w1.tile_spec(x as int, y2));
                }
            }
        }
        stamp_column(world, x);
        proof {
            assert forall|xx: int, yy: int| in_bounds(w1.width as int, w1.height as int, xx, yy) implies #[trigger] world.tile_spec(xx, yy)
                == (if w1.tile_spec(xx, yy) == Tile::Empty && xx < x + 1 && above_top_ladder(w1, xx, yy) {
                Tile::HiddenLadder
            } else {
                w1.tile_spec(xx, yy)
            }) by {
                assert(world.tile_spec(xx, yy) == (if before.tile_spec(xx, yy) == Tile::Empty && xx == x && above_top_ladder(before, xx, yy) {
                    Tile::HiddenLadder
                } else {
                    before.tile_spec(xx, yy)
                }));
            }
        }
        x = x + 1;
    }
    proof {
        lemma_same_specs_top(w1, wstart);
        assert forall|xx: int, yy: int| in_bounds(w0.width as int, w0.height as int, xx, yy) implies #[trigger] world.tile_spec(xx, yy)
            == w0.tile_spec(xx, yy) || (w0.tile_spec(xx, yy) == Tile::Empty && world.tile_spec(xx, yy) == Tile::HiddenLadder) by {
            assert(w1.tile_spec(xx, yy) == w0.tile_spec(xx, yy) || (w0.tile_spec(xx, yy) == Tile::Empty && w1.tile_spec(xx, yy)
                == Tile::HiddenLadder));
        }
    }
}

proof fn lemma_col_listed_push(pre: Seq<usize>, x: usize)
    ensures
        forall|xx: int| #[trigger] col_listed(pre.push(x), xx) == (col_listed(pre, xx) || xx == x),
{
    assert forall|xx: int| #[trigger] col_listed(pre.push(x), xx) == (col_listed(pre, xx) || xx == x) by {
        let c = pre.push(x);
        if col_listed(c, xx) {
            let i = choose|i: int| 0 <= i < c.len() && c[i] as int == xx;
            if i < pre.len() {
                assert(pre[i] == c[i]);
            }
        }
        if col_listed(pre, xx) {
            let i = choose|i: int| 0 <= i < pre.len() && pre[i] as int == xx;
            assert(c[i] == pre[i]);
        }
        if xx == x {
            assert(c[pre.len() as int] == x);
        }
    }
}

/// `x` is one of the listed columns.
pub open spec fn col_listed(cols: Seq<usize>, x: int) -> bool {
    exists|i: int| 0 <= i < cols.len() && cols[i] as int == x
}

/// Some listed column has an empty cell above its topmost climbable cell.
pub open spec fn marked_places(w: WorldState, cols: Seq<usize>) -> bool {
    exists|xx: int, yy: int|
        #![trigger col_listed(cols, xx), w.tile_spec(xx, yy)]
        col_listed(cols, xx) && in_bounds(w.width as int, w.height as int, xx, yy) && w.tile_spec(xx, yy) == Tile::Empty && above_top_ladder(
            w,
            xx,
            yy,
        )
}

proof fn lemma_column_top(a: WorldState, b: WorldState, x: int)
    requires
        a.width == b.width && a.height == b.height,
        forall|y: int| 0 <= y < a.height ==> #[trigger] a.tile_spec(x, y) == b.tile_spec(x, y),
    ensures
        forall|y: int| #[trigger] above_top_ladder(a, x, y) == above_top_ladder(b, x, y),
{
    assert forall|y: int| #[trigger] above_top_ladder(a, x, y) == above_top_ladder(b, x, y) by {
        assert forall|yy: int| #[trigger] a.tile_spec(x, yy) == b.tile_spec(x, yy) by {
            if 0 <= yy < a.height {
            }
        }
        if climb_below(a, x, y) {
            let y2 = choose|y2: int| y < y2 < a.height && (#[trigger] a.tile_spec(x, y2)).is_climbable();
            assert(b.tile_spec(x, y2) == a.tile_spec(x, y2));
        }
        if climb_below(b, x, y) {
            let y2 = choose|y2: int| y < y2 < b.height && (#[trigger] b.tile_spec(x, y2)).is_climbable();
            assert(b.tile_spec(x, y2) == a.tile_spec(x, y2));
        }
        if climb_at_or_above(a, x, y) {
            let y2 = choose|y2: int| 0 <= y2 <= y && (#[trigger] a.tile_spec(x, y2)).is_climbable();
            assert(b.tile_spec(x, y2) == a.tile_spec(x, y2));
        }
        if climb_at_or_above(b, x, y) {
            let y2 = choose|y2: int| 0 <= y2 <= y && (#[trigger] b.tile_spec(x, y2)).is_climbable();
            assert(b.tile_spec(x, y2) == a.tile_spec(x, y2));
        }
    }
}

proof fn lemma_same_specs_top(a: WorldState, b: WorldState)
    requires
        a.width == b.width && a.height == b.height,
        forall|x: int, y: int| in_bounds(a.width as int, a.height as int, x, y) ==> #[trigger] a.tile_spec(x, y) == b.tile_spec(x, y),
    ensures
        forall|x: int, y: int| #[trigger] above_top_ladder(a, x, y) == above_top_ladder(b, x, y),
{
    assert forall|x: int, y: int| #[trigger] above_top_ladder(a, x, y) == above_top_ladder(b, x, y) by {
        assert forall|yy: int| 0 <= yy < a.height implies #[trigger] a.tile_spec(x, yy) == b.tile_spec(x, yy) by {
            if !(0 <= x < a.width) {
            } else {
                assert(in_bounds(a.width as int, a.height as int, x, yy));
            }
        }
        lemma_column_top(a, b, x);
    }
}

/// Stamping a column a second time changes nothing: every empty cell above
/// its topmost climbable cell is already a hidden ladder.
proof fn lemma_restamp_noop(w0: WorldState, w: WorldState, x: int)
    requires
        w.width == w0.width && w.height == w0.height,
        forall|y: int|
            0 <= y < w0.height ==> #[trigger] w.tile_spec(x, y) == (if w0.tile_spec(x, y) == Tile::Empty && above_top_ladder(w0, x, y) {
                Tile::HiddenLadder
            } else {
                w0.tile_spec(x, y)
            }),
    ensures
        forall|y: int| 0 <= y < w.height ==> !(#[trigger] w.tile_spec(x, y) == Tile::Empty && above_top_ladder(w, x, y)),
{
    assert forall|y: int| 0 <= y < w.height implies !(#[trigger] w.tile_spec(x, y) == Tile::Empty && above_top_ladder(w, x, y)) by {
        if w.tile_spec(x, y) == Tile::Empty && above_top_ladder(w, x, y) {
            assert(w0.tile_spec(x, y) == Tile::Empty && !above_top_ladder(w0, x, y));
            let y2 = choose|y2: int| y < y2 < w.height && (#[trigger] w.tile_spec(x, y2)).is_climbable();
            if w0.tile_spec(x, y2).is_climbable() {
                assert(climb_below(w0, x, y));
            } else {
                assert(above_top_ladder(w0, x, y2));
                let y3 = choose|y3: int| y2 < y3 < w0.height && (#[trigger] w0.tile_spec(x, y3)).is_climbable();
                assert(w0.tile_spec(x, y3).is_climbable());
                assert(climb_below(w0, x, y));
            }
            let y4 = choose|y4: int| 0 <= y4 <= y && (#[trigger] w0.tile_spec(x, y4)).is_climbable();
            assert(w.tile_spec(x, y4) == w0.tile_spec(x, y4));
            assert(climb_at_or_above(w, x, y));
        }
    }
}

proof fn lemma_same_tiles_top(a: WorldState, b: WorldState)
    requires
        a.tiles == b.tiles,
        a.width == b.width,
        a.height == b.height,
    ensures
        forall|x: int, y: int| #[trigger] above_top_ladder(a, x, y) == above_top_ladder(b, x, y),
{
    assert forall|x: int, y: int| #[trigger] above_top_ladder(a, x, y) == above_top_ladder(b, x, y) by {
        assert forall|yy: int| #[trigger] a.tile_spec(x, yy) == b.tile_spec(x, yy) by {}
        if climb_below(a, x, y) {
            let y2 = choose|y2: int| y < y2 < a.height && (#[trigger] a.tile_spec(x, y2)).is_climbable();
            assert(b.tile_spec(x, y2) == a.tile_spec(x, y2));
        }
        if climb_below(b, x, y) {
            let y2 = choose|y2: int| y < y2 < b.height && (#[trigger] b.tile_spec(x, y2)).is_climbable();
            assert(b.tile_spec(x, y2) == a.tile_spec(x, y2));
        }
        if climb_at_or_above(a, x, y) {
            let y2 = choose|y2: int| 0 <= y2 <= y && (#[trigger] a.tile_spec(x, y2)).is_climbable();
            assert(b.tile_spec(x, y2) == a.tile_spec(x, y2));
        }
        if climb_at_or_above(b, x, y) {
            let y2 = choose|y2: int| 0 <= y2 <= y && (#[trigger] b.tile_spec(x, y2)).is_climbable();
            assert(b.tile_spec(x, y2) == a.tile_spec(x, y2));
        }
    }
}

/// `n + k`, held at `u32::MAX`.
pub open spec fn sat_add(n: u32, k: u32) -> u32 {
    if n + k > u32::MAX { u32::MAX } else { (n + k) as u32 }
}

/// The contract of `enable_exit`, from `a` to `b`.
pub open spec fn exit_opened(a: WorldState, b: WorldState) -> bool {
    &&& (b.wf())
    &&& (b.exit_enabled)
    &&& (b == (WorldState { tiles: b.tiles, exit_enabled: true, ..a }))
    &&& (only_ladder_stamps(a, b))
    &&& (a.hidden_ladder_positions@.len() > 0 ==> stamped(
            a,
            b,
            |x: int, y: int| position_listed(a.hidden_ladder_positions@, x, y),
        ))
    &&& (a.hidden_ladder_positions@.len() == 0 && a.exit_columns@.len() > 0 && marked_places(
            a,
            a.exit_columns@,
        ) ==> stamped(
            a,
            b,
            |x: int, y: int| col_listed(a.exit_columns@, x) && above_top_ladder(a, x, y),
        ))
    &&& (a.hidden_ladder_positions@.len() == 0 && !(a.exit_columns@.len() > 0 && marked_places(
            a,
            a.exit_columns@,
        )) ==> stamped(a, b, |x: int, y: int| above_top_ladder(a, x, y)))
}

/// The player takes the gold at its cell: the cell empties, the counter
/// drops (not below zero) and the score rises by 100.
pub open spec fn gold_taken(a: WorldState, c: WorldState) -> bool {
    &&& c == (WorldState {
        tiles: c.tiles,
        gold_remaining: if a.gold_remaining > 0 { (a.gold_remaining - 1) as usize } else { 0 },
        score: sat_add(a.score, 100),
        ..a
    })
    &&& c.tiles_wf()
    &&& grid_set_at(a, c, a.player.x as int, a.player.y as int, Tile::Empty)
}

/// The player's gold pickup: `GoldPicked`; on the last piece also
/// `AllGoldCollected`, the exit opened as `enable_exit` does and the banner.
pub open spec fn player_pickup(a: WorldState, b: WorldState, e0: Seq<GameEvent>, e1: Seq<GameEvent>) -> bool {
    let picked = GameEvent::GoldPicked { x: a.player.x, y: a.player.y };
    if a.tile_spec(a.player.x as int, a.player.y as int) != Tile::Gold {
        b == a && e1 == e0
    } else {
        exists|m: Seq<WorldState>|
            #![trigger m.len()]
            m.len() == 2 && gold_taken(a, m[0]) && (m[0].gold_remaining == 0 ==> exit_opened(m[0], m[1]) && b == (WorldState {
                message: b.message,
                message_timer: 80,
                ..m[1]
            }) && b.message@ == "All tokens mined! Escape to the top!"@ && e1 == e0.push(picked).push(GameEvent::AllGoldCollected)) && (
            m[0].gold_remaining != 0 ==> b == m[0] && e1 == e0.push(picked))
    }
}

/// Guard `i` picks up gold: a living untrapped guard without gold standing
/// on gold takes it (cell emptied, carrying, carry timer 0).
pub open spec fn guard_pickup(a: WorldState, b: WorldState, i: int) -> bool {
    let g = a.guards@[i];
    if physics::is_active_guard(g) && !g.carry_gold && a.tile_spec(g.x as int, g.y as int) == Tile::Gold {
        &&& b.guards@ == a.guards@.update(i, Guard { carry_gold: true, carry_gold_timer: 0, ..g })
        &&& b == (WorldState { guards: b.guards, tiles: b.tiles, ..a })
        &&& b.tiles_wf()
        &&& grid_set_at(a, b, g.x as int, g.y as int, Tile::Empty)
    } else {
        b == a
    }
}

/// `guard_pickup` for guards `0..n` in index order.
pub open spec fn guards_pickup(a: WorldState, b: WorldState, n: int) -> bool {
    exists|tr: Seq<WorldState>|
        #![trigger tr.len()]
        tr.len() == n + 1 && tr[0] == a && tr[n] == b && forall|k: int| 0 <= k < n ==> guard_pickup(#[trigger] tr[k], tr[k + 1], k)
}

fn guard_pickup_exec(world: &mut WorldState, i: usize)
    requires
        old(world).wf(),
        i < old(world).guards@.len(),
    ensures
        final(world).wf(),
        guard_pickup(*old(world), *final(world), i as int),
        *final(world) == (WorldState { guards: final(world).guards, tiles: final(world).tiles, ..*old(world) }),
        final(world).guards@.len() == old(world).guards@.len(),
        forall|k: int| 0 <= k < old(world).guards@.len() ==> {
            let (g, o) = (#[trigger] final(world).guards@[k], old(world).guards@[k]);
            g.x == o.x && g.y == o.y && g.state == o.state && g.id == o.id && (o.carry_gold ==> g.carry_gold)
        },
        forall|x: int, y: int|
            in_bounds(old(world).width as int, old(world).height as int, x, y) ==> #[trigger] final(world).tile_spec(x, y) == old(world).tile_spec(x, y)
                || (old(world).tile_spec(x, y) == Tile::Gold && final(world).tile_spec(x, y) == Tile::Empty),
{
    let g = world.guards[i];
    if g.state != ActorState::Dead && g.state != ActorState::InHole && !g.carry_gold {
        if world.terrain_at(g.x, g.y) == Tile::Gold {
            world.set_tile(g.x, g.y, Tile::Empty);
            let mut g2 = g;
            g2.carry_gold = true;
            g2.carry_gold_timer = 0;
            world.guards.set(i, g2);
        }
    }
}

/// Gold pickup: the player takes gold from its cell (score and counter,
/// exit opened on the last piece); each untrapped living guard without gold
/// takes gold from its cell.
#[verifier::rlimit(80)]
fn resolve_gold_pickup(world: &mut WorldState, events: &mut Vec<GameEvent>)
    requires
        old(world).wf(),
    ensures
        pickup_done(*old(world), *final(world), old(events)@, final(events)@),
{
    let ghost w0 = *world;
    let ghost e0 = events@;
    let px = world.player.x;
    let py = world.player.y;
    let ghost mut mw: Seq<WorldState> = seq![w0, w0];
    if world.terrain_at(px, py) == Tile::Gold {
        world.set_tile(px, py, Tile::Empty);
        if world.gold_remaining > 0 {
            world.gold_remaining = world.gold_remaining - 1;
        }
        world.score = world.score.saturating_add(100);
        let ghost c = *world;
        proof {
            mw = seq![c, c];
        }
        events.push(GameEvent::GoldPicked { x: px, y: py });
        assert(world.tile_spec(px as int, py as int) == Tile::Empty);
        if world.gold_remaining == 0 {
            events.push(GameEvent::AllGoldCollected);
            let ghost before = *world;
            enable_exit(world);
            proof {
                mw = seq![c, *world];
            }
            assert(world.tile_spec(px as int, py as int) == before.tile_spec(px as int, py as int) || world.tile_spec(px as int, py as int)
                == Tile::HiddenLadder);
            world.set_message("All tokens mined! Escape to the top!", 80);
        }
    }
    let ghost w1 = *world;
    let ghost ev1 = events@;
    assert(player_pickup(w0, w1, e0, ev1)) by {
        if w0.tile_spec(px as int, py as int) == Tile::Gold {
            assert(mw.len() == 2 && gold_taken(w0, mw[0]));
        }
    }
    let ghost mut tr: Seq<WorldState> = seq![w1];
    let n = world.guards.len();
    let mut i: usize = 0;
    while i < n
        invariant
            i <= n,
            n == world.guards@.len(),
            w1.wf(),
            world.wf(),
            world.player == w1.player && world.holes == w1.holes && world.hole_grid == w1.hole_grid && world.digs == w1.digs,
            world.width == w1.width && world.height == w1.height && world.base_tiles == w1.base_tiles && world.phase == w1.phase,
            world.speed == w1.speed && world.tick == w1.tick && world.score == w1.score && world.gold_remaining == w1.gold_remaining,
            world.exit_enabled == w1.exit_enabled,
            events@ == ev1,
            world.message == w1.message && world.message_timer == w1.message_timer,
            forall|k: int| 0 <= k < n ==> {
                let (g, b) = (#[trigger] world.guards@[k], w1.guards@[k]);
                g.x == b.x && g.y == b.y && g.state == b.state && g.id == b.id && (b.carry_gold ==> g.carry_gold)
            },
            w1.tile_spec(px as int, py as int) != Tile::Gold ==> world.tile_spec(px as int, py as int) != Tile::Gold,
            tr.len() == i + 1 && tr[0] == w1 && tr[i as int] == *world,
            forall|k: int| 0 <= k < i ==> guard_pickup(#[trigger] tr[k], tr[k + 1], k),
        decreases n - i,
    {
        let ghost before = *world;
        guard_pickup_exec(world, i);
        proof {
            tr = tr.push(*world);
            assert forall|k: int| 0 <= k < n implies {
                let (g, o) = (#[trigger] world.guards@[k], w1.guards@[k]);
                g.x == o.x && g.y == o.y && g.state == o.state && g.id == o.id && (o.carry_gold ==> g.carry_gold)
            } by {
                assert(before.guards@[k].x == world.guards@[k].x);
            }
            if w1.tile_spec(px as int, py as int) != Tile::Gold && in_bounds(w1.width as int, w1.height as int, px as int, py as int) {
                assert(world.tile_spec(px as int, py as int) == before.tile_spec(px as int, py as int) || before.tile_spec(px as int, py as int)
                    == Tile::Gold);
            }
        }
        i = i + 1;
    }
    assert(guards_pickup(w1, *world, n as int));
    proof {
        reveal(pickup_chain);
        let m = seq![w1];
        let em = ev1;
        assert(m.len() == 1 && em.len() == ev1.len() && player_pickup(w0, m[0], e0, em) && guards_pickup(m[0], *world, w0.guards@.len() as int)
            && events@ == em);
    }
}

/// Guards drop carried gold once they have held it for the configured number
/// of ticks (0 disables), where the cell can take it; otherwise they retry.
fn resolve_guard_gold_drop(world: &mut WorldState, events: &mut Vec<GameEvent>)
    requires
        old(world).wf(),
    ensures
        gold_drop_done(*old(world), *final(world), old(events)@, final(events)@),
{
    let limit = world.speed.gold_carry_ticks;
    if limit == 0 {
        return;
    }
    let ghost w0 = *world;
    let n = world.guards.len();
    let mut i: usize = 0;
    while i < n
        invariant
            i <= n,
            n == world.guards@.len(),
            w0.wf(),
            world.wf(),
            *world == (WorldState { guards: world.guards, tiles: world.tiles, ..w0 }),
            world.hole_grid == w0.hole_grid,
            only_gold_drops(w0, *world),
            forall|k: int| 0 <= k < n ==> {
                let (g, b) = (#[trigger] world.guards@[k], w0.guards@[k]);
                g.x == b.x && g.y == b.y && g.state == b.state && g.id == b.id && (g.carry_gold ==> b.carry_gold)
            },
        decreases n - i,
    {
        let ghost before = *world;
        let g = world.guards[i];
        if g.carry_gold && g.state != ActorState::Dead {
            let t = g.carry_gold_timer.saturating_add(1);
            world.guards[i].carry_gold_timer = t;
            if t >= limit && can_drop_gold_at(world, g.x, g.y) {
                world.set_tile(g.x, g.y, Tile::Gold);
                world.guards[i].carry_gold = false;
                world.guards[i].carry_gold_timer = 0;
                events.push(GameEvent::GuardDroppedGold { x: g.x, y: g.y });
            }
        }
        proof {
            assert forall|x: int, y: int| in_bounds(w0.width as int, w0.height as int, x, y) implies #[trigger] world.tile_spec(x, y)
                == w0.tile_spec(x, y) || (w0.tile_spec(x, y) == Tile::Empty && world.tile_spec(x, y) == Tile::Gold) by {
                assert(before.tile_spec(x, y) == w0.tile_spec(x, y) || (w0.tile_spec(x, y) == Tile::Empty && before.tile_spec(x, y)
                    == Tile::Gold));
            }
        }
        i = i + 1;
    }
}

/// An untrapped living guard shares the player's cell or stands directly on
/// the player's head.
pub open spec fn player_caught(w: WorldState) -> bool {
    exists|k: int|
        0 <= k < w.guards@.len() && physics::is_active_guard(#[trigger] w.guards@[k]) && w.guards@[k].x == w.player.x && (
        w.guards@[k].y == w.player.y || w.guards@[k].y + 1 == w.player.y)
}

/// The world after the player dies.
pub open spec fn died(w: WorldState) -> WorldState {
    WorldState { player: Player { alive: false, ..w.player }, phase: Phase::Dying, anim_tick: 0, ..w }
}

fn player_die(world: &mut WorldState)
    ensures
        *final(world) == died(*old(world)),
{
    world.player.alive = false;
    world.phase = Phase::Dying;
    world.anim_tick = 0;
}

/// The living player touching an active guard dies. Returns whether it did.
fn resolve_enemy_collision(world: &mut WorldState, events: &mut Vec<GameEvent>) -> (r: bool)
    ensures
        collision_done(*old(world), *final(world), old(events)@, final(events)@, r),
{
    if !world.player.alive {
        return false;
    }
    let px = world.player.x;
    let py = world.player.y;
    let mut k: usize = 0;
    while k < world.guards.len()
        invariant
            k <= world.guards@.len(),
            *world == *old(world),
            events@ == old(events)@,
            world.player.alive,
            px == world.player.x && py == world.player.y,
            forall|j: int|
                0 <= j < k ==> !(physics::is_active_guard(#[trigger] world.guards@[j]) && world.guards@[j].x == px && (world.guards@[j].y
                    == py || world.guards@[j].y + 1 == py)),
        decreases world.guards.len() - k,
    {
        let g = world.guards[k];
        if g.state != ActorState::Dead && g.state != ActorState::InHole && g.x == px && (g.y == py || (py > 0 && g.y == py - 1)) {
            assert(world.guards@[k as int] == g);
            events.push(GameEvent::PlayerKilled);
            player_die(world);
            return true;
        }
        k = k + 1;
    }
    false
}

/// The guard at index i can escape its hole to (ex, ey): on the map,
/// passable, supported, and free of other living guards.
pub open spec fn escape_ok(w: WorldState, i: int, ex: int, ey: int) -> bool {
    &&& 0 <= ex < w.width && 0 <= ey
    &&& w.terrain_spec(ex, ey).passable
    &&& physics::support_spec(w.tiles@, w.width as int, w.height as int, w.hole_grid@, w.guards@, ex, ey, -1)
    &&& !(exists|j: int|
        0 <= j < w.guards@.len() && j != i && (#[trigger] w.guards@[j]).state != ActorState::Dead && w.guards@[j].x == ex
            && w.guards@[j].y == ey)
}

/// The escape cell tried first: on the player's side.
pub open spec fn escape_first_dx(w: WorldState, i: int) -> int {
    if w.player.x > w.guards@[i].x { 1 } else { -1 }
}

fn guard_free_at(guards: &Vec<Guard>, i: usize, x: usize, y: usize) -> (r: bool)
    ensures
        r == !(exists|j: int|
            0 <= j < guards@.len() && j != i && (#[trigger] guards@[j]).state != ActorState::Dead && guards@[j].x == x && guards@[j].y == y),
{
    let mut j: usize = 0;
    while j < guards.len()
        invariant
            j <= guards@.len(),
            forall|k: int|
                0 <= k < j ==> !(k != i && (#[trigger] guards@[k]).state != ActorState::Dead && guards@[k].x == x && guards@[k].y == y),
        decreases guards.len() - j,
    {
        let o = guards[j];
        if j != i && o.state != ActorState::Dead && o.x == x && o.y == y {
            assert(guards@[j as int] == o);
            return false;
        }
        j = j + 1;
    }
    true
}

/// A trapped guard climbs out diagonally, `(x +- 1, y - 1)`, trying the side
/// toward the player first. On success it stands there, faces that way,
/// drops carried gold above the hole when possible, and has its state
/// re-resolved; otherwise nothing changes.
#[verifier::rlimit(80)]
fn try_escape(world: &mut WorldState, i: usize)
    requires
        old(world).wf(),
        i < old(world).guards@.len(),
    ensures
        escape_done(*old(world), *final(world), i as int),
{
    let ghost w0 = *world;
    let g = world.guards[i];
    let px = world.player.x;
    if g.y == 0 {
        return;
    }
    let ey = g.y - 1;
    let mut attempt: usize = 0;
    while attempt < 2
        invariant
            attempt <= 2,
            *world == w0,
            *old(world) == w0,
            g == w0.guards@[i as int],
            g.y > 0 && ey == g.y - 1,
            px == w0.player.x,
            i < w0.guards@.len(),
            w0.wf(),
            attempt >= 1 ==> !escape_ok(w0, i as int, g.x + escape_first_dx(w0, i as int), ey as int),
            attempt >= 2 ==> !escape_ok(w0, i as int, g.x - escape_first_dx(w0, i as int), ey as int),
        decreases 2 - attempt,
    {
        let right = (px > g.x) == (attempt == 0);
        if !right && g.x == 0 {
            attempt = attempt + 1;
            continue;
        }
        if right && g.x >= world.width {
            attempt = attempt + 1;
            continue;
        }
        let ex: usize = if right { g.x + 1 } else { g.x - 1 };
        if ex >= world.width || !world.can_enter(ex, ey) || !world.has_support(ex, ey) || !guard_free_at(&world.guards, i, ex, ey) {
            attempt = attempt + 1;
            continue;
        }
        let mut g2 = g;
        g2.x = ex;
        g2.y = ey;
        g2.state = ActorState::OnGround;
        g2.facing = if right { Facing::Right } else { Facing::Left };
        let ghost before = *world;
        if g2.carry_gold && can_drop_gold_at(world, g.x, ey) {
            world.set_tile(g.x, ey, Tile::Gold);
            g2.carry_gold = false;
            g2.carry_gold_timer = 0;
        }
        let ghost dropped = *world;
        world.guards.set(i, g2);
        let ghost gm = world.guards@;
        let s = world.resolve_actor_state(ex, ey, ActorState::OnGround);
        world.guards[i].state = s;
        proof {
            assert forall|x: int, y: int| in_bounds(w0.width as int, w0.height as int, x, y) implies #[trigger] world.tile_spec(x, y)
                == w0.tile_spec(x, y) || (w0.tile_spec(x, y) == Tile::Empty && world.tile_spec(x, y) == Tile::Gold) by {
                assert(before.tile_spec(x, y) == w0.tile_spec(x, y));
            }
            assert(world.guards@.update(i as int, Guard { state: ActorState::OnGround, ..world.guards@[i as int] }) =~= gm);
            assert(world.guards@[i as int].state == s);
            assert(world.guards@[i as int].facing == (if world.guards@[i as int].x > g.x { Facing::Right } else { Facing::Left }));
            if g.carry_gold && droppable(w0, g.x as int, g.y - 1) {
                assert(world.tile_spec(g.x as int, g.y - 1) == dropped.tile_spec(g.x as int, g.y - 1));
                assert(dropped.tile_spec(g.x as int, ey as int) == Tile::Gold);
            }
        }
        return;
    }
}

/// The contract of `try_escape`, from `a` to `b`.
pub open spec fn escape_done(a: WorldState, b: WorldState, i: int) -> bool {
    &&& (b.wf())
    &&& (b == (WorldState { guards: b.guards, tiles: b.tiles, ..a }))
    &&& (only_gold_drops(a, b))
    &&& (b.guards@.len() == a.guards@.len())
    &&& (forall|j: int| 0 <= j < a.guards@.len() && j != i ==> #[trigger] b.guards@[j] == a.guards@[j])
    &&& ({
            let (w0, g, g2) = (a, a.guards@[i], b.guards@[i]);
            let d1 = escape_first_dx(w0, i);
            let ok1 = g.y > 0 && escape_ok(w0, i, g.x + d1, g.y - 1);
            let ok2 = g.y > 0 && escape_ok(w0, i, g.x - d1, g.y - 1);
            &&& ok1 ==> g2.x == g.x + d1 && g2.y == g.y - 1
            &&& (!ok1 && ok2) ==> g2.x == g.x - d1 && g2.y == g.y - 1
            &&& (ok1 || ok2) ==> physics::is_active_guard(g2) && g2.id == g.id
            &&& !(ok1 || ok2) ==> b == a
            &&& (ok1 || ok2) ==> g2.facing == (if g2.x > g.x { Facing::Right } else { Facing::Left })
            &&& (ok1 || ok2) ==> g2.state == physics::resolve_spec(
                b.tiles@,
                b.width as int,
                b.height as int,
                b.hole_grid@,
                b.guards@.update(i, Guard { state: ActorState::OnGround, ..g2 }),
                g2.x as int,
                g2.y as int,
                ActorState::OnGround,
            )
            &&& ((ok1 || ok2) && g.carry_gold && droppable(a, g.x as int, g.y - 1)) ==> !g2.carry_gold && b.tile_spec(g.x as int, g.y - 1)
                == Tile::Gold
        })
}

/// A dead guard back at its spawn column, on row 1.
pub open spec fn respawned(g: Guard) -> Guard {
    Guard {
        x: g.spawn_x,
        y: 1,
        state: ActorState::OnGround,
        respawn_timer: 0,
        carry_gold: false,
        carry_gold_timer: 0,
        separation_timer: 0,
        ..g
    }
}

/// No living guard other than `i` stands at (x, y).
pub open spec fn spawn_free(gs: Seq<Guard>, i: int, x: int, y: int) -> bool {
    !(exists|j: int| 0 <= j < gs.len() && j != i && (#[trigger] gs[j]).state != ActorState::Dead && gs[j].x == x && gs[j].y == y)
}

/// Guard `i`'s timers: a trapped guard's stuck timer counts down and at zero
/// it tries to escape; a dead guard's respawn timer counts up and, at the
/// threshold with its spawn cell free, it respawns (`GuardRespawned`).
pub open spec fn guard_timer(a: WorldState, b: WorldState, i: int, e0: Seq<GameEvent>, e1: Seq<GameEvent>) -> bool {
    let g = a.guards@[i];
    if g.state == ActorState::InHole {
        let g1 = Guard { stuck_timer: if g.stuck_timer > 0 { (g.stuck_timer - 1) as u32 } else { 0 }, ..g };
        &&& e1 == e0
        &&& g1.stuck_timer == 0 ==> exists|m: WorldState| guard_set(a, m, i, g1) && #[trigger] escape_done(m, b, i)
        &&& g1.stuck_timer != 0 ==> guard_set(a, b, i, g1)
    } else if g.state == ActorState::Dead {
        let t = sat_add(g.respawn_timer, 1);
        if t >= a.speed.guard_respawn_ticks && spawn_free(a.guards@, i, g.spawn_x as int, 1) {
            guard_set(a, b, i, respawned(g)) && e1 == e0.push(GameEvent::GuardRespawned { id: g.id })
        } else {
            guard_set(a, b, i, Guard { respawn_timer: t, ..g }) && e1 == e0
        }
    } else {
        b == a && e1 == e0
    }
}

/// Guard timers applied to guards `0..n` in index order.
pub open spec fn guards_timed(a: WorldState, b: WorldState, e0: Seq<GameEvent>, e1: Seq<GameEvent>, n: int) -> bool {
    exists|tr: Seq<WorldState>, te: Seq<Seq<GameEvent>>|
        #![trigger tr.len(), te.len()]
        tr.len() == n + 1 && te.len() == n + 1 && tr[0] == a && te[0] == e0 && tr[n] == b && te[n] == e1 && forall|k: int|
            0 <= k < n ==> guard_timer(#[trigger] tr[k], tr[k + 1], k, te[k], te[k + 1])
}

fn guard_timers(world: &mut WorldState, i: usize, events: &mut Vec<GameEvent>)
    requires
        old(world).wf(),
        i < old(world).guards@.len(),
    ensures
        final(world).wf(),
        guard_timer(*old(world), *final(world), i as int, old(events)@, final(events)@),
        final(world).guards@.len() == old(world).guards@.len(),
        *final(world) == (WorldState { guards: final(world).guards, tiles: final(world).tiles, ..*old(world) }),
{
    let ghost a = *world;
    let g = world.guards[i];
    if g.state == ActorState::InHole {
        if g.stuck_timer > 0 {
            world.guards[i].stuck_timer = g.stuck_timer - 1;
        }
        assert(world.guards@ =~= a.guards@.update(i as int, world.guards@[i as int]));
        if world.guards[i].stuck_timer == 0 {
            let ghost m = *world;
            try_escape(world, i);
            assert(guard_set(a, m, i as int, m.guards@[i as int]) && escape_done(m, *world, i as int));
        }
    } else if g.state == ActorState::Dead {
        let t = g.respawn_timer.saturating_add(1);
        world.guards[i].respawn_timer = t;
        if t >= world.speed.guard_respawn_ticks {
            let rx = g.spawn_x;
            let ry: usize = 1;
            if guard_free_at(&world.guards, i, rx, ry) {
                assert(spawn_free(a.guards@, i as int, rx as int, 1)) by {
                    assert forall|j: int| 0 <= j < a.guards@.len() && j != i implies #[trigger] a.guards@[j] == world.guards@[j] by {}
                }
                let mut g2 = g;
                g2.x = rx;
                g2.y = ry;
                g2.state = ActorState::OnGround;
                g2.respawn_timer = 0;
                g2.carry_gold = false;
                g2.carry_gold_timer = 0;
                g2.separation_timer = 0;
                world.guards.set(i, g2);
                events.push(GameEvent::GuardRespawned { id: g2.id });
                assert(world.guards@ =~= a.guards@.update(i as int, respawned(g)));
            } else {
                assert(!spawn_free(a.guards@, i as int, rx as int, 1)) by {
                    let j = choose|j: int|
                        0 <= j < world.guards@.len() && j != i && (#[trigger] world.guards@[j]).state != ActorState::Dead && world.guards@[j].x == rx
                            && world.guards@[j].y == ry;
                    assert(a.guards@[j] == world.guards@[j]);
                }
                assert(world.guards@ =~= a.guards@.update(i as int, Guard { respawn_timer: t, ..g }));
            }
        } else {
            assert(world.guards@ =~= a.guards@.update(i as int, Guard { respawn_timer: t, ..g }));
        }
    }
}

/// The hole list after one tick: every hole ticked, expired ones dropped.
pub open spec fn holes_left(s: Seq<Hole>) -> Seq<Hole>
    decreases s.len(),
{
    if s.len() == 0 {
        Seq::empty()
    } else {
        let p = holes_left(s.drop_last());
        if s.last().ticked().spec_is_active() {
            p.push(s.last().ticked())
        } else {
            p
        }
    }
}

/// The holes that expire on this tick (after ticking), in order.
pub open spec fn holes_expired(s: Seq<Hole>) -> Seq<Hole>
    decreases s.len(),
{
    if s.len() == 0 {
        Seq::empty()
    } else {
        let p = holes_expired(s.drop_last());
        if s.last().ticked().spec_is_active() {
            p
        } else {
            p.push(s.last().ticked())
        }
    }
}

/// The cell (hx, hy) gets its level tile back; nothing else changes.
pub open spec fn restored(a: WorldState, b: WorldState, hx: int, hy: int) -> bool {
    &&& b == (WorldState { tiles: b.tiles, ..a })
    &&& b.tiles_wf()
    &&& forall|x: int, y: int|
        in_bounds(a.width as int, a.height as int, x, y) ==> #[trigger] b.tile_spec(x, y) == (if x == hx && y == hy {
            physics::tile_of(a.base_tiles@, x, y)
        } else {
            a.tile_spec(x, y)
        })
}

/// The living player inside the sealed cell is buried.
pub open spec fn buried(a: WorldState, b: WorldState, hx: int, hy: int, e0: Seq<GameEvent>, e1: Seq<GameEvent>) -> bool {
    if a.player.alive && a.player.x == hx && a.player.y == hy {
        b == died(a) && e1 == e0.push(GameEvent::PlayerKilled)
    } else {
        b == a && e1 == e0
    }
}

/// Guard `j` when the hole at (hx, hy) seals: a trapped guard there dies
/// (+50, `GuardKilled`, its gold placed above when that cell can take it);
/// another living guard there is pushed up one row when that cell is
/// passable; other guards are untouched.
pub open spec fn seal_guard(a: WorldState, b: WorldState, j: int, hx: int, hy: int, e0: Seq<GameEvent>, e1: Seq<GameEvent>) -> bool {
    let g = a.guards@[j];
    if !(g.x == hx && g.y == hy) {
        b == a && e1 == e0
    } else if g.state == ActorState::InHole {
        let drop = g.carry_gold && hy > 0 && droppable(a, hx, hy - 1);
        let g2 = Guard {
            state: ActorState::Dead,
            respawn_timer: 0,
            carry_gold: false,
            carry_gold_timer: if g.carry_gold { 0 } else { g.carry_gold_timer },
            ..g
        };
        &&& b.guards@ == a.guards@.update(j, g2)
        &&& b.score == sat_add(a.score, 50)
        &&& e1 == e0.push(GameEvent::GuardKilled { id: g.id, x: hx as usize, y: hy as usize })
        &&& b == (WorldState { guards: b.guards, score: b.score, tiles: b.tiles, ..a })
        &&& b.tiles_wf()
        &&& drop ==> grid_set_at(a, b, hx, hy - 1, Tile::Gold)
        &&& !drop ==> b.tiles == a.tiles
    } else if g.state != ActorState::Dead && hy > 0 && a.tile_spec(hx, hy - 1).is_passable() {
        guard_set(a, b, j, Guard { y: (hy - 1) as usize, ..g }) && e1 == e0
    } else {
        b == a && e1 == e0
    }
}

/// `seal_guard` for guards `0..n` in index order.
pub open spec fn guards_sealed(a: WorldState, b: WorldState, hx: int, hy: int, e0: Seq<GameEvent>, e1: Seq<GameEvent>, n: int) -> bool {
    exists|tr: Seq<WorldState>, te: Seq<Seq<GameEvent>>|
        #![trigger tr.len(), te.len()]
        tr.len() == n + 1 && te.len() == n + 1 && tr[0] == a && te[0] == e0 && tr[n] == b && te[n] == e1 && forall|k: int|
            0 <= k < n ==> seal_guard(#[trigger] tr[k], tr[k + 1], k, hx, hy, te[k], te[k + 1])
}

/// The hole at (hx, hy) seals: the tile is restored, `HoleFilled` emitted,
/// the player inside buried and the guards inside killed or pushed up.
pub open spec fn seal_hole(a: WorldState, b: WorldState, hx: int, hy: int, e0: Seq<GameEvent>, e1: Seq<GameEvent>) -> bool {
    exists|m: Seq<WorldState>, em: Seq<GameEvent>|
        #![trigger m.len(), em.len()]
        m.len() == 2 && restored(a, m[0], hx, hy) && buried(m[0], m[1], hx, hy, e0.push(GameEvent::HoleFilled { x: hx as usize, y: hy as usize }), em)
            && guards_sealed(m[1], b, hx, hy, em, e1, a.guards@.len() as int)
}

/// The expired holes seal, last one first.
pub open spec fn holes_sealed(a: WorldState, b: WorldState, e0: Seq<GameEvent>, e1: Seq<GameEvent>, ex: Seq<Hole>) -> bool {
    exists|tr: Seq<WorldState>, te: Seq<Seq<GameEvent>>|
        #![trigger tr.len(), te.len()]
        tr.len() == ex.len() + 1 && te.len() == ex.len() + 1 && tr[0] == a && te[0] == e0 && tr[ex.len() as int] == b && te[ex.len() as int]
            == e1 && forall|k: int|
            0 <= k < ex.len() ==> seal_hole(#[trigger] tr[k], tr[k + 1], ex[ex.len() - 1 - k].x as int, ex[ex.len() - 1 - k].y as int, te[k], te[k + 1])
}

/// What sealing leaves unchanged, and how phase and life may change.
pub open spec fn seal_frame(a: WorldState, b: WorldState) -> bool {
    &&& b.tiles_wf()
    &&& b.width == a.width && b.height == a.height && b.base_tiles == a.base_tiles && b.speed == a.speed
    &&& b.digs == a.digs && b.tick == a.tick && b.holes == a.holes && b.hole_grid == a.hole_grid
    &&& b.guards@.len() == a.guards@.len()
    &&& b.exit_enabled == a.exit_enabled
    &&& (b.phase == a.phase || b.phase == Phase::Dying)
    &&& (b.player.alive ==> a.player.alive)
    &&& ((b.phase == Phase::Dying && a.phase != Phase::Dying) ==> !b.player.alive)
    &&& ((a.player.alive && !b.player.alive) ==> b.phase == Phase::Dying)
}

fn seal_guard_exec(world: &mut WorldState, j: usize, hx: usize, hy: usize, events: &mut Vec<GameEvent>)
    requires
        old(world).tiles_wf(),
        j < old(world).guards@.len(),
    ensures
        seal_guard(*old(world), *final(world), j as int, hx as int, hy as int, old(events)@, final(events)@),
        seal_frame(*old(world), *final(world)),
{
    let ghost a = *world;
    let g = world.guards[j];
    if g.x == hx && g.y == hy {
        if g.state == ActorState::InHole {
            let mut g2 = g;
            g2.state = ActorState::Dead;
            g2.respawn_timer = 0;
            world.score = world.score.saturating_add(50);
            events.push(GameEvent::GuardKilled { id: g.id, x: hx, y: hy });
            let ghost ms = *world;
            if g.carry_gold {
                g2.carry_gold = false;
                g2.carry_gold_timer = 0;
                if hy > 0 && can_drop_gold_at(world, hx, hy - 1) {
                    world.set_tile(hx, hy - 1, Tile::Gold);
                }
            }
            world.guards.set(j, g2);
            proof {
                if g.carry_gold && hy > 0 && droppable(a, hx as int, hy - 1) {
                    assert(droppable(ms, hx as int, hy - 1));
                }
            }
        } else if g.state != ActorState::Dead {
            if hy > 0 && world.terrain_at(hx, hy - 1).is_passable() {
                world.guards[j].y = hy - 1;
            }
        }
    }
}

fn seal_hole_exec(world: &mut WorldState, hx: usize, hy: usize, events: &mut Vec<GameEvent>)
    requires
        old(world).tiles_wf(),
    ensures
        seal_hole(*old(world), *final(world), hx as int, hy as int, old(events)@, final(events)@),
        seal_frame(*old(world), *final(world)),
{
    let ghost a = *world;
    world.clear_tile(hx, hy);
    let ghost m0 = *world;
    events.push(GameEvent::HoleFilled { x: hx, y: hy });
    let ghost e_f = events@;
    if world.player.x == hx && world.player.y == hy && world.player.alive {
        events.push(GameEvent::PlayerKilled);
        player_die(world);
    }
    let ghost m1 = *world;
    let ghost em = events@;
    let n = world.guards.len();
    let ghost mut tr: Seq<WorldState> = seq![m1];
    let ghost mut te: Seq<Seq<GameEvent>> = seq![em];
    let mut j: usize = 0;
    while j < n
        invariant
            j <= n,
            n == world.guards@.len(),
            n == a.guards@.len(),
            seal_frame(m1, *world),
            tr.len() == j + 1 && te.len() == j + 1 && tr[0] == m1 && te[0] == em,
            tr[j as int] == *world && te[j as int] == events@,
            forall|k: int| 0 <= k < j ==> seal_guard(#[trigger] tr[k], tr[k + 1], k, hx as int, hy as int, te[k], te[k + 1]),
        decreases n - j,
    {
        let ghost before = *world;
        seal_guard_exec(world, j, hx, hy, events);
        proof {
            tr = tr.push(*world);
            te = te.push(events@);
        }
        j = j + 1;
    }
    proof {
        assert(guards_sealed(m1, *world, hx as int, hy as int, em, events@, n as int));
        if in_bounds(a.width as int, a.height as int, hx as int, hy as int) {
            assert forall|x: int, y: int| in_bounds(a.width as int, a.height as int, x, y) implies #[trigger] m0.tile_spec(x, y) == (if x == hx
                && y == hy {
                physics::tile_of(a.base_tiles@, x, y)
            } else {
                a.tile_spec(x, y)
            }) by {}
        }
        assert(restored(a, m0, hx as int, hy as int));
        assert(buried(m0, m1, hx as int, hy as int, e_f, em));
        let m = seq![m0, m1];
        assert(m.len() == 2 && restored(a, m[0], hx as int, hy as int) && buried(m[0], m[1], hx as int, hy as int, e_f, em));
    }
}

/// Guard timers and the hole lifecycle.
///
/// Trapped guards count down and try to escape at zero (again on every later
/// tick while still trapped). Dead guards count up and respawn at
/// `(spawn_x, 1)` once the threshold is reached and no living guard is
/// there. Every hole ticks; each expired hole restores its brick, buries the
/// player if it is inside, kills trapped guards inside (+50 each, their gold
/// placed above when possible) and pushes other living guards inside up one
/// row when the cell above is passable.
fn resolve_timers(world: &mut WorldState, events: &mut Vec<GameEvent>)
    requires
        old(world).wf(),
    ensures
        timers_done(*old(world), *final(world), old(events)@, final(events)@),
{
    let ghost mut tr: Seq<WorldState> = seq![*world];
    let ghost mut te: Seq<Seq<GameEvent>> = seq![events@];
    let n = world.guards.len();
    let mut i: usize = 0;
    while i < n
        invariant
            i <= n,
            n == world.guards@.len(),
            world.wf(),
            world.holes == old(world).holes,
            world.width == old(world).width && world.height == old(world).height,
            world.base_tiles == old(world).base_tiles && world.speed == old(world).speed,
            world.digs == old(world).digs && world.tick == old(world).tick,
            world.phase == old(world).phase || world.phase == Phase::Dying,
            world.exit_enabled == old(world).exit_enabled,
            world.player.alive ==> old(world).player.alive,
            (world.phase == Phase::Dying && old(world).phase != Phase::Dying) ==> !world.player.alive,
            (old(world).player.alive && !world.player.alive) ==> world.phase == Phase::Dying,
            tr.len() == i + 1 && te.len() == i + 1 && tr[0] == *old(world) && te[0] == old(events)@,
            tr[i as int] == *world && te[i as int] == events@,
            forall|k: int| 0 <= k < i ==> guard_timer(#[trigger] tr[k], tr[k + 1], k, te[k], te[k + 1]),
        decreases n - i,
    {
        let ghost before = *world;
        let ghost eb = events@;
        guard_timers(world, i, events);
        proof {
            tr = tr.push(*world);
            te = te.push(events@);
        }
        i = i + 1;
    }
    assert(guards_timed(*old(world), *world, old(events)@, events@, n as int));
    let ghost w1 = *world;
    let ghost ev1 = events@;
    let mut old_holes: Vec<Hole> = Vec::new();
    std::mem::swap(&mut old_holes, &mut world.holes);
    let mut kept: Vec<Hole> = Vec::new();
    let mut expired: Vec<Hole> = Vec::new();
    let mut k: usize = 0;
    while k < old_holes.len()
        invariant
            k <= old_holes@.len(),
            old_holes@ == w1.holes@,
            kept@ == holes_left(old_holes@.subrange(0, k as int)),
            expired@ == holes_expired(old_holes@.subrange(0, k as int)),
            world.tiles_wf(),
            world.width == w1.width && world.height == w1.height && world.base_tiles == w1.base_tiles,
            world.guards@.len() == w1.guards@.len() && world.speed == w1.speed,
            world.digs == w1.digs && world.tick == w1.tick,
            world.phase == old(world).phase || world.phase == Phase::Dying,
            world.exit_enabled == old(world).exit_enabled,
            world.player.alive ==> old(world).player.alive,
            (world.phase == Phase::Dying && old(world).phase != Phase::Dying) ==> !world.player.alive,
            (old(world).player.alive && !world.player.alive) ==> world.phase == Phase::Dying,
        decreases old_holes.len() - k,
    {
        let ghost pre = old_holes@.subrange(0, k as int);
        let ghost cur = old_holes@.subrange(0, k as int + 1);
        assert(cur.drop_last() == pre);
        let mut h = old_holes[k];
        let done = h.tick();
        if done {
            expired.push(h);
        } else {
            kept.push(h);
        }
        k = k + 1;
    }
    assert(old_holes@.subrange(0, old_holes@.len() as int) == old_holes@);

    assert(expired@ == holes_expired(old(world).holes@));
    let ghost ws = *world;
    let ghost es = events@;
    let ghost ex = expired@;
    let ghost mut tr: Seq<WorldState> = seq![ws];
    let ghost mut te: Seq<Seq<GameEvent>> = seq![es];
    let mut e = expired.len();
    while e > 0
        invariant
            e <= expired@.len(),
            ex == expired@,
            world.tiles_wf(),
            seal_frame(ws, *world),
            tr.len() == ex.len() - e + 1 && te.len() == ex.len() - e + 1 && tr[0] == ws && te[0] == es,
            tr[ex.len() - e] == *world && te[ex.len() - e] == events@,
            forall|k: int|
                0 <= k < ex.len() - e ==> seal_hole(#[trigger] tr[k], tr[k + 1], ex[ex.len() - 1 - k].x as int, ex[ex.len() - 1 - k].y as int, te[k], te[k + 1]),
        decreases e,
    {
        e = e - 1;
        let hx = expired[e].x;
        let hy = expired[e].y;
        let ghost before = *world;
        seal_hole_exec(world, hx, hy, events);
        proof {
            tr = tr.push(*world);
            te = te.push(events@);
        }
    }
    assert(holes_sealed(ws, *world, es, events@, ex));
    let ghost m2 = *world;
    world.holes = kept;
    world.rebuild_hole_grid();
    proof {
        reveal(timers_chain);
        let m = seq![w1, ws, m2];
        let em = seq![ev1];
        assert(m.len() == 3 && em.len() == 1 && guards_timed(*old(world), m[0], old(events)@, em[0], old(world).guards@.len() as int));
    }
}

/// With the exit open, the living player reaching the top row clears the
/// stage.
pub open spec fn stage_cleared(w: WorldState) -> bool {
    w.player.alive && w.exit_enabled && w.player.y == 0
}

fn resolve_win(world: &mut WorldState, events: &mut Vec<GameEvent>)
    ensures
        win_done(*old(world), *final(world), old(events)@, final(events)@),
{
    if !world.player.alive {
        return;
    }
    if world.exit_enabled && world.player.y == 0 {
        world.phase = Phase::LevelOutro;
        world.anim_tick = 0;
        world.anim_player_y = 0;
        world.score = world.score.saturating_add(500);
        events.push(GameEvent::StageCleared);
        let level = world.current_level;
        let shown = if level < usize::MAX { level + 1 } else { level };
        let msg = stage_clear_message(shown);
        world.message = msg;
        world.message_timer = 80;
    }
}

/// The number of a stage shown to the player: one more than its index.
pub open spec fn shown_stage(level: usize) -> nat {
    if level < usize::MAX { (level + 1) as nat } else { level as nat }
}

/// The banner for clearing the stage numbered `n`.
pub open spec fn clear_banner(n: nat) -> Seq<char> {
    "Node "@ + crate::savefile::decimal_digits(n) + " Complete! +500"@
}

fn stage_clear_message(n: usize) -> (r: String)
    ensures
        r@ == clear_banner(n as nat),
{
    let mut out: Vec<char> = Vec::new();
    crate::savefile::push_text(&mut out, "Node ");
    crate::savefile::push_number(&mut out, n as u64);
    crate::savefile::push_text(&mut out, " Complete! +500");
    crate::levelfile::string_of(&out)
}

/// The guard stage then the sealing of expired holes, as `resolve_timers`
/// runs them.
#[verifier::opaque]
pub open spec fn timers_chain(a: WorldState, b: WorldState, e0: Seq<GameEvent>, e1: Seq<GameEvent>) -> bool {
    exists|m: Seq<WorldState>, em: Seq<Seq<GameEvent>>|
        #![trigger m.len(), em.len()]
        m.len() == 3 && em.len() == 1 && guards_timed(a, m[0], e0, em[0], a.guards@.len() as int) && m[1] == (WorldState {
            holes: m[1].holes,
            ..m[0]
        }) && holes_sealed(m[1], m[2], em[0], e1, holes_expired(a.holes@)) && b == (WorldState { holes: b.holes, hole_grid: b.hole_grid, ..m[2] })
}

/// The player's pickup then each guard's, as `resolve_gold_pickup` runs them.
#[verifier::opaque]
pub open spec fn pickup_chain(a: WorldState, b: WorldState, e0: Seq<GameEvent>, e1: Seq<GameEvent>) -> bool {
    exists|m: Seq<WorldState>, em: Seq<GameEvent>|
        #![trigger m.len(), em.len()]
        m.len() == 1 && player_pickup(a, m[0], e0, em) && guards_pickup(m[0], b, a.guards@.len() as int) && e1 == em
}

/// The contract of `resolve_dig`, from `a` to `b`.
pub open spec fn dig_done(a: WorldState, b: WorldState, e0: Seq<GameEvent>, e1: Seq<GameEvent>, dig_dir: Option<Facing>) -> bool {
    let req = match dig_dir {
        Some(d) => dig_request(a, d),
        None => None,
    };
    match req {
        Some(t) => dig_started(a, b, e0, e1, t),
        None => b == a && e1 == e0,
    }
}

/// A dig starts at `t` with the configured duration and `HoleCreated` is emitted.
pub open spec fn dig_started(a: WorldState, b: WorldState, e0: Seq<GameEvent>, e1: Seq<GameEvent>, t: (int, int)) -> bool {
    &&& b.digs@ == a.digs@.push(new_dig(a, t))
    &&& b == (WorldState { digs: b.digs, ..a })
    &&& e1 == e0.push(GameEvent::HoleCreated { x: t.0 as usize, y: t.1 as usize })
}

pub open spec fn new_dig(a: WorldState, t: (int, int)) -> DigInProgress {
    DigInProgress { x: t.0 as usize, y: t.1 as usize, ticks_remaining: a.speed.dig_duration, total_ticks: a.speed.dig_duration }
}


/// The contract of `resolve_dig_progress`, from `a` to `b`.
pub open spec fn dig_progress_done(a: WorldState, b: WorldState) -> bool {
    &&& (b.tiles_wf())
    &&& (b.digs@ == digs_left(a.digs@))
    &&& (b.holes@ == a.holes@ + holes_from(
            digs_done(a.digs@),
            a.speed.hole_open_ticks,
            a.speed.hole_close_ticks,
        ))
    &&& (tiles_dug(a, b, digs_done(a.digs@)))
    &&& (b == (WorldState { tiles: b.tiles, digs: b.digs, holes: b.holes, ..a }))
}

/// The contract of `resolve_player_movement`, from `a` to `b`.
pub open spec fn player_move_done(a: WorldState, b: WorldState, movement: Option<MoveDir>) -> bool {
    &&& (b == (WorldState { player: player_moved(a, movement), ..a }))
}

/// The contract of `resolve_guard_movement`, from `a` to `b`.
pub open spec fn guard_move_done(a: WorldState, b: WorldState) -> bool {
    &&& (b.wf())
    &&& (b == (WorldState { guards: b.guards, ..a }))
    &&& (b.guards@.len() == a.guards@.len())
    &&& (({
            let gs1 = a.guards@.map_values(|g: Guard| sep_ticked(g));
            let mv = approvals(a, gs1, gs1.len() as int);
            forall|i: int|
                0 <= i < a.guards@.len() ==> {
                    let (gf, gm) = (#[trigger] b.guards@[i], moved_guard(gs1[i], mv[i], a.speed.guard_move_rate));
                    &&& same_guard_record(gf, a.guards@[i])
                    &&& gf.x == gm.x && gf.y == gm.y && gf.facing == gm.facing && gf.move_cooldown == gm.move_cooldown
                    &&& physics::is_active_guard(gf) == physics::is_active_guard(a.guards@[i])
                    &&& !physics::is_active_guard(a.guards@[i]) ==> gf.state == a.guards@[i].state
                    &&& gf.separation_timer == (if gs1[i].separation_timer == 0 && has_contact(b.guards@, i) {
                        ai::SEPARATION_TICKS
                    } else {
                        gs1[i].separation_timer
                    })
                }
        }))
}

/// The contract of `resolve_trap_bricks`, from `a` to `b`.
pub open spec fn trap_done(a: WorldState, b: WorldState, e0: Seq<GameEvent>, e1: Seq<GameEvent>) -> bool {
    &&& (b.wf())
    &&& (b == (WorldState { tiles: b.tiles, ..a }))
    &&& (forall|x: int, y: int|
            in_bounds(a.width as int, a.height as int, x, y) ==> #[trigger] b.tile_spec(x, y) == (
            if a.tile_spec(x, y) == Tile::TrapBrick && actor_above(a, x, y) {
                Tile::Empty
            } else {
                a.tile_spec(x, y)
            }))
}

/// The contract of `resolve_gravity`, from `a` to `b`.
pub open spec fn gravity_done(a: WorldState, b: WorldState, e0: Seq<GameEvent>, e1: Seq<GameEvent>) -> bool {
    &&& (b.wf())
    &&& (b.player == player_after_gravity(a))
    &&& (b == (WorldState { player: b.player, guards: b.guards, tiles: b.tiles, ..a }))
    &&& (only_gold_drops(a, b))
    &&& (b.guards@.len() == a.guards@.len())
    &&& (guards_fall(
            (WorldState { player: player_after_gravity(a), ..a }),
            b,
            a.guards@.len() as int,
        ))
    &&& (e1 == e0 + (if fall_starts(a) { seq![GameEvent::PlayerFallStart] } else { Seq::empty() }))
}

/// The contract of `resolve_hole_traps`, from `a` to `b`.
pub open spec fn hole_traps_done(a: WorldState, b: WorldState, e0: Seq<GameEvent>, e1: Seq<GameEvent>) -> bool {
    &&& (b.wf())
    &&& (b == (WorldState { guards: b.guards, tiles: b.tiles, ..a }))
    &&& (only_gold_drops(a, b))
    &&& (b.guards@.len() == a.guards@.len())
    &&& (forall|i: int|
            0 <= i < a.guards@.len() ==> {
                let (g, o) = (#[trigger] b.guards@[i], a.guards@[i]);
                &&& g.id == o.id && g.x == o.x && g.y == o.y && g.spawn_x == o.spawn_x && g.spawn_y == o.spawn_y
                &&& !physics::is_active_guard(o) ==> g == o
                &&& (g.state == ActorState::InHole && o.state != ActorState::InHole) ==> g.stuck_timer
                    == a.speed.trap_escape_ticks
                &&& physics::is_active_guard(g) ==> (g == o && !(b.terrain_spec(g.x as int, g.y as int).hole
                    && !physics::trapped_at(b.guards@, g.x as int, g.y as int, i)))
            })
}

/// The contract of `resolve_gold_pickup`, from `a` to `b`.
pub open spec fn pickup_done(a: WorldState, b: WorldState, e0: Seq<GameEvent>, e1: Seq<GameEvent>) -> bool {
    &&& (b.wf())
    &&& (({
            let (w0, w1) = (a, b);
            let on_gold = w0.tile_spec(w0.player.x as int, w0.player.y as int) == Tile::Gold;
            &&& w1.player == w0.player && w1.holes == w0.holes && w1.hole_grid == w0.hole_grid && w1.digs == w0.digs
            &&& w1.width == w0.width && w1.height == w0.height && w1.base_tiles == w0.base_tiles && w1.phase == w0.phase
            &&& w1.speed == w0.speed && w1.tick == w0.tick
            &&& w1.guards@.len() == w0.guards@.len()
            &&& on_gold ==> {
                &&& w1.score == sat_add(w0.score, 100)
                &&& w1.gold_remaining == (if w0.gold_remaining > 0 { w0.gold_remaining - 1 } else { 0 })
                &&& w1.gold_remaining == 0 ==> w1.exit_enabled
                &&& w1.tile_spec(w0.player.x as int, w0.player.y as int) != Tile::Gold
                &&& e1.len() > e0.len()
                &&& e1[e0.len() as int] == GameEvent::GoldPicked { x: w0.player.x, y: w0.player.y }
                &&& w1.gold_remaining == 0 ==> e1 == e0.push(GameEvent::GoldPicked { x: w0.player.x, y: w0.player.y }).push(
                    GameEvent::AllGoldCollected,
                ) && w1.message@ == "All tokens mined! Escape to the top!"@ && w1.message_timer == 80
                &&& w1.gold_remaining != 0 ==> e1 == e0.push(GameEvent::GoldPicked { x: w0.player.x, y: w0.player.y })
            }
            &&& !on_gold ==> w1.score == w0.score && w1.gold_remaining == w0.gold_remaining && w1.exit_enabled == w0.exit_enabled
                && e1 == e0
            &&& forall|i: int|
                0 <= i < w0.guards@.len() ==> {
                    let (g, o) = (#[trigger] w1.guards@[i], w0.guards@[i]);
                    g.x == o.x && g.y == o.y && g.state == o.state && g.id == o.id && (o.carry_gold ==> g.carry_gold)
                }
        }))
    &&& pickup_chain(a, b, e0, e1)
}

/// The contract of `resolve_guard_gold_drop`, from `a` to `b`.
pub open spec fn gold_drop_done(a: WorldState, b: WorldState, e0: Seq<GameEvent>, e1: Seq<GameEvent>) -> bool {
    &&& (b.wf())
    &&& (b == (WorldState { guards: b.guards, tiles: b.tiles, ..a }))
    &&& (only_gold_drops(a, b))
    &&& (b.guards@.len() == a.guards@.len())
    &&& (a.speed.gold_carry_ticks == 0 ==> b == a)
    &&& (forall|i: int|
            0 <= i < a.guards@.len() ==> {
                let (g, o) = (#[trigger] b.guards@[i], a.guards@[i]);
                g.x == o.x && g.y == o.y && g.state == o.state && g.id == o.id && (g.carry_gold ==> o.carry_gold)
            })
}

/// The contract of `resolve_enemy_collision`, from `a` to `b`.
pub open spec fn collision_done(a: WorldState, b: WorldState, e0: Seq<GameEvent>, e1: Seq<GameEvent>, r: bool) -> bool {
    &&& (r == (a.player.alive && player_caught(a)))
    &&& (r ==> b == died(a) && e1 == e0.push(GameEvent::PlayerKilled))
    &&& (!r ==> b == a && e1 == e0)
}

/// The contract of `resolve_timers`, from `a` to `b`.
pub open spec fn timers_done(a: WorldState, b: WorldState, e0: Seq<GameEvent>, e1: Seq<GameEvent>) -> bool {
    &&& (b.wf())
    &&& (b.holes@ == holes_left(a.holes@))
    &&& (b.width == a.width && b.height == a.height)
    &&& (b.base_tiles == a.base_tiles && b.speed == a.speed)
    &&& (b.digs == a.digs && b.tick == a.tick)
    &&& (b.guards@.len() == a.guards@.len())
    &&& (b.phase == a.phase || b.phase == Phase::Dying)
    &&& (b.exit_enabled == a.exit_enabled)
    &&& (b.player.alive ==> a.player.alive)
    &&& ((b.phase == Phase::Dying && a.phase != Phase::Dying) ==> !b.player.alive)
    &&& ((a.player.alive && !b.player.alive) ==> b.phase == Phase::Dying)
    &&& timers_chain(a, b, e0, e1)
}

/// The contract of `resolve_win`, from `a` to `b`.
pub open spec fn win_done(a: WorldState, b: WorldState, e0: Seq<GameEvent>, e1: Seq<GameEvent>) -> bool {
    &&& (stage_cleared(a) ==> {
            &&& b.phase == Phase::LevelOutro
            &&& b.score == sat_add(a.score, 500)
            &&& e1 == e0.push(GameEvent::StageCleared)
            &&& b == (WorldState {
                phase: Phase::LevelOutro,
                anim_tick: 0,
                anim_player_y: 0,
                score: b.score,
                message: b.message,
                message_timer: 80,
                ..a
            })
        })
    &&& (!stage_cleared(a) ==> b == a && e1 == e0)
    &&& (stage_cleared(a) ==> b.message@ == clear_banner(shown_stage(a.current_level)))
}

/// The tick's start: the counter advances and the banner counts down,
/// cleared when its time runs out.
pub open spec fn tick_started(a: WorldState, b: WorldState) -> bool {
    let t = a.message_timer;
    &&& b == (WorldState { tick: (a.tick + 1) as u64, message_timer: if t > 0 { (t - 1) as u32 } else { 0 }, message: b.message, ..a })
    &&& t == 1 ==> b.message@.len() == 0
    &&& t != 1 ==> b.message == a.message
}

/// One tick during play, stage by stage: `ws[0]` is the world before the
/// tick, `ws[k]` the world after stage `k`, and `es[k]` the events so far.
/// When the enemy collision catches the player (`caught`) the tick ends
/// there; otherwise timers and the win check follow.
pub open spec fn tick_chain(ws: Seq<WorldState>, es: Seq<Seq<GameEvent>>, input: FrameInput, caught: bool) -> bool {
    &&& ws.len() == 14 && es.len() == 14
    &&& tick_started(ws[0], ws[1]) && es[1] == Seq::<GameEvent>::empty()
    &&& dig_done(ws[1], ws[2], es[1], es[2], input.dig)
    &&& dig_progress_done(ws[2], ws[3]) && es[3] == es[2]
    &&& ws[4] == (WorldState { hole_grid: ws[4].hole_grid, ..ws[3] }) && ws[4].wf() && es[4] == es[3]
    &&& player_move_done(ws[4], ws[5], input.movement) && es[5] == es[4]
    &&& guard_move_done(ws[5], ws[6]) && es[6] == es[5]
    &&& trap_done(ws[6], ws[7], es[6], es[7])
    &&& gravity_done(ws[7], ws[8], es[7], es[8])
    &&& hole_traps_done(ws[8], ws[9], es[8], es[9])
    &&& pickup_done(ws[9], ws[10], es[9], es[10])
    &&& gold_drop_done(ws[10], ws[11], es[10], es[11])
    &&& collision_done(ws[11], ws[12], es[11], es[12], caught)
    &&& caught ==> ws[13] == ws[12] && es[13] == es[12]
    &&& !caught ==> exists|w: WorldState, e: Seq<GameEvent>| timers_done(ws[12], w, es[12], e) && #[trigger] win_done(w, ws[13], e, es[13])
}

/// Advance the world by one tick and return the events it produced.
/// Nothing happens outside the playing phase; during play the tick runs the
/// stages in their fixed order (see `tick_chain`).
#[verifier::rlimit(100)]
pub fn step(world: &mut WorldState, input: FrameInput) -> (events: Vec<GameEvent>)
    requires
        old(world).wf(),
        old(world).tick < u64::MAX,
    ensures
        final(world).wf(),
        old(world).phase != Phase::Playing ==> events@.len() == 0 && *final(world) == *old(world),
        old(world).phase == Phase::Playing ==> exists|ws: Seq<WorldState>, es: Seq<Seq<GameEvent>>, caught: bool|
            #[trigger] tick_chain(ws, es, input, caught) && ws[0] == *old(world) && ws[13] == *final(world) && es[13] == events@,
        old(world).phase == Phase::Playing ==> {
            &&& final(world).tick == old(world).tick + 1
            &&& final(world).width == old(world).width && final(world).height == old(world).height
            &&& final(world).base_tiles == old(world).base_tiles && final(world).speed == old(world).speed
            &&& final(world).guards@.len() == old(world).guards@.len()
            &&& final(world).phase == Phase::Playing || final(world).phase == Phase::Dying || final(world).phase == Phase::LevelOutro
            &&& final(world).phase == Phase::Dying ==> !final(world).player.alive
            &&& (old(world).player.alive && !final(world).player.alive) ==> final(world).phase == Phase::Dying
            &&& final(world).phase == Phase::LevelOutro ==> final(world).exit_enabled && final(world).player.y == 0
        },
{
    let mut events: Vec<GameEvent> = Vec::new();
    if world.phase != Phase::Playing {
        return events;
    }
    let ghost w0 = *world;
    world.tick = world.tick + 1;
    if world.message_timer > 0 {
        world.message_timer = world.message_timer - 1;
        if world.message_timer == 0 {
            world.message = String::new();
        }
    }
    let ghost w1 = *world;
    let ghost e1 = events@;
    resolve_dig(world, input.dig, &mut events);
    let ghost (w2, e2) = (*world, events@);
    resolve_dig_progress(world);
    let ghost w3 = *world;
    world.rebuild_hole_grid();
    let ghost w4 = *world;
    resolve_player_movement(world, input.movement);
    let ghost w5 = *world;
    resolve_guard_movement(world);
    let ghost w6 = *world;
    resolve_trap_bricks(world, &mut events);
    let ghost (w7, e7) = (*world, events@);
    resolve_gravity(world, &mut events);
    let ghost (w8, e8) = (*world, events@);
    resolve_hole_traps(world, &mut events);
    let ghost (w9, e9) = (*world, events@);
    resolve_gold_pickup(world, &mut events);
    let ghost (w10, e10) = (*world, events@);
    resolve_guard_gold_drop(world, &mut events);
    let ghost (w11, e11) = (*world, events@);
    let caught = resolve_enemy_collision(world, &mut events);
    let ghost (w12, e12) = (*world, events@);
    let ghost mut ws: Seq<WorldState> = seq![w0, w1, w2, w3, w4, w5, w6, w7, w8, w9, w10, w11, w12];
    let ghost mut es: Seq<Seq<GameEvent>> = seq![e1, e1, e2, e2, e2, e2, e2, e7, e8, e9, e10, e11, e12];
    if caught {
        proof {
            ws = ws.push(w12);
            es = es.push(e12);
            assert(tick_chain(ws, es, input, caught));
        }
        return events;
    }
    resolve_timers(world, &mut events);
    let ghost (w13, e13) = (*world, events@);
    resolve_win(world, &mut events);
    proof {
        ws = ws.push(*world);
        es = es.push(events@);
        assert(win_done(w13, ws[13], e13, es[13]));
        assert(tick_chain(ws, es, input, caught));
    }
    events
}

/// Number of gold tiles in a row.
pub open spec fn row_gold(r: Seq<Tile>) -> nat
    decreases r.len(),
{
    if r.len() == 0 {
        0
    } else {
        row_gold(r.drop_last()) + if r.last() == Tile::Gold { 1nat } else { 0nat }
    }
}

/// Number of gold tiles in a grid.
pub open spec fn grid_gold(g: Seq<Vec<Tile>>) -> nat
    decreases g.len(),
{
    if g.len() == 0 {
        0
    } else {
        grid_gold(g.drop_last()) + row_gold(g.last()@)
    }
}

proof fn lemma_row_gold_bound(r: Seq<Tile>)
    ensures
        row_gold(r) <= r.len(),
    decreases r.len(),
{
    if r.len() > 0 {
        lemma_row_gold_bound(r.drop_last());
    }
}

proof fn lemma_grid_gold_bound(g: Seq<Vec<Tile>>, width: int)
    requires
        width >= 0,
        forall|y: int| 0 <= y < g.len() ==> (#[trigger] g[y])@.len() == width,
    ensures
        grid_gold(g) <= g.len() * width,
    decreases g.len(),
{
    if g.len() > 0 {
        let p = g.drop_last();
        assert forall|y: int| 0 <= y < p.len() implies (#[trigger] p[y])@.len() == width by {
            assert(p[y] == g[y]);
        }
        lemma_grid_gold_bound(p, width);
        lemma_row_gold_bound(g.last()@);
        assert((g.len() - 1) * width + width == g.len() * width) by (nonlinear_arith);
    }
}

/// Count the gold tiles of a well-formed grid.
pub fn count_gold(tiles: &Vec<Vec<Tile>>, width: usize, height: usize) -> (r: usize)
    requires
        physics::grid_wf(tiles@, width as int, height as int),
        width * height <= usize::MAX,
    ensures
        r == grid_gold(tiles@),
{
    let mut total: usize = 0;
    let mut y: usize = 0;
    while y < height
        invariant
            y <= height,
            physics::grid_wf(tiles@, width as int, height as int),
            width * height <= usize::MAX,
            total == grid_gold(tiles@.subrange(0, y as int)),
        decreases height - y,
    {
        let ghost pre = tiles@.subrange(0, y as int);
        let ghost cur = tiles@.subrange(0, y as int + 1);
        assert(cur.drop_last() == pre);
        proof {
            assert forall|k: int| 0 <= k < cur.len() implies (#[trigger] cur[k])@.len() == width by {
                assert(cur[k] == tiles@[k]);
            }
            lemma_grid_gold_bound(cur, width as int);
            assert((y + 1) * width <= width * height) by (nonlinear_arith)
                requires
                    y + 1 <= height,
            ;
            assert(cur.len() == y + 1);
            assert(grid_gold(cur) <= width * height);
        }
        let row = &tiles[y];
        assert(cur.last() == tiles@[y as int]);
        assert(grid_gold(cur) == grid_gold(pre) + row_gold(row@));
        let mut c: usize = 0;
        let mut x: usize = 0;
        while x < row.len()
            invariant
                x <= row@.len(),
                row@.len() == width,
                c == row_gold(row@.subrange(0, x as int)),
                total + row_gold(row@) <= usize::MAX,
                total + row_gold(row@.subrange(0, x as int)) <= usize::MAX,
            decreases row.len() - x,
        {
            let ghost rp = row@.subrange(0, x as int);
            let ghost rc = row@.subrange(0, x as int + 1);
            assert(rc.drop_last() == rp);
            proof {
                lemma_row_gold_prefix(row@, x as int + 1);
            }
            if row[x] == Tile::Gold {
                c = c + 1;
            }
            x = x + 1;
        }
        assert(row@.subrange(0, row@.len() as int) == row@);
        assert(cur.last() == tiles@[y as int]);
        total = total + c;
        y = y + 1;
    }
    assert(tiles@.subrange(0, height as int) == tiles@);
    total
}

proof fn lemma_row_gold_prefix(r: Seq<Tile>, k: int)
    requires
        0 <= k <= r.len(),
    ensures
        row_gold(r.subrange(0, k)) <= row_gold(r),
    decreases r.len() - k,
{
    if k < r.len() {
        lemma_row_gold_prefix(r, k + 1);
        assert(r.subrange(0, k + 1).drop_last() == r.subrange(0, k));
    } else {
        assert(r.subrange(0, k) == r);
    }
}

/// A guard back at its spawn point, ready to chase.
pub open spec fn guard_reset(g: Guard, move_rate: u32) -> Guard {
    Guard {
        x: g.spawn_x,
        y: g.spawn_y,
        state: ActorState::OnGround,
        carry_gold: false,
        carry_gold_timer: 0,
        stuck_timer: 0,
        move_cooldown: move_rate,
        respawn_timer: 0,
        separation_timer: 0,
        ..g
    }
}

/// Restart the current level: tiles back to the level as loaded, player and
/// guards back at their spawn points, holes and digs gone, exit closed and
/// the gold recounted from the tiles.
pub fn restart_level(world: &mut WorldState)
    requires
        old(world).wf(),
        old(world).width * old(world).height <= usize::MAX,
    ensures
        final(world).wf(),
        crate::world::same_grid(final(world).tiles@, old(world).base_tiles@),
        final(world).player == (Player {
            x: old(world).player_spawn.0,
            y: old(world).player_spawn.1,
            alive: true,
            state: ActorState::OnGround,
            move_cooldown: 0,
            ..old(world).player
        }),
        final(world).holes@.len() == 0 && final(world).digs@.len() == 0,
        !final(world).exit_enabled,
        final(world).gold_remaining == grid_gold(final(world).tiles@),
        final(world).gold_total == final(world).gold_remaining,
        final(world).guards@.len() == old(world).guards@.len(),
        forall|i: int|
            0 <= i < old(world).guards@.len() ==> #[trigger] final(world).guards@[i] == guard_reset(
                old(world).guards@[i],
                old(world).speed.guard_move_rate,
            ),
        final(world).width == old(world).width && final(world).height == old(world).height,
        final(world).base_tiles == old(world).base_tiles && final(world).speed == old(world).speed,
        final(world).phase == old(world).phase && final(world).score == old(world).score,
        *final(world) == (WorldState {
            tiles: final(world).tiles,
            player: final(world).player,
            holes: final(world).holes,
            digs: final(world).digs,
            hole_grid: final(world).hole_grid,
            exit_enabled: false,
            gold_remaining: final(world).gold_remaining,
            gold_total: final(world).gold_total,
            guards: final(world).guards,
            camera: final(world).camera,
            ..*old(world)
        }),
{
    world.reset_tiles();
    let (sx, sy) = world.player_spawn;
    world.player.x = sx;
    world.player.y = sy;
    world.player.alive = true;
    world.player.state = ActorState::OnGround;
    world.player.move_cooldown = 0;
    world.holes = Vec::new();
    world.digs = Vec::new();
    world.rebuild_hole_grid();
    world.exit_enabled = false;
    let gold = count_gold(&world.tiles, world.width, world.height);
    world.gold_remaining = gold;
    world.gold_total = gold;
    let rate = world.speed.guard_move_rate;
    let ghost w1 = *world;
    let n = world.guards.len();
    let mut i: usize = 0;
    while i < n
        invariant
            i <= n,
            n == world.guards@.len(),
            *world == (WorldState { guards: world.guards, ..w1 }),
            rate == w1.speed.guard_move_rate,
            forall|k: int| 0 <= k < i ==> #[trigger] world.guards@[k] == guard_reset(w1.guards@[k], rate),
            forall|k: int| i <= k < n ==> #[trigger] world.guards@[k] == w1.guards@[k],
        decreases n - i,
    {
        let g = world.guards[i];
        let mut r = g;
        r.x = g.spawn_x;
        r.y = g.spawn_y;
        r.state = ActorState::OnGround;
        r.carry_gold = false;
        r.carry_gold_timer = 0;
        r.stuck_timer = 0;
        r.move_cooldown = rate;
        r.respawn_timer = 0;
        r.separation_timer = 0;
        world.guards.set(i, r);
        i = i + 1;
    }
    let (w, h) = (world.width, world.height);
    world.camera.center_on(sx, sy, w, h);
}

} // verus!
