//! Guard steering: breadth-first chase toward the player, or a scored step
//! away from the nearest guard while separating.
use vstd::prelude::*;

use std::collections::VecDeque;

use crate::entity::{ActorState, Guard};
use crate::physics::{self, grid_wf, support_spec, terrain_spec};
use crate::tile::Tile;

verus! {

/// Node-expansion budget of the chase search.
pub const BFS_MAX_DEPTH: usize = 300;

/// How many ticks guards spend in separation mode after contact.
pub const SEPARATION_TICKS: u32 = 10;

/// The four directions in evaluation order: left, right, up, down.
pub open spec fn dir_spec(k: int) -> (i32, i32) {
    if k == 0 {
        (-1i32, 0i32)
    } else if k == 1 {
        (1i32, 0i32)
    } else if k == 2 {
        (0i32, -1i32)
    } else {
        (0i32, 1i32)
    }
}

/// The result is staying put or one of the four directions.
pub open spec fn is_step(d: (i32, i32)) -> bool {
    d == (0i32, 0i32) || d == dir_spec(0) || d == dir_spec(1) || d == dir_spec(2) || d == dir_spec(3)
}

/// One legal step for a guard at (x, y) by (dx, dy): the target must be on
/// the map and passable; going up needs a climbable cell; going down from
/// plain supported ground needs a ladder below; sideways needs support.
pub open spec fn move_spec(
    tiles: Seq<Vec<Tile>>,
    width: int,
    height: int,
    hole_grid: Seq<Vec<bool>>,
    guards: Seq<Guard>,
    x: int,
    y: int,
    dx: int,
    dy: int,
) -> Option<(int, int)> {
    let nx = x + dx;
    let ny = y + dy;
    let here = terrain_spec(tiles, width, height, hole_grid, x, y);
    let below = terrain_spec(tiles, width, height, hole_grid, x, y + 1);
    let supported = support_spec(tiles, width, height, hole_grid, guards, x, y, -1);
    if nx < 0 || ny < 0 || nx >= width || ny >= height {
        None
    } else if !terrain_spec(tiles, width, height, hole_grid, nx, ny).passable {
        None
    } else if dy < 0 && !here.climbable {
        None
    } else if dy > 0 && y + 1 < height && !here.climbable && !here.hangable && !below.climbable && supported {
        None
    } else if dx != 0 && !supported {
        None
    } else {
        Some((nx, ny))
    }
}

/// Moving by `d` from (x, y) lands on a passable cell of the map.
pub open spec fn lands_passable(
    tiles: Seq<Vec<Tile>>,
    width: int,
    height: int,
    hole_grid: Seq<Vec<bool>>,
    x: int,
    y: int,
    d: (i32, i32),
) -> bool {
    let nx = x + d.0;
    let ny = y + d.1;
    0 <= nx < width && 0 <= ny < height && terrain_spec(tiles, width, height, hole_grid, nx, ny).passable
}

/// Direction k from (gx, gy) is a legal step straight onto (px, py).
pub open spec fn reaches_at(
    tiles: Seq<Vec<Tile>>,
    width: int,
    height: int,
    hole_grid: Seq<Vec<bool>>,
    guards: Seq<Guard>,
    gx: int,
    gy: int,
    px: int,
    py: int,
    k: int,
) -> bool {
    move_spec(tiles, width, height, hole_grid, guards, gx, gy, dir_spec(k).0 as int, dir_spec(k).1 as int) == Some((px, py))
}

/// Every cell unvisited.
pub open spec fn all_false(width: int, height: int) -> Seq<Seq<bool>> {
    Seq::new(height as nat, |y: int| Seq::new(width as nat, |x: int| false))
}

/// Mark (x, y) visited.
pub open spec fn mark(v: Seq<Seq<bool>>, x: int, y: int) -> Seq<Seq<bool>> {
    v.update(y, v[y].update(x, true))
}

pub open spec fn vviews(v: Seq<Vec<bool>>) -> Seq<Seq<bool>> {
    v.map_values(|r: Vec<bool>| r@)
}

/// The greedy step used when the search gives up: sideways toward the
/// player onto an open cell, else along a ladder toward the player.
pub open spec fn fallback_spec(
    tiles: Seq<Vec<Tile>>,
    width: int,
    height: int,
    hole_grid: Seq<Vec<bool>>,
    gx: int,
    gy: int,
    px: int,
    py: int,
) -> (i32, i32) {
    let open = |x: int, y: int| terrain_spec(tiles, width, height, hole_grid, x, y).passable;
    if px > gx && gx + 1 < width && open(gx + 1, gy) {
        (1i32, 0i32)
    } else if px < gx && gx >= 1 && gx - 1 < width && open(gx - 1, gy) {
        (-1i32, 0i32)
    } else if terrain_spec(tiles, width, height, hole_grid, gx, gy).climbable {
        if py > gy && gy + 1 < height && open(gx, gy + 1) {
            (0i32, 1i32)
        } else if py < gy && gy >= 1 && gy - 1 < height && open(gx, gy - 1) {
            (0i32, -1i32)
        } else {
            (0i32, 0i32)
        }
    } else {
        (0i32, 0i32)
    }
}

/// The four first steps from the guard, from direction `k` on: a step onto
/// the player ends the search; other new cells are marked and queued with
/// their direction.
pub open spec fn first_steps(
    tiles: Seq<Vec<Tile>>,
    width: int,
    height: int,
    hole_grid: Seq<Vec<bool>>,
    guards: Seq<Guard>,
    gx: int,
    gy: int,
    px: int,
    py: int,
    k: int,
    vis: Seq<Seq<bool>>,
    q: Seq<(usize, usize, i32, i32)>,
) -> (Option<(i32, i32)>, Seq<Seq<bool>>, Seq<(usize, usize, i32, i32)>)
    decreases 4 - k,
{
    if k >= 4 {
        (None, vis, q)
    } else {
        let d = dir_spec(k);
        match move_spec(tiles, width, height, hole_grid, guards, gx, gy, d.0 as int, d.1 as int) {
            Some(n) => {
                if n.0 == px && n.1 == py {
                    (Some(d), vis, q)
                } else if !vis[n.1][n.0] {
                    first_steps(tiles, width, height, hole_grid, guards, gx, gy, px, py, k + 1, mark(vis, n.0, n.1), q.push((n.0 as usize, n.1 as usize, d.0, d.1)))
                } else {
                    first_steps(tiles, width, height, hole_grid, guards, gx, gy, px, py, k + 1, vis, q)
                }
            },
            None => first_steps(tiles, width, height, hole_grid, guards, gx, gy, px, py, k + 1, vis, q),
        }
    }
}

/// Expanding a supported cell (cx, cy) reached by first step `f`, from
/// direction `k` on: unvisited neighbours end the search when they are the
/// player, else are marked and queued.
pub open spec fn expand(
    tiles: Seq<Vec<Tile>>,
    width: int,
    height: int,
    hole_grid: Seq<Vec<bool>>,
    guards: Seq<Guard>,
    px: int,
    py: int,
    cx: int,
    cy: int,
    f: (i32, i32),
    k: int,
    vis: Seq<Seq<bool>>,
    q: Seq<(usize, usize, i32, i32)>,
) -> (Option<(i32, i32)>, Seq<Seq<bool>>, Seq<(usize, usize, i32, i32)>)
    decreases 4 - k,
{
    if k >= 4 {
        (None, vis, q)
    } else {
        let d = dir_spec(k);
        match move_spec(tiles, width, height, hole_grid, guards, cx, cy, d.0 as int, d.1 as int) {
            Some(n) => {
                if !vis[n.1][n.0] {
                    if n.0 == px && n.1 == py {
                        (Some(f), vis, q)
                    } else {
                        expand(tiles, width, height, hole_grid, guards, px, py, cx, cy, f, k + 1, mark(vis, n.0, n.1), q.push((n.0 as usize, n.1 as usize, f.0, f.1)))
                    }
                } else {
                    expand(tiles, width, height, hole_grid, guards, px, py, cx, cy, f, k + 1, vis, q)
                }
            },
            None => expand(tiles, width, height, hole_grid, guards, px, py, cx, cy, f, k + 1, vis, q),
        }
    }
}

/// The breadth-first search from queue `q` after `steps` expansions: the
/// first step of a path reaching the player, or the greedy fallback once
/// the queue is empty or `BFS_MAX_DEPTH` cells were expanded. An
/// unsupported cell only expands straight down.
pub open spec fn bfs(
    tiles: Seq<Vec<Tile>>,
    width: int,
    height: int,
    hole_grid: Seq<Vec<bool>>,
    guards: Seq<Guard>,
    gx: int,
    gy: int,
    px: int,
    py: int,
    vis: Seq<Seq<bool>>,
    q: Seq<(usize, usize, i32, i32)>,
    steps: int,
) -> (i32, i32)
    decreases BFS_MAX_DEPTH - steps,
{
    if q.len() == 0 || steps >= BFS_MAX_DEPTH {
        fallback_spec(tiles, width, height, hole_grid, gx, gy, px, py)
    } else {
        let e = q[0];
        let (cx, cy) = (e.0 as int, e.1 as int);
        let q1 = q.drop_first();
        if !support_spec(tiles, width, height, hole_grid, guards, cx, cy, -1) {
            if cy + 1 < height && terrain_spec(tiles, width, height, hole_grid, cx, cy + 1).passable && !vis[cy + 1][cx] {
                if cx == px && cy + 1 == py {
                    (e.2, e.3)
                } else {
                    bfs(tiles, width, height, hole_grid, guards, gx, gy, px, py, mark(vis, cx, cy + 1), q1.push((e.0, (cy + 1) as usize, e.2, e.3)), steps + 1)
                }
            } else {
                bfs(tiles, width, height, hole_grid, guards, gx, gy, px, py, vis, q1, steps + 1)
            }
        } else {
            let r = expand(tiles, width, height, hole_grid, guards, px, py, cx, cy, (e.2, e.3), 0, vis, q1);
            match r.0 {
                Some(d) => d,
                None => bfs(tiles, width, height, hole_grid, guards, gx, gy, px, py, r.1, r.2, steps + 1),
            }
        }
    }
}

/// The chase step: nothing for a trapped or dead guard, one on the player or
/// one off the map; else the search from the guard's cell.
pub open spec fn chase_spec(
    tiles: Seq<Vec<Tile>>,
    width: int,
    height: int,
    hole_grid: Seq<Vec<bool>>,
    guards: Seq<Guard>,
    gx: int,
    gy: int,
    gstate: ActorState,
    px: int,
    py: int,
) -> (i32, i32) {
    if gstate == ActorState::InHole || gstate == ActorState::Dead || (gx == px && gy == py) || gx >= width || gy >= height {
        (0i32, 0i32)
    } else {
        let f = first_steps(tiles, width, height, hole_grid, guards, gx, gy, px, py, 0, mark(all_false(width, height), gx, gy), Seq::empty());
        match f.0 {
            Some(d) => d,
            None => bfs(tiles, width, height, hole_grid, guards, gx, gy, px, py, f.1, f.2, 0),
        }
    }
}

fn set_visited(v: &mut Vec<Vec<bool>>, x: usize, y: usize)
    requires
        y < old(v)@.len(),
        x < old(v)@[y as int]@.len(),
    ensures
        vviews(final(v)@) == mark(vviews(old(v)@), x as int, y as int),
        final(v)@.len() == old(v)@.len(),
        forall|k: int| 0 <= k < old(v)@.len() ==> (#[trigger] final(v)@[k])@.len() == old(v)@[k]@.len(),
{
    let ghost o = vviews(v@);
    v[y][x] = true;
    assert(vviews(v@) =~= mark(o, x as int, y as int));
}

struct Ctx<'a> {
    tiles: &'a [Vec<Tile>],
    width: usize,
    height: usize,
    hole_grid: &'a [Vec<bool>],
    guards: &'a [Guard],
}

impl<'a> Ctx<'a> {
    spec fn wf(&self) -> bool {
        grid_wf(self.tiles@, self.width as int, self.height as int)
    }

    fn terrain(&self, x: usize, y: usize) -> (r: physics::TerrainCell)
        requires
            self.wf(),
        ensures
            r == terrain_spec(self.tiles@, self.width as int, self.height as int, self.hole_grid@, x as int, y as int),
    {
        physics::terrain_at(self.tiles, self.width, self.height, self.hole_grid, x, y)
    }

    fn support(&self, x: usize, y: usize) -> (r: bool)
        requires
            self.wf(),
        ensures
            r == support_spec(self.tiles@, self.width as int, self.height as int, self.hole_grid@, self.guards@, x as int, y as int, -1),
    {
        physics::has_support(self.tiles, self.width, self.height, self.hole_grid, self.guards, x, y)
    }

    fn can_enter(&self, x: usize, y: usize) -> (r: bool)
        requires
            self.wf(),
        ensures
            r == terrain_spec(self.tiles@, self.width as int, self.height as int, self.hole_grid@, x as int, y as int).passable,
    {
        self.terrain(x, y).passable
    }
}

fn dir_at(k: usize) -> (r: (i32, i32))
    requires
        k < 4,
    ensures
        r == dir_spec(k as int),
{
    if k == 0 {
        (-1, 0)
    } else if k == 1 {
        (1, 0)
    } else if k == 2 {
        (0, -1)
    } else {
        (0, 1)
    }
}

fn try_move(ctx: &Ctx, x: usize, y: usize, dx: i32, dy: i32) -> (r: Option<(usize, usize)>)
    requires
        ctx.wf(),
        -1 <= dx <= 1,
        -1 <= dy <= 1,
    ensures
        move_spec(ctx.tiles@, ctx.width as int, ctx.height as int, ctx.hole_grid@, ctx.guards@, x as int, y as int, dx as int, dy as int)
            == (match r {
            Some(t) => Some((t.0 as int, t.1 as int)),
            None => None::<(int, int)>,
        }),
{
    if (dx < 0 && x == 0) || (dy < 0 && y == 0) {
        return None;
    }
    if (dx > 0 && x >= ctx.width) || (dy > 0 && y >= ctx.height) {
        return None;
    }
    let nx: usize = if dx < 0 { x - 1 } else if dx > 0 { x + 1 } else { x };
    let ny: usize = if dy < 0 { y - 1 } else if dy > 0 { y + 1 } else { y };
    if nx >= ctx.width || ny >= ctx.height {
        return None;
    }
    if !ctx.can_enter(nx, ny) {
        return None;
    }
    let here = ctx.terrain(x, y);
    if dy < 0 && !here.climbable {
        return None;
    }
    if dy > 0 {
        if y + 1 < ctx.height {
            let below = ctx.terrain(x, y + 1);
            if !here.climbable && !here.hangable && !below.climbable {
                if ctx.support(x, y) {
                    return None;
                }
            }
        }
    }
    if dx != 0 && !ctx.support(x, y) {
        return None;
    }
    Some((nx, ny))
}

fn sign(a: usize, b: usize) -> (r: i32)
    ensures
        a > b ==> r == 1,
        a < b ==> r == -1,
        a == b ==> r == 0,
{
    if a > b {
        1
    } else if a < b {
        -1
    } else {
        0
    }
}

/// Greedy single step used when the search budget runs out: sideways toward
/// the player if that cell is open, else along a ladder toward the player.
fn fallback_chase(ctx: &Ctx, gx: usize, gy: usize, px: usize, py: usize) -> (r: (i32, i32))
    requires
        ctx.wf(),
    ensures
        is_step(r),
        r != (0i32, 0i32) ==> lands_passable(ctx.tiles@, ctx.width as int, ctx.height as int, ctx.hole_grid@, gx as int, gy as int, r),
        r == fallback_spec(ctx.tiles@, ctx.width as int, ctx.height as int, ctx.hole_grid@, gx as int, gy as int, px as int, py as int),
{
    let dx = sign(px, gx);
    if dx != 0 {
        if dx > 0 && gx + 1 < ctx.width && ctx.can_enter(gx + 1, gy) {
            return (dx, 0);
        }
        if dx < 0 && gx >= 1 && gx - 1 < ctx.width && ctx.can_enter(gx - 1, gy) {
            return (dx, 0);
        }
    }
    let here = ctx.terrain(gx, gy);
    if here.climbable {
        let dy = sign(py, gy);
        if dy > 0 && gy + 1 < ctx.height && ctx.can_enter(gx, gy + 1) {
            return (0, dy);
        }
        if dy < 0 && gy >= 1 && gy - 1 < ctx.height && ctx.can_enter(gx, gy - 1) {
            return (0, dy);
        }
    }
    (0, 0)
}

/// Chase step for a guard at (gx, gy) toward the player at (px, py).
///
/// Breadth-first search over legal guard steps (an unsupported cell only
/// expands straight down), returning the first step of a path to the
/// player; after `BFS_MAX_DEPTH` expansions without reaching the player it
/// falls back to a greedy step. Trapped or dead guards, guards already on
/// the player, and guards off the map stay put.
#[verifier::rlimit(60)]
pub fn find_direction(
    tiles: &[Vec<Tile>],
    width: usize,
    height: usize,
    hole_grid: &[Vec<bool>],
    guards: &[Guard],
    gx: usize,
    gy: usize,
    gstate: ActorState,
    px: usize,
    py: usize,
) -> (r: (i32, i32))
    requires
        grid_wf(tiles@, width as int, height as int),
    ensures
        is_step(r),
        (gstate == ActorState::InHole || gstate == ActorState::Dead || (gx == px && gy == py)) ==> r == (0i32, 0i32),
        r != (0i32, 0i32) ==> lands_passable(tiles@, width as int, height as int, hole_grid@, gx as int, gy as int, r),
        forall|k: int|
            0 <= k < 4 && gstate != ActorState::InHole && gstate != ActorState::Dead && gx < width && gy < height
                && #[trigger] reaches_at(tiles@, width as int, height as int, hole_grid@, guards@, gx as int, gy as int, px as int, py as int, k)
                && (forall|j: int| 0 <= j < k ==> !reaches_at(tiles@, width as int, height as int, hole_grid@, guards@, gx as int, gy as int, px as int, py as int, j))
                ==> r == dir_spec(k),
        r == chase_spec(tiles@, width as int, height as int, hole_grid@, guards@, gx as int, gy as int, gstate, px as int, py as int),
{
    let ghost res = chase_spec(tiles@, width as int, height as int, hole_grid@, guards@, gx as int, gy as int, gstate, px as int, py as int);
    if gstate == ActorState::InHole || gstate == ActorState::Dead {
        return (0, 0);
    }
    if gx == px && gy == py {
        return (0, 0);
    }
    let ctx = Ctx { tiles, width, height, hole_grid, guards };
    if gx >= width || gy >= height {
        return (0, 0);
    }
    let mut visited: Vec<Vec<bool>> = Vec::new();
    let mut y: usize = 0;
    while y < height
        invariant
            y <= height,
            visited@.len() == y,
            forall|yy: int| 0 <= yy < y ==> (#[trigger] visited@[yy])@ == Seq::new(width as nat, |x: int| false),
        decreases height - y,
    {
        let mut row: Vec<bool> = Vec::new();
        let mut x: usize = 0;
        while x < width
            invariant
                x <= width,
                row@ == Seq::new(x as nat, |i: int| false),
            decreases width - x,
        {
            row.push(false);
            x = x + 1;
            assert(row@ =~= Seq::new(x as nat, |i: int| false));
        }
        visited.push(row);
        y = y + 1;
    }
    assert(vviews(visited@) =~= all_false(width as int, height as int));
    set_visited(&mut visited, gx, gy);
    let ghost vis0 = vviews(visited@);
    assert(res == (match first_steps(tiles@, width as int, height as int, hole_grid@, guards@, gx as int, gy as int, px as int, py as int, 0, vis0, Seq::empty()).0 {
        Some(d) => d,
        None => bfs(tiles@, width as int, height as int, hole_grid@, guards@, gx as int, gy as int, px as int, py as int, first_steps(tiles@, width as int, height as int, hole_grid@, guards@, gx as int, gy as int, px as int, py as int, 0, vis0, Seq::empty()).1, first_steps(tiles@, width as int, height as int, hole_grid@, guards@, gx as int, gy as int, px as int, py as int, 0, vis0, Seq::empty()).2, 0),
    }));

    let mut queue: VecDeque<(usize, usize, i32, i32)> = VecDeque::new();
    let mut k: usize = 0;
    while k < 4
        invariant
            ctx.wf(),
            ctx.tiles@ == tiles@ && ctx.width == width && ctx.height == height && ctx.hole_grid@ == hole_grid@ && ctx.guards@ == guards@,
            gx < width && gy < height && !(gx == px && gy == py),
            gstate != ActorState::InHole && gstate != ActorState::Dead,
            k <= 4,
            grid_wf(visited@, width as int, height as int),
            forall|j: int| 0 <= j < k ==> !reaches_at(tiles@, width as int, height as int, hole_grid@, guards@, gx as int, gy as int, px as int, py as int, j),
            forall|i: int|
                0 <= i < queue@.len() ==> {
                    let e = #[trigger] queue@[i];
                    e.0 < width && e.1 < height && is_step((e.2, e.3)) && (e.2, e.3) != (0i32, 0i32)
                        && lands_passable(tiles@, width as int, height as int, hole_grid@, gx as int, gy as int, (e.2, e.3))
                },
            res == chase_spec(tiles@, width as int, height as int, hole_grid@, guards@, gx as int, gy as int, gstate, px as int, py as int),
            res == (match first_steps(tiles@, width as int, height as int, hole_grid@, guards@, gx as int, gy as int, px as int, py as int, 0, vis0, Seq::empty()).0 {
                Some(d) => d,
                None => bfs(tiles@, width as int, height as int, hole_grid@, guards@, gx as int, gy as int, px as int, py as int, first_steps(tiles@, width as int, height as int, hole_grid@, guards@, gx as int, gy as int, px as int, py as int, 0, vis0, Seq::empty()).1, first_steps(tiles@, width as int, height as int, hole_grid@, guards@, gx as int, gy as int, px as int, py as int, 0, vis0, Seq::empty()).2, 0),
            }),
            first_steps(tiles@, width as int, height as int, hole_grid@, guards@, gx as int, gy as int, px as int, py as int, 0, vis0, Seq::empty()) == first_steps(tiles@, width as int, height as int, hole_grid@, guards@, gx as int, gy as int, px as int, py as int, k as int, vviews(visited@), queue@),
        decreases 4 - k,
    {
        let (dx, dy) = dir_at(k);
        match try_move(&ctx, gx, gy, dx, dy) {
            Some((nx, ny)) => {
                if nx == px && ny == py {
                    assert(first_steps(tiles@, width as int, height as int, hole_grid@, guards@, gx as int, gy as int, px as int, py as int, k as int, vviews(visited@), queue@).0 == Some((dx, dy)));
                    return (dx, dy);
                }
                assert(vviews(visited@)[ny as int] == visited@[ny as int]@);
                if !visited[ny][nx] {
                    set_visited(&mut visited, nx, ny);
                    queue.push_back((nx, ny, dx, dy));
                }
            },
            None => {},
        }
        k = k + 1;
    }

    let mut steps: usize = 0;
    loop
        invariant
            ctx.wf(),
            ctx.tiles@ == tiles@ && ctx.width == width && ctx.height == height && ctx.hole_grid@ == hole_grid@ && ctx.guards@ == guards@,
            steps <= BFS_MAX_DEPTH,
            res == bfs(tiles@, width as int, height as int, hole_grid@, guards@, gx as int, gy as int, px as int, py as int, vviews(visited@), queue@, steps as int),
            res == chase_spec(tiles@, width as int, height as int, hole_grid@, guards@, gx as int, gy as int, gstate, px as int, py as int),
            gx < width && gy < height && !(gx == px && gy == py),
            gstate != ActorState::InHole && gstate != ActorState::Dead,
            forall|j: int| 0 <= j < 4 ==> !reaches_at(tiles@, width as int, height as int, hole_grid@, guards@, gx as int, gy as int, px as int, py as int, j),
            grid_wf(visited@, width as int, height as int),
            forall|i: int|
                0 <= i < queue@.len() ==> {
                    let e = #[trigger] queue@[i];
                    e.0 < width && e.1 < height && is_step((e.2, e.3)) && (e.2, e.3) != (0i32, 0i32)
                        && lands_passable(tiles@, width as int, height as int, hole_grid@, gx as int, gy as int, (e.2, e.3))
                },
        ensures
            res == fallback_spec(tiles@, width as int, height as int, hole_grid@, gx as int, gy as int, px as int, py as int),
        decreases BFS_MAX_DEPTH - steps,
    {
        let ghost q0 = queue@;
        let ghost v0 = vviews(visited@);
        let entry = queue.pop_front();
        let (cx, cy, fdx, fdy) = match entry {
            Some(e) => e,
            None => break,
        };
        if steps >= BFS_MAX_DEPTH {
            break;
        }
        steps = steps + 1;

        assert(q0.drop_first() == queue@);
        if !ctx.support(cx, cy) {
            if cy + 1 < height {
                assert(vviews(visited@)[cy + 1] == visited@[cy + 1]@);
            }
            if cy + 1 < height && ctx.can_enter(cx, cy + 1) && !visited[cy + 1][cx] {
                if cx == px && cy + 1 == py {
                    return (fdx, fdy);
                }
                set_visited(&mut visited, cx, cy + 1);
                queue.push_back((cx, cy + 1, fdx, fdy));
            }
            continue;
        }
        let ghost q1 = queue@;

        let mut k: usize = 0;
        while k < 4
            invariant
                ctx.wf(),
                ctx.tiles@ == tiles@ && ctx.width == width && ctx.height == height && ctx.hole_grid@ == hole_grid@ && ctx.guards@ == guards@,
                k <= 4,
                cx < width && cy < height,
                gx < width && gy < height && !(gx == px && gy == py),
                gstate != ActorState::InHole && gstate != ActorState::Dead,
                forall|j: int| 0 <= j < 4 ==> !reaches_at(tiles@, width as int, height as int, hole_grid@, guards@, gx as int, gy as int, px as int, py as int, j),
                is_step((fdx, fdy)) && (fdx, fdy) != (0i32, 0i32),
                lands_passable(tiles@, width as int, height as int, hole_grid@, gx as int, gy as int, (fdx, fdy)),
                grid_wf(visited@, width as int, height as int),
                forall|i: int|
                    0 <= i < queue@.len() ==> {
                        let e = #[trigger] queue@[i];
                        e.0 < width && e.1 < height && is_step((e.2, e.3)) && (e.2, e.3) != (0i32, 0i32)
                            && lands_passable(tiles@, width as int, height as int, hole_grid@, gx as int, gy as int, (e.2, e.3))
                    },
                res == bfs(tiles@, width as int, height as int, hole_grid@, guards@, gx as int, gy as int, px as int, py as int, v0, q0, steps - 1),
                res == chase_spec(tiles@, width as int, height as int, hole_grid@, guards@, gx as int, gy as int, gstate, px as int, py as int),
                q0.len() > 0 && q0[0] == (cx, cy, fdx, fdy) && steps >= 1 && steps - 1 < BFS_MAX_DEPTH,
                support_spec(tiles@, width as int, height as int, hole_grid@, guards@, cx as int, cy as int, -1),
                expand(tiles@, width as int, height as int, hole_grid@, guards@, px as int, py as int, cx as int, cy as int, (fdx, fdy), 0, v0, q1) == expand(tiles@, width as int, height as int, hole_grid@, guards@, px as int, py as int, cx as int, cy as int, (fdx, fdy), k as int, vviews(visited@), queue@),
                q1 == q0.drop_first(),
            decreases 4 - k,
        {
            let (dx, dy) = dir_at(k);
            match try_move(&ctx, cx, cy, dx, dy) {
                Some((nx, ny)) => {
                    assert(vviews(visited@)[ny as int] == visited@[ny as int]@);
                    if !visited[ny][nx] {
                        if nx == px && ny == py {
                            assert(expand(tiles@, width as int, height as int, hole_grid@, guards@, px as int, py as int, cx as int, cy as int, (fdx, fdy), k as int, vviews(visited@), queue@).0 == Some((fdx, fdy)));
                            assert(bfs(tiles@, width as int, height as int, hole_grid@, guards@, gx as int, gy as int, px as int, py as int, v0, q0, steps - 1) == (fdx, fdy));
                            return (fdx, fdy);
                        }
                        set_visited(&mut visited, nx, ny);
                        queue.push_back((nx, ny, fdx, fdy));
                    }
                },
                None => {},
            }
            k = k + 1;
        }
    }

    fallback_chase(&ctx, gx, gy, px, py)
}

pub open spec fn manhattan_spec(x1: int, y1: int, x2: int, y2: int) -> int {
    (if x1 >= x2 { x1 - x2 } else { x2 - x1 }) + (if y1 >= y2 { y1 - y2 } else { y2 - y1 })
}

fn manhattan(x1: usize, y1: usize, x2: usize, y2: usize) -> (r: i128)
    ensures
        r == manhattan_spec(x1 as int, y1 as int, x2 as int, y2 as int),
{
    let dx: i128 = if x1 >= x2 { (x1 - x2) as i128 } else { (x2 - x1) as i128 };
    let dy: i128 = if y1 >= y2 { (y1 - y2) as i128 } else { (y2 - y1) as i128 };
    dx + dy
}

/// Distance to, and cell of, the nearest active guard among the first `n`
/// other than `idx` (the earliest on ties); `(i128::MAX, gx, gy)` when there
/// is none.
pub open spec fn nearest_upto(guards: Seq<Guard>, idx: int, gx: int, gy: int, n: int) -> (int, int, int)
    decreases n,
{
    if n <= 0 {
        (i128::MAX as int, gx, gy)
    } else {
        let p = nearest_upto(guards, idx, gx, gy, n - 1);
        let g = guards[n - 1];
        let d = manhattan_spec(g.x as int, g.y as int, gx, gy);
        if n - 1 != idx && physics::is_active_guard(g) && d < p.0 {
            (d, g.x as int, g.y as int)
        } else {
            p
        }
    }
}

/// Score of stepping from (gx, gy) to (nx, ny): ten times the distance gained
/// from the nearest guard at (ox, oy), plus the distance gained toward the
/// player.
pub open spec fn separation_score(gx: int, gy: int, nx: int, ny: int, ox: int, oy: int, px: int, py: int) -> int {
    10 * (manhattan_spec(nx, ny, ox, oy) - manhattan_spec(gx, gy, ox, oy)) + (manhattan_spec(gx, gy, px, py) - manhattan_spec(nx, ny, px, py))
}

/// Best score and direction among the first `k` directions (earliest on
/// ties); `(i128::MIN, (0, 0))` when none of them is a legal step.
pub open spec fn best_upto(
    tiles: Seq<Vec<Tile>>,
    width: int,
    height: int,
    hole_grid: Seq<Vec<bool>>,
    guards: Seq<Guard>,
    gx: int,
    gy: int,
    ox: int,
    oy: int,
    px: int,
    py: int,
    k: int,
) -> (int, (i32, i32))
    decreases k,
{
    if k <= 0 {
        (i128::MIN as int, (0i32, 0i32))
    } else {
        let p = best_upto(tiles, width, height, hole_grid, guards, gx, gy, ox, oy, px, py, k - 1);
        let d = dir_spec(k - 1);
        match move_spec(tiles, width, height, hole_grid, guards, gx, gy, d.0 as int, d.1 as int) {
            Some(t) => {
                let sc = separation_score(gx, gy, t.0, t.1, ox, oy, px, py);
                if sc > p.0 {
                    (sc, d)
                } else {
                    p
                }
            },
            None => p,
        }
    }
}

/// The separation step: away from the nearest active guard when one is
/// within distance 3 and some step is legal, else the chase step.
pub open spec fn separation_spec(
    tiles: Seq<Vec<Tile>>,
    width: int,
    height: int,
    hole_grid: Seq<Vec<bool>>,
    guards: Seq<Guard>,
    idx: int,
    gx: int,
    gy: int,
    gstate: ActorState,
    px: int,
    py: int,
) -> (i32, i32) {
    if gstate == ActorState::InHole || gstate == ActorState::Dead {
        (0i32, 0i32)
    } else {
        let near = nearest_upto(guards, idx, gx, gy, guards.len() as int);
        let best = best_upto(tiles, width, height, hole_grid, guards, gx, gy, near.1, near.2, px, py, 4);
        if near.0 <= 3 && best.1 != (0i32, 0i32) {
            best.1
        } else {
            chase_spec(tiles, width, height, hole_grid, guards, gx, gy, gstate, px, py)
        }
    }
}

/// Separation step for the guard at index `guard_idx`, standing at (gx, gy).
///
/// Finds the nearest other active guard (first in index order on ties). If
/// none is within distance 3, chases. Otherwise scores each legal step by
/// `10 * (gain in distance from that guard) + (gain toward the player)` and
/// takes the best, the earliest of left, right, up, down on ties; with no
/// legal step it chases.
#[verifier::rlimit(60)]
pub fn find_separation_direction(
    tiles: &[Vec<Tile>],
    width: usize,
    height: usize,
    hole_grid: &[Vec<bool>],
    guards: &[Guard],
    guard_idx: usize,
    gx: usize,
    gy: usize,
    gstate: ActorState,
    px: usize,
    py: usize,
) -> (r: (i32, i32))
    requires
        grid_wf(tiles@, width as int, height as int),
    ensures
        is_step(r),
        (gstate == ActorState::InHole || gstate == ActorState::Dead) ==> r == (0i32, 0i32),
        r != (0i32, 0i32) ==> lands_passable(tiles@, width as int, height as int, hole_grid@, gx as int, gy as int, r),
        ({
            let near = nearest_upto(guards@, guard_idx as int, gx as int, gy as int, guards@.len() as int);
            let best = best_upto(
                tiles@,
                width as int,
                height as int,
                hole_grid@,
                guards@,
                gx as int,
                gy as int,
                near.1,
                near.2,
                px as int,
                py as int,
                4,
            );
            &&& (gstate != ActorState::InHole && gstate != ActorState::Dead && near.0 <= 3 && best.1 != (0i32, 0i32)) ==> r == best.1
            &&& (gstate != ActorState::InHole && gstate != ActorState::Dead && (near.0 > 3 || best.1 == (0i32, 0i32))) ==> r
                == chase_spec(tiles@, width as int, height as int, hole_grid@, guards@, gx as int, gy as int, gstate, px as int, py as int)
        }),
        r == separation_spec(tiles@, width as int, height as int, hole_grid@, guards@, guard_idx as int, gx as int, gy as int, gstate, px as int, py as int),
{
    if gstate == ActorState::InHole || gstate == ActorState::Dead {
        return (0, 0);
    }
    let ctx = Ctx { tiles, width, height, hole_grid, guards };

    let mut nearest_dist: i128 = i128::MAX;
    let mut nearest_x = gx;
    let mut nearest_y = gy;
    let mut j: usize = 0;
    while j < guards.len()
        invariant
            j <= guards@.len(),
            (nearest_dist as int, nearest_x as int, nearest_y as int) == nearest_upto(guards@, guard_idx as int, gx as int, gy as int, j as int),
        decreases guards.len() - j,
    {
        let other = guards[j];
        if j != guard_idx && other.state != ActorState::Dead && other.state != ActorState::InHole {
            let dist = manhattan(other.x, other.y, gx, gy);
            if dist < nearest_dist {
                nearest_dist = dist;
                nearest_x = other.x;
                nearest_y = other.y;
            }
        }
        j = j + 1;
    }

    if nearest_dist > 3 {
        return find_direction(tiles, width, height, hole_grid, guards, gx, gy, gstate, px, py);
    }

    let current_guard_dist = manhattan(gx, gy, nearest_x, nearest_y);
    let current_player_dist = manhattan(gx, gy, px, py);
    let mut best_dir: (i32, i32) = (0, 0);
    let mut best_score: i128 = i128::MIN;
    let mut k: usize = 0;
    while k < 4
        invariant
            ctx.wf(),
            ctx.tiles@ == tiles@ && ctx.width == width && ctx.height == height && ctx.hole_grid@ == hole_grid@,
            k <= 4,
            current_guard_dist >= 0 && current_player_dist >= 0,
            current_guard_dist <= 2 * (usize::MAX as int) && current_player_dist <= 2 * (usize::MAX as int),
            is_step(best_dir),
            best_dir != (0i32, 0i32) ==> lands_passable(tiles@, width as int, height as int, hole_grid@, gx as int, gy as int, best_dir),
            ctx.guards@ == guards@,
            nearest_dist <= 3,
            current_guard_dist == manhattan_spec(gx as int, gy as int, nearest_x as int, nearest_y as int),
            current_player_dist == manhattan_spec(gx as int, gy as int, px as int, py as int),
            (best_score as int, best_dir) == best_upto(
                tiles@,
                width as int,
                height as int,
                hole_grid@,
                guards@,
                gx as int,
                gy as int,
                nearest_x as int,
                nearest_y as int,
                px as int,
                py as int,
                k as int,
            ),
        decreases 4 - k,
    {
        let (dx, dy) = dir_at(k);
        match try_move(&ctx, gx, gy, dx, dy) {
            Some((nx, ny)) => {
                let guard_dist = manhattan(nx, ny, nearest_x, nearest_y);
                let player_dist = manhattan(nx, ny, px, py);
                let separation_gain = guard_dist - current_guard_dist;
                let player_gain = current_player_dist - player_dist;
                let score = separation_gain * 10 + player_gain;
                if score > best_score {
                    best_score = score;
                    best_dir = (dx, dy);
                }
            },
            None => {},
        }
        k = k + 1;
    }

    if best_dir.0 == 0 && best_dir.1 == 0 {
        return find_direction(tiles, width, height, hole_grid, guards, gx, gy, gstate, px, py);
    }
    best_dir
}

} // verus!
