//! Building a world from level data: a grid of characters plus metadata.
//!
//! Legend: `#` brick, `=` concrete, `H` ladder, `-` rope, `$` gold,
//! `T` trap brick, `P` player spawn, `E` guard spawn, `^` exit column
//! marker, `~` hidden ladder position; anything else is empty.
use vstd::prelude::*;

use crate::config::GameConfig;
use crate::entity::{ActorState, Guard, Player};
use crate::physics::{grid_wf, tile_of};
use crate::step::grid_gold;
use crate::tile::Tile;
use crate::world::{same_grid, PackInfo, Phase, WorldState};

verus! {

/// One level: its name, its rows of characters, and hidden-ladder positions
/// given outside the grid.
pub struct LevelDef {
    pub name: String,
    pub rows: Vec<String>,
    pub extra_hidden_ladders: Vec<(usize, usize)>,
}

/// Width of a level: the length of its first row (28 for a level without rows).
pub open spec fn level_width(rows: Seq<String>) -> int {
    if rows.len() > 0 { rows[0]@.len() as int } else { 28 }
}

/// Terrain tile of a level character.
pub open spec fn level_tile(c: char) -> Tile {
    if c == '#' {
        Tile::Brick
    } else if c == '=' {
        Tile::Concrete
    } else if c == 'H' {
        Tile::Ladder
    } else if c == '-' {
        Tile::Rope
    } else if c == '$' {
        Tile::Gold
    } else if c == 'T' {
        Tile::TrapBrick
    } else {
        Tile::Empty
    }
}

/// Tile at (x, y) of a level; cells past the end of a short row are empty.
pub open spec fn level_cell(rows: Seq<String>, x: int, y: int) -> Tile {
    if x < rows[y]@.len() { level_tile(rows[y]@[x]) } else { Tile::Empty }
}

fn tile_of_char(c: char) -> (t: Tile)
    ensures
        t == level_tile(c),
{
    match c {
        '#' => Tile::Brick,
        '=' => Tile::Concrete,
        'H' => Tile::Ladder,
        '-' => Tile::Rope,
        '$' => Tile::Gold,
        'T' => Tile::TrapBrick,
        _ => Tile::Empty,
    }
}

fn contains_column(v: &Vec<usize>, x: usize) -> (r: bool)
    ensures
        r == v@.contains(x),
{
    let mut i: usize = 0;
    while i < v.len()
        invariant
            i <= v@.len(),
            forall|k: int| 0 <= k < i ==> v@[k] != x,
        decreases v.len() - i,
    {
        if v[i] == x {
            return true;
        }
        i = i + 1;
    }
    false
}

fn contains_position(v: &Vec<(usize, usize)>, p: (usize, usize)) -> (r: bool)
    ensures
        r == v@.contains(p),
{
    let mut i: usize = 0;
    while i < v.len()
        invariant
            i <= v@.len(),
            forall|k: int| 0 <= k < i ==> v@[k] != p,
        decreases v.len() - i,
    {
        if v[i].0 == p.0 && v[i].1 == p.1 {
            return true;
        }
        i = i + 1;
    }
    false
}

/// Cells among the first `k` of row `y` that hold `c`, left to right.
pub open spec fn row_marks(row: Seq<char>, c: char, y: int, k: int) -> Seq<(usize, usize)>
    decreases k,
{
    if k <= 0 {
        Seq::empty()
    } else {
        let p = row_marks(row, c, y, k - 1);
        if k - 1 < row.len() && row[k - 1] == c {
            p.push(((k - 1) as usize, y as usize))
        } else {
            p
        }
    }
}

/// Cells of the first `m` rows (within `width` columns) holding `c`, in
/// row-major order.
pub open spec fn grid_marks(rows: Seq<String>, c: char, width: int, m: int) -> Seq<(usize, usize)>
    decreases m,
{
    if m <= 0 {
        Seq::empty()
    } else {
        grid_marks(rows, c, width, m - 1) + row_marks(rows[m - 1]@, c, m - 1, width)
    }
}

/// Marks up to column `x` of row `y`.
pub open spec fn marks_to(rows: Seq<String>, c: char, width: int, y: int, x: int) -> Seq<(usize, usize)> {
    grid_marks(rows, c, width, y) + row_marks(rows[y]@, c, y, x)
}

/// The distinct columns of the marks, in order of first appearance.
pub open spec fn cols_of(ms: Seq<(usize, usize)>) -> Seq<usize>
    decreases ms.len(),
{
    if ms.len() == 0 {
        Seq::empty()
    } else {
        let p = cols_of(ms.drop_last());
        if p.contains(ms.last().0) { p } else { p.push(ms.last().0) }
    }
}

/// `base` followed by the positions of `extra` not already present.
pub open spec fn add_extra(base: Seq<(usize, usize)>, extra: Seq<(usize, usize)>) -> Seq<(usize, usize)>
    decreases extra.len(),
{
    if extra.len() == 0 {
        base
    } else {
        let p = add_extra(base, extra.drop_last());
        if p.contains(extra.last()) { p } else { p.push(extra.last()) }
    }
}

/// The guard spawned at the `i`-th `E` cell, waiting `rate` ticks.
pub open spec fn spawned_guard(i: int, p: (usize, usize), rate: u32) -> Guard {
    Guard { move_cooldown: rate, ..Guard::new_spec(i as usize, p.0, p.1) }
}

/// One guard per mark, in order.
pub open spec fn guards_at(gs: Seq<Guard>, ms: Seq<(usize, usize)>, rate: u32) -> bool {
    gs.len() == ms.len() && forall|i: int| 0 <= i < gs.len() ==> #[trigger] gs[i] == spawned_guard(i, ms[i], rate)
}

/// The player stands at the last `P` mark; without one it is left as it was.
pub open spec fn player_at(w: WorldState, p0: Player, s0: (usize, usize), ps: Seq<(usize, usize)>) -> bool {
    if ps.len() > 0 {
        w.player == Player::new_spec(ps.last().0, ps.last().1) && w.player_spawn == ps.last()
    } else {
        w.player == p0 && w.player_spawn == s0
    }
}

/// Load level `level_idx` of `levels` into the world, keeping score and
/// lives. Past the last level the game is complete.
pub fn load_level(world: &mut WorldState, levels: &[LevelDef], level_idx: usize, config: &GameConfig)
    requires
        level_idx < levels@.len() ==> levels@[level_idx as int].rows@.len() * level_width(levels@[level_idx as int].rows@)
            <= usize::MAX,
    ensures
        level_idx >= levels@.len() ==> *final(world) == (WorldState { phase: Phase::GameComplete, ..*old(world) }),
        level_idx < levels@.len() ==> ({
            let rows = levels@[level_idx as int].rows@;
            let w = *final(world);
            &&& w.wf()
            &&& w.height == rows.len() && w.width == level_width(rows)
            &&& forall|x: int, y: int| 0 <= x < w.width && 0 <= y < w.height ==> #[trigger] tile_of(w.tiles@, x, y) == level_cell(rows, x, y)
            &&& same_grid(w.base_tiles@, w.tiles@)
            &&& w.holes@.len() == 0 && w.digs@.len() == 0
            &&& w.gold_remaining == grid_gold(w.tiles@) && w.gold_total == w.gold_remaining
            &&& !w.exit_enabled && w.tick == 0
            &&& w.phase == Phase::LevelIntro
            &&& w.current_level == level_idx && w.total_levels == levels@.len()
            &&& w.score == old(world).score && w.lives == old(world).lives
            &&& forall|i: int|
                0 <= i < w.guards@.len() ==> (#[trigger] w.guards@[i]).id == i && w.guards@[i].move_cooldown == config.speed.guard_move_rate
                    && w.guards@[i].state == ActorState::OnGround
            &&& guards_at(w.guards@, grid_marks(rows, 'E', w.width as int, w.height as int), config.speed.guard_move_rate)
            &&& player_at(w, old(world).player, old(world).player_spawn, grid_marks(rows, 'P', w.width as int, w.height as int))
            &&& w.exit_columns@ == cols_of(grid_marks(rows, '^', w.width as int, w.height as int))
            &&& w.hidden_ladder_positions@ == add_extra(
                grid_marks(rows, '~', w.width as int, w.height as int),
                levels@[level_idx as int].extra_hidden_ladders@,
            )
        }),
{
    if level_idx >= levels.len() {
        world.phase = Phase::GameComplete;
        return;
    }
    let def = &levels[level_idx];
    world.current_level = level_idx;
    world.total_levels = levels.len();
    world.level_name = def.name.clone();
    let height = def.rows.len();
    let width = if height > 0 { def.rows[0].as_str().unicode_len() } else { 28 };
    world.width = width;
    world.height = height;
    world.guards = Vec::new();
    world.holes = Vec::new();
    world.digs = Vec::new();
    world.exit_columns = Vec::new();
    world.hidden_ladder_positions = Vec::new();
    world.exit_enabled = false;
    world.tick = 0;

    let mut tiles: Vec<Vec<Tile>> = Vec::new();
    let mut y: usize = 0;
    while y < height
        invariant
            y <= height,
            height == def.rows@.len(),
            width == level_width(def.rows@),
            tiles@.len() == y,
            forall|yy: int| 0 <= yy < y ==> (#[trigger] tiles@[yy])@.len() == width,
            forall|x: int, yy: int| 0 <= x < width && 0 <= yy < y ==> #[trigger] tiles@[yy]@[x] == level_cell(def.rows@, x, yy),
            world.width == width && world.height == height,
            forall|i: int|
                0 <= i < world.guards@.len() ==> (#[trigger] world.guards@[i]).id == i && world.guards@[i].move_cooldown
                    == config.speed.guard_move_rate && world.guards@[i].state == ActorState::OnGround,
            world.holes@.len() == 0 && world.digs@.len() == 0,
            !world.exit_enabled && world.tick == 0,
            world.current_level == level_idx && world.total_levels == levels@.len(),
            world.score == old(world).score && world.lives == old(world).lives,
            guards_at(world.guards@, grid_marks(def.rows@, 'E', width as int, y as int), config.speed.guard_move_rate),
            player_at(*world, old(world).player, old(world).player_spawn, grid_marks(def.rows@, 'P', width as int, y as int)),
            world.exit_columns@ == cols_of(grid_marks(def.rows@, '^', width as int, y as int)),
            world.hidden_ladder_positions@ == grid_marks(def.rows@, '~', width as int, y as int),
        decreases height - y,
    {
        let row = def.rows[y].as_str();
        let len = row.unicode_len();
        let mut line: Vec<Tile> = Vec::new();
        let mut x: usize = 0;
        proof {
            let rr = def.rows@;
            assert(marks_to(rr, 'E', width as int, y as int, 0) =~= grid_marks(rr, 'E', width as int, y as int));
            assert(marks_to(rr, 'P', width as int, y as int, 0) =~= grid_marks(rr, 'P', width as int, y as int));
            assert(marks_to(rr, '^', width as int, y as int, 0) =~= grid_marks(rr, '^', width as int, y as int));
            assert(marks_to(rr, '~', width as int, y as int, 0) =~= grid_marks(rr, '~', width as int, y as int));
        }
        while x < width
            invariant
                x <= width,
                len == row@.len(),
                row@ == def.rows@[y as int]@,
                y < height,
                height == def.rows@.len(),
                line@.len() == x,
                forall|xx: int| 0 <= xx < x ==> #[trigger] line@[xx] == level_cell(def.rows@, xx, y as int),
                world.width == width && world.height == height,
                forall|i: int|
                    0 <= i < world.guards@.len() ==> (#[trigger] world.guards@[i]).id == i && world.guards@[i].move_cooldown
                        == config.speed.guard_move_rate && world.guards@[i].state == ActorState::OnGround,
                world.holes@.len() == 0 && world.digs@.len() == 0,
                !world.exit_enabled && world.tick == 0,
                world.current_level == level_idx && world.total_levels == levels@.len(),
                world.score == old(world).score && world.lives == old(world).lives,
                guards_at(world.guards@, marks_to(def.rows@, 'E', width as int, y as int, x as int), config.speed.guard_move_rate),
                player_at(*world, old(world).player, old(world).player_spawn, marks_to(def.rows@, 'P', width as int, y as int, x as int)),
                world.exit_columns@ == cols_of(marks_to(def.rows@, '^', width as int, y as int, x as int)),
                world.hidden_ladder_positions@ == marks_to(def.rows@, '~', width as int, y as int, x as int),
            decreases width - x,
        {
            if x >= len {
                line.push(Tile::Empty);
            } else {
                let ch = row.get_char(x);
                line.push(tile_of_char(ch));
                if ch == 'P' {
                    world.player = Player::new(x, y);
                    world.player_spawn = (x, y);
                } else if ch == 'E' {
                    let id = world.guards.len();
                    let mut g = Guard::new(id, x, y);
                    g.move_cooldown = config.speed.guard_move_rate;
                    world.guards.push(g);
                    assert(world.guards@[id as int] == spawned_guard(id as int, (x, y), config.speed.guard_move_rate));
                } else if ch == '^' {
                    proof {
                        let ms = marks_to(def.rows@, '^', width as int, y as int, x as int);
                        assert(ms.push((x, y)).drop_last() =~= ms);
                        assert(ms.push((x, y)).last() == (x, y));
                    }
                    if !contains_column(&world.exit_columns, x) {
                        world.exit_columns.push(x);
                    }
                } else if ch == '~' {
                    world.hidden_ladder_positions.push((x, y));
                }
            }
            proof {
                let rr = def.rows@;
                let yi = y as int;
                let xi = x as int;
                assert forall|c: char| #[trigger] marks_to(rr, c, width as int, yi, xi + 1) == (if xi < rr[yi]@.len() && rr[yi]@[xi] == c {
                    marks_to(rr, c, width as int, yi, xi).push((x, y))
                } else {
                    marks_to(rr, c, width as int, yi, xi)
                }) by {
                    assert(row_marks(rr[yi]@, c, yi, xi + 1) == (if xi < rr[yi]@.len() && rr[yi]@[xi] == c {
                        row_marks(rr[yi]@, c, yi, xi).push((x, y))
                    } else {
                        row_marks(rr[yi]@, c, yi, xi)
                    }));
                    if xi < rr[yi]@.len() && rr[yi]@[xi] == c {
                        assert(marks_to(rr, c, width as int, yi, xi + 1) =~= marks_to(rr, c, width as int, yi, xi).push((x, y)));
                    }
                }
            }
            x = x + 1;
        }
        proof {
            let rr = def.rows@;
            assert(grid_marks(rr, 'E', width as int, y + 1) =~= marks_to(rr, 'E', width as int, y as int, width as int));
            assert(grid_marks(rr, 'P', width as int, y + 1) =~= marks_to(rr, 'P', width as int, y as int, width as int));
            assert(grid_marks(rr, '^', width as int, y + 1) =~= marks_to(rr, '^', width as int, y as int, width as int));
            assert(grid_marks(rr, '~', width as int, y + 1) =~= marks_to(rr, '~', width as int, y as int, width as int));
        }
        tiles.push(line);
        y = y + 1;
    }
    let mut k: usize = 0;
    while k < def.extra_hidden_ladders.len()
        invariant
            k <= def.extra_hidden_ladders@.len(),
            world.width == width && world.height == height,
            forall|i: int|
                0 <= i < world.guards@.len() ==> (#[trigger] world.guards@[i]).id == i && world.guards@[i].move_cooldown
                    == config.speed.guard_move_rate && world.guards@[i].state == ActorState::OnGround,
            world.holes@.len() == 0 && world.digs@.len() == 0,
            !world.exit_enabled && world.tick == 0,
            world.current_level == level_idx && world.total_levels == levels@.len(),
            world.score == old(world).score && world.lives == old(world).lives,
            guards_at(world.guards@, grid_marks(def.rows@, 'E', width as int, height as int), config.speed.guard_move_rate),
            player_at(*world, old(world).player, old(world).player_spawn, grid_marks(def.rows@, 'P', width as int, height as int)),
            world.exit_columns@ == cols_of(grid_marks(def.rows@, '^', width as int, height as int)),
            world.hidden_ladder_positions@ == add_extra(grid_marks(def.rows@, '~', width as int, height as int), def.extra_hidden_ladders@.subrange(0, k as int)),
        decreases def.extra_hidden_ladders.len() - k,
    {
        let p = def.extra_hidden_ladders[k];
        proof {
            let ex = def.extra_hidden_ladders@;
            assert(ex.subrange(0, k + 1).drop_last() == ex.subrange(0, k as int));
            assert(ex.subrange(0, k + 1).last() == p);
        }
        if !contains_position(&world.hidden_ladder_positions, p) {
            world.hidden_ladder_positions.push(p);
        }
        k = k + 1;
    }
    assert(def.extra_hidden_ladders@.subrange(0, def.extra_hidden_ladders@.len() as int) == def.extra_hidden_ladders@);
    assert(grid_wf(tiles@, width as int, height as int));
    assert(height * width <= usize::MAX);
    assert(width * height == height * width) by (nonlinear_arith);
    let gold = crate::step::count_gold(&tiles, width, height);
    world.base_tiles = crate::world::copy_grid(&tiles);
    world.tiles = tiles;
    world.gold_remaining = gold;
    world.gold_total = gold;
    world.rebuild_hole_grid();
    world.phase = Phase::LevelIntro;
    world.anim_tick = 0;
    world.set_message(def.name.as_str(), 80);
    let (sx, sy) = world.player_spawn;
    world.camera.center_on(sx, sy, width, height);
}

/// Names of the given levels, in order.
pub fn get_level_list_for_pack(levels: &[LevelDef]) -> (names: Vec<String>)
    ensures
        names@.len() == levels@.len(),
        forall|i: int| 0 <= i < levels@.len() ==> (#[trigger] names@[i])@ == levels@[i].name@,
{
    let mut names: Vec<String> = Vec::new();
    let mut i: usize = 0;
    while i < levels.len()
        invariant
            i <= levels@.len(),
            names@.len() == i,
            forall|k: int| 0 <= k < i ==> (#[trigger] names@[k])@ == levels@[k].name@,
        decreases levels.len() - i,
    {
        names.push(levels[i].name.clone());
        i = i + 1;
    }
    names
}

/// Make `pack` the active pack, whose levels are `levels`.
pub fn switch_pack(world: &mut WorldState, pack: &PackInfo, levels: &[LevelDef])
    ensures
        final(world).active_pack@ == pack.name@,
        final(world).active_pack_path@ == pack.path@,
        final(world).level_names@.len() == levels@.len(),
        forall|i: int| 0 <= i < levels@.len() ==> (#[trigger] final(world).level_names@[i])@ == levels@[i].name@,
        final(world).total_levels == levels@.len(),
{
    world.active_pack = pack.name.clone();
    world.active_pack_path = pack.path.clone();
    world.level_names = get_level_list_for_pack(levels);
    world.total_levels = world.level_names.len();
}


/// One built-in level with its rows.
fn built_in(name: &str, rows: Vec<String>) -> (d: LevelDef)
    ensures
        d.name@ == name@,
        d.rows@ == rows@,
        d.extra_hidden_ladders@.len() == 0,
{
    LevelDef { name: String::from_str(name), rows, extra_hidden_ladders: Vec::new() }
}

fn built_in_1() -> (d: LevelDef)
    ensures
        d.rows@.len() == 16,
{
    let mut rows: Vec<String> = Vec::new();
    rows.push(String::from_str("        ^                ^  "));
    rows.push(String::from_str("                            "));
    rows.push(String::from_str("    $                       "));
    rows.push(String::from_str("########H#######            "));
    rows.push(String::from_str("        H----------     $   "));
    rows.push(String::from_str("        H    ##H   ######H##"));
    rows.push(String::from_str("      E H    ##H      $E H  "));
    rows.push(String::from_str("##H#################H#######"));
    rows.push(String::from_str("  H                 H       "));
    rows.push(String::from_str("  H           E     H       "));
    rows.push(String::from_str("##########H#########H       "));
    rows.push(String::from_str("          H         H       "));
    rows.push(String::from_str("       $  H---------H  $    "));
    rows.push(String::from_str("    H#######        #######H"));
    rows.push(String::from_str("    H          P  $        H"));
    rows.push(String::from_str("############################"));
    built_in("Node 1 - Genesis Block", rows)
}

fn built_in_2() -> (d: LevelDef)
    ensures
        d.rows@.len() == 16,
{
    let mut rows: Vec<String> = Vec::new();
    rows.push(String::from_str("   ^                  ^     "));
    rows.push(String::from_str("                            "));
    rows.push(String::from_str("    $     $    $     $      "));
    rows.push(String::from_str("   ###   ###  ###   ###     "));
    rows.push(String::from_str("   H                  H     "));
    rows.push(String::from_str("   H  --------  ---   H     "));
    rows.push(String::from_str("   H  H      H  H H  H     "));
    rows.push(String::from_str("   H $H  E   H  H$H  H     "));
    rows.push(String::from_str("   H##H######H  H#H  H     "));
    rows.push(String::from_str("   H  H      H  H H  H     "));
    rows.push(String::from_str("   H  H--  --H--H-H--H     "));
    rows.push(String::from_str("   H  H   $     H    H     "));
    rows.push(String::from_str(" P H  H  ###  E H  $ H     "));
    rows.push(String::from_str(" ##H==H=========H==##H==   "));
    rows.push(String::from_str("   H  H         H    H     "));
    rows.push(String::from_str("============================"));
    built_in("Node 2 - Locked Vault", rows)
}

fn built_in_3() -> (d: LevelDef)
    ensures
        d.rows@.len() == 16,
{
    let mut rows: Vec<String> = Vec::new();
    rows.push(String::from_str("         ^      ^           "));
    rows.push(String::from_str("  $  $  $  $  $  $  $  $    "));
    rows.push(String::from_str("  ## ## ## ## ## ## ## ##    "));
    rows.push(String::from_str("          E         E       "));
    rows.push(String::from_str("   ------H------H------    "));
    rows.push(String::from_str("         H      H      H   "));
    rows.push(String::from_str("    $    H  $   H   $  H   "));
    rows.push(String::from_str("   #T##  H #T## H #### H   "));
    rows.push(String::from_str("      E  H      H    E H   "));
    rows.push(String::from_str("   H-----H--  --H----H-H   "));
    rows.push(String::from_str("   H     H      H    H H   "));
    rows.push(String::from_str("   H  $  H   $  H  $ H H   "));
    rows.push(String::from_str(" P H ##T H  ##  H ## H H   "));
    rows.push(String::from_str(" ##H=====H======H====H=H   "));
    rows.push(String::from_str("   H     H      H    H H   "));
    rows.push(String::from_str("============================"));
    built_in("Node 3 - Firewall Maze", rows)
}

fn built_in_4() -> (d: LevelDef)
    ensures
        d.rows@.len() == 16,
{
    let mut rows: Vec<String> = Vec::new();
    rows.push(String::from_str("    ^                  ^    "));
    rows.push(String::from_str("                            "));
    rows.push(String::from_str("    --------------------    "));
    rows.push(String::from_str("    H    $    $    $   H    "));
    rows.push(String::from_str("    H   ###  ###  ###  H    "));
    rows.push(String::from_str("    H   H         H   H    "));
    rows.push(String::from_str("    H   H    E    H   H    "));
    rows.push(String::from_str("    H---H--####---H---H    "));
    rows.push(String::from_str("    H   H         H   H    "));
    rows.push(String::from_str("    H   H  $   $  H   H    "));
    rows.push(String::from_str("    H   H ##  ## EH   H    "));
    rows.push(String::from_str("    H   H   H    H    H    "));
    rows.push(String::from_str("  P H $ H   H  $ H  $ H    "));
    rows.push(String::from_str("  ##H###H===H====H=####    "));
    rows.push(String::from_str("    H   H   H    H         "));
    rows.push(String::from_str("============================"));
    built_in("Node 4 - Deep Stack", rows)
}

fn built_in_5() -> (d: LevelDef)
    ensures
        d.rows@.len() == 16,
{
    let mut rows: Vec<String> = Vec::new();
    rows.push(String::from_str("           ^                "));
    rows.push(String::from_str("  $           $          $  "));
    rows.push(String::from_str("  ##   ----H----   ----  ## "));
    rows.push(String::from_str("       H   H   H  H  H     "));
    rows.push(String::from_str("    $  H   H   H  H$ H     "));
    rows.push(String::from_str("   ### H E H   H  H##H     "));
    rows.push(String::from_str("   H   H###H   H  H  H     "));
    rows.push(String::from_str("   H---H   H---H--H--H     "));
    rows.push(String::from_str("   H   H $ H      H  H     "));
    rows.push(String::from_str("   H   H## H   E  H  H     "));
    rows.push(String::from_str("   H   H   H #### H  H     "));
    rows.push(String::from_str("   H $EH   H      H$ H     "));
    rows.push(String::from_str(" P H ##H---H------H##H     "));
    rows.push(String::from_str(" ##H===H===H======H===     "));
    rows.push(String::from_str("   H   H   H      H        "));
    rows.push(String::from_str("============================"));
    built_in("Node 5 - Final Fork", rows)
}

/// The levels built into the game, in play order.
pub fn embedded_levels() -> (r: Vec<LevelDef>)
    ensures
        r@.len() == 5,
        forall|i: int| 0 <= i < r@.len() ==> (#[trigger] r@[i]).rows@.len() > 0,
{
    let mut r: Vec<LevelDef> = Vec::new();
    r.push(built_in_1());
    r.push(built_in_2());
    r.push(built_in_3());
    r.push(built_in_4());
    r.push(built_in_5());
    r
}

} // verus!
