//! Phase flow around play: level intro and outro, dying, starting games,
//! loading saves and returning to the title screen.
//!
//! The embedding application runs its frame loop and calls these; each is a
//! transition of the world from one state to the next.
use vstd::prelude::*;

use crate::config::GameConfig;
use crate::level::{level_width, load_level, LevelDef};
use crate::physics::grid_wf;
use crate::save::{capture_snapshot, restore_snapshot, SaveData, Snapshot};
use crate::step::restart_level;
use crate::world::{PackInfo, Phase, WorldState};

verus! {

/// Ticks the level name is shown before the map starts to appear.
pub const INTRO_NAME_TICKS: u32 = 8;

/// Ticks between two map rows appearing.
pub const INTRO_ROW_INTERVAL: u32 = 2;

/// Length of the level intro.
pub const INTRO_TOTAL: u32 = 44;

/// Length of the death animation.
pub const DYING_TICKS: u32 = 18;

/// Rows of the map revealed so far by the intro animation.
pub fn calc_intro_rows_visible(world: &WorldState) -> (r: usize)
    ensures
        world.anim_tick <= INTRO_NAME_TICKS ==> r == 0,
        world.anim_tick > INTRO_NAME_TICKS ==> r == (if (world.anim_tick - INTRO_NAME_TICKS) / (INTRO_ROW_INTERVAL as int) < world.height {
            (world.anim_tick - INTRO_NAME_TICKS) / (INTRO_ROW_INTERVAL as int)
        } else {
            world.height as int
        }),
{
    let tick = world.anim_tick;
    if tick <= INTRO_NAME_TICKS {
        return 0;
    }
    let rows = ((tick - INTRO_NAME_TICKS) / INTRO_ROW_INTERVAL) as usize;
    if rows < world.height {
        rows
    } else {
        world.height
    }
}

/// One tick of the level intro; when it is over the level waits for the
/// player to start.
pub fn tick_level_intro(world: &mut WorldState)
    ensures
        ({
            let t = if old(world).anim_tick < u32::MAX { old(world).anim_tick + 1 } else { u32::MAX as int };
            if t >= INTRO_TOTAL {
                *final(world) == (WorldState { phase: Phase::LevelReady, anim_tick: 0, ..*old(world) })
            } else {
                *final(world) == (WorldState { anim_tick: t as u32, ..*old(world) })
            }
        }),
{
    world.anim_tick = world.anim_tick.saturating_add(1);
    if world.anim_tick >= INTRO_TOTAL {
        world.phase = Phase::LevelReady;
        world.anim_tick = 0;
    }
}

/// One tick of the level outro: the player climbs off the top, one row every
/// three ticks; past two rows above the map the level is complete.
pub fn tick_level_outro(world: &mut WorldState)
    ensures
        ({
            let t = if old(world).anim_tick < u32::MAX { old(world).anim_tick + 1 } else { u32::MAX as int };
            let y = if t % 3 == 0 && old(world).anim_player_y > i32::MIN {
                old(world).anim_player_y - 1
            } else {
                old(world).anim_player_y as int
            };
            &&& final(world).anim_tick == t
            &&& final(world).anim_player_y == y
            &&& final(world).phase == (if y < -2 { Phase::LevelComplete } else { old(world).phase })
            &&& *final(world) == (WorldState {
                anim_tick: final(world).anim_tick,
                anim_player_y: final(world).anim_player_y,
                phase: final(world).phase,
                ..*old(world)
            })
        }),
{
    world.anim_tick = world.anim_tick.saturating_add(1);
    if world.anim_tick % 3 == 0 {
        if world.anim_player_y > i32::MIN {
            world.anim_player_y = world.anim_player_y - 1;
        }
    }
    if world.anim_player_y < -2 {
        world.phase = Phase::LevelComplete;
    }
}

/// One tick of the death animation. When it ends a life is lost: with none
/// left the game is over, otherwise the level restarts and waits for the
/// player.
pub fn tick_dying(world: &mut WorldState)
    requires
        old(world).wf(),
        old(world).width * old(world).height <= usize::MAX,
    ensures
        final(world).wf(),
        old(world).anim_tick + 1 < DYING_TICKS ==> *final(world) == (WorldState { anim_tick: (old(world).anim_tick + 1) as u32, ..*old(world) }),
        old(world).anim_tick + 1 >= DYING_TICKS ==> final(world).lives == (if old(world).lives > 0 { old(world).lives - 1 } else { 0 }),
        old(world).anim_tick + 1 >= DYING_TICKS && final(world).lives == 0 ==> final(world).phase == Phase::GameOver,
        old(world).anim_tick + 1 >= DYING_TICKS && final(world).lives > 0 ==> {
            &&& final(world).phase == Phase::LevelReady
            &&& final(world).anim_tick == 0
            &&& final(world).player.alive
            &&& final(world).player.x == old(world).player_spawn.0 && final(world).player.y == old(world).player_spawn.1
        },
{
    world.anim_tick = world.anim_tick.saturating_add(1);
    if world.anim_tick >= DYING_TICKS {
        world.lives = world.lives.saturating_sub(1);
        if world.lives == 0 {
            world.phase = Phase::GameOver;
            world.set_message("CONNECTION LOST", 120);
        } else {
            restart_level(world);
            world.phase = Phase::LevelReady;
            world.anim_tick = 0;
        }
    }
}

/// The levels can be loaded: the one at `level` fits in memory.
pub open spec fn loadable(levels: Seq<LevelDef>, level: usize) -> bool {
    level < levels.len() ==> levels[level as int].rows@.len() * level_width(levels[level as int].rows@) <= usize::MAX
}

/// A new game from the first level, with a fresh score and five lives.
pub fn start_new_game(world: &mut WorldState, levels: &[LevelDef], config: &GameConfig)
    requires
        loadable(levels@, 0),
    ensures
        final(world).score == 0 && final(world).lives == 5,
        levels@.len() == 0 ==> final(world).phase == Phase::GameComplete,
        levels@.len() > 0 ==> final(world).phase == Phase::LevelIntro && final(world).current_level == 0 && final(world).wf(),
{
    world.score = 0;
    world.lives = 5;
    load_level(world, levels, 0, config);
}

/// Start at a given level with a given score and lives.
pub fn start_from_level(world: &mut WorldState, levels: &[LevelDef], level: usize, score: u32, lives: u32, config: &GameConfig)
    requires
        loadable(levels@, level),
    ensures
        final(world).score == score && final(world).lives == lives,
        level >= levels@.len() ==> final(world).phase == Phase::GameComplete,
        level < levels@.len() ==> final(world).phase == Phase::LevelIntro && final(world).current_level == level && final(world).wf(),
{
    world.score = score;
    world.lives = lives;
    load_level(world, levels, level, config);
}

/// A snapshot of the world during play; none in any other phase.
pub fn snapshot_if_playing(world: &WorldState) -> (r: Option<Snapshot>)
    ensures
        r is Some <==> world.phase == Phase::Playing,
        r matches Some(s) ==> s.tick == world.tick && s.width == world.width && s.height == world.height,
{
    if world.phase == Phase::Playing {
        Some(capture_snapshot(world))
    } else {
        None
    }
}

/// `tiles` has `height` rows of `width` cells.
pub fn grid_fits<T>(tiles: &Vec<Vec<T>>, width: usize, height: usize) -> (r: bool)
    ensures
        r == grid_wf(tiles@, width as int, height as int),
{
    if tiles.len() != height {
        return false;
    }
    let mut y: usize = 0;
    while y < height
        invariant
            y <= height,
            tiles@.len() == height,
            forall|k: int| 0 <= k < y ==> (#[trigger] tiles@[k])@.len() == width,
        decreases height - y,
    {
        if tiles[y].len() != width {
            return false;
        }
        y = y + 1;
    }
    true
}

/// The save's snapshot fits the grid of the level it names.
pub open spec fn resumable(data: SaveData, levels: Seq<LevelDef>) -> bool {
    match data.snapshot {
        Some(s) => data.level < levels.len() && grid_wf(s.tiles@, s.width as int, s.height as int) && s.width == level_width(
            levels[data.level as int].rows@,
        ) && s.height == levels[data.level as int].rows@.len(),
        None => false,
    }
}

/// Resume from saved data: start its level with its score and lives, then
/// restore its snapshot and resume play when there is one that matches the
/// level's dimensions. Otherwise the level starts fresh.
pub fn load_save_data(world: &mut WorldState, data: &SaveData, levels: &[LevelDef], config: &GameConfig) -> (resumed: bool)
    requires
        loadable(levels@, data.level),
    ensures
        final(world).score == data.score && final(world).lives == data.lives,
        resumed ==> final(world).phase == Phase::Playing && final(world).wf(),
        resumed == resumable(*data, levels@),
{
    world.score = data.score;
    world.lives = data.lives;
    load_level(world, levels, data.level, config);
    if data.level >= levels.len() {
        return false;
    }
    match &data.snapshot {
        Some(snap) => {
            if snap.width == world.width && snap.height == world.height && grid_fits(&snap.tiles, snap.width, snap.height) {
                restore_snapshot(world, snap);
                world.phase = Phase::Playing;
                true
            } else {
                false
            }
        },
        None => false,
    }
}

/// Back to the title screen with a fresh world, keeping the timings, the
/// level list and the active pack.
pub fn return_to_title(world: &mut WorldState, has_save: bool)
    ensures
        final(world).wf(),
        final(world).phase == Phase::Title,
        final(world).has_save == has_save,
        !final(world).paused,
        final(world).speed == old(world).speed,
        final(world).total_levels == old(world).total_levels,
        final(world).level_names@ == old(world).level_names@,
        final(world).active_pack@ == old(world).active_pack@,
        final(world).active_pack_path@ == old(world).active_pack_path@,
        final(world).score == 0,
{
    let mut fresh = WorldState::new();
    fresh.speed = world.speed;
    std::mem::swap(&mut fresh.level_names, &mut world.level_names);
    fresh.total_levels = world.total_levels;
    std::mem::swap(&mut fresh.active_pack, &mut world.active_pack);
    std::mem::swap(&mut fresh.active_pack_path, &mut world.active_pack_path);
    fresh.has_save = has_save;
    fresh.paused = false;
    fresh.phase = Phase::Title;
    *world = fresh;
}

/// The two texts are equal.
fn same_text(a: &str, b: &str) -> (r: bool)
    ensures
        r == (a@ == b@),
{
    let n = a.unicode_len();
    if n != b.unicode_len() {
        return false;
    }
    let mut i: usize = 0;
    while i < n
        invariant
            i <= n,
            n == a@.len() && n == b@.len(),
            forall|k: int| 0 <= k < i ==> a@[k] == b@[k],
        decreases n - i,
    {
        if a.get_char(i) != b.get_char(i) {
            return false;
        }
        i = i + 1;
    }
    assert(a@ =~= b@);
    true
}

/// Open the pack selector over `packs`, with the cursor on the active pack
/// (the first entry when it is not listed).
pub fn open_pack_select(world: &mut WorldState, packs: Vec<PackInfo>)
    ensures
        final(world).phase == Phase::PackSelect,
        final(world).anim_tick == 0 && final(world).pack_scroll == 0,
        final(world).pack_list@ == packs@,
        final(world).pack_cursor == 0 || (final(world).pack_cursor < packs@.len()
            && packs@[final(world).pack_cursor as int].path@ == old(world).active_pack_path@),
        (exists|k: int| 0 <= k < packs@.len() && (#[trigger] packs@[k]).path@ == old(world).active_pack_path@) ==> packs@[final(world).pack_cursor as int].path@ == old(world).active_pack_path@,
        forall|k: int| 0 <= k < final(world).pack_cursor ==> (#[trigger] packs@[k]).path@ != old(world).active_pack_path@,
{
    let mut cursor: usize = 0;
    let mut found = false;
    let mut i: usize = 0;
    while i < packs.len()
        invariant
            i <= packs@.len(),
            !found ==> cursor == 0,
            found ==> cursor < packs@.len() && packs@[cursor as int].path@ == world.active_pack_path@,
            !found ==> forall|k: int| 0 <= k < i ==> (#[trigger] packs@[k]).path@ != world.active_pack_path@,
            found ==> forall|k: int| 0 <= k < cursor ==> (#[trigger] packs@[k]).path@ != world.active_pack_path@,
        decreases packs.len() - i,
    {
        if !found && same_text(packs[i].path.as_str(), world.active_pack_path.as_str()) {
            cursor = i;
            found = true;
        }
        i = i + 1;
    }
    world.pack_list = packs;
    world.pack_cursor = cursor;
    world.pack_scroll = 0;
    world.phase = Phase::PackSelect;
    world.anim_tick = 0;
}

} // verus!
