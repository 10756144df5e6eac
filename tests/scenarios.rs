use noderunner::ai::SEPARATION_TICKS;
use noderunner::config::GameConfig;
use noderunner::entity::{ActorState, Facing, FrameInput, Hole, MoveDir};
use noderunner::event::GameEvent;
use noderunner::level::{load_level, LevelDef};
use noderunner::step::{restart_level, step};
use noderunner::tile::Tile;
use noderunner::world::{Phase, WorldState};

fn playing(rows: &[&str]) -> WorldState {
    let def = LevelDef {
        name: "Test".to_string(),
        rows: rows.iter().map(|r| r.to_string()).collect(),
        extra_hidden_ladders: vec![],
    };
    let mut w = WorldState::new();
    load_level(&mut w, std::slice::from_ref(&def), 0, &GameConfig::defaults());
    w.phase = Phase::Playing;
    for g in w.guards.iter_mut() {
        g.move_cooldown = 0;
    }
    w
}

fn idle() -> FrameInput {
    FrameInput { movement: None, dig: None }
}

#[test]
fn dig_opens_hole_after_dig_duration() {
    let mut w = playing(&["P  ", "###", "###"]);
    let ev = step(&mut w, FrameInput { movement: None, dig: Some(Facing::Right) });
    assert!(ev.contains(&GameEvent::HoleCreated { x: 1, y: 1 }));
    assert_eq!(w.digs.len(), 1);
    assert_eq!(w.tiles[1][1], Tile::Brick);
    let duration = w.speed.dig_duration;
    for _ in 1..duration {
        assert!(w.holes.is_empty());
        step(&mut w, idle());
    }
    assert_eq!(w.holes.len(), 1);
    assert_eq!((w.holes[0].x, w.holes[0].y), (1, 1));
    assert!(w.digs.is_empty());
    assert_eq!(w.tiles[1][1], Tile::Empty);
    let cell = w.terrain_cell(1, 1);
    assert!(cell.passable && cell.hole);
}

#[test]
fn dig_refused_under_gold_or_twice() {
    let mut w = playing(&["P$ ", "###"]);
    let ev = step(&mut w, FrameInput { movement: None, dig: Some(Facing::Right) });
    assert!(ev.is_empty());
    assert!(w.digs.is_empty());

    let mut w = playing(&["P  ", "###"]);
    step(&mut w, FrameInput { movement: None, dig: Some(Facing::Right) });
    let ev = step(&mut w, FrameInput { movement: None, dig: Some(Facing::Right) });
    assert!(!ev.contains(&GameEvent::HoleCreated { x: 1, y: 1 }));
    assert_eq!(w.digs.len(), 1);
}

#[test]
fn guard_walking_into_hole_is_trapped_and_drops_gold() {
    let mut w = playing(&["E  P", "####"]);
    w.holes.push(Hole::new(1, 1, 100, 20));
    w.rebuild_hole_grid();
    w.guards[0].carry_gold = true;
    step(&mut w, idle());
    let g = w.guards[0];
    assert_eq!((g.x, g.y), (1, 1));
    assert_eq!(g.state, ActorState::InHole);
    assert!(!g.carry_gold);
    assert_eq!(w.tiles[0][1], Tile::Gold);
}

#[test]
fn guard_escapes_toward_player() {
    let mut w = playing(&["   P", "####"]);
    w.guards.push(noderunner::entity::Guard::new(0, 1, 1));
    w.guards[0].state = ActorState::InHole;
    w.guards[0].stuck_timer = 1;
    w.holes.push(Hole::new(1, 1, 100, 20));
    w.rebuild_hole_grid();
    step(&mut w, idle());
    let g = w.guards[0];
    assert_eq!((g.x, g.y), (2, 0));
    assert_eq!(g.state, ActorState::OnGround);
    assert_eq!(g.facing, Facing::Right);
}

#[test]
fn guard_stays_trapped_when_both_diagonals_blocked() {
    let mut w = playing(&["= =P", "####"]);
    w.guards.push(noderunner::entity::Guard::new(0, 1, 1));
    w.guards[0].state = ActorState::InHole;
    w.guards[0].stuck_timer = 1;
    w.holes.push(Hole::new(1, 1, 100, 20));
    w.rebuild_hole_grid();
    step(&mut w, idle());
    let g = w.guards[0];
    assert_eq!((g.x, g.y), (1, 1));
    assert_eq!(g.state, ActorState::InHole);
    assert_eq!(g.stuck_timer, 0);
}

#[test]
fn last_gold_opens_exit_columns() {
    let mut w = playing(&["     ", "   H ", "P$ H "]);
    assert_eq!(w.gold_remaining, 1);
    let ev = step(&mut w, FrameInput { movement: Some(MoveDir::Right), dig: None });
    assert_eq!((w.player.x, w.player.y), (1, 2));
    assert_eq!(w.gold_remaining, 0);
    assert!(ev.contains(&GameEvent::GoldPicked { x: 1, y: 2 }));
    assert!(ev.contains(&GameEvent::AllGoldCollected));
    assert!(w.exit_enabled);
    assert_eq!(w.score, 100);
    assert_eq!(w.tiles[0][3], Tile::HiddenLadder);
    assert_eq!(w.tiles[0][0], Tile::Empty);
    assert_eq!(w.tiles[1][3], Tile::Ladder);
}

#[test]
fn last_gold_uses_explicit_hidden_ladders() {
    let mut w = playing(&["     ", "   H ", "P$ H "]);
    w.hidden_ladder_positions = vec![(0, 0), (0, 1)];
    step(&mut w, FrameInput { movement: Some(MoveDir::Right), dig: None });
    assert_eq!(w.tiles[0][0], Tile::HiddenLadder);
    assert_eq!(w.tiles[1][0], Tile::HiddenLadder);
    assert_eq!(w.tiles[0][3], Tile::Empty);
}

#[test]
fn adjacent_guards_arm_separation() {
    let mut w = playing(&["EE   P", "######"]);
    w.guards[0].move_cooldown = 3;
    w.guards[1].move_cooldown = 3;
    step(&mut w, idle());
    assert_eq!(w.guards[0].separation_timer, SEPARATION_TICKS);
    assert_eq!(w.guards[1].separation_timer, SEPARATION_TICKS);
    step(&mut w, idle());
    assert!(w.guards[0].separation_timer > 0);
}

#[test]
fn guard_on_player_kills() {
    let mut w = playing(&["EP ", "###"]);
    let ev = step(&mut w, idle());
    assert!(ev.contains(&GameEvent::PlayerKilled));
    assert!(!w.player.alive);
    assert_eq!(w.phase, Phase::Dying);
}

#[test]
fn step_outside_play_does_nothing() {
    let mut w = playing(&["P  ", "###"]);
    w.phase = Phase::Title;
    let ev = step(&mut w, FrameInput { movement: Some(MoveDir::Right), dig: None });
    assert!(ev.is_empty());
    assert_eq!(w.tick, 0);
    assert_eq!(w.player.x, 0);
}

#[test]
fn player_falls_and_lands() {
    let mut w = playing(&["P", " ", " ", "#"]);
    let ev = step(&mut w, idle());
    assert!(ev.contains(&GameEvent::PlayerFallStart));
    assert_eq!(w.player.y, 1);
    assert_eq!(w.player.state, ActorState::Falling);
    step(&mut w, idle());
    assert_eq!(w.player.y, 2);
    step(&mut w, idle());
    assert_eq!(w.player.state, ActorState::OnGround);
}

#[test]
fn trap_brick_collapses_under_player() {
    let mut w = playing(&["P ", "T#", "##"]);
    let ev = step(&mut w, idle());
    assert!(ev.contains(&GameEvent::TrapCollapsed { x: 0, y: 1 }));
    assert_eq!(w.tiles[1][0], Tile::Empty);
    assert_eq!(w.base_tiles[1][0], Tile::TrapBrick);
}

#[test]
fn reaching_top_with_exit_clears_stage() {
    let mut w = playing(&["P ", "##"]);
    w.exit_enabled = true;
    let ev = step(&mut w, idle());
    assert!(ev.contains(&GameEvent::StageCleared));
    assert_eq!(w.phase, Phase::LevelOutro);
    assert_eq!(w.score, 500);
    assert_eq!(w.message, "Node 1 Complete! +500");
}

#[test]
fn hole_seals_and_kills_trapped_guard() {
    let mut w = playing(&["   P", "####"]);
    w.guards.push(noderunner::entity::Guard::new(7, 1, 1));
    w.guards[0].state = ActorState::InHole;
    w.guards[0].stuck_timer = 50;
    w.set_tile(1, 1, Tile::Empty);
    w.holes.push(Hole::new(1, 1, 0, 1));
    w.rebuild_hole_grid();
    let ev = step(&mut w, idle());
    assert!(ev.contains(&GameEvent::HoleFilled { x: 1, y: 1 }));
    assert!(ev.contains(&GameEvent::GuardKilled { id: 7, x: 1, y: 1 }));
    assert_eq!(w.guards[0].state, ActorState::Dead);
    assert_eq!(w.tiles[1][1], Tile::Brick);
    assert!(w.holes.is_empty());
    assert!(!w.hole_grid[1][1]);
    assert_eq!(w.score, 50);
}

#[test]
fn restart_restores_level() {
    let mut w = playing(&["P$ E", "####"]);
    step(&mut w, FrameInput { movement: Some(MoveDir::Right), dig: None });
    assert_eq!(w.gold_remaining, 0);
    restart_level(&mut w);
    assert_eq!(w.tiles[0][1], Tile::Gold);
    assert_eq!(w.gold_remaining, 1);
    assert_eq!(w.gold_total, 1);
    assert_eq!((w.player.x, w.player.y), (0, 0));
    assert!(w.player.alive);
    assert_eq!((w.guards[0].x, w.guards[0].y), (3, 0));
    assert_eq!(w.guards[0].move_cooldown, w.speed.guard_move_rate);
    assert!(w.holes.is_empty() && w.digs.is_empty());
    assert!(!w.exit_enabled);
}

#[test]
fn dead_guard_respawns_at_row_one() {
    let mut w = playing(&["P    ", "     ", "#####"]);
    w.guards.push(noderunner::entity::Guard::new(3, 4, 1));
    w.guards[0].spawn_x = 2;
    w.guards[0].state = ActorState::Dead;
    w.guards[0].respawn_timer = w.speed.guard_respawn_ticks - 1;
    w.guards[0].carry_gold = true;
    let ev = step(&mut w, idle());
    assert!(ev.contains(&GameEvent::GuardRespawned { id: 3 }));
    let g = w.guards[0];
    assert_eq!((g.x, g.y, g.state), (2, 1, ActorState::OnGround));
    assert!(!g.carry_gold);
    assert_eq!(g.respawn_timer, 0);
}

#[test]
fn respawn_waits_while_spawn_cell_is_taken() {
    let mut w = playing(&["P    ", "     ", "#####"]);
    w.guards.push(noderunner::entity::Guard::new(0, 4, 1));
    w.guards.push(noderunner::entity::Guard::new(1, 2, 1));
    w.guards[0].spawn_x = 2;
    w.guards[0].state = ActorState::Dead;
    w.guards[0].respawn_timer = w.speed.guard_respawn_ticks - 1;
    w.guards[1].move_cooldown = 50;
    step(&mut w, idle());
    assert_eq!(w.guards[0].state, ActorState::Dead);
    assert_eq!(w.guards[0].respawn_timer, w.speed.guard_respawn_ticks);
}

#[test]
fn guard_picks_up_gold_and_drops_it_after_carry_limit() {
    let mut w = playing(&["$   P", "#####"]);
    w.guards.push(noderunner::entity::Guard::new(0, 0, 0));
    w.guards[0].move_cooldown = 100;
    step(&mut w, idle());
    assert!(w.guards[0].carry_gold);
    assert_eq!(w.tiles[0][0], Tile::Empty);
    assert_eq!(w.gold_remaining, 1);
    w.guards[0].carry_gold_timer = w.speed.gold_carry_ticks - 1;
    let ev = step(&mut w, idle());
    assert!(ev.contains(&GameEvent::GuardDroppedGold { x: 0, y: 0 }));
    assert!(!w.guards[0].carry_gold);
    assert_eq!(w.tiles[0][0], Tile::Gold);
}

#[test]
fn sealing_hole_buries_player() {
    let mut w = playing(&["    ", "#P##", "####"]);
    w.set_tile(1, 1, Tile::Empty);
    w.base_tiles[1][1] = Tile::Brick;
    w.holes.push(Hole::new(1, 1, 0, 1));
    w.rebuild_hole_grid();
    let ev = step(&mut w, idle());
    assert!(ev.contains(&GameEvent::PlayerKilled));
    assert!(!w.player.alive);
    assert_eq!(w.phase, Phase::Dying);
    assert_eq!(w.tiles[1][1], Tile::Brick);
}

#[test]
fn player_in_closing_hole_cannot_move() {
    let mut w = playing(&["    ", "#P #", "####"]);
    w.holes.push(Hole::new(1, 1, 0, 5));
    w.rebuild_hole_grid();
    step(&mut w, FrameInput { movement: Some(MoveDir::Right), dig: None });
    assert_eq!((w.player.x, w.player.y), (1, 1));
}

#[test]
fn sealing_hole_kills_trapped_guard_and_pushes_rider_up() {
    let mut w = playing(&["P   ", "####", "####"]);
    w.guards.push(noderunner::entity::Guard::new(0, 2, 1));
    w.guards.push(noderunner::entity::Guard::new(1, 2, 1));
    w.guards[0].state = ActorState::InHole;
    w.guards[0].stuck_timer = 50;
    w.guards[1].move_cooldown = 100;
    w.set_tile(2, 1, Tile::Empty);
    w.holes.push(Hole::new(2, 1, 0, 1));
    w.rebuild_hole_grid();
    let ev = step(&mut w, idle());
    assert!(ev.contains(&GameEvent::GuardKilled { id: 0, x: 2, y: 1 }));
    assert_eq!(w.guards[0].state, ActorState::Dead);
    assert_eq!((w.guards[1].x, w.guards[1].y), (2, 0));
    assert_eq!(w.guards[1].state, ActorState::OnGround);
    assert_eq!(w.score, 50);
}

#[test]
fn separation_timer_counts_down_each_tick() {
    let mut w = playing(&["E    P", "######"]);
    w.guards[0].separation_timer = 4;
    w.guards[0].move_cooldown = 100;
    step(&mut w, idle());
    assert_eq!(w.guards[0].separation_timer, 3);
}
