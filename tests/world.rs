use noderunner::config::{default_guard_respawn, default_tick_rate, GameConfig, SpeedConfig};
use noderunner::entity::{ActorState, DigInProgress, Guard, Hole};
use noderunner::level::{get_level_list_for_pack, load_level, switch_pack, LevelDef};
use noderunner::save::{capture_snapshot, char_to_tile, restore_snapshot, tile_to_char};
use noderunner::tile::Tile;
use noderunner::world::{Camera, PackInfo, Phase, WorldState};

fn def(name: &str, rows: &[&str]) -> LevelDef {
    LevelDef { name: name.to_string(), rows: rows.iter().map(|r| r.to_string()).collect(), extra_hidden_ladders: vec![(4, 0)] }
}

#[test]
fn tile_properties_hold_for_every_tile() {
    let all = [
        Tile::Empty,
        Tile::Brick,
        Tile::Concrete,
        Tile::Ladder,
        Tile::Rope,
        Tile::Gold,
        Tile::HiddenLadder,
        Tile::TrapBrick,
    ];
    for t in all {
        assert_eq!(t.is_passable(), !t.is_solid());
        assert_eq!(t.is_diggable(), t == Tile::Brick);
        assert_eq!(char_to_tile(tile_to_char(t)), t);
    }
    assert!(Tile::Ladder.is_climbable() && Tile::HiddenLadder.is_climbable());
    assert!(Tile::Rope.is_hangable());
    assert!(Tile::Gold.is_gold() && Tile::TrapBrick.is_trap());
    assert_eq!(Tile::default(), Tile::Empty);
}

#[test]
fn load_level_builds_grid_and_entities() {
    let levels = vec![def("One", &["P ^ ~", "$E#H=", "#T-##"])];
    let mut w = WorldState::new();
    w.score = 42;
    load_level(&mut w, &levels, 0, &GameConfig::defaults());
    assert_eq!((w.width, w.height), (5, 3));
    assert_eq!(w.tiles[1], vec![Tile::Gold, Tile::Empty, Tile::Brick, Tile::Ladder, Tile::Concrete]);
    assert_eq!(w.tiles[2], vec![Tile::Brick, Tile::TrapBrick, Tile::Rope, Tile::Brick, Tile::Brick]);
    assert_eq!(w.base_tiles, w.tiles);
    assert_eq!((w.player.x, w.player.y), (0, 0));
    assert_eq!(w.player_spawn, (0, 0));
    assert_eq!(w.guards.len(), 1);
    assert_eq!((w.guards[0].x, w.guards[0].y, w.guards[0].id), (1, 1, 0));
    assert_eq!(w.guards[0].move_cooldown, 5);
    assert_eq!(w.exit_columns, vec![2]);
    assert_eq!(w.hidden_ladder_positions, vec![(4, 0)]);
    assert_eq!(w.gold_remaining, 1);
    assert_eq!(w.gold_total, 1);
    assert_eq!(w.phase, Phase::LevelIntro);
    assert_eq!(w.score, 42);
    assert_eq!(w.message, "One");
    assert_eq!(w.hole_grid.len(), 3);

    load_level(&mut w, &levels, 1, &GameConfig::defaults());
    assert_eq!(w.phase, Phase::GameComplete);
}

#[test]
fn level_names_and_pack_switch() {
    let levels = vec![def("A", &["P"]), def("B", &["P"])];
    assert_eq!(get_level_list_for_pack(&levels), vec!["A".to_string(), "B".to_string()]);
    let mut w = WorldState::new();
    let pack = PackInfo {
        name: "Pack".to_string(),
        author: String::new(),
        description: String::new(),
        level_count: 2,
        path: "packs/p.nlp".to_string(),
    };
    switch_pack(&mut w, &pack, &levels);
    assert_eq!(w.active_pack, "Pack");
    assert_eq!(w.active_pack_path, "packs/p.nlp");
    assert_eq!(w.total_levels, 2);
}

#[test]
fn snapshot_round_trip() {
    let levels = vec![def("One", &["P  E", "####"])];
    let mut w = WorldState::new();
    load_level(&mut w, &levels, 0, &GameConfig::defaults());
    w.tick = 17;
    w.set_tile(1, 1, Tile::Empty);
    w.holes.push(Hole::new(1, 1, 30, 5));
    w.digs.push(DigInProgress::new_with_state(2, 1, 2, 5));
    w.guards[0].state = ActorState::Falling;
    w.guards[0].carry_gold = true;
    w.rebuild_hole_grid();
    let snap = capture_snapshot(&w);

    let mut r = WorldState::new();
    load_level(&mut r, &levels, 0, &GameConfig::defaults());
    restore_snapshot(&mut r, &snap);
    assert_eq!(r.tick, 17);
    assert_eq!(r.tiles, w.tiles);
    assert_eq!(r.holes.len(), 1);
    assert_eq!(r.holes[0].open_remaining, 30);
    assert_eq!(r.digs[0].total_ticks(), 5);
    assert_eq!(r.digs[0].ticks_remaining, 2);
    assert_eq!(r.guards[0].state, ActorState::Falling);
    assert!(r.guards[0].carry_gold);
    assert!(r.hole_grid[1][1]);
    assert!(!r.hole_grid[1][2]);
}

#[test]
fn tile_mutation_api() {
    let levels = vec![def("One", &["P #", "###"])];
    let mut w = WorldState::new();
    load_level(&mut w, &levels, 0, &GameConfig::defaults());
    w.set_tile(2, 0, Tile::Empty);
    w.set_tile(9, 9, Tile::Gold);
    assert_eq!(w.terrain_at(2, 0), Tile::Empty);
    assert_eq!(w.terrain_at(9, 9), Tile::Concrete);
    w.clear_tile(2, 0);
    assert_eq!(w.terrain_at(2, 0), Tile::Brick);
    w.set_tile(0, 1, Tile::Empty);
    w.reset_tiles();
    assert_eq!(w.tiles, w.base_tiles);
    assert!(w.can_enter(1, 0));
    assert!(!w.can_enter(2, 0));
    assert!(w.terrain_support(1, 0));
    assert!(w.has_support(1, 0));
    assert!(w.has_support_for_player(1, 0));
    assert!(w.has_support_for_guard(1, 0, 0));
    assert_eq!(w.resolve_actor_state(1, 0, ActorState::Falling), ActorState::OnGround);
    w.set_message("hi", 3);
    assert_eq!(w.message, "hi");
    assert_eq!(w.message_timer, 3);
}

#[test]
fn camera_centres_small_world_and_clamps_large_one() {
    let mut c = Camera::new();
    c.center_on(5, 5, 10, 10);
    assert_eq!((c.x, c.y), (0, 0));
    c.view_w = 20;
    c.view_h = 10;
    c.center_on(5, 5, 10, 30);
    assert_eq!(c.x, -5);
    assert_eq!(c.y, 0);
    c.center_on(5, 25, 10, 30);
    assert_eq!(c.y, 20);
    c.center_on(5, 15, 10, 30);
    assert_eq!(c.y, 10);
    assert_eq!(c.world_to_view(0, 12), Some((5, 2)));
    assert_eq!(c.world_to_view(0, 5), None);
}

#[test]
fn camera_follow_dead_zone() {
    let mut c = Camera { x: 0, y: 0, view_w: 10, view_h: 10 };
    c.follow(5, 5, 40, 40);
    assert_eq!((c.x, c.y), (0, 0));
    c.follow(9, 5, 40, 40);
    assert_eq!(c.x, 2);
    c.follow(39, 5, 40, 40);
    assert_eq!(c.x, 30);
    c.follow(0, 5, 40, 40);
    assert_eq!(c.x, 0);
}

#[test]
fn config_defaults() {
    let s = SpeedConfig::defaults();
    assert_eq!(s.tick_rate_ms, default_tick_rate());
    assert_eq!(s.guard_respawn_ticks, default_guard_respawn());
    assert_eq!(s.hole_open_ticks, 100);
    assert_eq!(s.hole_close_ticks, 20);
    let g = GameConfig::defaults();
    assert_eq!(g.levels_dir, "levels");
    assert_eq!(g.gamepad.hack_left, vec!["B".to_string(), "Y".to_string(), "L1".to_string()]);
    let _ = Guard::new(0, 0, 0);
}

#[test]
fn built_in_levels_load() {
    let levels = noderunner::level::embedded_levels();
    assert_eq!(levels.len(), 5);
    assert_eq!(levels[0].name, "Node 1 - Genesis Block");
    for (i, def) in levels.iter().enumerate() {
        assert_eq!(def.rows.len(), 16);
        let mut w = WorldState::new();
        load_level(&mut w, &levels, i, &GameConfig::defaults());
        assert_eq!(w.height, 16);
        assert!(w.gold_total > 0);
        assert!(!w.guards.is_empty());
    }
}
