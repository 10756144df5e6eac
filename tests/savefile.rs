use noderunner::config::GameConfig;
use noderunner::entity::{ActorState, DigInProgress, Facing, Hole};
use noderunner::level::{load_level, LevelDef};
use noderunner::save::capture_snapshot;
use noderunner::savefile::{parse_dig, parse_guard, parse_hole, parse_player, parse_save, parse_state, serialize, state_char};
use noderunner::tile::Tile;
use noderunner::world::WorldState;

fn chars(s: &str) -> Vec<char> {
    s.chars().collect()
}

#[test]
fn header_only_save() {
    let text = serialize(3, 1200, 4, None);
    assert_eq!(text, "level=3\nscore=1200\nlives=4\n");
    let d = parse_save(&text).unwrap();
    assert_eq!((d.level, d.score, d.lives), (3, 1200, 4));
    assert!(d.snapshot.is_none());
}

#[test]
fn save_needs_level_score_and_lives() {
    assert!(parse_save("level=1\nscore=2\n").is_none());
    assert!(parse_save("level=x\nscore=2\nlives=1\n").is_none());
    assert!(parse_save("level=1\nscore=2\nlives=99999999999\n").is_none());
    assert!(parse_save("lives=1\r\nscore= 2 \nlevel=0").is_some());
}

#[test]
fn snapshot_round_trips_through_text() {
    let def = LevelDef {
        name: "R".to_string(),
        rows: vec![" P E#".to_string(), "##H##".to_string()],
        extra_hidden_ladders: vec![],
    };
    let mut w = WorldState::new();
    load_level(&mut w, std::slice::from_ref(&def), 0, &GameConfig::defaults());
    w.tick = 77;
    w.exit_enabled = true;
    w.exit_columns = vec![2, 4];
    w.hidden_ladder_positions = vec![(4, 0)];
    w.guards[0].state = ActorState::InHole;
    w.guards[0].carry_gold = true;
    w.guards[0].facing = Facing::Right;
    w.holes.push(Hole::new(0, 1, 12, 3));
    w.digs.push(DigInProgress::new_with_state(3, 1, 2, 5));
    w.set_tile(0, 1, Tile::Empty);
    let snap = capture_snapshot(&w);
    let text = serialize(0, 10, 2, Some(&snap));
    assert!(text.starts_with("level=0\nscore=10\nlives=2\nhas_snapshot=1\n"));
    assert!(text.contains("tile_row=    #\n"));
    assert!(text.contains("guard=0,3,0,R,H,1,0,0,5,3,0,0,0\n"));
    assert!(text.contains("exit_cols=2,4\n"));
    let d = parse_save(&text).unwrap();
    let s = d.snapshot.unwrap();
    assert_eq!(s.tick, 77);
    assert_eq!((s.width, s.height), (5, 2));
    assert_eq!(s.tiles, w.tiles);
    assert_eq!(s.player.x, 1);
    assert_eq!(s.guards.len(), 1);
    assert_eq!(s.guards[0].state, ActorState::InHole);
    assert!(s.guards[0].carry_gold);
    assert_eq!(s.guards[0].facing, Facing::Right);
    assert_eq!((s.holes[0].open_remaining, s.holes[0].close_remaining), (12, 3));
    assert_eq!((s.digs[0].ticks_remaining, s.digs[0].total_ticks), (2, 5));
    assert_eq!(s.exit_columns, vec![2, 4]);
    assert_eq!(s.hidden_ladder_positions, vec![(4, 0)]);
    assert!(s.exit_enabled);
    assert_eq!(s.player_spawn, (1, 0));
}

#[test]
fn record_parsers() {
    let p = parse_player(&chars("4, 5,L,F,2")).unwrap();
    assert_eq!((p.x, p.y, p.facing, p.state, p.move_cooldown), (4, 5, Facing::Left, ActorState::Falling, 2));
    assert!(parse_player(&chars("4,5,L,F")).is_none());
    assert!(parse_guard(&chars("1,2,3,L,G,0,0,0,0,0,0,0")).is_none());
    assert!(parse_hole(&chars("1,2,3,x")).is_none());
    assert_eq!(parse_dig(&chars("1,2,3,4")).unwrap().total_ticks, 4);
    for s in [ActorState::OnGround, ActorState::Falling, ActorState::OnLadder, ActorState::OnRope, ActorState::InHole, ActorState::Dead] {
        assert_eq!(parse_state(&vec![state_char(s)]), s);
    }
    assert_eq!(parse_state(&chars("?")), ActorState::OnGround);
}
