use noderunner::config::GameConfig;
use noderunner::level::LevelDef;
use noderunner::lifecycle::{
    calc_intro_rows_visible, grid_fits, load_save_data, open_pack_select, return_to_title, snapshot_if_playing, start_from_level,
    start_new_game, tick_dying, tick_level_intro, tick_level_outro, DYING_TICKS, INTRO_TOTAL,
};
use noderunner::save::{capture_snapshot, SaveData};
use noderunner::world::{PackInfo, Phase, WorldState};

fn levels() -> Vec<LevelDef> {
    vec![
        LevelDef { name: "First".to_string(), rows: vec!["P $".to_string(), "###".to_string()], extra_hidden_ladders: vec![] },
        LevelDef { name: "Second".to_string(), rows: vec!["P  E".to_string(), "####".to_string()], extra_hidden_ladders: vec![] },
    ]
}

fn pack(name: &str, path: &str) -> PackInfo {
    PackInfo { name: name.to_string(), author: String::new(), description: String::new(), level_count: 1, path: path.to_string() }
}

#[test]
fn intro_reveals_rows_then_waits() {
    let mut w = WorldState::new();
    start_new_game(&mut w, &levels(), &GameConfig::defaults());
    assert_eq!(w.phase, Phase::LevelIntro);
    assert_eq!((w.score, w.lives), (0, 5));
    assert_eq!(calc_intro_rows_visible(&w), 0);
    w.anim_tick = 10;
    assert_eq!(calc_intro_rows_visible(&w), 1);
    w.anim_tick = 40;
    assert_eq!(calc_intro_rows_visible(&w), 2);
    w.anim_tick = 0;
    for _ in 0..INTRO_TOTAL - 1 {
        tick_level_intro(&mut w);
    }
    assert_eq!(w.phase, Phase::LevelIntro);
    tick_level_intro(&mut w);
    assert_eq!(w.phase, Phase::LevelReady);
    assert_eq!(w.anim_tick, 0);
}

#[test]
fn outro_climbs_off_the_top() {
    let mut w = WorldState::new();
    w.phase = Phase::LevelOutro;
    for _ in 0..8 {
        tick_level_outro(&mut w);
    }
    assert_eq!(w.anim_player_y, -2);
    assert_eq!(w.phase, Phase::LevelOutro);
    tick_level_outro(&mut w);
    assert_eq!(w.anim_player_y, -3);
    assert_eq!(w.phase, Phase::LevelComplete);
}

#[test]
fn dying_costs_a_life_and_restarts() {
    let mut w = WorldState::new();
    start_from_level(&mut w, &levels(), 1, 300, 2, &GameConfig::defaults());
    assert_eq!(w.current_level, 1);
    w.phase = Phase::Dying;
    w.player.alive = false;
    w.player.x = 2;
    for _ in 0..DYING_TICKS - 1 {
        tick_dying(&mut w);
    }
    assert_eq!(w.lives, 2);
    tick_dying(&mut w);
    assert_eq!(w.lives, 1);
    assert_eq!(w.phase, Phase::LevelReady);
    assert!(w.player.alive);
    assert_eq!(w.player.x, 0);

    w.phase = Phase::Dying;
    w.anim_tick = DYING_TICKS - 1;
    tick_dying(&mut w);
    assert_eq!(w.lives, 0);
    assert_eq!(w.phase, Phase::GameOver);
    assert_eq!(w.message, "CONNECTION LOST");
}

#[test]
fn save_data_resumes_matching_snapshot_only() {
    let lv = levels();
    let mut w = WorldState::new();
    start_from_level(&mut w, &lv, 0, 0, 5, &GameConfig::defaults());
    assert!(snapshot_if_playing(&w).is_none());
    w.phase = Phase::Playing;
    w.player.x = 1;
    w.tick = 9;
    let snap = snapshot_if_playing(&w).unwrap();
    assert_eq!(snap.tick, 9);

    let data = SaveData { level: 0, score: 700, lives: 3, snapshot: Some(capture_snapshot(&w)) };
    let mut r = WorldState::new();
    assert!(load_save_data(&mut r, &data, &lv, &GameConfig::defaults()));
    assert_eq!(r.phase, Phase::Playing);
    assert_eq!((r.score, r.lives, r.player.x, r.tick), (700, 3, 1, 9));

    let wrong = SaveData { level: 1, score: 1, lives: 1, snapshot: Some(capture_snapshot(&w)) };
    let mut r2 = WorldState::new();
    assert!(!load_save_data(&mut r2, &wrong, &lv, &GameConfig::defaults()));
    assert_eq!(r2.phase, Phase::LevelIntro);
    assert_eq!(r2.current_level, 1);

    let fresh = SaveData { level: 0, score: 5, lives: 4, snapshot: None };
    let mut r3 = WorldState::new();
    assert!(!load_save_data(&mut r3, &fresh, &lv, &GameConfig::defaults()));
    assert_eq!(r3.phase, Phase::LevelIntro);
    assert_eq!(r3.score, 5);
}

#[test]
fn pack_select_and_title() {
    let mut w = WorldState::new();
    w.active_pack_path = "b.nlp".to_string();
    open_pack_select(&mut w, vec![pack("A", "a.nlp"), pack("B", "b.nlp")]);
    assert_eq!(w.phase, Phase::PackSelect);
    assert_eq!(w.pack_cursor, 1);
    w.active_pack_path = "zzz".to_string();
    open_pack_select(&mut w, vec![pack("A", "a.nlp")]);
    assert_eq!(w.pack_cursor, 0);

    w.level_names = vec!["x".to_string()];
    w.total_levels = 1;
    w.score = 99;
    w.paused = true;
    return_to_title(&mut w, true);
    assert_eq!(w.phase, Phase::Title);
    assert_eq!(w.score, 0);
    assert!(w.has_save && !w.paused);
    assert_eq!(w.level_names, vec!["x".to_string()]);
    assert_eq!(w.active_pack_path, "zzz");
}

#[test]
fn grid_fit_check() {
    assert!(grid_fits(&vec![vec![0u8; 3]; 2], 3, 2));
    assert!(!grid_fits(&vec![vec![0u8; 3], vec![0u8; 2]], 3, 2));
    assert!(!grid_fits(&vec![vec![0u8; 3]; 2], 3, 3));
}
