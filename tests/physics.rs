use noderunner::entity::{ActorState, Guard, Hole};
use noderunner::physics::{
    build_hole_grid, has_active_guard, has_active_guard_except, has_standing_guard, has_support, has_support_for_guard,
    has_support_for_player, has_trapped_guard, has_trapped_guard_except, resolve_state, terrain_at, terrain_support,
};
use noderunner::tile::Tile;

fn tiles_from(rows: &[&str]) -> (Vec<Vec<Tile>>, usize, usize) {
    let h = rows.len();
    let w = rows[0].len();
    let mut t = vec![vec![Tile::Empty; w]; h];
    for (y, row) in rows.iter().enumerate() {
        for (x, ch) in row.chars().enumerate() {
            t[y][x] = match ch {
                '#' => Tile::Brick,
                '=' => Tile::Concrete,
                'H' => Tile::Ladder,
                '-' => Tile::Rope,
                _ => Tile::Empty,
            };
        }
    }
    (t, w, h)
}

fn empty_grid(w: usize, h: usize) -> Vec<Vec<bool>> {
    vec![vec![false; w]; h]
}

fn hole_grid_at(w: usize, h: usize, holes: &[(usize, usize)]) -> Vec<Vec<bool>> {
    let mut g = empty_grid(w, h);
    for &(x, y) in holes {
        g[y][x] = true;
    }
    g
}

fn guard_at(id: usize, x: usize, y: usize, state: ActorState) -> Guard {
    let mut g = Guard::new(id, x, y);
    g.state = state;
    g
}

#[test]
fn terrain_brick_is_impassable() {
    let (t, w, h) = tiles_from(&["#"]);
    let tc = terrain_at(&t, w, h, &empty_grid(w, h), 0, 0);
    assert!(!tc.passable);
    assert!(!tc.hole);
}

#[test]
fn terrain_empty_is_passable() {
    let (t, w, h) = tiles_from(&[" "]);
    let tc = terrain_at(&t, w, h, &empty_grid(w, h), 0, 0);
    assert!(tc.passable);
}

#[test]
fn terrain_hole_overrides_brick() {
    let (t, w, h) = tiles_from(&["#"]);
    let tc = terrain_at(&t, w, h, &hole_grid_at(w, h, &[(0, 0)]), 0, 0);
    assert!(tc.passable);
    assert!(tc.hole);
}

#[test]
fn terrain_out_of_bounds_is_wall() {
    let (t, w, h) = tiles_from(&[" "]);
    let tc = terrain_at(&t, w, h, &empty_grid(w, h), 5, 5);
    assert!(!tc.passable);
}

#[test]
fn terrain_ladder_is_climbable() {
    let (t, w, h) = tiles_from(&["H"]);
    let tc = terrain_at(&t, w, h, &empty_grid(w, h), 0, 0);
    assert!(tc.passable);
    assert!(tc.climbable);
}

#[test]
fn terrain_rope_is_hangable() {
    let (t, w, h) = tiles_from(&["-"]);
    let tc = terrain_at(&t, w, h, &empty_grid(w, h), 0, 0);
    assert!(tc.passable);
    assert!(tc.hangable);
}

#[test]
fn support_bottom_of_map() {
    let (t, w, h) = tiles_from(&[" "]);
    assert!(terrain_support(&t, w, h, &empty_grid(w, h), 0, 0));
}

#[test]
fn physics_support_on_ladder() {
    let (t, w, h) = tiles_from(&["H", " "]);
    assert!(terrain_support(&t, w, h, &empty_grid(w, h), 0, 0));
}

#[test]
fn support_above_solid() {
    let (t, w, h) = tiles_from(&[" ", "#"]);
    assert!(terrain_support(&t, w, h, &empty_grid(w, h), 0, 0));
}

#[test]
fn no_support_above_hole() {
    let (t, w, h) = tiles_from(&[" ", " "]);
    assert!(!terrain_support(&t, w, h, &empty_grid(w, h), 0, 0));
}

#[test]
fn no_support_above_hole_in_brick() {
    let (t, w, h) = tiles_from(&[" ", "#"]);
    assert!(!terrain_support(&t, w, h, &hole_grid_at(w, h, &[(0, 1)]), 0, 0));
}

#[test]
fn trapped_guard_provides_support() {
    let (t, w, h) = tiles_from(&[" ", " "]);
    let guards = vec![guard_at(0, 0, 1, ActorState::InHole)];
    let hg = empty_grid(w, h);
    assert!(!terrain_support(&t, w, h, &hg, 0, 0));
    assert!(has_support(&t, w, h, &hg, &guards, 0, 0));
}

#[test]
fn active_guard_not_a_bridge_for_guards() {
    let (t, w, h) = tiles_from(&[" ", " "]);
    let guards = vec![guard_at(0, 0, 1, ActorState::OnGround)];
    assert!(!has_support(&t, w, h, &empty_grid(w, h), &guards, 0, 0));
}

#[test]
fn active_guard_is_floor_for_player() {
    let (t, w, h) = tiles_from(&[" ", " "]);
    let guards = vec![guard_at(0, 0, 1, ActorState::OnGround)];
    assert!(has_support_for_player(&t, w, h, &empty_grid(w, h), &guards, 0, 0));
}

#[test]
fn falling_guard_not_floor_for_player() {
    let (t, w, h) = tiles_from(&[" ", " "]);
    let guards = vec![guard_at(0, 0, 1, ActorState::Falling)];
    assert!(!has_support_for_player(&t, w, h, &empty_grid(w, h), &guards, 0, 0));
}

#[test]
fn dead_guard_not_floor_for_player() {
    let (t, w, h) = tiles_from(&[" ", " "]);
    let guards = vec![guard_at(0, 0, 1, ActorState::Dead)];
    assert!(!has_support_for_player(&t, w, h, &empty_grid(w, h), &guards, 0, 0));
}

#[test]
fn trapped_guard_is_floor_for_player() {
    let (t, w, h) = tiles_from(&[" ", " "]);
    let guards = vec![guard_at(0, 0, 1, ActorState::InHole)];
    assert!(has_support_for_player(&t, w, h, &empty_grid(w, h), &guards, 0, 0));
}

#[test]
fn on_rope_guard_is_floor_for_player() {
    let (t, w, h) = tiles_from(&[" ", "-"]);
    let guards = vec![guard_at(0, 0, 1, ActorState::OnRope)];
    assert!(has_support_for_player(&t, w, h, &empty_grid(w, h), &guards, 0, 0));
}

#[test]
fn standing_guard_check() {
    let guards = vec![
        guard_at(0, 1, 1, ActorState::OnGround),
        guard_at(1, 2, 1, ActorState::Falling),
        guard_at(2, 3, 1, ActorState::Dead),
        guard_at(3, 4, 1, ActorState::InHole),
    ];

    assert!(has_standing_guard(&guards, 1, 1));
    assert!(!has_standing_guard(&guards, 2, 1));
    assert!(!has_standing_guard(&guards, 3, 1));
    assert!(has_standing_guard(&guards, 4, 1));
    assert!(!has_standing_guard(&guards, 5, 5));
}

#[test]
fn dead_guard_not_a_bridge() {
    let (t, w, h) = tiles_from(&[" ", " "]);
    let guards = vec![guard_at(0, 0, 1, ActorState::Dead)];
    assert!(!has_support(&t, w, h, &empty_grid(w, h), &guards, 0, 0));
}

#[test]
fn guard_support_excludes_self() {
    let (t, w, h) = tiles_from(&[" ", " "]);
    let guards = vec![guard_at(0, 0, 0, ActorState::OnGround), guard_at(1, 0, 1, ActorState::InHole)];
    let hg = empty_grid(w, h);
    assert!(has_support_for_guard(&t, w, h, &hg, &guards, 0, 0, 0));
    // (0, 1) is the bottom row, which always has support.
    assert!(has_support_for_guard(&t, w, h, &hg, &guards, 0, 1, 1));
}

#[test]
fn resolve_falls_without_support() {
    let (t, w, h) = tiles_from(&[" ", " ", "#"]);
    let guards: Vec<Guard> = vec![];
    assert_eq!(resolve_state(&t, w, h, &empty_grid(w, h), &guards, 0, 0, ActorState::OnGround), ActorState::Falling);
}

#[test]
fn resolve_lands_on_trapped_guard() {
    let (t, w, h) = tiles_from(&[" ", " "]);
    let guards = vec![guard_at(0, 0, 1, ActorState::InHole)];
    assert_eq!(resolve_state(&t, w, h, &empty_grid(w, h), &guards, 0, 0, ActorState::Falling), ActorState::OnGround);
}

#[test]
fn hole_grid_basic() {
    let holes = vec![Hole::new(3, 5, 100, 30), Hole::new(7, 2, 50, 30)];
    let grid = build_hole_grid(&holes, 10, 8);
    assert!(grid[5][3]);
    assert!(grid[2][7]);
    assert!(!grid[0][0]);
    assert!(!grid[5][4]);
}

#[test]
fn hole_grid_skips_expired_and_off_map_holes() {
    let holes = vec![Hole::new(1, 1, 0, 0), Hole::new(9, 9, 5, 5), Hole::new(0, 1, 0, 3)];
    let grid = build_hole_grid(&holes, 3, 2);
    assert_eq!(grid.len(), 2);
    assert_eq!(grid[0].len(), 3);
    assert!(!grid[1][1]);
    assert!(grid[1][0]);
}

#[test]
fn hole_overrides_every_tile_kind() {
    for t in [Tile::Brick, Tile::Concrete, Tile::Ladder, Tile::Rope, Tile::Gold, Tile::TrapBrick, Tile::Empty, Tile::HiddenLadder] {
        let tiles = vec![vec![t]];
        let tc = terrain_at(&tiles, 1, 1, &vec![vec![true]], 0, 0);
        assert!(tc.passable && tc.hole && !tc.climbable && !tc.hangable);
    }
}

#[test]
fn occupancy_queries_respect_exclusions() {
    let guards = vec![
        guard_at(0, 2, 2, ActorState::InHole),
        guard_at(1, 3, 3, ActorState::OnGround),
        guard_at(2, 3, 3, ActorState::Dead),
    ];
    assert!(has_trapped_guard(&guards, 2, 2));
    assert!(!has_trapped_guard_except(&guards, 2, 2, 0));
    assert!(has_trapped_guard_except(&guards, 2, 2, 1));
    assert!(has_active_guard(&guards, 3, 3));
    assert!(!has_active_guard(&guards, 2, 2));
    assert!(!has_active_guard_except(&guards, 3, 3, 1));
    assert!(has_active_guard_except(&guards, 3, 3, 0));
}

#[test]
fn support_invariants_for_guards_and_player() {
    let (t, w, h) = tiles_from(&[" ", " ", " "]);
    let hg = empty_grid(w, h);
    // Bottom row always supported.
    assert!(has_support(&t, w, h, &hg, &[], 0, 2));
    assert!(has_support_for_player(&t, w, h, &hg, &[], 0, 2));
    // Above a trapped guard: both.
    let trapped = vec![guard_at(0, 0, 1, ActorState::InHole), guard_at(1, 0, 0, ActorState::OnGround)];
    assert!(has_support_for_guard(&t, w, h, &hg, &trapped, 0, 0, 1));
    assert!(has_support_for_player(&t, w, h, &hg, &trapped, 0, 0));
    // Above an active guard: player only.
    let active = vec![guard_at(0, 0, 1, ActorState::OnGround)];
    assert!(has_support_for_player(&t, w, h, &hg, &active, 0, 0));
    assert!(!has_support_for_guard(&t, w, h, &hg, &active, 0, 0, 5));
    // Above dead or falling guards: nobody.
    for s in [ActorState::Dead, ActorState::Falling] {
        let g = vec![guard_at(0, 0, 1, s)];
        assert!(!has_support(&t, w, h, &hg, &g, 0, 0));
        assert!(!has_support_for_player(&t, w, h, &hg, &g, 0, 0));
    }
}

#[test]
fn resolve_state_priorities_and_stickiness() {
    let (t, w, h) = tiles_from(&["H", "-", " ", "#"]);
    let hg = empty_grid(w, h);
    assert_eq!(resolve_state(&t, w, h, &hg, &[], 0, 0, ActorState::Falling), ActorState::OnLadder);
    assert_eq!(resolve_state(&t, w, h, &hg, &[], 0, 1, ActorState::OnGround), ActorState::OnRope);
    assert_eq!(resolve_state(&t, w, h, &hg, &[], 0, 2, ActorState::Falling), ActorState::OnGround);
    assert_eq!(resolve_state(&t, w, h, &hg, &[], 0, 0, ActorState::Dead), ActorState::Dead);
    assert_eq!(resolve_state(&t, w, h, &hg, &[], 0, 2, ActorState::InHole), ActorState::InHole);
}
