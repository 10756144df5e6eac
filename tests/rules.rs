use noderunner::entity::{ActorState, Facing};
use noderunner::rules::{can_dig, can_move_down, can_move_left, can_move_right, can_move_up, resolve_state, should_fall, MapView};
use noderunner::tile::Tile;

fn map_from(rows: &[&str]) -> (Vec<Vec<Tile>>, usize, usize) {
    let height = rows.len();
    let width = rows[0].len();
    let mut tiles = vec![vec![Tile::Empty; width]; height];
    for (y, row) in rows.iter().enumerate() {
        for (x, ch) in row.chars().enumerate() {
            tiles[y][x] = match ch {
                '#' => Tile::Brick,
                '=' => Tile::Concrete,
                'H' => Tile::Ladder,
                '-' => Tile::Rope,
                '$' => Tile::Gold,
                'T' => Tile::TrapBrick,
                _ => Tile::Empty,
            };
        }
    }
    (tiles, width, height)
}

fn mv(tiles: &Vec<Vec<Tile>>, w: usize, h: usize) -> MapView<'_> {
    MapView { tiles, width: w, height: h }
}

#[test]
fn horizontal_on_ground() {
    let (t, w, h) = map_from(&["     ", "#####"]);
    let m = mv(&t, w, h);
    assert!(can_move_left(&m, 2, 0, ActorState::OnGround));
    assert!(can_move_right(&m, 2, 0, ActorState::OnGround));
}

#[test]
fn horizontal_blocked_by_wall() {
    let (t, w, h) = map_from(&[" # # ", "#####"]);
    let m = mv(&t, w, h);
    assert!(!can_move_right(&m, 0, 0, ActorState::OnGround));
    assert!(!can_move_left(&m, 2, 0, ActorState::OnGround));
}

#[test]
fn horizontal_at_map_edge() {
    let (t, w, h) = map_from(&["   ", "###"]);
    let m = mv(&t, w, h);
    assert!(!can_move_left(&m, 0, 0, ActorState::OnGround));
    assert!(!can_move_right(&m, 2, 0, ActorState::OnGround));
}

#[test]
fn horizontal_denied_while_falling() {
    let (t, w, h) = map_from(&["   ", "   "]);
    let m = mv(&t, w, h);
    assert!(!can_move_left(&m, 1, 0, ActorState::Falling));
    assert!(!can_move_right(&m, 1, 0, ActorState::Falling));
}

#[test]
fn horizontal_on_ladder() {
    let (t, w, h) = map_from(&[" H ", "###"]);
    let m = mv(&t, w, h);
    assert!(can_move_left(&m, 1, 0, ActorState::OnLadder));
    assert!(can_move_right(&m, 1, 0, ActorState::OnLadder));
}

#[test]
fn horizontal_on_rope() {
    let (t, w, h) = map_from(&["---", "   ", "###"]);
    let m = mv(&t, w, h);
    assert!(can_move_left(&m, 1, 0, ActorState::OnRope));
    assert!(can_move_right(&m, 1, 0, ActorState::OnRope));
}

#[test]
fn up_on_ladder() {
    let (t, w, h) = map_from(&[" H ", " H ", "###"]);
    let m = mv(&t, w, h);
    assert!(can_move_up(&m, 1, 1, ActorState::OnLadder));
}

#[test]
fn up_denied_not_on_ladder() {
    let (t, w, h) = map_from(&["   ", "   ", "###"]);
    let m = mv(&t, w, h);
    assert!(!can_move_up(&m, 1, 1, ActorState::OnGround));
}

#[test]
fn up_denied_at_top() {
    let (t, w, h) = map_from(&[" H ", "###"]);
    let m = mv(&t, w, h);
    assert!(!can_move_up(&m, 1, 0, ActorState::OnLadder));
}

#[test]
fn up_denied_blocked_above() {
    let (t, w, h) = map_from(&[" = ", " H ", "###"]);
    let m = mv(&t, w, h);
    assert!(!can_move_up(&m, 1, 1, ActorState::OnLadder));
}

#[test]
fn down_on_ladder() {
    let (t, w, h) = map_from(&[" H ", " H ", "###"]);
    let m = mv(&t, w, h);
    assert!(can_move_down(&m, 1, 0, ActorState::OnLadder));
}

#[test]
fn down_from_rope() {
    let (t, w, h) = map_from(&["---", "   ", "###"]);
    let m = mv(&t, w, h);
    assert!(can_move_down(&m, 1, 0, ActorState::OnRope));
}

#[test]
fn down_step_onto_ladder_from_above() {
    let (t, w, h) = map_from(&["   ", " H ", "###"]);
    let m = mv(&t, w, h);
    assert!(can_move_down(&m, 1, 0, ActorState::OnGround));
}

#[test]
fn down_denied_at_bottom() {
    let (t, w, h) = map_from(&[" H ", "###"]);
    let m = mv(&t, w, h);
    assert!(!can_move_down(&m, 1, 1, ActorState::OnGround));
}

#[test]
fn down_denied_solid_below() {
    let (t, w, h) = map_from(&["   ", "###"]);
    let m = mv(&t, w, h);
    assert!(!can_move_down(&m, 1, 0, ActorState::OnGround));
}

#[test]
fn support_on_solid() {
    let (t, w, h) = map_from(&["   ", "###"]);
    let m = mv(&t, w, h);
    assert!(m.has_support(1, 0));
    assert!(!should_fall(&m, 1, 0));
}

#[test]
fn rules_support_on_ladder() {
    let (t, w, h) = map_from(&[" H ", "   "]);
    let m = mv(&t, w, h);
    assert!(m.has_support(1, 0));
}

#[test]
fn support_on_rope() {
    let (t, w, h) = map_from(&[" - ", "   "]);
    let m = mv(&t, w, h);
    assert!(m.has_support(1, 0));
}

#[test]
fn support_above_ladder() {
    let (t, w, h) = map_from(&["   ", " H ", "###"]);
    let m = mv(&t, w, h);
    assert!(m.has_support(1, 0));
}

#[test]
fn no_support_in_air() {
    let (t, w, h) = map_from(&["   ", "   ", "###"]);
    let m = mv(&t, w, h);
    assert!(!m.has_support(1, 0));
    assert!(should_fall(&m, 1, 0));
}

#[test]
fn support_at_bottom_edge() {
    let (t, w, h) = map_from(&["   ", "   "]);
    let m = mv(&t, w, h);
    assert!(m.has_support(1, 1));
}

#[test]
fn resolve_state_on_ladder() {
    let (t, w, h) = map_from(&[" H ", "###"]);
    let m = mv(&t, w, h);
    assert_eq!(resolve_state(&m, 1, 0, ActorState::Falling), ActorState::OnLadder);
    assert_eq!(resolve_state(&m, 1, 0, ActorState::OnGround), ActorState::OnLadder);
}

#[test]
fn resolve_state_on_rope() {
    let (t, w, h) = map_from(&[" - ", "   "]);
    let m = mv(&t, w, h);
    assert_eq!(resolve_state(&m, 1, 0, ActorState::Falling), ActorState::OnRope);
}

#[test]
fn resolve_state_falling() {
    let (t, w, h) = map_from(&["   ", "   ", "###"]);
    let m = mv(&t, w, h);
    assert_eq!(resolve_state(&m, 1, 0, ActorState::OnGround), ActorState::Falling);
}

#[test]
fn resolve_state_dead_sticky() {
    let (t, w, h) = map_from(&[" H ", "###"]);
    let m = mv(&t, w, h);
    assert_eq!(resolve_state(&m, 1, 0, ActorState::Dead), ActorState::Dead);
}

#[test]
fn resolve_state_inhole_sticky() {
    let (t, w, h) = map_from(&["   ", "###"]);
    let m = mv(&t, w, h);
    assert_eq!(resolve_state(&m, 0, 0, ActorState::InHole), ActorState::InHole);
}

#[test]
fn dig_basic() {
    let (t, w, h) = map_from(&["   ", "###"]);
    let m = mv(&t, w, h);
    assert_eq!(can_dig(&m, 1, 0, ActorState::OnGround, Facing::Right), Some((2, 1)));
    assert_eq!(can_dig(&m, 1, 0, ActorState::OnGround, Facing::Left), Some((0, 1)));
}

#[test]
fn dig_denied_while_falling() {
    let (t, w, h) = map_from(&["   ", "###"]);
    let m = mv(&t, w, h);
    assert_eq!(can_dig(&m, 1, 0, ActorState::Falling, Facing::Right), None);
}

#[test]
fn dig_denied_side_blocked() {
    let (t, w, h) = map_from(&[" = ", "###"]);
    let m = mv(&t, w, h);
    assert_eq!(can_dig(&m, 0, 0, ActorState::OnGround, Facing::Right), None);
}

#[test]
fn dig_denied_target_concrete() {
    let (t, w, h) = map_from(&["   ", "#=#"]);
    let m = mv(&t, w, h);
    assert_eq!(can_dig(&m, 0, 0, ActorState::OnGround, Facing::Right), None);
}

#[test]
fn dig_denied_under_ladder() {
    let (t, w, h) = map_from(&[" H ", "###"]);
    let m = mv(&t, w, h);
    assert_eq!(can_dig(&m, 0, 0, ActorState::OnGround, Facing::Right), None);
}

#[test]
fn dig_from_ladder() {
    let (t, w, h) = map_from(&["H  ", "H##"]);
    let m = mv(&t, w, h);
    assert_eq!(can_dig(&m, 0, 0, ActorState::OnLadder, Facing::Right), Some((1, 1)));
}

#[test]
fn dig_at_map_edge() {
    let (t, w, h) = map_from(&["   ", "###"]);
    let m = mv(&t, w, h);
    assert_eq!(can_dig(&m, 0, 0, ActorState::OnGround, Facing::Left), None);
    assert_eq!(can_dig(&m, 2, 0, ActorState::OnGround, Facing::Right), None);
}

#[test]
fn dig_at_bottom_edge() {
    let (t, w, h) = map_from(&["###"]);
    let m = mv(&t, w, h);
    assert_eq!(can_dig(&m, 1, 0, ActorState::OnGround, Facing::Left), None);
}

#[test]
fn dig_denied_into_trap_brick_and_while_dead_or_trapped() {
    let (t, w, h) = map_from(&["   ", "#T#"]);
    let m = mv(&t, w, h);
    assert_eq!(can_dig(&m, 0, 0, ActorState::OnGround, Facing::Right), None);
    assert_eq!(can_dig(&m, 1, 0, ActorState::Dead, Facing::Left), None);
    assert_eq!(can_dig(&m, 1, 0, ActorState::InHole, Facing::Left), None);
}

#[test]
fn dig_from_rope_without_ground() {
    let (t, w, h) = map_from(&["-- ", "   ", " # "]);
    let m = mv(&t, w, h);
    assert_eq!(can_dig(&m, 0, 0, ActorState::OnRope, Facing::Right), None);
    let (t2, w2, h2) = map_from(&["-  ", " # "]);
    let m2 = mv(&t2, w2, h2);
    assert_eq!(can_dig(&m2, 0, 0, ActorState::OnRope, Facing::Right), Some((1, 1)));
}

#[test]
fn tile_lookup_off_map_is_concrete() {
    let (t, w, h) = map_from(&[" "]);
    let m = mv(&t, w, h);
    assert_eq!(m.tile_at(3, 0), Tile::Concrete);
    assert!(!m.is_passable(0, 4));
    assert!(m.is_passable(0, 0));
}
