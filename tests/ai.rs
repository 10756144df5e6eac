use noderunner::ai::{find_direction, find_separation_direction};
use noderunner::entity::{ActorState, Guard};
use noderunner::tile::Tile;

fn grid(rows: &[&str]) -> (Vec<Vec<Tile>>, usize, usize) {
    let h = rows.len();
    let w = rows[0].len();
    let t = rows
        .iter()
        .map(|r| {
            r.chars()
                .map(|c| match c {
                    '#' => Tile::Brick,
                    '=' => Tile::Concrete,
                    'H' => Tile::Ladder,
                    '-' => Tile::Rope,
                    _ => Tile::Empty,
                })
                .collect()
        })
        .collect();
    (t, w, h)
}

fn no_holes(w: usize, h: usize) -> Vec<Vec<bool>> {
    vec![vec![false; w]; h]
}

#[test]
fn chase_steps_toward_adjacent_player() {
    let (t, w, h) = grid(&["     ", "#####"]);
    assert_eq!(find_direction(&t, w, h, &no_holes(w, h), &[], 2, 0, ActorState::OnGround, 3, 0), (1, 0));
    assert_eq!(find_direction(&t, w, h, &no_holes(w, h), &[], 2, 0, ActorState::OnGround, 0, 0), (-1, 0));
}

#[test]
fn chase_stays_put_when_trapped_dead_or_on_player() {
    let (t, w, h) = grid(&["     ", "#####"]);
    let hg = no_holes(w, h);
    assert_eq!(find_direction(&t, w, h, &hg, &[], 2, 0, ActorState::InHole, 4, 0), (0, 0));
    assert_eq!(find_direction(&t, w, h, &hg, &[], 2, 0, ActorState::Dead, 4, 0), (0, 0));
    assert_eq!(find_direction(&t, w, h, &hg, &[], 2, 0, ActorState::OnGround, 2, 0), (0, 0));
}

#[test]
fn chase_climbs_ladder_toward_player_above() {
    let (t, w, h) = grid(&["P    ", "H====", "H    ", "#####"]);
    assert_eq!(find_direction(&t, w, h, &no_holes(w, h), &[], 3, 2, ActorState::OnGround, 0, 0), (-1, 0));
    assert_eq!(find_direction(&t, w, h, &no_holes(w, h), &[], 0, 2, ActorState::OnLadder, 0, 0), (0, -1));
}

#[test]
fn chase_falls_back_to_greedy_step_when_unreachable() {
    let (t, w, h) = grid(&["  =  ", "#####"]);
    // The wall blocks every path; the greedy step toward the player is blocked too.
    assert_eq!(find_direction(&t, w, h, &no_holes(w, h), &[], 0, 0, ActorState::OnGround, 4, 0), (1, 0));
    assert_eq!(find_direction(&t, w, h, &no_holes(w, h), &[], 1, 0, ActorState::OnGround, 4, 0), (0, 0));
}

#[test]
fn separation_moves_away_from_nearest_guard() {
    let (t, w, h) = grid(&["       ", "#######"]);
    let mut a = Guard::new(0, 3, 0);
    a.separation_timer = 5;
    let b = Guard::new(1, 4, 0);
    let guards = vec![a, b];
    // Left gains 1 from the other guard (score 10 - 1 toward a player on the right).
    let d = find_separation_direction(&t, w, h, &no_holes(w, h), &guards, 0, 3, 0, ActorState::OnGround, 6, 0);
    assert_eq!(d, (-1, 0));
}

#[test]
fn separation_chases_when_no_guard_is_near() {
    let (t, w, h) = grid(&["       ", "#######"]);
    let guards = vec![Guard::new(0, 0, 0), Guard::new(1, 6, 0)];
    let d = find_separation_direction(&t, w, h, &no_holes(w, h), &guards, 0, 0, 0, ActorState::OnGround, 3, 0);
    assert_eq!(d, (1, 0));
    let mut dead = Guard::new(2, 1, 0);
    dead.state = ActorState::Dead;
    let guards = vec![Guard::new(0, 0, 0), dead];
    let d = find_separation_direction(&t, w, h, &no_holes(w, h), &guards, 0, 0, 0, ActorState::OnGround, 3, 0);
    assert_eq!(d, (1, 0));
}

#[test]
fn separation_ties_go_to_the_earlier_direction() {
    let (t, w, h) = grid(&["   ", "   ", "   ", "###"]);
    // Guard on a ladder-less open cell in mid-air only has down available.
    let guards = vec![Guard::new(0, 1, 2), Guard::new(1, 1, 1)];
    let d = find_separation_direction(&t, w, h, &no_holes(w, h), &guards, 0, 1, 2, ActorState::OnGround, 1, 2);
    // Left and right both gain 1 from the guard above and lose 1 from the player: left comes first.
    assert_eq!(d, (-1, 0));
}
