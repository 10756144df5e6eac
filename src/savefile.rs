//! The save-file text format: `key=value` lines, with the snapshot after a
//! `has_snapshot=1` line.
use vstd::prelude::*;

use crate::entity::{ActorState, Facing};
use crate::levelfile::{chars_of, copy_chars, parse_decimal, split_lines, starts_with, string_of, trim_from};
use crate::save::{char_to_tile, tile_to_char, SaveData, Snapshot, SnapshotDig, SnapshotGuard, SnapshotHole, SnapshotPlayer};
use crate::tile::Tile;

verus! {

pub fn facing_char(f: Facing) -> (c: char)
    ensures
        c == (if f == Facing::Left { 'L' } else { 'R' }),
{
    match f {
        Facing::Left => 'L',
        Facing::Right => 'R',
    }
}

/// `L` faces left; anything else faces right.
pub fn parse_facing(s: &Vec<char>) -> (f: Facing)
    ensures
        f == (if s@ == seq!['L'] { Facing::Left } else { Facing::Right }),
{
    if s.len() == 1 && s[0] == 'L' {
        assert(s@ =~= seq!['L']);
        Facing::Left
    } else {
        Facing::Right
    }
}

pub open spec fn state_code(s: ActorState) -> char {
    match s {
        ActorState::OnGround => 'G',
        ActorState::Falling => 'F',
        ActorState::OnLadder => 'L',
        ActorState::OnRope => 'R',
        ActorState::InHole => 'H',
        ActorState::Dead => 'D',
    }
}

pub fn state_char(s: ActorState) -> (c: char)
    ensures
        c == state_code(s),
{
    match s {
        ActorState::OnGround => 'G',
        ActorState::Falling => 'F',
        ActorState::OnLadder => 'L',
        ActorState::OnRope => 'R',
        ActorState::InHole => 'H',
        ActorState::Dead => 'D',
    }
}

/// The state a one-letter code names; anything unknown is on the ground.
pub fn parse_state(s: &Vec<char>) -> (st: ActorState)
    ensures
        forall|a: ActorState| s@ == seq![state_code(a)] ==> st == a,
{
    if s.len() != 1 {
        return ActorState::OnGround;
    }
    let c = s[0];
    assert(s@ =~= seq![c]);
    match c {
        'F' => ActorState::Falling,
        'L' => ActorState::OnLadder,
        'R' => ActorState::OnRope,
        'H' => ActorState::InHole,
        'D' => ActorState::Dead,
        _ => ActorState::OnGround,
    }
}

pub(crate) fn push_text(out: &mut Vec<char>, s: &str)
    ensures
        final(out)@ == old(out)@ + s@,
{
    let n = s.unicode_len();
    let mut i: usize = 0;
    while i < n
        invariant
            i <= n,
            n == s@.len(),
            out@ == old(out)@ + s@.subrange(0, i as int),
        decreases n - i,
    {
        out.push(s.get_char(i));
        i = i + 1;
        assert(s@.subrange(0, i as int) == s@.subrange(0, i - 1).push(s@[i - 1]));
    }
    assert(s@.subrange(0, n as int) == s@);
}

/// Decimal digits of `n`, most significant first, without leading zeros.
pub open spec fn decimal_digits(n: nat) -> Seq<char>
    decreases n,
{
    if n < 10 {
        seq![('0' as int + n) as char]
    } else {
        decimal_digits(n / 10).push(('0' as int + n % 10) as char)
    }
}

fn digit_char(d: u64) -> (c: char)
    requires
        d < 10,
    ensures
        c == ('0' as int + d) as char,
{
    if d == 0 {
        '0'
    } else if d == 1 {
        '1'
    } else if d == 2 {
        '2'
    } else if d == 3 {
        '3'
    } else if d == 4 {
        '4'
    } else if d == 5 {
        '5'
    } else if d == 6 {
        '6'
    } else if d == 7 {
        '7'
    } else if d == 8 {
        '8'
    } else {
        '9'
    }
}

pub(crate) fn push_number(out: &mut Vec<char>, n: u64)
    ensures
        final(out)@ == old(out)@ + decimal_digits(n as nat),
    decreases n,
{
    if n >= 10 {
        push_number(out, n / 10);
    }
    out.push(digit_char(n % 10));
}

fn push_line(out: &mut Vec<char>, key: &str, n: u64)
    ensures
        final(out)@ == old(out)@ + key@ + decimal_digits(n as nat) + seq!['\n'],
{
    push_text(out, key);
    push_number(out, n);
    out.push('\n');
}

/// The three header lines of every save.
pub open spec fn header_text(level: usize, score: u32, lives: u32) -> Seq<char> {
    "level="@ + decimal_digits(level as nat) + seq!['\n'] + "score="@ + decimal_digits(score as nat) + seq!['\n'] + "lives="@
        + decimal_digits(lives as nat) + seq!['\n']
}

/// Write a save: the header, then the snapshot when there is one.
pub fn serialize(level: usize, score: u32, lives: u32, snapshot: Option<&Snapshot>) -> (r: String)
    ensures
        r@.len() >= header_text(level, score, lives).len(),
        r@.subrange(0, header_text(level, score, lives).len() as int) == header_text(level, score, lives),
        snapshot is None ==> r@ == header_text(level, score, lives),
{
    let mut out: Vec<char> = Vec::new();
    push_line(&mut out, "level=", level as u64);
    push_line(&mut out, "score=", score as u64);
    push_line(&mut out, "lives=", lives as u64);
    proof {
        reveal_strlit("level=");
        reveal_strlit("score=");
        reveal_strlit("lives=");
        assert(out@ =~= header_text(level, score, lives));
    }
    let mut tail: Vec<char> = Vec::new();
    match snapshot {
        Some(snap) => {
            push_text(&mut tail, "has_snapshot=1\n");
            push_line(&mut tail, "tick=", snap.tick);
            push_line(&mut tail, "width=", snap.width as u64);
            push_line(&mut tail, "height=", snap.height as u64);
            push_line(&mut tail, "gold_remaining=", snap.gold_remaining as u64);
            push_line(&mut tail, "gold_total=", snap.gold_total as u64);
            push_line(&mut tail, "exit_enabled=", if snap.exit_enabled { 1 } else { 0 });
            push_text(&mut tail, "player_spawn=");
            push_number(&mut tail, snap.player_spawn.0 as u64);
            tail.push(',');
            push_line(&mut tail, "", snap.player_spawn.1 as u64);
            let p = snap.player;
            push_text(&mut tail, "player=");
            push_number(&mut tail, p.x as u64);
            tail.push(',');
            push_number(&mut tail, p.y as u64);
            tail.push(',');
            tail.push(facing_char(p.facing));
            tail.push(',');
            tail.push(state_char(p.state));
            tail.push(',');
            push_line(&mut tail, "", p.move_cooldown as u64);
            let mut i: usize = 0;
            while i < snap.guards.len()
                invariant
                    i <= snap.guards@.len(),
                decreases snap.guards.len() - i,
            {
                let g = snap.guards[i];
                push_text(&mut tail, "guard=");
                push_number(&mut tail, g.id as u64);
                tail.push(',');
                push_number(&mut tail, g.x as u64);
                tail.push(',');
                push_number(&mut tail, g.y as u64);
                tail.push(',');
                tail.push(facing_char(g.facing));
                tail.push(',');
                tail.push(state_char(g.state));
                tail.push(',');
                tail.push(if g.carry_gold { '1' } else { '0' });
                tail.push(',');
                push_number(&mut tail, g.carry_gold_timer as u64);
                tail.push(',');
                push_number(&mut tail, g.stuck_timer as u64);
                tail.push(',');
                push_number(&mut tail, g.move_cooldown as u64);
                tail.push(',');
                push_number(&mut tail, g.spawn_x as u64);
                tail.push(',');
                push_number(&mut tail, g.spawn_y as u64);
                tail.push(',');
                push_number(&mut tail, g.respawn_timer as u64);
                tail.push(',');
                push_line(&mut tail, "", g.separation_timer as u64);
                i = i + 1;
            }
            let mut i: usize = 0;
            while i < snap.holes.len()
                invariant
                    i <= snap.holes@.len(),
                decreases snap.holes.len() - i,
            {
                let h = snap.holes[i];
                push_text(&mut tail, "hole=");
                push_number(&mut tail, h.x as u64);
                tail.push(',');
                push_number(&mut tail, h.y as u64);
                tail.push(',');
                push_number(&mut tail, h.open_remaining as u64);
                tail.push(',');
                push_line(&mut tail, "", h.close_remaining as u64);
                i = i + 1;
            }
            let mut i: usize = 0;
            while i < snap.digs.len()
                invariant
                    i <= snap.digs@.len(),
                decreases snap.digs.len() - i,
            {
                let d = snap.digs[i];
                push_text(&mut tail, "dig=");
                push_number(&mut tail, d.x as u64);
                tail.push(',');
                push_number(&mut tail, d.y as u64);
                tail.push(',');
                push_number(&mut tail, d.ticks_remaining as u64);
                tail.push(',');
                push_line(&mut tail, "", d.total_ticks as u64);
                i = i + 1;
            }
            if snap.exit_columns.len() > 0 {
                push_text(&mut tail, "exit_cols=");
                let mut i: usize = 0;
                while i < snap.exit_columns.len()
                    invariant
                        i <= snap.exit_columns@.len(),
                    decreases snap.exit_columns.len() - i,
                {
                    if i > 0 {
                        tail.push(',');
                    }
                    push_number(&mut tail, snap.exit_columns[i] as u64);
                    i = i + 1;
                }
                tail.push('\n');
            }
            let mut i: usize = 0;
            while i < snap.hidden_ladder_positions.len()
                invariant
                    i <= snap.hidden_ladder_positions@.len(),
                decreases snap.hidden_ladder_positions.len() - i,
            {
                let (x, y) = snap.hidden_ladder_positions[i];
                push_text(&mut tail, "hidden_ladder=");
                push_number(&mut tail, x as u64);
                tail.push(',');
                push_line(&mut tail, "", y as u64);
                i = i + 1;
            }
            let mut r: usize = 0;
            while r < snap.tiles.len()
                invariant
                    r <= snap.tiles@.len(),
                decreases snap.tiles.len() - r,
            {
                push_text(&mut tail, "tile_row=");
                let row = &snap.tiles[r];
                let mut x: usize = 0;
                while x < row.len()
                    invariant
                        x <= row@.len(),
                    decreases row.len() - x,
                {
                    tail.push(tile_to_char(row[x]));
                    x = x + 1;
                }
                tail.push('\n');
                r = r + 1;
            }
        },
        None => {},
    }
    let ghost head = out@;
    out.append(&mut tail);
    assert(out@.subrange(0, head.len() as int) == head);
    string_of(&out)
}

/// Split at every `sep`, as `str::split` does: one more part than there
/// are separators.
fn split_on(v: &Vec<char>, sep: char) -> (r: Vec<Vec<char>>)
    ensures
        r@.len() >= 1,
{
    let mut parts: Vec<Vec<char>> = Vec::new();
    let mut start: usize = 0;
    let mut i: usize = 0;
    while i < v.len()
        invariant
            start <= i <= v@.len(),
        decreases v.len() - i,
    {
        if v[i] == sep {
            parts.push(copy_chars(v, start, i));
            start = i + 1;
        }
        i = i + 1;
    }
    parts.push(copy_chars(v, start, v.len()));
    parts
}

/// The text equals the literal.
fn text_is(v: &Vec<char>, lit: &str) -> (r: bool)
    ensures
        r == (v@ == lit@),
{
    let r = starts_with(v, lit) && v.len() == lit.unicode_len();
    proof {
        if r || v@ == lit@ {
            assert(v@.subrange(0, v@.len() as int) == v@);
        }
    }
    r
}

/// The text after `key` when the line starts with it.
fn after_key(line: &Vec<char>, key: &str) -> (r: Option<Vec<char>>)
    ensures
        r matches Some(v) ==> key@.len() <= line@.len() && v@ == line@.subrange(key@.len() as int, line@.len() as int),
        r is None <==> !(key@.len() <= line@.len() && line@.subrange(0, key@.len() as int) == key@),
{
    if starts_with(line, key) {
        Some(copy_chars(line, key.unicode_len(), line.len()))
    } else {
        None
    }
}

/// An unsigned number, white space around it ignored.
fn number(v: &Vec<char>) -> (r: Option<usize>) {
    let t = trim_from(v, 0);
    parse_decimal(&t)
}

/// A number that fits `u32`.
fn number32(v: &Vec<char>) -> (r: Option<u32>)
    ensures
        r matches Some(n) ==> n <= u32::MAX,
{
    match number(v) {
        Some(n) => {
            if n <= 4294967295 {
                Some(n as u32)
            } else {
                None
            }
        },
        None => None,
    }
}

fn trimmed_part(parts: &Vec<Vec<char>>, i: usize) -> (r: Vec<char>)
    requires
        i < parts@.len(),
{
    trim_from(&parts[i], 0)
}

/// `x,y,facing,state,cooldown`.
pub fn parse_player(val: &Vec<char>) -> (r: Option<SnapshotPlayer>) {
    let p = split_on(val, ',');
    if p.len() < 5 {
        return None;
    }
    let x = match number(&p[0]) {
        Some(n) => n,
        None => return None,
    };
    let y = match number(&p[1]) {
        Some(n) => n,
        None => return None,
    };
    let facing = parse_facing(&trimmed_part(&p, 2));
    let state = parse_state(&trimmed_part(&p, 3));
    let move_cooldown = match number32(&p[4]) {
        Some(n) => n,
        None => return None,
    };
    Some(SnapshotPlayer { x, y, facing, state, move_cooldown })
}

/// `id,x,y,facing,state,gold,gold_timer,stuck,cooldown,spawn_x,spawn_y,respawn,separation`.
pub fn parse_guard(val: &Vec<char>) -> (r: Option<SnapshotGuard>) {
    let p = split_on(val, ',');
    if p.len() < 13 {
        return None;
    }
    let id = match number(&p[0]) {
        Some(n) => n,
        None => return None,
    };
    let x = match number(&p[1]) {
        Some(n) => n,
        None => return None,
    };
    let y = match number(&p[2]) {
        Some(n) => n,
        None => return None,
    };
    let facing = parse_facing(&trimmed_part(&p, 3));
    let state = parse_state(&trimmed_part(&p, 4));
    let carry_gold = text_is(&trimmed_part(&p, 5), "1");
    let carry_gold_timer = match number32(&p[6]) {
        Some(n) => n,
        None => return None,
    };
    let stuck_timer = match number32(&p[7]) {
        Some(n) => n,
        None => return None,
    };
    let move_cooldown = match number32(&p[8]) {
        Some(n) => n,
        None => return None,
    };
    let spawn_x = match number(&p[9]) {
        Some(n) => n,
        None => return None,
    };
    let spawn_y = match number(&p[10]) {
        Some(n) => n,
        None => return None,
    };
    let respawn_timer = match number32(&p[11]) {
        Some(n) => n,
        None => return None,
    };
    let separation_timer = match number32(&p[12]) {
        Some(n) => n,
        None => return None,
    };
    Some(
        SnapshotGuard {
            id,
            x,
            y,
            facing,
            state,
            carry_gold,
            carry_gold_timer,
            stuck_timer,
            move_cooldown,
            spawn_x,
            spawn_y,
            respawn_timer,
            separation_timer,
        },
    )
}

/// Four comma-separated numbers: two coordinates and two counters.
fn parse_four(val: &Vec<char>) -> (r: Option<(usize, usize, u32, u32)>) {
    let p = split_on(val, ',');
    if p.len() < 4 {
        return None;
    }
    let a = match number(&p[0]) {
        Some(n) => n,
        None => return None,
    };
    let b = match number(&p[1]) {
        Some(n) => n,
        None => return None,
    };
    let c = match number32(&p[2]) {
        Some(n) => n,
        None => return None,
    };
    let d = match number32(&p[3]) {
        Some(n) => n,
        None => return None,
    };
    Some((a, b, c, d))
}

/// `x,y,open_remaining,close_remaining`.
pub fn parse_hole(val: &Vec<char>) -> (r: Option<SnapshotHole>)
    ensures
        r matches Some(h) ==> h.open_remaining <= u32::MAX,
{
    match parse_four(val) {
        Some((x, y, o, c)) => Some(SnapshotHole { x, y, open_remaining: o, close_remaining: c }),
        None => None,
    }
}

/// `x,y,ticks_remaining,total_ticks`.
pub fn parse_dig(val: &Vec<char>) -> (r: Option<SnapshotDig>)
    ensures
        r matches Some(d) ==> d.ticks_remaining <= u32::MAX,
{
    match parse_four(val) {
        Some((x, y, t, n)) => Some(SnapshotDig { x, y, ticks_remaining: t, total_ticks: n }),
        None => None,
    }
}

/// Drop trailing white space (leading space of a tile row is kept).
fn trim_end(v: &Vec<char>) -> (r: Vec<char>)
    ensures
        r@.len() <= v@.len(),
        r@ == v@.subrange(0, r@.len() as int),
{
    let mut b: usize = v.len();
    while b > 0 && crate::levelfile::white_char(v[b - 1])
        invariant
            b <= v@.len(),
        decreases b,
    {
        b = b - 1;
    }
    copy_chars(v, 0, b)
}

/// Read a save. The header's level, score and lives are required; a
/// snapshot is kept when the save says it has one and holds a player line
/// and at least one tile row. Unreadable snapshot values fall back to zero.
pub fn parse_save(content: &str) -> (r: Option<SaveData>)
    ensures
        r matches Some(d) ==> (d.snapshot matches Some(s) ==> s.tiles@.len() > 0),
{
    let cs = chars_of(content);
    let lines = split_lines(&cs);
    let mut level: Option<usize> = None;
    let mut score: Option<u32> = None;
    let mut lives: Option<u32> = None;
    let mut has_snapshot = false;
    let mut tick: u64 = 0;
    let mut width: usize = 0;
    let mut height: usize = 0;
    let mut gold_remaining: usize = 0;
    let mut gold_total: usize = 0;
    let mut exit_enabled = false;
    let mut player_spawn: (usize, usize) = (0, 0);
    let mut player: Option<SnapshotPlayer> = None;
    let mut guards: Vec<SnapshotGuard> = Vec::new();
    let mut holes: Vec<SnapshotHole> = Vec::new();
    let mut digs: Vec<SnapshotDig> = Vec::new();
    let mut exit_columns: Vec<usize> = Vec::new();
    let mut hidden: Vec<(usize, usize)> = Vec::new();
    let mut tile_rows: Vec<Vec<Tile>> = Vec::new();
    let mut i: usize = 0;
    while i < lines.len()
        invariant
            i <= lines@.len(),
        decreases lines.len() - i,
    {
        let line = trim_end(&lines[i]);
        i = i + 1;
        if let Some(val) = after_key(&line, "level=") {
            level = number(&val);
        } else if let Some(val) = after_key(&line, "score=") {
            score = number32(&val);
        } else if let Some(val) = after_key(&line, "lives=") {
            lives = number32(&val);
        } else if text_is(&trim_from(&line, 0), "has_snapshot=1") {
            has_snapshot = true;
        } else if let Some(val) = after_key(&line, "tick=") {
            tick = match number(&val) {
                Some(n) => n as u64,
                None => 0,
            };
        } else if let Some(val) = after_key(&line, "width=") {
            width = match number(&val) {
                Some(n) => n,
                None => 0,
            };
        } else if let Some(val) = after_key(&line, "height=") {
            height = match number(&val) {
                Some(n) => n,
                None => 0,
            };
        } else if let Some(val) = after_key(&line, "gold_remaining=") {
            gold_remaining = match number(&val) {
                Some(n) => n,
                None => 0,
            };
        } else if let Some(val) = after_key(&line, "gold_total=") {
            gold_total = match number(&val) {
                Some(n) => n,
                None => 0,
            };
        } else if let Some(val) = after_key(&line, "exit_enabled=") {
            exit_enabled = text_is(&trim_from(&val, 0), "1");
        } else if let Some(val) = after_key(&line, "player_spawn=") {
            let parts = split_on(&val, ',');
            if parts.len() == 2 {
                let x = match number(&parts[0]) {
                    Some(n) => n,
                    None => 0,
                };
                let y = match number(&parts[1]) {
                    Some(n) => n,
                    None => 0,
                };
                player_spawn = (x, y);
            }
        } else if let Some(val) = after_key(&line, "player=") {
            player = parse_player(&val);
        } else if let Some(val) = after_key(&line, "guard=") {
            if let Some(g) = parse_guard(&val) {
                guards.push(g);
            }
        } else if let Some(val) = after_key(&line, "hole=") {
            if let Some(h) = parse_hole(&val) {
                holes.push(h);
            }
        } else if let Some(val) = after_key(&line, "dig=") {
            if let Some(d) = parse_dig(&val) {
                digs.push(d);
            }
        } else if let Some(val) = after_key(&line, "exit_cols=") {
            let parts = split_on(&val, ',');
            let mut cols: Vec<usize> = Vec::new();
            let mut k: usize = 0;
            while k < parts.len()
                invariant
                    k <= parts@.len(),
                decreases parts.len() - k,
            {
                if let Some(n) = number(&parts[k]) {
                    cols.push(n);
                }
                k = k + 1;
            }
            exit_columns = cols;
        } else if let Some(val) = after_key(&line, "hidden_ladder=") {
            let parts = split_on(&val, ',');
            if parts.len() == 2 {
                match (number(&parts[0]), number(&parts[1])) {
                    (Some(x), Some(y)) => hidden.push((x, y)),
                    _ => {},
                }
            }
        } else if let Some(val) = after_key(&line, "tile_row=") {
            let mut row: Vec<Tile> = Vec::new();
            let mut k: usize = 0;
            while k < val.len()
                invariant
                    k <= val@.len(),
                decreases val.len() - k,
            {
                row.push(char_to_tile(val[k]));
                k = k + 1;
            }
            tile_rows.push(row);
        }
    }
    let snapshot = match player {
        Some(p) => {
            if has_snapshot && tile_rows.len() > 0 {
                Some(
                    Snapshot {
                        tick,
                        width,
                        height,
                        tiles: tile_rows,
                        player: p,
                        guards,
                        holes,
                        digs,
                        gold_remaining,
                        gold_total,
                        exit_enabled,
                        exit_columns,
                        hidden_ladder_positions: hidden,
                        player_spawn,
                    },
                )
            } else {
                None
            }
        },
        None => None,
    };
    match (level, score, lives) {
        (Some(level), Some(score), Some(lives)) => Some(SaveData { level, score, lives, snapshot }),
        _ => None,
    }
}

} // verus!
