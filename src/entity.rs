//! Entities: player, guards, holes and digs in progress.
//!
//! Plain records with the small amount of lifecycle logic they own
//! (the two-phase hole timer, the four-stage dig display).
use vstd::prelude::*;

verus! {

#[derive(Clone, Copy, PartialEq, Eq, Structural, Debug)]
pub enum Facing {
    Left,
    Right,
}

/// State machine shared by the player and the guards.
#[derive(Clone, Copy, PartialEq, Eq, Structural, Debug)]
pub enum ActorState {
    OnGround,
    Falling,
    OnLadder,
    OnRope,
    /// Guards only: trapped in a dug hole.
    InHole,
    Dead,
}

/// Movement direction, held continuously.
#[derive(Clone, Copy, PartialEq, Eq, Structural, Debug)]
pub enum MoveDir {
    Left,
    Right,
    Up,
    Down,
}

/// Input for one tick: a held movement and an edge-triggered dig.
#[derive(Clone, Copy, Debug)]
pub struct FrameInput {
    pub movement: Option<MoveDir>,
    pub dig: Option<Facing>,
}

#[derive(Clone, Copy, Debug)]
pub struct Player {
    pub x: usize,
    pub y: usize,
    pub facing: Facing,
    pub state: ActorState,
    pub alive: bool,
    pub move_cooldown: u32,
}

impl Player {
    pub open spec fn new_spec(x: usize, y: usize) -> Player {
        Player { x, y, facing: Facing::Right, state: ActorState::OnGround, alive: true, move_cooldown: 0 }
    }

    pub fn new(x: usize, y: usize) -> (r: Player)
        ensures
            r == Self::new_spec(x, y),
            r.x == x,
            r.y == y,
            r.facing == Facing::Right,
            r.state == ActorState::OnGround,
            r.alive,
            r.move_cooldown == 0,
    {
        Player { x, y, facing: Facing::Right, state: ActorState::OnGround, alive: true, move_cooldown: 0 }
    }
}

#[derive(Clone, Copy, Debug)]
pub struct Guard {
    pub id: usize,
    pub x: usize,
    pub y: usize,
    pub facing: Facing,
    pub state: ActorState,
    pub carry_gold: bool,
    /// Ticks since the gold was picked up; 0 when not carrying.
    pub carry_gold_timer: u32,
    /// Remaining ticks before an escape attempt from a hole.
    pub stuck_timer: u32,
    /// Ticks until the next move.
    pub move_cooldown: u32,
    pub spawn_x: usize,
    pub spawn_y: usize,
    /// Ticks spent dead, counting up to the respawn threshold.
    pub respawn_timer: u32,
    /// Greater than zero: the guard steers away from its nearest neighbour.
    pub separation_timer: u32,
}

impl Guard {
    pub open spec fn new_spec(id: usize, x: usize, y: usize) -> Guard {
        Guard {
            id,
            x,
            y,
            facing: Facing::Left,
            state: ActorState::OnGround,
            carry_gold: false,
            carry_gold_timer: 0,
            stuck_timer: 0,
            move_cooldown: 0,
            spawn_x: x,
            spawn_y: y,
            respawn_timer: 0,
            separation_timer: 0,
        }
    }

    pub fn new(id: usize, x: usize, y: usize) -> (r: Guard)
        ensures
            r == Self::new_spec(id, x, y),
            r.id == id,
            r.x == x,
            r.y == y,
            r.facing == Facing::Left,
            r.state == ActorState::OnGround,
            !r.carry_gold,
            r.carry_gold_timer == 0,
            r.stuck_timer == 0,
            r.move_cooldown == 0,
            r.spawn_x == x,
            r.spawn_y == y,
            r.respawn_timer == 0,
            r.separation_timer == 0,
    {
        Guard {
            id,
            x,
            y,
            facing: Facing::Left,
            state: ActorState::OnGround,
            carry_gold: false,
            carry_gold_timer: 0,
            stuck_timer: 0,
            move_cooldown: 0,
            spawn_x: x,
            spawn_y: y,
            respawn_timer: 0,
            separation_timer: 0,
        }
    }
}

/// A dug brick going through its two phases: fully open, then closing.
/// Active (passable) while either countdown is above zero.
#[derive(Clone, Copy, Debug)]
pub struct Hole {
    pub x: usize,
    pub y: usize,
    pub open_remaining: u32,
    pub close_remaining: u32,
}

impl Hole {
    pub open spec fn spec_is_active(&self) -> bool {
        self.open_remaining > 0 || self.close_remaining > 0
    }

    pub open spec fn spec_is_closing(&self) -> bool {
        self.open_remaining == 0 && self.close_remaining > 0
    }

    /// The hole after one tick: the open phase counts down first, then the closing phase.
    pub open spec fn ticked(self) -> Hole {
        if self.open_remaining > 0 {
            Hole { open_remaining: (self.open_remaining - 1) as u32, ..self }
        } else if self.close_remaining > 0 {
            Hole { close_remaining: (self.close_remaining - 1) as u32, ..self }
        } else {
            self
        }
    }

    pub fn new(x: usize, y: usize, open_ticks: u32, close_ticks: u32) -> (r: Hole)
        ensures
            r == (Hole { x, y, open_remaining: open_ticks, close_remaining: close_ticks }),
    {
        Hole { x, y, open_remaining: open_ticks, close_remaining: close_ticks }
    }

    #[verifier::when_used_as_spec(spec_is_active)]
    pub fn is_active(&self) -> (r: bool)
        ensures
            r == self.spec_is_active(),
    {
        self.open_remaining > 0 || self.close_remaining > 0
    }

    #[verifier::when_used_as_spec(spec_is_closing)]
    pub fn is_closing(&self) -> (r: bool)
        ensures
            r == self.spec_is_closing(),
    {
        self.open_remaining == 0 && self.close_remaining > 0
    }

    /// Closing progress as the fraction `done / total` of the closing phase:
    /// `(0, n)` just as closing starts, approaching `(n, n)` as it seals.
    /// A zero-length closing phase counts as complete, `(1, 1)`.
    pub fn close_progress(&self, total_close: u32) -> (r: (i64, i64))
        ensures
            total_close == 0 ==> r == (1i64, 1i64),
            total_close > 0 ==> r == ((total_close - self.close_remaining) as i64, total_close as i64),
    {
        if total_close == 0 {
            return (1, 1);
        }
        (total_close as i64 - self.close_remaining as i64, total_close as i64)
    }

    /// Advance one tick. Returns true when the hole has just expired.
    pub fn tick(&mut self) -> (expired: bool)
        ensures
            *final(self) == old(self).ticked(),
            expired == !final(self).spec_is_active(),
    {
        if self.open_remaining > 0 {
            self.open_remaining = self.open_remaining - 1;
        } else if self.close_remaining > 0 {
            self.close_remaining = self.close_remaining - 1;
        }
        !self.is_active()
    }
}

/// A brick being dug. The tile stays solid until the countdown reaches zero.
#[derive(Clone, Copy, Debug)]
pub struct DigInProgress {
    pub x: usize,
    pub y: usize,
    pub ticks_remaining: u32,
    /// The dig's full duration; read it through `total_ticks()`.
    pub total_ticks: u32,
}

impl DigInProgress {
    /// Display stage 0..=3 for `remaining` out of `total` ticks: the done
    /// fraction `1 - remaining / total` against the quarters.
    pub open spec fn stage_of(remaining: int, total: int) -> u8 {
        if 4 * (total - remaining) < total {
            0
        } else if 2 * (total - remaining) < total {
            1
        } else if 4 * (total - remaining) < 3 * total {
            2
        } else {
            3
        }
    }

    pub fn new(x: usize, y: usize, duration: u32) -> (r: DigInProgress)
        ensures
            r.x == x,
            r.y == y,
            r.ticks_remaining == duration,
            r.total_ticks == duration,
    {
        DigInProgress { x, y, ticks_remaining: duration, total_ticks: duration }
    }

    /// Rebuild a dig with explicit remaining and total ticks.
    pub fn new_with_state(x: usize, y: usize, remaining: u32, total: u32) -> (r: DigInProgress)
        ensures
            r.x == x,
            r.y == y,
            r.ticks_remaining == remaining,
            r.total_ticks == total,
    {
        DigInProgress { x, y, ticks_remaining: remaining, total_ticks: total }
    }

    pub fn total_ticks(&self) -> (r: u32)
        ensures
            r == self.total_ticks,
    {
        self.total_ticks
    }

    /// Stage index for display: 0 just started, 3 about to open.
    pub fn stage(&self) -> (r: u8)
        ensures
            r == Self::stage_of(self.ticks_remaining as int, self.total_ticks as int),
    {
        let done: i64 = self.total_ticks as i64 - self.ticks_remaining as i64;
        let total: i64 = self.total_ticks as i64;
        if 4 * done < total {
            0
        } else if 2 * done < total {
            1
        } else if 4 * done < 3 * total {
            2
        } else {
            3
        }
    }
}

} // verus!
