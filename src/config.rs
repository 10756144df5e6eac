//! Tuning parameters of the simulation and their defaults.
use vstd::prelude::*;

verus! {

/// Timing parameters, in ticks unless stated otherwise.
#[derive(Clone, Copy, Debug)]
pub struct SpeedConfig {
    pub tick_rate_ms: u64,
    pub player_move_rate: u32,
    pub guard_move_rate: u32,
    pub dig_duration: u32,
    /// Phase one of a hole: fully open.
    pub hole_open_ticks: u32,
    /// Phase two of a hole: closing.
    pub hole_close_ticks: u32,
    pub trap_escape_ticks: u32,
    pub guard_respawn_ticks: u32,
    /// Ticks a guard carries gold before dropping it; 0 never drops.
    pub gold_carry_ticks: u32,
}

/// Gamepad button names bound to each action.
#[derive(Clone, Debug)]
pub struct GamepadConfig {
    pub hack_left: Vec<String>,
    pub hack_right: Vec<String>,
    pub confirm: Vec<String>,
    pub cancel: Vec<String>,
    pub restart: Vec<String>,
}

/// The whole configuration: timings, button bindings and where levels live.
#[derive(Clone, Debug)]
pub struct GameConfig {
    pub speed: SpeedConfig,
    pub gamepad: GamepadConfig,
    pub levels_dir: String,
}

pub fn default_tick_rate() -> (r: u64)
    ensures
        r == 75,
{
    75
}

pub fn default_player_move() -> (r: u32)
    ensures
        r == 2,
{
    2
}

pub fn default_guard_move() -> (r: u32)
    ensures
        r == 5,
{
    5
}

pub fn default_dig_duration() -> (r: u32)
    ensures
        r == 5,
{
    5
}

pub fn default_hole_open() -> (r: u32)
    ensures
        r == 100,
{
    100
}

pub fn default_hole_close() -> (r: u32)
    ensures
        r == 20,
{
    20
}

pub fn default_trap_escape() -> (r: u32)
    ensures
        r == 70,
{
    70
}

pub fn default_guard_respawn() -> (r: u32)
    ensures
        r == 40,
{
    40
}

pub fn default_gold_carry() -> (r: u32)
    ensures
        r == 150,
{
    150
}

fn names(a: &str) -> (r: Vec<String>)
    ensures
        r@.len() == 1,
        r@[0]@ == a@,
{
    let mut v: Vec<String> = Vec::new();
    v.push(String::from_str(a));
    v
}

fn names3(a: &str, b: &str, c: &str) -> (r: Vec<String>)
    ensures
        r@.len() == 3,
        r@[0]@ == a@,
        r@[1]@ == b@,
        r@[2]@ == c@,
{
    let mut v: Vec<String> = Vec::new();
    v.push(String::from_str(a));
    v.push(String::from_str(b));
    v.push(String::from_str(c));
    v
}

pub fn default_hack_left() -> (r: Vec<String>)
    ensures
        r@.len() == 3,
{
    names3("B", "Y", "L1")
}

pub fn default_hack_right() -> (r: Vec<String>)
    ensures
        r@.len() == 3,
{
    names3("A", "X", "R1")
}

pub fn default_confirm() -> (r: Vec<String>)
    ensures
        r@.len() == 1,
{
    names("Start")
}

pub fn default_cancel() -> (r: Vec<String>)
    ensures
        r@.len() == 1,
{
    names("Select")
}

pub fn default_restart() -> (r: Vec<String>)
    ensures
        r@.len() == 1,
{
    names("Start")
}

pub fn default_levels_dir() -> (r: String)
    ensures
        r@ == "levels"@,
{
    String::from_str("levels")
}

impl SpeedConfig {
    pub open spec fn defaults_spec() -> SpeedConfig {
        SpeedConfig {
            tick_rate_ms: 75,
            player_move_rate: 2,
            guard_move_rate: 5,
            dig_duration: 5,
            hole_open_ticks: 100,
            hole_close_ticks: 20,
            trap_escape_ticks: 70,
            guard_respawn_ticks: 40,
            gold_carry_ticks: 150,
        }
    }

    /// The default timings.
    pub fn defaults() -> (r: SpeedConfig)
        ensures
            r == Self::defaults_spec(),
    {
        SpeedConfig {
            tick_rate_ms: default_tick_rate(),
            player_move_rate: default_player_move(),
            guard_move_rate: default_guard_move(),
            dig_duration: default_dig_duration(),
            hole_open_ticks: default_hole_open(),
            hole_close_ticks: default_hole_close(),
            trap_escape_ticks: default_trap_escape(),
            guard_respawn_ticks: default_guard_respawn(),
            gold_carry_ticks: default_gold_carry(),
        }
    }
}

impl GameConfig {
    /// The configuration used when no settings are given.
    pub fn defaults() -> (r: GameConfig)
        ensures
            r.speed == SpeedConfig::defaults_spec(),
            r.levels_dir@ == "levels"@,
    {
        GameConfig {
            speed: SpeedConfig::defaults(),
            gamepad: GamepadConfig {
                hack_left: default_hack_left(),
                hack_right: default_hack_right(),
                confirm: default_confirm(),
                cancel: default_cancel(),
                restart: default_restart(),
            },
            levels_dir: default_levels_dir(),
        }
    }
}

} // verus!
