//! Events emitted by a simulation step, for animation and sound.
use vstd::prelude::*;

verus! {

#[derive(Clone, Copy, PartialEq, Eq, Structural, Debug)]
pub enum GameEvent {
    GoldPicked { x: usize, y: usize },
    HoleCreated { x: usize, y: usize },
    HoleFilled { x: usize, y: usize },
    GuardTrapped { id: usize, x: usize, y: usize },
    GuardKilled { id: usize, x: usize, y: usize },
    GuardRespawned { id: usize },
    GuardDroppedGold { x: usize, y: usize },
    PlayerKilled,
    PlayerFallStart,
    ExitEnabled,
    StageCleared,
    AllGoldCollected,
    TrapCollapsed { x: usize, y: usize },
}

} // verus!
