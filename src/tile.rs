//! Terrain cell kinds and their properties.
//!
//! Every property is a pure function of the variant; the executable
//! predicates double as their own specifications.
use vstd::prelude::*;

verus! {

/// One cell of the level grid.
#[derive(Clone, Copy, PartialEq, Eq, Structural, Debug)]
pub enum Tile {
    Empty,
    /// Solid and diggable.
    Brick,
    /// Solid, never diggable.
    Concrete,
    /// Climbable.
    Ladder,
    /// Hangable (horizontal bar).
    Rope,
    /// Pickup target.
    Gold,
    /// Climbable; stamped onto the map once all gold is collected.
    HiddenLadder,
    /// Solid until something stands on it, then collapses.
    TrapBrick,
}

impl Tile {
    pub open spec fn spec_is_solid(self) -> bool {
        self == Tile::Brick || self == Tile::Concrete || self == Tile::TrapBrick
    }

    pub open spec fn spec_is_diggable(self) -> bool {
        self == Tile::Brick
    }

    pub open spec fn spec_is_climbable(self) -> bool {
        self == Tile::Ladder || self == Tile::HiddenLadder
    }

    pub open spec fn spec_is_hangable(self) -> bool {
        self == Tile::Rope
    }

    pub open spec fn spec_is_passable(self) -> bool {
        !self.spec_is_solid()
    }

    pub open spec fn spec_is_gold(self) -> bool {
        self == Tile::Gold
    }

    pub open spec fn spec_is_trap(self) -> bool {
        self == Tile::TrapBrick
    }

    /// Can an entity stand on top of this tile?
    #[verifier::when_used_as_spec(spec_is_solid)]
    pub fn is_solid(self) -> (r: bool)
        ensures
            r == self.spec_is_solid(),
    {
        matches!(self, Tile::Brick | Tile::Concrete | Tile::TrapBrick)
    }

    /// Can this tile be dug out?
    #[verifier::when_used_as_spec(spec_is_diggable)]
    pub fn is_diggable(self) -> (r: bool)
        ensures
            r == self.spec_is_diggable(),
    {
        matches!(self, Tile::Brick)
    }

    /// Can an entity move up and down on this tile?
    #[verifier::when_used_as_spec(spec_is_climbable)]
    pub fn is_climbable(self) -> (r: bool)
        ensures
            r == self.spec_is_climbable(),
    {
        matches!(self, Tile::Ladder | Tile::HiddenLadder)
    }

    /// Can an entity hang here and move sideways?
    #[verifier::when_used_as_spec(spec_is_hangable)]
    pub fn is_hangable(self) -> (r: bool)
        ensures
            r == self.spec_is_hangable(),
    {
        matches!(self, Tile::Rope)
    }

    /// Can an entity occupy this cell?
    #[verifier::when_used_as_spec(spec_is_passable)]
    pub fn is_passable(self) -> (r: bool)
        ensures
            r == !self.spec_is_solid(),
    {
        !self.is_solid()
    }

    #[verifier::when_used_as_spec(spec_is_gold)]
    pub fn is_gold(self) -> (r: bool)
        ensures
            r == self.spec_is_gold(),
    {
        matches!(self, Tile::Gold)
    }

    #[verifier::when_used_as_spec(spec_is_trap)]
    pub fn is_trap(self) -> (r: bool)
        ensures
            r == self.spec_is_trap(),
    {
        matches!(self, Tile::TrapBrick)
    }
}

impl Default for Tile {
    fn default() -> (r: Tile)
        ensures
            r == Tile::Empty,
    {
        Tile::Empty
    }
}

/// Passability is exactly the absence of solidity, and only brick can be dug.
pub proof fn lemma_tile_properties(t: Tile)
    ensures
        t.is_passable() == !t.is_solid(),
        t.is_diggable() <==> t == Tile::Brick,
        t.is_diggable() ==> t.is_solid(),
{
}

} // verus!
