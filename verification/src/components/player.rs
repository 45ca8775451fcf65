//! A player's health and the movement it has asked for.

use vstd::prelude::*;

verus! {

/// The health of a player that has just spawned or respawned.
pub const FULL_HEALTH: u16 = 100;

/// The movement a player asks for: four held directions and a one-shot jump.
#[derive(Clone, Copy, Debug, PartialEq, Eq, Structural)]
pub struct MoveState {
    pub forward: bool,
    pub back: bool,
    pub left: bool,
    pub right: bool,
    pub jump: bool,
}

/// Health and pending movement of one player.
#[derive(Clone, Copy, Debug, PartialEq, Eq, Structural)]
pub struct Player {
    pub hp: u16,
    pub moves: MoveState,
}

impl MoveState {
    /// The state in which nothing is asked for.
    pub open spec fn idle() -> MoveState {
        MoveState { forward: false, back: false, left: false, right: false, jump: false }
    }

    /// Whether no direction is held.
    pub open spec fn still(self) -> bool {
        !self.forward && !self.back && !self.left && !self.right
    }

    /// Clears every flag.
    pub fn reset(&mut self)
        ensures
            *final(self) == MoveState::idle(),
    {
        *self = MoveState { forward: false, back: false, left: false, right: false, jump: false };
    }

    /// Asks for a jump.
    pub fn set_jump(&mut self)
        ensures
            *final(self) == (MoveState { jump: true, ..*old(self) }),
    {
        self.jump = true;
    }

    /// Reads the jump flag and clears it, so that one request gives one jump.
    pub fn get_jump(&mut self) -> (jump: bool)
        ensures
            jump == old(self).jump,
            *final(self) == (MoveState { jump: false, ..*old(self) }),
    {
        let jump = self.jump;
        self.jump = false;
        jump
    }
}

impl Default for MoveState {
    fn default() -> (state: MoveState)
        ensures
            state == MoveState::idle(),
    {
        MoveState { forward: false, back: false, left: false, right: false, jump: false }
    }
}

impl Player {
    /// Health never exceeds [`FULL_HEALTH`].
    pub open spec fn well_formed(self) -> bool {
        self.hp <= FULL_HEALTH
    }

    /// What is left of `hp` after `damage`: never less than zero.
    pub open spec fn remaining(hp: u16, damage: u16) -> u16 {
        if damage >= hp {
            0
        } else {
            (hp - damage) as u16
        }
    }

    /// A player at full health who asks for no movement.
    pub fn new() -> (player: Player)
        ensures
            player == (Player { hp: FULL_HEALTH, moves: MoveState::idle() }),
            player.well_formed(),
    {
        Player {
            hp: FULL_HEALTH,
            moves: MoveState { forward: false, back: false, left: false, right: false, jump: false },
        }
    }

    /// The current health.
    pub fn hp(&self) -> (hp: u16)
        ensures
            hp == self.hp,
    {
        self.hp
    }

    /// Takes `damage` from the health, stopping at zero.
    pub fn hurt(&mut self, damage: u16)
        ensures
            *final(self) == (Player { hp: Player::remaining(old(self).hp, damage), ..*old(self) }),
            old(self).well_formed() ==> final(self).well_formed(),
    {
        self.hp = self.hp.saturating_sub(damage);
    }

    /// Whether the health is used up.
    pub fn dead(&self) -> (dead: bool)
        ensures
            dead == (self.hp == 0),
    {
        self.hp == 0
    }

    /// Restores full health.
    pub fn reset_hp(&mut self)
        ensures
            *final(self) == (Player { hp: FULL_HEALTH, ..*old(self) }),
            final(self).well_formed(),
    {
        self.hp = FULL_HEALTH;
    }
}

} // verus!
