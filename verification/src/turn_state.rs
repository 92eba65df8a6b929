//! The session's turn bookkeeping: a monotonic turn counter, the entity
//! holding initiative, and its action-point budget. Created once per
//! session, reset on a new game, mutated only by the turn controller.

use vstd::prelude::*;

use crate::registry::EntityId;

verus! {

/// Turn counter, initiative holder and action-point budget.
#[derive(Clone, Copy, Debug, PartialEq, Eq, Structural)]
pub struct TurnState {
    pub current_entity: Option<EntityId>,
    pub action_points: i32,
    pub turn_number: u32,
}

impl TurnState {
    /// A fresh session: turn zero, nobody holding initiative, no budget.
    pub fn new() -> (r: Self)
        ensures
            r == (TurnState { current_entity: Option::<EntityId>::None, action_points: 0, turn_number: 0 }),
    {
        Self { current_entity: None, action_points: 0, turn_number: 0 }
    }

    /// Advance the turn counter by exactly one; nothing else changes.
    pub fn next_turn(&mut self)
        requires
            old(self).turn_number < u32::MAX,
        ensures
            final(self).turn_number == old(self).turn_number + 1,
            final(self).current_entity == old(self).current_entity,
            final(self).action_points == old(self).action_points,
    {
        self.turn_number = self.turn_number + 1;
    }

    /// Hand initiative to an entity with a fresh action-point budget.
    pub fn set_current_entity(&mut self, entity: EntityId, action_points: i32)
        ensures
            final(self).current_entity == Some(entity),
            final(self).action_points == action_points,
            final(self).turn_number == old(self).turn_number,
    {
        self.current_entity = Some(entity);
        self.action_points = action_points;
    }

    /// Nobody holds initiative; the budget empties.
    pub fn clear_current_entity(&mut self)
        ensures
            final(self).current_entity is None,
            final(self).action_points == 0,
            final(self).turn_number == old(self).turn_number,
    {
        self.current_entity = None;
        self.action_points = 0;
    }

    /// Spend points from the budget: succeeds and decrements exactly when
    /// enough points remain, otherwise changes nothing, and the caller must
    /// treat the action as not taken this turn.
    pub fn consume_action_points(&mut self, points: i32) -> (r: bool)
        requires
            0 <= points,
        ensures
            r == (old(self).action_points >= points),
            r ==> final(self).action_points == old(self).action_points - points,
            !r ==> *final(self) == *old(self),
            final(self).current_entity == old(self).current_entity,
            final(self).turn_number == old(self).turn_number,
    {
        if self.action_points >= points {
            self.action_points = self.action_points - points;
            true
        } else {
            false
        }
    }
}

impl Default for TurnState {
    /// Same as a fresh session.
    fn default() -> (r: Self)
        ensures
            r == (TurnState { current_entity: Option::<EntityId>::None, action_points: 0, turn_number: 0 }),
    {
        TurnState::new()
    }
}

} // verus!
