//! The turn controller's command layer: the resolved player commands the
//! input layer hands in, and their resolution against the map, the
//! registry, the narration log and the turn counter. Exactly one turn
//! passes per resolved action, whether or not the underlying attempt
//! succeeded: waiting and bumping a wall both consume a turn.

use vstd::prelude::*;

use crate::components::ColorRgb;
use crate::game_log::{spec_appended, GameLog};
use crate::grid_map::GridMap;
use crate::movement::{
    spec_try_move_ok,
    spec_try_move_result,
    try_move_entity,
    MoveDirection,
};
use crate::position::Position;
use crate::registry::{EntityId, Registry, Slot};
use crate::terrain::TerrainType;
use crate::turn_state::TurnState;

verus! {

/// A resolved discrete player command. The core never parses raw key
/// events; the input layer resolves them to one of these.
#[derive(Clone, Copy, Debug, PartialEq, Eq, Hash, Structural)]
pub enum PlayerAction {
    Move(MoveDirection),
    Wait,
    PickupItem,
    UseItem(EntityId),
    DropItem(EntityId),
    EquipItem(EntityId),
    UnequipItem(EntityId),
}

/// Resolve one player command. A dead player handle is reported nowhere
/// and nothing changes. Otherwise: a move command routes through the
/// movement controller and narrates success or the block; every other
/// command narrates what happened; and the turn counter advances exactly
/// once, whatever the outcome of the attempt.
pub fn handle_player_actions(
    action: PlayerAction,
    registry: &mut Registry,
    player: EntityId,
    map: &GridMap,
    game_log: &mut GameLog,
    turn_state: &mut TurnState,
)
    requires
        old(registry).wf(),
        map.wf(),
        old(game_log).wf(),
        old(turn_state).turn_number < u32::MAX,
    ensures
        final(registry).wf(),
        final(game_log).wf(),
        !old(registry).spec_live(player) ==> *final(registry) == *old(registry) && *final(game_log) == *old(game_log) && *final(turn_state) == *old(turn_state),
        old(registry).spec_live(player) ==> {
            &&& final(turn_state).turn_number == old(turn_state).turn_number + 1
            &&& final(turn_state).current_entity == old(turn_state).current_entity
            &&& final(turn_state).action_points == old(turn_state).action_points
        },
        old(registry).spec_live(player) ==> match action {
            PlayerAction::Move(dir) => {
                &&& final(registry).slots@ == spec_try_move_result(
                    old(registry).slots@,
                    player,
                    dir,
                    *map,
                )
                &&& (spec_try_move_ok(old(registry).slots@, player, dir, *map) ==> spec_appended(
                    old(game_log).entries@,
                    final(game_log).entries@,
                    "You move."@,
                    ColorRgb { r: 50, g: 50, b: 100 },
                ))
                &&& (!spec_try_move_ok(old(registry).slots@, player, dir, *map) ==> spec_appended(
                    old(game_log).entries@,
                    final(game_log).entries@,
                    "Something blocks your way."@,
                    ColorRgb { r: 100, g: 30, b: 30 },
                ))
            },
            PlayerAction::Wait => *final(registry) == *old(registry) && spec_appended(
                old(game_log).entries@,
                final(game_log).entries@,
                "You wait."@,
                ColorRgb { r: 50, g: 50, b: 100 },
            ),
            PlayerAction::PickupItem => {
                &&& *final(registry) == *old(registry)
                &&& (old(registry).spec_record(player).position is Some ==> spec_appended(
                    old(game_log).entries@,
                    final(game_log).entries@,
                    "You pick up an item."@,
                    ColorRgb { r: 0, g: 100, b: 0 },
                ))
                &&& (old(registry).spec_record(player).position is None ==> *final(game_log)
                    == *old(game_log))
            },
            PlayerAction::UseItem(_) => *final(registry) == *old(registry) && spec_appended(
                old(game_log).entries@,
                final(game_log).entries@,
                "You use an item."@,
                ColorRgb { r: 0, g: 100, b: 0 },
            ),
            PlayerAction::DropItem(_) => *final(registry) == *old(registry) && spec_appended(
                old(game_log).entries@,
                final(game_log).entries@,
                "You drop an item."@,
                ColorRgb { r: 50, g: 50, b: 50 },
            ),
            PlayerAction::EquipItem(_) => *final(registry) == *old(registry) && spec_appended(
                old(game_log).entries@,
                final(game_log).entries@,
                "You equip an item."@,
                ColorRgb { r: 0, g: 100, b: 0 },
            ),
            PlayerAction::UnequipItem(_) => *final(registry) == *old(registry) && spec_appended(
                old(game_log).entries@,
                final(game_log).entries@,
                "You unequip an item."@,
                ColorRgb { r: 50, g: 50, b: 50 },
            ),
        },
{
    if !registry.is_live(player) {
        return ;
    }
    match action {
        PlayerAction::Move(direction) => {
            let moved = try_move_entity(registry, player, direction, map);
            if moved {
                game_log.add_entry_srgb(
                    "You move.".to_string(),
                    ColorRgb { r: 50, g: 50, b: 100 },
                );
            } else {
                game_log.add_entry_srgb(
                    "Something blocks your way.".to_string(),
                    ColorRgb { r: 100, g: 30, b: 30 },
                );
            }
        },
        PlayerAction::Wait => {
            game_log.add_entry_srgb("You wait.".to_string(), ColorRgb { r: 50, g: 50, b: 100 });
        },
        PlayerAction::PickupItem => {
            if registry.position_of(player).is_some() {
                game_log.add_entry_srgb(
                    "You pick up an item.".to_string(),
                    ColorRgb { r: 0, g: 100, b: 0 },
                );
            }
        },
        PlayerAction::UseItem(_item) => {
            game_log.add_entry_srgb(
                "You use an item.".to_string(),
                ColorRgb { r: 0, g: 100, b: 0 },
            );
        },
        PlayerAction::DropItem(_item) => {
            game_log.add_entry_srgb(
                "You drop an item.".to_string(),
                ColorRgb { r: 50, g: 50, b: 50 },
            );
        },
        PlayerAction::EquipItem(_item) => {
            game_log.add_entry_srgb(
                "You equip an item.".to_string(),
                ColorRgb { r: 0, g: 100, b: 0 },
            );
        },
        PlayerAction::UnequipItem(_item) => {
            game_log.add_entry_srgb(
                "You unequip an item.".to_string(),
                ColorRgb { r: 50, g: 50, b: 50 },
            );
        },
    }
    turn_state.next_turn();
}

/// What a movement command reports back to the session layer: `Moved` for
/// an ordinary step, `MovedToStairs` as the level-transition signal,
/// `Blocked` for a wall or the map edge, `NoPosition` for an entity the
/// registry holds no position for.
#[derive(Clone, Copy, Debug, PartialEq, Eq, Hash, Structural)]
pub enum MoveOutcome {
    Moved,
    MovedToStairs,
    Blocked,
    NoPosition,
}

/// A movement command: one step in a fixed direction, resolved with
/// terrain-specific narration.
#[derive(Clone, Copy, Debug, PartialEq, Eq, Hash, Structural)]
pub struct TryMove(pub MoveDirection);

impl TryMove {
    pub fn new(dir: MoveDirection) -> (r: Self)
        ensures
            r.0 == dir,
    {
        Self(dir)
    }

    /// Resolve the step for one entity. An entity without a position is a
    /// reported no-op; a Wall or out-of-bounds target is a bump; Floor and
    /// Stairs commit the move through the single movement path (marking
    /// the mover's sight stale), and Stairs additionally signals the level
    /// transition in the returned outcome. Narration goes to the log in
    /// every case.
    pub fn apply(
        self,
        entity: EntityId,
        registry: &mut Registry,
        map: &GridMap,
        game_log: &mut GameLog,
    ) -> (outcome: MoveOutcome)
        requires
            old(registry).wf(),
            map.wf(),
            old(game_log).wf(),
        ensures
            final(registry).wf(),
            final(game_log).wf(),
            final(registry).slots@ == spec_try_move_result(
                old(registry).slots@,
                entity,
                self.0,
                *map,
            ),
            outcome == TryMove::spec_outcome(old(registry).slots@, entity, self.0, *map),
            spec_appended(
                old(game_log).entries@,
                final(game_log).entries@,
                TryMove::spec_narration(old(registry).slots@, entity, self.0, *map),
                ColorRgb { r: 100, g: 100, b: 0 },
            ),
    {
        let pos = match registry.position_of(entity) {
            Some(p) => p,
            None => {
                game_log.add_entry("Entity cannot move (no position component).".to_string());
                return MoveOutcome::NoPosition;
            },
        };
        let (dx, dy) = self.0.delta();
        let tx = pos.x as i64 + dx as i64;
        let ty = pos.y as i64 + dy as i64;
        let in_range = tx >= i32::MIN as i64 && tx <= i32::MAX as i64 && ty >= i32::MIN as i64
            && ty <= i32::MAX as i64;
        if in_range && !map.is_blocked(tx as i32, ty as i32) {
            let target = Position::new(tx as i32, ty as i32);
            let stairs = matches!(
                map.get_tile(tx as i32, ty as i32),
                TerrainType::Stairs
            );
            registry.move_and_dirty(entity, target);
            proof {
                assert(registry.slots@ =~= spec_try_move_result(
                    old(registry).slots@,
                    entity,
                    self.0,
                    *map,
                ));
            }
            if stairs {
                game_log.add_entry("You move to the next level.".to_string());
                MoveOutcome::MovedToStairs
            } else {
                game_log.add_entry(TryMove::direction_text(self.0));
                MoveOutcome::Moved
            }
        } else {
            game_log.add_entry("You bump into a wall.".to_string());
            MoveOutcome::Blocked
        }
    }

    /// The outcome the command reports for a given state.
    pub open spec fn spec_outcome(
        slots: Seq<Slot>,
        id: EntityId,
        dir: MoveDirection,
        m: GridMap,
    ) -> MoveOutcome {
        if !(crate::registry::spec_live_slots(slots, id) && crate::registry::spec_record_slots(
            slots,
            id,
        ).position is Some) {
            MoveOutcome::NoPosition
        } else if !spec_try_move_ok(slots, id, dir, m) {
            MoveOutcome::Blocked
        } else {
            let pos = crate::registry::spec_record_slots(slots, id).position->Some_0;
            let target = crate::movement::spec_move_target(pos, dir);
            if m.spec_tile(target.0, target.1) is Stairs {
                MoveOutcome::MovedToStairs
            } else {
                MoveOutcome::Moved
            }
        }
    }

    /// The narration line the command logs for a given state.
    pub open spec fn spec_narration(
        slots: Seq<Slot>,
        id: EntityId,
        dir: MoveDirection,
        m: GridMap,
    ) -> Seq<char> {
        match TryMove::spec_outcome(slots, id, dir, m) {
            MoveOutcome::NoPosition => "Entity cannot move (no position component)."@,
            MoveOutcome::Blocked => "You bump into a wall."@,
            MoveOutcome::MovedToStairs => "You move to the next level."@,
            MoveOutcome::Moved => match dir {
                MoveDirection::North => "You move North"@,
                MoveDirection::South => "You move South"@,
                MoveDirection::East => "You move East"@,
                MoveDirection::West => "You move West"@,
            },
        }
    }

    /// The fixed narration for an ordinary step in each direction.
    fn direction_text(dir: MoveDirection) -> (r: String)
        ensures
            r@ == match dir {
                MoveDirection::North => "You move North"@,
                MoveDirection::South => "You move South"@,
                MoveDirection::East => "You move East"@,
                MoveDirection::West => "You move West"@,
            },
    {
        match dir {
            MoveDirection::North => "You move North".to_string(),
            MoveDirection::South => "You move South".to_string(),
            MoveDirection::East => "You move East".to_string(),
            MoveDirection::West => "You move West".to_string(),
        }
    }
}

} // verus!
