//! The components that the rules of this crate read and write.

use crate::entity_id::{decode_entity_id, parse_decimal};
use vstd::prelude::*;

verus! {

/// What a controllable actor is doing during a tick.
#[derive(Debug, Clone, Copy, PartialEq, Eq, Structural)]
pub enum PlayerState {
    Idle,
    Move,
    Interact,
}

/// Which model a renderable entity is drawn with.
#[derive(Debug, Clone, Copy, PartialEq, Eq, Structural)]
pub enum ModelId {
    Player,
    Rock,
}

/// The world clock: the number of ticks that have run.
#[derive(Debug, Clone, Copy, PartialEq, Eq, Structural)]
pub struct Tick {
    pub tick: u64,
}

/// Marks an actor as controlled from this host.
#[derive(Debug, Clone, Copy, PartialEq, Eq, Structural)]
pub struct Local;

/// The state machine of a controllable actor.
#[derive(Debug, Clone, Copy, PartialEq, Eq, Structural)]
pub struct Player {
    pub state: PlayerState,
}

/// What the renderer needs to know about an entity besides where it stands.
#[derive(Debug, Clone, Copy, PartialEq, Eq, Structural)]
pub struct Render {
    pub dirty: bool,
    pub model: ModelId,
    pub animation_index: i8,
}

/// The interaction target of an actor: whether one is selected, and the
/// handle of the selected entity in its decimal form.
#[derive(Debug)]
pub struct PlayerNode {
    pub node_selected: bool,
    pub node_entity_id: String,
}

impl PlayerState {
    /// The animation that shows this state.
    pub open spec fn animation(self) -> i8 {
        match self {
            PlayerState::Idle => 0,
            PlayerState::Move => 1,
            PlayerState::Interact => 2,
        }
    }

    /// The animation that shows this state.
    pub fn animation_index(self) -> (index: i8)
        ensures
            index == self.animation(),
    {
        match self {
            PlayerState::Idle => 0,
            PlayerState::Move => 1,
            PlayerState::Interact => 2,
        }
    }
}

impl PlayerNode {
    /// The handle of the node that the actor has selected: `None` where no
    /// node is selected or the text that names it is malformed.
    pub fn target(&self) -> (bits: Option<u64>)
        ensures
            bits == (if self.node_selected {
                parse_decimal(self.node_entity_id@)
            } else {
                None
            }),
    {
        if self.node_selected {
            decode_entity_id(self.node_entity_id.as_str())
        } else {
            None
        }
    }
}

} // verus!
