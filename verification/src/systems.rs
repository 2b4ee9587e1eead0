//! The systems that run once per tick, in the order in which a tick runs them.

use crate::components::{Player, PlayerNode, PlayerState, Render};
use crate::store::{clock_ids, read_tick, selections, ticks, write_tick};
use hecs::World;
use vstd::prelude::*;

verus! {

/// Whether every clock can still be advanced without leaving 64 bits.
pub open spec fn clocks_have_room(clocks: Map<u64, u64>) -> bool {
    forall|id: u64| clocks.dom().contains(id) ==> #[trigger] clocks[id] < u64::MAX
}

/// The clocks one tick later.
pub open spec fn advanced(clocks: Map<u64, u64>) -> Map<u64, u64> {
    clocks.map_values(|tick: u64| (tick + 1) as u64)
}

/// Advances every clock of the world by one tick.
pub fn update_tick(world: &mut World)
    requires
        clocks_have_room(ticks(*old(world))),
    ensures
        ticks(*final(world)) == advanced(ticks(*old(world))),
        selections(*final(world)) == selections(*old(world)),
{
    let ids = clock_ids(world);
    let mut i: usize = 0;
    while i < ids.len()
        invariant
            i <= ids.len(),
            ids@.no_duplicates(),
            forall|id: u64| ids@.contains(id) <==> ticks(*old(world)).dom().contains(id),
            clocks_have_room(ticks(*old(world))),
            ticks(*world).dom() == ticks(*old(world)).dom(),
            forall|j: int| 0 <= j < i ==> ticks(*world)[#[trigger] ids@[j]] == ticks(*old(world))[ids@[j]] + 1,
            forall|j: int| i <= j < ids.len() ==> ticks(*world)[#[trigger] ids@[j]] == ticks(*old(world))[ids@[j]],
            selections(*world) == selections(*old(world)),
        decreases ids.len() - i,
    {
        let id = ids[i];
        assert(ids@.contains(id));
        if let Some(tick) = read_tick(world, id) {
            write_tick(world, id, tick + 1);
        }
        i += 1;
    }
    assert(ticks(*world) =~= advanced(ticks(*old(world)))) by {
        assert forall|id: u64| ticks(*old(world)).dom().contains(id) implies #[trigger] ticks(
            *world,
        )[id] == ticks(*old(world))[id] + 1 by {
            assert(ids@.contains(id));
            let j = choose|j: int| 0 <= j < ids@.len() && ids@[j] == id;
            assert(ticks(*world)[ids@[j]] == ticks(*old(world))[ids@[j]] + 1);
        }
    }
}

/// Whether [`update_tick`] may run: whether every clock of the world is
/// below `u64::MAX`.
pub fn clocks_can_advance(world: &mut World) -> (room: bool)
    ensures
        room == clocks_have_room(ticks(*old(world))),
        ticks(*final(world)) == ticks(*old(world)),
        selections(*final(world)) == selections(*old(world)),
{
    let ids = clock_ids(world);
    let mut i: usize = 0;
    while i < ids.len()
        invariant
            i <= ids.len(),
            forall|id: u64| ids@.contains(id) <==> ticks(*old(world)).dom().contains(id),
            forall|j: int| 0 <= j < i ==> ticks(*old(world))[#[trigger] ids@[j]] < u64::MAX,
            ticks(*world) == ticks(*old(world)),
            selections(*world) == selections(*old(world)),
        decreases ids.len() - i,
    {
        let id = ids[i];
        assert(ids@.contains(id));
        if let Some(tick) = read_tick(world, id) {
            if tick == u64::MAX {
                return false;
            }
        }
        i += 1;
    }
    assert forall|id: u64| ticks(*old(world)).dom().contains(id) implies #[trigger] ticks(
        *old(world),
    )[id] < u64::MAX by {
        assert(ids@.contains(id));
        let j = choose|j: int| 0 <= j < ids@.len() && ids@[j] == id;
        assert(ticks(*old(world))[ids@[j]] < u64::MAX);
    }
    true
}

/// What the resolver learned about the node that an actor has selected.
#[derive(Debug, Clone, Copy, PartialEq, Eq, Structural)]
pub enum NodeRange {
    /// The node's handle is malformed, or no such entity stands in the world.
    Unresolved,
    /// The node is farther off than the interaction range.
    Beyond,
    /// The node is within the interaction range.
    Within,
}

/// What the kinematics owe an actor for the rest of the tick.
#[derive(Debug, Clone, Copy, PartialEq, Eq, Structural)]
pub enum Steering {
    /// Stand still: no velocity, and the move target is the place where the
    /// actor stands.
    Halt,
    /// Head for the move target, no faster than the actor's speed.
    Seek,
}

/// The state an actor resolves to.  With a node selected, the node decides:
/// out of range the actor moves, in range it interacts, and a node that
/// cannot be resolved leaves the state as it was.  Without one, the actor
/// moves while it is displaced from its move target and idles on it.
pub open spec fn resolved_state(
    state: PlayerState,
    selected: bool,
    range: NodeRange,
    displaced: bool,
) -> PlayerState {
    if selected {
        match range {
            NodeRange::Unresolved => state,
            NodeRange::Beyond => PlayerState::Move,
            NodeRange::Within => PlayerState::Interact,
        }
    } else if displaced {
        PlayerState::Move
    } else {
        PlayerState::Idle
    }
}

/// Whether the resolver makes the selected node's place the move target.
pub open spec fn retargets(selected: bool, range: NodeRange) -> bool {
    selected && range == NodeRange::Beyond
}

/// What the kinematics owe an actor in a given state.
pub open spec fn steering_of(state: PlayerState) -> Steering {
    if state == PlayerState::Move {
        Steering::Seek
    } else {
        Steering::Halt
    }
}

/// A render state after the state machine has put `state` on show: the
/// animation is the state's, and the entity is dirty if it was so before or
/// if the animation changed.
pub open spec fn animated(render: Render, state: PlayerState) -> Render {
    Render {
        dirty: render.dirty || render.animation_index != state.animation(),
        model: render.model,
        animation_index: state.animation(),
    }
}

/// A render state after integration: dirty if it was so before or if the
/// entity moved.
pub open spec fn integrated(render: Render, moving: bool) -> Render {
    Render { dirty: render.dirty || moving, model: render.model, animation_index: render.animation_index }
}

/// Resolves the intent of one actor.  `range` is what the lookup of the
/// selected node gave, and `displaced` is whether the actor stands away from
/// its move target.  Returns whether the node's place becomes the move target.
pub fn update_state(player: &mut Player, node: &PlayerNode, range: NodeRange, displaced: bool) -> (retarget: bool)
    ensures
        final(player).state == resolved_state(
            old(player).state,
            node.node_selected,
            range,
            displaced,
        ),
        retarget == retargets(node.node_selected, range),
{
    if node.node_selected {
        match range {
            NodeRange::Unresolved => false,
            NodeRange::Beyond => {
                player.state = PlayerState::Move;
                true
            },
            NodeRange::Within => {
                player.state = PlayerState::Interact;
                false
            },
        }
    } else {
        if displaced {
            player.state = PlayerState::Move;
        } else {
            player.state = PlayerState::Idle;
        }
        false
    }
}

/// Puts the state of one actor on show and says what the kinematics owe it.
pub fn player_state(player: &Player, render: &mut Render) -> (steering: Steering)
    ensures
        *final(render) == animated(*old(render), player.state),
        steering == steering_of(player.state),
{
    let index = player.state.animation_index();
    if render.animation_index != index {
        render.animation_index = index;
        render.dirty = true;
    }
    match player.state {
        PlayerState::Move => Steering::Seek,
        _ => Steering::Halt,
    }
}

/// Records the integration of one entity: an entity that moved has to be
/// drawn again.
pub fn apply_velocity(render: &mut Render, moving: bool)
    ensures
        *final(render) == integrated(*old(render), moving),
{
    if moving {
        render.dirty = true;
    }
}

/// An actor under explicit move command that stands on its move target is
/// idle once the resolver has run, whatever it did before; the state machine
/// then halts it and shows the idle animation.
pub proof fn lemma_idle_convergence(state: PlayerState, range: NodeRange, render: Render)
    ensures
        resolved_state(state, false, range, false) == PlayerState::Idle,
        steering_of(PlayerState::Idle) == Steering::Halt,
        animated(render, PlayerState::Idle).animation_index == 0,
{
}

/// An actor whose selected node cannot be resolved keeps its state, and its
/// move target is left alone.
pub proof fn lemma_lost_node_changes_nothing(state: PlayerState, displaced: bool)
    ensures
        resolved_state(state, true, NodeRange::Unresolved, displaced) == state,
        !retargets(true, NodeRange::Unresolved),
{
}

/// Over the state machine and the integration of one tick, an entity that
/// was clean ends up dirty exactly if its animation changed or it moved, and
/// an entity that was dirty stays so.
pub proof fn lemma_dirty_exactly_on_change(render: Render, state: PlayerState, moving: bool)
    ensures
        integrated(animated(render, state), moving).dirty == (render.dirty || render.animation_index
            != state.animation() || moving),
        integrated(animated(render, state), moving).animation_index == state.animation(),
        integrated(animated(render, state), moving).model == render.model,
{
}

/// The animation on show is a function of the state alone, and running the
/// state machine again on an unchanged state marks nothing dirty.
pub proof fn lemma_animation_settles(render: Render, state: PlayerState)
    ensures
        animated(render, state).animation_index == state.animation(),
        animated(animated(render, state), state) == animated(render, state),
{
}

} // verus!
