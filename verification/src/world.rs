//! The commands that the host sends between ticks.

use crate::components::PlayerNode;
use crate::store::{selections, selector_ids, ticks, write_node};
use hecs::World;
use vstd::prelude::*;

verus! {

/// Takes an explicit move command for one actor: the actor leaves node
/// selection and keeps the text of the handle it had.
pub fn input_move(node: &mut PlayerNode)
    ensures
        !final(node).node_selected,
        final(node).node_entity_id == old(node).node_entity_id,
{
    node.node_selected = false;
}

/// The selections after every actor has selected the node that `text` names.
pub open spec fn all_selecting(
    selections: Map<u64, (bool, Seq<char>)>,
    text: Seq<char>,
) -> Map<u64, (bool, Seq<char>)> {
    selections.map_values(|node: (bool, Seq<char>)| (true, text))
}

/// Takes a node selection: every locally controlled actor of the world
/// selects the node that `entity_id` names.
pub fn input_node(world: &mut World, entity_id: String)
    ensures
        selections(*final(world)) == all_selecting(selections(*old(world)), entity_id@),
        ticks(*final(world)) == ticks(*old(world)),
{
    let ids = selector_ids(world);
    let mut i: usize = 0;
    while i < ids.len()
        invariant
            i <= ids.len(),
            ids@.no_duplicates(),
            forall|id: u64| ids@.contains(id) <==> selections(*old(world)).dom().contains(id),
            selections(*world).dom() == selections(*old(world)).dom(),
            forall|j: int| 0 <= j < i ==> selections(*world)[#[trigger] ids@[j]] == (true, entity_id@),
            ticks(*world) == ticks(*old(world)),
        decreases ids.len() - i,
    {
        let id = ids[i];
        assert(ids@.contains(id));
        write_node(world, id, PlayerNode { node_selected: true, node_entity_id: entity_id.clone() });
        i += 1;
    }
    assert(selections(*world) =~= all_selecting(selections(*old(world)), entity_id@)) by {
        assert forall|id: u64| selections(*old(world)).dom().contains(id) implies #[trigger] selections(
            *world,
        )[id] == (true, entity_id@) by {
            assert(ids@.contains(id));
            let j = choose|j: int| 0 <= j < ids@.len() && ids@[j] == id;
            assert(selections(*world)[ids@[j]] == (true, entity_id@));
        }
    }
}

} // verus!
