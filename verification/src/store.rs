//! What this crate takes on trust about the entity store.
//!
//! The world is a `hecs::World`.  The verifier cannot look inside it, so its
//! contents are given two names, and each access that the systems make is a
//! small function whose contract restates, over those names, what the store's
//! source shows.  Nothing here is proved; everything built on it is.
//!
//! Every access takes the world by unique reference: the accesses that only
//! read do so too, because a shared query falls back on run-time borrow
//! checks that a caller holding another query could trip.

use crate::components::{Local, Player, PlayerNode, Tick};
use hecs::{Entity, World};
use vstd::prelude::*;

verus! {

/// `hecs::World`, the entity store: opaque to the verifier.
#[verifier::external_type_specification]
#[verifier::external_body]
pub struct ExWorld(hecs::World);

/// The clocks of a world: for every live entity that has a [`Tick`], keyed by
/// the entity's 64-bit pattern (`hecs::Entity::to_bits`), the tick count it holds.
pub uninterp spec fn ticks(world: hecs::World) -> Map<u64, u64>;

/// The selections of a world: for every live entity that has a [`Local`], a
/// [`Player`] and a [`PlayerNode`], keyed by the entity's 64-bit pattern, the
/// node's selection flag and the text of the handle it names.
pub uninterp spec fn selections(world: hecs::World) -> Map<u64, (bool, Seq<char>)>;

/// Lists the clocks: runs `World::query_mut` for a `Tick` and collects the
/// bit pattern of each entity found.  The store visits every matching entity
/// once, in an order it does not promise, and changes nothing.
#[verifier::external_body]
pub(crate) fn clock_ids(world: &mut World) -> (ids: Vec<u64>)
    ensures
        ids@.no_duplicates(),
        forall|id: u64| ids@.contains(id) <==> ticks(*old(world)).dom().contains(id),
        ticks(*final(world)) == ticks(*old(world)),
        selections(*final(world)) == selections(*old(world)),
{
    world.query_mut::<(Entity, &Tick)>().into_iter().map(|(entity, _)| entity.to_bits().get()).collect()
}

/// Reads one clock: rebuilds the entity with `Entity::from_bits` and asks
/// `World::query_one_mut` for its `Tick`.  The store answers for a live
/// entity that has the component and refuses every other pattern.
#[verifier::external_body]
pub(crate) fn read_tick(world: &mut World, id: u64) -> (tick: Option<u64>)
    ensures
        tick == (if ticks(*old(world)).dom().contains(id) {
            Some(ticks(*old(world))[id])
        } else {
            None
        }),
        ticks(*final(world)) == ticks(*old(world)),
        selections(*final(world)) == selections(*old(world)),
{
    let entity = Entity::from_bits(id)?;
    world.query_one_mut::<&Tick>(entity).ok().map(|clock| clock.tick)
}

/// Sets one clock: rebuilds the entity with `Entity::from_bits` and writes
/// through the reference that `World::query_one_mut` hands out for its
/// `Tick`.  Where the store refuses the pattern nothing is written.  No other
/// component and no other entity is touched.
#[verifier::external_body]
pub(crate) fn write_tick(world: &mut World, id: u64, tick: u64)
    ensures
        ticks(*final(world)) == (if ticks(*old(world)).dom().contains(id) {
            ticks(*old(world)).insert(id, tick)
        } else {
            ticks(*old(world))
        }),
        selections(*final(world)) == selections(*old(world)),
{
    if let Some(entity) = Entity::from_bits(id) {
        if let Ok(clock) = world.query_one_mut::<&mut Tick>(entity) {
            clock.tick = tick;
        }
    }
}

/// Lists the locally controlled actors that can select a node: runs
/// `World::query_mut` for `Local`, `Player` and `PlayerNode` together and
/// collects the bit pattern of each entity found, once each, in no promised
/// order, changing nothing.
#[verifier::external_body]
pub(crate) fn selector_ids(world: &mut World) -> (ids: Vec<u64>)
    ensures
        ids@.no_duplicates(),
        forall|id: u64| ids@.contains(id) <==> selections(*old(world)).dom().contains(id),
        ticks(*final(world)) == ticks(*old(world)),
        selections(*final(world)) == selections(*old(world)),
{
    world.query_mut::<(Entity, &Local, &Player, &PlayerNode)>().into_iter().map(
        |(entity, _, _, _)| entity.to_bits().get(),
    ).collect()
}

/// Replaces the node of one actor: rebuilds the entity with
/// `Entity::from_bits` and writes through the reference that
/// `World::query_one_mut` hands out for `Local`, `Player` and `PlayerNode`
/// together.  Where the store refuses the pattern, or the entity lacks one of
/// the three, nothing is written.
#[verifier::external_body]
pub(crate) fn write_node(world: &mut World, id: u64, node: PlayerNode)
    ensures
        selections(*final(world)) == (if selections(*old(world)).dom().contains(id) {
            selections(*old(world)).insert(id, (node.node_selected, node.node_entity_id@))
        } else {
            selections(*old(world))
        }),
        ticks(*final(world)) == ticks(*old(world)),
{
    if let Some(entity) = Entity::from_bits(id) {
        if let Ok((_, _, slot)) = world.query_one_mut::<(&Local, &Player, &mut PlayerNode)>(entity) {
            *slot = node;
        }
    }
}

} // verus!
