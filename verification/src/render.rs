//! The render packet: which entities have to be drawn again after a tick.
//!
//! The entities that can be drawn are handed over as a vector, one slot per
//! entity, each with its handle and its render state.  Building the packet
//! drains it: every dirty slot is put in the packet once, under the decimal
//! numeral of its handle, and is clean afterwards.

use crate::components::{ModelId, Render};
use crate::entity_id::{decimal, encode_entity_id};
use vstd::prelude::*;

verus! {

/// An entity that can be drawn: its handle and its render state.
#[derive(Debug, Clone, Copy, PartialEq, Eq, Structural)]
pub struct Drawable {
    pub entity: u64,
    pub render: Render,
}

/// One entry of a render packet: the slot of an entity that changed, the
/// numeral of its handle, and what to draw for it.
#[derive(Debug, PartialEq, Eq)]
pub struct RenderRecord {
    pub slot: usize,
    pub entity_id: String,
    pub model: ModelId,
    pub animation_index: i8,
}

/// A render record as a value: its text is a sequence of characters.
pub struct RecordView {
    pub slot: usize,
    pub entity_id: Seq<char>,
    pub model: ModelId,
    pub animation_index: i8,
}

impl View for RenderRecord {
    type V = RecordView;

    open spec fn view(&self) -> RecordView {
        RecordView {
            slot: self.slot,
            entity_id: self.entity_id@,
            model: self.model,
            animation_index: self.animation_index,
        }
    }
}

/// A packet as a value: the views of its records.
pub open spec fn packet_view(packet: Seq<RenderRecord>) -> Seq<RecordView> {
    packet.map_values(|record: RenderRecord| record@)
}

impl Drawable {
    /// This entity once it has been put in a packet.
    pub open spec fn cleared(self) -> Drawable {
        Drawable {
            entity: self.entity,
            render: Render {
                dirty: false,
                model: self.render.model,
                animation_index: self.render.animation_index,
            },
        }
    }
}

/// The record that puts slot `slot` of `drawables` in a packet.
pub open spec fn record_of(drawables: Seq<Drawable>, slot: int) -> RecordView
    recommends
        0 <= slot < drawables.len(),
{
    RecordView {
        slot: slot as usize,
        entity_id: decimal(drawables[slot].entity as nat),
        model: drawables[slot].render.model,
        animation_index: drawables[slot].render.animation_index,
    }
}

/// The packet that a sequence of drawable entities gives rise to: the
/// records of its dirty slots, in slot order.
pub open spec fn packet_of(drawables: Seq<Drawable>) -> Seq<RecordView>
    decreases drawables.len(),
{
    if drawables.len() == 0 {
        Seq::empty()
    } else {
        let before = packet_of(drawables.drop_last());
        if drawables.last().render.dirty {
            before.push(record_of(drawables, drawables.len() - 1))
        } else {
            before
        }
    }
}

/// The entities after the packet has been built: the same, all clean.
pub open spec fn drained(drawables: Seq<Drawable>) -> Seq<Drawable> {
    drawables.map_values(|drawable: Drawable| drawable.cleared())
}

/// Whether some slot is dirty.
pub open spec fn any_dirty(drawables: Seq<Drawable>) -> bool {
    exists|slot: int| 0 <= slot < drawables.len() && (#[trigger] drawables[slot]).render.dirty
}

/// Collects the dirty slots into a packet and marks every slot clean.
pub fn build_render_packet(drawables: &mut Vec<Drawable>) -> (packet: Vec<RenderRecord>)
    ensures
        packet_view(packet@) == packet_of(old(drawables)@),
        final(drawables)@ == drained(old(drawables)@),
{
    let mut packet: Vec<RenderRecord> = Vec::new();
    let mut i: usize = 0;
    while i < drawables.len()
        invariant
            i <= drawables.len(),
            drawables.len() == old(drawables).len(),
            packet@.len() == packet_of(old(drawables)@.take(i as int)).len(),
            forall|k: int|
                0 <= k < packet@.len() ==> (#[trigger] packet@[k])@ == packet_of(
                    old(drawables)@.take(i as int),
                )[k],
            forall|j: int| 0 <= j < i ==> #[trigger] drawables@[j] == old(drawables)@[j].cleared(),
            forall|j: int| i <= j < drawables.len() ==> #[trigger] drawables@[j] == old(drawables)@[j],
        decreases drawables.len() - i,
    {
        let drawable = drawables[i];
        proof {
            let now = old(drawables)@.take(i + 1);
            assert(now.drop_last() =~= old(drawables)@.take(i as int));
            assert(now.last() == old(drawables)@[i as int]);
        }
        if drawable.render.dirty {
            packet.push(
                RenderRecord {
                    slot: i,
                    entity_id: encode_entity_id(drawable.entity),
                    model: drawable.render.model,
                    animation_index: drawable.render.animation_index,
                },
            );
        }
        drawables.set(
            i,
            Drawable {
                entity: drawable.entity,
                render: Render {
                    dirty: false,
                    model: drawable.render.model,
                    animation_index: drawable.render.animation_index,
                },
            },
        );
        i += 1;
    }
    assert(old(drawables)@.take(i as int) =~= old(drawables)@);
    assert(packet_view(packet@) =~= packet_of(old(drawables)@));
    assert(drawables@ =~= drained(old(drawables)@));
    packet
}

/// What a packet holds: each of its records stands for a dirty slot, the
/// slots come in strictly rising order, so none occurs twice, and no dirty
/// slot is left out.
pub proof fn lemma_packet_lists_dirty_slots(drawables: Seq<Drawable>)
    requires
        drawables.len() <= usize::MAX,
    ensures
        forall|k: int|
            0 <= k < packet_of(drawables).len() ==> {
                let record = #[trigger] packet_of(drawables)[k];
                &&& 0 <= record.slot < drawables.len()
                &&& drawables[record.slot as int].render.dirty
                &&& record == record_of(drawables, record.slot as int)
            },
        forall|j: int, k: int|
            0 <= j < k < packet_of(drawables).len() ==> (#[trigger] packet_of(drawables)[j]).slot < (
            #[trigger] packet_of(drawables)[k]).slot,
        forall|slot: int|
            0 <= slot < drawables.len() && (#[trigger] drawables[slot]).render.dirty ==> packet_of(
                drawables,
            ).contains(record_of(drawables, slot)),
    decreases drawables.len(),
{
    if drawables.len() > 0 {
        let front = drawables.drop_last();
        lemma_packet_lists_dirty_slots(front);
        let before = packet_of(front);
        let packet = packet_of(drawables);
        assert forall|slot: int| 0 <= slot < front.len() implies record_of(front, slot)
            == record_of(drawables, slot) by {}
        assert forall|k: int| 0 <= k < packet.len() implies {
            let record = #[trigger] packet[k];
            &&& 0 <= record.slot < drawables.len()
            &&& drawables[record.slot as int].render.dirty
            &&& record == record_of(drawables, record.slot as int)
        } by {
            if k < before.len() {
                assert(packet[k] == before[k]);
                assert(before[k] == record_of(front, before[k].slot as int));
            }
        }
        assert forall|j: int, k: int| 0 <= j < k < packet.len() implies (#[trigger] packet[j]).slot < (
        #[trigger] packet[k]).slot by {
            assert(packet[j] == before[j]);
            if k < before.len() {
                assert(packet[k] == before[k]);
            }
        }
        assert forall|slot: int|
            0 <= slot < drawables.len() && (#[trigger] drawables[slot]).render.dirty implies packet.contains(
            record_of(drawables, slot),
        ) by {
            if slot < front.len() {
                assert(front[slot].render.dirty);
                assert(before.contains(record_of(front, slot)));
                let k = choose|k: int| 0 <= k < before.len() && before[k] == record_of(front, slot);
                assert(packet[k] == record_of(drawables, slot));
            } else {
                assert(packet[packet.len() - 1] == record_of(drawables, slot));
            }
        }
    }
}

/// Draining is idempotent: a packet is empty exactly if no slot was dirty,
/// and the packet built right after another, with nothing changed in
/// between, is empty and changes nothing.
pub proof fn lemma_drain_idempotent(drawables: Seq<Drawable>)
    requires
        drawables.len() <= usize::MAX,
    ensures
        packet_of(drawables).len() > 0 <==> any_dirty(drawables),
        packet_of(drained(drawables)) == Seq::<RecordView>::empty(),
        drained(drained(drawables)) == drained(drawables),
{
    lemma_packet_lists_dirty_slots(drawables);
    lemma_packet_lists_dirty_slots(drained(drawables));
    if packet_of(drawables).len() > 0 {
        let record = packet_of(drawables)[0];
        assert(drawables[record.slot as int].render.dirty);
    }
    if any_dirty(drawables) {
        let slot = choose|slot: int|
            0 <= slot < drawables.len() && (#[trigger] drawables[slot]).render.dirty;
        assert(packet_of(drawables).contains(record_of(drawables, slot)));
    }
    if packet_of(drained(drawables)).len() > 0 {
        let record = packet_of(drained(drawables))[0];
        assert(drained(drawables)[record.slot as int].render.dirty);
    }
    assert(packet_of(drained(drawables)) =~= Seq::<RecordView>::empty());
    assert(drained(drained(drawables)) =~= drained(drawables));
}

} // verus!
