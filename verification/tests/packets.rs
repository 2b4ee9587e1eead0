use ecs::render::{build_render_packet, Drawable, RenderRecord};
use ecs::{ModelId, Render};

fn drawable(entity: u64, dirty: bool, model: ModelId, animation_index: i8) -> Drawable {
    Drawable { entity, render: Render { dirty, model, animation_index } }
}

fn record(slot: usize, entity_id: &str, model: ModelId, animation_index: i8) -> RenderRecord {
    RenderRecord { slot, entity_id: entity_id.to_string(), model, animation_index }
}

#[test]
fn packet_lists_the_dirty_slots_in_order() {
    let mut drawables = vec![
        drawable(4294967297, true, ModelId::Player, 1),
        drawable(4294967298, false, ModelId::Rock, -1),
        drawable(4294967299, true, ModelId::Rock, -1),
        drawable(8589934592, true, ModelId::Player, 2),
    ];
    let packet = build_render_packet(&mut drawables);
    assert_eq!(
        packet,
        vec![
            record(0, "4294967297", ModelId::Player, 1),
            record(2, "4294967299", ModelId::Rock, -1),
            record(3, "8589934592", ModelId::Player, 2),
        ]
    );
    assert_eq!(
        drawables,
        vec![
            drawable(4294967297, false, ModelId::Player, 1),
            drawable(4294967298, false, ModelId::Rock, -1),
            drawable(4294967299, false, ModelId::Rock, -1),
            drawable(8589934592, false, ModelId::Player, 2),
        ]
    );
}

#[test]
fn packet_names_entities_by_the_numeral_of_their_handle() {
    let mut drawables = vec![
        drawable(0, true, ModelId::Rock, -1),
        drawable(u64::MAX, true, ModelId::Rock, -1),
    ];
    let packet = build_render_packet(&mut drawables);
    assert_eq!(packet[0].entity_id, "0");
    assert_eq!(packet[1].entity_id, "18446744073709551615");
}

#[test]
fn packet_of_nothing_is_empty() {
    let mut drawables: Vec<Drawable> = Vec::new();
    assert_eq!(build_render_packet(&mut drawables), Vec::new());
    assert!(drawables.is_empty());
}

#[test]
fn packet_of_clean_slots_is_empty() {
    let mut drawables = vec![
        drawable(4294967297, false, ModelId::Player, 0),
        drawable(4294967298, false, ModelId::Rock, -1),
    ];
    let before = drawables.clone();
    assert_eq!(build_render_packet(&mut drawables), Vec::new());
    assert_eq!(drawables, before);
}

#[test]
fn second_packet_in_a_row_is_empty() {
    let mut drawables = vec![
        drawable(4294967297, true, ModelId::Player, 0),
        drawable(4294967298, true, ModelId::Rock, -1),
        drawable(4294967299, true, ModelId::Rock, -1),
        drawable(4294967300, true, ModelId::Rock, -1),
    ];
    let first = build_render_packet(&mut drawables);
    assert_eq!(first.len(), 4);
    let after_first = drawables.clone();
    let second = build_render_packet(&mut drawables);
    assert!(second.is_empty());
    assert_eq!(drawables, after_first);
}

#[test]
fn slot_dirtied_again_is_listed_again() {
    let mut drawables = vec![
        drawable(4294967297, true, ModelId::Player, 0),
        drawable(4294967298, true, ModelId::Rock, -1),
    ];
    build_render_packet(&mut drawables);
    drawables[1].render.dirty = true;
    assert_eq!(
        build_render_packet(&mut drawables),
        vec![record(1, "4294967298", ModelId::Rock, -1)]
    );
}
