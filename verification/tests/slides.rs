use ecs::collision::Slide;

fn run(budget: u8, segments: usize, outcomes: &[bool]) -> (Slide, Vec<usize>) {
    let mut slide = Slide::begin(budget, segments);
    let mut probed = Vec::new();
    let mut next = 0;
    while let Some(segment) = slide.pending() {
        probed.push(segment);
        slide.record(outcomes[next]);
        next += 1;
    }
    assert_eq!(next, outcomes.len());
    (slide, probed)
}

#[test]
fn slide_starts_at_the_first_segment() {
    let slide = Slide::begin(4, 3);
    assert_eq!(slide, Slide { rounds_left: 4, segments: 3, segment: 0, collided: false });
    assert_eq!(slide.pending(), Some(0));
}

#[test]
fn slide_without_rounds_is_over_at_once() {
    let slide = Slide::begin(0, 3);
    assert_eq!(slide.pending(), None);
    assert!(!slide.collided);
}

#[test]
fn slide_without_segments_is_over_at_once() {
    let slide = Slide::begin(4, 0);
    assert_eq!(slide.pending(), None);
    assert!(!slide.collided);
}

#[test]
fn clean_round_ends_the_slide() {
    let (slide, probed) = run(4, 3, &[false, false, false]);
    assert_eq!(probed, vec![0, 1, 2]);
    assert!(!slide.collided);
    assert_eq!(slide, Slide { rounds_left: 4, segments: 3, segment: 3, collided: false });
}

#[test]
fn hit_restarts_from_the_first_segment() {
    let (slide, probed) = run(4, 3, &[false, true, false, false, false]);
    assert_eq!(probed, vec![0, 1, 0, 1, 2]);
    assert!(!slide.collided);
    assert_eq!(slide.rounds_left, 3);
}

#[test]
fn hits_in_every_round_use_up_the_budget() {
    let (slide, probed) = run(4, 3, &[true, false, true, false, false, true, true]);
    assert_eq!(probed, vec![0, 0, 1, 0, 1, 2, 0]);
    assert!(slide.collided);
    assert_eq!(slide, Slide { rounds_left: 0, segments: 3, segment: 0, collided: true });
}

#[test]
fn single_round_ends_on_its_first_hit() {
    let (slide, probed) = run(1, 5, &[false, false, true]);
    assert_eq!(probed, vec![0, 1, 2]);
    assert!(slide.collided);
}

#[test]
fn record_after_the_end_changes_nothing() {
    let (mut slide, _) = run(2, 1, &[true, true]);
    let over = slide;
    slide.record(false);
    assert_eq!(slide, over);
    slide.record(true);
    assert_eq!(slide, over);
}

#[test]
fn slide_never_probes_more_than_rounds_times_segments() {
    let mut slide = Slide::begin(4, 3);
    let mut probes = 0;
    while slide.pending().is_some() {
        let last_of_round = slide.segment + 1 == slide.segments;
        slide.record(last_of_round);
        probes += 1;
    }
    assert_eq!(probes, 12);
    assert!(slide.collided);
}

#[test]
fn velocity_rests_after_a_collision_or_in_the_dead_zone() {
    let (collided, _) = run(1, 1, &[true]);
    assert!(collided.at_rest(false));
    assert!(collided.at_rest(true));
    let (clean, _) = run(1, 1, &[false]);
    assert!(!clean.at_rest(false));
    assert!(clean.at_rest(true));
}
