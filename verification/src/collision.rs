//! The control of collision slide resolution.
//!
//! Resolution runs in rounds.  A round probes the segments of an obstacle in
//! order against the place the actor is about to reach; the first segment it
//! would penetrate ends the round, after the velocity has been pushed out of
//! it and turned along it, and the next round starts over from the first
//! segment.  A round that finds no such segment ends resolution, and so does
//! running out of rounds.
//!
//! The geometry of a probe is the caller's; which segment is probed next,
//! when resolution is over and whether it ends in a collision is decided here.

use vstd::prelude::*;

verus! {

/// How far one slide resolution has come.
#[derive(Debug, Clone, Copy, PartialEq, Eq, Structural)]
pub struct Slide {
    /// The rounds that may still run, the current one included.
    pub rounds_left: u8,
    /// The number of segments of the obstacle.
    pub segments: usize,
    /// The segment that the current round probes next.
    pub segment: usize,
    /// Whether resolution has ended in a collision, that is on the hit that
    /// used up the last round.
    pub collided: bool,
}

impl Slide {
    /// A resolution that has not probed anything yet.
    pub open spec fn fresh(budget: u8, segments: usize) -> Slide {
        Slide { rounds_left: budget, segments, segment: 0, collided: false }
    }

    /// The segment to probe next; `None` once resolution is over.
    pub open spec fn next_probe(self) -> Option<usize> {
        if self.rounds_left > 0 && self.segment < self.segments {
            Some(self.segment)
        } else {
            None
        }
    }

    /// The resolution after the pending probe has come out as `hit`.  A hit
    /// uses up the round and sends the next one, if there is one, back to the
    /// first segment; a miss moves on to the next segment, and a miss on the
    /// last segment ends the round, and with it resolution, without
    /// collision.  With no probe pending nothing changes.
    pub open spec fn after_probe(self, hit: bool) -> Slide {
        if self.next_probe() is None {
            self
        } else if hit {
            Slide {
                rounds_left: (self.rounds_left - 1) as u8,
                segments: self.segments,
                segment: 0,
                collided: self.rounds_left == 1,
            }
        } else {
            Slide {
                rounds_left: self.rounds_left,
                segments: self.segments,
                segment: (self.segment + 1) as usize,
                collided: false,
            }
        }
    }

    /// The resolution after a run of probes has come out as `outcomes`, in
    /// that order.
    pub open spec fn after_probes(self, outcomes: Seq<bool>) -> Slide
        decreases outcomes.len(),
    {
        if outcomes.len() == 0 {
            self
        } else {
            self.after_probe(outcomes[0]).after_probes(outcomes.drop_first())
        }
    }

    /// An upper bound on the probes that are still to come.
    pub open spec fn probes_left(self) -> nat {
        if self.next_probe() is None {
            0
        } else {
            ((self.rounds_left - 1) * self.segments + (self.segments - self.segment)) as nat
        }
    }

    /// Whether the velocity that resolution ends with is put to zero: after
    /// a collision in the last round, or inside the dead zone around zero.
    /// While a probe is pending no collision counts yet.
    pub open spec fn rests(self, in_dead_zone: bool) -> bool {
        self.collided || in_dead_zone
    }

    /// Starts a resolution of at most `budget` rounds against `segments`
    /// segments.
    pub fn begin(budget: u8, segments: usize) -> (slide: Slide)
        ensures
            slide == Slide::fresh(budget, segments),
    {
        Slide { rounds_left: budget, segments, segment: 0, collided: false }
    }

    /// The segment to probe next; `None` once resolution is over.
    pub fn pending(&self) -> (segment: Option<usize>)
        ensures
            segment == self.next_probe(),
    {
        if self.rounds_left > 0 && self.segment < self.segments {
            Some(self.segment)
        } else {
            None
        }
    }

    /// Takes the outcome of the pending probe.
    pub fn record(&mut self, hit: bool)
        ensures
            *final(self) == old(self).after_probe(hit),
    {
        if self.rounds_left > 0 && self.segment < self.segments {
            if hit {
                self.rounds_left = self.rounds_left - 1;
                self.segment = 0;
                self.collided = self.rounds_left == 0;
            } else {
                self.segment = self.segment + 1;
                self.collided = false;
            }
        }
    }

    /// Whether the velocity that resolution ends with is put to zero.
    pub fn at_rest(&self, in_dead_zone: bool) -> (rest: bool)
        ensures
            rest == self.rests(in_dead_zone),
    {
        self.collided || in_dead_zone
    }
}

/// Every probe brings the bound on the probes to come down; with no probe
/// pending an outcome changes nothing.
pub proof fn lemma_probe_counts_down(slide: Slide, hit: bool)
    ensures
        slide.next_probe() is Some ==> slide.after_probe(hit).probes_left() < slide.probes_left(),
        slide.next_probe() is None ==> slide.after_probe(hit) == slide,
{
    let r = slide.rounds_left as int;
    let n = slide.segments as int;
    assert((r - 1) * n == (r - 2) * n + n) by (nonlinear_arith);
    assert(r >= 1 && n >= 0 ==> (r - 1) * n >= 0) by (nonlinear_arith);
}

/// However the probes come out, resolution is over once as many of them
/// have been taken as were still to come.
pub proof fn lemma_slide_is_over_in_time(slide: Slide, outcomes: Seq<bool>)
    requires
        outcomes.len() >= slide.probes_left(),
    ensures
        slide.after_probes(outcomes).next_probe() is None,
    decreases outcomes.len(),
{
    if outcomes.len() == 0 {
        let r = slide.rounds_left as int;
        let n = slide.segments as int;
        assert(r >= 1 && n >= 0 ==> (r - 1) * n >= 0) by (nonlinear_arith);
    } else {
        lemma_probe_counts_down(slide, outcomes[0]);
        lemma_slide_is_over_in_time(slide.after_probe(outcomes[0]), outcomes.drop_first());
    }
}

/// Resolution is bounded from the start: however the probes come out, it is
/// over after rounds times segments of them.
pub proof fn lemma_slide_terminates(budget: u8, segments: usize, outcomes: Seq<bool>)
    requires
        outcomes.len() >= budget * segments,
    ensures
        Slide::fresh(budget, segments).after_probes(outcomes).next_probe() is None,
{
    let b = budget as int;
    let m = segments as int;
    assert((b - 1) * m + m == b * m) by (nonlinear_arith);
    lemma_slide_is_over_in_time(Slide::fresh(budget, segments), outcomes);
}

/// Resolution ends in one of two ways: on a round without collision, or on
/// the collision that uses up the last round.  After a probe the resolution
/// has collided exactly if that probe was a hit and ended it.  A hit that
/// leaves a round to run sends it back to the first segment.  A resolution
/// with no round or no segment is over before it starts, without collision.
pub proof fn lemma_slide_ends(budget: u8, segments: usize, slide: Slide, hit: bool)
    ensures
        slide.next_probe() is Some ==> slide.after_probe(hit).collided == (hit && slide.after_probe(
            hit,
        ).next_probe() is None),
        slide.next_probe() is Some && !hit ==> (slide.after_probe(hit).next_probe() is None
            <==> slide.segment + 1 == slide.segments),
        slide.next_probe() is Some && hit ==> (slide.after_probe(hit).next_probe() is None
            <==> slide.rounds_left == 1),
        slide.next_probe() is Some && hit && slide.rounds_left > 1 ==> slide.after_probe(
            hit,
        ).next_probe() == Some(0usize),
        Slide::fresh(budget, segments).next_probe() is None <==> budget == 0 || segments == 0,
        !Slide::fresh(budget, segments).collided,
{
}

} // verus!
