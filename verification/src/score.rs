//! Score events and the running session score.
//!
//! Subsystems award points by emitting [`ScoreMessage`] values; the session
//! holds one [`Score`] accumulator that folds them in.

use vstd::prelude::*;

verus! {

/// Points for restoring a Wasteland tile.
pub const WASTELAND_RESTORE_POINTS: usize = 100;

/// Points for restoring a Polluted tile: clearing hostile ground pays double.
pub const POLLUTED_RESTORE_POINTS: usize = 200;

/// Points for destroying a roaming enemy machine with a dash.
pub const MACHINE_KILL_POINTS: usize = 300;

/// Points for destroying an enemy factory with a dash.
pub const FACTORY_KILL_POINTS: usize = 500;

/// One discrete point award.
#[derive(Clone, Copy, PartialEq, Eq, Structural, Debug)]
pub struct ScoreMessage(pub usize);

/// Monotonic session score, reset at session boundaries.
#[derive(Clone, Copy, PartialEq, Eq, Structural, Debug)]
pub struct Score {
    pub current: usize,
}

/// Sum of the points of a batch of score events.
pub open spec fn total_points(events: Seq<ScoreMessage>) -> int
    decreases events.len(),
{
    if events.len() == 0 {
        0
    } else {
        total_points(events.drop_last()) + events.last().0
    }
}

impl Default for Score {
    fn default() -> (r: Score)
        ensures
            r.current == 0,
    {
        Score { current: 0 }
    }
}

impl Score {
    /// Folds one award into the running total.
    pub fn apply(&mut self, msg: ScoreMessage)
        requires
            old(self).current + msg.0 <= usize::MAX,
        ensures
            final(self).current == old(self).current + msg.0,
    {
        self.current = self.current + msg.0;
    }

    /// Folds a whole batch of awards into the running total.
    pub fn apply_all(&mut self, events: &Vec<ScoreMessage>)
        requires
            old(self).current + total_points(events@) <= usize::MAX,
        ensures
            final(self).current == old(self).current + total_points(events@),
    {
        let mut i: usize = 0;
        while i < events.len()
            invariant
                0 <= i <= events@.len(),
                self.current == old(self).current + total_points(events@.take(i as int)),
                old(self).current + total_points(events@) <= usize::MAX,
            decreases events@.len() - i,
        {
            proof {
                assert(events@.take(i + 1).drop_last() =~= events@.take(i as int));
                assert(events@.take(i + 1).last() == events@[i as int]);
                lemma_total_points_take(events@, i as int);
                lemma_total_points_take(events@, i + 1);
            }
            self.current = self.current + events[i].0;
            i = i + 1;
        }
        proof {
            assert(events@.take(events@.len() as int) =~= events@);
        }
    }

    /// Session reset: the counter returns to zero.
    pub fn reset(&mut self)
        ensures
            final(self).current == 0,
    {
        self.current = 0;
    }
}

/// Prefix sums of score batches never decrease as the batch grows.
pub proof fn lemma_total_points_nonneg(events: Seq<ScoreMessage>)
    ensures
        total_points(events) >= 0,
    decreases events.len(),
{
    if events.len() > 0 {
        lemma_total_points_nonneg(events.drop_last());
    }
}

/// Taking one more event adds exactly that event's points.
pub proof fn lemma_total_points_take(events: Seq<ScoreMessage>, j: int)
    requires
        0 <= j <= events.len(),
    ensures
        total_points(events.take(j)) >= 0,
        total_points(events.take(j)) <= total_points(events),
    decreases events.len() - j,
{
    lemma_total_points_nonneg(events.take(j));
    if j < events.len() {
        assert(events.take(j + 1).drop_last() =~= events.take(j));
        assert(total_points(events.take(j + 1)) == total_points(events.take(j)) + events[j].0);
        lemma_total_points_take(events, j + 1);
    } else {
        assert(events.take(j) =~= events);
    }
}

} // verus!
