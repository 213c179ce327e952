//! The identity and the score of one simulation.

use vstd::prelude::*;

verus! {

/// A simulation: which one it is, and what it has scored.
#[derive(Clone, Copy, Debug, PartialEq, Eq, Structural)]
pub struct Simulation {
    pub id: u32,
    /// The value of all food consumed so far.
    pub score: i64,
}

/// The sum of a score and of points, kept within what a score can hold.
pub open spec fn score_after(score: int, points: int) -> int {
    if score + points > i64::MAX {
        i64::MAX as int
    } else if score + points < i64::MIN {
        i64::MIN as int
    } else {
        score + points
    }
}

/// Adding points that are not negative in two parts gives the same score as
/// adding them at once.
pub proof fn lemma_score_after_twice(score: int, first: int, second: int)
    requires
        i64::MIN <= score <= i64::MAX,
        0 <= first,
        0 <= second,
    ensures
        score_after(score_after(score, first), second) == score_after(score, first + second),
{
}

impl Simulation {
    /// A simulation that has not scored yet.
    pub fn new(id: u32) -> (simulation: Simulation)
        ensures
            simulation == (Simulation { id, score: 0 }),
    {
        Simulation { id, score: 0 }
    }

    /// Adds points to the score.
    pub fn add_score(&mut self, points: i64)
        ensures
            final(self).id == old(self).id,
            final(self).score == score_after(old(self).score as int, points as int),
    {
        let sum: i128 = self.score as i128 + points as i128;
        self.score = if sum > i64::MAX as i128 {
            i64::MAX
        } else if sum < i64::MIN as i128 {
            i64::MIN
        } else {
            sum as i64
        };
    }
}

} // verus!
