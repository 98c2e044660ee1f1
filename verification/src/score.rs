//! The pass counter.

use vstd::prelude::*;

verus! {

/// A monotonic pass counter.
#[derive(Clone, Copy, Debug)]
pub struct Score {
    pub score: u32,
}

impl Score {
    pub fn new() -> (s: Score)
        ensures
            s.score == 0,
    {
        Score { score: 0 }
    }

    pub fn increase_score(&mut self)
        requires
            old(self).score < u32::MAX,
        ensures
            final(self).score == old(self).score + 1,
    {
        self.score = self.score + 1;
    }
}

} // verus!

verus! {

impl Score {
    /// Draws the score at the fixed score position.
    pub fn draw(&self, frame: &mut Vec<u8>)
        ensures
            final(frame)@.len() == old(frame)@.len(),
            forall|j: int|
                0 <= j < final(frame)@.len() ==> final(frame)@[j] == (
                if crate::draw_utils::number_covers(
                    old(frame)@.len() as int,
                    self.score as int,
                    j,
                ) {
                    crate::draw_utils::ui_byte(j)
                } else {
                    old(frame)@[j]
                }),
    {
        crate::draw_utils::draw_number(frame, self.score);
    }
}

} // verus!
