//! Game progress: the current level and the score of each completed
//! level. Persisting this record to disk is a collaborator's concern.

use vstd::prelude::*;

verus! {

/// One completed level and the score it was awarded.
#[derive(Clone, Copy, Debug, PartialEq, Eq, Structural)]
pub struct CtfLevel {
    pub level: u32,
    pub score: u32,
}

/// The game state carried across runs.
pub struct State {
    pub current_level: u32,
    pub completed_levels: Vec<CtfLevel>,
}

/// The score recorded for the first completion entry of `level`, if any.
pub open spec fn spec_first_score(s: Seq<CtfLevel>, level: u32) -> Option<u32>
    decreases s.len(),
{
    if s.len() == 0 {
        Option::None
    } else if s[0].level == level {
        Option::Some(s[0].score)
    } else {
        spec_first_score(s.drop_first(), level)
    }
}

impl State {
    /// A fresh game: at the first level with nothing completed.
    pub fn new() -> (s: Self)
        ensures
            s.current_level == 1,
            s.completed_levels@.len() == 0,
    {
        State { current_level: 1, completed_levels: Vec::new() }
    }

    /// Resets the game to the first level and forgets every completion.
    pub fn initialize_state(&mut self)
        ensures
            final(self).current_level == 1,
            final(self).completed_levels@.len() == 0,
    {
        self.current_level = 1;
        self.completed_levels.clear();
    }

    /// The level the game currently stands at.
    pub fn current_level(&self) -> (r: u32)
        ensures
            r == self.current_level,
    {
        self.current_level
    }

    /// Records that `level` was completed with `score` and advances the
    /// game to the next level.
    pub fn complete_level(&mut self, level: u32, score: u32)
        requires
            level < 0xffff_ffffu32,
        ensures
            final(self).completed_levels@ == old(self).completed_levels@.push(
                CtfLevel { level, score },
            ),
            final(self).current_level == level + 1,
    {
        self.completed_levels.push(CtfLevel { level, score });
        self.current_level = level + 1;
    }

    /// The score of the first recorded completion of `level`, if the
    /// level was completed.
    pub fn get_level_score(&self, level: u32) -> (r: Option<u32>)
        ensures
            r == spec_first_score(self.completed_levels@, level),
    {
        let mut i: usize = 0;
        proof {
            assert(self.completed_levels@.skip(0) =~= self.completed_levels@);
        }
        while i < self.completed_levels.len()
            invariant
                i <= self.completed_levels@.len(),
                spec_first_score(self.completed_levels@, level) == spec_first_score(
                    self.completed_levels@.skip(i as int),
                    level,
                ),
            decreases self.completed_levels@.len() - i,
        {
            if self.completed_levels[i].level == level {
                proof {
                    assert(self.completed_levels@.skip(i as int)[0] == self.completed_levels@[
                        i as int
                    ]);
                }
                return Some(self.completed_levels[i].score);
            }
            proof {
                assert(self.completed_levels@.skip(i as int).drop_first()
                    =~= self.completed_levels@.skip(i + 1));
                assert(self.completed_levels@.skip(i as int)[0] == self.completed_levels@[i as int]);
            }
            i = i + 1;
        }
        proof {
            assert(self.completed_levels@.skip(i as int).len() == 0);
        }
        None
    }
}

} // verus!
