//! Victory tracking: domination, technology and ascension victories.

use vstd::prelude::*;

verus! {

/// Tracks victory state. The domination threshold is a fraction of the
/// systems; the number of systems it requires is handed to
/// [`VictoryState::check_domination_with`].
#[derive(Debug, Clone, Copy, PartialEq, Eq)]
pub struct VictoryState {
    pub total_systems: i32,
    pub controlled_systems: i32,
    pub domination_achieved: bool,
    pub tech_victory: bool,
    pub ascension_victory: bool,
}

impl VictoryState {
    /// A fresh state for a galaxy of `total_systems` systems (negative counts
    /// as zero) with nothing controlled and no victory.
    pub fn new(total_systems: i32) -> (s: Self)
        ensures
            s.total_systems == if total_systems < 0 {
                0
            } else {
                total_systems
            },
            s.controlled_systems == 0,
            !s.domination_achieved,
            !s.tech_victory,
            !s.ascension_victory,
    {
        VictoryState {
            total_systems: if total_systems < 0 {
                0
            } else {
                total_systems
            },
            controlled_systems: 0,
            domination_achieved: false,
            tech_victory: false,
            ascension_victory: false,
        }
    }

    /// Record domination once `required` systems are controlled. An empty
    /// galaxy never yields domination; once achieved, domination stays.
    pub fn check_domination_with(&mut self, required: i32) -> (r: bool)
        ensures
            final(self).total_systems == old(self).total_systems,
            final(self).controlled_systems == old(self).controlled_systems,
            final(self).tech_victory == old(self).tech_victory,
            final(self).ascension_victory == old(self).ascension_victory,
            old(self).total_systems == 0 ==> !r && final(self).domination_achieved == old(self).domination_achieved,
            old(self).total_systems != 0 ==> final(self).domination_achieved == (old(self).domination_achieved || old(self).controlled_systems >= required) && r == final(self).domination_achieved,
    {
        if self.total_systems == 0 {
            return false;
        }
        if self.controlled_systems >= required {
            self.domination_achieved = true;
        }
        self.domination_achieved
    }

    /// Record a technology victory once every tech is completed. Without any
    /// techs there is no such victory; once achieved, it stays.
    pub fn check_tech_victory(&mut self, total_techs: usize, completed: usize) -> (r: bool)
        ensures
            final(self).total_systems == old(self).total_systems,
            final(self).controlled_systems == old(self).controlled_systems,
            final(self).domination_achieved == old(self).domination_achieved,
            final(self).ascension_victory == old(self).ascension_victory,
            total_techs == 0 ==> !r && final(self).tech_victory == old(self).tech_victory,
            total_techs != 0 ==> final(self).tech_victory == (old(self).tech_victory || completed
                >= total_techs) && r == final(self).tech_victory,
    {
        if total_techs == 0 {
            return false;
        }
        if completed >= total_techs {
            self.tech_victory = true;
        }
        self.tech_victory
    }

    /// Record an ascension victory.
    pub fn mark_ascension_victory(&mut self)
        ensures
            final(self).ascension_victory,
            final(self).total_systems == old(self).total_systems,
            final(self).controlled_systems == old(self).controlled_systems,
            final(self).domination_achieved == old(self).domination_achieved,
            final(self).tech_victory == old(self).tech_victory,
    {
        self.ascension_victory = true;
    }
}

} // verus!
