//! Research: tech selection, starting research, and per-turn progress.

use vstd::prelude::*;
use crate::data::{GameData, prereqs_of};
use crate::text::same_text;

verus! {

/// `x` clamped below at zero.
pub open spec fn non_negative(x: i32) -> i32 {
    if x < 0 {
        0
    } else {
        x
    }
}

/// `a - b` saturated to the `i32` range.
pub open spec fn saturating_sub_i32(a: i32, b: i32) -> i32 {
    let d = a - b;
    if d < i32::MIN {
        i32::MIN
    } else if d > i32::MAX {
        i32::MAX
    } else {
        d as i32
    }
}

/// Some string of `ids` reads `id`.
pub open spec fn contains_id(ids: Seq<String>, id: Seq<char>) -> bool {
    exists|i: int| 0 <= i < ids.len() && #[trigger] ids[i]@ == id
}

/// Selection index after moving forward in a list of `total` entries.
pub open spec fn next_index(selected: int, total: int) -> int {
    if total == 0 {
        0
    } else {
        (selected + 1) % total
    }
}

/// Selection index after moving backward in a list of `total` entries.
pub open spec fn prev_index(selected: int, total: int) -> int {
    if total == 0 {
        0
    } else if selected == 0 {
        total - 1
    } else {
        selected - 1
    }
}

/// Moving back undoes moving forward, and moving forward undoes moving back,
/// for any valid selection in a non-empty list.
pub proof fn lemma_prev_undoes_next(selected: int, total: int)
    requires
        0 <= selected < total,
    ensures
        prev_index(next_index(selected, total), total) == selected,
        next_index(prev_index(selected, total), total) == selected,
        0 <= next_index(selected, total) < total,
        0 <= prev_index(selected, total) < total,
{
    if selected + 1 == total {
        assert((selected + 1) % total == 0) by {
            vstd::arithmetic::div_mod::lemma_mod_self_0(total);
        }
    } else {
        vstd::arithmetic::div_mod::lemma_small_mod((selected + 1) as nat, total as nat);
    }
    if selected == 0 {
        vstd::arithmetic::div_mod::lemma_mod_self_0(total);
    } else {
        vstd::arithmetic::div_mod::lemma_small_mod(selected as nat, total as nat);
    }
}

/// Starting research on a startable tech makes it the active research, with
/// its whole cost (at least zero) remaining and nothing spent, whatever was
/// active before; otherwise the active research stays as it was.
pub proof fn lemma_start_replaces_active(old: ResearchState, new: ResearchState, data: GameData)
    requires
        ResearchState::start_selected_spec(old, new, data),
    ensures
        ResearchState::can_start_selected(old, data) ==> ({
            let tech = data.techs@[old.selected as int];
            new.active matches Some(a) && a.id@ == tech.id@ && a.spent == 0 && a.remaining == (if tech.research_cost
                < 0 {
                0
            } else {
                tech.research_cost
            })
        }),
        !ResearchState::can_start_selected(old, data) ==> new.active == old.active,
        new.completed == old.completed,
        new.selected == old.selected,
{
}

/// Active research item tracking progress.
#[derive(Debug, Clone, PartialEq, Eq)]
pub struct ActiveResearch {
    pub id: String,
    pub remaining: i32,
    pub spent: i32,
}

impl ActiveResearch {
    /// Research on `id` with `cost` points to go (negative costs count as zero).
    pub fn new(id: &str, cost: i32) -> (r: Self)
        ensures
            r.id@ == id@,
            r.remaining == non_negative(cost),
            r.spent == 0,
    {
        ActiveResearch { id: id.to_string(), remaining: if cost < 0 {
            0
        } else {
            cost
        }, spent: 0 }
    }
}

/// Research state: selection, active tech, completed list.
#[derive(Debug, Clone)]
pub struct ResearchState {
    pub selected: usize,
    pub per_turn: i32,
    pub active: Option<ActiveResearch>,
    pub completed: Vec<String>,
}

/// Whether `needed` are all among `completed`.
fn all_completed(needed: &Vec<String>, completed: &Vec<String>) -> (r: bool)
    ensures
        r == forall|k: int| 0 <= k < needed.len() ==> contains_id(completed@, #[trigger] needed[k]@),
{
    let mut k: usize = 0;
    while k < needed.len()
        invariant
            k <= needed.len(),
            forall|m: int| 0 <= m < k ==> contains_id(completed@, #[trigger] needed[m]@),
        decreases needed.len() - k,
    {
        if !contains_text(completed, needed[k].as_str()) {
            return false;
        }
        k = k + 1;
    }
    true
}

/// Whether some string of `ids` reads `id`.
pub fn contains_text(ids: &Vec<String>, id: &str) -> (r: bool)
    ensures
        r == contains_id(ids@, id@),
{
    let mut i: usize = 0;
    while i < ids.len()
        invariant
            i <= ids.len(),
            forall|k: int| 0 <= k < i ==> #[trigger] ids@[k]@ != id@,
        decreases ids.len() - i,
    {
        if same_text(ids[i].as_str(), id) {
            return true;
        }
        i = i + 1;
    }
    false
}

impl ResearchState {
    /// Consistency of the research record: no tech is completed twice, and the
    /// active research is not a completed tech.
    pub open spec fn consistent(&self) -> bool {
        &&& forall|i: int, j: int|
            0 <= i < j < self.completed.len() ==> #[trigger] self.completed[i]@
                != #[trigger] self.completed[j]@
        &&& self.active matches Some(a) ==> !contains_id(self.completed@, a.id@)
    }

    /// What starting research on the selected tech does.
    pub open spec fn start_selected_spec(old: Self, new: Self, data: GameData) -> bool {
        let techs = data.techs@;
        let sel = old.selected as int;
        &&& new.selected == old.selected
        &&& new.per_turn == old.per_turn
        &&& new.completed == old.completed
        &&& if sel < techs.len() && !contains_id(old.completed@, techs[sel].id@) && (forall|k: int|
            0 <= k < prereqs_of(data.research_prereqs@, techs[sel].id@).len() ==> contains_id(
                old.completed@,
                #[trigger] prereqs_of(data.research_prereqs@, techs[sel].id@)[k],
            )) {
            new.active matches Some(a) && a.id@ == techs[sel].id@ && a.remaining == non_negative(
                techs[sel].research_cost,
            ) && a.spent == 0
        } else {
            new.active == old.active
        }
    }

    /// The selected tech exists, is not completed, and all its prerequisites
    /// are completed.
    pub open spec fn can_start_selected(old: Self, data: GameData) -> bool {
        let techs = data.techs@;
        let sel = old.selected as int;
        &&& sel < techs.len()
        &&& !contains_id(old.completed@, techs[sel].id@)
        &&& forall|k: int|
            0 <= k < prereqs_of(data.research_prereqs@, techs[sel].id@).len() ==> contains_id(
                old.completed@,
                #[trigger] prereqs_of(data.research_prereqs@, techs[sel].id@)[k],
            )
    }

    /// A fresh research state with no research done.
    pub fn new(per_turn: i32) -> (s: Self)
        ensures
            s.selected == 0,
            s.per_turn == per_turn,
            s.active is None,
            s.completed@.len() == 0,
            s.consistent(),
    {
        ResearchState { selected: 0, per_turn, active: None, completed: Vec::new() }
    }

    /// Cycle selection forward.
    pub fn next(&mut self, total: usize)
        requires
            total > 0 ==> old(self).selected < usize::MAX,
        ensures
            final(self).selected == next_index(old(self).selected as int, total as int),
            final(self).per_turn == old(self).per_turn,
            final(self).active == old(self).active,
            final(self).completed == old(self).completed,
    {
        if total == 0 {
            self.selected = 0;
        } else {
            self.selected = (self.selected + 1) % total;
        }
    }

    /// Cycle selection backward.
    pub fn prev(&mut self, total: usize)
        ensures
            final(self).selected == prev_index(old(self).selected as int, total as int),
            final(self).per_turn == old(self).per_turn,
            final(self).active == old(self).active,
            final(self).completed == old(self).completed,
    {
        if total == 0 {
            self.selected = 0;
        } else if self.selected == 0 {
            self.selected = total - 1;
        } else {
            self.selected = self.selected - 1;
        }
    }

    /// Start research on the selected tech, when it is not completed yet and
    /// all its prerequisites are.
    pub fn start_selected(&mut self, data: &GameData)
        ensures
            Self::start_selected_spec(*old(self), *final(self), *data),
            old(self).consistent() ==> final(self).consistent(),
            Self::can_start_selected(*old(self), *data) ==> ({
                let tech = data.techs@[old(self).selected as int];
                final(self).active matches Some(a) && a.id@ == tech.id@ && a.spent == 0 && a.remaining == (
                if tech.research_cost < 0 {
                    0
                } else {
                    tech.research_cost
                })
            }),
    {
        let techs = data.techs();
        if self.selected < techs.len() {
            let tech = &techs[self.selected];
            if contains_text(&self.completed, tech.id.as_str()) {
                return ;
            }
            let prereqs = data.tech_prereqs(tech.id.as_str());
            let prereqs_met = all_completed(&prereqs, &self.completed);
            proof {
                assert forall|k: int|
                    0 <= k < prereqs_of(data.research_prereqs@, tech.id@).len() implies
                    #[trigger] prereqs_of(data.research_prereqs@, tech.id@)[k]
                    == prereqs@.map_values(|s: String| s@)[k] by {}
                if prereqs_met {
                    assert forall|k: int|
                        0 <= k < prereqs_of(data.research_prereqs@, tech.id@).len() implies contains_id(
                        self.completed@,
                        #[trigger] prereqs_of(data.research_prereqs@, tech.id@)[k],
                    ) by {
                        assert(prereqs@.map_values(|s: String| s@)[k] == prereqs[k]@);
                    }
                } else {
                    let k = choose|k: int| 0 <= k < prereqs.len() && !contains_id(self.completed@, #[trigger] prereqs[k]@);
                    assert(prereqs@.map_values(|s: String| s@)[k] == prereqs[k]@);
                    assert(prereqs_of(data.research_prereqs@, tech.id@)[k] == prereqs[k]@);
                }
            }
            if prereqs_met {
                self.active = Some(ActiveResearch::new(tech.id.as_str(), tech.research_cost));
            }
        }
    }

    /// Advance research by `per_turn` (negative rates count as zero); once the
    /// remaining cost is used up (zero or below), the tech is completed: its id
    /// is recorded and returned, and no research stays active.
    pub fn process_turn(&mut self) -> (r: Option<String>)
        requires
            old(self).active matches Some(a) ==> a.spent + non_negative(old(self).per_turn)
                <= i32::MAX,
        ensures
            final(self).selected == old(self).selected,
            final(self).per_turn == old(self).per_turn,
            match old(self).active {
                None => r is None && final(self).active is None && final(self).completed == old(self).completed,
                Some(a) => {
                    let spend = non_negative(old(self).per_turn);
                    let rem = saturating_sub_i32(a.remaining, spend);
                    if rem <= 0 {
                        &&& r == Some(a.id)
                        &&& final(self).active is None
                        &&& final(self).completed@ == old(self).completed@.push(a.id)
                    } else {
                        &&& r is None
                        &&& final(self).active == Some(
                            ActiveResearch { id: a.id, remaining: rem, spent: (a.spent + spend) as i32 },
                        )
                        &&& final(self).completed == old(self).completed
                    }
                },
            },
            old(self).consistent() ==> final(self).consistent(),
    {
        let mut active = match self.active.take() {
            None => {
                return None;
            },
            Some(a) => a,
        };
        let spend = if self.per_turn < 0 {
            0
        } else {
            self.per_turn
        };
        let diff: i64 = active.remaining as i64 - spend as i64;
        active.remaining = if diff < i32::MIN as i64 {
            i32::MIN
        } else {
            diff as i32
        };
        active.spent = active.spent + spend;
        if active.remaining <= 0 {
            let id = active.id.clone();
            self.completed.push(active.id);
            proof {
                let ghost oldc = old(self).completed@;
                if old(self).consistent() {
                    assert forall|i: int, j: int|
                        0 <= i < j < self.completed.len() implies #[trigger] self.completed[i]@
                            != #[trigger] self.completed[j]@ by {
                        assert(self.completed[i] == oldc[i]);
                        if j == self.completed.len() - 1 {
                            assert(self.completed[j]@ == id@);
                        } else {
                            assert(self.completed[j] == oldc[j]);
                        }
                    }
                }
            }
            Some(id)
        } else {
            self.active = Some(active);
            None
        }
    }
}

} // verus!
