//! Settings and tech-unlock state for the construction previews.

use vstd::prelude::*;
use crate::data::{Language, Tech, NO_TECH_REQUIREMENT};
use crate::research::{contains_id, contains_text};

verus! {

/// Current language selection for UI rendering.
#[derive(Debug, Clone, Copy, PartialEq, Eq)]
pub struct LocalizationSettings {
    pub language: Language,
}

impl Default for LocalizationSettings {
    fn default() -> (s: Self)
        ensures
            s.language == Language::En,
    {
        LocalizationSettings { language: Language::En }
    }
}

/// The other language.
pub open spec fn other_language(l: Language) -> Language {
    match l {
        Language::En => Language::Ru,
        Language::Ru => Language::En,
    }
}

/// Toggling the language twice restores it.
pub proof fn lemma_toggle_twice(l: Language)
    ensures
        other_language(other_language(l)) == l,
{
}

impl LocalizationSettings {
    /// Switch between English and Russian.
    pub fn toggle(&mut self)
        ensures
            final(self).language == other_language(old(self).language),
    {
        self.language = match self.language {
            Language::En => Language::Ru,
            Language::Ru => Language::En,
        };
    }
}

/// Tracks completed technologies for filtering build options.
#[derive(Debug, Clone)]
pub struct TechState {
    /// Identifiers of the completed technologies, each recorded once.
    pub completed: Vec<String>,
}

impl Default for TechState {
    /// No technology completed.
    fn default() -> (s: Self)
        ensures
            s.completed@.len() == 0,
            s.wf(),
    {
        TechState { completed: Vec::new() }
    }
}

/// Whether the item requiring the tech at `tech_index` is available.
pub open spec fn tech_unlocked(completed: Seq<String>, tech_index: i32, techs: Seq<Tech>) -> bool {
    if tech_index == NO_TECH_REQUIREMENT {
        true
    } else if 0 <= tech_index < techs.len() {
        contains_id(completed, techs[tech_index as int].id@)
    } else {
        false
    }
}

/// Positions `k` with `tech_unlocked` for `tech_indices[k]`, in order.
pub open spec fn unlocked_positions(
    completed: Seq<String>,
    tech_indices: Seq<i32>,
    techs: Seq<Tech>,
    n: int,
) -> Seq<usize>
    decreases n,
{
    if n <= 0 {
        Seq::empty()
    } else {
        let prev = unlocked_positions(completed, tech_indices, techs, n - 1);
        if tech_unlocked(completed, tech_indices[n - 1], techs) {
            prev.push((n - 1) as usize)
        } else {
            prev
        }
    }
}

impl TechState {
    /// The completed technologies form a set: no identifier occurs twice.
    pub open spec fn wf(&self) -> bool {
        forall|i: int, j: int|
            0 <= i < j < self.completed@.len() ==> #[trigger] self.completed@[i]@ != #[trigger] self.completed@[j]@
    }

    /// Record `id` as completed; recording it again changes nothing.
    pub fn complete(&mut self, id: &str)
        requires
            old(self).wf(),
        ensures
            final(self).wf(),
            forall|x: Seq<char>|
                #[trigger] contains_id(final(self).completed@, x) <==> (contains_id(old(self).completed@, x) || x
                    == id@),
            contains_id(old(self).completed@, id@) ==> final(self).completed@ == old(self).completed@,
            !contains_id(old(self).completed@, id@) ==> final(self).completed@.len() == old(self).completed@.len() + 1,
    {
        if !contains_text(&self.completed, id) {
            let ghost before = self.completed@;
            self.completed.push(id.to_string());
            proof {
                assert(self.completed@[before.len() as int]@ == id@);
                assert forall|i: int, j: int|
                    0 <= i < j < self.completed@.len() implies #[trigger] self.completed@[i]@
                        != #[trigger] self.completed@[j]@ by {
                    assert(self.completed@[i] == before[i]);
                    if j < before.len() {
                        assert(self.completed@[j] == before[j]);
                    }
                }
                assert forall|x: Seq<char>|
                    #[trigger] contains_id(self.completed@, x) <==> (contains_id(before, x) || x == id@) by {
                    if contains_id(before, x) {
                        let k = choose|k: int| 0 <= k < before.len() && #[trigger] before[k]@ == x;
                        assert(self.completed@[k] == before[k]);
                    }
                    if contains_id(self.completed@, x) && x != id@ {
                        let k = choose|k: int| 0 <= k < self.completed@.len() && #[trigger] self.completed@[k]@ == x;
                        assert(self.completed@[k] == before[k]);
                    }
                }
            }
        }
    }

    /// Whether an item requiring the tech at `tech_index` is available: always
    /// without a requirement, otherwise when that tech is completed. Indices
    /// outside the tech list are never unlocked.
    pub fn is_unlocked(&self, tech_index: i32, techs: &[Tech]) -> (r: bool)
        ensures
            r == tech_unlocked(self.completed@, tech_index, techs@),
    {
        if tech_index == NO_TECH_REQUIREMENT {
            return true;
        }
        if tech_index < 0 {
            return false;
        }
        let idx = tech_index as usize;
        if idx < techs.len() {
            contains_text(&self.completed, techs[idx].id.as_str())
        } else {
            false
        }
    }

    /// Positions of the build options whose required tech (given per option by
    /// `tech_indices`) is unlocked, in order.
    pub fn available_positions(&self, tech_indices: &[i32], techs: &[Tech]) -> (r: Vec<usize>)
        ensures
            r@ == unlocked_positions(self.completed@, tech_indices@, techs@, tech_indices@.len() as int),
    {
        let mut out: Vec<usize> = Vec::new();
        let mut k: usize = 0;
        while k < tech_indices.len()
            invariant
                k <= tech_indices@.len(),
                out@ == unlocked_positions(self.completed@, tech_indices@, techs@, k as int),
            decreases tech_indices@.len() - k,
        {
            if self.is_unlocked(tech_indices[k], techs) {
                out.push(k);
            }
            k = k + 1;
        }
        out
    }
}

/// Selection kept within `available` options: zero without options,
/// otherwise clamped to the last option.
pub open spec fn clamped_selection(selected: int, available: int) -> int {
    if available == 0 {
        0
    } else if selected >= available {
        available - 1
    } else {
        selected
    }
}

/// Keep a build-option selection within the available options.
pub fn clamp_selection(selected: usize, available: usize) -> (r: usize)
    ensures
        r == clamped_selection(selected as int, available as int),
        available > 0 ==> r < available,
{
    if available == 0 {
        0
    } else if selected >= available {
        available - 1
    } else {
        selected
    }
}

} // verus!
