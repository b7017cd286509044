//! New-game setup: species choice, galaxy settings, and the species
//! introduction screen.

use vstd::prelude::*;
use crate::data::{GameData, Language};
use crate::screens::GameState;
use crate::text::same_text;

verus! {

/// Draws a value from rand's thread-local generator (`rand::random`). Nothing
/// is stated of the value: it depends on the generator's state.
#[verifier::external_body]
fn random_seed() -> u64 {
    rand::random()
}

/// Choices made on the new-game screen.
#[derive(Debug, Clone, Copy, PartialEq, Eq)]
pub struct NewGameSettings {
    /// Index of currently selected species.
    pub selected_species_index: usize,
    /// Star density setting (0 = Sparse, 1 = Average, 2 = Dense).
    pub star_density: usize,
    /// Number of species in the game (1-7).
    pub num_species: usize,
    /// Atmosphere type (0 = Neutral, 1 = Oxygen, 2 = Methane).
    pub atmosphere: usize,
    /// Player color index.
    pub player_color: usize,
    /// Galaxy seed for preview.
    pub galaxy_seed: u64,
}

impl Default for NewGameSettings {
    /// First species, average density, five species, neutral atmosphere,
    /// first color, and a random galaxy seed.
    fn default() -> (s: Self)
        ensures
            s.selected_species_index == 0,
            s.star_density == 1,
            s.num_species == 5,
            s.atmosphere == 0,
            s.player_color == 0,
    {
        NewGameSettings {
            selected_species_index: 0,
            star_density: 1,
            num_species: 5,
            atmosphere: 0,
            player_color: 0,
            galaxy_seed: random_seed(),
        }
    }
}

/// Buttons of the galaxy settings panel.
#[derive(Debug, Clone, Copy, PartialEq, Eq, Structural)]
pub enum SettingsButton {
    StarDensity,
    NumSpecies,
    Atmosphere,
    PlayerColor(usize),
}

/// Keys handled on the species selection screen, by priority.
#[derive(Debug, Clone, Copy, PartialEq, Eq, Structural)]
pub enum SelectionKey {
    Escape,
    Enter,
    ArrowUp,
    ArrowDown,
}

/// The settings are within their documented ranges.
pub open spec fn settings_in_range(s: NewGameSettings) -> bool {
    &&& s.star_density < 3
    &&& s.atmosphere < 3
    &&& 1 <= s.num_species <= 7
}

/// Species count after pressing the species-count button: it cycles 1..=7.
pub open spec fn next_species_count(n: int) -> int {
    if n >= 7 {
        1
    } else {
        n + 1
    }
}

/// Display name of a star density setting.
pub open spec fn density_name(d: int) -> Seq<char> {
    if d == 0 {
        "Sparse Star Cluster"@
    } else if d == 1 {
        "Average Star Cluster"@
    } else {
        "Dense Star Cluster"@
    }
}

/// Display name of a species count.
pub open spec fn species_count_name(n: int) -> Seq<char> {
    if n == 1 {
        "One Species"@
    } else if n == 2 {
        "Two Species"@
    } else if n == 3 {
        "Three Species"@
    } else if n == 4 {
        "Four Species"@
    } else if n == 5 {
        "Five Species"@
    } else if n == 6 {
        "Six Species"@
    } else {
        "Seven Species"@
    }
}

/// Display name of an atmosphere setting.
pub open spec fn atmosphere_name(a: int) -> Seq<char> {
    if a == 0 {
        "Neutral Atmosphere"@
    } else if a == 1 {
        "Oxygen Atmosphere"@
    } else {
        "Methane Atmosphere"@
    }
}

/// Pressing the density (or atmosphere) button three times restores the setting.
pub proof fn lemma_three_value_cycle(d: int)
    requires
        0 <= d < 3,
    ensures
        (((((d + 1) % 3) + 1) % 3) + 1) % 3 == d,
{
}

/// Pressing the species-count button seven times restores the count, and the
/// count stays within 1..=7.
pub proof fn lemma_species_count_cycle(n: int)
    requires
        1 <= n <= 7,
    ensures
        1 <= next_species_count(n) <= 7,
        next_species_count(
            next_species_count(
                next_species_count(
                    next_species_count(next_species_count(next_species_count(next_species_count(n)))),
                ),
            ),
        ) == n,
{
}

impl NewGameSettings {
    /// Apply a press of a settings button: density and atmosphere cycle through
    /// their three values, the species count cycles through 1..=7, and a color
    /// button picks that color.
    pub fn press_settings_button(&mut self, button: SettingsButton)
        requires
            button == SettingsButton::StarDensity ==> old(self).star_density < usize::MAX,
            button == SettingsButton::Atmosphere ==> old(self).atmosphere < usize::MAX,
        ensures
            final(self).selected_species_index == old(self).selected_species_index,
            final(self).galaxy_seed == old(self).galaxy_seed,
            final(self).star_density == if button == SettingsButton::StarDensity {
                ((old(self).star_density + 1) % 3) as usize
            } else {
                old(self).star_density
            },
            final(self).num_species == if button == SettingsButton::NumSpecies {
                next_species_count(old(self).num_species as int) as usize
            } else {
                old(self).num_species
            },
            final(self).atmosphere == if button == SettingsButton::Atmosphere {
                ((old(self).atmosphere + 1) % 3) as usize
            } else {
                old(self).atmosphere
            },
            final(self).player_color == match button {
                SettingsButton::PlayerColor(i) => i,
                _ => old(self).player_color,
            },
            settings_in_range(*old(self)) ==> settings_in_range(*final(self)),
    {
        match button {
            SettingsButton::StarDensity => {
                self.star_density = (self.star_density + 1) % 3;
            },
            SettingsButton::NumSpecies => {
                self.num_species = if self.num_species >= 7 {
                    1
                } else {
                    self.num_species + 1
                };
            },
            SettingsButton::Atmosphere => {
                self.atmosphere = (self.atmosphere + 1) % 3;
            },
            SettingsButton::PlayerColor(index) => {
                self.player_color = index;
            },
        }
    }

    /// Galaxy summary shown next to the settings, one setting per line.
    pub fn galaxy_info_text(&self) -> (r: String)
        requires
            self.star_density < 3,
            self.atmosphere < 3,
        ensures
            r@ == density_name(self.star_density as int) + "\n"@ + species_count_name(
                self.num_species as int,
            ) + "\n"@ + atmosphere_name(self.atmosphere as int),
    {
        let mut out = if self.star_density == 0 {
            String::from_str("Sparse Star Cluster")
        } else if self.star_density == 1 {
            String::from_str("Average Star Cluster")
        } else {
            String::from_str("Dense Star Cluster")
        };
        out.append("\n");
        let species_text = match self.num_species {
            1 => "One Species",
            2 => "Two Species",
            3 => "Three Species",
            4 => "Four Species",
            5 => "Five Species",
            6 => "Six Species",
            _ => "Seven Species",
        };
        out.append(species_text);
        out.append("\n");
        out.append(if self.atmosphere == 0 {
            "Neutral Atmosphere"
        } else if self.atmosphere == 1 {
            "Oxygen Atmosphere"
        } else {
            "Methane Atmosphere"
        });
        out
    }

    /// A species list entry was clicked: select it; returns whether the
    /// selection changed.
    pub fn select_species(&mut self, index: usize) -> (changed: bool)
        ensures
            changed == (index != old(self).selected_species_index),
            final(self).selected_species_index == index,
            final(self).star_density == old(self).star_density,
            final(self).num_species == old(self).num_species,
            final(self).atmosphere == old(self).atmosphere,
            final(self).player_color == old(self).player_color,
            final(self).galaxy_seed == old(self).galaxy_seed,
    {
        if index != self.selected_species_index {
            self.selected_species_index = index;
            true
        } else {
            false
        }
    }

    /// Handle a key on the species selection screen with `species_count`
    /// species loaded. Without species nothing happens. Escape leaves for the
    /// main menu, Enter proceeds to the species introduction, and the arrows
    /// move the selection within the list. Returns the screen to switch to and
    /// whether the selection changed.
    pub fn handle_selection_key(&mut self, key: SelectionKey, species_count: usize) -> (r: (
        Option<GameState>,
        bool,
    ))
        ensures
            final(self).star_density == old(self).star_density,
            final(self).num_species == old(self).num_species,
            final(self).atmosphere == old(self).atmosphere,
            final(self).player_color == old(self).player_color,
            final(self).galaxy_seed == old(self).galaxy_seed,
            species_count == 0 ==> r == (None::<GameState>, false) && final(self).selected_species_index
                == old(self).selected_species_index,
            species_count > 0 ==> match key {
                SelectionKey::Escape => r == (Some(GameState::MainMenu), false)
                    && final(self).selected_species_index == old(self).selected_species_index,
                SelectionKey::Enter => r == (Some(GameState::SpeciesIntro), false)
                    && final(self).selected_species_index == old(self).selected_species_index,
                SelectionKey::ArrowUp => {
                    let moved = old(self).selected_species_index > 0;
                    &&& r == (None::<GameState>, moved)
                    &&& final(self).selected_species_index == if moved {
                        (old(self).selected_species_index - 1) as usize
                    } else {
                        old(self).selected_species_index
                    }
                },
                SelectionKey::ArrowDown => {
                    let moved = old(self).selected_species_index < species_count - 1;
                    &&& r == (None::<GameState>, moved)
                    &&& final(self).selected_species_index == if moved {
                        (old(self).selected_species_index + 1) as usize
                    } else {
                        old(self).selected_species_index
                    }
                },
            },
    {
        if species_count == 0 {
            return (None, false);
        }
        match key {
            SelectionKey::Escape => (Some(GameState::MainMenu), false),
            SelectionKey::Enter => (Some(GameState::SpeciesIntro), false),
            SelectionKey::ArrowUp => {
                if self.selected_species_index > 0 {
                    self.selected_species_index = self.selected_species_index - 1;
                    (None, true)
                } else {
                    (None, false)
                }
            },
            SelectionKey::ArrowDown => {
                if self.selected_species_index < species_count - 1 {
                    self.selected_species_index = self.selected_species_index + 1;
                    (None, true)
                } else {
                    (None, false)
                }
            },
        }
    }
}

/// Screen reached from the species introduction: Escape goes back to the
/// species selection, Enter or Space continue into the game.
pub fn intro_key_transition(escape: bool, enter: bool, space: bool) -> (r: Option<GameState>)
    ensures
        r == if escape {
            Some(GameState::SpeciesSelection)
        } else if enter || space {
            Some(GameState::InGame)
        } else {
            None::<GameState>
        },
{
    if escape {
        Some(GameState::SpeciesSelection)
    } else if enter || space {
        Some(GameState::InGame)
    } else {
        None
    }
}

} // verus!

verus! {

/// Opening of the minions mission briefing, before the species name.
pub const MINIONS_BRIEFING_OPENING: &'static str = "The ";

/// Rest of the minions mission briefing, after the species name.
pub const MINIONS_BRIEFING_REST: &'static str = " have emerged from their homeworld with one supreme purpose: galactic domination through any means necessary. Your cunning and resourcefulness will be tested as you navigate the treacherous waters of interstellar politics.\n\nBuild your empire. Crush your enemies. The galaxy awaits its new masters.";

/// Opening of the chamachies mission briefing, before the species name.
pub const CHAMACHIES_BRIEFING_OPENING: &'static str = "The noble ";

/// Rest of the chamachies mission briefing, after the species name.
pub const CHAMACHIES_BRIEFING_REST: &'static str = " embark upon their greatest journey yet. Guided by ancient traditions and unwavering honor, your people seek to bring enlightenment to the cosmos.\n\nForge alliances with worthy species. Expand your influence through wisdom and strength. The stars call to your destiny.";

/// Opening of the orfa mission briefing, before the species name.
pub const ORFA_BRIEFING_OPENING: &'static str = "The mysterious ";

/// Rest of the orfa mission briefing, after the species name.
pub const ORFA_BRIEFING_REST: &'static str = " venture forth from the depths of their ocean world. Your unique perspective and adaptability will prove invaluable in the harsh vacuum of space.\n\nExplore strange new worlds. Discover the secrets of the cosmos. Your journey into the unknown begins now.";

/// Opening of the govorom mission briefing, before the species name.
pub const GOVOROM_BRIEFING_OPENING: &'static str = "The ancient ";

/// Rest of the govorom mission briefing, after the species name.
pub const GOVOROM_BRIEFING_REST: &'static str = " have awakened after millennia of contemplation. With vast knowledge accumulated over eons, your species now turns its gaze to the stars.\n\nShare your wisdom or guard it jealously. The choice is yours. The universe trembles at your awakening.";

/// Opening of the saurians mission briefing, before the species name.
pub const SAURIANS_BRIEFING_OPENING: &'static str = "The mighty ";

/// Rest of the saurians mission briefing, after the species name.
pub const SAURIANS_BRIEFING_REST: &'static str = " march forth to claim their rightful place among the stars. Proud warriors and fierce competitors, your people know only victory.\n\nConquer. Dominate. Rule. The weak shall bow before the strong.";

/// Opening of the arbryls mission briefing, before the species name.
pub const ARBRYLS_BRIEFING_OPENING: &'static str = "The enigmatic ";

/// Rest of the arbryls mission briefing, after the species name.
pub const ARBRYLS_BRIEFING_REST: &'static str = " spread their tendrils across the galaxy. Patient and methodical, your species plays the long game in the cosmic struggle for supremacy.\n\nGrow. Adapt. Consume. The galaxy is but fertile ground for your kind.";

/// Opening of the frutmaka mission briefing, before the species name.
pub const FRUTMAKA_BRIEFING_OPENING: &'static str = "The industrious ";

/// Rest of the frutmaka mission briefing, after the species name.
pub const FRUTMAKA_BRIEFING_REST: &'static str = " set forth to build a new future among the stars. Masters of technology and engineering, no challenge is too great for your ingenuity.\n\nCreate. Innovate. Construct. The galaxy shall know your works.";

/// Opening of the shevar mission briefing, before the species name.
pub const SHEVAR_BRIEFING_OPENING: &'static str = "The ethereal ";

/// Rest of the shevar mission briefing, after the species name.
pub const SHEVAR_BRIEFING_REST: &'static str = " drift through the cosmos seeking harmony and balance. Your connection to the fundamental forces of the universe grants unique insight.\n\nSeek balance. Find harmony. Bring peace to a chaotic galaxy... or not.";

/// Opening of the dubtaks mission briefing, before the species name.
pub const DUBTAKS_BRIEFING_OPENING: &'static str = "The resilient ";

/// Rest of the dubtaks mission briefing, after the species name.
pub const DUBTAKS_BRIEFING_REST: &'static str = " emerge from their harsh homeworld ready for anything. Survivors by nature, your people thrive where others would perish.\n\nEndure. Persist. Overcome. The galaxy's challenges are nothing compared to home.";

/// Opening of the default mission briefing, before the species name.
pub const DEFAULT_BRIEFING_OPENING: &'static str = "The ";

/// Rest of the default mission briefing, after the species name.
pub const DEFAULT_BRIEFING_REST: &'static str = " embark on an epic journey to the stars. A new chapter in your species' history begins today.\n\nExplore the cosmos. Build your civilization. Write your legend among the stars.";

/// Opening of the mission briefing for species `id`.
pub open spec fn briefing_opening(id: Seq<char>) -> Seq<char> {
    if id == "minions"@ {
        MINIONS_BRIEFING_OPENING@
    } else if id == "chamachies"@ {
        CHAMACHIES_BRIEFING_OPENING@
    } else if id == "orfa"@ {
        ORFA_BRIEFING_OPENING@
    } else if id == "govorom"@ {
        GOVOROM_BRIEFING_OPENING@
    } else if id == "saurians"@ {
        SAURIANS_BRIEFING_OPENING@
    } else if id == "arbryls"@ {
        ARBRYLS_BRIEFING_OPENING@
    } else if id == "frutmaka"@ {
        FRUTMAKA_BRIEFING_OPENING@
    } else if id == "shevar"@ {
        SHEVAR_BRIEFING_OPENING@
    } else if id == "dubtaks"@ {
        DUBTAKS_BRIEFING_OPENING@
    } else {
        DEFAULT_BRIEFING_OPENING@
    }
}

/// Rest of the mission briefing for species `id`.
pub open spec fn briefing_rest(id: Seq<char>) -> Seq<char> {
    if id == "minions"@ {
        MINIONS_BRIEFING_REST@
    } else if id == "chamachies"@ {
        CHAMACHIES_BRIEFING_REST@
    } else if id == "orfa"@ {
        ORFA_BRIEFING_REST@
    } else if id == "govorom"@ {
        GOVOROM_BRIEFING_REST@
    } else if id == "saurians"@ {
        SAURIANS_BRIEFING_REST@
    } else if id == "arbryls"@ {
        ARBRYLS_BRIEFING_REST@
    } else if id == "frutmaka"@ {
        FRUTMAKA_BRIEFING_REST@
    } else if id == "shevar"@ {
        SHEVAR_BRIEFING_REST@
    } else if id == "dubtaks"@ {
        DUBTAKS_BRIEFING_REST@
    } else {
        DEFAULT_BRIEFING_REST@
    }
}

/// The opening and rest of the mission briefing for species `species_id`.
fn briefing_frame(species_id: &str) -> (r: (&'static str, &'static str))
    ensures
        r.0@ == briefing_opening(species_id@),
        r.1@ == briefing_rest(species_id@),
{
    if same_text(species_id, "minions") {
        (MINIONS_BRIEFING_OPENING, MINIONS_BRIEFING_REST)
    } else if same_text(species_id, "chamachies") {
        (CHAMACHIES_BRIEFING_OPENING, CHAMACHIES_BRIEFING_REST)
    } else if same_text(species_id, "orfa") {
        (ORFA_BRIEFING_OPENING, ORFA_BRIEFING_REST)
    } else if same_text(species_id, "govorom") {
        (GOVOROM_BRIEFING_OPENING, GOVOROM_BRIEFING_REST)
    } else if same_text(species_id, "saurians") {
        (SAURIANS_BRIEFING_OPENING, SAURIANS_BRIEFING_REST)
    } else if same_text(species_id, "arbryls") {
        (ARBRYLS_BRIEFING_OPENING, ARBRYLS_BRIEFING_REST)
    } else if same_text(species_id, "frutmaka") {
        (FRUTMAKA_BRIEFING_OPENING, FRUTMAKA_BRIEFING_REST)
    } else if same_text(species_id, "shevar") {
        (SHEVAR_BRIEFING_OPENING, SHEVAR_BRIEFING_REST)
    } else if same_text(species_id, "dubtaks") {
        (DUBTAKS_BRIEFING_OPENING, DUBTAKS_BRIEFING_REST)
    } else {
        (DEFAULT_BRIEFING_OPENING, DEFAULT_BRIEFING_REST)
    }
}

/// Mission briefing shown on the species introduction: a text chosen by the
/// species' identifier, with the species name filled in.
pub fn generate_mission_briefing(species_name: &str, species_id: &str) -> (r: String)
    ensures
        r@ == briefing_opening(species_id@) + species_name@ + briefing_rest(species_id@),
{
    let (opening, rest) = briefing_frame(species_id);
    let mut out = String::from_str(opening);
    out.append(species_name);
    out.append(rest);
    out
}

} // verus!

verus! {

/// Texts of the species introduction screen.
#[derive(Debug, Clone, PartialEq, Eq)]
pub struct IntroText {
    pub species_name: String,
    pub species_description: String,
    pub mission_briefing: String,
}

/// What the introduction shows for the selected species: its English name
/// and description and its briefing, or fallback texts for an unknown species.
pub open spec fn intro_text_spec(
    settings: NewGameSettings,
    data: Option<GameData>,
    r: IntroText,
) -> bool {
    match data {
        Some(d) if (settings.selected_species_index as int) < d.species@.len() => {
            let s = d.species@[settings.selected_species_index as int];
            &&& r.species_name@ == s.name.text_in(Language::En)
            &&& r.species_description@ == s.description.text_in(Language::En)
            &&& r.mission_briefing@ == briefing_opening(s.id@) + r.species_name@ + briefing_rest(s.id@)
        },
        _ => {
            &&& r.species_name@ == "Unknown Species"@
            &&& r.species_description@ == "No description available."@
            &&& r.mission_briefing@ == briefing_opening("unknown"@) + "Unknown Species"@
                + briefing_rest("unknown"@)
        },
    }
}

/// Texts of the species introduction for the selected species.
pub fn intro_text(settings: &NewGameSettings, data: Option<&GameData>) -> (r: IntroText)
    ensures
        intro_text_spec(*settings, match data {
            Some(d) => Some(*d),
            None => None,
        }, r),
{
    let (name, description, id) = match data {
        Some(d) if settings.selected_species_index < d.species.len() => {
            let s = &d.species[settings.selected_species_index];
            (
                s.name(Language::En).to_string(),
                s.description(Language::En).to_string(),
                s.id.clone(),
            )
        },
        _ => (
            "Unknown Species".to_string(),
            "No description available.".to_string(),
            "unknown".to_string(),
        ),
    };
    let mission_briefing = generate_mission_briefing(name.as_str(), id.as_str());
    IntroText { species_name: name, species_description: description, mission_briefing }
}

} // verus!
