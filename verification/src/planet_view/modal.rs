//! Planet info modal: visibility, the shown planet figures and their texts.

use vstd::prelude::*;
use crate::text::{i32_to_text, int_decimal};

verus! {

/// State for the planet info modal overlay.
#[derive(Debug)]
pub struct PlanetInfoModalState {
    /// Whether the modal is visible.
    pub visible: bool,
    /// Planet name to display.
    pub planet_name: String,
    /// Prosperity rate per day.
    pub prosperity_per_day: i32,
    /// Days until next population growth.
    pub days_to_growth: i32,
    /// Current population count.
    pub population: i32,
    /// Maximum population capacity.
    pub max_population: i32,
}

impl Default for PlanetInfoModalState {
    fn default() -> (s: Self)
        ensures
            !s.visible,
            s.planet_name@.len() == 0,
            s.prosperity_per_day == 0,
            s.days_to_growth == 0,
            s.population == 0,
            s.max_population == 0,
    {
        PlanetInfoModalState {
            visible: false,
            planet_name: String::new(),
            prosperity_per_day: 0,
            days_to_growth: 0,
            population: 0,
            max_population: 0,
        }
    }
}

impl PlanetInfoModalState {
    /// Show the modal with planet info.
    pub fn show(&mut self, name: &str, prosperity: i32, days: i32, pop: i32, max_pop: i32)
        ensures
            final(self).visible,
            final(self).planet_name@ == name@,
            final(self).prosperity_per_day == prosperity,
            final(self).days_to_growth == days,
            final(self).population == pop,
            final(self).max_population == max_pop,
    {
        self.visible = true;
        self.planet_name = name.to_string();
        self.prosperity_per_day = prosperity;
        self.days_to_growth = days;
        self.population = pop;
        self.max_population = max_pop;
    }

    /// Hide the modal, keeping the shown figures.
    pub fn hide_modal(&mut self)
        ensures
            !final(self).visible,
            final(self).planet_name == old(self).planet_name,
            final(self).prosperity_per_day == old(self).prosperity_per_day,
            final(self).days_to_growth == old(self).days_to_growth,
            final(self).population == old(self).population,
            final(self).max_population == old(self).max_population,
    {
        self.visible = false;
    }

    /// Title line, such as `Icarus I Prosperity: 1 per day`.
    pub fn title_text(&self) -> (r: String)
        ensures
            r@ == self.planet_name@ + " Prosperity: "@ + int_decimal(self.prosperity_per_day as int)
                + " per day"@,
    {
        let mut out = self.planet_name.clone();
        out.append(" Prosperity: ");
        let p = i32_to_text(self.prosperity_per_day);
        out.append(p.as_str());
        out.append(" per day");
        out
    }

    /// Population growth line: the days until growth, or a note that the
    /// population is at its maximum when no growth is pending.
    pub fn growth_text(&self) -> (r: String)
        ensures
            r@ == if self.days_to_growth > 0 {
                "Population will grow in "@ + int_decimal(self.days_to_growth as int) + " days."@
            } else {
                "Population at maximum capacity."@
            },
    {
        if self.days_to_growth > 0 {
            let mut out = String::from_str("Population will grow in ");
            let d = i32_to_text(self.days_to_growth);
            out.append(d.as_str());
            out.append(" days.");
            out
        } else {
            String::from_str("Population at maximum capacity.")
        }
    }

    /// Population line, such as `Population: 3 / 10`.
    pub fn population_text(&self) -> (r: String)
        ensures
            r@ == "Population: "@ + int_decimal(self.population as int) + " / "@ + int_decimal(
                self.max_population as int,
            ),
    {
        let mut out = String::from_str("Population: ");
        let p = i32_to_text(self.population);
        out.append(p.as_str());
        out.append(" / ");
        let m = i32_to_text(self.max_population);
        out.append(m.as_str());
        out
    }
}

} // verus!
