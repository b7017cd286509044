//! Planet view: the colony's power grid and its turn economy.

pub mod economy;
pub mod logic;
pub mod modal;
