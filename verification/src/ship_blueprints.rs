//! Named ship designs that are saved as blueprints.

use vstd::prelude::*;
use crate::ship_design::ShipDesign;

verus! {

/// Serializable blueprint representation.
#[derive(Debug, Clone, PartialEq)]
pub struct ShipBlueprint {
    pub name: String,
    pub design: ShipDesign,
}

impl ShipBlueprint {
    /// Name of the file a blueprint is stored in: its name with a `.toml` extension.
    pub fn file_name(&self) -> (r: String)
        ensures
            r@ == self.name@ + ".toml"@,
    {
        let mut out = self.name.clone();
        out.append(".toml");
        out
    }
}

} // verus!
