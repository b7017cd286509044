//! Ship designs: a hull with installed modules, validated against game data.

use vstd::prelude::*;
use crate::text::{i32_to_text, int_decimal};
use crate::data::{
    GameData, GameRegistry, HasId, has_id, is_first_with_id, Engine, HullClass, Scanner,
    Weapon, Shield,
};

verus! {

/// Supported module categories for ship designs.
#[derive(Debug, Clone, Copy, PartialEq, Eq, Structural)]
pub enum ModuleCategory {
    Engine,
    Weapon,
    Shield,
    Scanner,
    Special,
}

/// Installed module entry with category and identifier.
#[derive(Debug, Clone, PartialEq, Eq)]
pub struct InstalledModule {
    pub category: ModuleCategory,
    pub id: String,
}

/// Ship design layout containing hull and installed modules.
#[derive(Debug, Clone, PartialEq, Eq)]
pub struct ShipDesign {
    pub hull_id: String,
    pub modules: Vec<InstalledModule>,
}

/// Errors that can occur while validating a ship design.
#[derive(Debug, PartialEq, Eq)]
pub enum DesignError {
    /// Referenced hull identifier does not exist.
    HullNotFound(String),
    /// Too many modules are placed compared to hull allowance.
    TooManyModules { max: i32, count: i32 },
    /// A required engine is missing.
    MissingEngine,
    /// Referenced module id does not exist for the given category.
    ModuleNotFound { category: ModuleCategory, id: String },
}

/// Name of a module category as `Debug` prints it.
pub open spec fn category_name(c: ModuleCategory) -> Seq<char> {
    match c {
        ModuleCategory::Engine => "Engine"@,
        ModuleCategory::Weapon => "Weapon"@,
        ModuleCategory::Shield => "Shield"@,
        ModuleCategory::Scanner => "Scanner"@,
        ModuleCategory::Special => "Special"@,
    }
}

/// Human-readable text of a design error.
pub open spec fn error_text(e: DesignError) -> Seq<char> {
    match e {
        DesignError::HullNotFound(id) => "hull '"@ + id@ + "' not found"@,
        DesignError::TooManyModules { max, count } => "too many modules: "@ + int_decimal(count as int)
            + " > max "@ + int_decimal(max as int),
        DesignError::MissingEngine => "at least one engine is required"@,
        DesignError::ModuleNotFound { category, id } => "module not found in "@ + category_name(category)
            + ": "@ + id@,
    }
}

impl DesignError {
    /// Human-readable description of the error.
    pub fn message(&self) -> (r: String)
        ensures
            r@ == error_text(*self),
    {
        match self {
            DesignError::HullNotFound(id) => {
                let mut out = String::from_str("hull '");
                out.append(id.as_str());
                out.append("' not found");
                out
            },
            DesignError::TooManyModules { max, count } => {
                let mut out = String::from_str("too many modules: ");
                let c = i32_to_text(*count);
                out.append(c.as_str());
                out.append(" > max ");
                let m = i32_to_text(*max);
                out.append(m.as_str());
                out
            },
            DesignError::MissingEngine => String::from_str("at least one engine is required"),
            DesignError::ModuleNotFound { category, id } => {
                let mut out = String::from_str("module not found in ");
                out.append(match category {
                    ModuleCategory::Engine => "Engine",
                    ModuleCategory::Weapon => "Weapon",
                    ModuleCategory::Shield => "Shield",
                    ModuleCategory::Scanner => "Scanner",
                    ModuleCategory::Special => "Special",
                });
                out.append(": ");
                out.append(id.as_str());
                out
            },
        }
    }
}

/// The module's identifier is known in its category.
pub open spec fn module_known(data: GameData, m: InstalledModule) -> bool {
    match m.category {
        ModuleCategory::Engine => has_id(data.engines@, m.id@),
        ModuleCategory::Weapon => has_id(data.weapons@, m.id@),
        ModuleCategory::Shield => has_id(data.shields@, m.id@),
        ModuleCategory::Scanner => has_id(data.scanners@, m.id@),
        ModuleCategory::Special => has_id(data.special_modules@, m.id@),
    }
}

/// Some module is an engine.
pub open spec fn has_engine(modules: Seq<InstalledModule>) -> bool {
    exists|i: int| 0 <= i < modules.len() && #[trigger] modules[i].category == ModuleCategory::Engine
}

/// Position `k` holds the first module whose identifier is unknown.
pub open spec fn first_unknown_module(data: GameData, modules: Seq<InstalledModule>, k: int) -> bool {
    &&& 0 <= k < modules.len()
    &&& !module_known(data, modules[k])
    &&& forall|j: int| 0 <= j < k ==> module_known(data, #[trigger] modules[j])
}

/// Position of the first item of `items` with identifier `id`.
pub open spec fn first_index<T: HasId>(items: Seq<T>, id: Seq<char>) -> int {
    choose|i: int| is_first_with_id(items, id, i)
}

/// The design's hull class (meaningful when the hull exists).
pub open spec fn design_hull(data: GameData, design: ShipDesign) -> HullClass {
    data.hull_classes@[first_index(data.hull_classes@, design.hull_id@)]
}

/// What validation of `design` against `data` returns.
pub open spec fn validation_result(
    data: GameData,
    design: ShipDesign,
    r: Result<(), DesignError>,
) -> bool {
    let modules = design.modules@;
    if !has_id(data.hull_classes@, design.hull_id@) {
        r matches Err(DesignError::HullNotFound(s)) && s@ == design.hull_id@
    } else if (modules.len() as i32) > design_hull(data, design).max_items {
        r == Err::<(), DesignError>(
            DesignError::TooManyModules {
                max: design_hull(data, design).max_items,
                count: modules.len() as i32,
            },
        )
    } else if !has_engine(modules) {
        r == Err::<(), DesignError>(DesignError::MissingEngine)
    } else if exists|k: int| first_unknown_module(data, modules, k) {
        let k = choose|k: int| first_unknown_module(data, modules, k);
        r matches Err(DesignError::ModuleNotFound { category, id }) && category == modules[k].category
            && id@ == modules[k].id@
    } else {
        r == Ok::<(), DesignError>(())
    }
}

/// The design passes validation.
pub open spec fn design_valid(data: GameData, design: ShipDesign) -> bool {
    &&& has_id(data.hull_classes@, design.hull_id@)
    &&& (design.modules@.len() as i32) <= design_hull(data, design).max_items
    &&& has_engine(design.modules@)
    &&& forall|k: int| 0 <= k < design.modules@.len() ==> module_known(data, #[trigger] design.modules@[k])
}

/// Validation succeeds exactly on the designs described by `design_valid`.
pub proof fn lemma_validation_ok_iff_valid(data: GameData, design: ShipDesign, r: Result<(), DesignError>)
    requires
        validation_result(data, design, r),
    ensures
        r is Ok <==> design_valid(data, design),
{
    let modules = design.modules@;
    if has_id(data.hull_classes@, design.hull_id@) && (modules.len() as i32) <= design_hull(data, design).max_items
        && has_engine(modules) {
        if exists|k: int| first_unknown_module(data, modules, k) {
            let k = choose|k: int| first_unknown_module(data, modules, k);
            assert(!module_known(data, modules[k]));
        } else {
            assert forall|k: int| 0 <= k < modules.len() implies module_known(data, #[trigger] modules[k]) by {
                if !module_known(data, modules[k]) {
                    lemma_first_unknown_exists(data, modules, k);
                }
            }
        }
    }
}

/// A design has an engine exactly when a module at some position, first or
/// not, is an engine.
pub proof fn lemma_engine_at_any_position(modules: Seq<InstalledModule>)
    ensures
        has_engine(modules) <==> exists|k: int|
            0 <= k < modules.len() && (#[trigger] modules[k]).category == ModuleCategory::Engine,
{
}

/// The sensor range over the first `n` modules is the highest range of the
/// scanners among them: at least each such scanner's range, and either zero
/// or the range of one of them.
pub proof fn lemma_sensor_range_is_highest(data: GameData, modules: Seq<InstalledModule>, n: int)
    requires
        0 <= n <= modules.len(),
    ensures
        forall|k: int|
            0 <= k < n && (#[trigger] modules[k]).category == ModuleCategory::Scanner ==> range_max(data, modules, n)
                >= data.scanners@[first_index(data.scanners@, modules[k].id@)].range,
        range_max(data, modules, n) == 0 || exists|k: int|
            0 <= k < n && (#[trigger] modules[k]).category == ModuleCategory::Scanner && range_max(data, modules, n)
                == data.scanners@[first_index(data.scanners@, modules[k].id@)].range,
        range_max(data, modules, n) >= 0,
    decreases n,
{
    if n > 0 {
        lemma_sensor_range_is_highest(data, modules, n - 1);
        let prev = range_max(data, modules, n - 1);
        if range_max(data, modules, n) != prev {
            assert(modules[n - 1].category == ModuleCategory::Scanner);
        } else if prev != 0 {
            let k = choose|k: int|
                0 <= k < n - 1 && (#[trigger] modules[k]).category == ModuleCategory::Scanner && prev
                    == data.scanners@[first_index(data.scanners@, modules[k].id@)].range;
            assert(0 <= k < n);
        }
    }
}

/// Each module adds its own power draw to the total: an engine, weapon or
/// special module the `power_use` of its definition, a shield or scanner
/// nothing.
pub proof fn lemma_power_draws(data: GameData, modules: Seq<InstalledModule>, k: int)
    requires
        0 <= k < modules.len(),
    ensures
        power_sum(data, modules, k + 1) == power_sum(data, modules, k) + match modules[k].category {
            ModuleCategory::Engine => data.engines@[first_index(data.engines@, modules[k].id@)].power_use as int,
            ModuleCategory::Weapon => data.weapons@[first_index(data.weapons@, modules[k].id@)].power_use as int,
            ModuleCategory::Special => data.special_modules@[first_index(
                data.special_modules@,
                modules[k].id@,
            )].power_use as int,
            ModuleCategory::Shield => 0int,
            ModuleCategory::Scanner => 0int,
        },
        power_sum(data, modules, 0) == 0,
{
}

/// The weapon at position `w` of the game data has the identifier of some
/// weapon module among the first `n` modules.
pub open spec fn names_weapon_module(data: GameData, modules: Seq<InstalledModule>, n: int, w: usize) -> bool {
    exists|k: int|
        0 <= k < n && (#[trigger] modules[k]).category == ModuleCategory::Weapon && data.weapons@[w as int].id@
            == modules[k].id@
}

/// The weapon sources over the first `n` modules come from the weapon
/// modules and nothing else: each entry names a weapon with the identifier of
/// some weapon module, and each weapon module's definition is listed.
pub proof fn lemma_weapon_sources(data: GameData, modules: Seq<InstalledModule>, n: int)
    requires
        0 <= n <= modules.len(),
        forall|k: int| 0 <= k < n ==> module_known(data, #[trigger] modules[k]),
        data.weapons@.len() <= usize::MAX,
    ensures
        forall|j: int|
            0 <= j < weapon_positions(data, modules, n).len() ==> names_weapon_module(
                data,
                modules,
                n,
                #[trigger] weapon_positions(data, modules, n)[j],
            ),
        forall|k: int|
            0 <= k < n && (#[trigger] modules[k]).category == ModuleCategory::Weapon ==> weapon_positions(
                data,
                modules,
                n,
            ).contains(first_index(data.weapons@, modules[k].id@) as usize),
    decreases n,
{
    if n > 0 {
        lemma_weapon_sources(data, modules, n - 1);
        let prev = weapon_positions(data, modules, n - 1);
        let cur = weapon_positions(data, modules, n);
        let m = modules[n - 1];
        assert forall|w: usize| names_weapon_module(data, modules, n - 1, w) implies names_weapon_module(
            data,
            modules,
            n,
            w,
        ) by {
            let k = choose|k: int|
                0 <= k < n - 1 && (#[trigger] modules[k]).category == ModuleCategory::Weapon
                    && data.weapons@[w as int].id@ == modules[k].id@;
            assert(0 <= k < n);
        }
        if m.category == ModuleCategory::Weapon {
            assert(module_known(data, m));
            let w = choose|w: int| 0 <= w < data.weapons@.len() && #[trigger] data.weapons@[w].spec_id() == m.id@;
            crate::modding::lemma_first_exists(data.weapons@, m.id@, w);
            let f = first_index(data.weapons@, m.id@);
            assert(cur == prev.push(f as usize));
            assert(names_weapon_module(data, modules, n, f as usize)) by {
                assert(modules[n - 1] == m);
                assert(data.weapons@[f].spec_id() == m.id@);
            }
            assert forall|j: int| 0 <= j < cur.len() implies names_weapon_module(data, modules, n, #[trigger] cur[j]) by {
                if j < prev.len() {
                    assert(cur[j] == prev[j]);
                    assert(names_weapon_module(data, modules, n - 1, prev[j]));
                }
            }
            assert forall|k: int| 0 <= k < n && (#[trigger] modules[k]).category == ModuleCategory::Weapon implies cur.contains(
                first_index(data.weapons@, modules[k].id@) as usize,
            ) by {
                if k < n - 1 {
                    let j = choose|j: int| 0 <= j < prev.len() && prev[j] == first_index(data.weapons@, modules[k].id@) as usize;
                    assert(cur[j] == prev[j]);
                } else {
                    assert(cur[prev.len() as int] == first_index(data.weapons@, modules[k].id@) as usize);
                }
            }
        } else {
            assert(cur == prev);
            assert forall|j: int| 0 <= j < cur.len() implies names_weapon_module(data, modules, n, #[trigger] cur[j]) by {
                assert(names_weapon_module(data, modules, n - 1, prev[j]));
            }
            assert forall|k: int| 0 <= k < n && (#[trigger] modules[k]).category == ModuleCategory::Weapon implies cur.contains(
                first_index(data.weapons@, modules[k].id@) as usize,
            ) by {
                assert(k < n - 1);
            }
        }
    }
}

/// The first unknown module has one position.
proof fn lemma_first_unknown_unique(data: GameData, modules: Seq<InstalledModule>, k: int)
    requires
        first_unknown_module(data, modules, k),
    ensures
        (choose|f: int| first_unknown_module(data, modules, f)) == k,
{
    let f = choose|f: int| first_unknown_module(data, modules, f);
    if f < k {
        assert(module_known(data, modules[f]));
    } else if k < f {
        assert(module_known(data, modules[k]));
    }
}

/// If some module is unknown, there is a first unknown one.
proof fn lemma_first_unknown_exists(data: GameData, modules: Seq<InstalledModule>, k: int)
    requires
        0 <= k < modules.len(),
        !module_known(data, modules[k]),
    ensures
        exists|f: int| first_unknown_module(data, modules, f),
    decreases k,
{
    if exists|j: int| 0 <= j < k && !module_known(data, #[trigger] modules[j]) {
        let j = choose|j: int| 0 <= j < k && !module_known(data, #[trigger] modules[j]);
        lemma_first_unknown_exists(data, modules, j);
    } else {
        assert(first_unknown_module(data, modules, k));
    }
}

/// Power draw of one installed module: engines, weapons and special modules
/// draw power; shields and scanners do not.
pub open spec fn module_power(data: GameData, m: InstalledModule) -> int {
    match m.category {
        ModuleCategory::Engine => data.engines@[first_index(data.engines@, m.id@)].power_use as int,
        ModuleCategory::Weapon => data.weapons@[first_index(data.weapons@, m.id@)].power_use as int,
        ModuleCategory::Special => data.special_modules@[first_index(
            data.special_modules@,
            m.id@,
        )].power_use as int,
        _ => 0,
    }
}

/// Total power draw of the first `k` modules.
pub open spec fn power_sum(data: GameData, modules: Seq<InstalledModule>, k: int) -> int
    decreases k,
{
    if k <= 0 {
        0
    } else {
        power_sum(data, modules, k - 1) + module_power(data, modules[k - 1])
    }
}

/// Largest scanner range among the first `k` modules, and at least zero.
pub open spec fn range_max(data: GameData, modules: Seq<InstalledModule>, k: int) -> int
    decreases k,
{
    if k <= 0 {
        0
    } else {
        let prev = range_max(data, modules, k - 1);
        if modules[k - 1].category == ModuleCategory::Scanner {
            let range = data.scanners@[first_index(data.scanners@, modules[k - 1].id@)].range as int;
            if range > prev {
                range
            } else {
                prev
            }
        } else {
            prev
        }
    }
}

/// Positions in `data.weapons` of the weapons among the first `k` modules.
pub open spec fn weapon_positions(data: GameData, modules: Seq<InstalledModule>, k: int) -> Seq<usize>
    decreases k,
{
    if k <= 0 {
        Seq::empty()
    } else {
        let prev = weapon_positions(data, modules, k - 1);
        if modules[k - 1].category == ModuleCategory::Weapon {
            prev.push(first_index(data.weapons@, modules[k - 1].id@) as usize)
        } else {
            prev
        }
    }
}

/// Positions in `data.shields` of the shields among the first `k` modules.
pub open spec fn shield_positions(data: GameData, modules: Seq<InstalledModule>, k: int) -> Seq<usize>
    decreases k,
{
    if k <= 0 {
        Seq::empty()
    } else {
        let prev = shield_positions(data, modules, k - 1);
        if modules[k - 1].category == ModuleCategory::Shield {
            prev.push(first_index(data.shields@, modules[k - 1].id@) as usize)
        } else {
            prev
        }
    }
}

/// Aggregate stats for a ship design. Firepower and defense are sums of the
/// strengths of the listed weapons and shields.
#[derive(Debug, Clone, PartialEq, Eq)]
pub struct ShipStats {
    /// Sum of power draw across all modules.
    pub total_power_use: i32,
    /// Highest scanner range installed (zero without scanners).
    pub sensor_range: i32,
    /// Positions in the game data's weapon list of each installed weapon, in module order.
    pub weapon_sources: Vec<usize>,
    /// Positions in the game data's shield list of each installed shield, in module order.
    pub shield_sources: Vec<usize>,
}

/// Index of the first item with identifier `id`, when one exists.
fn position_of<T: HasId>(items: &Vec<T>, id: &str) -> (r: Option<usize>)
    ensures
        r matches Some(i) ==> i == first_index(items@, id@) && is_first_with_id(items@, id@, i as int),
        r is None ==> !has_id(items@, id@),
{
    let r = crate::data::find_by_id(items.as_slice(), id);
    proof {
        if let Some(i) = r {
            crate::data::lemma_first_with_id_unique(items@, id@, i as int);
        }
    }
    r
}

impl ShipDesign {
    /// Create a new design for the given hull identifier.
    pub fn new(hull_id: &str) -> (d: Self)
        ensures
            d.hull_id@ == hull_id@,
            d.modules@.len() == 0,
    {
        ShipDesign { hull_id: hull_id.to_string(), modules: Vec::new() }
    }

    /// Add a module to the design without validating limits.
    pub fn add_module(&mut self, category: ModuleCategory, id: &str)
        ensures
            final(self).hull_id == old(self).hull_id,
            final(self).modules@.len() == old(self).modules@.len() + 1,
            forall|k: int| 0 <= k < old(self).modules@.len() ==> #[trigger] final(self).modules@[k] == old(self).modules@[k],
            final(self).modules@.last().category == category,
            final(self).modules@.last().id@ == id@,
    {
        self.modules.push(InstalledModule { category, id: id.to_string() });
    }

    /// Validate the design against available data and placement rules: the hull
    /// must exist, the module count must not exceed its slots, at least one
    /// engine is required, and every module must exist in its category.
    pub fn validate(&self, data: &GameData, registry: &GameRegistry) -> (r: Result<(), DesignError>)
        ensures
            validation_result(*data, *self, r),
            r == Err::<(), DesignError>(DesignError::MissingEngine) ==> forall|k: int|
                0 <= k < self.modules@.len() ==> (#[trigger] self.modules@[k]).category != ModuleCategory::Engine,
            ({
                &&& has_id(data.hull_classes@, self.hull_id@)
                &&& (self.modules@.len() as i32) <= design_hull(*data, *self).max_items
                &&& exists|k: int|
                    0 <= k < self.modules@.len() && (#[trigger] self.modules@[k]).category
                        == ModuleCategory::Engine
                &&& forall|k: int| 0 <= k < self.modules@.len() ==> module_known(*data, #[trigger] self.modules@[k])
            }) ==> r is Ok,
    {
        let hull = match registry.hull_class(data, self.hull_id.as_str()) {
            Some(h) => h,
            None => {
                return Err(DesignError::HullNotFound(self.hull_id.clone()));
            },
        };
        proof {
            let i = choose|i: int| is_first_with_id(data.hull_classes@, self.hull_id@, i) && *hull == data.hull_classes@[i];
            crate::data::lemma_first_with_id_unique(data.hull_classes@, self.hull_id@, i);
        }
        let count = self.modules.len() as i32;
        if count > hull.max_items {
            return Err(DesignError::TooManyModules { max: hull.max_items, count });
        }
        proof {
            assert(*hull == design_hull(*data, *self));
        }
        let mut has_engine_module = false;
        let mut i: usize = 0;
        while i < self.modules.len()
            invariant
                i <= self.modules@.len(),
                has_engine_module == exists|j: int| 0 <= j < i && #[trigger] self.modules@[j].category == ModuleCategory::Engine,
            decreases self.modules@.len() - i,
        {
            if self.modules[i].category == ModuleCategory::Engine {
                has_engine_module = true;
            }
            i = i + 1;
        }
        if !has_engine_module {
            return Err(DesignError::MissingEngine);
        }
        let mut i: usize = 0;
        while i < self.modules.len()
            invariant
                i <= self.modules@.len(),
                forall|j: int| 0 <= j < i ==> module_known(*data, #[trigger] self.modules@[j]),
                has_engine(self.modules@),
                has_id(data.hull_classes@, self.hull_id@),
                !((self.modules@.len() as i32) > design_hull(*data, *self).max_items),
            decreases self.modules@.len() - i,
        {
            let m = &self.modules[i];
            let exists = match m.category {
                ModuleCategory::Engine => registry.engine(data, m.id.as_str()).is_some(),
                ModuleCategory::Weapon => registry.weapon(data, m.id.as_str()).is_some(),
                ModuleCategory::Shield => registry.shield(data, m.id.as_str()).is_some(),
                ModuleCategory::Scanner => registry.scanner(data, m.id.as_str()).is_some(),
                ModuleCategory::Special => registry.special_module(data, m.id.as_str()).is_some(),
            };
            proof {
                crate::data::lemma_lookup_some_iff(data.engines@, m.id@);
                crate::data::lemma_lookup_some_iff(data.weapons@, m.id@);
                crate::data::lemma_lookup_some_iff(data.shields@, m.id@);
                crate::data::lemma_lookup_some_iff(data.scanners@, m.id@);
                crate::data::lemma_lookup_some_iff(data.special_modules@, m.id@);
            }
            if !exists {
                let err = DesignError::ModuleNotFound { category: m.category, id: m.id.clone() };
                proof {
                    assert(first_unknown_module(*data, self.modules@, i as int));
                    lemma_first_unknown_unique(*data, self.modules@, i as int);
                    assert(has_engine(self.modules@));
                    assert(err matches DesignError::ModuleNotFound { category, id } && category
                        == self.modules@[i as int].category && id@ == self.modules@[i as int].id@);
                }
                return Err(err);
            }
            i = i + 1;
        }
        proof {
            assert forall|k: int| !first_unknown_module(*data, self.modules@, k) by {
                if 0 <= k < self.modules@.len() {
                    assert(module_known(*data, self.modules@[k]));
                }
            }
        }
        Ok(())
    }

    /// Compute aggregate stats for this design, after validating it.
    pub fn compute_stats(&self, data: &GameData, registry: &GameRegistry) -> (r: Result<ShipStats, DesignError>)
        requires
            design_valid(*data, *self) ==> forall|k: int|
                0 <= k <= self.modules@.len() ==> i32::MIN <= #[trigger] power_sum(*data, self.modules@, k)
                    <= i32::MAX,
        ensures
            r is Ok <==> design_valid(*data, *self),
            r matches Err(e) ==> validation_result(*data, *self, Err(e)),
            r matches Ok(stats) ==> {
                &&& stats.total_power_use == power_sum(*data, self.modules@, self.modules@.len() as int)
                &&& stats.sensor_range == range_max(*data, self.modules@, self.modules@.len() as int)
                &&& stats.weapon_sources@ == weapon_positions(*data, self.modules@, self.modules@.len() as int)
                &&& stats.shield_sources@ == shield_positions(*data, self.modules@, self.modules@.len() as int)
            },
            r matches Ok(stats) ==> forall|k: int|
                0 <= k < self.modules@.len() && (#[trigger] self.modules@[k]).category == ModuleCategory::Scanner
                    ==> stats.sensor_range >= data.scanners@[first_index(data.scanners@, self.modules@[k].id@)].range,
            r matches Ok(stats) ==> stats.sensor_range == 0 || exists|k: int|
                0 <= k < self.modules@.len() && (#[trigger] self.modules@[k]).category == ModuleCategory::Scanner
                    && stats.sensor_range == data.scanners@[first_index(data.scanners@, self.modules@[k].id@)].range,
    {
        proof {
            lemma_sensor_range_is_highest(*data, self.modules@, self.modules@.len() as int);
        }
        let v = self.validate(data, registry);
        proof {
            lemma_validation_ok_iff_valid(*data, *self, v);
        }
        match v {
            Err(e) => {
                return Err(e);
            },
            Ok(()) => {},
        }
        let mut stats = ShipStats {
            total_power_use: 0,
            sensor_range: 0,
            weapon_sources: Vec::new(),
            shield_sources: Vec::new(),
        };
        let ghost ms = self.modules@;
        let mut i: usize = 0;
        while i < self.modules.len()
            invariant
                i <= ms.len(),
                ms == self.modules@,
                design_valid(*data, *self),
                forall|k: int| 0 <= k <= ms.len() ==> i32::MIN <= #[trigger] power_sum(*data, ms, k) <= i32::MAX,
                stats.total_power_use == power_sum(*data, ms, i as int),
                stats.sensor_range == range_max(*data, ms, i as int),
                stats.weapon_sources@ == weapon_positions(*data, ms, i as int),
                stats.shield_sources@ == shield_positions(*data, ms, i as int),
            decreases ms.len() - i,
        {
            let m = &self.modules[i];
            proof {
                assert(module_known(*data, ms[i as int]));
                assert(i32::MIN <= power_sum(*data, ms, i + 1) <= i32::MAX);
            }
            match m.category {
                ModuleCategory::Engine => {
                    match position_of(&data.engines, m.id.as_str()) {
                        Some(k) => {
                            stats.total_power_use = stats.total_power_use + data.engines[k].power_use;
                        },
                        None => {
                            return Err(DesignError::ModuleNotFound { category: m.category, id: m.id.clone() });
                        },
                    }
                },
                ModuleCategory::Weapon => {
                    match position_of(&data.weapons, m.id.as_str()) {
                        Some(k) => {
                            stats.total_power_use = stats.total_power_use + data.weapons[k].power_use;
                            stats.weapon_sources.push(k);
                        },
                        None => {
                            return Err(DesignError::ModuleNotFound { category: m.category, id: m.id.clone() });
                        },
                    }
                },
                ModuleCategory::Shield => {
                    match position_of(&data.shields, m.id.as_str()) {
                        Some(k) => {
                            stats.shield_sources.push(k);
                        },
                        None => {
                            return Err(DesignError::ModuleNotFound { category: m.category, id: m.id.clone() });
                        },
                    }
                },
                ModuleCategory::Scanner => {
                    match position_of(&data.scanners, m.id.as_str()) {
                        Some(k) => {
                            let range = data.scanners[k].range;
                            if range > stats.sensor_range {
                                stats.sensor_range = range;
                            }
                        },
                        None => {
                            return Err(DesignError::ModuleNotFound { category: m.category, id: m.id.clone() });
                        },
                    }
                },
                ModuleCategory::Special => {
                    match position_of(&data.special_modules, m.id.as_str()) {
                        Some(k) => {
                            stats.total_power_use = stats.total_power_use + data.special_modules[k].power_use;
                        },
                        None => {
                            return Err(DesignError::ModuleNotFound { category: m.category, id: m.id.clone() });
                        },
                    }
                },
            }
            i = i + 1;
        }
        Ok(stats)
    }
}

} // verus!
