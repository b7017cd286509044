use ascenoria::data::{
    Engine, GameData, GameRegistry, HullClass, LocalizedText, Scanner, Shield, SpecialModule, Weapon,
};
use ascenoria::ship_design::{DesignError, ModuleCategory, ShipDesign};

fn text(s: &str) -> LocalizedText {
    LocalizedText { en: s.to_string(), ru: s.to_string() }
}

fn load_assets() -> (GameData, GameRegistry) {
    let mut data = GameData::empty();
    data.hull_classes.push(HullClass {
        id: "small".to_string(),
        name: text("Small"),
        description: text("A small hull"),
        size_index: 0,
        max_items: 3,
    });
    data.hull_classes.push(HullClass {
        id: "large".to_string(),
        name: text("Large"),
        description: text("A large hull"),
        size_index: 2,
        max_items: 12,
    });
    data.engines.push(Engine { id: "tonklin_motor".to_string(), power_use: 2 });
    data.engines.push(Engine { id: "ion_banger".to_string(), power_use: 3 });
    data.weapons.push(Weapon { id: "mass_barrage_gun".to_string(), power_use: 1 });
    data.weapons.push(Weapon { id: "laser_beam".to_string(), power_use: 4 });
    data.shields.push(Shield { id: "deflector".to_string() });
    data.scanners.push(Scanner { id: "short_scanner".to_string(), range: 2 });
    data.scanners.push(Scanner { id: "long_scanner".to_string(), range: 5 });
    data.special_modules.push(SpecialModule { id: "colonizer".to_string(), power_use: 7 });
    (data, GameRegistry)
}

fn engine_id(data: &GameData) -> &str {
    data.engines().first().map(|e| e.id.as_str()).expect("engine in assets")
}

#[test]
fn ship_design_validates_design_within_limits() {
    let (data, registry) = load_assets();
    let hull_id = "small";
    let engine = engine_id(&data);

    let mut design = ShipDesign::new(hull_id);
    design.add_module(ModuleCategory::Engine, engine);

    assert!(design.validate(&data, &registry).is_ok());
}

#[test]
fn ship_design_rejects_design_without_engine() {
    let (data, registry) = load_assets();
    let hull_id = "small";

    let mut design = ShipDesign::new(hull_id);
    design.add_module(ModuleCategory::Weapon, "laser_beam");

    let err = design.validate(&data, &registry).expect_err("missing engine should fail");
    assert!(matches!(err, DesignError::MissingEngine));
}

#[test]
fn ship_design_rejects_over_capacity_design() {
    let (data, registry) = load_assets();
    let hull_id = "small";
    let engine = engine_id(&data);

    let mut design = ShipDesign::new(hull_id);
    for _ in 0..6 {
        design.add_module(ModuleCategory::Engine, engine);
    }

    let err = design.validate(&data, &registry).expect_err("over capacity should fail");
    assert!(matches!(err, DesignError::TooManyModules { .. }));
}

#[test]
fn ship_design_rejects_unknown_module_id() {
    let (data, registry) = load_assets();
    let hull_id = "small";

    let mut design = ShipDesign::new(hull_id);
    design.add_module(ModuleCategory::Engine, "unknown_engine");

    let err = design.validate(&data, &registry).expect_err("unknown module should fail");
    assert!(matches!(err, DesignError::ModuleNotFound { category: ModuleCategory::Engine, .. }));
}

#[test]
fn tests_validates_design_within_limits() {
    let (data, registry) = load_assets();
    let hull_id = "small";
    let engine = engine_id(&data);

    let mut design = ShipDesign::new(hull_id);
    design.add_module(ModuleCategory::Engine, engine);

    assert!(design.validate(&data, &registry).is_ok());
}

#[test]
fn tests_rejects_design_without_engine() {
    let (data, registry) = load_assets();
    let hull_id = "small";

    let mut design = ShipDesign::new(hull_id);
    design.add_module(ModuleCategory::Weapon, "laser_beam");

    let err = design.validate(&data, &registry).expect_err("missing engine should fail");
    assert!(matches!(err, DesignError::MissingEngine));
}

#[test]
fn tests_rejects_over_capacity_design() {
    let (data, registry) = load_assets();
    let hull_id = "small";
    let engine = engine_id(&data);

    let mut design = ShipDesign::new(hull_id);
    for _ in 0..6 {
        design.add_module(ModuleCategory::Engine, engine);
    }

    let err = design.validate(&data, &registry).expect_err("over capacity should fail");
    assert!(matches!(err, DesignError::TooManyModules { .. }));
}

#[test]
fn tests_rejects_unknown_module_id() {
    let (data, registry) = load_assets();
    let hull_id = "small";

    let mut design = ShipDesign::new(hull_id);
    design.add_module(ModuleCategory::Engine, "unknown_engine");

    let err = design.validate(&data, &registry).expect_err("unknown module should fail");
    assert!(matches!(err, DesignError::ModuleNotFound { category: ModuleCategory::Engine, .. }));
}

#[test]
fn unknown_hull_is_reported_first() {
    let (data, registry) = load_assets();
    let mut design = ShipDesign::new("huge");
    for _ in 0..20 {
        design.add_module(ModuleCategory::Weapon, "nothing");
    }
    assert_eq!(design.validate(&data, &registry), Err(DesignError::HullNotFound("huge".to_string())));
}

#[test]
fn capacity_error_reports_counts() {
    let (data, registry) = load_assets();
    let mut design = ShipDesign::new("small");
    for _ in 0..4 {
        design.add_module(ModuleCategory::Weapon, "laser_beam");
    }
    assert_eq!(
        design.validate(&data, &registry),
        Err(DesignError::TooManyModules { max: 3, count: 4 })
    );
}

#[test]
fn first_unknown_module_is_reported() {
    let (data, registry) = load_assets();
    let mut design = ShipDesign::new("large");
    design.add_module(ModuleCategory::Engine, "ion_banger");
    design.add_module(ModuleCategory::Shield, "laser_beam");
    design.add_module(ModuleCategory::Scanner, "nope");
    assert_eq!(
        design.validate(&data, &registry),
        Err(DesignError::ModuleNotFound { category: ModuleCategory::Shield, id: "laser_beam".to_string() })
    );
}

#[test]
fn stats_sum_power_and_track_best_scanner() {
    let (data, registry) = load_assets();
    let mut design = ShipDesign::new("large");
    design.add_module(ModuleCategory::Engine, "ion_banger");
    design.add_module(ModuleCategory::Weapon, "laser_beam");
    design.add_module(ModuleCategory::Scanner, "long_scanner");
    design.add_module(ModuleCategory::Scanner, "short_scanner");
    design.add_module(ModuleCategory::Shield, "deflector");
    design.add_module(ModuleCategory::Special, "colonizer");
    design.add_module(ModuleCategory::Weapon, "mass_barrage_gun");
    let stats = design.compute_stats(&data, &registry).expect("valid design");
    assert_eq!(stats.total_power_use, 3 + 4 + 7 + 1);
    assert_eq!(stats.sensor_range, 5);
    assert_eq!(stats.weapon_sources, vec![1, 0]);
    assert_eq!(stats.shield_sources, vec![0]);
}

#[test]
fn stats_fail_like_validation() {
    let (data, registry) = load_assets();
    let design = ShipDesign::new("small");
    assert_eq!(design.compute_stats(&data, &registry), Err(DesignError::MissingEngine));
}

#[test]
fn error_messages() {
    assert_eq!(DesignError::HullNotFound("x".to_string()).message(), "hull 'x' not found");
    assert_eq!(
        DesignError::TooManyModules { max: 3, count: -12 }.message(),
        "too many modules: -12 > max 3"
    );
    assert_eq!(DesignError::MissingEngine.message(), "at least one engine is required");
    assert_eq!(
        DesignError::ModuleNotFound { category: ModuleCategory::Scanner, id: "s".to_string() }.message(),
        "module not found in Scanner: s"
    );
}

#[test]
fn registry_finds_first_item_by_id() {
    let (mut data, registry) = load_assets();
    data.engines.push(Engine { id: "tonklin_motor".to_string(), power_use: 99 });
    assert_eq!(registry.engine(&data, "tonklin_motor").map(|e| e.power_use), Some(2));
    assert!(registry.engine(&data, "warp").is_none());
    assert_eq!(registry.hull_class(&data, "large").map(|h| h.max_items), Some(12));
}
