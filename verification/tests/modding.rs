use ascenoria::data::{GameData, Tech, TechPrereq};
use ascenoria::modding::{
    apply_mod_data, load_order, merge_by_id, merge_prereqs, schema_supported, select_mods, ModInfo,
    DEFAULT_DATA_SCHEMA_VERSION,
};

fn info(folder: &str, priority: i32, version: u32) -> ModInfo {
    ModInfo { folder: folder.to_string(), priority, data_schema_version: version }
}

fn tech(id: &str, cost: i32) -> Tech {
    Tech { id: id.to_string(), research_cost: cost }
}

fn prereq(from: &str, to: &str) -> TechPrereq {
    TechPrereq { from: from.to_string(), to: to.to_string() }
}

fn folders(mods: &[ModInfo]) -> Vec<String> {
    mods.iter().map(|m| m.folder.clone()).collect()
}

#[test]
fn load_order_sorts_by_priority_then_folder() {
    let mods = vec![
        info("zeta", 0, 1),
        info("late", 10, 1),
        info("alpha", 0, 1),
        info("early", -5, 1),
        info("beta", 10, 1),
    ];
    let ordered = load_order(mods);
    assert_eq!(folders(&ordered), vec!["early", "alpha", "zeta", "beta", "late"]);
}

#[test]
fn load_order_compares_folder_names_by_character() {
    let mods = vec![info("ab", 1, 1), info("a", 1, 1), info("B", 1, 1), info("abc", 1, 1)];
    let ordered = load_order(mods);
    assert_eq!(folders(&ordered), vec!["B", "a", "ab", "abc"]);
}

#[test]
fn load_order_of_nothing_is_empty() {
    assert!(load_order(Vec::new()).is_empty());
}

#[test]
fn newer_schema_is_rejected() {
    assert_eq!(DEFAULT_DATA_SCHEMA_VERSION, 1);
    assert!(schema_supported(1, 1));
    assert!(schema_supported(1, 2));
    assert!(!schema_supported(3, 2));
}

#[test]
fn select_mods_rejects_newer_schema_and_orders_the_rest() {
    let mods = vec![info("future", 0, 3), info("b", 5, 1), info("a", 5, 2), info("base", 1, 1)];
    let (loaded, rejected) = select_mods(mods, 2);
    assert_eq!(folders(&loaded), vec!["base", "a", "b"]);
    assert_eq!(folders(&rejected), vec!["future"]);
}

#[test]
fn merge_by_id_last_loaded_wins() {
    let mut techs = vec![tech("lasers", 100), tech("shields", 80)];
    merge_by_id(&mut techs, vec![tech("lasers", 50), tech("warp", 300), tech("lasers", 70)]);
    assert_eq!(techs, vec![tech("lasers", 70), tech("shields", 80), tech("warp", 300)]);
}

#[test]
fn merge_by_id_with_no_additions_keeps_entries() {
    let mut techs = vec![tech("lasers", 100)];
    merge_by_id(&mut techs, Vec::new());
    assert_eq!(techs, vec![tech("lasers", 100)]);
}

#[test]
fn merge_prereqs_by_pair() {
    let mut prereqs = vec![prereq("lasers", "plasma"), prereq("shields", "plasma")];
    merge_prereqs(
        &mut prereqs,
        vec![prereq("shields", "plasma"), prereq("lasers", "warp"), prereq("lasers", "warp")],
    );
    assert_eq!(
        prereqs,
        vec![prereq("lasers", "plasma"), prereq("shields", "plasma"), prereq("lasers", "warp")]
    );
}

#[test]
fn apply_mod_data_layers_tables() {
    let mut base = GameData::empty();
    base.techs.push(tech("lasers", 100));
    base.research_prereqs.push(prereq("lasers", "plasma"));
    let mut overlay = GameData::empty();
    overlay.techs.push(tech("lasers", 40));
    overlay.techs.push(tech("plasma", 200));
    overlay.research_prereqs.push(prereq("lasers", "plasma"));
    overlay.research_prereqs.push(prereq("plasma", "warp"));
    apply_mod_data(&mut base, overlay);
    assert_eq!(base.techs, vec![tech("lasers", 40), tech("plasma", 200)]);
    assert_eq!(base.research_prereqs, vec![prereq("lasers", "plasma"), prereq("plasma", "warp")]);
    assert!(base.hull_classes.is_empty());
}
