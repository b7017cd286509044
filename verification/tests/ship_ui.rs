use ascenoria::data::{GameData, HullClass, Language, LocalizedText};
use ascenoria::ship_design::{ModuleCategory, ShipDesign};
use ascenoria::ship_ui::HullSelection;

fn localized(text: &str) -> LocalizedText {
    LocalizedText { en: text.to_string(), ru: text.to_string() }
}

fn hull(id: &str, max_items: i32) -> HullClass {
    HullClass {
        id: id.to_string(),
        name: localized(id),
        description: localized("desc"),
        size_index: 1,
        max_items,
    }
}

#[test]
fn selects_first_by_default() {
    let selection = HullSelection::from_hulls(vec![hull("a", 1), hull("b", 2), hull("c", 3)]);
    assert_eq!(selection.selected_id(), Some("a"));
}

#[test]
fn cycles_selection_forward_and_backward() {
    let mut selection = HullSelection::from_hulls(vec![hull("a", 1), hull("b", 2), hull("c", 3)]);

    selection.next();
    assert_eq!(selection.selected_id(), Some("b"));
    selection.next();
    assert_eq!(selection.selected_id(), Some("c"));
    selection.next();
    assert_eq!(selection.selected_id(), Some("a"));

    selection.prev();
    assert_eq!(selection.selected_id(), Some("c"));
}

#[test]
fn renders_hull_list() {
    let selection = HullSelection::from_hulls(vec![hull("a", 1), hull("b", 2), hull("c", 3)]);
    let rendered = selection.render(Language::En);
    assert!(rendered.contains("Hull selection:"));
    assert!(rendered.contains("> a"));
    assert!(rendered.contains("max items"));
}

#[test]
fn renders_hull_list_exactly() {
    let mut first = hull("a", 1);
    first.name = LocalizedText { en: "Alpha".to_string(), ru: "Альфа".to_string() };
    let mut selection = HullSelection::from_hulls(vec![first, hull("b", -2)]);
    selection.next();
    assert_eq!(
        selection.render(Language::Ru),
        "Hull selection:\n  Альфа \u{2014} desc (max items: 1)\n> b \u{2014} desc (max items: -2)"
    );
}

#[test]
fn empty_selection_renders_notice_and_never_selects() {
    let mut selection = HullSelection::from_hulls(Vec::new());
    assert_eq!(selection.selected_id(), None);
    selection.next();
    selection.prev();
    assert_eq!(selection.selected_id(), None);
    assert_eq!(selection.render(Language::En), "Hull selection:\nNo hulls available");
}

#[test]
fn selection_from_game_data_copies_hulls() {
    let mut data = GameData::empty();
    data.hull_classes.push(hull("scout", 2));
    data.hull_classes.push(hull("cruiser", 8));
    let mut selection = HullSelection::from_game_data(&data);
    assert_eq!(selection.selected_id(), Some("scout"));
    selection.prev();
    assert_eq!(selection.selected_id(), Some("cruiser"));
}

#[test]
fn renders_slot_rows_of_four() {
    let selection = HullSelection::from_hulls(vec![hull("a", 1), hull("big", 12)]);
    let mut design = ShipDesign::new("big");
    design.add_module(ModuleCategory::Engine, "e1");
    design.add_module(ModuleCategory::Weapon, "w1");
    design.add_module(ModuleCategory::Shield, "s1");
    design.add_module(ModuleCategory::Scanner, "r1");
    design.add_module(ModuleCategory::Special, "x1");
    assert_eq!(
        selection.render_slots(&design),
        "Hull: big (used 5/12 slots)\nE:e1 | W:w1 | S:s1 | R:r1\nX:x1"
    );
}

#[test]
fn renders_empty_design_on_unknown_hull() {
    let selection = HullSelection::from_hulls(vec![hull("a", 1)]);
    let design = ShipDesign::new("ghost");
    assert_eq!(
        selection.render_slots(&design),
        "Hull: ghost (used 0/0 slots)\n<no modules installed>"
    );
}

#[test]
fn renders_exactly_four_slots_in_one_row() {
    let selection = HullSelection::from_hulls(vec![hull("a", 4)]);
    let mut design = ShipDesign::new("a");
    for id in ["1", "2", "3", "4"] {
        design.add_module(ModuleCategory::Engine, id);
    }
    assert_eq!(selection.render_slots(&design), "Hull: a (used 4/4 slots)\nE:1 | E:2 | E:3 | E:4");
}
