use ascenoria::data::{GameData, Tech, TechPrereq};
use ascenoria::research::{ActiveResearch, ResearchState};

fn fake_state() -> ResearchState {
    ResearchState::new(2)
}

fn assets() -> GameData {
    let mut data = GameData::empty();
    data.techs.push(Tech { id: "tech_terraforming".to_string(), research_cost: 4 });
    data.techs.push(Tech { id: "tech_advanced_terraforming".to_string(), research_cost: 9 });
    data.research_prereqs.push(TechPrereq {
        from: "tech_terraforming".to_string(),
        to: "tech_advanced_terraforming".to_string(),
    });
    data
}

#[test]
fn cycles_selection() {
    let mut state = fake_state();
    state.next(3);
    assert_eq!(state.selected, 1);
    state.prev(3);
    assert_eq!(state.selected, 0);
    state.prev(3);
    assert_eq!(state.selected, 2);
}

#[test]
fn processes_active_research() {
    let data = assets();
    let cost = data.techs().first().map(|t| t.research_cost).unwrap_or(1);
    let mut state = ResearchState::new(cost);
    state.start_selected(&data);
    let done = state.process_turn();
    assert!(done.is_some());
    assert!(state.active.is_none());
    assert_eq!(state.completed.len(), 1);
}

#[test]
fn selection_wraps_and_resets_on_empty_list() {
    let mut state = fake_state();
    state.selected = 2;
    state.next(3);
    assert_eq!(state.selected, 0);
    state.selected = 5;
    state.next(0);
    assert_eq!(state.selected, 0);
    state.selected = 5;
    state.prev(0);
    assert_eq!(state.selected, 0);
}

#[test]
fn prev_undoes_next_for_every_selection() {
    for total in 1..6usize {
        for start in 0..total {
            let mut state = fake_state();
            state.selected = start;
            state.next(total);
            assert!(state.selected < total);
            state.prev(total);
            assert_eq!(state.selected, start);
        }
    }
}

#[test]
fn new_active_research_clamps_negative_cost() {
    let a = ActiveResearch::new("x", -5);
    assert_eq!(a, ActiveResearch { id: "x".to_string(), remaining: 0, spent: 0 });
    let b = ActiveResearch::new("y", 7);
    assert_eq!(b.remaining, 7);
}

#[test]
fn research_needs_prerequisites() {
    let data = assets();
    let mut state = ResearchState::new(4);
    state.selected = 1;
    state.start_selected(&data);
    assert!(state.active.is_none());

    state.selected = 0;
    state.start_selected(&data);
    assert_eq!(state.process_turn(), Some("tech_terraforming".to_string()));

    state.selected = 1;
    state.start_selected(&data);
    let active = state.active.clone().expect("prerequisite met");
    assert_eq!(active.id, "tech_advanced_terraforming");
    assert_eq!(active.remaining, 9);
}

#[test]
fn completed_tech_is_not_restarted() {
    let data = assets();
    let mut state = ResearchState::new(4);
    state.start_selected(&data);
    assert!(state.process_turn().is_some());
    state.start_selected(&data);
    assert!(state.active.is_none());
    assert_eq!(state.completed, vec!["tech_terraforming".to_string()]);
}

#[test]
fn progress_accumulates_and_overshoot_completes() {
    let data = assets();
    let mut state = ResearchState::new(3);
    state.start_selected(&data);
    assert_eq!(state.process_turn(), None);
    let active = state.active.clone().unwrap();
    assert_eq!((active.remaining, active.spent), (1, 3));
    // This turn spends more than is left: the research completes.
    let id = state.active.clone().unwrap().id;
    assert_eq!(state.process_turn(), Some(id.clone()));
    assert!(state.active.is_none());
    assert_eq!(state.completed, vec![id]);
}

#[test]
fn cost_three_at_five_per_turn_completes_in_one_turn() {
    let mut state = ResearchState::new(5);
    state.active = Some(ActiveResearch::new("t", 3));
    assert_eq!(state.process_turn(), Some("t".to_string()));
    assert!(state.active.is_none());
    assert_eq!(state.completed, vec!["t".to_string()]);
}

#[test]
fn negative_rate_spends_nothing_and_idle_turn_does_nothing() {
    let data = assets();
    let mut state = ResearchState::new(-3);
    assert_eq!(state.process_turn(), None);
    state.start_selected(&data);
    assert_eq!(state.process_turn(), None);
    let active = state.active.clone().unwrap();
    assert_eq!((active.remaining, active.spent), (4, 0));
}

#[test]
fn selection_beyond_tech_list_starts_nothing() {
    let data = assets();
    let mut state = ResearchState::new(1);
    state.selected = 7;
    state.start_selected(&data);
    assert!(state.active.is_none());
}
