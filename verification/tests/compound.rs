use suinput::action::ChildActionType;
use suinput::compound_action::{BooleanEvent, StickyBoolState};
use suinput::input_events::{aggregate_action_bool, aggregate_bool, aggregate_bool_sources};

const ON: BooleanEvent = BooleanEvent { state: true, changed: true };
const OFF: BooleanEvent = BooleanEvent { state: false, changed: true };

#[test]
fn parent_press_and_release_pass_through() {
    let mut s = StickyBoolState::new();
    assert_eq!(s.on_action_event(ON, ChildActionType::Parent), Some(ON));
    assert!(s.get_state());
    assert_eq!(s.on_action_event(OFF, ChildActionType::Parent), Some(OFF));
    assert!(!s.get_state());
}

#[test]
fn sticky_press_latches() {
    let mut s = StickyBoolState::new();
    assert_eq!(s.on_action_event(ON, ChildActionType::StickyPress), Some(ON));
    assert_eq!(s.on_action_event(OFF, ChildActionType::StickyPress), None);
    assert!(s.get_state());
}

#[test]
fn toggle_twice_turns_off_again() {
    let mut s = StickyBoolState::new();
    assert_eq!(s.on_action_event(ON, ChildActionType::StickyToggle), Some(ON));
    assert!(s.get_state());
    assert_eq!(s.on_action_event(OFF, ChildActionType::StickyToggle), None);
    assert_eq!(s.on_action_event(ON, ChildActionType::StickyToggle), Some(OFF));
    assert!(!s.get_state());
}

#[test]
fn release_unlatches() {
    let mut s = StickyBoolState::new();
    s.on_action_event(ON, ChildActionType::StickyToggle);
    assert_eq!(s.on_action_event(ON, ChildActionType::StickyRelease), Some(OFF));
    assert!(!s.get_state());
    // a release without a latch does nothing
    assert_eq!(s.on_action_event(ON, ChildActionType::StickyRelease), None);
}

#[test]
fn held_parent_keeps_the_action_on_when_unlatched() {
    let mut s = StickyBoolState::new();
    s.on_action_event(ON, ChildActionType::Parent);
    assert_eq!(s.on_action_event(ON, ChildActionType::StickyToggle), Some(BooleanEvent { state: true, changed: false }));
    assert_eq!(s.on_action_event(ON, ChildActionType::StickyRelease), None);
    assert!(s.get_state());
}

#[test]
fn toggling_off_after_the_parent_was_released_ends_the_latch() {
    let mut s = StickyBoolState::new();
    assert_eq!(s.on_action_event(ON, ChildActionType::Parent), Some(ON));
    assert_eq!(s.on_action_event(ON, ChildActionType::StickyToggle), Some(BooleanEvent { state: true, changed: false }));
    // the parent is let go while latched: the action stays on
    assert_eq!(s.on_action_event(OFF, ChildActionType::Parent), None);
    assert!(s.get_state());
    // the second toggle ends it
    assert_eq!(s.on_action_event(ON, ChildActionType::StickyToggle), Some(OFF));
    assert!(!s.get_state());
}

#[test]
fn sticky_press_let_go_while_latched_then_released() {
    let mut s = StickyBoolState::new();
    s.on_action_event(ON, ChildActionType::StickyPress);
    assert_eq!(s.on_action_event(OFF, ChildActionType::StickyPress), None);
    assert_eq!(s.on_action_event(ON, ChildActionType::StickyRelease), Some(OFF));
    assert!(!s.get_state());
}

#[test]
fn unsticking_reports_the_release_and_keeps_the_stored_state() {
    let mut s = StickyBoolState::new();
    s.on_action_event(ON, ChildActionType::StickyToggle);
    assert_eq!(s.handle_event(), Some(OFF));
    // the combined state is reported off but not stored
    assert!(s.get_state());
    assert_eq!(s.handle_event(), None);
}

#[test]
fn boolean_aggregation() {
    assert_eq!(aggregate_bool(true, false, &[]), Some((true, true)));
    assert_eq!(aggregate_bool(true, true, &[false]), Some((true, false)));
    assert_eq!(aggregate_bool(false, true, &[false, true]), None);
    assert_eq!(aggregate_bool(false, true, &[false, false]), Some((false, true)));
    assert_eq!(aggregate_bool(false, false, &[]), Some((false, false)));
}

#[test]
fn boolean_aggregation_over_sources() {
    let sources = [(1, Some(true)), (2, None), (3, Some(false))];
    // source 1 itself is on, the others are off or unset
    assert_eq!(aggregate_bool_sources(false, Some(true), &sources, 1), Some((false, true)));
    // source 3 turning off while source 1 is on changes nothing
    assert_eq!(aggregate_bool_sources(false, Some(true), &sources, 3), None);
    assert_eq!(aggregate_bool_sources(true, None, &sources, 2), Some((true, true)));
}

#[test]
fn boolean_aggregation_across_layouts() {
    // a press fires whatever else is held
    assert_eq!(aggregate_action_bool(true, false, &[false], &[false]), Some((true, true)));
    // another binding of the same layout still holds the action
    assert_eq!(aggregate_action_bool(false, true, &[true], &[false]), None);
    // another layout still holds the action
    assert_eq!(aggregate_action_bool(false, true, &[false], &[true]), None);
    // nothing else holds it: released
    assert_eq!(aggregate_action_bool(false, true, &[false], &[false]), Some((false, true)));
}
