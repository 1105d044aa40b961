use suinput::action_hierarchy::{handle_sticky_bool_event, lookup_bool, StickyBoolParent};
use suinput::compound_action::BooleanEvent;

fn parent() -> StickyBoolParent {
    StickyBoolParent { combined_state: false, stuck: false, press: 2, release: 3, toggle: 4 }
}

#[test]
fn missing_states_count_as_off() {
    assert!(!lookup_bool(&[(1, true)], 2));
    assert!(lookup_bool(&[(2, true), (2, false)], 2));
}

#[test]
fn press_sticks_and_release_unsticks() {
    let mut p = parent();
    assert_eq!(handle_sticky_bool_event(1, &mut p, &[(2, true)]), Some(BooleanEvent { state: true, changed: true }));
    assert!(p.stuck);
    // the press is over but the parent stays stuck
    assert_eq!(handle_sticky_bool_event(1, &mut p, &[]), None);
    assert!(p.combined_state);
    assert_eq!(handle_sticky_bool_event(1, &mut p, &[(3, true)]), Some(BooleanEvent { state: false, changed: true }));
    assert!(!p.stuck);
}

#[test]
fn toggle_flips_and_parent_holds() {
    let mut p = parent();
    assert_eq!(handle_sticky_bool_event(1, &mut p, &[(4, true)]), Some(BooleanEvent { state: true, changed: true }));
    assert_eq!(handle_sticky_bool_event(1, &mut p, &[(4, true)]), Some(BooleanEvent { state: false, changed: true }));
    // the parent action alone drives the combined state
    assert_eq!(handle_sticky_bool_event(1, &mut p, &[(1, true)]), Some(BooleanEvent { state: true, changed: true }));
    assert!(!p.stuck);
}
