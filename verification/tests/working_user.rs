use suinput::action::{ActionCompoundType, ActionCreateInfo, ChildActionType, ParentActionType as Compound};
use suinput::instance::Instance;
use suinput::serial::ParentActionType;
use suinput::working_user::{route_action_event, WorkingActionState, WorkingUser};

#[test]
fn working_user_takes_baked_actions_with_their_set_priority() {
    let mut instance = Instance::new(1);
    let menu = instance.create_action_set("menu".to_string(), 1);
    let game = instance.create_action_set("game".to_string(), 4);
    let select = instance.create_action(menu, "select".to_string(), ActionCreateInfo::Value);
    let crouch = instance.create_action(game, "crouch".to_string(), ActionCreateInfo::Boolean { sticky: true });
    instance.bake_action_set(menu);
    instance.bake_action_set(game);
    let sets = [instance.get_action_set(game).unwrap(), instance.get_action_set(menu).unwrap()];
    let user = WorkingUser::new(&instance, &sets);
    assert_eq!(user.action_states.len(), 5);
    assert_eq!(user.action_states[3], WorkingActionState { action: crouch, action_set: game, priority: 4 });
    assert_eq!(user.action_states[4], WorkingActionState { action: select, action_set: menu, priority: 1 });
    assert_eq!(user.compound_kinds, vec![(crouch, ParentActionType::StickyBool)]);
    assert_eq!(user.get_action_priority(select), Some(1));
    assert_eq!(user.get_action_priority(crouch), Some(4));
    assert_eq!(user.get_action_priority(99), None);
    let active = user.active_priorities(&[game, menu]);
    assert_eq!(active[4], (select, 1));
    assert_eq!(active.len(), 5);
    assert_eq!(user.active_priorities(&[menu]), vec![(select, 1)]);
    assert!(user.active_priorities(&[]).is_empty());
}

#[test]
fn action_events_are_routed_to_their_compound_parent() {
    let child = ActionCompoundType::Child { parent: 5, ty: ChildActionType::StickyToggle };
    assert_eq!(route_action_event(child, 4), (5, Some((5, ChildActionType::StickyToggle))));
    let parent = ActionCompoundType::Parent { ty: Compound::Axis1d { positive: 6, negative: 7 } };
    assert_eq!(route_action_event(parent, 8), (8, Some((8, ChildActionType::Parent))));
    assert_eq!(route_action_event(ActionCompoundType::Single, 3), (3, None));
}
