use suinput::action::{ActionCompoundType, ActionCreateInfo, ActionTypeEnum, ChildActionType, ParentActionType};
use suinput::action_type::{Axis1dActionCreateInfo, Axis2dActionCreateInfo, BooleanActionCreateInfo};
use suinput::application::ApplicationInfo;
use suinput::instance::Instance;
use suinput::serial::ParentActionType as SerialParent;

#[test]
fn action_sets_are_numbered_from_zero() {
    let mut instance = Instance::new(7);
    assert_eq!(instance.handle(), 7);
    assert_eq!(instance.create_action_set("menu".to_string(), 3), 0);
    assert_eq!(instance.create_action_set("game".to_string(), 5), 1);
    let set = instance.get_action_set(1).unwrap();
    assert_eq!(set.name, "game");
    assert_eq!(set.default_priority, 5);
    assert!(instance.get_action_set(2).is_none());
    assert_eq!(instance.action_set_count(), 2);
}

#[test]
fn actions_are_numbered_from_one() {
    let mut instance = Instance::new(1);
    let set = instance.create_action_set("game".to_string(), 0);
    assert_eq!(instance.create_action(set, "jump".to_string(), ActionCreateInfo::Boolean { sticky: false }), 1);
    assert_eq!(instance.create_action(set, "aim".to_string(), ActionCreateInfo::Value), 2);
    assert!(instance.get_action(0).is_none());
    assert!(instance.get_action(3).is_none());
    let aim = instance.get_action(2).unwrap();
    assert_eq!(aim.name, "aim");
    assert_eq!(aim.data_type, ActionTypeEnum::Value);
    assert_eq!(aim.compound, ActionCompoundType::Single);
    assert_eq!(instance.get_action_set(set).unwrap().actions, vec![1, 2]);
}

#[test]
fn sticky_boolean_creates_its_children_first() {
    let mut instance = Instance::new(1);
    let set = instance.create_action_set("game".to_string(), 0);
    let crouch = instance.create_action(set, "crouch".to_string(), ActionCreateInfo::Boolean { sticky: true });
    assert_eq!(crouch, 4);
    let parent = instance.get_action(4).unwrap();
    assert_eq!(
        parent.compound,
        ActionCompoundType::Parent {
            ty: ParentActionType::StickyBool { sticky_press: 1, sticky_release: 2, sticky_toggle: 3 }
        }
    );
    assert_eq!(parent.get_child_action(ChildActionType::StickyToggle), 3);
    let release = instance.get_action(2).unwrap();
    assert_eq!(release.name, "sticky_release");
    assert_eq!(release.compound, ActionCompoundType::Child { parent: 4, ty: ChildActionType::StickyRelease });
    assert_eq!(instance.get_action_set(set).unwrap().actions, vec![1, 2, 3, 4]);
}

#[test]
fn axis_children_take_given_or_default_names() {
    let mut instance = Instance::new(1);
    let set = instance.create_action_set("game".to_string(), 0);
    let info = Axis1dActionCreateInfo { positive: Some("forward".to_string()), negative: None };
    let walk = instance.create_action(set, "walk".to_string(), info.into_create_info());
    assert_eq!(walk, 3);
    assert_eq!(instance.get_action(1).unwrap().name, "forward");
    assert_eq!(instance.get_action(2).unwrap().name, "negative");
    assert_eq!(instance.get_action(3).unwrap().get_child_action(ChildActionType::Negative), 2);

    let info = Axis2dActionCreateInfo { left: Some("strafe_left".to_string()), ..Default::default() };
    let mv = instance.create_action(set, "move".to_string(), info.into_create_info());
    assert_eq!(mv, 10);
    let names: Vec<String> = (4..=9).map(|h| instance.get_action(h).unwrap().name.clone()).collect();
    assert_eq!(names, vec!["up", "down", "strafe_left", "right", "vertical", "horizontal"]);
    assert_eq!(instance.get_action(8).unwrap().data_type, ActionTypeEnum::Axis1d);
    assert_eq!(instance.get_action(10).unwrap().get_child_action(ChildActionType::Horizontal), 9);
    assert_eq!(instance.action_count(), 10);
}

#[test]
fn boolean_create_info_without_stickiness_makes_one_action() {
    let mut instance = Instance::new(1);
    let set = instance.create_action_set("game".to_string(), 0);
    let info = BooleanActionCreateInfo::default();
    assert_eq!(info.into_create_info(), ActionCreateInfo::Boolean { sticky: false });
    assert_eq!(instance.create_action(set, "fire".to_string(), info.into_create_info()), 1);
    assert_eq!(instance.action_count(), 1);
}

#[test]
fn application_instances_take_baked_actions() {
    let mut instance = Instance::new(1);
    let menu = instance.create_action_set("menu".to_string(), 0);
    let game = instance.create_action_set("game".to_string(), 1);
    let select = instance.create_action(menu, "select".to_string(), ActionCreateInfo::Boolean { sticky: false });
    let jump = instance.create_action(game, "jump".to_string(), ActionCreateInfo::Boolean { sticky: false });
    let app = ApplicationInfo { name: "demo" };
    let first = instance.create_application_instance(&app, Some("level"), &[game, menu, game], Vec::new());
    assert_eq!(first.application_name, "demo");
    assert_eq!(first.sub_name.as_deref(), Some("level"));
    let mut sets = first.action_sets.clone();
    sets.sort();
    assert_eq!(sets, vec![menu, game]);
    let mut actions = first.actions.clone();
    actions.sort();
    assert_eq!(actions, vec![select, jump]);
    assert_eq!(instance.get_action_set(game).unwrap().baked_actions, Some(vec![jump]));

    // actions created after baking are not taken by later application instances
    let run = instance.create_action(game, "run".to_string(), ActionCreateInfo::Value);
    assert_eq!(instance.get_action_set(game).unwrap().actions, vec![jump, run]);
    let second = instance.create_application_instance(&app, None, &[game], Vec::new());
    assert_eq!(second.actions, vec![jump]);
    assert!(second.sub_name.is_none());
    assert_eq!(instance.bake_action_set(menu), vec![select]);
}

#[test]
fn actions_serialize_without_their_children() {
    let mut instance = Instance::new(1);
    let set = instance.create_action_set("game".to_string(), 0);
    instance.create_action(set, "crouch".to_string(), ActionCreateInfo::Boolean { sticky: true });
    instance.create_action(set, "aim".to_string(), ActionCreateInfo::Value);
    assert!(instance.get_action(1).unwrap().serialize().is_none());
    let crouch = instance.get_action(4).unwrap();
    let stored = crouch.serialize().unwrap();
    assert_eq!(stored.name, "crouch");
    assert_eq!(stored.data_type, ActionTypeEnum::Boolean);
    assert_eq!(stored.parent_type, Some(SerialParent::StickyBool));
    let aim = instance.get_action(5).unwrap();
    let stored = aim.serialize().unwrap();
    assert_eq!(stored.name, "aim");
    assert_eq!(stored.data_type, ActionTypeEnum::Value);
    assert_eq!(stored.parent_type, None);
}
