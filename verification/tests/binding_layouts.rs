use std::cell::RefCell;

use suinput::action::{ActionCreateInfo, ActionTypeEnum};
use suinput::binding::SimpleBinding;
use suinput::binding_layout::{binding_type, lookup_active, BindingChange, ProcessedBindingType};
use suinput::controller_paths::GameControllerPaths;
use suinput::device_type::{DeviceType, DeviceTypes, InputComponentType};
use suinput::instance::Instance;
use suinput::interaction_profile_types::InteractionProfileTypes;
use suinput::path_manager::PathManager;
use suinput::path_map::PathMap;
use suinput::paths::CommonPaths;
use suinput::types::{CreateBindingLayoutError, SuPath};

struct Env {
    paths: PathManager,
    profiles: InteractionProfileTypes,
    instance: Instance,
    common: CommonPaths,
    controller: GameControllerPaths,
    jump: u64,
    look: u64,
}

fn env() -> Env {
    let paths = RefCell::new(PathManager::new());
    let get = |s: &str| paths.borrow_mut().get_path(s).unwrap();
    let common = CommonPaths::new(&get);
    let controller = GameControllerPaths::new(&get);
    let keyboard = DeviceType { id: common.keyboard, input_components: PathMap::new() };
    let device_types = DeviceTypes::new(vec![
        keyboard,
        DeviceType::create_mouse(&common),
        DeviceType::create_cursor(&common),
        DeviceType::create_dualsense(&controller),
    ]);
    let profiles = InteractionProfileTypes::new(&device_types, &get);
    let mut instance = Instance::new(1);
    let set = instance.create_action_set("gameplay".to_string(), 1);
    let jump = instance.create_action(set, "jump".to_string(), ActionCreateInfo::Boolean { sticky: false });
    let look = instance.create_action(set, "look".to_string(), ActionCreateInfo::Delta2D);
    Env { paths: paths.into_inner(), profiles, instance, common, controller, jump, look }
}

fn bind(e: &mut Env, profile: SuPath, bindings: &[SimpleBinding]) -> Result<suinput::binding_layout::BindingLayout, CreateBindingLayoutError> {
    e.instance.create_binding_layout(&mut e.paths, &e.profiles, "layout", profile, bindings)
}

#[test]
fn button_bound_to_boolean_action() {
    let mut e = env();
    let (jump, look) = (e.jump, e.look);
    let desktop = e.paths.get_path("/interaction_profiles/standard/desktop").unwrap();
    let path = e.paths.get_path("/user/desktop/mouse/input/button_left/click").unwrap();
    let layout = bind(&mut e, desktop, &[SimpleBinding { action: jump, path }]).unwrap();
    assert_eq!(layout.name, "layout");
    assert_eq!(layout.interaction_profile, desktop);
    let user = e.paths.get_path("/user/desktop/mouse").unwrap();
    let bindings = &layout.processed_cache.bindings_index;
    assert_eq!(bindings.len(), 1);
    assert_eq!(bindings[0].ty, ProcessedBindingType::Button2Bool);
    assert_eq!(bindings[0].action, e.jump);
    assert_eq!(bindings[0].action_type, ActionTypeEnum::Boolean);
    assert_eq!(bindings[0].input_component, (user, e.common.mouse_left_click));
    assert_eq!(layout.processed_cache.bindings_for_action(e.jump), Some(&vec![0]));
    assert_eq!(layout.processed_cache.bindings_for_action(e.look), None);
    let (positions, priority) = layout.processed_cache.bindings_for_input(user, e.common.mouse_left_click).unwrap();
    assert_eq!(positions, &vec![0]);
    assert_eq!(priority, 0);
}

#[test]
fn bindings_are_listed_per_action_and_per_input() {
    let mut e = env();
    let (jump, look) = (e.jump, e.look);
    let desktop = e.paths.get_path("/interaction_profiles/standard/desktop").unwrap();
    let left = e.paths.get_path("/user/desktop/mouse/input/button_left/click").unwrap();
    let right = e.paths.get_path("/user/desktop/mouse/input/button_right/click").unwrap();
    let moved = e.paths.get_path("/user/desktop/mouse/input/move/move2d").unwrap();
    let layout = bind(
        &mut e,
        desktop,
        &[
            SimpleBinding { action: jump, path: left },
            SimpleBinding { action: look, path: moved },
            SimpleBinding { action: jump, path: right },
            SimpleBinding { action: jump, path: left },
        ],
    )
    .unwrap();
    let processed = &layout.processed_cache;
    assert_eq!(processed.bindings_index.len(), 4);
    assert_eq!(processed.bindings_index[1].ty, ProcessedBindingType::Move2d2Delta2d);
    assert_eq!(processed.bindings_for_action(e.jump), Some(&vec![0, 2, 3]));
    assert_eq!(processed.bindings_for_action(e.look), Some(&vec![1]));
    let user = e.paths.get_path("/user/desktop/mouse").unwrap();
    assert_eq!(processed.bindings_for_input(user, e.common.mouse_left_click).unwrap().0, &vec![0, 3]);
    assert_eq!(processed.bindings_for_input(user, e.common.mouse_move).unwrap().0, &vec![1]);
    assert!(processed.bindings_for_input(user, e.common.mouse_scroll).is_none());
}

#[test]
fn gamepad_button_bound_in_dualsense_profile() {
    let mut e = env();
    let (jump, look) = (e.jump, e.look);
    let profile = e.controller.interaction_profile_dualsense;
    let path = e.paths.get_path("/user/gamepad/input/shoulder_left/click").unwrap();
    let layout = bind(&mut e, profile, &[SimpleBinding { action: jump, path }]).unwrap();
    assert_eq!(layout.processed_cache.bindings_index[0].ty, ProcessedBindingType::Button2Bool);
    assert_eq!(layout.processed_cache.bindings_index[0].input_component.1, e.controller.left_shoulder);
}

#[test]
fn unknown_interaction_profile_is_refused() {
    let mut e = env();
    let (jump, look) = (e.jump, e.look);
    let unknown = e.paths.get_path("/interaction_profiles/acme/widget").unwrap();
    assert_eq!(
        bind(&mut e, unknown, &[]).err(),
        Some(CreateBindingLayoutError::BadInteractionProfilePath("/interaction_profiles/acme/widget".to_string()))
    );
    assert_eq!(bind(&mut e, SuPath(100_000), &[]).err(), Some(CreateBindingLayoutError::InvalidPathHandle(SuPath(100_000))));
}

#[test]
fn unknown_binding_path_is_refused() {
    let mut e = env();
    let (jump, look) = (e.jump, e.look);
    let desktop = e.paths.get_path("/interaction_profiles/standard/desktop").unwrap();
    let binding = SimpleBinding { action: jump, path: SuPath(100_000) };
    assert_eq!(bind(&mut e, desktop, &[binding]).err(), Some(CreateBindingLayoutError::InvalidPathHandle(SuPath(100_000))));
}

#[test]
fn user_outside_the_profile_is_refused() {
    let mut e = env();
    let (jump, look) = (e.jump, e.look);
    let desktop = e.paths.get_path("/interaction_profiles/standard/desktop").unwrap();
    let path = e.paths.get_path("/user/gamepad/input/shoulder_left/click").unwrap();
    assert_eq!(
        bind(&mut e, desktop, &[SimpleBinding { action: jump, path }]).err(),
        Some(CreateBindingLayoutError::BadUserPath("/user/gamepad".to_string()))
    );
}

#[test]
fn unknown_action_is_refused() {
    let mut e = env();
    let (jump, look) = (e.jump, e.look);
    let desktop = e.paths.get_path("/interaction_profiles/standard/desktop").unwrap();
    let path = e.paths.get_path("/user/desktop/mouse/input/button_left/click").unwrap();
    for action in [0, 3, 99] {
        assert_eq!(
            bind(&mut e, desktop, &[SimpleBinding { action, path }]).err(),
            Some(CreateBindingLayoutError::InvalidActionHandle(action))
        );
    }
}

#[test]
fn component_missing_from_the_device_is_refused() {
    let mut e = env();
    let (jump, look) = (e.jump, e.look);
    let desktop = e.paths.get_path("/interaction_profiles/standard/desktop").unwrap();
    let path = e.paths.get_path("/user/desktop/mouse/input/trigger/value").unwrap();
    assert_eq!(
        bind(&mut e, desktop, &[SimpleBinding { action: jump, path }]).err(),
        Some(CreateBindingLayoutError::BadComponentPath("/input/trigger/value".to_string()))
    );
}

#[test]
fn component_that_cannot_drive_the_action_is_refused() {
    let mut e = env();
    let (jump, look) = (e.jump, e.look);
    let desktop = e.paths.get_path("/interaction_profiles/standard/desktop").unwrap();
    let moved = e.paths.get_path("/user/desktop/mouse/input/move/move2d").unwrap();
    let binding = SimpleBinding { action: jump, path: moved };
    assert_eq!(bind(&mut e, desktop, &[binding]).err(), Some(CreateBindingLayoutError::BadBinding(binding)));
    let left = e.paths.get_path("/user/desktop/mouse/input/button_left/click").unwrap();
    let binding = SimpleBinding { action: look, path: left };
    assert_eq!(bind(&mut e, desktop, &[binding]).err(), Some(CreateBindingLayoutError::BadBinding(binding)));
}

#[test]
fn the_first_refused_binding_decides() {
    let mut e = env();
    let (jump, look) = (e.jump, e.look);
    let desktop = e.paths.get_path("/interaction_profiles/standard/desktop").unwrap();
    let left = e.paths.get_path("/user/desktop/mouse/input/button_left/click").unwrap();
    let result = bind(
        &mut e,
        desktop,
        &[
            SimpleBinding { action: jump, path: left },
            SimpleBinding { action: 77, path: left },
            SimpleBinding { action: jump, path: SuPath(100_000) },
        ],
    );
    assert_eq!(result.err(), Some(CreateBindingLayoutError::InvalidActionHandle(77)));
}

#[test]
fn splitting_interns_the_user_and_input_paths() {
    let mut e = env();
    let (jump, look) = (e.jump, e.look);
    let desktop = e.paths.get_path("/interaction_profiles/standard/desktop").unwrap();
    let path = e.paths.get_path("/user/desktop/mouse/input/button_9/click").unwrap();
    let next = e.paths.get_path("/fresh/marker").unwrap();
    let _ = bind(&mut e, desktop, &[SimpleBinding { action: jump, path }]);
    // the input path was new and was interned after the marker string
    assert_eq!(e.paths.get_path("/input/button_9/click"), Ok(SuPath(next.0 + 1)));
}

#[test]
fn binding_kinds_follow_component_and_action_types() {
    assert_eq!(binding_type(InputComponentType::Button, ActionTypeEnum::Boolean), Some(ProcessedBindingType::Button2Bool));
    assert_eq!(binding_type(InputComponentType::Button, ActionTypeEnum::Value), Some(ProcessedBindingType::Button2Value));
    assert_eq!(binding_type(InputComponentType::Trigger, ActionTypeEnum::Boolean), Some(ProcessedBindingType::Trigger2Bool));
    assert_eq!(binding_type(InputComponentType::Trigger, ActionTypeEnum::Value), Some(ProcessedBindingType::Trigger2Value));
    assert_eq!(binding_type(InputComponentType::Move2D, ActionTypeEnum::Delta2d), Some(ProcessedBindingType::Move2d2Delta2d));
    assert_eq!(binding_type(InputComponentType::Joystick, ActionTypeEnum::Axis2d), Some(ProcessedBindingType::Joystick2Axis2d));
    assert_eq!(binding_type(InputComponentType::Gyro(true), ActionTypeEnum::Delta2d), Some(ProcessedBindingType::Gyro2Delta2d));
    assert_eq!(binding_type(InputComponentType::Accel, ActionTypeEnum::Delta2d), None);
    assert_eq!(binding_type(InputComponentType::Cursor, ActionTypeEnum::Cursor), None);
    assert_eq!(binding_type(InputComponentType::Button, ActionTypeEnum::Axis1d), None);
    assert_eq!(binding_type(InputComponentType::Joystick, ActionTypeEnum::Delta2d), None);
}

#[test]
fn higher_priority_sets_take_over_shared_inputs() {
    let mut e = env();
    let (jump, look) = (e.jump, e.look);
    let _ = look;
    let set = e.instance.create_action_set("combat".to_string(), 2);
    let fire = e.instance.create_action(set, "fire".to_string(), ActionCreateInfo::Boolean { sticky: false });
    let desktop = e.paths.get_path("/interaction_profiles/standard/desktop").unwrap();
    let left = e.paths.get_path("/user/desktop/mouse/input/button_left/click").unwrap();
    let user = e.paths.get_path("/user/desktop/mouse").unwrap();
    let layout = bind(&mut e, desktop, &[SimpleBinding { action: jump, path: left }, SimpleBinding { action: fire, path: left }]).unwrap();
    let mut processed = layout.processed_cache;
    let click = e.common.mouse_left_click;

    assert_eq!(processed.enable_action(jump, 1, &[(jump, 1)]), vec![BindingChange::Activate(0)]);
    assert_eq!(processed.bindings_for_input(user, click).unwrap().1, 1);

    assert_eq!(
        processed.enable_action(fire, 2, &[(jump, 1), (fire, 2)]),
        vec![BindingChange::Interrupt(0), BindingChange::Activate(1)]
    );
    assert_eq!(processed.bindings_for_input(user, click).unwrap().1, 2);

    // the lower set cannot take the input back
    assert_eq!(processed.enable_action(jump, 1, &[(jump, 1), (fire, 2)]), vec![]);
    assert_eq!(processed.bindings_for_input(user, click).unwrap().1, 2);

    assert_eq!(processed.disable_action(fire, 2, &[(jump, 1)]), vec![BindingChange::Interrupt(1), BindingChange::Activate(0)]);
    assert_eq!(processed.bindings_for_input(user, click).unwrap().1, 1);

    assert_eq!(processed.disable_action(jump, 1, &[]), vec![BindingChange::Interrupt(0)]);
    assert_eq!(processed.bindings_for_input(user, click).unwrap().1, 0);

    // disabling an action whose inputs sit at another priority does nothing
    assert_eq!(processed.disable_action(jump, 5, &[]), vec![]);
}

#[test]
fn the_first_active_entry_counts() {
    assert_eq!(lookup_active(&[(1, 3), (2, 4), (1, 9)], 1), Some(3));
    assert_eq!(lookup_active(&[(1, 3), (2, 4)], 2), Some(4));
    assert_eq!(lookup_active(&[(1, 3)], 7), None);
}

#[test]
fn switching_action_sets_enables_then_disables() {
    let mut e = env();
    let (jump, look) = (e.jump, e.look);
    let combat = e.instance.create_action_set("combat".to_string(), 2);
    let fire = e.instance.create_action(combat, "fire".to_string(), ActionCreateInfo::Boolean { sticky: false });
    let desktop = e.paths.get_path("/interaction_profiles/standard/desktop").unwrap();
    let left = e.paths.get_path("/user/desktop/mouse/input/button_left/click").unwrap();
    let user = e.paths.get_path("/user/desktop/mouse").unwrap();
    let layout = bind(&mut e, desktop, &[SimpleBinding { action: jump, path: left }, SimpleBinding { action: fire, path: left }]).unwrap();
    let mut processed = layout.processed_cache;
    let click = e.common.mouse_left_click;
    e.instance.bake_action_set(0);
    e.instance.bake_action_set(combat);
    let gameplay_set = e.instance.get_action_set(0).unwrap();
    let combat_set = e.instance.get_action_set(combat).unwrap();

    let changes = processed.change_active_action_sets(&[], &[combat_set, gameplay_set], &[(jump, 1), (look, 1), (fire, 2)]);
    assert_eq!(changes, vec![BindingChange::Activate(1)]);
    assert_eq!(processed.bindings_for_input(user, click).unwrap().1, 2);

    let changes = processed.change_active_action_sets(&[combat_set], &[], &[(jump, 1), (look, 1)]);
    assert_eq!(changes, vec![BindingChange::Interrupt(1), BindingChange::Activate(0)]);
    assert_eq!(processed.bindings_for_input(user, click).unwrap().1, 1);
}

#[test]
fn events_reach_the_bindings_at_the_component_priority() {
    let mut e = env();
    let (jump, look) = (e.jump, e.look);
    let _ = look;
    let set = e.instance.create_action_set("combat".to_string(), 2);
    let fire = e.instance.create_action(set, "fire".to_string(), ActionCreateInfo::Boolean { sticky: false });
    let desktop = e.paths.get_path("/interaction_profiles/standard/desktop").unwrap();
    let left = e.paths.get_path("/user/desktop/mouse/input/button_left/click").unwrap();
    let user = e.paths.get_path("/user/desktop/mouse").unwrap();
    let layout = bind(&mut e, desktop, &[SimpleBinding { action: jump, path: left }, SimpleBinding { action: fire, path: left }]).unwrap();
    let mut processed = layout.processed_cache;
    let click = e.common.mouse_left_click;
    // nothing is active yet: the component sits at priority 0 but no action is active
    assert_eq!(processed.handle_component_event(user, click, &[]), Vec::<usize>::new());
    processed.enable_action(jump, 1, &[(jump, 1)]);
    assert_eq!(processed.handle_component_event(user, click, &[(jump, 1)]), vec![0]);
    processed.enable_action(fire, 2, &[(jump, 1), (fire, 2)]);
    assert_eq!(processed.handle_component_event(user, click, &[(jump, 1), (fire, 2)]), vec![1]);
    assert_eq!(processed.handle_component_event(user, e.common.mouse_right_click, &[(jump, 1), (fire, 2)]), Vec::<usize>::new());
}
