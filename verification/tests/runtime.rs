use std::cell::RefCell;

use suinput::action_type::{ActionType, Axis1d, Axis1dActionCreateInfo, Axis2d, BooleanActionCreateInfo, BooleanActionState, Delta2d, Value};
use suinput::action::{ActionTypeEnum, ChildActionType};
use suinput::binding::SimpleBinding;
use suinput::binding_layout::ProcessedBindingType;
use suinput::controller_paths::GameControllerPaths;
use suinput::device_type::{DeviceType, DeviceTypes};
use suinput::error::Error;
use suinput::application::ApplicationInfo;
use suinput::facade::{ApplicationInstanceCreateInfo, Inner, SuAction, SuInputRuntime};
use suinput::interaction_profile_types::InteractionProfileTypes;
use suinput::path_manager::PathManager;
use suinput::path_map::PathMap;
use suinput::paths::CommonPaths;
use suinput::runtime::{session_windows, Runtime};
use suinput::session::active_set_changes;
use suinput::types::{PathFormatError, Time};

fn runtime() -> SuInputRuntime {
    let paths = RefCell::new(PathManager::new());
    let get = |s: &str| paths.borrow_mut().get_path(s).unwrap();
    let common = CommonPaths::new(&get);
    let controller = GameControllerPaths::new(&get);
    let keyboard = DeviceType { id: common.keyboard, input_components: PathMap::new() };
    let device_types = DeviceTypes::new(vec![keyboard, DeviceType::create_mouse(&common), DeviceType::create_dualsense(&controller)]);
    let profiles = InteractionProfileTypes::new(&device_types, &get);
    SuInputRuntime(Inner::Embedded(Runtime::new(paths.into_inner(), common, controller, device_types, profiles)))
}

#[test]
fn inner_gives_the_embedded_part() {
    let embedded: Inner<u32> = Inner::Embedded(5);
    assert_eq!(embedded.get(), Some(&5));
    let foreign: Inner<u32> = Inner::FFI;
    assert_eq!(foreign.get(), None);
}

#[test]
fn instances_are_numbered_from_one() {
    let mut rt = runtime();
    let first = rt.create_instance();
    let second = rt.create_instance();
    assert_eq!(first.0.get(), Some(&1));
    assert_eq!(second.0.get(), Some(&2));
    let runtime = rt.0.get().unwrap();
    assert_eq!(runtime.instance(2).handle(), 2);
}

#[test]
fn instance_paths_and_action_sets() {
    let mut rt = runtime();
    let instance = rt.create_instance();
    let p = instance.get_path(&mut rt, "/user/desktop/mouse").unwrap();
    assert_eq!(instance.get_path(&mut rt, "/user/desktop/mouse"), Ok(p));
    assert_eq!(instance.get_path(&mut rt, "not a path"), Err(PathFormatError));
    let set = instance.create_action_set(&mut rt, "menu", 2);
    assert_eq!(set.0.get(), Some(&(1, 0)));
    let set = instance.create_action_set(&mut rt, "game", 3);
    assert_eq!(set.0.get(), Some(&(1, 1)));
    let runtime = rt.0.get().unwrap();
    assert_eq!(runtime.instance(1).get_action_set(1).unwrap().name, "game");
}

#[test]
fn instance_binding_layouts() {
    let mut rt = runtime();
    let instance = rt.create_instance();
    instance.create_action_set(&mut rt, "game", 0);
    let runtime = match &mut rt.0 {
        Inner::Embedded(r) => r,
        Inner::FFI => unreachable!(),
    };
    let action = runtime.instances[0].create_action(0, "jump".to_string(), suinput::action::ActionCreateInfo::Value);
    let desktop = instance.get_path(&mut rt, "/interaction_profiles/standard/desktop").unwrap();
    let path = instance.get_path(&mut rt, "/user/desktop/mouse/input/button_middle/click").unwrap();
    let layout = instance.create_binding_layout(&mut rt, "default", desktop, &[SimpleBinding { action, path }]).unwrap();
    let layout = layout.0.get().unwrap();
    assert_eq!(layout.name, "default");
    assert_eq!(layout.processed_cache.bindings_index[0].ty, ProcessedBindingType::Button2Value);
    let err = instance.create_binding_layout(&mut rt, "broken", desktop, &[SimpleBinding { action: 9, path }]);
    assert!(err.is_err());
}

#[test]
fn new_instances_start_without_actions() {
    let mut rt = runtime();
    rt.create_instance();
    let runtime = rt.0.get().unwrap();
    assert!(runtime.instance(1).get_action(1).is_none());
    assert!(runtime.instance(1).get_action_set(0).is_none());
}

#[test]
fn trying_a_layout_reports_paths_without_input() {
    let mut rt = runtime();
    let instance = rt.create_instance();
    instance.create_action_set(&mut rt, "game", 0);
    let runtime = match &mut rt.0 {
        Inner::Embedded(r) => r,
        Inner::FFI => unreachable!(),
    };
    let action = runtime.instances[0].create_action(0, "jump".to_string(), suinput::action::ActionCreateInfo::Value);
    let desktop = instance.get_path(&mut rt, "/interaction_profiles/standard/desktop").unwrap();
    let user = instance.get_path(&mut rt, "/user/desktop/mouse").unwrap();
    let tried = instance.try_create_binding_layout(&mut rt, "stuck", desktop, &[SimpleBinding { action, path: user }]);
    assert!(tried.is_none());
    let path = instance.get_path(&mut rt, "/user/desktop/mouse/input/button_middle/click").unwrap();
    let tried = instance.try_create_binding_layout(&mut rt, "default", desktop, &[SimpleBinding { action, path }]);
    let layout = tried.unwrap().unwrap();
    assert_eq!(layout.0.get().unwrap().name, "default");
    let tried = instance.try_create_binding_layout(&mut rt, "broken", desktop, &[SimpleBinding { action: 9, path }]);
    assert!(tried.unwrap().is_err());
}

#[test]
fn application_instances_share_layouts_and_bake_sets() {
    let mut rt = runtime();
    let instance = rt.create_instance();
    let menu = instance.create_action_set(&mut rt, "menu", 0);
    let game = instance.create_action_set(&mut rt, "game", 1);
    let runtime = match &mut rt.0 {
        Inner::Embedded(r) => r,
        Inner::FFI => unreachable!(),
    };
    let jump = runtime.instances[0].create_action(1, "jump".to_string(), suinput::action::ActionCreateInfo::Value);
    let desktop = instance.get_path(&mut rt, "/interaction_profiles/standard/desktop").unwrap();
    let path = instance.get_path(&mut rt, "/user/desktop/mouse/input/button_middle/click").unwrap();
    let layout = instance.create_binding_layout(&mut rt, "default", desktop, &[SimpleBinding { action: jump, path }]).unwrap();
    let app = ApplicationInfo { name: "demo" };
    let info = ApplicationInstanceCreateInfo {
        application_info: &app,
        sub_name: None,
        action_sets: &[&game, &menu],
        binding_layouts: &[&layout],
    };
    let created = instance.create_application_instance(&mut rt, &info);
    let created = created.0.get().unwrap();
    assert_eq!(created.application_name, "demo");
    assert_eq!(created.actions, vec![jump]);
    assert_eq!(created.binding_layouts.len(), 1);
    assert_eq!(created.binding_layouts[0].name, "default");
    assert!(std::sync::Arc::ptr_eq(&created.binding_layouts[0], layout.0.get().unwrap()));
    let runtime = rt.0.get().unwrap();
    assert_eq!(runtime.instance(1).get_action_set(1).unwrap().baked_actions, Some(vec![jump]));
    assert_eq!(runtime.instance(1).get_action_set(0).unwrap().baked_actions, Some(vec![]));
}

#[test]
fn error_codes() {
    assert_eq!(Error::RuntimeFailure.code(), -1);
    assert_eq!(Error::ValidationFailure.code(), -2);
    assert_eq!(Error::IoError.code(), -3);
}

#[test]
fn action_type_data_types() {
    assert_eq!(<bool as ActionType>::action_type(), ActionTypeEnum::Boolean);
    assert_eq!(<Value as ActionType>::action_type(), ActionTypeEnum::Value);
    assert_eq!(<Delta2d as ActionType>::action_type(), ActionTypeEnum::Delta2d);
    assert_eq!(<Axis1d as ActionType>::action_type(), ActionTypeEnum::Axis1d);
    assert_eq!(<Axis2d as ActionType>::action_type(), ActionTypeEnum::Axis2d);
    let state = BooleanActionState::default();
    assert!(!state.current_state && !state.changed_since_last_sync && !state.is_active);
    assert_eq!(state.last_changed_time, Time(0));
}

#[test]
fn active_set_changes_are_ordered() {
    // disabling goes from the lowest priority up, enabling from the highest
    // down; the handle breaks ties
    let (disabling, enabling) = active_set_changes(&[(3, 5), (1, 9), (7, 0)], &[(7, 0), (2, 1), (9, 1), (4, 8)]);
    assert_eq!(disabling, vec![(3, 5), (1, 9)]);
    assert_eq!(enabling, vec![(4, 8), (9, 1), (2, 1)]);
    let (disabling, _) = active_set_changes(&[(6, 2), (5, 2), (1, 3)], &[]);
    assert_eq!(disabling, vec![(5, 2), (6, 2), (1, 3)]);
    let (disabling, enabling) = active_set_changes(&[(4, 1), (5, 2)], &[(5, 2), (4, 1)]);
    assert!(disabling.is_empty() && enabling.is_empty());
}

#[test]
fn action_sets_create_typed_actions() {
    let mut rt = runtime();
    let instance = rt.create_instance();
    let set = instance.create_action_set(&mut rt, "game", 0);
    let aim: SuAction<Value> = set.create_action(&mut rt, "aim", ());
    assert_eq!(aim.handle(), 1);
    let crouch: SuAction<bool> = set.create_action(&mut rt, "crouch", BooleanActionCreateInfo { sticky: true });
    assert_eq!(crouch.handle(), 5);
    assert_eq!(crouch.get_child_action(&rt, ChildActionType::StickyPress), 2);
    assert_eq!(crouch.get_child_action(&rt, ChildActionType::StickyToggle), 4);
    let walk: SuAction<Axis1d> =
        set.create_action(&mut rt, "walk", Axis1dActionCreateInfo { positive: Some("forward".to_string()), negative: None });
    assert_eq!(walk.handle(), 8);
    assert_eq!(walk.get_child_action(&rt, ChildActionType::Negative), 7);
    let runtime = rt.0.get().unwrap();
    assert_eq!(runtime.instance(1).get_action(6).unwrap().name, "forward");
    assert_eq!(runtime.instance(1).get_action_set(0).unwrap().actions, vec![1, 2, 3, 4, 5, 6, 7, 8]);
}

#[test]
fn drivers_hear_each_session_window_once() {
    assert_eq!(session_windows(&[Some(3), None, Some(1), Some(3), Some(2), Some(1)]), vec![3, 1, 2]);
    assert!(session_windows(&[None, None]).is_empty());
    assert!(session_windows(&[]).is_empty());
}
