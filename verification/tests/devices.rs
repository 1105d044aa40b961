use std::cell::RefCell;

use suinput::controller_paths::GameControllerPaths;
use suinput::device_config::{component_input, deserialize, Component, Device, Identifier};
use suinput::device_type::{DeviceType, DeviceTypes, InputComponentType};
use suinput::interaction_profile::invert;
use suinput::interaction_profile_state::InteractionProfileState;
use suinput::interaction_profile_type::{ComponentLookup, InteractionProfileType};
use suinput::interaction_profile_types::InteractionProfileTypes;
use suinput::path_manager::PathManager;
use suinput::path_map::PathMap;
use suinput::paths::CommonPaths;
use suinput::session::interaction_profile_for_device;
use suinput::types::SuPath;

fn paths() -> RefCell<PathManager> {
    RefCell::new(PathManager::new())
}

#[test]
fn mouse_has_five_buttons_and_two_movements() {
    let p = paths();
    let get = |s: &str| p.borrow_mut().get_path(s).unwrap();
    let common = CommonPaths::new(&get);
    let mouse = DeviceType::create_mouse(&common);
    assert_eq!(mouse.id, get("/devices/standard/generic_mouse"));
    assert_eq!(mouse.input_components.len(), 7);
    assert_eq!(mouse.input_components.get(common.mouse_left_click), Some(&InputComponentType::Button));
    assert_eq!(mouse.input_components.get(common.mouse_button5_click), Some(&InputComponentType::Button));
    assert_eq!(mouse.input_components.get(common.mouse_scroll), Some(&InputComponentType::Move2D));
    assert_eq!(mouse.input_components.get(common.cursor_point), None);
    let cursor = DeviceType::create_cursor(&common);
    assert_eq!(cursor.input_components.get(common.cursor_point), Some(&InputComponentType::Cursor));
}

#[test]
fn later_device_type_replaces_earlier_one_with_the_same_path() {
    let p = paths();
    let get = |s: &str| p.borrow_mut().get_path(s).unwrap();
    let common = CommonPaths::new(&get);
    let bare_mouse = DeviceType { id: common.mouse, input_components: PathMap::new() };
    let types = DeviceTypes::new(vec![bare_mouse, DeviceType::create_mouse(&common)]);
    assert_eq!(types.get(common.mouse).unwrap().input_components.len(), 7);
    let types = DeviceTypes::new(vec![DeviceType::create_mouse(&common), DeviceType { id: common.mouse, input_components: PathMap::new() }]);
    assert_eq!(types.get(common.mouse).unwrap().input_components.len(), 0);
    assert!(types.get(common.keyboard).is_none());
}

#[test]
fn builtin_profiles_serve_their_users() {
    let p = paths();
    let get = |s: &str| p.borrow_mut().get_path(s).unwrap();
    let common = CommonPaths::new(&get);
    let controller = GameControllerPaths::new(&get);
    let keyboard = DeviceType { id: common.keyboard, input_components: PathMap::new() };
    let types = DeviceTypes::new(vec![keyboard, DeviceType::create_mouse(&common), DeviceType::create_dualsense(&controller)]);
    let desktop = InteractionProfileType::new_desktop_profile(&types, &get);
    let mouse_user = get("/user/desktop/mouse");
    let keyboard_user = get("/user/desktop/keyboard");
    assert_eq!(desktop.id, get("/interaction_profiles/standard/desktop"));
    assert!(desktop.has_user(mouse_user));
    assert!(desktop.has_user(keyboard_user));
    assert!(!desktop.has_user(get("/user/gamepad")));
    assert_eq!(desktop.get_component_type(mouse_user, common.mouse_move), Some(InputComponentType::Move2D));
    assert_eq!(desktop.get_component_type(keyboard_user, common.mouse_move), None);
    assert_eq!(desktop.lookup_component(keyboard_user, common.mouse_move), ComponentLookup::NoComponent);
    assert_eq!(desktop.lookup_component(get("/user/x"), common.mouse_move), ComponentLookup::NoUser);
    assert_eq!(desktop.device2user.get(common.mouse), Some(&vec![mouse_user]));

    let profiles = InteractionProfileTypes::new(&types, &get);
    let dualsense = controller.interaction_profile_dualsense;
    assert!(profiles.contains(dualsense));
    assert!(profiles.contains(desktop.id));
    assert!(!profiles.contains(common.mouse));
    let gamepad = get("/user/gamepad");
    assert_eq!(profiles.has_user(dualsense, gamepad), Some(true));
    assert_eq!(profiles.has_user(desktop.id, gamepad), Some(false));
    assert_eq!(profiles.has_user(common.mouse, gamepad), None);
    assert_eq!(
        profiles.lookup_component(dualsense, gamepad, controller.left_shoulder),
        Some(ComponentLookup::Found(InputComponentType::Button))
    );
}

#[test]
fn inverting_collects_the_users_of_each_device() {
    let mut u2d = PathMap::new();
    u2d.insert(SuPath(10), SuPath(1));
    u2d.insert(SuPath(11), SuPath(2));
    u2d.insert(SuPath(12), SuPath(1));
    let d2u = invert(&u2d);
    assert_eq!(d2u.get(SuPath(1)), Some(&vec![SuPath(10), SuPath(12)]));
    assert_eq!(d2u.get(SuPath(2)), Some(&vec![SuPath(11)]));
    assert_eq!(d2u.get(SuPath(3)), None);
}

#[test]
fn configured_components_that_become_inputs() {
    let button = Component::Button("a".to_string());
    assert_eq!(component_input(&button), Some((InputComponentType::Button, &"a".to_string())));
    let cursor = Component::Cursor("point".to_string());
    assert_eq!(component_input(&cursor), Some((InputComponentType::Cursor, &"point".to_string())));
    let mv = Component::Move2d("move".to_string());
    assert_eq!(component_input(&mv), Some((InputComponentType::Move2D, &"move".to_string())));
    assert_eq!(component_input(&Component::Trigger("l2".to_string())), None);
    assert_eq!(component_input(&Component::Gyro("gyro".to_string(), true)), None);
    assert_eq!(component_input(&Component::Touchpad("pad".to_string(), 2, true)), None);
}

#[test]
fn path_map_keeps_one_value_per_key() {
    let mut m = PathMap::new();
    m.insert(SuPath(1), 'a');
    m.insert(SuPath(2), 'b');
    m.insert(SuPath(1), 'c');
    assert_eq!(m.len(), 2);
    assert_eq!(m.get(SuPath(1)), Some(&'c'));
    assert!(m.contains_key(SuPath(2)));
    assert!(!m.contains_key(SuPath(3)));
    assert_eq!(m.entry(0), &(SuPath(1), 'c'));
    let copy = m.duplicate();
    assert_eq!(copy.get(SuPath(2)), Some(&'b'));
}

#[test]
fn configured_devices_become_device_types() {
    let devices = vec![
        Device {
            vendor: "sony".to_string(),
            name: "dualsense".to_string(),
            identifiers: vec![
                Identifier {
                    name: "button".to_string(),
                    components: vec![
                        Component::Button("a".to_string()),
                        Component::Trigger("l2".to_string()),
                        Component::Button("b".to_string()),
                    ],
                },
                Identifier { name: "cursor".to_string(), components: vec![Component::Cursor("point".to_string())] },
            ],
        },
        Device {
            vendor: "acme".to_string(),
            name: "pad".to_string(),
            identifiers: vec![Identifier { name: "stick".to_string(), components: vec![Component::Move2d("move".to_string())] }],
        },
    ];
    let mut paths = PathManager::new();
    let types = deserialize(&devices, &mut paths);
    assert_eq!(types.len(), 2);
    assert_eq!(paths.get_path_string(types[0].id).as_deref(), Some("/devices/sony/dualsense"));
    assert_eq!(types[0].id, SuPath(0));
    let a = paths.get_path("/input/button/a").unwrap();
    let b = paths.get_path("/input/button/b").unwrap();
    let point = paths.get_path("/input/cursor/point").unwrap();
    assert_eq!((a, b, point), (SuPath(1), SuPath(2), SuPath(3)));
    assert_eq!(types[0].input_components.len(), 3);
    assert_eq!(types[0].input_components.get(b), Some(&InputComponentType::Button));
    assert_eq!(types[0].input_components.get(point), Some(&InputComponentType::Cursor));
    assert_eq!(types[1].id, SuPath(4));
    let mv = paths.get_path("/input/stick/move").unwrap();
    assert_eq!(types[1].input_components.get(mv), Some(&InputComponentType::Move2D));
    assert_eq!(paths.len(), 6);
}

#[test]
fn added_devices_serve_the_users_of_their_type() {
    let p = paths();
    let get = |s: &str| p.borrow_mut().get_path(s).unwrap();
    let common = CommonPaths::new(&get);
    let keyboard = DeviceType { id: common.keyboard, input_components: PathMap::new() };
    let types = DeviceTypes::new(vec![keyboard, DeviceType::create_mouse(&common)]);
    let desktop = InteractionProfileType::new_desktop_profile(&types, &get);
    let mouse_user = get("/user/desktop/mouse");
    let keyboard_user = get("/user/desktop/keyboard");
    let mut state = InteractionProfileState::new(desktop);
    assert!(state.users_of_device(7).is_empty());
    state.device_added(7, common.mouse);
    state.device_added(8, common.keyboard);
    state.device_added(9, get("/devices/sony/dualsense"));
    state.device_added(7, common.mouse);
    assert_eq!(state.users_of_device(7), vec![mouse_user]);
    assert_eq!(state.users_of_device(8), vec![keyboard_user]);
    assert!(state.users_of_device(9).is_empty());
    assert_eq!(state.devices.get(mouse_user), Some(&vec![7]));
}

#[test]
fn keyboard_has_one_button_per_key() {
    let p = paths();
    let get = |s: &str| p.borrow_mut().get_path(s).unwrap();
    let common = CommonPaths::new(&get);
    let a = get("/input/key_a/click");
    let b = get("/input/key_b/click");
    let keyboard = DeviceType::create_keyboard(&common, &[a, b, a]);
    assert_eq!(keyboard.id, common.keyboard);
    assert_eq!(keyboard.input_components.len(), 2);
    assert_eq!(keyboard.input_components.get(a), Some(&InputComponentType::Button));
    assert_eq!(keyboard.input_components.get(b), Some(&InputComponentType::Button));
    assert_eq!(keyboard.input_components.get(common.mouse_move), None);
}

#[test]
fn registered_devices_join_their_interaction_profile() {
    let p = paths();
    let get = |s: &str| p.borrow_mut().get_path(s).unwrap();
    let common = CommonPaths::new(&get);
    let controller = GameControllerPaths::new(&get);
    for ty in [common.keyboard, common.mouse, common.system_cursor] {
        assert_eq!(interaction_profile_for_device(&common, &controller, ty), common.desktop);
    }
    assert_eq!(
        interaction_profile_for_device(&common, &controller, controller.device_dual_sense),
        controller.interaction_profile_dualsense
    );
}
