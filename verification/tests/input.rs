use suinput::activator::{ButtonActivatorSystem, Cycle, LongHoldActivator, RunTest, TripleTapActivator};
use suinput::keyboard::{raw_input_to_hid_scancode, HIDScanCode};
use suinput::raw_input::{
    key_flags, message_name, process_mouse, ri_device_type, DeviceChange, KeyboardEvent, KeyboardStates, MouseButton, MouseEvent,
    RIDeviceInfo, RawInputDevices,
};
use suinput::types::Time;

#[test]
fn plain_and_extended_make_codes() {
    assert_eq!(raw_input_to_hid_scancode(0x01, false, 0, false), Ok(Some(HIDScanCode::Escape)));
    assert_eq!(raw_input_to_hid_scancode(0x10, false, 0, false), Ok(Some(HIDScanCode::Q)));
    assert_eq!(raw_input_to_hid_scancode(0x1C, true, 0, false), Ok(Some(HIDScanCode::KeypadEnter)));
    assert_eq!(raw_input_to_hid_scancode(0x48, true, 0, false), Ok(Some(HIDScanCode::Up)));
}

#[test]
fn fake_keys_give_no_scan_code() {
    assert_eq!(raw_input_to_hid_scancode(0, false, 0, false), Ok(None));
    // fake shift of an extended key
    assert_eq!(raw_input_to_hid_scancode(0x2A, true, 0, false), Ok(None));
    // the control that Alt Gr simulates
    assert_eq!(raw_input_to_hid_scancode(0x38, true, 0x11, false), Ok(None));
    assert_eq!(raw_input_to_hid_scancode(0x38, true, 0x12, false), Ok(Some(HIDScanCode::RightAlt)));
}

#[test]
fn pause_is_left_control_with_e1() {
    assert_eq!(raw_input_to_hid_scancode(0x1D, false, 0, true), Ok(Some(HIDScanCode::Pause)));
    assert_eq!(raw_input_to_hid_scancode(0x1D, false, 0, false), Ok(Some(HIDScanCode::LeftControl)));
}

#[test]
fn relative_mouse_input_decodes_in_order() {
    let events = process_mouse(0, 3, -2, 0x0001 | 0x0008 | 0x0400, 120);
    assert_eq!(
        events,
        vec![
            MouseEvent::Move { x: 3, y: -2 },
            MouseEvent::Press(MouseButton::Left),
            MouseEvent::Release(MouseButton::Right),
            MouseEvent::Scroll(120),
        ]
    );
    assert_eq!(process_mouse(0, 0, 0, 0, 0), vec![]);
    assert_eq!(process_mouse(0, 0, 0, 0x0800, 0xFF88), vec![MouseEvent::HorizontalScroll(-120)]);
    // a down bit wins over the up bit of the same button
    assert_eq!(process_mouse(0, 0, 0, 0x0100 | 0x0200, 0), vec![MouseEvent::Press(MouseButton::Button5)]);
}

#[test]
fn keyboard_flags_and_states() {
    assert_eq!(key_flags(0), (true, false, false));
    assert_eq!(key_flags(0x01 | 0x04), (false, false, true));
    assert_eq!(key_flags(0x02), (true, true, false));
    let mut states = KeyboardStates::new();
    assert_eq!(states.on_key(1, HIDScanCode::Q, true), Some(KeyboardEvent::Press(HIDScanCode::Q)));
    assert_eq!(states.on_key(1, HIDScanCode::Q, true), None);
    assert_eq!(states.on_key(2, HIDScanCode::Q, true), Some(KeyboardEvent::Press(HIDScanCode::Q)));
    assert_eq!(states.on_key(1, HIDScanCode::Q, false), Some(KeyboardEvent::Release(HIDScanCode::Q)));
    assert_eq!(states.on_key(1, HIDScanCode::Q, true), None);
}

#[test]
fn device_kinds_and_message_names() {
    let mouse = RIDeviceInfo::Mouse { id_properties: 0, number_of_buttons: 5, sample_rate: 0, has_horizontal_wheel: true };
    assert_eq!(ri_device_type(&mouse), "standard_mouse/mouse");
    let keyboard = RIDeviceInfo::Keyboard {
        keyboard_type: 4,
        sub_type: 0,
        scan_code_mode: 1,
        number_of_function_keys: 12,
        number_of_indicators: 3,
        number_of_keys: 101,
    };
    assert_eq!(ri_device_type(&keyboard), "standard_keyboard/keyboard");
    assert_eq!(message_name(0x0006), "WM_ACTIVATE");
    assert_eq!(message_name(0x0319), "WM_APPCOMMAND");
    assert_eq!(message_name(0x0100), "WM_CHAR");
    assert_eq!(message_name(0x9999), "Unknown");
}

#[test]
fn raw_input_devices_are_announced_once_and_forgotten_on_departure() {
    let mouse = RIDeviceInfo::Mouse { id_properties: 0, number_of_buttons: 5, sample_rate: 0, has_horizontal_wheel: true };
    let hid = RIDeviceInfo::GenericHID { vendor_id: 1, product_id: 2, version_number: 3, usage_page: 1, usage: 6 };
    let mut devices = RawInputDevices::new();
    assert!(!devices.contains(7));
    assert_eq!(devices.on_arrival(7, mouse), DeviceChange::Activated { device: 7, info: mouse });
    assert!(devices.contains(7));
    // Already announced: nothing more.
    assert_eq!(devices.on_input(7, mouse), None);
    // Handle 0 is never announced.
    assert_eq!(devices.on_input(0, hid), None);
    assert!(!devices.contains(0));
    // Input from an unannounced device announces it.
    assert_eq!(devices.on_input(9, hid), Some(DeviceChange::Activated { device: 9, info: hid }));
    assert!(devices.contains(9));
    assert_eq!(devices.on_input(9, hid), None);
    assert_eq!(devices.on_departure(7), DeviceChange::Deactivated { device: 7 });
    assert!(!devices.contains(7));
    assert!(devices.contains(9));
    // A device that comes back is announced again.
    assert_eq!(devices.on_input(7, mouse), Some(DeviceChange::Activated { device: 7, info: mouse }));
    assert!(devices.contains(7));
}

fn cycle(press: u64, release: Option<u64>) -> Cycle {
    Cycle { press_time: Time(press), release_time: release.map(Time) }
}

#[test]
fn triple_tap_tests() {
    let activator = TripleTapActivator { max_duration: Time(10), active: false };
    assert_eq!(activator.test_event(&[cycle(0, None)]), RunTest::MightRun);
    // the second cycle is still within the duration
    assert_eq!(activator.test_event(&[cycle(0, Some(2)), cycle(5, None)]), RunTest::MightRun);
    assert_eq!(activator.test_event(&[cycle(0, Some(2)), cycle(5, Some(10))]), RunTest::MightRun);
    assert_eq!(activator.test_event(&[cycle(0, Some(2)), cycle(5, Some(11))]), RunTest::CannotRun);
    // the third press within the duration runs; later it is cancelled
    assert_eq!(activator.test_event(&[cycle(0, Some(1)), cycle(2, Some(3)), cycle(10, None)]), RunTest::CanRun);
    assert_eq!(activator.test_event(&[cycle(0, Some(1)), cycle(2, Some(3)), cycle(11, None)]), RunTest::CannotRun);
    assert_eq!(activator.test_tick(&[cycle(0, None)], Time(10)), RunTest::MightRun);
    assert_eq!(activator.test_tick(&[cycle(0, None)], Time(11)), RunTest::CannotRun);
    assert_eq!(activator.test_tick(&[cycle(0, Some(1)), cycle(2, Some(3)), cycle(4, None)], Time(11)), RunTest::CanRun);
}

#[test]
fn long_hold_activates_once_held_long_enough() {
    let mut hold = LongHoldActivator { min_hold_dir: Time(5), last_press_time: None, active: false };
    hold.tick(Time(1));
    assert!(!hold.active);
    hold.on_event(true, Time(10));
    assert_eq!(hold.last_press_time, Some(Time(10)));
    hold.tick(Time(14));
    assert!(!hold.active);
    hold.tick(Time(15));
    assert!(hold.active);
    hold.on_event(false, Time(20));
    assert!(!hold.active);
    assert_eq!(hold.last_press_time, None);
}

#[test]
fn button_activator_records_press_release_cycles() {
    let mut system = ButtonActivatorSystem::new();
    system.on_event(false, Time(0));
    system.on_event(true, Time(1));
    system.on_event(false, Time(4));
    system.on_event(true, Time(6));
    system.tick(Time(7));
}
