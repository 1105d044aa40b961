use vstd::prelude::*;

use crate::types::SuPath;
use crate::paths::got;
use crate::paths::path_getter;
use crate::path_manager::{is_path_string, lemma_path_string_by_index, lemma_sorted_distinct, lex_less_from, segments_from};

verus! {

/// The paths of game controller devices, of the DualSense interaction profile and of game controller input components.
pub struct GameControllerPaths {
    pub device_xbox360: SuPath,
    pub device_xbox_one: SuPath,
    pub device_xbox_series_xs: SuPath,
    pub device_xbox_elite: SuPath,
    pub device_dual_shock_3: SuPath,
    pub device_dual_shock_4: SuPath,
    pub device_dual_sense: SuPath,
    pub device_switch_pro: SuPath,
    pub device_left_joycon: SuPath,
    pub device_right_joycon: SuPath,
    pub device_gamecube: SuPath,
    pub device_luna: SuPath,
    pub device_stadia: SuPath,
    pub device_generic: SuPath,
    pub interaction_profile_dualsense: SuPath,
    pub diamond_up: SuPath,
    pub diamond_left: SuPath,
    pub diamond_down: SuPath,
    pub diamond_right: SuPath,
    pub guide: SuPath,
    pub left_stick_click: SuPath,
    pub right_stick_click: SuPath,
    pub left_shoulder: SuPath,
    pub right_shoulder: SuPath,
    pub dpad_up: SuPath,
    pub dpad_left: SuPath,
    pub dpad_right: SuPath,
    pub dpad_down: SuPath,
    pub paddle1: SuPath,
    pub paddle2: SuPath,
    pub paddle3: SuPath,
    pub paddle4: SuPath,
    pub touchpad_click: SuPath,
    pub left_trigger_click: SuPath,
    pub right_trigger_click: SuPath,
    pub back: SuPath,
    pub create: SuPath,
    pub start: SuPath,
    pub options: SuPath,
    pub mute: SuPath,
    pub left_trigger: SuPath,
    pub right_trigger: SuPath,
    pub left_joystick: SuPath,
    pub right_joystick: SuPath,
    pub gyro: SuPath,
    pub accel: SuPath,
    pub touchpad: SuPath,
}

impl GameControllerPaths {
    /// Looks up each path with `get_path`.
    pub fn new<F: Fn(&str) -> SuPath>(get_path: F) -> (r: Self)
        requires
            path_getter(get_path),
        ensures
            got(get_path, "/devices/microsoft/xbox_360", r.device_xbox360),
            got(get_path, "/devices/microsoft/xbox_one", r.device_xbox_one),
            got(get_path, "/devices/microsoft/xbox_one_series_xs", r.device_xbox_series_xs),
            got(get_path, "/devices/microsoft/xbox_elite", r.device_xbox_elite),
            got(get_path, "/devices/sony/dualshock3", r.device_dual_shock_3),
            got(get_path, "/devices/sony/dualshock4", r.device_dual_shock_4),
            got(get_path, "/devices/sony/dualsense", r.device_dual_sense),
            got(get_path, "/devices/nintendo/switch_pro", r.device_switch_pro),
            got(get_path, "/devices/nintendo/joycon_left", r.device_left_joycon),
            got(get_path, "/devices/nintendo/joycon_right", r.device_right_joycon),
            got(get_path, "/devices/nintendo/gamecube", r.device_gamecube),
            got(get_path, "/devices/amazon/luna", r.device_luna),
            got(get_path, "/devices/google/stadia", r.device_stadia),
            got(get_path, "/devices/sdl/generic_game_controller", r.device_generic),
            got(get_path, "/interaction_profiles/sony/dualsense", r.interaction_profile_dualsense),
            got(get_path, "/input/diamond_up/click", r.diamond_up),
            got(get_path, "/input/diamond_left/click", r.diamond_left),
            got(get_path, "/input/diamond_down/click", r.diamond_down),
            got(get_path, "/input/diamond_right/click", r.diamond_right),
            got(get_path, "/input/guide/click", r.guide),
            got(get_path, "/input/joystick_left/click", r.left_stick_click),
            got(get_path, "/input/joystick_right/click", r.right_stick_click),
            got(get_path, "/input/shoulder_left/click", r.left_shoulder),
            got(get_path, "/input/shoulder_right/click", r.right_shoulder),
            got(get_path, "/input/dpad_up/click", r.dpad_up),
            got(get_path, "/input/dpad_left/click", r.dpad_left),
            got(get_path, "/input/dpad_right/click", r.dpad_right),
            got(get_path, "/input/dpad_down/click", r.dpad_down),
            got(get_path, "/input/paddle_top_right/click", r.paddle1),
            got(get_path, "/input/paddle_top_left/click", r.paddle2),
            got(get_path, "/input/paddle_bottom_right/click", r.paddle3),
            got(get_path, "/input/paddle_bottom_left/click", r.paddle4),
            got(get_path, "/input/touchpad/click", r.touchpad_click),
            got(get_path, "/input/trigger_left/click", r.left_trigger_click),
            got(get_path, "/input/trigger_right/click", r.right_trigger_click),
            got(get_path, "/input/back/click", r.back),
            got(get_path, "/input/create/click", r.create),
            got(get_path, "/input/start/click", r.start),
            got(get_path, "/input/options/click", r.options),
            got(get_path, "/input/mute/click", r.mute),
            got(get_path, "/input/trigger_left/value", r.left_trigger),
            got(get_path, "/input/trigger_right/value", r.right_trigger),
            got(get_path, "/input/joystick_left/position", r.left_joystick),
            got(get_path, "/input/joystick_right/position", r.right_joystick),
            got(get_path, "/input/motion/gyro", r.gyro),
            got(get_path, "/input/motion/accel", r.accel),
            got(get_path, "/input/touchpad/points", r.touchpad),
    {
        GameControllerPaths {
            device_xbox360: get_path("/devices/microsoft/xbox_360"),
            device_xbox_one: get_path("/devices/microsoft/xbox_one"),
            device_xbox_series_xs: get_path("/devices/microsoft/xbox_one_series_xs"),
            device_xbox_elite: get_path("/devices/microsoft/xbox_elite"),
            device_dual_shock_3: get_path("/devices/sony/dualshock3"),
            device_dual_shock_4: get_path("/devices/sony/dualshock4"),
            device_dual_sense: get_path("/devices/sony/dualsense"),
            device_switch_pro: get_path("/devices/nintendo/switch_pro"),
            device_left_joycon: get_path("/devices/nintendo/joycon_left"),
            device_right_joycon: get_path("/devices/nintendo/joycon_right"),
            device_gamecube: get_path("/devices/nintendo/gamecube"),
            device_luna: get_path("/devices/amazon/luna"),
            device_stadia: get_path("/devices/google/stadia"),
            device_generic: get_path("/devices/sdl/generic_game_controller"),
            interaction_profile_dualsense: get_path("/interaction_profiles/sony/dualsense"),
            diamond_up: get_path("/input/diamond_up/click"),
            diamond_left: get_path("/input/diamond_left/click"),
            diamond_down: get_path("/input/diamond_down/click"),
            diamond_right: get_path("/input/diamond_right/click"),
            left_stick_click: get_path("/input/joystick_left/click"),
            right_stick_click: get_path("/input/joystick_right/click"),
            left_shoulder: get_path("/input/shoulder_left/click"),
            right_shoulder: get_path("/input/shoulder_right/click"),
            dpad_up: get_path("/input/dpad_up/click"),
            dpad_left: get_path("/input/dpad_left/click"),
            dpad_right: get_path("/input/dpad_right/click"),
            dpad_down: get_path("/input/dpad_down/click"),
            paddle1: get_path("/input/paddle_top_right/click"),
            paddle2: get_path("/input/paddle_top_left/click"),
            paddle3: get_path("/input/paddle_bottom_right/click"),
            paddle4: get_path("/input/paddle_bottom_left/click"),
            touchpad_click: get_path("/input/touchpad/click"),
            left_trigger_click: get_path("/input/trigger_left/click"),
            right_trigger_click: get_path("/input/trigger_right/click"),
            left_trigger: get_path("/input/trigger_left/value"),
            right_trigger: get_path("/input/trigger_right/value"),
            left_joystick: get_path("/input/joystick_left/position"),
            right_joystick: get_path("/input/joystick_right/position"),
            gyro: get_path("/input/motion/gyro"),
            accel: get_path("/input/motion/accel"),
            touchpad: get_path("/input/touchpad/points"),
            guide: get_path("/input/guide/click"),
            back: get_path("/input/back/click"),
            create: get_path("/input/create/click"),
            start: get_path("/input/start/click"),
            options: get_path("/input/options/click"),
            mute: get_path("/input/mute/click"),
        }
    }
}

/// The path strings that `GameControllerPaths::new` looks up, in character
/// order.
pub open spec fn controller_path_strings() -> Seq<Seq<char>> {
    seq![
        "/devices/amazon/luna"@,
        "/devices/google/stadia"@,
        "/devices/microsoft/xbox_360"@,
        "/devices/microsoft/xbox_elite"@,
        "/devices/microsoft/xbox_one"@,
        "/devices/microsoft/xbox_one_series_xs"@,
        "/devices/nintendo/gamecube"@,
        "/devices/nintendo/joycon_left"@,
        "/devices/nintendo/joycon_right"@,
        "/devices/nintendo/switch_pro"@,
        "/devices/sdl/generic_game_controller"@,
        "/devices/sony/dualsense"@,
        "/devices/sony/dualshock3"@,
        "/devices/sony/dualshock4"@,
        "/input/back/click"@,
        "/input/create/click"@,
        "/input/diamond_down/click"@,
        "/input/diamond_left/click"@,
        "/input/diamond_right/click"@,
        "/input/diamond_up/click"@,
        "/input/dpad_down/click"@,
        "/input/dpad_left/click"@,
        "/input/dpad_right/click"@,
        "/input/dpad_up/click"@,
        "/input/guide/click"@,
        "/input/joystick_left/click"@,
        "/input/joystick_left/position"@,
        "/input/joystick_right/click"@,
        "/input/joystick_right/position"@,
        "/input/motion/accel"@,
        "/input/motion/gyro"@,
        "/input/mute/click"@,
        "/input/options/click"@,
        "/input/paddle_bottom_left/click"@,
        "/input/paddle_bottom_right/click"@,
        "/input/paddle_top_left/click"@,
        "/input/paddle_top_right/click"@,
        "/input/shoulder_left/click"@,
        "/input/shoulder_right/click"@,
        "/input/start/click"@,
        "/input/touchpad/click"@,
        "/input/touchpad/points"@,
        "/input/trigger_left/click"@,
        "/input/trigger_left/value"@,
        "/input/trigger_right/click"@,
        "/input/trigger_right/value"@,
        "/interaction_profiles/sony/dualsense"@
    ]
}

/// The game controller path strings are well-formed path strings, no two
/// alike: with the path manager, interning each succeeds and each field of
/// `GameControllerPaths` gets a path of its own.
pub proof fn lemma_controller_path_strings()
    ensures
        forall|i: int| 0 <= i < controller_path_strings().len() ==> is_path_string(#[trigger] controller_path_strings()[i]),
        controller_path_strings().no_duplicates(),
{
    let s = controller_path_strings();
    assert(is_path_string("/devices/amazon/luna"@)) by {
        reveal_strlit("/devices/amazon/luna");
        reveal_with_fuel(segments_from, 21);
        lemma_path_string_by_index("/devices/amazon/luna"@);
    }
    assert(is_path_string("/devices/google/stadia"@)) by {
        reveal_strlit("/devices/google/stadia");
        reveal_with_fuel(segments_from, 23);
        lemma_path_string_by_index("/devices/google/stadia"@);
    }
    assert(is_path_string("/devices/microsoft/xbox_360"@)) by {
        reveal_strlit("/devices/microsoft/xbox_360");
        reveal_with_fuel(segments_from, 28);
        lemma_path_string_by_index("/devices/microsoft/xbox_360"@);
    }
    assert(is_path_string("/devices/microsoft/xbox_elite"@)) by {
        reveal_strlit("/devices/microsoft/xbox_elite");
        reveal_with_fuel(segments_from, 30);
        lemma_path_string_by_index("/devices/microsoft/xbox_elite"@);
    }
    assert(is_path_string("/devices/microsoft/xbox_one"@)) by {
        reveal_strlit("/devices/microsoft/xbox_one");
        reveal_with_fuel(segments_from, 28);
        lemma_path_string_by_index("/devices/microsoft/xbox_one"@);
    }
    assert(is_path_string("/devices/microsoft/xbox_one_series_xs"@)) by {
        reveal_strlit("/devices/microsoft/xbox_one_series_xs");
        reveal_with_fuel(segments_from, 38);
        lemma_path_string_by_index("/devices/microsoft/xbox_one_series_xs"@);
    }
    assert(is_path_string("/devices/nintendo/gamecube"@)) by {
        reveal_strlit("/devices/nintendo/gamecube");
        reveal_with_fuel(segments_from, 27);
        lemma_path_string_by_index("/devices/nintendo/gamecube"@);
    }
    assert(is_path_string("/devices/nintendo/joycon_left"@)) by {
        reveal_strlit("/devices/nintendo/joycon_left");
        reveal_with_fuel(segments_from, 30);
        lemma_path_string_by_index("/devices/nintendo/joycon_left"@);
    }
    assert(is_path_string("/devices/nintendo/joycon_right"@)) by {
        reveal_strlit("/devices/nintendo/joycon_right");
        reveal_with_fuel(segments_from, 31);
        lemma_path_string_by_index("/devices/nintendo/joycon_right"@);
    }
    assert(is_path_string("/devices/nintendo/switch_pro"@)) by {
        reveal_strlit("/devices/nintendo/switch_pro");
        reveal_with_fuel(segments_from, 29);
        lemma_path_string_by_index("/devices/nintendo/switch_pro"@);
    }
    assert(is_path_string("/devices/sdl/generic_game_controller"@)) by {
        reveal_strlit("/devices/sdl/generic_game_controller");
        reveal_with_fuel(segments_from, 37);
        lemma_path_string_by_index("/devices/sdl/generic_game_controller"@);
    }
    assert(is_path_string("/devices/sony/dualsense"@)) by {
        reveal_strlit("/devices/sony/dualsense");
        reveal_with_fuel(segments_from, 24);
        lemma_path_string_by_index("/devices/sony/dualsense"@);
    }
    assert(is_path_string("/devices/sony/dualshock3"@)) by {
        reveal_strlit("/devices/sony/dualshock3");
        reveal_with_fuel(segments_from, 25);
        lemma_path_string_by_index("/devices/sony/dualshock3"@);
    }
    assert(is_path_string("/devices/sony/dualshock4"@)) by {
        reveal_strlit("/devices/sony/dualshock4");
        reveal_with_fuel(segments_from, 25);
        lemma_path_string_by_index("/devices/sony/dualshock4"@);
    }
    assert(is_path_string("/input/back/click"@)) by {
        reveal_strlit("/input/back/click");
        reveal_with_fuel(segments_from, 18);
        lemma_path_string_by_index("/input/back/click"@);
    }
    assert(is_path_string("/input/create/click"@)) by {
        reveal_strlit("/input/create/click");
        reveal_with_fuel(segments_from, 20);
        lemma_path_string_by_index("/input/create/click"@);
    }
    assert(is_path_string("/input/diamond_down/click"@)) by {
        reveal_strlit("/input/diamond_down/click");
        reveal_with_fuel(segments_from, 26);
        lemma_path_string_by_index("/input/diamond_down/click"@);
    }
    assert(is_path_string("/input/diamond_left/click"@)) by {
        reveal_strlit("/input/diamond_left/click");
        reveal_with_fuel(segments_from, 26);
        lemma_path_string_by_index("/input/diamond_left/click"@);
    }
    assert(is_path_string("/input/diamond_right/click"@)) by {
        reveal_strlit("/input/diamond_right/click");
        reveal_with_fuel(segments_from, 27);
        lemma_path_string_by_index("/input/diamond_right/click"@);
    }
    assert(is_path_string("/input/diamond_up/click"@)) by {
        reveal_strlit("/input/diamond_up/click");
        reveal_with_fuel(segments_from, 24);
        lemma_path_string_by_index("/input/diamond_up/click"@);
    }
    assert(is_path_string("/input/dpad_down/click"@)) by {
        reveal_strlit("/input/dpad_down/click");
        reveal_with_fuel(segments_from, 23);
        lemma_path_string_by_index("/input/dpad_down/click"@);
    }
    assert(is_path_string("/input/dpad_left/click"@)) by {
        reveal_strlit("/input/dpad_left/click");
        reveal_with_fuel(segments_from, 23);
        lemma_path_string_by_index("/input/dpad_left/click"@);
    }
    assert(is_path_string("/input/dpad_right/click"@)) by {
        reveal_strlit("/input/dpad_right/click");
        reveal_with_fuel(segments_from, 24);
        lemma_path_string_by_index("/input/dpad_right/click"@);
    }
    assert(is_path_string("/input/dpad_up/click"@)) by {
        reveal_strlit("/input/dpad_up/click");
        reveal_with_fuel(segments_from, 21);
        lemma_path_string_by_index("/input/dpad_up/click"@);
    }
    assert(is_path_string("/input/guide/click"@)) by {
        reveal_strlit("/input/guide/click");
        reveal_with_fuel(segments_from, 19);
        lemma_path_string_by_index("/input/guide/click"@);
    }
    assert(is_path_string("/input/joystick_left/click"@)) by {
        reveal_strlit("/input/joystick_left/click");
        reveal_with_fuel(segments_from, 27);
        lemma_path_string_by_index("/input/joystick_left/click"@);
    }
    assert(is_path_string("/input/joystick_left/position"@)) by {
        reveal_strlit("/input/joystick_left/position");
        reveal_with_fuel(segments_from, 30);
        lemma_path_string_by_index("/input/joystick_left/position"@);
    }
    assert(is_path_string("/input/joystick_right/click"@)) by {
        reveal_strlit("/input/joystick_right/click");
        reveal_with_fuel(segments_from, 28);
        lemma_path_string_by_index("/input/joystick_right/click"@);
    }
    assert(is_path_string("/input/joystick_right/position"@)) by {
        reveal_strlit("/input/joystick_right/position");
        reveal_with_fuel(segments_from, 31);
        lemma_path_string_by_index("/input/joystick_right/position"@);
    }
    assert(is_path_string("/input/motion/accel"@)) by {
        reveal_strlit("/input/motion/accel");
        reveal_with_fuel(segments_from, 20);
        lemma_path_string_by_index("/input/motion/accel"@);
    }
    assert(is_path_string("/input/motion/gyro"@)) by {
        reveal_strlit("/input/motion/gyro");
        reveal_with_fuel(segments_from, 19);
        lemma_path_string_by_index("/input/motion/gyro"@);
    }
    assert(is_path_string("/input/mute/click"@)) by {
        reveal_strlit("/input/mute/click");
        reveal_with_fuel(segments_from, 18);
        lemma_path_string_by_index("/input/mute/click"@);
    }
    assert(is_path_string("/input/options/click"@)) by {
        reveal_strlit("/input/options/click");
        reveal_with_fuel(segments_from, 21);
        lemma_path_string_by_index("/input/options/click"@);
    }
    assert(is_path_string("/input/paddle_bottom_left/click"@)) by {
        reveal_strlit("/input/paddle_bottom_left/click");
        reveal_with_fuel(segments_from, 32);
        lemma_path_string_by_index("/input/paddle_bottom_left/click"@);
    }
    assert(is_path_string("/input/paddle_bottom_right/click"@)) by {
        reveal_strlit("/input/paddle_bottom_right/click");
        reveal_with_fuel(segments_from, 33);
        lemma_path_string_by_index("/input/paddle_bottom_right/click"@);
    }
    assert(is_path_string("/input/paddle_top_left/click"@)) by {
        reveal_strlit("/input/paddle_top_left/click");
        reveal_with_fuel(segments_from, 29);
        lemma_path_string_by_index("/input/paddle_top_left/click"@);
    }
    assert(is_path_string("/input/paddle_top_right/click"@)) by {
        reveal_strlit("/input/paddle_top_right/click");
        reveal_with_fuel(segments_from, 30);
        lemma_path_string_by_index("/input/paddle_top_right/click"@);
    }
    assert(is_path_string("/input/shoulder_left/click"@)) by {
        reveal_strlit("/input/shoulder_left/click");
        reveal_with_fuel(segments_from, 27);
        lemma_path_string_by_index("/input/shoulder_left/click"@);
    }
    assert(is_path_string("/input/shoulder_right/click"@)) by {
        reveal_strlit("/input/shoulder_right/click");
        reveal_with_fuel(segments_from, 28);
        lemma_path_string_by_index("/input/shoulder_right/click"@);
    }
    assert(is_path_string("/input/start/click"@)) by {
        reveal_strlit("/input/start/click");
        reveal_with_fuel(segments_from, 19);
        lemma_path_string_by_index("/input/start/click"@);
    }
    assert(is_path_string("/input/touchpad/click"@)) by {
        reveal_strlit("/input/touchpad/click");
        reveal_with_fuel(segments_from, 22);
        lemma_path_string_by_index("/input/touchpad/click"@);
    }
    assert(is_path_string("/input/touchpad/points"@)) by {
        reveal_strlit("/input/touchpad/points");
        reveal_with_fuel(segments_from, 23);
        lemma_path_string_by_index("/input/touchpad/points"@);
    }
    assert(is_path_string("/input/trigger_left/click"@)) by {
        reveal_strlit("/input/trigger_left/click");
        reveal_with_fuel(segments_from, 26);
        lemma_path_string_by_index("/input/trigger_left/click"@);
    }
    assert(is_path_string("/input/trigger_left/value"@)) by {
        reveal_strlit("/input/trigger_left/value");
        reveal_with_fuel(segments_from, 26);
        lemma_path_string_by_index("/input/trigger_left/value"@);
    }
    assert(is_path_string("/input/trigger_right/click"@)) by {
        reveal_strlit("/input/trigger_right/click");
        reveal_with_fuel(segments_from, 27);
        lemma_path_string_by_index("/input/trigger_right/click"@);
    }
    assert(is_path_string("/input/trigger_right/value"@)) by {
        reveal_strlit("/input/trigger_right/value");
        reveal_with_fuel(segments_from, 27);
        lemma_path_string_by_index("/input/trigger_right/value"@);
    }
    assert(is_path_string("/interaction_profiles/sony/dualsense"@)) by {
        reveal_strlit("/interaction_profiles/sony/dualsense");
        reveal_with_fuel(segments_from, 37);
        lemma_path_string_by_index("/interaction_profiles/sony/dualsense"@);
    }
    assert forall|i: int| 0 <= i < s.len() implies is_path_string(#[trigger] s[i]) by {}
    assert(lex_less_from("/devices/amazon/luna"@, "/devices/google/stadia"@, 0)) by {
        reveal_strlit("/devices/amazon/luna");
        reveal_strlit("/devices/google/stadia");
        reveal_with_fuel(lex_less_from, 11);
    }
    assert(lex_less_from("/devices/google/stadia"@, "/devices/microsoft/xbox_360"@, 0)) by {
        reveal_strlit("/devices/google/stadia");
        reveal_strlit("/devices/microsoft/xbox_360");
        reveal_with_fuel(lex_less_from, 11);
    }
    assert(lex_less_from("/devices/microsoft/xbox_360"@, "/devices/microsoft/xbox_elite"@, 0)) by {
        reveal_strlit("/devices/microsoft/xbox_360");
        reveal_strlit("/devices/microsoft/xbox_elite");
        reveal_with_fuel(lex_less_from, 26);
    }
    assert(lex_less_from("/devices/microsoft/xbox_elite"@, "/devices/microsoft/xbox_one"@, 0)) by {
        reveal_strlit("/devices/microsoft/xbox_elite");
        reveal_strlit("/devices/microsoft/xbox_one");
        reveal_with_fuel(lex_less_from, 26);
    }
    assert(lex_less_from("/devices/microsoft/xbox_one"@, "/devices/microsoft/xbox_one_series_xs"@, 0)) by {
        reveal_strlit("/devices/microsoft/xbox_one");
        reveal_strlit("/devices/microsoft/xbox_one_series_xs");
        reveal_with_fuel(lex_less_from, 29);
    }
    assert(lex_less_from("/devices/microsoft/xbox_one_series_xs"@, "/devices/nintendo/gamecube"@, 0)) by {
        reveal_strlit("/devices/microsoft/xbox_one_series_xs");
        reveal_strlit("/devices/nintendo/gamecube");
        reveal_with_fuel(lex_less_from, 11);
    }
    assert(lex_less_from("/devices/nintendo/gamecube"@, "/devices/nintendo/joycon_left"@, 0)) by {
        reveal_strlit("/devices/nintendo/gamecube");
        reveal_strlit("/devices/nintendo/joycon_left");
        reveal_with_fuel(lex_less_from, 20);
    }
    assert(lex_less_from("/devices/nintendo/joycon_left"@, "/devices/nintendo/joycon_right"@, 0)) by {
        reveal_strlit("/devices/nintendo/joycon_left");
        reveal_strlit("/devices/nintendo/joycon_right");
        reveal_with_fuel(lex_less_from, 27);
    }
    assert(lex_less_from("/devices/nintendo/joycon_right"@, "/devices/nintendo/switch_pro"@, 0)) by {
        reveal_strlit("/devices/nintendo/joycon_right");
        reveal_strlit("/devices/nintendo/switch_pro");
        reveal_with_fuel(lex_less_from, 20);
    }
    assert(lex_less_from("/devices/nintendo/switch_pro"@, "/devices/sdl/generic_game_controller"@, 0)) by {
        reveal_strlit("/devices/nintendo/switch_pro");
        reveal_strlit("/devices/sdl/generic_game_controller");
        reveal_with_fuel(lex_less_from, 11);
    }
    assert(lex_less_from("/devices/sdl/generic_game_controller"@, "/devices/sony/dualsense"@, 0)) by {
        reveal_strlit("/devices/sdl/generic_game_controller");
        reveal_strlit("/devices/sony/dualsense");
        reveal_with_fuel(lex_less_from, 12);
    }
    assert(lex_less_from("/devices/sony/dualsense"@, "/devices/sony/dualshock3"@, 0)) by {
        reveal_strlit("/devices/sony/dualsense");
        reveal_strlit("/devices/sony/dualshock3");
        reveal_with_fuel(lex_less_from, 21);
    }
    assert(lex_less_from("/devices/sony/dualshock3"@, "/devices/sony/dualshock4"@, 0)) by {
        reveal_strlit("/devices/sony/dualshock3");
        reveal_strlit("/devices/sony/dualshock4");
        reveal_with_fuel(lex_less_from, 25);
    }
    assert(lex_less_from("/devices/sony/dualshock4"@, "/input/back/click"@, 0)) by {
        reveal_strlit("/devices/sony/dualshock4");
        reveal_strlit("/input/back/click");
        reveal_with_fuel(lex_less_from, 3);
    }
    assert(lex_less_from("/input/back/click"@, "/input/create/click"@, 0)) by {
        reveal_strlit("/input/back/click");
        reveal_strlit("/input/create/click");
        reveal_with_fuel(lex_less_from, 9);
    }
    assert(lex_less_from("/input/create/click"@, "/input/diamond_down/click"@, 0)) by {
        reveal_strlit("/input/create/click");
        reveal_strlit("/input/diamond_down/click");
        reveal_with_fuel(lex_less_from, 9);
    }
    assert(lex_less_from("/input/diamond_down/click"@, "/input/diamond_left/click"@, 0)) by {
        reveal_strlit("/input/diamond_down/click");
        reveal_strlit("/input/diamond_left/click");
        reveal_with_fuel(lex_less_from, 17);
    }
    assert(lex_less_from("/input/diamond_left/click"@, "/input/diamond_right/click"@, 0)) by {
        reveal_strlit("/input/diamond_left/click");
        reveal_strlit("/input/diamond_right/click");
        reveal_with_fuel(lex_less_from, 17);
    }
    assert(lex_less_from("/input/diamond_right/click"@, "/input/diamond_up/click"@, 0)) by {
        reveal_strlit("/input/diamond_right/click");
        reveal_strlit("/input/diamond_up/click");
        reveal_with_fuel(lex_less_from, 17);
    }
    assert(lex_less_from("/input/diamond_up/click"@, "/input/dpad_down/click"@, 0)) by {
        reveal_strlit("/input/diamond_up/click");
        reveal_strlit("/input/dpad_down/click");
        reveal_with_fuel(lex_less_from, 10);
    }
    assert(lex_less_from("/input/dpad_down/click"@, "/input/dpad_left/click"@, 0)) by {
        reveal_strlit("/input/dpad_down/click");
        reveal_strlit("/input/dpad_left/click");
        reveal_with_fuel(lex_less_from, 14);
    }
    assert(lex_less_from("/input/dpad_left/click"@, "/input/dpad_right/click"@, 0)) by {
        reveal_strlit("/input/dpad_left/click");
        reveal_strlit("/input/dpad_right/click");
        reveal_with_fuel(lex_less_from, 14);
    }
    assert(lex_less_from("/input/dpad_right/click"@, "/input/dpad_up/click"@, 0)) by {
        reveal_strlit("/input/dpad_right/click");
        reveal_strlit("/input/dpad_up/click");
        reveal_with_fuel(lex_less_from, 14);
    }
    assert(lex_less_from("/input/dpad_up/click"@, "/input/guide/click"@, 0)) by {
        reveal_strlit("/input/dpad_up/click");
        reveal_strlit("/input/guide/click");
        reveal_with_fuel(lex_less_from, 9);
    }
    assert(lex_less_from("/input/guide/click"@, "/input/joystick_left/click"@, 0)) by {
        reveal_strlit("/input/guide/click");
        reveal_strlit("/input/joystick_left/click");
        reveal_with_fuel(lex_less_from, 9);
    }
    assert(lex_less_from("/input/joystick_left/click"@, "/input/joystick_left/position"@, 0)) by {
        reveal_strlit("/input/joystick_left/click");
        reveal_strlit("/input/joystick_left/position");
        reveal_with_fuel(lex_less_from, 23);
    }
    assert(lex_less_from("/input/joystick_left/position"@, "/input/joystick_right/click"@, 0)) by {
        reveal_strlit("/input/joystick_left/position");
        reveal_strlit("/input/joystick_right/click");
        reveal_with_fuel(lex_less_from, 18);
    }
    assert(lex_less_from("/input/joystick_right/click"@, "/input/joystick_right/position"@, 0)) by {
        reveal_strlit("/input/joystick_right/click");
        reveal_strlit("/input/joystick_right/position");
        reveal_with_fuel(lex_less_from, 24);
    }
    assert(lex_less_from("/input/joystick_right/position"@, "/input/motion/accel"@, 0)) by {
        reveal_strlit("/input/joystick_right/position");
        reveal_strlit("/input/motion/accel");
        reveal_with_fuel(lex_less_from, 9);
    }
    assert(lex_less_from("/input/motion/accel"@, "/input/motion/gyro"@, 0)) by {
        reveal_strlit("/input/motion/accel");
        reveal_strlit("/input/motion/gyro");
        reveal_with_fuel(lex_less_from, 16);
    }
    assert(lex_less_from("/input/motion/gyro"@, "/input/mute/click"@, 0)) by {
        reveal_strlit("/input/motion/gyro");
        reveal_strlit("/input/mute/click");
        reveal_with_fuel(lex_less_from, 10);
    }
    assert(lex_less_from("/input/mute/click"@, "/input/options/click"@, 0)) by {
        reveal_strlit("/input/mute/click");
        reveal_strlit("/input/options/click");
        reveal_with_fuel(lex_less_from, 9);
    }
    assert(lex_less_from("/input/options/click"@, "/input/paddle_bottom_left/click"@, 0)) by {
        reveal_strlit("/input/options/click");
        reveal_strlit("/input/paddle_bottom_left/click");
        reveal_with_fuel(lex_less_from, 9);
    }
    assert(lex_less_from("/input/paddle_bottom_left/click"@, "/input/paddle_bottom_right/click"@, 0)) by {
        reveal_strlit("/input/paddle_bottom_left/click");
        reveal_strlit("/input/paddle_bottom_right/click");
        reveal_with_fuel(lex_less_from, 23);
    }
    assert(lex_less_from("/input/paddle_bottom_right/click"@, "/input/paddle_top_left/click"@, 0)) by {
        reveal_strlit("/input/paddle_bottom_right/click");
        reveal_strlit("/input/paddle_top_left/click");
        reveal_with_fuel(lex_less_from, 16);
    }
    assert(lex_less_from("/input/paddle_top_left/click"@, "/input/paddle_top_right/click"@, 0)) by {
        reveal_strlit("/input/paddle_top_left/click");
        reveal_strlit("/input/paddle_top_right/click");
        reveal_with_fuel(lex_less_from, 20);
    }
    assert(lex_less_from("/input/paddle_top_right/click"@, "/input/shoulder_left/click"@, 0)) by {
        reveal_strlit("/input/paddle_top_right/click");
        reveal_strlit("/input/shoulder_left/click");
        reveal_with_fuel(lex_less_from, 9);
    }
    assert(lex_less_from("/input/shoulder_left/click"@, "/input/shoulder_right/click"@, 0)) by {
        reveal_strlit("/input/shoulder_left/click");
        reveal_strlit("/input/shoulder_right/click");
        reveal_with_fuel(lex_less_from, 18);
    }
    assert(lex_less_from("/input/shoulder_right/click"@, "/input/start/click"@, 0)) by {
        reveal_strlit("/input/shoulder_right/click");
        reveal_strlit("/input/start/click");
        reveal_with_fuel(lex_less_from, 10);
    }
    assert(lex_less_from("/input/start/click"@, "/input/touchpad/click"@, 0)) by {
        reveal_strlit("/input/start/click");
        reveal_strlit("/input/touchpad/click");
        reveal_with_fuel(lex_less_from, 9);
    }
    assert(lex_less_from("/input/touchpad/click"@, "/input/touchpad/points"@, 0)) by {
        reveal_strlit("/input/touchpad/click");
        reveal_strlit("/input/touchpad/points");
        reveal_with_fuel(lex_less_from, 18);
    }
    assert(lex_less_from("/input/touchpad/points"@, "/input/trigger_left/click"@, 0)) by {
        reveal_strlit("/input/touchpad/points");
        reveal_strlit("/input/trigger_left/click");
        reveal_with_fuel(lex_less_from, 10);
    }
    assert(lex_less_from("/input/trigger_left/click"@, "/input/trigger_left/value"@, 0)) by {
        reveal_strlit("/input/trigger_left/click");
        reveal_strlit("/input/trigger_left/value");
        reveal_with_fuel(lex_less_from, 22);
    }
    assert(lex_less_from("/input/trigger_left/value"@, "/input/trigger_right/click"@, 0)) by {
        reveal_strlit("/input/trigger_left/value");
        reveal_strlit("/input/trigger_right/click");
        reveal_with_fuel(lex_less_from, 17);
    }
    assert(lex_less_from("/input/trigger_right/click"@, "/input/trigger_right/value"@, 0)) by {
        reveal_strlit("/input/trigger_right/click");
        reveal_strlit("/input/trigger_right/value");
        reveal_with_fuel(lex_less_from, 23);
    }
    assert(lex_less_from("/input/trigger_right/value"@, "/interaction_profiles/sony/dualsense"@, 0)) by {
        reveal_strlit("/input/trigger_right/value");
        reveal_strlit("/interaction_profiles/sony/dualsense");
        reveal_with_fuel(lex_less_from, 5);
    }
    assert forall|k: int| 0 <= k < s.len() - 1 implies lex_less_from(#[trigger] s[k], s[k + 1], 0) by {}
    lemma_sorted_distinct(s);
}

} // verus!
