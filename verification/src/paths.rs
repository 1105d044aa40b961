use vstd::prelude::*;

use crate::path_manager::{is_path_string, lemma_path_string_by_index, lemma_sorted_distinct, lex_less_from, segments_from};
use crate::types::SuPath;

verus! {

/// A path naming a user (`/user/...`).
pub type UserPath = SuPath;
/// A path naming an input component (`/input/...`).
pub type InputPath = SuPath;
/// A path naming an interaction profile.
pub type InteractionProfilePath = SuPath;
/// A path naming a device type.
pub type DevicePath = SuPath;

/// `get_path` can be called with any path string.
pub open spec fn path_getter<F: Fn(&str) -> SuPath>(get_path: F) -> bool {
    forall|s: &str| #[trigger] call_requires(get_path, (s,))
}

/// `p` is a path that `get_path` may return for the path string `s`.
pub open spec fn got<F: Fn(&str) -> SuPath>(get_path: F, s: &str, p: SuPath) -> bool {
    call_ensures(get_path, (s,), p)
}

/// The paths of the standard desktop devices and their input components.
pub struct CommonPaths {
    pub desktop: InteractionProfilePath,
    pub mouse: DevicePath,
    pub keyboard: DevicePath,
    pub system_cursor: DevicePath,
    pub cursor_point: InputPath,
    pub mouse_move: InputPath,
    pub mouse_scroll: InputPath,
    pub mouse_right_click: InputPath,
    pub mouse_left_click: InputPath,
    pub mouse_middle_click: InputPath,
    pub mouse_button4_click: InputPath,
    pub mouse_button5_click: InputPath,
}

impl CommonPaths {
    /// Looks up each common path with `get_path`.
    pub fn new<F: Fn(&str) -> SuPath>(get_path: F) -> (r: Self)
        requires
            path_getter(get_path),
        ensures
            got(get_path, "/interaction_profiles/standard/desktop", r.desktop),
            got(get_path, "/devices/standard/generic_mouse", r.mouse),
            got(get_path, "/devices/standard/hid_keyboard", r.keyboard),
            got(get_path, "/devices/standard/system_cursor", r.system_cursor),
            got(get_path, "/input/cursor/point", r.cursor_point),
            got(get_path, "/input/move/move2d", r.mouse_move),
            got(get_path, "/input/scroll/move2d", r.mouse_scroll),
            got(get_path, "/input/button_right/click", r.mouse_right_click),
            got(get_path, "/input/button_left/click", r.mouse_left_click),
            got(get_path, "/input/button_middle/click", r.mouse_middle_click),
            got(get_path, "/input/button_4/click", r.mouse_button4_click),
            got(get_path, "/input/button_5/click", r.mouse_button5_click),
    {
        CommonPaths {
            desktop: get_path("/interaction_profiles/standard/desktop"),
            mouse: get_path("/devices/standard/generic_mouse"),
            keyboard: get_path("/devices/standard/hid_keyboard"),
            system_cursor: get_path("/devices/standard/system_cursor"),
            cursor_point: get_path("/input/cursor/point"),
            mouse_move: get_path("/input/move/move2d"),
            mouse_scroll: get_path("/input/scroll/move2d"),
            mouse_right_click: get_path("/input/button_right/click"),
            mouse_left_click: get_path("/input/button_left/click"),
            mouse_middle_click: get_path("/input/button_middle/click"),
            mouse_button4_click: get_path("/input/button_4/click"),
            mouse_button5_click: get_path("/input/button_5/click"),
        }
    }
}

/// The path strings that `CommonPaths::new` looks up, in character order.
pub open spec fn common_path_strings() -> Seq<Seq<char>> {
    seq![
        "/devices/standard/generic_mouse"@,
        "/devices/standard/hid_keyboard"@,
        "/devices/standard/system_cursor"@,
        "/input/button_4/click"@,
        "/input/button_5/click"@,
        "/input/button_left/click"@,
        "/input/button_middle/click"@,
        "/input/button_right/click"@,
        "/input/cursor/point"@,
        "/input/move/move2d"@,
        "/input/scroll/move2d"@,
        "/interaction_profiles/standard/desktop"@
    ]
}

/// The common path strings are well-formed path strings, no two alike: with
/// the path manager, interning each succeeds and each field of
/// `CommonPaths` gets a path of its own.
pub proof fn lemma_common_path_strings()
    ensures
        forall|i: int| 0 <= i < common_path_strings().len() ==> is_path_string(#[trigger] common_path_strings()[i]),
        common_path_strings().no_duplicates(),
{
    let s = common_path_strings();
    assert(is_path_string("/devices/standard/generic_mouse"@)) by {
        reveal_strlit("/devices/standard/generic_mouse");
        reveal_with_fuel(segments_from, 32);
        lemma_path_string_by_index("/devices/standard/generic_mouse"@);
    }
    assert(is_path_string("/devices/standard/hid_keyboard"@)) by {
        reveal_strlit("/devices/standard/hid_keyboard");
        reveal_with_fuel(segments_from, 31);
        lemma_path_string_by_index("/devices/standard/hid_keyboard"@);
    }
    assert(is_path_string("/devices/standard/system_cursor"@)) by {
        reveal_strlit("/devices/standard/system_cursor");
        reveal_with_fuel(segments_from, 32);
        lemma_path_string_by_index("/devices/standard/system_cursor"@);
    }
    assert(is_path_string("/input/button_4/click"@)) by {
        reveal_strlit("/input/button_4/click");
        reveal_with_fuel(segments_from, 22);
        lemma_path_string_by_index("/input/button_4/click"@);
    }
    assert(is_path_string("/input/button_5/click"@)) by {
        reveal_strlit("/input/button_5/click");
        reveal_with_fuel(segments_from, 22);
        lemma_path_string_by_index("/input/button_5/click"@);
    }
    assert(is_path_string("/input/button_left/click"@)) by {
        reveal_strlit("/input/button_left/click");
        reveal_with_fuel(segments_from, 25);
        lemma_path_string_by_index("/input/button_left/click"@);
    }
    assert(is_path_string("/input/button_middle/click"@)) by {
        reveal_strlit("/input/button_middle/click");
        reveal_with_fuel(segments_from, 27);
        lemma_path_string_by_index("/input/button_middle/click"@);
    }
    assert(is_path_string("/input/button_right/click"@)) by {
        reveal_strlit("/input/button_right/click");
        reveal_with_fuel(segments_from, 26);
        lemma_path_string_by_index("/input/button_right/click"@);
    }
    assert(is_path_string("/input/cursor/point"@)) by {
        reveal_strlit("/input/cursor/point");
        reveal_with_fuel(segments_from, 20);
        lemma_path_string_by_index("/input/cursor/point"@);
    }
    assert(is_path_string("/input/move/move2d"@)) by {
        reveal_strlit("/input/move/move2d");
        reveal_with_fuel(segments_from, 19);
        lemma_path_string_by_index("/input/move/move2d"@);
    }
    assert(is_path_string("/input/scroll/move2d"@)) by {
        reveal_strlit("/input/scroll/move2d");
        reveal_with_fuel(segments_from, 21);
        lemma_path_string_by_index("/input/scroll/move2d"@);
    }
    assert(is_path_string("/interaction_profiles/standard/desktop"@)) by {
        reveal_strlit("/interaction_profiles/standard/desktop");
        reveal_with_fuel(segments_from, 39);
        lemma_path_string_by_index("/interaction_profiles/standard/desktop"@);
    }
    assert forall|i: int| 0 <= i < s.len() implies is_path_string(#[trigger] s[i]) by {}
    assert(lex_less_from("/devices/standard/generic_mouse"@, "/devices/standard/hid_keyboard"@, 0)) by {
        reveal_strlit("/devices/standard/generic_mouse");
        reveal_strlit("/devices/standard/hid_keyboard");
        reveal_with_fuel(lex_less_from, 20);
    }
    assert(lex_less_from("/devices/standard/hid_keyboard"@, "/devices/standard/system_cursor"@, 0)) by {
        reveal_strlit("/devices/standard/hid_keyboard");
        reveal_strlit("/devices/standard/system_cursor");
        reveal_with_fuel(lex_less_from, 20);
    }
    assert(lex_less_from("/devices/standard/system_cursor"@, "/input/button_4/click"@, 0)) by {
        reveal_strlit("/devices/standard/system_cursor");
        reveal_strlit("/input/button_4/click");
        reveal_with_fuel(lex_less_from, 3);
    }
    assert(lex_less_from("/input/button_4/click"@, "/input/button_5/click"@, 0)) by {
        reveal_strlit("/input/button_4/click");
        reveal_strlit("/input/button_5/click");
        reveal_with_fuel(lex_less_from, 16);
    }
    assert(lex_less_from("/input/button_5/click"@, "/input/button_left/click"@, 0)) by {
        reveal_strlit("/input/button_5/click");
        reveal_strlit("/input/button_left/click");
        reveal_with_fuel(lex_less_from, 16);
    }
    assert(lex_less_from("/input/button_left/click"@, "/input/button_middle/click"@, 0)) by {
        reveal_strlit("/input/button_left/click");
        reveal_strlit("/input/button_middle/click");
        reveal_with_fuel(lex_less_from, 16);
    }
    assert(lex_less_from("/input/button_middle/click"@, "/input/button_right/click"@, 0)) by {
        reveal_strlit("/input/button_middle/click");
        reveal_strlit("/input/button_right/click");
        reveal_with_fuel(lex_less_from, 16);
    }
    assert(lex_less_from("/input/button_right/click"@, "/input/cursor/point"@, 0)) by {
        reveal_strlit("/input/button_right/click");
        reveal_strlit("/input/cursor/point");
        reveal_with_fuel(lex_less_from, 9);
    }
    assert(lex_less_from("/input/cursor/point"@, "/input/move/move2d"@, 0)) by {
        reveal_strlit("/input/cursor/point");
        reveal_strlit("/input/move/move2d");
        reveal_with_fuel(lex_less_from, 9);
    }
    assert(lex_less_from("/input/move/move2d"@, "/input/scroll/move2d"@, 0)) by {
        reveal_strlit("/input/move/move2d");
        reveal_strlit("/input/scroll/move2d");
        reveal_with_fuel(lex_less_from, 9);
    }
    assert(lex_less_from("/input/scroll/move2d"@, "/interaction_profiles/standard/desktop"@, 0)) by {
        reveal_strlit("/input/scroll/move2d");
        reveal_strlit("/interaction_profiles/standard/desktop");
        reveal_with_fuel(lex_less_from, 5);
    }
    assert forall|k: int| 0 <= k < s.len() - 1 implies lex_less_from(#[trigger] s[k], s[k + 1], 0) by {}
    lemma_sorted_distinct(s);
}

} // verus!
