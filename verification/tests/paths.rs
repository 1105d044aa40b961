use suinput::path_manager::PathManager;
use suinput::types::{PathFormatError, SuPath};

#[test]
fn new_strings_get_consecutive_handles() {
    let mut paths = PathManager::new();
    assert_eq!(paths.get_path("/user/desktop/mouse"), Ok(SuPath(0)));
    assert_eq!(paths.get_path("/user/desktop/keyboard"), Ok(SuPath(1)));
    assert_eq!(paths.get_path("/input/button_left/click"), Ok(SuPath(2)));
}

#[test]
fn interning_twice_gives_the_same_handle() {
    let mut paths = PathManager::new();
    let first = paths.get_path("/devices/standard/generic_mouse").unwrap();
    let other = paths.get_path("/devices/standard/hid_keyboard").unwrap();
    let again = paths.get_path("/devices/standard/generic_mouse").unwrap();
    assert_eq!(first, again);
    assert_ne!(first, other);
    assert_eq!(paths.get_path("/devices/standard/hid_keyboard"), Ok(other));
}

#[test]
fn malformed_path_strings_are_refused() {
    let mut paths = PathManager::new();
    for s in ["", "abc", "/", "/A", "//a", "/a/", "/...", "/a b", "/user//x", "user/x", "/Ü"] {
        assert_eq!(paths.get_path(s), Err(PathFormatError), "{s:?}");
    }
    // nothing was interned
    assert_eq!(paths.get_path("/a"), Ok(SuPath(0)));
}

#[test]
fn well_formed_path_strings_are_accepted() {
    let mut paths = PathManager::new();
    for s in ["/a", "/.a.", "/a-b_c.d/e", "/0/9", "/user/desktop/mouse/input/button_left/click", "/..x/y.."] {
        assert!(paths.get_path(s).is_ok(), "{s:?}");
    }
}

#[test]
fn a_path_gives_back_its_string() {
    let mut paths = PathManager::new();
    let p = paths.get_path("/interaction_profiles/standard/desktop").unwrap();
    let q = paths.get_path("/user/gamepad").unwrap();
    assert_eq!(paths.get_path_string(p).as_deref(), Some("/interaction_profiles/standard/desktop"));
    assert_eq!(paths.get_path_string(q).as_deref(), Some("/user/gamepad"));
}

#[test]
fn an_unknown_path_has_no_string() {
    let mut paths = PathManager::new();
    paths.get_path("/user/gamepad").unwrap();
    assert_eq!(paths.get_path_string(SuPath(1)), None);
    assert_eq!(paths.get_path_string(SuPath(42)), None);
}

#[test]
fn builtin_path_strings_intern_to_distinct_paths() {
    let paths = std::cell::RefCell::new(PathManager::new());
    let get = |s: &str| paths.borrow_mut().get_path(s).unwrap();
    let common = suinput::paths::CommonPaths::new(&get);
    let controller = suinput::controller_paths::GameControllerPaths::new(&get);
    // every string was well formed, and no two were alike
    assert_eq!(paths.borrow().len(), 12 + 47);
    assert_ne!(common.mouse, common.keyboard);
    assert_ne!(controller.gyro, controller.accel);
    assert_ne!(controller.left_trigger, controller.left_trigger_click);
}
