use vstd::prelude::*;

use dashmap::DashMap;

use crate::controller_paths::GameControllerPaths;
use crate::path_map::PathMap;
use crate::paths::{CommonPaths, DevicePath};
use crate::types::SuPath;

verus! {

/// The kind of an input component of a device.
#[derive(Debug, Clone, Copy, PartialEq, Eq, Structural)]
pub enum InputComponentType {
    Button,
    Trigger,
    Move2D,
    Cursor,
    Joystick,
    /// A gyroscope; whether it reports calibrated values.
    Gyro(bool),
    Accel,
}

/// A device type: its path and the kinds of its input components, by input
/// path.
#[derive(Debug, Clone)]
pub struct DeviceType {
    pub id: DevicePath,
    pub input_components: PathMap<InputComponentType>,
}

/// Two device types with the same path and the same input components, in
/// the same order.
pub open spec fn same_type(a: DeviceType, b: DeviceType) -> bool {
    a.id == b.id && a.input_components.entries() == b.input_components.entries()
}

impl DeviceType {
    /// The input components are well formed.
    pub open spec fn wf(self) -> bool {
        self.input_components.wf()
    }

    /// A copy of this device type.
    pub fn duplicate(&self) -> (r: Self)
        ensures
            same_type(r, *self),
    {
        DeviceType { id: self.id, input_components: self.input_components.duplicate() }
    }

    /// The keyboard: one button for each key, its path at the same place in
    /// `key_paths`.
    pub fn create_keyboard(paths: &CommonPaths, key_paths: &[SuPath]) -> (r: Self)
        ensures
            r.wf(),
            r.id == paths.keyboard,
            r.input_components.map() == Map::new(
                |p: SuPath| key_paths@.contains(p),
                |p: SuPath| InputComponentType::Button,
            ),
    {
        let mut input_components: PathMap<InputComponentType> = PathMap::new();
        let mut i: usize = 0;
        while i < key_paths.len()
            invariant
                0 <= i <= key_paths@.len(),
                input_components.wf(),
                input_components.map() == Map::new(
                    |p: SuPath| key_paths@.take(i as int).contains(p),
                    |p: SuPath| InputComponentType::Button,
                ),
            decreases key_paths@.len() - i,
        {
            input_components.insert(key_paths[i], InputComponentType::Button);
            proof {
                let pre = key_paths@.take(i as int);
                let post = key_paths@.take(i + 1);
                assert(post =~= pre.push(key_paths@[i as int]));
                assert forall|p: SuPath| #[trigger] post.contains(p) <==> (pre.contains(p) || p == key_paths@[i as int]) by {
                    if post.contains(p) {
                        let k = choose|k: int| 0 <= k < post.len() && post[k] == p;
                        if k < i {
                            assert(pre[k] == p);
                        }
                    }
                    if pre.contains(p) {
                        let k = choose|k: int| 0 <= k < pre.len() && pre[k] == p;
                        assert(post[k] == p);
                    }
                    assert(post[i as int] == key_paths@[i as int]);
                }
                assert(input_components.map() =~= Map::new(
                    |p: SuPath| key_paths@.take(i + 1).contains(p),
                    |p: SuPath| InputComponentType::Button,
                ));
            }
            i = i + 1;
        }
        assert(key_paths@.take(key_paths@.len() as int) =~= key_paths@);
        DeviceType { id: paths.keyboard, input_components }
    }

    /// The generic mouse: five buttons, movement and scrolling.
    pub fn create_mouse(paths: &CommonPaths) -> (r: Self)
        ensures
            r.wf(),
            r.id == paths.mouse,
            r.input_components.map() == Map::<SuPath, InputComponentType>::empty().insert(
                paths.mouse_left_click,
                InputComponentType::Button,
            ).insert(paths.mouse_middle_click, InputComponentType::Button).insert(
                paths.mouse_right_click,
                InputComponentType::Button,
            ).insert(paths.mouse_button4_click, InputComponentType::Button).insert(
                paths.mouse_button5_click,
                InputComponentType::Button,
            ).insert(paths.mouse_move, InputComponentType::Move2D).insert(
                paths.mouse_scroll,
                InputComponentType::Move2D,
            ),
    {
        let mut input_components = PathMap::new();
        input_components.insert(paths.mouse_left_click, InputComponentType::Button);
        input_components.insert(paths.mouse_middle_click, InputComponentType::Button);
        input_components.insert(paths.mouse_right_click, InputComponentType::Button);
        input_components.insert(paths.mouse_button4_click, InputComponentType::Button);
        input_components.insert(paths.mouse_button5_click, InputComponentType::Button);
        input_components.insert(paths.mouse_move, InputComponentType::Move2D);
        input_components.insert(paths.mouse_scroll, InputComponentType::Move2D);
        DeviceType { id: paths.mouse, input_components }
    }

    /// The system cursor: one cursor point.
    pub fn create_cursor(paths: &CommonPaths) -> (r: Self)
        ensures
            r.wf(),
            r.id == paths.system_cursor,
            r.input_components.map() == Map::<SuPath, InputComponentType>::empty().insert(
                paths.cursor_point,
                InputComponentType::Cursor,
            ),
    {
        let mut input_components = PathMap::new();
        input_components.insert(paths.cursor_point, InputComponentType::Cursor);
        DeviceType { id: paths.system_cursor, input_components }
    }

    /// The DualSense controller, with its left shoulder button.
    pub fn create_dualsense(paths: &GameControllerPaths) -> (r: Self)
        ensures
            r.wf(),
            r.id == paths.device_dual_sense,
            r.input_components.map() == Map::<SuPath, InputComponentType>::empty().insert(
                paths.left_shoulder,
                InputComponentType::Button,
            ),
    {
        let mut input_components = PathMap::new();
        input_components.insert(paths.left_shoulder, InputComponentType::Button);
        DeviceType { id: paths.device_dual_sense, input_components }
    }
}

/// A map from device paths to device types.
pub type DeviceTypeCache = DashMap<SuPath, DeviceType>;

/// What a map from device paths to device types holds.
pub uninterp spec fn device_type_cache(m: DashMap<SuPath, DeviceType>) -> Map<SuPath, DeviceType>;

/// `DashMap::new` for device types: it holds nothing.
#[verifier::external_body]
fn new_device_type_cache() -> (r: DeviceTypeCache)
    ensures
        device_type_cache(r) == DeviceTypeMap::empty(),
{
    DashMap::new()
}

/// `DashMap::insert` for device types: `t` is filed under `p`, replacing
/// what was filed there.
#[verifier::external_body]
fn file_device_type(m: &mut DeviceTypeCache, p: SuPath, t: DeviceType)
    ensures
        device_type_cache(*final(m)) == device_type_cache(*old(m)).insert(p, t),
{
    m.insert(p, t);
}

/// `DashMap::view` for device types, with `DeviceType::duplicate` as the
/// closure: a copy of the type filed under `p`, if any.
#[verifier::external_body]
fn copy_device_type(m: &DeviceTypeCache, p: SuPath) -> (r: Option<DeviceType>)
    ensures
        match r {
            Some(t) => device_type_cache(*m).contains_key(p) && same_type(t, device_type_cache(*m)[p]),
            None => !device_type_cache(*m).contains_key(p),
        },
{
    m.view(&p, |_, t| t.duplicate())
}

/// The device type of each device path.
pub type DeviceTypeMap = Map<SuPath, DeviceType>;

/// The device types of a list, each filed under its path; a later type
/// replaces an earlier one with the same path.
pub open spec fn types_by_path(types: Seq<DeviceType>) -> Map<SuPath, DeviceType>
    decreases types.len(),
{
    if types.len() == 0 {
        Map::empty()
    } else {
        types_by_path(types.drop_last()).insert(types.last().id, types.last())
    }
}

/// The known device types, by device path.
pub struct DeviceTypes {
    cache: DeviceTypeCache,
}

impl DeviceTypes {
    /// The device type of each device path.
    pub closed spec fn types(self) -> Map<SuPath, DeviceType> {
        device_type_cache(self.cache)
    }

    /// Every type is filed under its own path and is well formed.
    pub open spec fn wf(self) -> bool {
        forall|p: SuPath| #[trigger] self.types().contains_key(p) ==> self.types()[p].id == p
            && self.types()[p].wf()
    }

    /// The given device types, each filed under its path.
    pub fn new(device_types: Vec<DeviceType>) -> (r: Self)
        requires
            forall|i: int| 0 <= i < device_types@.len() ==> (#[trigger] device_types@[i]).wf(),
        ensures
            r.wf(),
            r.types() == types_by_path(device_types@),
    {
        let mut cache = new_device_type_cache();
        let ghost all = device_types@;
        for t in iter: device_types
            invariant
                iter.seq() == all,
                forall|k: int| 0 <= k < all.len() ==> (#[trigger] all[k]).wf(),
                device_type_cache(cache) == types_by_path(all.subrange(0, iter.index() as int)),
                forall|p: SuPath| #[trigger] device_type_cache(cache).contains_key(p)
                    ==> device_type_cache(cache)[p].id == p && device_type_cache(cache)[p].wf(),
        {
            proof {
                assert(t == all[iter.index() as int]);
                assert(all.subrange(0, iter.index() + 1).drop_last() =~= all.subrange(0, iter.index() as int));
            }
            let id = t.id;
            file_device_type(&mut cache, id, t);
        }
        assert(all.subrange(0, all.len() as int) =~= all);
        DeviceTypes { cache }
    }

    /// A copy of the device type filed under `path`, if any.
    pub fn get(&self, path: DevicePath) -> (r: Option<DeviceType>)
        requires
            self.wf(),
        ensures
            r is Some <==> self.types().contains_key(path),
            r matches Some(t) ==> same_type(t, self.types()[path]) && t.id == path && t.wf(),
    {
        let r = copy_device_type(&self.cache, path);
        proof {
            if r is Some {
                assert(self.types().contains_key(path));
            }
        }
        r
    }
}

} // verus!
