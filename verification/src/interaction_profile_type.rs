use vstd::prelude::*;

use crate::device_type::{same_type, DeviceType, DeviceTypes, InputComponentType};
use crate::interaction_profile::{invert, inverts};
use crate::path_map::{lemma_absent_key, lemma_entries_map_values, map_entry_values, PathMap};
use crate::paths::{got, path_getter, InputPath, UserPath};
use crate::types::SuPath;

verus! {

/// Where a pair of user path and input path leads in a profile: to no
/// user, to a user whose device has no such input, or to the kind of the
/// input component.
#[derive(Debug, Clone, Copy, PartialEq, Eq, Structural)]
pub enum ComponentLookup {
    NoUser,
    NoComponent,
    Found(InputComponentType),
}

/// An interaction profile type: its path, the device type serving each of
/// its user paths, and the user paths of each device path.
#[derive(Debug, Clone)]
pub struct InteractionProfileType {
    pub id: SuPath,
    pub user2device: PathMap<DeviceType>,
    pub device2user: PathMap<Vec<SuPath>>,
}

/// The path of a device type.
pub open spec fn device_id() -> spec_fn(DeviceType) -> SuPath {
    |d: DeviceType| d.id
}

/// The device path of each user path.
pub open spec fn device_ids(u2d: Map<SuPath, DeviceType>) -> Map<SuPath, SuPath> {
    u2d.map_values(device_id())
}

impl InteractionProfileType {
    /// The device types are well formed, and `device2user` is the inverse of
    /// the device paths of `user2device`.
    pub open spec fn wf(self) -> bool {
        &&& self.user2device.wf()
        &&& forall|u: SuPath| #[trigger] self.user2device.map().contains_key(u) ==> self.user2device.map()[u].wf()
        &&& self.device2user.wf()
        &&& inverts(device_ids(self.user2device.map()), self.device2user.map().map_values(|v: Vec<SuPath>| v@))
    }

    /// A profile with the given path and user-to-device-type map; the users of
    /// each device are derived from it.
    pub fn from_devices(id: SuPath, user2device: PathMap<DeviceType>) -> (r: Self)
        requires
            user2device.wf(),
            forall|u: SuPath| #[trigger] user2device.map().contains_key(u) ==> user2device.map()[u].wf(),
        ensures
            r.wf(),
            r.id == id,
            r.user2device == user2device,
    {
        let mut ids: PathMap<SuPath> = PathMap::new();
        let mut i: usize = 0;
        let n = user2device.len();
        while i < n
            invariant
                user2device.wf(),
                ids.wf(),
                n == user2device.entries().len(),
                0 <= i <= n,
                ids.entries() == map_entry_values(user2device.entries().subrange(0, i as int), device_id()),
            decreases n - i,
        {
            let e = user2device.entry(i);
            proof {
                assert forall|j: int| 0 <= j < ids.entries().len() implies (#[trigger] ids.entries()[j]).0 != e.0 by {
                    assert(ids.entries()[j].0 == user2device.entries()[j].0);
                }
                lemma_absent_key(ids, e.0);
            }
            ids.insert(e.0, e.1.id);
            assert(ids.entries() =~= map_entry_values(user2device.entries().subrange(0, i + 1), device_id()));
            i = i + 1;
        }
        proof {
            assert(user2device.entries().subrange(0, n as int) =~= user2device.entries());
            lemma_entries_map_values(user2device.entries(), device_id());
            assert(ids.map() =~= device_ids(user2device.map()));
        }
        let device2user = invert(&ids);
        InteractionProfileType { id, user2device, device2user }
    }

    /// The profile `id` serves each user path of `users` with a copy of the
    /// device type filed under the device path at the same place in
    /// `devices`; a user path that occurs twice takes the later device.
    pub open spec fn serves(self, device_types: Map<SuPath, DeviceType>, id: SuPath, users: Seq<SuPath>, devices: Seq<SuPath>) -> bool {
        &&& self.id == id
        &&& self.user2device.map().dom() == users.to_set()
        &&& forall|i: int| 0 <= i < users.len() && (forall|j: int| i < j < users.len() ==> users[j] != users[i])
            ==> same_type(#[trigger] self.user2device.map()[users[i]], device_types[devices[i]])
    }

    /// The profile serving `users` with the device types of `devices`.
    fn from_paths(device_types: &DeviceTypes, id: SuPath, users: &[SuPath], devices: &[SuPath]) -> (r: Self)
        requires
            device_types.wf(),
            users@.len() == devices@.len(),
            forall|i: int| 0 <= i < devices@.len() ==> device_types.types().contains_key(#[trigger] devices@[i]),
        ensures
            r.wf(),
            r.serves(device_types.types(), id, users@, devices@),
    {
        let mut user2device: PathMap<DeviceType> = PathMap::new();
        let mut i: usize = 0;
        while i < users.len()
            invariant
                device_types.wf(),
                users@.len() == devices@.len(),
                forall|i: int| 0 <= i < devices@.len() ==> device_types.types().contains_key(#[trigger] devices@[i]),
                0 <= i <= users@.len(),
                user2device.wf(),
                forall|u: SuPath| #[trigger] user2device.map().contains_key(u) ==> user2device.map()[u].wf(),
                user2device.map().dom() == users@.subrange(0, i as int).to_set(),
                forall|k: int| 0 <= k < i && (forall|j: int| k < j < i ==> users@[j] != users@[k])
                    ==> same_type(#[trigger] user2device.map()[users@[k]], device_types.types()[devices@[k]]),
            decreases users@.len() - i,
        {
            let d = devices[i];
            assert(device_types.types().contains_key(devices@[i as int]));
            let device_type = match device_types.get(d) {
                Some(t) => t,
                None => {
                    assert(false);
                    DeviceType { id: d, input_components: PathMap::new() }
                },
            };
            let ghost before = user2device.map();
            user2device.insert(users[i], device_type);
            proof {
                let prefix = users@.subrange(0, i as int);
                assert(users@.subrange(0, i + 1) =~= prefix.push(users@[i as int]));
                assert forall|x: SuPath| prefix.push(users@[i as int]).contains(x) <==> (prefix.contains(x) || x == users@[i as int]) by {
                    if prefix.push(users@[i as int]).contains(x) {
                        let k = choose|k: int| 0 <= k < prefix.len() + 1 && prefix.push(users@[i as int])[k] == x;
                        if k < prefix.len() {
                            assert(prefix[k] == x);
                        }
                    }
                    if prefix.contains(x) {
                        let k = choose|k: int| 0 <= k < prefix.len() && prefix[k] == x;
                        assert(prefix.push(users@[i as int])[k] == x);
                    }
                    if x == users@[i as int] {
                        assert(prefix.push(users@[i as int])[prefix.len() as int] == x);
                    }
                }
                assert(user2device.map().dom() =~= users@.subrange(0, i + 1).to_set());
                assert forall|k: int| 0 <= k < i + 1 && (forall|j: int| k < j < i + 1 ==> users@[j] != users@[k])
                    implies same_type(#[trigger] user2device.map()[users@[k]], device_types.types()[devices@[k]]) by {
                    if k < i {
                        assert(users@[i as int] != users@[k]);
                        assert(user2device.map()[users@[k]] == before[users@[k]]);
                    }
                }
            }
            i = i + 1;
        }
        assert(users@.subrange(0, users@.len() as int) =~= users@);
        Self::from_devices(id, user2device)
    }

    /// This is the desktop profile: its path, user paths and device paths
    /// are those that `get_path` gives for the desktop profile, the keyboard
    /// and mouse users, and the standard keyboard and mouse devices.
    pub open spec fn is_desktop_profile<F: Fn(&str) -> SuPath>(self, device_types: Map<SuPath, DeviceType>, get_path: F) -> bool {
        exists|id: SuPath, k: SuPath, m: SuPath, kd: SuPath, md: SuPath| {
            &&& #[trigger] got(get_path, "/interaction_profiles/standard/desktop", id)
            &&& #[trigger] got(get_path, "/user/desktop/keyboard", k)
            &&& #[trigger] got(get_path, "/user/desktop/mouse", m)
            &&& #[trigger] got(get_path, "/devices/standard/hid_keyboard", kd)
            &&& #[trigger] got(get_path, "/devices/standard/generic_mouse", md)
            &&& self.serves(device_types, id, seq![k, m], seq![kd, md])
        }
    }

    /// This is the DualSense profile: its path, user path and device path
    /// are those that `get_path` gives for the DualSense profile, the gamepad
    /// user and the DualSense device.
    pub open spec fn is_dualsense_profile<F: Fn(&str) -> SuPath>(self, device_types: Map<SuPath, DeviceType>, get_path: F) -> bool {
        exists|id: SuPath, g: SuPath, gd: SuPath| {
            &&& #[trigger] got(get_path, "/interaction_profiles/sony/dualsense", id)
            &&& #[trigger] got(get_path, "/user/gamepad", g)
            &&& #[trigger] got(get_path, "/devices/sony/dualsense", gd)
            &&& self.serves(device_types, id, seq![g], seq![gd])
        }
    }

    /// The standard desktop profile: keyboard and mouse users, served by the
    /// standard keyboard and mouse device types.
    pub fn new_desktop_profile<F: Fn(&str) -> SuPath>(device_types: &DeviceTypes, get_path: &F) -> (r: Self)
        requires
            device_types.wf(),
            path_getter(*get_path),
            forall|p: SuPath| #[trigger] got(*get_path, "/devices/standard/hid_keyboard", p) ==> device_types.types().contains_key(p),
            forall|p: SuPath| #[trigger] got(*get_path, "/devices/standard/generic_mouse", p) ==> device_types.types().contains_key(p),
        ensures
            r.wf(),
            r.is_desktop_profile(device_types.types(), *get_path),
    {
        let k = get_path("/user/desktop/keyboard");
        let kd = get_path("/devices/standard/hid_keyboard");
        let m = get_path("/user/desktop/mouse");
        let md = get_path("/devices/standard/generic_mouse");
        let id = get_path("/interaction_profiles/standard/desktop");
        assert(got(*get_path, "/user/desktop/keyboard", k));
        assert(got(*get_path, "/user/desktop/mouse", m));
        assert(got(*get_path, "/devices/standard/hid_keyboard", kd));
        assert(got(*get_path, "/devices/standard/generic_mouse", md));
        assert(got(*get_path, "/interaction_profiles/standard/desktop", id));
        let users: [SuPath; 2] = [k, m];
        let devices: [SuPath; 2] = [kd, md];
        assert(users@ =~= seq![k, m]);
        assert(devices@ =~= seq![kd, md]);
        let r = Self::from_paths(device_types, id, users.as_slice(), devices.as_slice());
        assert(r.serves(device_types.types(), id, seq![k, m], seq![kd, md]));
        r
    }

    /// The DualSense profile: a gamepad user served by the DualSense device
    /// type.
    pub fn new_dualsense_profile<F: Fn(&str) -> SuPath>(device_types: &DeviceTypes, get_path: &F) -> (r: Self)
        requires
            device_types.wf(),
            path_getter(*get_path),
            forall|p: SuPath| #[trigger] got(*get_path, "/devices/sony/dualsense", p) ==> device_types.types().contains_key(p),
        ensures
            r.wf(),
            r.is_dualsense_profile(device_types.types(), *get_path),
    {
        let g = get_path("/user/gamepad");
        let gd = get_path("/devices/sony/dualsense");
        let id = get_path("/interaction_profiles/sony/dualsense");
        assert(got(*get_path, "/user/gamepad", g));
        assert(got(*get_path, "/devices/sony/dualsense", gd));
        assert(got(*get_path, "/interaction_profiles/sony/dualsense", id));
        let users: [SuPath; 1] = [g];
        let devices: [SuPath; 1] = [gd];
        assert(users@ =~= seq![g]);
        assert(devices@ =~= seq![gd]);
        let r = Self::from_paths(device_types, id, users.as_slice(), devices.as_slice());
        assert(r.serves(device_types.types(), id, seq![g], seq![gd]));
        r
    }

    /// The kind of the input component `input_path` of the device serving
    /// `user_path`, if both exist.
    pub fn get_component_type(&self, user_path: UserPath, input_path: InputPath) -> (r: Option<InputComponentType>)
        requires
            self.wf(),
        ensures
            r == if self.user2device.map().contains_key(user_path)
                && self.user2device.map()[user_path].input_components.map().contains_key(input_path) {
                Some(self.user2device.map()[user_path].input_components.map()[input_path])
            } else {
                None::<InputComponentType>
            },
    {
        match self.user2device.get(user_path) {
            Some(device_type) => match device_type.input_components.get(input_path) {
                Some(t) => Some(*t),
                None => None,
            },
            None => None,
        }
    }
}

impl InteractionProfileType {
    /// Where `user_path` and `input_path` lead in this profile.
    pub open spec fn spec_lookup_component(self, user_path: UserPath, input_path: InputPath) -> ComponentLookup {
        if !self.user2device.map().contains_key(user_path) {
            ComponentLookup::NoUser
        } else if !self.user2device.map()[user_path].input_components.map().contains_key(input_path) {
            ComponentLookup::NoComponent
        } else {
            ComponentLookup::Found(self.user2device.map()[user_path].input_components.map()[input_path])
        }
    }

    /// Whether a device serves `user_path` in this profile.
    pub fn has_user(&self, user_path: UserPath) -> (r: bool)
        requires
            self.wf(),
        ensures
            r == self.user2device.map().contains_key(user_path),
    {
        self.user2device.contains_key(user_path)
    }

    /// Where `user_path` and `input_path` lead in this profile.
    pub fn lookup_component(&self, user_path: UserPath, input_path: InputPath) -> (r: ComponentLookup)
        requires
            self.wf(),
        ensures
            r == self.spec_lookup_component(user_path, input_path),
    {
        match self.user2device.get(user_path) {
            Some(device_type) => match device_type.input_components.get(input_path) {
                Some(t) => ComponentLookup::Found(*t),
                None => ComponentLookup::NoComponent,
            },
            None => ComponentLookup::NoUser,
        }
    }
}

} // verus!
