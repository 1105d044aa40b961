use vstd::prelude::*;

use dashmap::DashMap;

use crate::device_type::DeviceTypes;
use crate::interaction_profile_type::{ComponentLookup, InteractionProfileType};
use crate::paths::{got, path_getter, InputPath, InteractionProfilePath, UserPath};
use crate::types::SuPath;

verus! {

/// A map from interaction profile paths to interaction profile types.
pub type ProfileTypeCache = DashMap<SuPath, InteractionProfileType>;

/// The interaction profile type of each profile path.
pub type ProfileTypeMap = Map<SuPath, InteractionProfileType>;

/// What a map from profile paths to interaction profile types holds.
pub uninterp spec fn profile_type_cache(m: DashMap<SuPath, InteractionProfileType>) -> Map<SuPath, InteractionProfileType>;

/// `DashMap::new` for interaction profile types: it holds nothing.
#[verifier::external_body]
fn new_profile_type_cache() -> (r: ProfileTypeCache)
    ensures
        profile_type_cache(r) == ProfileTypeMap::empty(),
{
    DashMap::new()
}

/// `DashMap::insert` for interaction profile types: `t` is filed under `p`,
/// replacing what was filed there.
#[verifier::external_body]
fn file_profile_type(m: &mut ProfileTypeCache, p: SuPath, t: InteractionProfileType)
    ensures
        profile_type_cache(*final(m)) == profile_type_cache(*old(m)).insert(p, t),
{
    m.insert(p, t);
}

/// `DashMap::view` for interaction profile types, with
/// `InteractionProfileType::lookup_component` as the closure: where the user
/// and input paths lead in the profile filed under `p`, if there is one.
#[verifier::external_body]
fn view_profile_component(m: &ProfileTypeCache, p: SuPath, user_path: UserPath, input_path: InputPath) -> (r: Option<ComponentLookup>)
    ensures
        match r {
            Some(l) => profile_type_cache(*m).contains_key(p) && (profile_type_cache(*m)[p].wf()
                ==> l == profile_type_cache(*m)[p].spec_lookup_component(user_path, input_path)),
            None => !profile_type_cache(*m).contains_key(p),
        },
{
    m.view(&p, |_, t| t.lookup_component(user_path, input_path))
}

/// `DashMap::contains_key` for interaction profile types.
#[verifier::external_body]
fn profile_type_filed(m: &ProfileTypeCache, p: SuPath) -> (r: bool)
    ensures
        r == profile_type_cache(*m).contains_key(p),
{
    m.contains_key(&p)
}

/// `DashMap::view` for interaction profile types, with
/// `InteractionProfileType::has_user` as the closure: whether a device
/// serves the user path in the profile filed under `p`, if there is one.
#[verifier::external_body]
fn view_profile_has_user(m: &ProfileTypeCache, p: SuPath, user_path: UserPath) -> (r: Option<bool>)
    ensures
        match r {
            Some(b) => profile_type_cache(*m).contains_key(p) && (profile_type_cache(*m)[p].wf()
                ==> b == profile_type_cache(*m)[p].user2device.map().contains_key(user_path)),
            None => !profile_type_cache(*m).contains_key(p),
        },
{
    m.view(&p, |_, t| t.has_user(user_path))
}

/// The known interaction profile types, by profile path.
pub struct InteractionProfileTypes {
    cache: ProfileTypeCache,
}

impl InteractionProfileTypes {
    /// The interaction profile type of each profile path.
    pub closed spec fn types(self) -> Map<SuPath, InteractionProfileType> {
        profile_type_cache(self.cache)
    }

    /// Every profile is filed under its own path and is well formed.
    pub open spec fn wf(self) -> bool {
        forall|p: SuPath| #[trigger] self.types().contains_key(p) ==> self.types()[p].id == p
            && self.types()[p].wf()
    }

    /// The desktop and DualSense profiles, over the given device types; the
    /// DualSense profile is filed last.
    pub fn new<F: Fn(&str) -> SuPath>(device_types: &DeviceTypes, get_path: F) -> (r: Self)
        requires
            device_types.wf(),
            path_getter(get_path),
            forall|p: SuPath| #[trigger] got(get_path, "/devices/standard/hid_keyboard", p) ==> device_types.types().contains_key(p),
            forall|p: SuPath| #[trigger] got(get_path, "/devices/standard/generic_mouse", p) ==> device_types.types().contains_key(p),
            forall|p: SuPath| #[trigger] got(get_path, "/devices/sony/dualsense", p) ==> device_types.types().contains_key(p),
        ensures
            r.wf(),
            exists|desktop: InteractionProfileType, dualsense: InteractionProfileType| {
                &&& desktop.is_desktop_profile(device_types.types(), get_path)
                &&& dualsense.is_dualsense_profile(device_types.types(), get_path)
                &&& #[trigger] r.types() == ProfileTypeMap::empty().insert(desktop.id, desktop).insert(dualsense.id, dualsense)
            },
    {
        let mut cache = new_profile_type_cache();
        let desktop = InteractionProfileType::new_desktop_profile(device_types, &get_path);
        let ghost d = desktop;
        let desktop_id = desktop.id;
        file_profile_type(&mut cache, desktop_id, desktop);
        let dualsense = InteractionProfileType::new_dualsense_profile(device_types, &get_path);
        let ghost g = dualsense;
        let dualsense_id = dualsense.id;
        file_profile_type(&mut cache, dualsense_id, dualsense);
        let r = InteractionProfileTypes { cache };
        assert(r.types() == ProfileTypeMap::empty().insert(d.id, d).insert(g.id, g));
        r
    }

    /// Whether a profile is filed under `path`.
    pub fn contains(&self, path: InteractionProfilePath) -> (r: bool)
        ensures
            r == self.types().contains_key(path),
    {
        profile_type_filed(&self.cache, path)
    }

    /// Whether a device serves `user_path` in the profile filed under
    /// `path`, if there is one.
    pub fn has_user(&self, path: InteractionProfilePath, user_path: UserPath) -> (r: Option<bool>)
        requires
            self.wf(),
        ensures
            match r {
                Some(b) => self.types().contains_key(path) && b == self.types()[path].user2device.map().contains_key(user_path),
                None => !self.types().contains_key(path),
            },
    {
        let r = view_profile_has_user(&self.cache, path, user_path);
        proof {
            if r is Some {
                assert(self.types().contains_key(path));
            }
        }
        r
    }

    /// Where `user_path` and `input_path` lead in the profile filed under
    /// `path`, if there is one.
    pub fn lookup_component(&self, path: InteractionProfilePath, user_path: UserPath, input_path: InputPath) -> (r: Option<ComponentLookup>)
        requires
            self.wf(),
        ensures
            match r {
                Some(l) => self.types().contains_key(path) && l == self.types()[path].spec_lookup_component(user_path, input_path),
                None => !self.types().contains_key(path),
            },
    {
        let r = view_profile_component(&self.cache, path, user_path, input_path);
        proof {
            if r is Some {
                assert(self.types().contains_key(path));
            }
        }
        r
    }
}

} // verus!
