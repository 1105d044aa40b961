use vstd::prelude::*;

use crate::interaction_profile_type::InteractionProfileType;
use crate::path_map::{lemma_entry_in_map, lemma_key_has_entry, PathMap};
use crate::paths::UserPath;
use crate::types::SuPath;

verus! {

/// The live state of an interaction profile: its type and, for each of its
/// user paths, the devices (by id) currently serving it.
pub struct InteractionProfileState {
    pub ty: InteractionProfileType,
    pub devices: PathMap<Vec<u64>>,
}

/// The set of device ids listed in `v`.
pub open spec fn id_set() -> spec_fn(Vec<u64>) -> Set<u64> {
    |v: Vec<u64>| v@.to_set()
}

/// The user path `u` of `profile` is served by a device of type `device_type`.
pub open spec fn served_by(profile: InteractionProfileType, u: UserPath, device_type: SuPath) -> bool {
    profile.user2device.map().contains_key(u) && profile.user2device.map()[u].id == device_type
}

/// A pushed element is the one new element of a sequence.
proof fn lemma_push_contains<T>(s: Seq<T>, x: T, y: T)
    ensures
        s.push(x).contains(y) <==> (s.contains(y) || x == y),
{
    if s.push(x).contains(y) {
        let k = choose|k: int| 0 <= k < s.push(x).len() && s.push(x)[k] == y;
        if k < s.len() {
            assert(s[k] == y);
        }
    }
    if s.contains(y) {
        let k = choose|k: int| 0 <= k < s.len() && s[k] == y;
        assert(s.push(x)[k] == y);
    }
    assert(s.push(x)[s.len() as int] == x);
}

/// The devices serving each user path after the device `device_id`, of type
/// `device_type`, is added: it joins every user path that a device of that
/// type serves.
pub open spec fn with_device_added(
    devices: Map<UserPath, Set<u64>>,
    profile: InteractionProfileType,
    device_id: u64,
    device_type: SuPath,
) -> Map<UserPath, Set<u64>> {
    Map::new(
        |u: UserPath| devices.contains_key(u),
        |u: UserPath| if served_by(profile, u, device_type) {
            devices[u].insert(device_id)
        } else {
            devices[u]
        },
    )
}

/// `v` lists the ids of `w` and `d`.
fn with_device(w: &Vec<u64>, d: u64) -> (v: Vec<u64>)
    ensures
        v@.to_set() == w@.to_set().insert(d),
{
    let mut v: Vec<u64> = Vec::new();
    let mut present = false;
    let mut i: usize = 0;
    while i < w.len()
        invariant
            0 <= i <= w@.len(),
            v@ == w@.take(i as int),
            present <==> v@.contains(d),
        decreases w@.len() - i,
    {
        assert(w@.take(i + 1) =~= w@.take(i as int).push(w@[i as int]));
        proof {
            lemma_push_contains(v@, w@[i as int], d);
        }
        if w[i] == d {
            present = true;
        }
        v.push(w[i]);
        i = i + 1;
    }
    assert(w@.take(w@.len() as int) =~= w@);
    let ghost pre = v@;
    if !present {
        v.push(d);
    }
    assert(v@.to_set() =~= w@.to_set().insert(d)) by {
        assert forall|x: u64| v@.to_set().contains(x) <==> w@.to_set().insert(d).contains(x) by {
            if !present {
                assert(v@ == pre.push(d));
                if v@.contains(x) {
                    let k = choose|k: int| 0 <= k < v@.len() && v@[k] == x;
                    if k < pre.len() {
                        assert(pre[k] == x);
                    }
                }
                if pre.contains(x) {
                    let k = choose|k: int| 0 <= k < pre.len() && pre[k] == x;
                    assert(v@[k] == x);
                }
                assert(v@[pre.len() as int] == d);
            }
        }
    }
    v
}

impl InteractionProfileState {
    /// The devices serving each user path of the profile.
    pub open spec fn devices(self) -> Map<UserPath, Set<u64>> {
        self.devices.map().map_values(id_set())
    }

    /// The profile type is well formed and the devices are kept for exactly
    /// its user paths.
    pub open spec fn wf(self) -> bool {
        &&& self.ty.wf()
        &&& self.devices.wf()
        &&& self.devices.map().dom() == self.ty.user2device.map().dom()
    }

    /// The state of a profile with no device yet.
    pub fn new(profile: InteractionProfileType) -> (r: Self)
        requires
            profile.wf(),
        ensures
            r.wf(),
            r.ty == profile,
            r.devices() == Map::new(
                |u: UserPath| profile.user2device.map().contains_key(u),
                |u: UserPath| Set::<u64>::empty(),
            ),
    {
        let mut devices: PathMap<Vec<u64>> = PathMap::new();
        let mut i: usize = 0;
        let n = profile.user2device.len();
        while i < n
            invariant
                profile.wf(),
                devices.wf(),
                n == profile.user2device.entries().len(),
                0 <= i <= n,
                forall|u: UserPath| #[trigger] devices.map().contains_key(u) <==> exists|j: int|
                    0 <= j < i && profile.user2device.entries()[j].0 == u,
                forall|u: UserPath| #[trigger] devices.map().contains_key(u) ==> devices.map()[u]@ == Seq::<u64>::empty(),
            decreases n - i,
        {
            let u = profile.user2device.entry(i).0;
            devices.insert(u, Vec::new());
            assert forall|v: UserPath| #[trigger] devices.map().contains_key(v) <==> exists|j: int|
                0 <= j < i + 1 && profile.user2device.entries()[j].0 == v by {
                if devices.map().contains_key(v) && v != u {
                    let j = choose|j: int| 0 <= j < i && profile.user2device.entries()[j].0 == v;
                }
            }
            i = i + 1;
        }
        let r = InteractionProfileState { ty: profile, devices };
        assert(r.devices.map().dom() =~= r.ty.user2device.map().dom()) by {
            assert forall|u: UserPath| r.devices.map().contains_key(u) <==> r.ty.user2device.map().contains_key(u) by {
                if r.devices.map().contains_key(u) {
                    let j = choose|j: int| 0 <= j < n && profile.user2device.entries()[j].0 == u;
                    lemma_entry_in_map(profile.user2device, j);
                }
                if r.ty.user2device.map().contains_key(u) {
                    lemma_key_has_entry(profile.user2device, u);
                }
            }
        }
        assert(r.devices() =~= Map::new(
            |u: UserPath| profile.user2device.map().contains_key(u),
            |u: UserPath| Set::<u64>::empty(),
        )) by {
            assert forall|u: UserPath| #[trigger] r.devices().contains_key(u) implies r.devices()[u] == Set::<u64>::empty() by {
                assert(r.devices.map()[u]@ == Seq::<u64>::empty());
                assert(r.devices.map()[u]@.to_set() =~= Set::<u64>::empty());
            }
        }
        r
    }

    /// Records that the device `device_id`, of type `device_type`, serves
    /// each user path of the profile that a device of that type serves.
    pub fn device_added(&mut self, device_id: u64, device_type: SuPath)
        requires
            old(self).wf(),
        ensures
            final(self).wf(),
            final(self).ty == old(self).ty,
            final(self).devices() == with_device_added(old(self).devices(), old(self).ty, device_id, device_type),
    {
        let ghost pre = self.devices.map();
        let ghost profile = self.ty;
        let ghost d2u = profile.device2user.map().map_values(|v: Vec<SuPath>| v@);
        match self.ty.device2user.get(device_type) {
            Some(users) => {
                assert(d2u.contains_key(device_type));
                assert(d2u[device_type] == users@);
                let mut k: usize = 0;
                while k < users.len()
                    invariant
                        self.ty == profile,
                        profile.wf(),
                        self.devices.wf(),
                        self.devices.map().dom() == pre.dom(),
                        pre.dom() == profile.user2device.map().dom(),
                        0 <= k <= users@.len(),
                        forall|u: UserPath| #[trigger] pre.contains_key(u) ==> self.devices.map()[u]@.to_set() == if users@.take(k as int).contains(u) {
                            pre[u]@.to_set().insert(device_id)
                        } else {
                            pre[u]@.to_set()
                        },
                    decreases users@.len() - k,
                {
                    let u = users[k];
                    assert(users@.take(k + 1) =~= users@.take(k as int).push(u));
                    proof {
                        assert forall|x: UserPath| users@.take(k + 1).contains(x) <==> (users@.take(k as int).contains(x) || x == u) by {
                            lemma_push_contains(users@.take(k as int), u, x);
                        }
                    }
                    match self.devices.get(u) {
                        Some(w) => {
                            let v = with_device(w, device_id);
                            self.devices.insert(u, v);
                        },
                        None => {},
                    }
                    assert forall|x: UserPath| #[trigger] pre.contains_key(x) implies self.devices.map()[x]@.to_set() == if users@.take(k + 1).contains(x) {
                        pre[x]@.to_set().insert(device_id)
                    } else {
                        pre[x]@.to_set()
                    } by {
                        if x != u {
                            assert(users@.take(k + 1).contains(x) == users@.take(k as int).contains(x));
                        } else {
                            assert(users@.take(k + 1).contains(x));
                        }
                    }
                    k = k + 1;
                }
                assert(users@.take(users@.len() as int) =~= users@);
                assert forall|u: UserPath| users@.contains(u) <==> served_by(profile, u, device_type) by {
                    assert(d2u.contains_key(device_type) ==> (d2u[device_type].contains(u) <==> (
                        crate::interaction_profile_type::device_ids(profile.user2device.map()).contains_key(u)
                        && crate::interaction_profile_type::device_ids(profile.user2device.map())[u] == device_type)));
                }
            },
            None => {
                assert forall|u: UserPath| !served_by(profile, u, device_type) by {
                    let ids = crate::interaction_profile_type::device_ids(profile.user2device.map());
                    if served_by(profile, u, device_type) {
                        assert(ids.contains_key(u) && ids[u] == device_type);
                        assert(d2u.contains_key(device_type));
                    }
                }
            },
        }
        assert(self.devices() =~= Map::new(
            |u: UserPath| pre.map_values(id_set()).contains_key(u),
            |u: UserPath| if served_by(profile, u, device_type) {
                pre.map_values(id_set())[u].insert(device_id)
            } else {
                pre.map_values(id_set())[u]
            },
        ));
    }

    /// The user paths that the device `device_id` serves, each once.
    pub fn users_of_device(&self, device_id: u64) -> (r: Vec<UserPath>)
        requires
            self.wf(),
        ensures
            forall|u: UserPath| #[trigger] r@.contains(u) <==> (self.devices().contains_key(u) && self.devices()[u].contains(device_id)),
            r@.no_duplicates(),
    {
        let mut r: Vec<UserPath> = Vec::new();
        let mut i: usize = 0;
        let n = self.devices.len();
        while i < n
            invariant
                self.wf(),
                n == self.devices.entries().len(),
                0 <= i <= n,
                r@.no_duplicates(),
                forall|u: UserPath| #[trigger] r@.contains(u) <==> exists|j: int|
                    0 <= j < i && self.devices.entries()[j].0 == u && self.devices.entries()[j].1@.contains(device_id),
            decreases n - i,
        {
            let e = self.devices.entry(i);
            let ghost pr = r@;
            let mut held = false;
            let mut t: usize = 0;
            while t < e.1.len()
                invariant
                    0 <= t <= e.1@.len(),
                    held <==> e.1@.take(t as int).contains(device_id),
                decreases e.1@.len() - t,
            {
                assert(e.1@.take(t + 1) =~= e.1@.take(t as int).push(e.1@[t as int]));
                proof {
                    lemma_push_contains(e.1@.take(t as int), e.1@[t as int], device_id);
                }
                if e.1[t] == device_id {
                    held = true;
                }
                t = t + 1;
            }
            assert(e.1@.take(e.1@.len() as int) =~= e.1@);
            if held {
                proof {
                    if pr.contains(e.0) {
                        let j = choose|j: int| 0 <= j < i && self.devices.entries()[j].0 == e.0 && self.devices.entries()[j].1@.contains(device_id);
                        assert(self.devices.entries()[j].0 == self.devices.entries()[i as int].0);
                    }
                }
                r.push(e.0);
            }
            assert forall|u: UserPath| #[trigger] r@.contains(u) <==> exists|j: int|
                0 <= j < i + 1 && self.devices.entries()[j].0 == u && self.devices.entries()[j].1@.contains(device_id) by {
                if held {
                    lemma_push_contains(pr, e.0, u);
                }
                if exists|j: int| 0 <= j < i + 1 && self.devices.entries()[j].0 == u && self.devices.entries()[j].1@.contains(device_id) {
                    let j = choose|j: int| 0 <= j < i + 1 && self.devices.entries()[j].0 == u && self.devices.entries()[j].1@.contains(device_id);
                    if j < i {
                        assert(pr.contains(u));
                    }
                }
            }
            i = i + 1;
        }
        assert forall|u: UserPath| #[trigger] r@.contains(u) <==> (self.devices().contains_key(u) && self.devices()[u].contains(device_id)) by {
            if r@.contains(u) {
                let j = choose|j: int| 0 <= j < n && self.devices.entries()[j].0 == u && self.devices.entries()[j].1@.contains(device_id);
                lemma_entry_in_map(self.devices, j);
            }
            if self.devices().contains_key(u) && self.devices()[u].contains(device_id) {
                lemma_key_has_entry(self.devices, u);
                let j = choose|j: int| 0 <= j < self.devices.entries().len() && #[trigger] self.devices.entries()[j].0 == u;
                lemma_entry_in_map(self.devices, j);
                assert(self.devices.map()[u]@.to_set().contains(device_id));
            }
        }
        r
    }
}

/// A device added to a profile that it did not serve before serves exactly
/// the user paths that its type serves.
pub proof fn lemma_added_device_serves_its_users(
    state: InteractionProfileState,
    device_id: u64,
    device_type: SuPath,
    u: UserPath,
)
    requires
        state.wf(),
        forall|v: UserPath| #[trigger] state.devices().contains_key(v) ==> !state.devices()[v].contains(device_id),
    ensures
        ({
            let after = with_device_added(state.devices(), state.ty, device_id, device_type);
            (after.contains_key(u) && after[u].contains(device_id)) <==> served_by(state.ty, u, device_type)
        }),
{
    if served_by(state.ty, u, device_type) {
        assert(state.devices.map().contains_key(u));
        assert(state.devices().contains_key(u));
    }
}

} // verus!
