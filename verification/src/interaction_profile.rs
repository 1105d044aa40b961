use vstd::prelude::*;

use crate::path_map::{lemma_entry_in_map, lemma_key_has_entry, PathMap};
use crate::paths::{got, path_getter};
use crate::types::SuPath;

verus! {

/// `d2u` inverts `u2d`: its keys are the values of `u2d`, and the list at a
/// key holds exactly the keys of `u2d` that map to it, each once.
pub open spec fn inverts(u2d: Map<SuPath, SuPath>, d2u: Map<SuPath, Seq<SuPath>>) -> bool {
    &&& forall|d: SuPath| #[trigger] d2u.contains_key(d) ==> d2u[d].no_duplicates()
    &&& forall|d: SuPath|
        #[trigger] d2u.contains_key(d) <==> exists|u: SuPath| u2d.contains_key(u) && #[trigger] u2d[u] == d
    &&& forall|d: SuPath, u: SuPath|
        #[trigger] d2u.contains_key(d) ==> (#[trigger] d2u[d].contains(u) <==> (u2d.contains_key(u)
            && u2d[u] == d))
}

/// A device that serves one user alone lists exactly that user.
pub proof fn lemma_sole_user_listed(u2d: Map<SuPath, SuPath>, d2u: Map<SuPath, Seq<SuPath>>, u: SuPath)
    requires
        inverts(u2d, d2u),
        u2d.contains_key(u),
        forall|v: SuPath| u2d.contains_key(v) && #[trigger] u2d[v] == u2d[u] ==> v == u,
    ensures
        d2u.contains_key(u2d[u]),
        d2u[u2d[u]] == seq![u],
{
    let d = u2d[u];
    assert(d2u.contains_key(d));
    let l = d2u[d];
    assert(l.contains(u));
    assert forall|i: int| 0 <= i < l.len() implies l[i] == u by {
        assert(l.contains(l[i]));
    }
    if l.len() >= 2 {
        assert(l[0] == l[1]);
    }
    assert(l =~= seq![u]);
}

/// The users of the entries whose device is `d`, in order.
fn users_of(u2d: &PathMap<SuPath>, d: SuPath) -> (r: Vec<SuPath>)
    requires
        u2d.wf(),
    ensures
        forall|u: SuPath| #[trigger] r@.contains(u) <==> (u2d.map().contains_key(u) && u2d.map()[u] == d),
        r@.no_duplicates(),
{
    let mut r: Vec<SuPath> = Vec::new();
    let mut i: usize = 0;
    let n = u2d.len();
    while i < n
        invariant
            u2d.wf(),
            n == u2d.entries().len(),
            0 <= i <= n,
            forall|u: SuPath| #[trigger] r@.contains(u) <==> exists|j: int| 0 <= j < i && u2d.entries()[j] == (u, d),
            r@.no_duplicates(),
        decreases n - i,
    {
        let e = u2d.entry(i);
        let ghost pr = r@;
        if e.1 == d {
            proof {
                if pr.contains(e.0) {
                    let j = choose|j: int| 0 <= j < i && u2d.entries()[j] == (e.0, d);
                    assert(u2d.entries()[j].0 == u2d.entries()[i as int].0);
                }
            }
            r.push(e.0);
            assert forall|a: int, b: int| 0 <= a < b < r@.len() implies r@[a] != r@[b] by {
                if b == pr.len() {
                    assert(r@[a] == pr[a]);
                    assert(pr.contains(pr[a]));
                }
            }
        }
        assert forall|u: SuPath| #[trigger] r@.contains(u) <==> exists|j: int| 0 <= j < i + 1 && u2d.entries()[j] == (u, d) by {
            if r@.contains(u) {
                if pr.contains(u) {
                    let j = choose|j: int| 0 <= j < i && u2d.entries()[j] == (u, d);
                } else {
                    let k = choose|k: int| 0 <= k < r@.len() && r@[k] == u;
                    assert(k == pr.len());
                    assert(u2d.entries()[i as int] == (u, d));
                }
            }
            if exists|j: int| 0 <= j < i + 1 && u2d.entries()[j] == (u, d) {
                let j = choose|j: int| 0 <= j < i + 1 && u2d.entries()[j] == (u, d);
                if j < i {
                    assert(pr.contains(u));
                    let k = choose|k: int| 0 <= k < pr.len() && pr[k] == u;
                    assert(r@[k] == u);
                } else {
                    assert(r@[r@.len() - 1] == u);
                }
            }
        }
        i = i + 1;
    }
    assert forall|u: SuPath| #[trigger] r@.contains(u) <==> (u2d.map().contains_key(u) && u2d.map()[u] == d) by {
        if r@.contains(u) {
            let j = choose|j: int| 0 <= j < n && u2d.entries()[j] == (u, d);
            lemma_entry_in_map(*u2d, j);
        }
        if u2d.map().contains_key(u) && u2d.map()[u] == d {
            lemma_key_has_entry(*u2d, u);
            let j = choose|j: int| 0 <= j < u2d.entries().len() && #[trigger] u2d.entries()[j].0 == u;
            lemma_entry_in_map(*u2d, j);
        }
    }
    r
}

/// The inverse of a user-to-device map: for each device, its users.
pub fn invert(u2d: &PathMap<SuPath>) -> (r: PathMap<Vec<SuPath>>)
    requires
        u2d.wf(),
    ensures
        r.wf(),
        inverts(u2d.map(), r.map().map_values(|v: Vec<SuPath>| v@)),
{
    let mut r: PathMap<Vec<SuPath>> = PathMap::new();
    let mut i: usize = 0;
    let n = u2d.len();
    while i < n
        invariant
            u2d.wf(),
            r.wf(),
            n == u2d.entries().len(),
            0 <= i <= n,
            forall|d: SuPath| #[trigger] r.map().contains_key(d) <==> exists|j: int| 0 <= j < i && u2d.entries()[j].1 == d,
            forall|d: SuPath, u: SuPath|
                #[trigger] r.map().contains_key(d) ==> (#[trigger] r.map()[d]@.contains(u) <==> (u2d.map().contains_key(u)
                    && u2d.map()[u] == d)),
            forall|d: SuPath| #[trigger] r.map().contains_key(d) ==> r.map()[d]@.no_duplicates(),
        decreases n - i,
    {
        let e = u2d.entry(i);
        let d = e.1;
        if !r.contains_key(d) {
            let users = users_of(u2d, d);
            r.insert(d, users);
        }
        assert forall|dd: SuPath| #[trigger] r.map().contains_key(dd) <==> exists|j: int| 0 <= j < i + 1 && u2d.entries()[j].1 == dd by {
            if exists|j: int| 0 <= j < i + 1 && u2d.entries()[j].1 == dd {
                let j = choose|j: int| 0 <= j < i + 1 && u2d.entries()[j].1 == dd;
                if j < i {
                }
            }
        }
        i = i + 1;
    }
    let ghost m = r.map().map_values(|v: Vec<SuPath>| v@);
    assert forall|d: SuPath| #[trigger] m.contains_key(d) <==> exists|u: SuPath| u2d.map().contains_key(u) && #[trigger] u2d.map()[u] == d by {
        if m.contains_key(d) {
            let j = choose|j: int| 0 <= j < n && u2d.entries()[j].1 == d;
            lemma_entry_in_map(*u2d, j);
            let u = u2d.entries()[j].0;
            assert(u2d.map().contains_key(u) && u2d.map()[u] == d);
        }
        if exists|u: SuPath| u2d.map().contains_key(u) && #[trigger] u2d.map()[u] == d {
            let u = choose|u: SuPath| u2d.map().contains_key(u) && #[trigger] u2d.map()[u] == d;
            lemma_key_has_entry(*u2d, u);
            let j = choose|j: int| 0 <= j < u2d.entries().len() && #[trigger] u2d.entries()[j].0 == u;
            lemma_entry_in_map(*u2d, j);
            assert(u2d.entries()[j].1 == d);
        }
    }
    assert forall|d: SuPath, u: SuPath| #[trigger] m.contains_key(d) implies (#[trigger] m[d].contains(u) <==> (u2d.map().contains_key(u)
            && u2d.map()[u] == d)) by {
        assert(r.map().contains_key(d));
        assert(m[d] == r.map()[d]@);
    }
    assert forall|d: SuPath| #[trigger] m.contains_key(d) implies m[d].no_duplicates() by {
        assert(r.map().contains_key(d));
        assert(m[d] == r.map()[d]@);
    }
    r
}

/// An interaction profile type: its path, the device that each of its user
/// paths is served by, and, inversely, the user paths of each device.
#[derive(Debug, Clone)]
pub struct InteractionProfileType {
    pub id: SuPath,
    pub user2device: PathMap<SuPath>,
    pub device2user: PathMap<Vec<SuPath>>,
}

impl InteractionProfileType {
    /// `device2user` is the inverse of `user2device`.
    pub open spec fn wf(self) -> bool {
        &&& self.user2device.wf()
        &&& self.device2user.wf()
        &&& inverts(self.user2device.map(), self.device2user.map().map_values(|v: Vec<SuPath>| v@))
    }

    /// The standard desktop profile: keyboard, mouse and cursor users, served
    /// by the standard keyboard, mouse and system cursor devices.
    pub fn new_desktop_profile<F: Fn(&str) -> SuPath>(get_path: F) -> (r: Self)
        requires
            path_getter(get_path),
        ensures
            r.wf(),
            got(get_path, "/interaction_profile/standard/desktop", r.id),
            exists|ku: SuPath, kd: SuPath, mu: SuPath, md: SuPath, cu: SuPath, cd: SuPath|
                {
                    &&& got(get_path, "/user/desktop/keyboard", ku)
                    &&& got(get_path, "/device/standard/hid_keyboard", kd)
                    &&& got(get_path, "/user/desktop/mouse", mu)
                    &&& got(get_path, "/device/standard/generic_mouse", md)
                    &&& got(get_path, "/user/desktop/cursor", cu)
                    &&& got(get_path, "/device/standard/system_cursor", cd)
                    &&& r.user2device.map() == Map::<SuPath, SuPath>::empty().insert(ku, kd).insert(
                        mu,
                        md,
                    ).insert(cu, cd)
                },
    {
        let ku = get_path("/user/desktop/keyboard");
        let kd = get_path("/device/standard/hid_keyboard");
        let mu = get_path("/user/desktop/mouse");
        let md = get_path("/device/standard/generic_mouse");
        let cu = get_path("/user/desktop/cursor");
        let cd = get_path("/device/standard/system_cursor");
        let mut user2device = PathMap::new();
        user2device.insert(ku, kd);
        user2device.insert(mu, md);
        user2device.insert(cu, cd);
        let device2user = invert(&user2device);
        let id = get_path("/interaction_profile/standard/desktop");
        InteractionProfileType { id, user2device, device2user }
    }
}

} // verus!
