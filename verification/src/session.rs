use vstd::prelude::*;

use crate::controller_paths::GameControllerPaths;
use crate::paths::{CommonPaths, DevicePath, InteractionProfilePath};

verus! {

/// A request that the application makes of a running session.
#[derive(Debug, Clone, Copy, PartialEq, Eq, Structural)]
pub enum SessionActionEvent {
    /// Release the latched state of a sticky boolean action.
    Unstick { action: u64 },
}

/// An active action set: its handle and its default priority.
pub type ActiveSet = (u64, u32);

/// `a` comes before `b` in the order: by priority, then by handle,
/// increasing or decreasing.
pub open spec fn before(a: ActiveSet, b: ActiveSet, increasing: bool) -> bool {
    if increasing {
        a.1 < b.1 || (a.1 == b.1 && a.0 < b.0)
    } else {
        a.1 > b.1 || (a.1 == b.1 && a.0 > b.0)
    }
}

/// The sets are strictly ordered: increasing, or decreasing.
pub open spec fn ordered(s: Seq<ActiveSet>, increasing: bool) -> bool {
    forall|i: int, j: int| 0 <= i < j < s.len() ==> before(#[trigger] s[i], #[trigger] s[j], increasing)
}

/// Some set of `sets` has handle `h`.
pub open spec fn has_handle(sets: Seq<ActiveSet>, h: u64) -> bool {
    exists|q: int| 0 <= q < sets.len() && (#[trigger] sets[q]).0 == h
}

/// The sets of `a` whose handle is not among those of `b`.
pub open spec fn sets_only_in(a: Seq<ActiveSet>, b: Seq<ActiveSet>) -> Set<ActiveSet> {
    Set::new(|x: ActiveSet| a.contains(x) && !has_handle(b, x.0))
}

/// Whether `a` comes before `b` in the order.
fn comes_before(a: ActiveSet, b: ActiveSet, increasing: bool) -> (r: bool)
    ensures
        r == before(a, b, increasing),
{
    if increasing {
        a.1 < b.1 || (a.1 == b.1 && a.0 < b.0)
    } else {
        a.1 > b.1 || (a.1 == b.1 && a.0 > b.0)
    }
}

/// Adds `x` to an ordered list of sets, keeping it ordered and without
/// duplicates.
fn insert_ordered(v: &mut Vec<ActiveSet>, x: ActiveSet, increasing: bool)
    requires
        ordered(old(v)@, increasing),
    ensures
        ordered(final(v)@, increasing),
        final(v)@.to_set() == old(v)@.to_set().insert(x),
{
    let n = v.len();
    let mut p: usize = 0;
    while p < n && comes_before(v[p], x, increasing)
        invariant
            n == v@.len(),
            p <= n,
            v@ == old(v)@,
            forall|k: int| 0 <= k < p ==> before(v@[k], x, increasing),
        decreases n - p,
    {
        p = p + 1;
    }
    if p < n && v[p].0 == x.0 && v[p].1 == x.1 {
        assert(v@.to_set() =~= old(v)@.to_set().insert(x)) by {
            assert(v@[p as int] == x);
        }
        return;
    }
    let ghost w = v@;
    proof {
        if p < n {
            assert(!before(w[p as int], x, increasing));
            assert(w[p as int] != x);
        }
    }
    v.insert(p, x);
    proof {
        assert(v@ == w.insert(p as int, x));
        assert forall|i: int, j: int| 0 <= i < j < v@.len() implies before(#[trigger] v@[i], #[trigger] v@[j], increasing) by {
            if j < p {
                assert(v@[i] == w[i] && v@[j] == w[j]);
            } else if j == p {
                assert(v@[i] == w[i]);
            } else if i == p {
                assert(v@[j] == w[j - 1]);
                if j - 1 > p {
                    assert(before(w[p as int], w[j - 1], increasing));
                }
            } else if i < p {
                assert(v@[i] == w[i] && v@[j] == w[j - 1]);
            } else {
                assert(v@[i] == w[i - 1] && v@[j] == w[j - 1]);
            }
        }
        assert forall|y: ActiveSet| #[trigger] v@.contains(y) <==> (w.contains(y) || y == x) by {
            if v@.contains(y) {
                let k = choose|k: int| 0 <= k < v@.len() && v@[k] == y;
                if k < p {
                    assert(w[k] == y);
                } else if k > p {
                    assert(w[k - 1] == y);
                }
            }
            if w.contains(y) {
                let k = choose|k: int| 0 <= k < w.len() && w[k] == y;
                if k < p {
                    assert(v@[k] == y);
                } else {
                    assert(v@[k + 1] == y);
                }
            }
            if y == x {
                assert(v@[p as int] == x);
            }
        }
        assert(v@.to_set() =~= w.to_set().insert(x));
    }
}

/// The sets of `a` whose handle `b` does not hold, ordered.
fn ordered_difference(a: &[ActiveSet], b: &[ActiveSet], increasing: bool) -> (r: Vec<ActiveSet>)
    ensures
        ordered(r@, increasing),
        r@.to_set() == sets_only_in(a@, b@),
{
    let mut out: Vec<ActiveSet> = Vec::new();
    let mut i: usize = 0;
    assert(out@.to_set() =~= sets_only_in(a@.take(0), b@));
    while i < a.len()
        invariant
            0 <= i <= a@.len(),
            ordered(out@, increasing),
            out@.to_set() == sets_only_in(a@.take(i as int), b@),
        decreases a@.len() - i,
    {
        let x = a[i];
        let mut found = false;
        let mut k: usize = 0;
        while k < b.len() && !found
            invariant
                0 <= k <= b@.len(),
                found ==> has_handle(b@, x.0),
                !found ==> forall|q: int| 0 <= q < k ==> b@[q].0 != x.0,
            decreases b@.len() - k + if found { 0int } else { 1int },
        {
            if b[k].0 == x.0 {
                found = true;
                assert(b@[k as int].0 == x.0);
            } else {
                k = k + 1;
            }
        }
        let ghost t0 = a@.take(i as int);
        let ghost t1 = a@.take(i + 1);
        proof {
            assert(t1 == t0.push(x));
            assert forall|y: ActiveSet| #[trigger] t1.contains(y) <==> (t0.contains(y) || y == x) by {
                if t1.contains(y) {
                    let q = choose|q: int| 0 <= q < t1.len() && #[trigger] t1[q] == y;
                    if q < i {
                        assert(t0[q] == y);
                    }
                }
                if t0.contains(y) {
                    let q = choose|q: int| 0 <= q < t0.len() && #[trigger] t0[q] == y;
                    assert(t1[q] == y);
                }
                if y == x {
                    assert(t1[i as int] == x);
                }
            }
        }
        if !found {
            assert(!has_handle(b@, x.0));
            insert_ordered(&mut out, x, increasing);
            assert(out@.to_set() =~= sets_only_in(t1, b@));
        } else {
            assert(out@.to_set() =~= sets_only_in(t1, b@));
        }
        i = i + 1;
    }
    assert(a@.take(a@.len() as int) =~= a@);
    out
}

/// The action sets to disable and to enable when the active sets, each with
/// its priority, change from `old_active` to `new_active`: the sets whose
/// handle is only in the old, from the lowest priority to the highest, and
/// the sets whose handle is only in the new, from the highest priority to
/// the lowest; the handle breaks ties between equal priorities.
pub fn active_set_changes(old_active: &[ActiveSet], new_active: &[ActiveSet]) -> (r: (Vec<ActiveSet>, Vec<ActiveSet>))
    ensures
        ordered(r.0@, true),
        r.0@.to_set() == sets_only_in(old_active@, new_active@),
        ordered(r.1@, false),
        r.1@.to_set() == sets_only_in(new_active@, old_active@),
{
    (ordered_difference(old_active, new_active, true), ordered_difference(new_active, old_active, false))
}

/// Leaving the sets to disable and adding the sets to enable gives a set of
/// the handle of each new active set and no other, and no set is both
/// disabled and enabled.
pub proof fn lemma_set_changes_apply(old_active: Seq<ActiveSet>, new_active: Seq<ActiveSet>, h: u64)
    ensures
        ({
            let disabling = sets_only_in(old_active, new_active);
            let enabling = sets_only_in(new_active, old_active);
            let after = old_active.to_set().difference(disabling).union(enabling);
            &&& (exists|x: ActiveSet| after.contains(x) && x.0 == h) <==> has_handle(new_active, h)
            &&& disabling.intersect(enabling) == Set::<ActiveSet>::empty()
        }),
{
    let disabling = sets_only_in(old_active, new_active);
    let enabling = sets_only_in(new_active, old_active);
    let after = old_active.to_set().difference(disabling).union(enabling);
    if has_handle(new_active, h) {
        let q = choose|q: int| 0 <= q < new_active.len() && (#[trigger] new_active[q]).0 == h;
        let x = new_active[q];
        assert(new_active.contains(x));
        if has_handle(old_active, h) {
            let q2 = choose|q2: int| 0 <= q2 < old_active.len() && (#[trigger] old_active[q2]).0 == h;
            let y = old_active[q2];
            assert(old_active.contains(y));
            assert(!disabling.contains(y));
            assert(after.contains(y));
        } else {
            assert(enabling.contains(x));
            assert(after.contains(x));
        }
    }
    if exists|x: ActiveSet| after.contains(x) && x.0 == h {
        let x = choose|x: ActiveSet| after.contains(x) && x.0 == h;
        if !enabling.contains(x) {
            assert(old_active.contains(x));
            assert(!disabling.contains(x));
        }
    }
    assert(disabling.intersect(enabling) =~= Set::<ActiveSet>::empty()) by {
        assert forall|x: ActiveSet| !(disabling.contains(x) && enabling.contains(x)) by {
            if disabling.contains(x) && enabling.contains(x) {
                let q = choose|q: int| 0 <= q < new_active.len() && new_active[q] == x;
                assert(new_active[q].0 == x.0);
            }
        }
    }
}

/// The device types that a session knows where to put: the system cursor,
/// keyboard and mouse, and the DualSense.
pub open spec fn known_device(common: CommonPaths, controller: GameControllerPaths, ty: DevicePath) -> bool {
    ty == common.system_cursor || ty == common.keyboard || ty == common.mouse || ty == controller.device_dual_sense
}

/// The interaction profile that a newly registered device of type `ty`
/// joins: the desktop profile for the system cursor, keyboard and mouse, the
/// DualSense profile for a DualSense.
pub fn interaction_profile_for_device(common: &CommonPaths, controller: &GameControllerPaths, ty: DevicePath) -> (r: InteractionProfilePath)
    requires
        known_device(*common, *controller, ty),
    ensures
        r == if ty == common.system_cursor || ty == common.keyboard || ty == common.mouse {
            common.desktop
        } else {
            controller.interaction_profile_dualsense
        },
{
    if ty == common.system_cursor || ty == common.keyboard || ty == common.mouse {
        common.desktop
    } else {
        controller.interaction_profile_dualsense
    }
}

} // verus!
