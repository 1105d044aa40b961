use std::sync::Arc;

use vstd::prelude::*;

use crate::application::ApplicationInfo;
use crate::binding_layout::BindingLayout;
use crate::instance::{baked_of, ActionSetView, Instance};

verus! {

/// An application's use of an instance: its name, the action sets it
/// works with, the actions it takes from them, and its binding layouts.
pub struct ApplicationInstance {
    pub application_name: String,
    pub sub_name: Option<String>,
    /// The handles of its action sets, each once.
    pub action_sets: Vec<u64>,
    /// The handles of the actions it takes from its sets, each once.
    pub actions: Vec<u64>,
    /// Its binding layouts, shared with whoever created them.
    pub binding_layouts: Vec<Arc<BindingLayout>>,
}

/// The actions that the sets `hs` give application instances.
pub open spec fn taken_actions(sets: Seq<ActionSetView>, hs: Seq<u64>) -> Set<u64> {
    Set::new(|a: u64| exists|q: int| 0 <= q < hs.len() && #[trigger] baked_of(sets[hs[q] as int]).contains(a))
}

/// The set `j` after application instances took the sets `hs`: baked if it
/// is one of them.
pub open spec fn after_taking(sets: Seq<ActionSetView>, hs: Seq<u64>, j: int) -> ActionSetView {
    if hs.contains(j as u64) {
        ActionSetView { baked: Some(baked_of(sets[j])), ..sets[j] }
    } else {
        sets[j]
    }
}

/// Whether `v` holds `x`.
fn holds_handle(v: &Vec<u64>, x: u64) -> (r: bool)
    ensures
        r == v@.contains(x),
{
    let mut t: usize = 0;
    while t < v.len()
        invariant
            0 <= t <= v@.len(),
            forall|q: int| 0 <= q < t ==> v@[q] != x,
        decreases v@.len() - t,
    {
        if v[t] == x {
            assert(v@[t as int] == x);
            return true;
        }
        t = t + 1;
    }
    false
}

/// Adds `x` to a list without duplicates, unless it is there.
fn add_handle(v: &mut Vec<u64>, x: u64)
    requires
        old(v)@.no_duplicates(),
    ensures
        final(v)@.no_duplicates(),
        final(v)@.to_set() == old(v)@.to_set().insert(x),
{
    if !holds_handle(v, x) {
        let ghost w = v@;
        v.push(x);
        proof {
            assert forall|y: u64| #[trigger] v@.contains(y) <==> (w.contains(y) || y == x) by {
                if v@.contains(y) {
                    let k = choose|k: int| 0 <= k < v@.len() && v@[k] == y;
                    if k < w.len() {
                        assert(w[k] == y);
                    }
                }
                if w.contains(y) {
                    let k = choose|k: int| 0 <= k < w.len() && w[k] == y;
                    assert(v@[k] == y);
                }
                if y == x {
                    assert(v@[w.len() as int] == x);
                }
            }
            assert(v@.to_set() =~= w.to_set().insert(x));
        }
    } else {
        assert(v@.to_set() =~= old(v)@.to_set().insert(x));
    }
}

impl Instance {
    /// An application instance of `application` over the action sets
    /// `action_sets`: each set is baked, and the instance takes the baked
    /// actions of all of them.
    pub fn create_application_instance(
        &mut self,
        application: &ApplicationInfo,
        sub_name: Option<&str>,
        action_sets: &[u64],
        binding_layouts: Vec<Arc<BindingLayout>>,
    ) -> (r: ApplicationInstance)
        requires
            old(self).wf(),
            forall|k: int| 0 <= k < action_sets@.len() ==> #[trigger] action_sets@[k] < old(self).sets().len(),
        ensures
            final(self).wf(),
            final(self).id() == old(self).id(),
            final(self).all_actions() == old(self).all_actions(),
            final(self).sets().len() == old(self).sets().len(),
            forall|j: int| 0 <= j < old(self).sets().len() ==> #[trigger] final(self).sets()[j] == after_taking(old(self).sets(), action_sets@, j),
            r.application_name@ == application.name@,
            r.sub_name matches Some(s) ==> sub_name matches Some(t) && s@ == t@,
            r.sub_name is None ==> sub_name is None,
            r.action_sets@.no_duplicates(),
            r.action_sets@.to_set() == action_sets@.to_set(),
            r.actions@.no_duplicates(),
            r.actions@.to_set() == taken_actions(old(self).sets(), action_sets@),
            r.binding_layouts == binding_layouts,
    {
        let ghost old_sets = self.sets();
        let mut sets: Vec<u64> = Vec::new();
        let mut actions: Vec<u64> = Vec::new();
        let mut t: usize = 0;
        assert(action_sets@.take(0) =~= Seq::<u64>::empty());
        assert(sets@.to_set() =~= action_sets@.take(0).to_set());
        assert(actions@.to_set() =~= taken_actions(old_sets, action_sets@.take(0)));
        while t < action_sets.len()
            invariant
                0 <= t <= action_sets@.len(),
                self.wf(),
                self.id() == old(self).id(),
                self.all_actions() == old(self).all_actions(),
                old_sets == old(self).sets(),
                self.sets().len() == old_sets.len(),
                forall|k: int| 0 <= k < action_sets@.len() ==> #[trigger] action_sets@[k] < old_sets.len(),
                forall|j: int| 0 <= j < old_sets.len() ==> #[trigger] self.sets()[j] == after_taking(old_sets, action_sets@.take(t as int), j),
                sets@.no_duplicates(),
                sets@.to_set() == action_sets@.take(t as int).to_set(),
                actions@.no_duplicates(),
                actions@.to_set() == taken_actions(old_sets, action_sets@.take(t as int)),
            decreases action_sets@.len() - t,
        {
            let h = action_sets[t];
            let ghost prefix = action_sets@.take(t as int);
            let ghost next = action_sets@.take(t + 1);
            proof {
                assert(next == prefix.push(h));
                assert(self.sets()[h as int] == after_taking(old_sets, prefix, h as int));
            }
            let baked = self.bake_action_set(h);
            proof {
                assert(baked@ == baked_of(old_sets[h as int]));
                assert forall|j: int| 0 <= j < old_sets.len() implies #[trigger] self.sets()[j] == after_taking(old_sets, next, j) by {
                    assert(next.contains(j as u64) <==> (prefix.contains(j as u64) || j == h)) by {
                        if next.contains(j as u64) {
                            let q = choose|q: int| 0 <= q < next.len() && next[q] == j as u64;
                            if q < prefix.len() {
                                assert(prefix[q] == j as u64);
                            }
                        }
                        if prefix.contains(j as u64) {
                            let q = choose|q: int| 0 <= q < prefix.len() && prefix[q] == j as u64;
                            assert(next[q] == j as u64);
                        }
                        if j == h {
                            assert(next[t as int] == h);
                        }
                    }
                }
            }
            add_handle(&mut sets, h);
            proof {
                assert forall|y: u64| #[trigger] next.contains(y) <==> (prefix.contains(y) || y == h) by {
                    if next.contains(y) {
                        let q = choose|q: int| 0 <= q < next.len() && next[q] == y;
                        if q < prefix.len() {
                            assert(prefix[q] == y);
                        }
                    }
                    if prefix.contains(y) {
                        let q = choose|q: int| 0 <= q < prefix.len() && prefix[q] == y;
                        assert(next[q] == y);
                    }
                    if y == h {
                        assert(next[t as int] == h);
                    }
                }
                assert(next.to_set() =~= prefix.to_set().insert(h));
            }
            let mut m: usize = 0;
            let ghost base = actions@.to_set();
            assert(baked@.take(0).to_set() =~= Set::<u64>::empty());
            assert(actions@.to_set() =~= base + baked@.take(0).to_set());
            while m < baked.len()
                invariant
                    0 <= m <= baked@.len(),
                    actions@.no_duplicates(),
                    actions@.to_set() == base + baked@.take(m as int).to_set(),
                decreases baked@.len() - m,
            {
                let a = baked[m];
                add_handle(&mut actions, a);
                proof {
                    let b0 = baked@.take(m as int);
                    let b1 = baked@.take(m + 1);
                    assert forall|y: u64| #[trigger] b1.contains(y) <==> (b0.contains(y) || y == a) by {
                        if b1.contains(y) {
                            let q = choose|q: int| 0 <= q < b1.len() && b1[q] == y;
                            if q < b0.len() {
                                assert(b0[q] == y);
                            }
                        }
                        if b0.contains(y) {
                            let q = choose|q: int| 0 <= q < b0.len() && b0[q] == y;
                            assert(b1[q] == y);
                        }
                        if y == a {
                            assert(b1[m as int] == a);
                        }
                    }
                    assert(b1.to_set() =~= b0.to_set().insert(a));
                    assert(actions@.to_set() =~= base + b1.to_set());
                }
                m = m + 1;
            }
            proof {
                assert(baked@.take(baked@.len() as int) =~= baked@);
                assert forall|y: u64| #[trigger] taken_actions(old_sets, next).contains(y) <==> (taken_actions(old_sets, prefix).contains(y)
                    || baked@.contains(y)) by {
                    if taken_actions(old_sets, next).contains(y) {
                        let q = choose|q: int| 0 <= q < next.len() && #[trigger] baked_of(old_sets[next[q] as int]).contains(y);
                        if q < prefix.len() {
                            assert(next[q] == prefix[q]);
                            assert(baked_of(old_sets[prefix[q] as int]).contains(y));
                        } else {
                            assert(next[q] == h);
                        }
                    }
                    if taken_actions(old_sets, prefix).contains(y) {
                        let q = choose|q: int| 0 <= q < prefix.len() && #[trigger] baked_of(old_sets[prefix[q] as int]).contains(y);
                        assert(next[q] == prefix[q]);
                        assert(baked_of(old_sets[next[q] as int]).contains(y));
                    }
                    if baked@.contains(y) {
                        assert(next[t as int] == h);
                        assert(baked_of(old_sets[next[t as int] as int]).contains(y));
                    }
                }
                assert(actions@.to_set() =~= taken_actions(old_sets, next));
            }
            t = t + 1;
        }
        proof {
            assert(action_sets@.take(action_sets@.len() as int) =~= action_sets@);
        }
        let sub = match sub_name {
            Some(s) => Some(s.to_owned()),
            None => None,
        };
        ApplicationInstance {
            application_name: application.name.to_owned(),
            sub_name: sub,
            action_sets: sets,
            actions,
            binding_layouts,
        }
    }
}

} // verus!
