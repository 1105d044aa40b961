use vstd::prelude::*;

use crate::action::{serial_kind, ActionCompoundType, ActionView, ChildActionType};
use crate::binding_layout::{active_priority, baked_of_set};
use crate::instance::{action_at, valid_handle, ActionSet, Instance};
use crate::serial::ParentActionType as ParentKind;

verus! {

/// What a working user keeps of each action it drives, besides its value:
/// the action, the action set it came from and that set's priority.
#[derive(Debug, Clone, Copy, PartialEq, Eq, Structural)]
pub struct WorkingActionState {
    pub action: u64,
    pub action_set: u64,
    pub priority: u32,
}

/// The bookkeeping of a user of a session: the actions it drives, in order,
/// and the kind of combined state that each compound action among them
/// needs.
pub struct WorkingUser {
    pub action_states: Vec<WorkingActionState>,
    pub compound_kinds: Vec<(u64, ParentKind)>,
}

/// The working states of the baked actions of a set.
pub open spec fn set_states(set: ActionSet) -> Seq<WorkingActionState> {
    baked_of_set(set).map_values(
        |a: u64| WorkingActionState { action: a, action_set: set.handle, priority: set.default_priority },
    )
}

/// The working states of the baked actions of each of `sets`, in order.
pub open spec fn working_states(sets: Seq<&ActionSet>) -> Seq<WorkingActionState>
    decreases sets.len(),
{
    if sets.len() == 0 {
        Seq::empty()
    } else {
        working_states(sets.drop_last()) + set_states(*sets.last())
    }
}

/// The compound actions among `handles`, in order, with the kind of each.
pub open spec fn parent_kinds(actions: Seq<ActionView>, handles: Seq<u64>) -> Seq<(u64, ParentKind)>
    decreases handles.len(),
{
    if handles.len() == 0 {
        Seq::empty()
    } else {
        let rest = parent_kinds(actions, handles.drop_last());
        let h = handles.last();
        if valid_handle(actions, h) {
            match action_at(actions, h).compound {
                ActionCompoundType::Parent { ty } => rest.push((h, serial_kind(ty))),
                _ => rest,
            }
        } else {
            rest
        }
    }
}

/// The handles of the actions of `states`, in order.
pub open spec fn state_actions(states: Seq<WorkingActionState>) -> Seq<u64> {
    states.map_values(|w: WorkingActionState| w.action)
}

/// The states among `states` whose set is one of `active_sets`, in order.
pub open spec fn active_states(states: Seq<WorkingActionState>, active_sets: Seq<u64>) -> Seq<WorkingActionState>
    decreases states.len(),
{
    if states.len() == 0 {
        Seq::empty()
    } else {
        let rest = active_states(states.drop_last(), active_sets);
        if active_sets.contains(states.last().action_set) {
            rest.push(states.last())
        } else {
            rest
        }
    }
}

/// Each state's action with its priority, in order.
pub open spec fn state_pairs(states: Seq<WorkingActionState>) -> Seq<(u64, u32)> {
    states.map_values(|w: WorkingActionState| (w.action, w.priority))
}

/// The priority of the first state of `action` among `states`, if any.
pub open spec fn priority_in(states: Seq<WorkingActionState>, action: u64) -> Option<u32>
    decreases states.len(),
{
    if states.len() == 0 {
        None
    } else if states[0].action == action {
        Some(states[0].priority)
    } else {
        priority_in(states.drop_first(), action)
    }
}

impl WorkingUser {
    /// The working user of a session over the action sets `sets` of
    /// `instance`, each of which has been baked.
    pub fn new(instance: &Instance, sets: &[&ActionSet]) -> (r: Self)
        requires
            instance.wf(),
            forall|i: int| 0 <= i < sets@.len() ==> (#[trigger] sets@[i])@.baked is Some,
        ensures
            r.action_states@ == working_states(sets@),
            r.compound_kinds@ == parent_kinds(instance.all_actions(), state_actions(working_states(sets@))),
    {
        let mut states: Vec<WorkingActionState> = Vec::new();
        let mut i: usize = 0;
        assert(sets@.take(0) =~= Seq::<&ActionSet>::empty());
        while i < sets.len()
            invariant
                0 <= i <= sets@.len(),
                forall|k: int| 0 <= k < sets@.len() ==> (#[trigger] sets@[k])@.baked is Some,
                states@ == working_states(sets@.take(i as int)),
            decreases sets@.len() - i,
        {
            let set = sets[i];
            proof {
                assert(sets@.take(i + 1).drop_last() =~= sets@.take(i as int));
                assert(sets@.take(i + 1).last() == set);
            }
            let baked: &Vec<u64> = match &set.baked_actions {
                Some(b) => b,
                None => {
                    proof {
                        assert(sets@[i as int]@.baked is Some);
                    }
                    return WorkingUser { action_states: Vec::new(), compound_kinds: Vec::new() };
                },
            };
            let ghost start = states@;
            let mut t: usize = 0;
            while t < baked.len()
                invariant
                    0 <= t <= baked@.len(),
                    baked@ == baked_of_set(*set),
                    states@ == start + set_states(*set).take(t as int),
                decreases baked@.len() - t,
            {
                states.push(WorkingActionState { action: baked[t], action_set: set.handle, priority: set.default_priority });
                assert(states@ =~= start + set_states(*set).take(t + 1));
                t = t + 1;
            }
            assert(set_states(*set).take(baked@.len() as int) =~= set_states(*set));
            i = i + 1;
        }
        assert(sets@.take(sets@.len() as int) =~= sets@);
        let mut kinds: Vec<(u64, ParentKind)> = Vec::new();
        let mut k: usize = 0;
        let ghost handles = state_actions(states@);
        assert(handles.take(0) =~= Seq::<u64>::empty());
        while k < states.len()
            invariant
                instance.wf(),
                0 <= k <= states@.len(),
                handles == state_actions(states@),
                kinds@ == parent_kinds(instance.all_actions(), handles.take(k as int)),
            decreases states@.len() - k,
        {
            let h = states[k].action;
            proof {
                assert(handles.take(k + 1).drop_last() =~= handles.take(k as int));
                assert(handles.take(k + 1).last() == h);
            }
            match instance.get_action(h) {
                Some(a) => {
                    match a.compound {
                        ActionCompoundType::Parent { ty } => {
                            let kind = match ty {
                                crate::action::ParentActionType::StickyBool { .. } => ParentKind::StickyBool,
                                crate::action::ParentActionType::Axis1d { .. } => ParentKind::Axis1d,
                                crate::action::ParentActionType::Axis2d { .. } => ParentKind::Axis2d,
                            };
                            kinds.push((h, kind));
                        },
                        _ => {},
                    }
                },
                None => {},
            }
            k = k + 1;
        }
        assert(handles.take(states@.len() as int) =~= handles);
        WorkingUser { action_states: states, compound_kinds: kinds }
    }

    /// The priority of `action`, from the first of its working states.
    pub fn get_action_priority(&self, action: u64) -> (r: Option<u32>)
        ensures
            r == priority_in(self.action_states@, action),
    {
        let mut i: usize = 0;
        let ghost all = self.action_states@;
        assert(all.subrange(0, all.len() as int) =~= all);
        while i < self.action_states.len()
            invariant
                all == self.action_states@,
                0 <= i <= all.len(),
                priority_in(all, action) == priority_in(all.subrange(i as int, all.len() as int), action),
            decreases all.len() - i,
        {
            let ghost rest = all.subrange(i as int, all.len() as int);
            assert(rest[0] == all[i as int]);
            if self.action_states[i].action == action {
                return Some(self.action_states[i].priority);
            }
            assert(rest.drop_first() =~= all.subrange(i + 1, all.len() as int));
            i = i + 1;
        }
        assert(all.subrange(i as int, all.len() as int) =~= Seq::<WorkingActionState>::empty());
        None
    }

    /// Each driven action of the active sets `active_sets` with its
    /// priority, in order: the active actions that a binding layout weighs.
    pub fn active_priorities(&self, active_sets: &[u64]) -> (r: Vec<(u64, u32)>)
        ensures
            r@ == state_pairs(active_states(self.action_states@, active_sets@)),
    {
        let mut r: Vec<(u64, u32)> = Vec::new();
        let mut i: usize = 0;
        let ghost all = self.action_states@;
        assert(all.take(0) =~= Seq::<WorkingActionState>::empty());
        while i < self.action_states.len()
            invariant
                all == self.action_states@,
                0 <= i <= all.len(),
                r@ == state_pairs(active_states(all.take(i as int), active_sets@)),
            decreases all.len() - i,
        {
            let w = self.action_states[i];
            proof {
                assert(all.take(i + 1).drop_last() =~= all.take(i as int));
                assert(all.take(i + 1).last() == w);
            }
            let mut active = false;
            let mut k: usize = 0;
            while k < active_sets.len()
                invariant
                    0 <= k <= active_sets@.len(),
                    active <==> active_sets@.take(k as int).contains(w.action_set),
                decreases active_sets@.len() - k,
            {
                let ghost pre = active_sets@.take(k as int);
                let ghost post = active_sets@.take(k + 1);
                assert(post =~= pre.push(active_sets@[k as int]));
                proof {
                    if post.contains(w.action_set) {
                        let q = choose|q: int| 0 <= q < post.len() && post[q] == w.action_set;
                        if q < k {
                            assert(pre[q] == w.action_set);
                        }
                    }
                    if pre.contains(w.action_set) {
                        let q = choose|q: int| 0 <= q < pre.len() && pre[q] == w.action_set;
                        assert(post[q] == w.action_set);
                    }
                    assert(post[k as int] == active_sets@[k as int]);
                }
                if active_sets[k] == w.action_set {
                    active = true;
                }
                k = k + 1;
            }
            assert(active_sets@.take(active_sets@.len() as int) =~= active_sets@);
            if active {
                r.push((w.action, w.priority));
                assert(r@ =~= state_pairs(active_states(all.take(i + 1), active_sets@)));
            }
            i = i + 1;
        }
        assert(all.take(all.len() as int) =~= all);
        r
    }
}

/// The priorities a working user hands a binding layout give each action the
/// priority that the user reports for it.
pub proof fn lemma_active_priorities_agree(states: Seq<WorkingActionState>, action: u64)
    ensures
        active_priority(state_pairs(states), action) == priority_in(states, action),
    decreases states.len(),
{
    if states.len() > 0 {
        assert(state_pairs(states).drop_first() =~= state_pairs(states.drop_first()));
        lemma_active_priorities_agree(states.drop_first(), action);
    }
}

/// With every set active, the active actions are all the driven actions.
pub proof fn lemma_all_sets_active(states: Seq<WorkingActionState>, active_sets: Seq<u64>)
    requires
        forall|i: int| 0 <= i < states.len() ==> active_sets.contains(#[trigger] states[i].action_set),
    ensures
        active_states(states, active_sets) == states,
    decreases states.len(),
{
    if states.len() > 0 {
        lemma_all_sets_active(states.drop_last(), active_sets);
        assert(states.drop_last().push(states.last()) =~= states);
    }
}

/// Where an event of `action`, whose compound role is `compound`, goes: the
/// action whose listeners hear the result, and the compound action whose
/// combined state takes the event, with the kind it arrives as. A child's
/// event goes into its parent's combined state and the parent is heard; a
/// compound action's own event goes into its combined state as the parent;
/// a single action's event is heard as it is.
pub fn route_action_event(compound: ActionCompoundType, action: u64) -> (r: (u64, Option<(u64, ChildActionType)>))
    ensures
        r == match compound {
            ActionCompoundType::Child { parent, ty } => (parent, Some((parent, ty))),
            ActionCompoundType::Parent { .. } => (action, Some((action, ChildActionType::Parent))),
            ActionCompoundType::Single => (action, None),
        },
{
    match compound {
        ActionCompoundType::Child { parent, ty } => (parent, Some((parent, ty))),
        ActionCompoundType::Parent { .. } => (action, Some((action, ChildActionType::Parent))),
        ActionCompoundType::Single => (action, None),
    }
}

} // verus!
