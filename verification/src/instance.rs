use vstd::prelude::*;

use crate::action::{
    parent_child, serial_kind, Action, ActionCompoundType, ActionCreateInfo, ActionTypeEnum, ActionView,
    ChildActionType, ParentActionType,
};

verus! {

/// A named group of actions with a default priority.
#[derive(Debug, Clone)]
pub struct ActionSet {
    pub handle: u64,
    pub name: String,
    pub default_priority: u32,
    /// Handles of the actions of this set, in creation order.
    pub actions: Vec<u64>,
    /// The actions of this set when an application instance first took it;
    /// later actions are not part of it.
    pub baked_actions: Option<Vec<u64>>,
}

/// The abstract value of an action set.
pub struct ActionSetView {
    pub handle: u64,
    pub name: Seq<char>,
    pub default_priority: u32,
    pub actions: Seq<u64>,
    pub baked: Option<Seq<u64>>,
}

impl View for ActionSet {
    type V = ActionSetView;

    open spec fn view(&self) -> ActionSetView {
        ActionSetView {
            handle: self.handle,
            name: self.name@,
            default_priority: self.default_priority,
            actions: self.actions@,
            baked: match self.baked_actions {
                Some(b) => Some(b@),
                None => None,
            },
        }
    }
}

/// The action at handle `h` (handles start at 1).
pub open spec fn action_at(actions: Seq<ActionView>, h: u64) -> ActionView {
    actions[h - 1]
}

/// `h` is the handle of one of `actions`.
pub open spec fn valid_handle(actions: Seq<ActionView>, h: u64) -> bool {
    1 <= h <= actions.len()
}

/// The compound links of the action at index `i` agree with the actions they
/// point to: a child's parent lists it as its child of its kind, and each
/// child listed by a parent names that parent.
pub open spec fn links_ok(actions: Seq<ActionView>, i: int) -> bool {
    match actions[i].compound {
        ActionCompoundType::Child { parent, ty } => {
            &&& valid_handle(actions, parent)
            &&& action_at(actions, parent).compound matches ActionCompoundType::Parent { ty: p }
                && parent_child(p, ty) == Some((i + 1) as u64)
        },
        ActionCompoundType::Parent { ty: p } => {
            forall|k: ChildActionType| #[trigger]
                parent_child(p, k) is Some ==> {
                    &&& valid_handle(actions, parent_child(p, k)->0)
                    &&& action_at(actions, parent_child(p, k)->0).compound
                        == (ActionCompoundType::Child { parent: (i + 1) as u64, ty: k })
                }
        },
        ActionCompoundType::Single => true,
    }
}

/// The registry of action sets and actions of an instance is well formed:
/// handles are dense (action `i` has handle `i + 1`, set `j` has handle `j`),
/// every action belongs to an existing set and is listed by exactly that set,
/// and compound links are consistent.
pub open spec fn registry_wf(sets: Seq<ActionSetView>, actions: Seq<ActionView>) -> bool {
    &&& forall|i: int|
        0 <= i < actions.len() ==> {
            &&& #[trigger] actions[i].handle == i + 1
            &&& actions[i].action_set < sets.len()
            &&& links_ok(actions, i)
            &&& sets[actions[i].action_set as int].actions.contains((i + 1) as u64)
        }
    &&& forall|j: int|
        0 <= j < sets.len() ==> {
            &&& #[trigger] sets[j].handle == j
            &&& sets[j].baked matches Some(b) ==> b.len() <= sets[j].actions.len() && b == sets[j].actions.take(b.len() as int)
            &&& forall|k: int|
                0 <= k < sets[j].actions.len() ==> {
                    &&& valid_handle(actions, #[trigger] sets[j].actions[k])
                    &&& action_at(actions, sets[j].actions[k]).action_set == j
                }
        }
}

/// The name of a child action: the one given, or the default.
pub open spec fn child_name(given: Option<String>, default: Seq<char>) -> Seq<char> {
    match given {
        Some(s) => s@,
        None => default,
    }
}

/// An action with the given fields.
pub open spec fn action_view(
    handle: int,
    set: u64,
    name: Seq<char>,
    data_type: ActionTypeEnum,
    compound: ActionCompoundType,
) -> ActionView {
    ActionView { handle: handle as u64, action_set: set, name, data_type, compound }
}

/// A child action at handle `n + k` of the parent created at handle `n + p`.
pub open spec fn child_view(
    n: int,
    k: int,
    p: int,
    set: u64,
    name: Seq<char>,
    data_type: ActionTypeEnum,
    ty: ChildActionType,
) -> ActionView {
    action_view(
        n + k,
        set,
        name,
        data_type,
        ActionCompoundType::Child { parent: (n + p) as u64, ty },
    )
}

/// The actions that creating the action `name` with `info` in set `set`
/// appends to a registry of `n` actions: the child actions first, in a fixed
/// order, then the action itself, which comes last.
pub open spec fn created_actions(
    n: int,
    set: u64,
    name: Seq<char>,
    info: ActionCreateInfo,
) -> Seq<ActionView> {
    match info {
        ActionCreateInfo::Boolean { sticky } => {
            if sticky {
                seq![
                    child_view(n, 1, 4, set, "sticky_press"@, ActionTypeEnum::Boolean, ChildActionType::StickyPress),
                    child_view(n, 2, 4, set, "sticky_release"@, ActionTypeEnum::Boolean, ChildActionType::StickyRelease),
                    child_view(n, 3, 4, set, "sticky_toggle"@, ActionTypeEnum::Boolean, ChildActionType::StickyToggle),
                    action_view(n + 4, set, name, ActionTypeEnum::Boolean, ActionCompoundType::Parent {
                        ty: ParentActionType::StickyBool {
                            sticky_press: (n + 1) as u64,
                            sticky_release: (n + 2) as u64,
                            sticky_toggle: (n + 3) as u64,
                        },
                    }),
                ]
            } else {
                seq![action_view(n + 1, set, name, ActionTypeEnum::Boolean, ActionCompoundType::Single)]
            }
        },
        ActionCreateInfo::Delta2D => seq![
            action_view(n + 1, set, name, ActionTypeEnum::Delta2d, ActionCompoundType::Single),
        ],
        ActionCreateInfo::Cursor => seq![
            action_view(n + 1, set, name, ActionTypeEnum::Cursor, ActionCompoundType::Single),
        ],
        ActionCreateInfo::Value => seq![
            action_view(n + 1, set, name, ActionTypeEnum::Value, ActionCompoundType::Single),
        ],
        ActionCreateInfo::Axis1d { positive, negative } => seq![
            child_view(n, 1, 3, set, child_name(positive, "positive"@), ActionTypeEnum::Value, ChildActionType::Positive),
            child_view(n, 2, 3, set, child_name(negative, "negative"@), ActionTypeEnum::Value, ChildActionType::Negative),
            action_view(n + 3, set, name, ActionTypeEnum::Axis1d, ActionCompoundType::Parent {
                ty: ParentActionType::Axis1d { positive: (n + 1) as u64, negative: (n + 2) as u64 },
            }),
        ],
        ActionCreateInfo::Axis2d { up, down, left, right, vertical, horizontal } => seq![
            child_view(n, 1, 7, set, child_name(up, "up"@), ActionTypeEnum::Value, ChildActionType::Up),
            child_view(n, 2, 7, set, child_name(down, "down"@), ActionTypeEnum::Value, ChildActionType::Down),
            child_view(n, 3, 7, set, child_name(left, "left"@), ActionTypeEnum::Value, ChildActionType::Left),
            child_view(n, 4, 7, set, child_name(right, "right"@), ActionTypeEnum::Value, ChildActionType::Right),
            child_view(n, 5, 7, set, child_name(vertical, "vertical"@), ActionTypeEnum::Axis1d, ChildActionType::Vertical),
            child_view(n, 6, 7, set, child_name(horizontal, "horizontal"@), ActionTypeEnum::Axis1d, ChildActionType::Horizontal),
            action_view(n + 7, set, name, ActionTypeEnum::Axis2d, ActionCompoundType::Parent {
                ty: ParentActionType::Axis2d {
                    up: (n + 1) as u64,
                    down: (n + 2) as u64,
                    left: (n + 3) as u64,
                    right: (n + 4) as u64,
                    vertical: (n + 5) as u64,
                    horizontal: (n + 6) as u64,
                },
            }),
        ],
    }
}

/// The data type of a child action of each kind: the parts of a sticky
/// boolean are booleans, the directions of an axis are values, and the two
/// axes of a 2D axis are 1D axes.
pub open spec fn child_data_type(k: ChildActionType) -> Option<ActionTypeEnum> {
    match k {
        ChildActionType::StickyPress | ChildActionType::StickyRelease | ChildActionType::StickyToggle => Some(
            ActionTypeEnum::Boolean,
        ),
        ChildActionType::Positive | ChildActionType::Negative | ChildActionType::Up | ChildActionType::Down
        | ChildActionType::Left | ChildActionType::Right => Some(ActionTypeEnum::Value),
        ChildActionType::Vertical | ChildActionType::Horizontal => Some(ActionTypeEnum::Axis1d),
        ChildActionType::Move | ChildActionType::Parent => None,
    }
}

/// The default name of a child action of each kind.
pub open spec fn default_child_name(k: ChildActionType) -> Seq<char> {
    match k {
        ChildActionType::StickyPress => "sticky_press"@,
        ChildActionType::StickyRelease => "sticky_release"@,
        ChildActionType::StickyToggle => "sticky_toggle"@,
        ChildActionType::Positive => "positive"@,
        ChildActionType::Negative => "negative"@,
        ChildActionType::Up => "up"@,
        ChildActionType::Down => "down"@,
        ChildActionType::Left => "left"@,
        ChildActionType::Right => "right"@,
        ChildActionType::Vertical => "vertical"@,
        ChildActionType::Horizontal => "horizontal"@,
        ChildActionType::Move => "move"@,
        ChildActionType::Parent => "parent"@,
    }
}

/// The name that `info` gives the child action of kind `k`, if any.
pub open spec fn given_child_name(info: ActionCreateInfo, k: ChildActionType) -> Option<String> {
    match info {
        ActionCreateInfo::Axis1d { positive, negative } => match k {
            ChildActionType::Positive => positive,
            ChildActionType::Negative => negative,
            _ => None,
        },
        ActionCreateInfo::Axis2d { up, down, left, right, vertical, horizontal } => match k {
            ChildActionType::Up => up,
            ChildActionType::Down => down,
            ChildActionType::Left => left,
            ChildActionType::Right => right,
            ChildActionType::Vertical => vertical,
            ChildActionType::Horizontal => horizontal,
            _ => None,
        },
        _ => None,
    }
}

/// The data type of an action created with `info`.
pub open spec fn created_data_type(info: ActionCreateInfo) -> ActionTypeEnum {
    match info {
        ActionCreateInfo::Boolean { .. } => ActionTypeEnum::Boolean,
        ActionCreateInfo::Delta2D => ActionTypeEnum::Delta2d,
        ActionCreateInfo::Cursor => ActionTypeEnum::Cursor,
        ActionCreateInfo::Value => ActionTypeEnum::Value,
        ActionCreateInfo::Axis1d { .. } => ActionTypeEnum::Axis1d,
        ActionCreateInfo::Axis2d { .. } => ActionTypeEnum::Axis2d,
    }
}

/// Creating an action gives the action itself, last, its name and the data
/// type of its create info, and each child action the data type of its
/// kind and the name given for that kind or else the kind's default name;
/// the handles follow on from the registry, the children are of distinct
/// kinds, each points at the action created last, and that action lists it
/// as its child of that kind.
pub proof fn lemma_created_data_types(n: int, set: u64, name: Seq<char>, info: ActionCreateInfo)
    requires
        0 <= n,
        n + 7 <= u64::MAX,
    ensures
        created_actions(n, set, name, info).len() >= 1,
        created_actions(n, set, name, info).last().data_type == created_data_type(info),
        forall|i: int| #![trigger created_actions(n, set, name, info)[i]]
            0 <= i < created_actions(n, set, name, info).len() - 1 ==> (created_actions(n, set, name, info)[i].compound matches ActionCompoundType::Child { parent, ty }
                && parent == n + created_actions(n, set, name, info).len()
                && child_data_type(ty) == Some(created_actions(n, set, name, info)[i].data_type)
                && created_actions(n, set, name, info)[i].name == child_name(given_child_name(info, ty), default_child_name(ty))
                && created_actions(n, set, name, info)[i].handle == n + i + 1
                && (created_actions(n, set, name, info).last().compound matches ActionCompoundType::Parent { ty: p }
                && parent_child(p, ty) == Some((n + i + 1) as u64))),
        created_actions(n, set, name, info).last().name == name,
        created_actions(n, set, name, info).last().handle == n + created_actions(n, set, name, info).len(),
        forall|i: int, j: int| #![trigger created_actions(n, set, name, info)[i], created_actions(n, set, name, info)[j]]
            0 <= i < j < created_actions(n, set, name, info).len() - 1 ==> created_actions(n, set, name, info)[i].compound
                != created_actions(n, set, name, info)[j].compound,
{
}

/// A compound action is stored with the kind of its own data type: a
/// sticky boolean action as a sticky boolean, a 1D axis action as a 1D
/// axis, a 2D axis action as a 2D axis.
pub proof fn lemma_created_serial_kind(n: int, set: u64, name: Seq<char>, info: ActionCreateInfo)
    ensures
        created_actions(n, set, name, info).last().compound matches ActionCompoundType::Parent { ty } ==> {
            &&& (serial_kind(ty) == crate::serial::ParentActionType::StickyBool) <==> (created_data_type(info) == ActionTypeEnum::Boolean)
            &&& (serial_kind(ty) == crate::serial::ParentActionType::Axis1d) <==> (created_data_type(info) == ActionTypeEnum::Axis1d)
            &&& (serial_kind(ty) == crate::serial::ParentActionType::Axis2d) <==> (created_data_type(info) == ActionTypeEnum::Axis2d)
        },
{
}

/// The handles `n + 1 ..= n + count`.
pub open spec fn handle_range(n: int, count: int) -> Seq<u64> {
    Seq::new(count as nat, |i: int| (n + i + 1) as u64)
}

/// Appending actions created in one set, whose links are consistent within
/// the extended registry, keeps the registry well formed.
#[verifier::spinoff_prover]
proof fn lemma_wf_append(
    old_sets: Seq<ActionSetView>,
    old_actions: Seq<ActionView>,
    set: u64,
    created: Seq<ActionView>,
    new_sets: Seq<ActionSetView>,
    new_actions: Seq<ActionView>,
)
    requires
        registry_wf(old_sets, old_actions),
        set < old_sets.len(),
        new_actions == old_actions + created,
        new_actions.len() < u64::MAX,
        new_sets == old_sets.update(
            set as int,
            ActionSetView {
                actions: old_sets[set as int].actions + handle_range(
                    old_actions.len() as int,
                    created.len() as int,
                ),
                ..old_sets[set as int]
            },
        ),
        forall|k: int|
            0 <= k < created.len() ==> {
                &&& #[trigger] created[k].handle == old_actions.len() + k + 1
                &&& created[k].action_set == set
                &&& links_ok(new_actions, old_actions.len() + k)
            },
    ensures
        registry_wf(new_sets, new_actions),
{
    let n = old_actions.len() as int;
    let r = handle_range(n, created.len() as int);
    assert forall|i: int| 0 <= i < new_actions.len() implies {
        &&& #[trigger] new_actions[i].handle == i + 1
        &&& new_actions[i].action_set < new_sets.len()
        &&& links_ok(new_actions, i)
        &&& new_sets[new_actions[i].action_set as int].actions.contains((i + 1) as u64)
    } by {
        if i < n {
            assert(new_actions[i] == old_actions[i]);
            assert(old_actions[i].handle == i + 1);
            let s = old_actions[i].action_set as int;
            assert(old_sets[s].actions.contains((i + 1) as u64));
            let w = choose|w: int| 0 <= w < old_sets[s].actions.len() && old_sets[s].actions[w] == (i + 1) as u64;
            if s == set as int {
                assert(new_sets[s].actions[w] == (i + 1) as u64);
            } else {
                assert(new_sets[s] == old_sets[s]);
            }
            match old_actions[i].compound {
                ActionCompoundType::Child { parent, ty } => {
                    assert(action_at(new_actions, parent) == action_at(old_actions, parent));
                },
                ActionCompoundType::Parent { ty: p } => {
                    assert forall|k: ChildActionType| #[trigger]
                        parent_child(p, k) is Some implies {
                            &&& valid_handle(new_actions, parent_child(p, k)->0)
                            &&& action_at(new_actions, parent_child(p, k)->0).compound
                                == (ActionCompoundType::Child { parent: (i + 1) as u64, ty: k })
                        } by {
                        let c = parent_child(p, k)->0;
                        assert(action_at(new_actions, c) == action_at(old_actions, c));
                    }
                },
                ActionCompoundType::Single => {},
            }
        } else {
            let k = i - n;
            assert(new_actions[i] == created[k]);
            assert(created[k].handle == n + k + 1);
            let base = old_sets[set as int].actions;
            assert(new_sets[set as int].actions[base.len() + k] == r[k]);
        }
    }
    assert forall|j: int| 0 <= j < new_sets.len() implies {
        &&& #[trigger] new_sets[j].handle == j
        &&& new_sets[j].baked matches Some(b) ==> b.len() <= new_sets[j].actions.len() && b == new_sets[j].actions.take(b.len() as int)
        &&& forall|k: int|
            0 <= k < new_sets[j].actions.len() ==> {
                &&& valid_handle(new_actions, #[trigger] new_sets[j].actions[k])
                &&& action_at(new_actions, new_sets[j].actions[k]).action_set == j
            }
    } by {
        if j == set as int {
            let base = old_sets[j].actions;
            assert(old_sets[j].handle == j);
            assert(new_sets[j].baked == old_sets[j].baked);
            assert(new_sets[j].actions == base + r);
            match old_sets[j].baked {
                Some(b) => {
                    assert((base + r).take(b.len() as int) =~= base.take(b.len() as int));
                },
                None => {},
            }
            assert forall|k: int| 0 <= k < new_sets[j].actions.len() implies {
                &&& valid_handle(new_actions, #[trigger] new_sets[j].actions[k])
                &&& action_at(new_actions, new_sets[j].actions[k]).action_set == j
            } by {
                if k < base.len() {
                    assert(old_sets[j].handle == j);
                    assert(new_sets[j].actions[k] == base[k]);
                    assert(action_at(new_actions, base[k]) == action_at(old_actions, base[k]));
                } else {
                    let m = k - base.len();
                    assert(new_sets[j].actions[k] == r[m]);
                    assert(r[m] == n + m + 1);
                    assert(created[m].handle == n + m + 1);
                    assert(new_actions[n + m] == created[m]);
                    assert(action_at(new_actions, r[m]) == created[m]);
                }
            }
        } else {
            assert(new_sets[j] == old_sets[j]);
            assert(old_sets[j].handle == j);
            assert forall|k: int| 0 <= k < new_sets[j].actions.len() implies {
                &&& valid_handle(new_actions, #[trigger] new_sets[j].actions[k])
                &&& action_at(new_actions, new_sets[j].actions[k]).action_set == j
            } by {
                let h = old_sets[j].actions[k];
                assert(action_at(new_actions, h) == action_at(old_actions, h));
            }
        }
    }
}

/// An instance: a registry of action sets and actions.
pub struct Instance {
    handle: u64,
    action_sets: Vec<ActionSet>,
    actions: Vec<Action>,
}

impl Instance {
    /// The handle of the instance.
    pub closed spec fn id(self) -> u64 {
        self.handle
    }

    /// The handle of this instance.
    pub fn handle(&self) -> (h: u64)
        ensures
            h == self.id(),
    {
        self.handle
    }

    /// The action sets, the one with handle `h` at index `h`.
    pub closed spec fn sets(self) -> Seq<ActionSetView> {
        self.action_sets@.map_values(|s: ActionSet| s@)
    }

    /// The actions, the one with handle `h` at index `h - 1`.
    pub closed spec fn all_actions(self) -> Seq<ActionView> {
        self.actions@.map_values(|a: Action| a@)
    }

    /// The registry of this instance is well formed.
    pub open spec fn wf(self) -> bool {
        registry_wf(self.sets(), self.all_actions())
    }

    /// An empty instance with the given handle.
    pub fn new(handle: u64) -> (r: Self)
        ensures
            r.id() == handle,
            r.wf(),
            r.sets() == Seq::<ActionSetView>::empty(),
            r.all_actions() == Seq::<ActionView>::empty(),
    {
        let r = Instance { handle, action_sets: Vec::new(), actions: Vec::new() };
        assert(r.sets() =~= Seq::<ActionSetView>::empty());
        assert(r.all_actions() =~= Seq::<ActionView>::empty());
        r
    }

    /// Creates an action set; its handle is the number of sets created before.
    pub fn create_action_set(&mut self, name: String, default_priority: u32) -> (h: u64)
        requires
            old(self).wf(),
            old(self).sets().len() < u64::MAX,
        ensures
            final(self).wf(),
            h == old(self).sets().len(),
            final(self).sets() == old(self).sets().push(
                ActionSetView { handle: h, name: name@, default_priority, actions: seq![], baked: None },
            ),
            final(self).all_actions() == old(self).all_actions(),
            final(self).id() == old(self).id(),
    {
        let h = self.action_sets.len() as u64;
        let ghost old_sets = self.sets();
        let set = ActionSet { handle: h, name, default_priority, actions: Vec::new(), baked_actions: None };
        assert(set@.actions =~= seq![]);
        self.action_sets.push(set);
        assert(self.sets() =~= old_sets.push(set@));
        h
    }

    /// Appends one action to the registry and to the list of its set.
    fn push_action(
        &mut self,
        set: u64,
        name: String,
        data_type: ActionTypeEnum,
        compound: ActionCompoundType,
    ) -> (h: u64)
        requires
            set < old(self).sets().len(),
            old(self).all_actions().len() < u64::MAX,
        ensures
            h == old(self).all_actions().len() + 1,
            final(self).all_actions() == old(self).all_actions().push(
                action_view(h as int, set, name@, data_type, compound),
            ),
            final(self).sets() == old(self).sets().update(
                set as int,
                ActionSetView {
                    actions: old(self).sets()[set as int].actions.push(h),
                    ..old(self).sets()[set as int]
                },
            ),
            final(self).id() == old(self).id(),
    {
        let h = self.actions.len() as u64 + 1;
        let ghost old_sets = self.sets();
        let ghost old_actions = self.all_actions();
        let action = Action { handle: h, action_set: set, name, data_type, compound };
        self.actions.push(action);
        assert(self.all_actions() =~= old_actions.push(action@));
        let n_sets = self.action_sets.len();
        assert(self.action_sets@.len() == old_sets.len());
        let idx = set as usize;
        let ghost v0 = self.action_sets@;
        assert(v0.len() == old_sets.len());
        assert(set < v0.len());
        assert(idx as int == set as int);
        let mut entry = self.action_sets.remove(idx);
        let ghost e0 = entry;
        entry.actions.push(h);
        self.action_sets.insert(idx, entry);
        assert(self.action_sets@ =~= v0.update(idx as int, entry));
        assert(e0 == v0[idx as int]);
        assert(old_sets[set as int] == v0[set as int]@);
        assert(entry@.actions =~= old_sets[set as int].actions.push(h));
        assert(entry@ == ActionSetView { actions: old_sets[set as int].actions.push(h), ..old_sets[set as int] });
        assert forall|i: int| 0 <= i < old_sets.len() implies #[trigger] self.sets()[i] == old_sets.update(set as int, entry@)[i] by {
            if i == set as int {
            } else {
                assert(self.action_sets@[i] == v0.update(idx as int, entry)[i]);
                assert(self.action_sets@[i] == v0[i]);
                assert(old_sets[i] == v0[i]@);
            }
        }
        assert(self.sets() =~= old_sets.update(set as int, entry@));
        h
    }

    /// Creates an action in set `set`. The child actions of a compound action
    /// are created first and the action itself last; returns its handle.
    pub fn create_action(&mut self, set: u64, name: String, create_info: ActionCreateInfo) -> (h:
        u64)
        requires
            old(self).wf(),
            set < old(self).sets().len(),
            old(self).all_actions().len() + 8 < u64::MAX,
        ensures
            final(self).wf(),
            ({
                let n = old(self).all_actions().len() as int;
                let created = created_actions(n, set, name@, create_info);
                &&& final(self).all_actions() == old(self).all_actions() + created
                &&& final(self).sets() == old(self).sets().update(
                    set as int,
                    ActionSetView {
                        actions: old(self).sets()[set as int].actions + handle_range(
                            n,
                            created.len() as int,
                        ),
                        ..old(self).sets()[set as int]
                    },
                )
                &&& h == n + created.len()
            }),
            final(self).id() == old(self).id(),
    {
        let ghost old_sets = self.sets();
        let ghost old_actions = self.all_actions();
        let n = self.actions.len() as u64;
        let ghost created = created_actions(n as int, set, name@, create_info);
        let h = match create_info {
            ActionCreateInfo::Boolean { sticky } => {
                if sticky {
                    self.push_action(set, "sticky_press".to_owned(), ActionTypeEnum::Boolean,
                        ActionCompoundType::Child { parent: n + 4, ty: ChildActionType::StickyPress });
                    self.push_action(set, "sticky_release".to_owned(), ActionTypeEnum::Boolean,
                        ActionCompoundType::Child { parent: n + 4, ty: ChildActionType::StickyRelease });
                    self.push_action(set, "sticky_toggle".to_owned(), ActionTypeEnum::Boolean,
                        ActionCompoundType::Child { parent: n + 4, ty: ChildActionType::StickyToggle });
                    self.push_action(set, name, ActionTypeEnum::Boolean, ActionCompoundType::Parent {
                        ty: ParentActionType::StickyBool {
                            sticky_press: n + 1,
                            sticky_release: n + 2,
                            sticky_toggle: n + 3,
                        },
                    })
                } else {
                    self.push_action(set, name, ActionTypeEnum::Boolean, ActionCompoundType::Single)
                }
            },
            ActionCreateInfo::Delta2D => {
                self.push_action(set, name, ActionTypeEnum::Delta2d, ActionCompoundType::Single)
            },
            ActionCreateInfo::Cursor => {
                self.push_action(set, name, ActionTypeEnum::Cursor, ActionCompoundType::Single)
            },
            ActionCreateInfo::Value => {
                self.push_action(set, name, ActionTypeEnum::Value, ActionCompoundType::Single)
            },
            ActionCreateInfo::Axis1d { positive, negative } => {
                self.push_action(set, name_or(positive, "positive"), ActionTypeEnum::Value,
                    ActionCompoundType::Child { parent: n + 3, ty: ChildActionType::Positive });
                self.push_action(set, name_or(negative, "negative"), ActionTypeEnum::Value,
                    ActionCompoundType::Child { parent: n + 3, ty: ChildActionType::Negative });
                self.push_action(set, name, ActionTypeEnum::Axis1d, ActionCompoundType::Parent {
                    ty: ParentActionType::Axis1d { positive: n + 1, negative: n + 2 },
                })
            },
            ActionCreateInfo::Axis2d { up, down, left, right, vertical, horizontal } => {
                self.push_action(set, name_or(up, "up"), ActionTypeEnum::Value,
                    ActionCompoundType::Child { parent: n + 7, ty: ChildActionType::Up });
                self.push_action(set, name_or(down, "down"), ActionTypeEnum::Value,
                    ActionCompoundType::Child { parent: n + 7, ty: ChildActionType::Down });
                self.push_action(set, name_or(left, "left"), ActionTypeEnum::Value,
                    ActionCompoundType::Child { parent: n + 7, ty: ChildActionType::Left });
                self.push_action(set, name_or(right, "right"), ActionTypeEnum::Value,
                    ActionCompoundType::Child { parent: n + 7, ty: ChildActionType::Right });
                self.push_action(set, name_or(vertical, "vertical"), ActionTypeEnum::Axis1d,
                    ActionCompoundType::Child { parent: n + 7, ty: ChildActionType::Vertical });
                self.push_action(set, name_or(horizontal, "horizontal"), ActionTypeEnum::Axis1d,
                    ActionCompoundType::Child { parent: n + 7, ty: ChildActionType::Horizontal });
                self.push_action(set, name, ActionTypeEnum::Axis2d, ActionCompoundType::Parent {
                    ty: ParentActionType::Axis2d {
                        up: n + 1,
                        down: n + 2,
                        left: n + 3,
                        right: n + 4,
                        vertical: n + 5,
                        horizontal: n + 6,
                    },
                })
            },
        };
        proof {
            assert(self.all_actions() =~= old_actions + created);
            let r = handle_range(n as int, created.len() as int);
            assert(self.sets()[set as int].actions =~= old_sets[set as int].actions + r);
            assert(self.sets() =~= old_sets.update(
                set as int,
                ActionSetView { actions: old_sets[set as int].actions + r, ..old_sets[set as int] },
            ));
            let new_actions = self.all_actions();
            assert forall|k: int| 0 <= k < created.len() implies {
                &&& #[trigger] created[k].handle == old_actions.len() + k + 1
                &&& created[k].action_set == set
                &&& links_ok(new_actions, old_actions.len() + k)
            } by {
                assert(new_actions[old_actions.len() + k] == created[k]);
            }
            lemma_wf_append(old_sets, old_actions, set, created, self.sets(), new_actions);
        }
        h
    }
}

/// The actions that application instances take from a set: those it held
/// when an application instance first took it, or, before that, all of its
/// actions.
pub open spec fn baked_of(set: ActionSetView) -> Seq<u64> {
    match set.baked {
        Some(b) => b,
        None => set.actions,
    }
}

/// A copy of a list of handles.
fn copy_handles(v: &Vec<u64>) -> (r: Vec<u64>)
    ensures
        r@ == v@,
{
    let mut out: Vec<u64> = Vec::new();
    let mut t: usize = 0;
    while t < v.len()
        invariant
            0 <= t <= v@.len(),
            out@ == v@.take(t as int),
        decreases v@.len() - t,
    {
        out.push(v[t]);
        assert(out@ =~= v@.take(t + 1));
        t = t + 1;
    }
    assert(v@.take(v@.len() as int) =~= v@);
    out
}

impl Instance {
    /// The actions that application instances take from set `h`: the set
    /// keeps the actions it holds now as its baked actions, unless it was
    /// baked before.
    #[verifier::spinoff_prover]
    pub fn bake_action_set(&mut self, h: u64) -> (r: Vec<u64>)
        requires
            old(self).wf(),
            h < old(self).sets().len(),
        ensures
            final(self).wf(),
            final(self).id() == old(self).id(),
            final(self).all_actions() == old(self).all_actions(),
            r@ == baked_of(old(self).sets()[h as int]),
            final(self).sets() == old(self).sets().update(
                h as int,
                ActionSetView { baked: Some(r@), ..old(self).sets()[h as int] },
            ),
    {
        let n = self.action_sets.len();
        assert(h < n);
        let i = h as usize;
        let ghost old_sets = self.sets();
        let ghost v0 = self.action_sets@;
        assert(old_sets[h as int] == v0[h as int]@);
        let baked = match &self.action_sets[i].baked_actions {
            Some(b) => copy_handles(b),
            None => copy_handles(&self.action_sets[i].actions),
        };
        let keep = copy_handles(&baked);
        self.action_sets[i].baked_actions = Some(keep);
        proof {
            assert(self.action_sets@[h as int]@ == ActionSetView { baked: Some(baked@), ..old_sets[h as int] });
            assert forall|j: int| 0 <= j < old_sets.len() implies #[trigger] self.sets()[j] == old_sets.update(
                h as int,
                ActionSetView { baked: Some(baked@), ..old_sets[h as int] },
            )[j] by {
                if j != h as int {
                    assert(self.action_sets@[j] == v0[j]);
                }
            }
            assert(self.sets() =~= old_sets.update(h as int, ActionSetView { baked: Some(baked@), ..old_sets[h as int] }));
            let sets = self.sets();
            let actions = self.all_actions();
            assert(old_sets[h as int].handle == h);
            assert forall|j: int| 0 <= j < sets.len() implies {
                &&& #[trigger] sets[j].handle == j
                &&& sets[j].baked matches Some(b) ==> b.len() <= sets[j].actions.len() && b == sets[j].actions.take(b.len() as int)
                &&& forall|k: int|
                    0 <= k < sets[j].actions.len() ==> {
                        &&& valid_handle(actions, #[trigger] sets[j].actions[k])
                        &&& action_at(actions, sets[j].actions[k]).action_set == j
                    }
            } by {
                assert(old_sets[j].handle == j);
                if j == h as int {
                    if old_sets[j].baked is None {
                        assert(old_sets[j].actions.take(old_sets[j].actions.len() as int) =~= old_sets[j].actions);
                    }
                }
            }
            assert forall|q: int| 0 <= q < actions.len() implies {
                &&& #[trigger] actions[q].handle == q + 1
                &&& actions[q].action_set < sets.len()
                &&& links_ok(actions, q)
                &&& sets[actions[q].action_set as int].actions.contains((q + 1) as u64)
            } by {
                assert(actions[q].handle == q + 1);
                let s = actions[q].action_set as int;
                assert(s < old_sets.len());
                assert(sets[s].actions == old_sets[s].actions);
            }
            assert(registry_wf(sets, actions));
        }
        baked
    }
}

impl Instance {
    /// The action with handle `h`, if there is one.
    pub fn get_action(&self, h: u64) -> (r: Option<&Action>)
        requires
            self.wf(),
        ensures
            r is Some <==> valid_handle(self.all_actions(), h),
            r matches Some(a) ==> a@ == action_at(self.all_actions(), h),
    {
        if h >= 1 && h <= self.actions.len() as u64 {
            let r = &self.actions[(h - 1) as usize];
            Some(r)
        } else {
            None
        }
    }

    /// The action set with handle `h`, if there is one.
    pub fn get_action_set(&self, h: u64) -> (r: Option<&ActionSet>)
        ensures
            r is Some <==> h < self.sets().len(),
            r matches Some(s) ==> s@ == self.sets()[h as int],
    {
        if h < self.action_sets.len() as u64 {
            Some(&self.action_sets[h as usize])
        } else {
            None
        }
    }

    /// The number of actions of this instance.
    pub fn action_count(&self) -> (n: usize)
        ensures
            n == self.all_actions().len(),
    {
        self.actions.len()
    }

    /// The number of action sets of this instance.
    pub fn action_set_count(&self) -> (n: usize)
        ensures
            n == self.sets().len(),
    {
        self.action_sets.len()
    }
}

/// In a well-formed registry, the child of kind `ty` that a compound action
/// lists exists and names that action as its parent, with the same kind.
pub proof fn lemma_child_links_back(
    sets: Seq<ActionSetView>,
    actions: Seq<ActionView>,
    parent: u64,
    ty: ChildActionType,
)
    requires
        registry_wf(sets, actions),
        valid_handle(actions, parent),
        action_at(actions, parent).compound matches ActionCompoundType::Parent { ty: p }
            && parent_child(p, ty) is Some,
    ensures
        ({
            let c = parent_child(action_at(actions, parent).compound->Parent_ty, ty)->0;
            &&& valid_handle(actions, c)
            &&& action_at(actions, c).compound == (ActionCompoundType::Child { parent, ty })
            &&& action_at(actions, c).action_set < sets.len()
        }),
{
    let i = parent - 1;
    assert(actions[i].handle == i + 1);
    let p = action_at(actions, parent).compound->Parent_ty;
    assert(parent_child(p, ty) is Some);
    let c = parent_child(p, ty)->0;
    assert(actions[c - 1].handle == c);
}

/// In a well-formed registry, a child action's parent exists, is compound,
/// and lists this action as its child of the child's kind.
pub proof fn lemma_parent_links_back(
    sets: Seq<ActionSetView>,
    actions: Seq<ActionView>,
    child: u64,
)
    requires
        registry_wf(sets, actions),
        valid_handle(actions, child),
        action_at(actions, child).compound is Child,
    ensures
        ({
            let parent = action_at(actions, child).compound->parent;
            let ty = action_at(actions, child).compound->Child_ty;
            &&& valid_handle(actions, parent)
            &&& action_at(actions, parent).compound matches ActionCompoundType::Parent { ty: p }
                && parent_child(p, ty) == Some(child)
        }),
{
    let i = child - 1;
    assert(actions[i].handle == i + 1);
}

/// The given name, or the default one.
fn name_or(given: Option<String>, default: &str) -> (r: String)
    ensures
        r@ == child_name(given, default@),
{
    match given {
        Some(s) => s,
        None => default.to_owned(),
    }
}

} // verus!
