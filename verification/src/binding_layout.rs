use vstd::prelude::*;

use crate::action::{ActionTypeEnum, ActionView};
use crate::binding::SimpleBinding;
use crate::device_type::InputComponentType;
use crate::instance::{action_at, valid_handle, ActionSet, Instance};
use crate::interaction_profile_type::{ComponentLookup, InteractionProfileType};
use crate::interaction_profile_types::InteractionProfileTypes;
use crate::path_manager::{is_path_string, lemma_path_split, IdMap, NameMap, PathManager};
use crate::paths::{InputPath, InteractionProfilePath, UserPath};
use crate::types::{CreateBindingLayoutError, SuPath};

verus! {

/// The actions bound directly to each pair of user path and input path.
pub struct BindingLayoutState {
    direct_bindings: Vec<((SuPath, SuPath), u64)>,
}

/// How an input component drives an action. The float parameters of
/// movement and gyro bindings (unit sensitivity; player space with a yaw
/// axis relaxed by 60 degrees) are defaults that go with the kind.
#[derive(Debug, Clone, Copy, PartialEq, Eq, Structural)]
pub enum ProcessedBindingType {
    Button2Bool,
    Button2Value,
    Move2d2Delta2d,
    Trigger2Bool,
    Trigger2Value,
    Joystick2Axis2d,
    Gyro2Delta2d,
}

/// A binding of one input component of one user to one action.
#[derive(Debug, Clone, Copy)]
pub struct ProcessedInputBinding {
    pub ty: ProcessedBindingType,
    pub action: u64,
    pub action_type: ActionTypeEnum,
    pub input_component: (UserPath, InputPath),
}

/// The binding kind that connects an input component of kind `component`
/// to an action of type `action`, if they fit together.
pub open spec fn spec_binding_type(component: InputComponentType, action: ActionTypeEnum) -> Option<ProcessedBindingType> {
    match component {
        InputComponentType::Button => if action == ActionTypeEnum::Boolean {
            Some(ProcessedBindingType::Button2Bool)
        } else if action == ActionTypeEnum::Value {
            Some(ProcessedBindingType::Button2Value)
        } else {
            None
        },
        InputComponentType::Trigger => if action == ActionTypeEnum::Boolean {
            Some(ProcessedBindingType::Trigger2Bool)
        } else if action == ActionTypeEnum::Value {
            Some(ProcessedBindingType::Trigger2Value)
        } else {
            None
        },
        InputComponentType::Move2D => if action == ActionTypeEnum::Delta2d {
            Some(ProcessedBindingType::Move2d2Delta2d)
        } else {
            None
        },
        InputComponentType::Joystick => if action == ActionTypeEnum::Axis2d {
            Some(ProcessedBindingType::Joystick2Axis2d)
        } else {
            None
        },
        InputComponentType::Gyro(_) => if action == ActionTypeEnum::Delta2d {
            Some(ProcessedBindingType::Gyro2Delta2d)
        } else {
            None
        },
        InputComponentType::Accel => None,
        InputComponentType::Cursor => None,
    }
}

/// The binding kind that connects an input component of kind `component`
/// to an action of type `action`, if they fit together.
pub fn binding_type(component: InputComponentType, action: ActionTypeEnum) -> (r: Option<ProcessedBindingType>)
    ensures
        r == spec_binding_type(component, action),
{
    match component {
        InputComponentType::Button => match action {
            ActionTypeEnum::Boolean => Some(ProcessedBindingType::Button2Bool),
            ActionTypeEnum::Value => Some(ProcessedBindingType::Button2Value),
            _ => None,
        },
        InputComponentType::Trigger => match action {
            ActionTypeEnum::Boolean => Some(ProcessedBindingType::Trigger2Bool),
            ActionTypeEnum::Value => Some(ProcessedBindingType::Trigger2Value),
            _ => None,
        },
        InputComponentType::Move2D => match action {
            ActionTypeEnum::Delta2d => Some(ProcessedBindingType::Move2d2Delta2d),
            _ => None,
        },
        InputComponentType::Joystick => match action {
            ActionTypeEnum::Axis2d => Some(ProcessedBindingType::Joystick2Axis2d),
            _ => None,
        },
        InputComponentType::Gyro(_) => match action {
            ActionTypeEnum::Delta2d => Some(ProcessedBindingType::Gyro2Delta2d),
            _ => None,
        },
        InputComponentType::Accel => None,
        InputComponentType::Cursor => None,
    }
}

/// The kind of input component that a binding kind reads, as its name says
/// (`Button2..` reads a button, `Trigger2..` a trigger, and so on).
pub open spec fn reads_component(t: ProcessedBindingType, c: InputComponentType) -> bool {
    match t {
        ProcessedBindingType::Button2Bool | ProcessedBindingType::Button2Value => c is Button,
        ProcessedBindingType::Trigger2Bool | ProcessedBindingType::Trigger2Value => c is Trigger,
        ProcessedBindingType::Move2d2Delta2d => c is Move2D,
        ProcessedBindingType::Joystick2Axis2d => c is Joystick,
        ProcessedBindingType::Gyro2Delta2d => c is Gyro,
    }
}

/// The data type of the action that a binding kind drives, as its name says
/// (`..2Bool` drives a boolean action, `..2Value` a value action, and so on).
pub open spec fn drives_action_type(t: ProcessedBindingType) -> ActionTypeEnum {
    match t {
        ProcessedBindingType::Button2Bool | ProcessedBindingType::Trigger2Bool => ActionTypeEnum::Boolean,
        ProcessedBindingType::Button2Value | ProcessedBindingType::Trigger2Value => ActionTypeEnum::Value,
        ProcessedBindingType::Move2d2Delta2d | ProcessedBindingType::Gyro2Delta2d => ActionTypeEnum::Delta2d,
        ProcessedBindingType::Joystick2Axis2d => ActionTypeEnum::Axis2d,
    }
}

/// A component and an action are bound by exactly the binding kind that
/// reads that kind of component and drives that type of action; where no
/// kind does both, the binding is refused.
pub proof fn lemma_binding_kind_fits(component: InputComponentType, action: ActionTypeEnum)
    ensures
        forall|t: ProcessedBindingType| #![auto]
            spec_binding_type(component, action) == Some(t) <==> (reads_component(t, component)
                && drives_action_type(t) == action),
        spec_binding_type(component, action) is None <==> forall|t: ProcessedBindingType| #![auto]
            !(reads_component(t, component) && drives_action_type(t) == action),
{
    assert forall|t: ProcessedBindingType| #![auto]
        spec_binding_type(component, action) == Some(t) <==> (reads_component(t, component)
            && drives_action_type(t) == action) by {
        match t {
            ProcessedBindingType::Button2Bool => {},
            ProcessedBindingType::Button2Value => {},
            ProcessedBindingType::Move2d2Delta2d => {},
            ProcessedBindingType::Trigger2Bool => {},
            ProcessedBindingType::Trigger2Value => {},
            ProcessedBindingType::Joystick2Axis2d => {},
            ProcessedBindingType::Gyro2Delta2d => {},
        }
    }
    if spec_binding_type(component, action) is None {
        assert forall|t: ProcessedBindingType| #![auto]
            !(reads_component(t, component) && drives_action_type(t) == action) by {
            assert(spec_binding_type(component, action) != Some(t));
        }
    } else {
        let t = spec_binding_type(component, action)->0;
        assert(reads_component(t, component) && drives_action_type(t) == action);
    }
}

/// A trigger is bound only to a boolean action (as a click) or to a value
/// action (as its pull); any other action type is refused.
pub proof fn lemma_trigger_bindings(action: ActionTypeEnum)
    ensures
        spec_binding_type(InputComponentType::Trigger, action) is Some <==> (action == ActionTypeEnum::Boolean
            || action == ActionTypeEnum::Value),
        action == ActionTypeEnum::Boolean ==> spec_binding_type(InputComponentType::Trigger, action)
            == Some(ProcessedBindingType::Trigger2Bool),
        action == ActionTypeEnum::Value ==> spec_binding_type(InputComponentType::Trigger, action)
            == Some(ProcessedBindingType::Trigger2Value),
{
    lemma_binding_kind_fits(InputComponentType::Trigger, action);
    if action == ActionTypeEnum::Boolean {
        assert(reads_component(ProcessedBindingType::Trigger2Bool, InputComponentType::Trigger));
    } else if action == ActionTypeEnum::Value {
        assert(reads_component(ProcessedBindingType::Trigger2Value, InputComponentType::Trigger));
    } else if spec_binding_type(InputComponentType::Trigger, action) is Some {
        let t = spec_binding_type(InputComponentType::Trigger, action)->0;
        assert(reads_component(t, InputComponentType::Trigger));
    }
}

/// The abstract value of a refused binding layout.
pub enum LayoutError {
    InvalidPathHandle(SuPath),
    InvalidActionHandle(u64),
    BadInteractionProfilePath(Seq<char>),
    BadComponentPath(Seq<char>),
    BadUserPath(Seq<char>),
    BadBinding(SimpleBinding),
}

impl View for CreateBindingLayoutError {
    type V = LayoutError;

    open spec fn view(&self) -> LayoutError {
        match *self {
            CreateBindingLayoutError::InvalidPathHandle(p) => LayoutError::InvalidPathHandle(p),
            CreateBindingLayoutError::InvalidActionHandle(a) => LayoutError::InvalidActionHandle(a),
            CreateBindingLayoutError::BadInteractionProfilePath(s) => LayoutError::BadInteractionProfilePath(s@),
            CreateBindingLayoutError::BadComponentPath(s) => LayoutError::BadComponentPath(s@),
            CreateBindingLayoutError::BadUserPath(s) => LayoutError::BadUserPath(s@),
            CreateBindingLayoutError::BadBinding(b) => LayoutError::BadBinding(b),
        }
    }
}

/// The interned strings and their paths after `s` is interned.
pub open spec fn intern(ids: IdMap, names: NameMap, s: Seq<char>) -> (IdMap, NameMap, SuPath) {
    if ids.contains_key(s) {
        (ids, names, ids[s])
    } else {
        (ids.insert(s, SuPath(ids.len() as u32)), names.insert(SuPath(ids.len() as u32), s), SuPath(ids.len() as u32))
    }
}

/// `/input` stands at index `i` of `s`.
pub open spec fn marker_at(s: Seq<char>, i: int) -> bool {
    0 <= i && i + 6 <= s.len() && s.subrange(i, i + 6) == seq!['/', 'i', 'n', 'p', 'u', 't']
}

/// The first index from `k` on at which `/input` stands in `s`.
pub open spec fn first_marker_from(s: Seq<char>, k: int) -> Option<int>
    decreases s.len() - k,
{
    if k < 0 || k + 6 > s.len() {
        None
    } else if marker_at(s, k) {
        Some(k)
    } else {
        first_marker_from(s, k + 1)
    }
}

/// The index that `first_marker_from` finds holds `/input`.
proof fn lemma_first_marker(s: Seq<char>, j: int)
    requires
        first_marker_from(s, j) is Some,
    ensures
        marker_at(s, first_marker_from(s, j)->0),
        j <= first_marker_from(s, j)->0,
    decreases s.len() - j,
{
    if !(j < 0 || j + 6 > s.len()) && !marker_at(s, j) {
        lemma_first_marker(s, j + 1);
    }
}

/// The outcome of processing one binding, from the interned paths before it.
pub enum BindingStep {
    /// The binding is accepted, with the paths interned on the way.
    Next(IdMap, NameMap, ProcessedInputBinding),
    /// The binding is refused, with the paths interned before the refusal.
    Fail(IdMap, NameMap, LayoutError),
    /// The binding's path has no `/input` past its start.
    Stuck,
}

/// Processing one binding: its path is split before the first `/input`
/// into a user path and an input path, both interned; the user must be
/// served in the profile, the action must exist, and the input component
/// and the action's type must fit together.
pub open spec fn binding_step(
    ids: IdMap,
    names: NameMap,
    profile: InteractionProfileType,
    actions: Seq<ActionView>,
    b: SimpleBinding,
) -> BindingStep {
    if !names.contains_key(b.path) {
        BindingStep::Fail(ids, names, LayoutError::InvalidPathHandle(b.path))
    } else {
        let s = names[b.path];
        match first_marker_from(s, 0) {
            None => BindingStep::Stuck,
            Some(k) => if k == 0 {
                BindingStep::Stuck
            } else {
                let user_str = s.subrange(0, k);
                let component_str = s.subrange(k, s.len() as int);
                let first = intern(ids, names, user_str);
                let user = first.2;
                if !profile.user2device.map().contains_key(user) {
                    BindingStep::Fail(first.0, first.1, LayoutError::BadUserPath(user_str))
                } else {
                    let second = intern(first.0, first.1, component_str);
                    let component = second.2;
                    if !valid_handle(actions, b.action) {
                        BindingStep::Fail(second.0, second.1, LayoutError::InvalidActionHandle(b.action))
                    } else {
                        let a = action_at(actions, b.action);
                        match profile.spec_lookup_component(user, component) {
                            ComponentLookup::Found(ct) => match spec_binding_type(ct, a.data_type) {
                                Some(ty) => BindingStep::Next(second.0, second.1, ProcessedInputBinding {
                                    ty,
                                    action: a.handle,
                                    action_type: a.data_type,
                                    input_component: (user, component),
                                }),
                                None => BindingStep::Fail(second.0, second.1, LayoutError::BadBinding(b)),
                            },
                            _ => BindingStep::Fail(second.0, second.1, LayoutError::BadComponentPath(component_str)),
                        }
                    }
                }
            },
        }
    }
}

/// The outcome of processing a list of bindings in order.
pub enum LayoutOutcome {
    Done(IdMap, NameMap, Seq<ProcessedInputBinding>),
    Failed(IdMap, NameMap, LayoutError),
    /// Processing reached a binding whose path has no `/input` past its
    /// start, with these paths interned before it.
    Stuck(IdMap, NameMap),
}

/// Processing `bindings` in order from the interned paths `ids` and
/// `names`, stopping at the first refusal.
pub open spec fn process_bindings(
    ids: IdMap,
    names: NameMap,
    profile: InteractionProfileType,
    actions: Seq<ActionView>,
    bindings: Seq<SimpleBinding>,
) -> LayoutOutcome
    decreases bindings.len(),
{
    if bindings.len() == 0 {
        LayoutOutcome::Done(ids, names, Seq::empty())
    } else {
        match process_bindings(ids, names, profile, actions, bindings.drop_last()) {
            LayoutOutcome::Done(i, n, processed) => match binding_step(i, n, profile, actions, bindings.last()) {
                BindingStep::Next(i2, n2, pb) => LayoutOutcome::Done(i2, n2, processed.push(pb)),
                BindingStep::Fail(i2, n2, e) => LayoutOutcome::Failed(i2, n2, e),
                BindingStep::Stuck => LayoutOutcome::Stuck(i, n),
            },
            other => other,
        }
    }
}

/// Once processing stops, further bindings change nothing.
proof fn lemma_outcome_settles(
    ids: IdMap,
    names: NameMap,
    profile: InteractionProfileType,
    actions: Seq<ActionView>,
    bindings: Seq<SimpleBinding>,
    j: int,
)
    requires
        0 <= j <= bindings.len(),
        !(process_bindings(ids, names, profile, actions, bindings.take(j)) is Done),
    ensures
        process_bindings(ids, names, profile, actions, bindings) == process_bindings(ids, names, profile, actions, bindings.take(j)),
    decreases bindings.len() - j,
{
    if j == bindings.len() {
        assert(bindings.take(j) =~= bindings);
    } else {
        assert(bindings.drop_last().take(j) =~= bindings.take(j));
        lemma_outcome_settles(ids, names, profile, actions, bindings.drop_last(), j);
    }
}

/// The positions of the bindings of `processed` that drive `action`, in
/// order.
pub open spec fn indices_for_action(processed: Seq<ProcessedInputBinding>, action: u64) -> Seq<usize>
    decreases processed.len(),
{
    if processed.len() == 0 {
        Seq::empty()
    } else if processed.last().action == action {
        indices_for_action(processed.drop_last(), action).push((processed.len() - 1) as usize)
    } else {
        indices_for_action(processed.drop_last(), action)
    }
}

/// The positions of the bindings of `processed` that read `input`, in
/// order.
pub open spec fn indices_for_input(processed: Seq<ProcessedInputBinding>, input: (UserPath, InputPath)) -> Seq<usize>
    decreases processed.len(),
{
    if processed.len() == 0 {
        Seq::empty()
    } else if processed.last().input_component == input {
        indices_for_input(processed.drop_last(), input).push((processed.len() - 1) as usize)
    } else {
        indices_for_input(processed.drop_last(), input)
    }
}

/// The bindings of a layout, and for each action and for each input
/// component the positions of their bindings.
#[derive(Debug, Clone)]
pub struct ProcessedBindingLayout {
    pub bindings_index: Vec<ProcessedInputBinding>,
    bindings_for_action: Vec<(u64, Vec<usize>)>,
    bindings_for_input: Vec<((UserPath, InputPath), (Vec<usize>, u32))>,
}

impl ProcessedBindingLayout {
    /// The bindings, in the order of the layout.
    pub closed spec fn index(self) -> Seq<ProcessedInputBinding> {
        self.bindings_index@
    }

    /// Each action with a binding, and the positions of its bindings.
    pub closed spec fn for_action(self) -> Seq<(u64, Seq<usize>)> {
        self.bindings_for_action@.map_values(|e: (u64, Vec<usize>)| (e.0, e.1@))
    }

    /// Each input component with a binding, the positions of its bindings,
    /// and the highest priority among the active ones.
    pub closed spec fn for_input(self) -> Seq<((UserPath, InputPath), (Seq<usize>, u32))> {
        self.bindings_for_input@.map_values(|e: ((UserPath, InputPath), (Vec<usize>, u32))| (e.0, (e.1.0@, e.1.1)))
    }

    /// The layout holds `processed`, and each action and each input component
    /// of it is listed once with the positions of its bindings; only actions
    /// and input components with at least one binding are listed.
    pub open spec fn holds(self, processed: Seq<ProcessedInputBinding>) -> bool {
        &&& self.index() == processed
        &&& forall|i: int, j: int| 0 <= i < j < self.for_action().len() ==> self.for_action()[i].0 != self.for_action()[j].0
        &&& forall|i: int| 0 <= i < self.for_action().len() ==> (#[trigger] self.for_action()[i]).1 == indices_for_action(processed, self.for_action()[i].0)
        &&& forall|i: int| 0 <= i < self.for_action().len() ==> (#[trigger] self.for_action()[i]).1.len() > 0
        &&& forall|i: int| 0 <= i < self.for_input().len() ==> (#[trigger] self.for_input()[i]).1.0.len() > 0
        &&& forall|k: int| 0 <= k < processed.len() ==> exists|i: int| 0 <= i < self.for_action().len() && #[trigger] self.for_action()[i].0 == (#[trigger] processed[k]).action
        &&& forall|i: int, j: int| 0 <= i < j < self.for_input().len() ==> self.for_input()[i].0 != self.for_input()[j].0
        &&& forall|i: int| 0 <= i < self.for_input().len() ==> (#[trigger] self.for_input()[i]).1.0 == indices_for_input(processed, self.for_input()[i].0)
        &&& forall|k: int| 0 <= k < processed.len() ==> exists|i: int| 0 <= i < self.for_input().len() && #[trigger] self.for_input()[i].0 == (#[trigger] processed[k]).input_component
    }

    /// No input component's priority has been raised.
    pub open spec fn unraised(self) -> bool {
        forall|i: int| 0 <= i < self.for_input().len() ==> (#[trigger] self.for_input()[i]).1.1 == 0
    }

    /// The input component `key` is listed.
    pub open spec fn has_input(self, key: (UserPath, InputPath)) -> bool {
        exists|i: int| 0 <= i < self.for_input().len() && #[trigger] self.for_input()[i].0 == key
    }

    /// The highest priority among the active bindings of the input
    /// component `key`.
    pub open spec fn priority_of(self, key: (UserPath, InputPath)) -> u32 {
        self.for_input()[choose|i: int| 0 <= i < self.for_input().len() && #[trigger] self.for_input()[i].0 == key].1.1
    }
}

/// The characters of `s`.
fn chars_of(s: &str) -> (r: Vec<char>)
    ensures
        r@ == s@,
{
    let mut v: Vec<char> = Vec::new();
    for c in iter: s.chars()
        invariant
            iter.seq() == s@,
            v@ == iter.seq().take(iter.index() as int),
    {
        v.push(c);
        assert(v@ =~= iter.seq().take(iter.index() + 1));
    }
    assert(v@ =~= s@);
    v
}

/// The first index at which `/input` stands in `v`.
fn find_marker(v: &Vec<char>) -> (r: Option<usize>)
    ensures
        match r {
            Some(k) => first_marker_from(v@, 0) == Some(k as int),
            None => first_marker_from(v@, 0) is None,
        },
{
    let n = v.len();
    let mut i: usize = 0;
    while i <= n && n - i >= 6
        invariant
            n == v@.len(),
            i <= n,
            first_marker_from(v@, 0) == first_marker_from(v@, i as int),
        decreases n - i,
    {
        if v[i] == '/' && v[i + 1] == 'i' && v[i + 2] == 'n' && v[i + 3] == 'p' && v[i + 4] == 'u' && v[i + 5] == 't' {
            assert(v@.subrange(i as int, i + 6) =~= seq!['/', 'i', 'n', 'p', 'u', 't']);
            return Some(i);
        }
        assert(!marker_at(v@, i as int)) by {
            if marker_at(v@, i as int) {
                let m = v@.subrange(i as int, i + 6);
                assert(m[0] == v@[i as int] && m[1] == v@[i + 1] && m[2] == v@[i + 2]);
                assert(m[3] == v@[i + 3] && m[4] == v@[i + 4] && m[5] == v@[i + 5]);
            }
        }
        i = i + 1;
    }
    None
}

impl ProcessedBindingLayout {
    /// A layout without bindings.
    fn empty() -> (r: Self)
        ensures
            r.holds(Seq::empty()),
            r.unraised(),
    {
        ProcessedBindingLayout { bindings_index: Vec::new(), bindings_for_action: Vec::new(), bindings_for_input: Vec::new() }
    }

    /// Appends `pb`, listing its position under its action and its input
    /// component.
    fn push_binding(&mut self, pb: ProcessedInputBinding, Ghost(processed): Ghost<Seq<ProcessedInputBinding>>)
        requires
            old(self).holds(processed),
            processed.len() < usize::MAX,
        ensures
            final(self).holds(processed.push(pb)),
            old(self).unraised() ==> final(self).unraised(),
    {
        let idx = self.bindings_index.len();
        self.bindings_index.push(pb);
        let ghost next = processed.push(pb);
        assert(next.drop_last() =~= processed);
        assert(next.last() == pb);

        let mut j: usize = 0;
        let na = self.bindings_for_action.len();
        while j < na && self.bindings_for_action[j].0 != pb.action
            invariant
                na == self.bindings_for_action@.len(),
                j <= na,
                forall|k: int| 0 <= k < j ==> self.for_action()[k].0 != pb.action,
            decreases na - j,
        {
            j = j + 1;
        }
        let ghost old_actions = self.for_action();
        assert(old_actions == old(self).for_action());
        if j < na {
            self.bindings_for_action[j].1.push(idx);
            proof {
                assert(self.for_action().len() == old_actions.len());
                assert forall|k: int| 0 <= k < self.for_action().len() implies (#[trigger] self.for_action()[k]).0 == old_actions[k].0 by {
                    if k != j {
                        assert(self.for_action()[k] == old_actions[k]);
                    }
                }
                assert forall|a: int, b: int| 0 <= a < b < self.for_action().len() implies self.for_action()[a].0 != self.for_action()[b].0 by {
                    assert(self.for_action()[a].0 == old_actions[a].0);
                    assert(self.for_action()[b].0 == old_actions[b].0);
                }
                assert forall|k: int| 0 <= k < self.for_action().len() implies (#[trigger] self.for_action()[k]).1
                    == indices_for_action(next, self.for_action()[k].0) by {
                    assert(old_actions[k].1 == indices_for_action(processed, old_actions[k].0));
                    if k == j {
                        assert(self.for_action()[k].0 == pb.action);
                        assert(self.for_action()[k].1 =~= old_actions[k].1.push(idx));
                        assert(indices_for_action(next, pb.action) == indices_for_action(processed, pb.action).push(idx));
                    } else {
                        assert(self.for_action()[k] == old_actions[k]);
                        if k < j {
                            assert(old_actions[k].0 != old_actions[j as int].0);
                        } else {
                            assert(old_actions[j as int].0 != old_actions[k].0);
                        }
                        assert(indices_for_action(next, old_actions[k].0) == indices_for_action(processed, old_actions[k].0));
                    }
                }
                assert forall|k: int| 0 <= k < next.len() implies exists|i: int| 0 <= i < self.for_action().len()
                    && #[trigger] self.for_action()[i].0 == (#[trigger] next[k]).action by {
                    if k < processed.len() {
                        assert(next[k] == processed[k]);
                        let i = choose|i: int| 0 <= i < old_actions.len() && old_actions[i].0 == processed[k].action;
                        assert(self.for_action()[i].0 == old_actions[i].0);
                    } else {
                        assert(self.for_action()[j as int].0 == next[k].action);
                    }
                }
            }
        } else {
            let fresh = vec![idx];
            assert(fresh@ =~= seq![idx]);
            self.bindings_for_action.push((pb.action, fresh));
            proof {
                assert(self.for_action() =~= old_actions.push((pb.action, seq![idx])));
                assert forall|a: int, b: int| 0 <= a < b < self.for_action().len() implies self.for_action()[a].0 != self.for_action()[b].0 by {
                    if b == na {
                        assert(self.for_action()[a] == old_actions[a]);
                    } else {
                        assert(self.for_action()[a] == old_actions[a]);
                        assert(self.for_action()[b] == old_actions[b]);
                    }
                }
                assert(indices_for_action(processed, pb.action) =~= Seq::<usize>::empty()) by {
                    if indices_for_action(processed, pb.action).len() > 0 {
                        lemma_indices_for_action_listed(processed, pb.action);
                        let k = choose|k: int| 0 <= k < processed.len() && processed[k].action == pb.action;
                        let i = choose|i: int| 0 <= i < old_actions.len() && old_actions[i].0 == processed[k].action;
                    }
                }
                assert forall|k: int| 0 <= k < next.len() implies exists|i: int| 0 <= i < self.for_action().len()
                    && #[trigger] self.for_action()[i].0 == (#[trigger] next[k]).action by {
                    if k < processed.len() {
                        assert(next[k] == processed[k]);
                        let i = choose|i: int| 0 <= i < old_actions.len() && old_actions[i].0 == processed[k].action;
                        assert(self.for_action()[i] == old_actions[i]);
                    } else {
                        assert(self.for_action()[na as int].0 == next[k].action);
                    }
                }
            }
        }

        let ghost mid = self.for_action();
        assert(forall|k: int| 0 <= k < next.len() ==> exists|i: int| 0 <= i < mid.len()
            && #[trigger] mid[i].0 == (#[trigger] next[k]).action);

        let mut j: usize = 0;
        let ni = self.bindings_for_input.len();
        while j < ni && !(self.bindings_for_input[j].0.0 == pb.input_component.0 && self.bindings_for_input[j].0.1 == pb.input_component.1)
            invariant
                ni == self.bindings_for_input@.len(),
                j <= ni,
                forall|k: int| 0 <= k < j ==> self.for_input()[k].0 != pb.input_component,
            decreases ni - j,
        {
            j = j + 1;
        }
        let ghost old_inputs = self.for_input();
        assert(old_inputs == old(self).for_input());
        if j < ni {
            self.bindings_for_input[j].1.0.push(idx);
            proof {
                assert(self.for_input().len() == old_inputs.len());
                assert forall|k: int| 0 <= k < self.for_input().len() implies (#[trigger] self.for_input()[k]).0 == old_inputs[k].0 by {
                    if k != j {
                        assert(self.for_input()[k] == old_inputs[k]);
                    }
                }
                assert forall|a: int, b: int| 0 <= a < b < self.for_input().len() implies self.for_input()[a].0 != self.for_input()[b].0 by {
                    assert(self.for_input()[a].0 == old_inputs[a].0);
                    assert(self.for_input()[b].0 == old_inputs[b].0);
                }
                assert forall|k: int| 0 <= k < self.for_input().len() implies (#[trigger] self.for_input()[k]).1.0
                    == indices_for_input(next, self.for_input()[k].0) by {
                    assert(old_inputs[k].1.0 == indices_for_input(processed, old_inputs[k].0));
                    if k == j {
                        assert(self.for_input()[k].0 == pb.input_component);
                        assert(self.for_input()[k].1.0 =~= old_inputs[k].1.0.push(idx));
                        assert(indices_for_input(next, pb.input_component) == indices_for_input(processed, pb.input_component).push(idx));
                    } else {
                        assert(self.for_input()[k] == old_inputs[k]);
                        if k < j {
                            assert(old_inputs[k].0 != old_inputs[j as int].0);
                        } else {
                            assert(old_inputs[j as int].0 != old_inputs[k].0);
                        }
                        assert(indices_for_input(next, old_inputs[k].0) == indices_for_input(processed, old_inputs[k].0));
                    }
                }
                assert forall|k: int| 0 <= k < next.len() implies exists|i: int| 0 <= i < self.for_input().len()
                    && #[trigger] self.for_input()[i].0 == (#[trigger] next[k]).input_component by {
                    if k < processed.len() {
                        assert(next[k] == processed[k]);
                        let i = choose|i: int| 0 <= i < old_inputs.len() && old_inputs[i].0 == processed[k].input_component;
                        assert(self.for_input()[i].0 == old_inputs[i].0);
                    } else {
                        assert(self.for_input()[j as int].0 == next[k].input_component);
                    }
                }
            }
        } else {
            let fresh = vec![idx];
            assert(fresh@ =~= seq![idx]);
            self.bindings_for_input.push((pb.input_component, (fresh, 0)));
            proof {
                assert(self.for_input() =~= old_inputs.push((pb.input_component, (seq![idx], 0u32))));
                assert forall|a: int, b: int| 0 <= a < b < self.for_input().len() implies self.for_input()[a].0 != self.for_input()[b].0 by {
                    if b == ni {
                        assert(self.for_input()[a] == old_inputs[a]);
                    } else {
                        assert(self.for_input()[a] == old_inputs[a]);
                        assert(self.for_input()[b] == old_inputs[b]);
                    }
                }
                assert(indices_for_input(processed, pb.input_component) =~= Seq::<usize>::empty()) by {
                    if indices_for_input(processed, pb.input_component).len() > 0 {
                        lemma_indices_for_input_listed(processed, pb.input_component);
                        let k = choose|k: int| 0 <= k < processed.len() && processed[k].input_component == pb.input_component;
                        let i = choose|i: int| 0 <= i < old_inputs.len() && old_inputs[i].0 == processed[k].input_component;
                    }
                }
                assert forall|k: int| 0 <= k < next.len() implies exists|i: int| 0 <= i < self.for_input().len()
                    && #[trigger] self.for_input()[i].0 == (#[trigger] next[k]).input_component by {
                    if k < processed.len() {
                        assert(next[k] == processed[k]);
                        let i = choose|i: int| 0 <= i < old_inputs.len() && old_inputs[i].0 == processed[k].input_component;
                        assert(self.for_input()[i] == old_inputs[i]);
                    } else {
                        assert(self.for_input()[ni as int].0 == next[k].input_component);
                    }
                }
            }
        }
        assert(self.for_action() == mid);
    }
}

impl ProcessedBindingLayout {
    /// Processes `bindings` for the interaction profile `interaction_profile`:
    /// each binding's path is split before its first `/input` into a user
    /// path and an input path, which are interned; the user must be served
    /// by the profile, the action must exist, and the input component must
    /// be able to drive the action's type. The first refused binding, or an
    /// unknown profile, refuses the layout; the paths interned up to the
    /// refusal stay interned.
    pub fn new(
        paths: &mut PathManager,
        profiles: &InteractionProfileTypes,
        instance: &Instance,
        interaction_profile: InteractionProfilePath,
        bindings: &[SimpleBinding],
    ) -> (r: Result<Self, CreateBindingLayoutError>)
        requires
            old(paths).wf(),
            profiles.wf(),
            instance.wf(),
            old(paths).count() + 2 * bindings@.len() <= u32::MAX,
            profiles.types().contains_key(interaction_profile) ==> !(process_bindings(
                old(paths).strings(),
                old(paths).names(),
                profiles.types()[interaction_profile],
                instance.all_actions(),
                bindings@,
            ) is Stuck),
        ensures
            final(paths).wf(),
            !profiles.types().contains_key(interaction_profile) ==> {
                &&& final(paths).strings() == old(paths).strings()
                &&& final(paths).names() == old(paths).names()
                &&& r matches Err(e) && e@ == if old(paths).names().contains_key(interaction_profile) {
                    LayoutError::BadInteractionProfilePath(old(paths).names()[interaction_profile])
                } else {
                    LayoutError::InvalidPathHandle(interaction_profile)
                }
            },
            profiles.types().contains_key(interaction_profile) ==> match process_bindings(
                old(paths).strings(),
                old(paths).names(),
                profiles.types()[interaction_profile],
                instance.all_actions(),
                bindings@,
            ) {
                LayoutOutcome::Done(ids, names, processed) => {
                    &&& final(paths).strings() == ids
                    &&& final(paths).names() == names
                    &&& r matches Ok(layout) && layout.holds(processed) && layout.unraised()
                },
                LayoutOutcome::Failed(ids, names, e) => {
                    &&& final(paths).strings() == ids
                    &&& final(paths).names() == names
                    &&& r matches Err(x) && x@ == e
                },
                LayoutOutcome::Stuck(..) => false,
            },
    {
        match Self::try_new(paths, profiles, instance, interaction_profile, bindings) {
            Some(r) => r,
            None => {
                assert(false);
                Err(CreateBindingLayoutError::InvalidPathHandle(interaction_profile))
            },
        }
    }

    /// As `new`, and where processing reaches a binding whose path has no
    /// `/input` past its start, `None`, with the paths interned before that
    /// binding.
    pub fn try_new(
        paths: &mut PathManager,
        profiles: &InteractionProfileTypes,
        instance: &Instance,
        interaction_profile: InteractionProfilePath,
        bindings: &[SimpleBinding],
    ) -> (r: Option<Result<Self, CreateBindingLayoutError>>)
        requires
            old(paths).wf(),
            profiles.wf(),
            instance.wf(),
            old(paths).count() + 2 * bindings@.len() <= u32::MAX,
        ensures
            final(paths).wf(),
            !profiles.types().contains_key(interaction_profile) ==> {
                &&& final(paths).strings() == old(paths).strings()
                &&& final(paths).names() == old(paths).names()
                &&& r matches Some(Err(e)) && e@ == if old(paths).names().contains_key(interaction_profile) {
                    LayoutError::BadInteractionProfilePath(old(paths).names()[interaction_profile])
                } else {
                    LayoutError::InvalidPathHandle(interaction_profile)
                }
            },
            profiles.types().contains_key(interaction_profile) ==> match process_bindings(
                old(paths).strings(),
                old(paths).names(),
                profiles.types()[interaction_profile],
                instance.all_actions(),
                bindings@,
            ) {
                LayoutOutcome::Done(ids, names, processed) => {
                    &&& final(paths).strings() == ids
                    &&& final(paths).names() == names
                    &&& r matches Some(Ok(layout)) && layout.holds(processed) && layout.unraised()
                },
                LayoutOutcome::Failed(ids, names, e) => {
                    &&& final(paths).strings() == ids
                    &&& final(paths).names() == names
                    &&& r matches Some(Err(x)) && x@ == e
                },
                LayoutOutcome::Stuck(ids, names) => {
                    &&& final(paths).strings() == ids
                    &&& final(paths).names() == names
                    &&& r is None
                },
            },
    {
        if !profiles.contains(interaction_profile) {
            return Some(Err(match paths.get_path_string(interaction_profile) {
                Some(s) => CreateBindingLayoutError::BadInteractionProfilePath(s),
                None => CreateBindingLayoutError::InvalidPathHandle(interaction_profile),
            }));
        }
        let ghost profile = profiles.types()[interaction_profile];
        let ghost actions = instance.all_actions();
        let ghost ids0 = paths.strings();
        let ghost names0 = paths.names();
        let ghost count0 = paths.count();
        let mut layout = Self::empty();
        let mut i: usize = 0;
        assert(bindings@.take(0) =~= Seq::<SimpleBinding>::empty());
        while i < bindings.len()
            invariant
                ids0 == old(paths).strings(),
                names0 == old(paths).names(),
                paths.wf(),
                profiles.wf(),
                instance.wf(),
                profile == profiles.types()[interaction_profile],
                profiles.types().contains_key(interaction_profile),
                actions == instance.all_actions(),
                count0 + 2 * bindings@.len() <= u32::MAX,
                0 <= i <= bindings@.len(),
                paths.count() <= count0 + 2 * i,
                layout.holds(layout.index()),
                layout.unraised(),
                layout.index().len() == i,
                process_bindings(ids0, names0, profile, actions, bindings@.take(i as int))
                    == LayoutOutcome::Done(paths.strings(), paths.names(), layout.index()),
            ensures
                process_bindings(ids0, names0, profile, actions, bindings@.take(i as int))
                    == LayoutOutcome::Done(paths.strings(), paths.names(), layout.index()),
                i == bindings@.len(),
            decreases bindings@.len() - i,
        {
            let b = bindings[i];
            let ghost ids = paths.strings();
            let ghost names = paths.names();
            let ghost step = binding_step(ids, names, profile, actions, b);
            proof {
                let next = bindings@.take(i + 1);
                assert(next.drop_last() =~= bindings@.take(i as int));
                assert(next.last() == b);
                if !(step is Next) {
                    lemma_outcome_settles(ids0, names0, profile, actions, bindings@, i + 1);
                }
            }
            let path_string = match paths.get_path_string(b.path) {
                Some(s) => s,
                None => {
                    return Some(Err(CreateBindingLayoutError::InvalidPathHandle(b.path)));
                },
            };
            let ghost s = names[b.path];
            let chars = chars_of(path_string.as_str());
            let k = match find_marker(&chars) {
                Some(k) => k,
                None => {
                    return None;
                },
            };
            if k == 0 {
                return None;
            }
            proof {
                assert(ids.contains_key(s));
                lemma_first_marker(s, 0);
                assert(s.subrange(k as int, k + 6)[0] == s[k as int]);
                lemma_path_split(s, k as int);
            }
            let user_str = path_string.as_str().substring_char(0, k);
            let component_str = path_string.as_str().substring_char(k, chars.len());
            let user = match paths.get_path(user_str) {
                Ok(p) => p,
                Err(_) => {
                    assert(false);
                    return Some(Err(CreateBindingLayoutError::InvalidPathHandle(b.path)));
                },
            };
            match profiles.has_user(interaction_profile, user) {
                Some(true) => {},
                Some(false) => {
                    proof {
                        assert(paths.strings().contains_key(user_str@));
                    }
                    return Some(Err(match paths.get_path_string(user) {
                        Some(s) => CreateBindingLayoutError::BadUserPath(s),
                        None => CreateBindingLayoutError::InvalidPathHandle(interaction_profile),
                    }));
                },
                None => {
                    assert(false);
                    return Some(Err(CreateBindingLayoutError::InvalidPathHandle(interaction_profile)));
                },
            }
            let component = match paths.get_path(component_str) {
                Ok(p) => p,
                Err(_) => {
                    assert(false);
                    return Some(Err(CreateBindingLayoutError::InvalidPathHandle(b.path)));
                },
            };
            let action = match instance.get_action(b.action) {
                Some(a) => a,
                None => {
                    return Some(Err(CreateBindingLayoutError::InvalidActionHandle(b.action)));
                },
            };
            let ty = match profiles.lookup_component(interaction_profile, user, component) {
                Some(ComponentLookup::Found(ct)) => match binding_type(ct, action.data_type) {
                    Some(ty) => ty,
                    None => {
                        return Some(Err(CreateBindingLayoutError::BadBinding(b)));
                    },
                },
                Some(_) => {
                    proof {
                        assert(paths.strings().contains_key(component_str@));
                    }
                    return Some(Err(match paths.get_path_string(component) {
                        Some(s) => CreateBindingLayoutError::BadComponentPath(s),
                        None => CreateBindingLayoutError::InvalidPathHandle(interaction_profile),
                    }));
                },
                None => {
                    assert(false);
                    return Some(Err(CreateBindingLayoutError::InvalidPathHandle(interaction_profile)));
                },
            };
            let pb = ProcessedInputBinding {
                ty,
                action: action.handle,
                action_type: action.data_type,
                input_component: (user, component),
            };
            layout.push_binding(pb, Ghost(layout.index()));
            i = i + 1;
        }
        assert(bindings@.take(bindings@.len() as int) =~= bindings@);
        Some(Ok(layout))
    }
}

impl ProcessedBindingLayout {
    /// The positions of the bindings that drive `action`, if it has any.
    pub fn bindings_for_action(&self, action: u64) -> (r: Option<&Vec<usize>>)
        requires
            self.holds(self.index()),
        ensures
            match r {
                Some(v) => v@ == indices_for_action(self.index(), action) && v@.len() > 0,
                None => indices_for_action(self.index(), action).len() == 0,
            },
    {
        let mut j: usize = 0;
        let n = self.bindings_for_action.len();
        while j < n && self.bindings_for_action[j].0 != action
            invariant
                n == self.for_action().len(),
                j <= n,
                forall|k: int| 0 <= k < j ==> self.for_action()[k].0 != action,
            decreases n - j,
        {
            j = j + 1;
        }
        if j < n {
            let r = &self.bindings_for_action[j].1;
            assert(self.for_action()[j as int].1 == r@);
            Some(r)
        } else {
            proof {
                if indices_for_action(self.index(), action).len() > 0 {
                    lemma_indices_for_action_listed(self.index(), action);
                }
            }
            None
        }
    }

    /// The positions of the bindings that read the input component
    /// `input_path` of `user_path`, and the highest priority among them, if
    /// the component has any binding.
    pub fn bindings_for_input(&self, user_path: UserPath, input_path: InputPath) -> (r: Option<(&Vec<usize>, u32)>)
        requires
            self.holds(self.index()),
        ensures
            match r {
                Some((v, priority)) => {
                    &&& v@ == indices_for_input(self.index(), (user_path, input_path))
                    &&& v@.len() > 0
                    &&& self.has_input((user_path, input_path))
                    &&& priority == self.priority_of((user_path, input_path))
                },
                None => indices_for_input(self.index(), (user_path, input_path)).len() == 0
                    && !self.has_input((user_path, input_path)),
            },
    {
        let mut j: usize = 0;
        let n = self.bindings_for_input.len();
        while j < n && !(self.bindings_for_input[j].0.0 == user_path && self.bindings_for_input[j].0.1 == input_path)
            invariant
                n == self.for_input().len(),
                j <= n,
                forall|k: int| 0 <= k < j ==> self.for_input()[k].0 != (user_path, input_path),
            decreases n - j,
        {
            j = j + 1;
        }
        if j < n {
            let entry = &self.bindings_for_input[j];
            assert(self.for_input()[j as int].1 == (entry.1.0@, entry.1.1));
            proof {
                let key = (user_path, input_path);
                assert(self.for_input()[j as int].0 == key);
                let c = choose|i: int| 0 <= i < self.for_input().len() && #[trigger] self.for_input()[i].0 == key;
                if c != j as int {
                    if c < j {
                        assert(self.for_input()[c].0 != self.for_input()[j as int].0);
                    } else {
                        assert(self.for_input()[j as int].0 != self.for_input()[c].0);
                    }
                }
            }
            Some((&entry.1.0, entry.1.1))
        } else {
            proof {
                if indices_for_input(self.index(), (user_path, input_path)).len() > 0 {
                    lemma_indices_for_input_listed(self.index(), (user_path, input_path));
                }
            }
            None
        }
    }
}

/// The bindings among `positions` whose action is active at a priority of
/// at least `level`, in order.
pub open spec fn reached_at(
    index: Seq<ProcessedInputBinding>,
    positions: Seq<usize>,
    level: u32,
    active: Seq<(u64, u32)>,
) -> Seq<usize>
    decreases positions.len(),
{
    if positions.len() == 0 {
        Seq::empty()
    } else {
        let rest = reached_at(index, positions.drop_last(), level, active);
        match active_priority(active, index[positions.last() as int].action) {
            Some(p) => if p >= level {
                rest.push(positions.last())
            } else {
                rest
            },
            None => rest,
        }
    }
}

/// An input event drives only bindings of the input component whose action
/// is active at a priority of at least the component's: an action set of
/// lower priority does not get an input that a higher one has taken.
pub proof fn lemma_events_reach_only_the_top_priority(
    index: Seq<ProcessedInputBinding>,
    positions: Seq<usize>,
    level: u32,
    active: Seq<(u64, u32)>,
    k: int,
)
    requires
        0 <= k < reached_at(index, positions, level, active).len(),
    ensures
        positions.contains(reached_at(index, positions, level, active)[k]),
        active_priority(active, index[reached_at(index, positions, level, active)[k] as int].action) matches Some(p)
            && p >= level,
    decreases positions.len(),
{
    let rest = reached_at(index, positions.drop_last(), level, active);
    if k < rest.len() {
        lemma_events_reach_only_the_top_priority(index, positions.drop_last(), level, active, k);
        assert(reached_at(index, positions, level, active)[k] == rest[k]);
        let x = rest[k];
        let q = choose|q: int| 0 <= q < positions.drop_last().len() && positions.drop_last()[q] == x;
        assert(positions[q] == x);
    } else {
        assert(reached_at(index, positions, level, active)[k] == positions.last());
        assert(positions[positions.len() - 1] == positions.last());
    }
}

impl ProcessedBindingLayout {
    /// The bindings that an event of the input component `input_path` of
    /// `user_path` drives, in order: those whose action is active (`active`
    /// gives the priority of each active action) at a priority of at least
    /// the component's. The engine computes the values they give their
    /// actions.
    pub fn handle_component_event(&self, user_path: UserPath, input_path: InputPath, active: &[(u64, u32)]) -> (r: Vec<usize>)
        requires
            self.holds(self.index()),
        ensures
            r@ == if self.has_input((user_path, input_path)) {
                reached_at(
                    self.index(),
                    indices_for_input(self.index(), (user_path, input_path)),
                    self.priority_of((user_path, input_path)),
                    active@,
                )
            } else {
                Seq::<usize>::empty()
            },
    {
        let mut r: Vec<usize> = Vec::new();
        match self.bindings_for_input(user_path, input_path) {
            Some((positions, max_priority)) => {
                let ghost key = (user_path, input_path);
                proof {
                    lemma_indices_for_input_bounded(self.index(), key);
                }
                let mut t: usize = 0;
                assert(positions@.take(0) =~= Seq::<usize>::empty());
                while t < positions.len()
                    invariant
                        self.holds(self.index()),
                        positions@ == indices_for_input(self.index(), key),
                        forall|q: int| 0 <= q < positions@.len() ==> (#[trigger] positions@[q]) < self.index().len(),
                        0 <= t <= positions@.len(),
                        r@ == reached_at(self.index(), positions@.take(t as int), max_priority, active@),
                    decreases positions@.len() - t,
                {
                    let b = positions[t];
                    proof {
                        assert(positions@.take(t + 1).drop_last() =~= positions@.take(t as int));
                        assert(positions@.take(t + 1).last() == b);
                        assert(positions@[t as int] == b);
                    }
                    assert(self.index()[b as int] == self.bindings_index@[b as int]);
                    match lookup_active(active, self.bindings_index[b].action) {
                        Some(p) => {
                            if p >= max_priority {
                                r.push(b);
                            }
                        },
                        None => {},
                    }
                    t = t + 1;
                }
                assert(positions@.take(positions@.len() as int) =~= positions@);
            },
            None => {},
        }
        r
    }
}

/// A change that switching action sets makes to a binding.
#[derive(Debug, Clone, Copy, PartialEq, Eq, Structural)]
pub enum BindingChange {
    /// The binding at this position stops driving its action.
    Interrupt(usize),
    /// The binding at this position starts driving its action from the
    /// current state of its input component, if the component has one.
    Activate(usize),
}

/// The priority of `action` among the active actions, if it is active: the
/// first entry for it counts.
pub open spec fn active_priority(active: Seq<(u64, u32)>, action: u64) -> Option<u32>
    decreases active.len(),
{
    if active.len() == 0 {
        None
    } else if active[0].0 == action {
        Some(active[0].1)
    } else {
        active_priority(active.drop_first(), action)
    }
}

/// The bindings among `positions` whose action is active at priority
/// `level`, as interruptions, in order.
pub open spec fn interrupts_at(
    index: Seq<ProcessedInputBinding>,
    positions: Seq<usize>,
    level: u32,
    active: Seq<(u64, u32)>,
) -> Seq<BindingChange>
    decreases positions.len(),
{
    if positions.len() == 0 {
        Seq::empty()
    } else if active_priority(active, index[positions.last() as int].action) == Some(level) {
        interrupts_at(index, positions.drop_last(), level, active).push(BindingChange::Interrupt(positions.last()))
    } else {
        interrupts_at(index, positions.drop_last(), level, active)
    }
}

/// The bindings among `positions` whose action is active at priority
/// `level`, as activations, in order.
pub open spec fn activations_at(
    index: Seq<ProcessedInputBinding>,
    positions: Seq<usize>,
    level: u32,
    active: Seq<(u64, u32)>,
) -> Seq<BindingChange>
    decreases positions.len(),
{
    if positions.len() == 0 {
        Seq::empty()
    } else if active_priority(active, index[positions.last() as int].action) == Some(level) {
        activations_at(index, positions.drop_last(), level, active).push(BindingChange::Activate(positions.last()))
    } else {
        activations_at(index, positions.drop_last(), level, active)
    }
}

/// The highest priority among the active actions of the bindings at
/// `positions`; 0 when none is active.
pub open spec fn max_active(index: Seq<ProcessedInputBinding>, positions: Seq<usize>, active: Seq<(u64, u32)>) -> u32
    decreases positions.len(),
{
    if positions.len() == 0 {
        0
    } else {
        let rest = max_active(index, positions.drop_last(), active);
        match active_priority(active, index[positions.last() as int].action) {
            Some(p) => if p > rest {
                p
            } else {
                rest
            },
            None => rest,
        }
    }
}

/// Enabling an action set at `priority`, for the bindings `bs` of one of its
/// actions, in order: where a binding's input component has a lower
/// priority, the active bindings of that component at its priority are
/// interrupted, the binding is activated, and the component takes
/// `priority`.
pub open spec fn enable_fold(
    prio: Map<(UserPath, InputPath), u32>,
    index: Seq<ProcessedInputBinding>,
    bs: Seq<usize>,
    priority: u32,
    active: Seq<(u64, u32)>,
) -> (Map<(UserPath, InputPath), u32>, Seq<BindingChange>)
    decreases bs.len(),
{
    if bs.len() == 0 {
        (prio, Seq::empty())
    } else {
        let before = enable_fold(prio, index, bs.drop_last(), priority, active);
        let b = bs.last();
        let key = index[b as int].input_component;
        let old_max = before.0[key];
        if old_max < priority {
            (
                before.0.insert(key, priority),
                before.1 + interrupts_at(index, indices_for_input(index, key), old_max, active).push(BindingChange::Activate(b)),
            )
        } else {
            before
        }
    }
}

/// Disabling an action set at `priority`, for the bindings `bs` of one of
/// its actions, in order: where a binding's input component has that
/// priority, the binding is interrupted; if the highest priority of the
/// component's active bindings is now lower, the bindings at that priority
/// are activated and the component takes it.
pub open spec fn disable_fold(
    prio: Map<(UserPath, InputPath), u32>,
    index: Seq<ProcessedInputBinding>,
    bs: Seq<usize>,
    priority: u32,
    active: Seq<(u64, u32)>,
) -> (Map<(UserPath, InputPath), u32>, Seq<BindingChange>)
    decreases bs.len(),
{
    if bs.len() == 0 {
        (prio, Seq::empty())
    } else {
        let before = disable_fold(prio, index, bs.drop_last(), priority, active);
        let b = bs.last();
        let key = index[b as int].input_component;
        let old_max = before.0[key];
        if old_max == priority {
            let positions = indices_for_input(index, key);
            let new_max = max_active(index, positions, active);
            if new_max < old_max {
                (
                    before.0.insert(key, new_max),
                    before.1.push(BindingChange::Interrupt(b)) + activations_at(index, positions, new_max, active),
                )
            } else {
                (before.0, before.1.push(BindingChange::Interrupt(b)))
            }
        } else {
            before
        }
    }
}

/// The priority of `action` among the active actions, if it is active.
pub fn lookup_active(active: &[(u64, u32)], action: u64) -> (r: Option<u32>)
    ensures
        r == active_priority(active@, action),
{
    let mut i: usize = 0;
    assert(active@.subrange(0, active@.len() as int) =~= active@);
    while i < active.len()
        invariant
            0 <= i <= active@.len(),
            active_priority(active@, action) == active_priority(active@.subrange(i as int, active@.len() as int), action),
        decreases active@.len() - i,
    {
        let ghost rest = active@.subrange(i as int, active@.len() as int);
        assert(rest[0] == active@[i as int]);
        if active[i].0 == action {
            return Some(active[i].1);
        }
        assert(rest.drop_first() =~= active@.subrange(i + 1, active@.len() as int));
        i = i + 1;
    }
    assert(active@.subrange(i as int, active@.len() as int) =~= Seq::<(u64, u32)>::empty());
    None
}

impl ProcessedBindingLayout {
    /// The priority of each listed input component.
    pub open spec fn priority_map(self) -> Map<(UserPath, InputPath), u32> {
        Map::new(|k: (UserPath, InputPath)| self.has_input(k), |k: (UserPath, InputPath)| self.priority_of(k))
    }

    /// The position in the input list of the listed component `key`.
    fn input_slot(&self, key: (UserPath, InputPath)) -> (j: usize)
        requires
            self.holds(self.index()),
            self.has_input(key),
        ensures
            j < self.for_input().len(),
            self.for_input()[j as int].0 == key,
    {
        let n = self.bindings_for_input.len();
        let mut j: usize = 0;
        while j < n && !(self.bindings_for_input[j].0.0 == key.0 && self.bindings_for_input[j].0.1 == key.1)
            invariant
                n == self.for_input().len(),
                j <= n,
                self.has_input(key),
                forall|k: int| 0 <= k < j ==> self.for_input()[k].0 != key,
            decreases n - j,
        {
            j = j + 1;
        }
        proof {
            if j == n {
                let w = choose|i: int| 0 <= i < self.for_input().len() && #[trigger] self.for_input()[i].0 == key;
                assert(self.for_input()[w].0 != key);
            }
        }
        j
    }

    /// The positions of the bindings of the listed input at slot `j` whose
    /// action is active at `level`, as interruptions or activations.
    fn changes_at(&self, j: usize, level: u32, active: &[(u64, u32)], interrupt: bool) -> (r: Vec<BindingChange>)
        requires
            self.holds(self.index()),
            j < self.for_input().len(),
        ensures
            r@ == if interrupt {
                interrupts_at(self.index(), self.for_input()[j as int].1.0, level, active@)
            } else {
                activations_at(self.index(), self.for_input()[j as int].1.0, level, active@)
            },
    {
        let positions = &self.bindings_for_input[j].1.0;
        assert(self.for_input()[j as int].1.0 == positions@);
        let mut out: Vec<BindingChange> = Vec::new();
        let mut t: usize = 0;
        assert(positions@.take(0) =~= Seq::<usize>::empty());
        while t < positions.len()
            invariant
                self.holds(self.index()),
                j < self.for_input().len(),
                positions@ == self.for_input()[j as int].1.0,
                0 <= t <= positions@.len(),
                out@ == if interrupt {
                    interrupts_at(self.index(), positions@.take(t as int), level, active@)
                } else {
                    activations_at(self.index(), positions@.take(t as int), level, active@)
                },
            decreases positions@.len() - t,
        {
            let o = positions[t];
            proof {
                assert(positions@.take(t + 1).drop_last() =~= positions@.take(t as int));
                assert(positions@.take(t + 1).last() == o);
                lemma_indices_for_input_bounded(self.index(), self.for_input()[j as int].0);
                assert(positions@[t as int] == o);
            }
            let action = self.bindings_index[o].action;
            if lookup_active(active, action) == Some(level) {
                if interrupt {
                    out.push(BindingChange::Interrupt(o));
                } else {
                    out.push(BindingChange::Activate(o));
                }
            }
            t = t + 1;
        }
        assert(positions@.take(positions@.len() as int) =~= positions@);
        out
    }
}

/// Enabling an action at `priority` leaves every input component that the
/// action is bound to at that priority or above, keeps the same input
/// components, and lowers the priority of none.
pub proof fn lemma_enable_raises(
    prio: Map<(UserPath, InputPath), u32>,
    index: Seq<ProcessedInputBinding>,
    bs: Seq<usize>,
    priority: u32,
    active: Seq<(u64, u32)>,
)
    requires
        forall|q: int| 0 <= q < bs.len() ==> prio.contains_key(index[#[trigger] bs[q] as int].input_component),
    ensures
        enable_fold(prio, index, bs, priority, active).0.dom() == prio.dom(),
        forall|q: int| 0 <= q < bs.len() ==> enable_fold(prio, index, bs, priority, active).0[index[#[trigger] bs[q] as int].input_component] >= priority,
        forall|k: (UserPath, InputPath)| #[trigger] prio.contains_key(k) ==> enable_fold(prio, index, bs, priority, active).0[k] >= prio[k],
    decreases bs.len(),
{
    if bs.len() > 0 {
        let rest = bs.drop_last();
        assert forall|q: int| 0 <= q < rest.len() implies prio.contains_key(index[#[trigger] rest[q] as int].input_component) by {
            assert(rest[q] == bs[q]);
        }
        lemma_enable_raises(prio, index, rest, priority, active);
        let before = enable_fold(prio, index, rest, priority, active);
        let after = enable_fold(prio, index, bs, priority, active);
        let key = index[bs.last() as int].input_component;
        assert(prio.contains_key(index[bs[bs.len() - 1] as int].input_component));
        assert(after.0.dom() =~= prio.dom());
        assert forall|q: int| 0 <= q < bs.len() implies after.0[index[#[trigger] bs[q] as int].input_component] >= priority by {
            if q < rest.len() {
                assert(rest[q] == bs[q]);
                assert(before.0[index[rest[q] as int].input_component] >= priority);
            }
        }
    }
}

/// Disabling an action at `priority` keeps the same input components and
/// raises the priority of none.
pub proof fn lemma_disable_lowers(
    prio: Map<(UserPath, InputPath), u32>,
    index: Seq<ProcessedInputBinding>,
    bs: Seq<usize>,
    priority: u32,
    active: Seq<(u64, u32)>,
)
    requires
        forall|q: int| 0 <= q < bs.len() ==> prio.contains_key(index[#[trigger] bs[q] as int].input_component),
    ensures
        disable_fold(prio, index, bs, priority, active).0.dom() == prio.dom(),
        forall|k: (UserPath, InputPath)| #[trigger] prio.contains_key(k) ==> disable_fold(prio, index, bs, priority, active).0[k] <= prio[k],
    decreases bs.len(),
{
    if bs.len() > 0 {
        let rest = bs.drop_last();
        assert forall|q: int| 0 <= q < rest.len() implies prio.contains_key(index[#[trigger] rest[q] as int].input_component) by {
            assert(rest[q] == bs[q]);
        }
        lemma_disable_lowers(prio, index, rest, priority, active);
        let after = disable_fold(prio, index, bs, priority, active);
        assert(prio.contains_key(index[bs[bs.len() - 1] as int].input_component));
        assert(after.0.dom() =~= prio.dom());
    }
}

/// Enabling an action whose input components all sit at `priority` or
/// above changes nothing and interrupts or activates nothing.
pub proof fn lemma_enable_at_or_below_is_idle(
    prio: Map<(UserPath, InputPath), u32>,
    index: Seq<ProcessedInputBinding>,
    bs: Seq<usize>,
    priority: u32,
    active: Seq<(u64, u32)>,
)
    requires
        forall|q: int| 0 <= q < bs.len() ==> prio[index[#[trigger] bs[q] as int].input_component] >= priority,
    ensures
        enable_fold(prio, index, bs, priority, active) == (prio, Seq::<BindingChange>::empty()),
    decreases bs.len(),
{
    if bs.len() > 0 {
        let rest = bs.drop_last();
        assert forall|q: int| 0 <= q < rest.len() implies prio[index[#[trigger] rest[q] as int].input_component] >= priority by {
            assert(rest[q] == bs[q]);
        }
        lemma_enable_at_or_below_is_idle(prio, index, rest, priority, active);
        assert(prio[index[bs[bs.len() - 1] as int].input_component] >= priority);
    }
}

/// Setting the priority of the listed input at slot `j` changes that
/// component's priority and nothing else.
proof fn lemma_set_priority(old_l: ProcessedBindingLayout, new_l: ProcessedBindingLayout, j: int, p: u32)
    requires
        old_l.holds(old_l.index()),
        new_l.index() == old_l.index(),
        new_l.for_action() == old_l.for_action(),
        0 <= j < old_l.for_input().len(),
        new_l.for_input() == old_l.for_input().update(j, (old_l.for_input()[j].0, (old_l.for_input()[j].1.0, p))),
    ensures
        new_l.holds(new_l.index()),
        new_l.priority_map() == old_l.priority_map().insert(old_l.for_input()[j].0, p),
{
    let key = old_l.for_input()[j].0;
    assert forall|i: int| 0 <= i < new_l.for_input().len() implies (#[trigger] new_l.for_input()[i]).0 == old_l.for_input()[i].0
        && new_l.for_input()[i].1.0 == old_l.for_input()[i].1.0 by {
    }
    let processed = old_l.index();
    assert forall|a: int, b: int| 0 <= a < b < new_l.for_input().len() implies new_l.for_input()[a].0 != new_l.for_input()[b].0 by {
        assert(new_l.for_input()[a].0 == old_l.for_input()[a].0);
        assert(new_l.for_input()[b].0 == old_l.for_input()[b].0);
    }
    assert forall|i: int| 0 <= i < new_l.for_input().len() implies (#[trigger] new_l.for_input()[i]).1.0
        == indices_for_input(processed, new_l.for_input()[i].0) by {
        assert(old_l.for_input()[i].1.0 == indices_for_input(processed, old_l.for_input()[i].0));
    }
    assert forall|k: int| 0 <= k < processed.len() implies exists|i: int| 0 <= i < new_l.for_input().len()
        && #[trigger] new_l.for_input()[i].0 == (#[trigger] processed[k]).input_component by {
        let w = choose|i: int| 0 <= i < old_l.for_input().len() && #[trigger] old_l.for_input()[i].0 == processed[k].input_component;
        assert(new_l.for_input()[w].0 == old_l.for_input()[w].0);
    }
    assert forall|k: (UserPath, InputPath)| new_l.has_input(k) == old_l.has_input(k) by {
        if new_l.has_input(k) {
            let w = choose|i: int| 0 <= i < new_l.for_input().len() && #[trigger] new_l.for_input()[i].0 == k;
            assert(old_l.for_input()[w].0 == k);
        }
        if old_l.has_input(k) {
            let w = choose|i: int| 0 <= i < old_l.for_input().len() && #[trigger] old_l.for_input()[i].0 == k;
            assert(new_l.for_input()[w].0 == k);
        }
    }
    assert forall|k: (UserPath, InputPath)| new_l.has_input(k) implies new_l.priority_of(k) == if k == key {
        p
    } else {
        old_l.priority_of(k)
    } by {
        let c = choose|i: int| 0 <= i < new_l.for_input().len() && #[trigger] new_l.for_input()[i].0 == k;
        let d = choose|i: int| 0 <= i < old_l.for_input().len() && #[trigger] old_l.for_input()[i].0 == k;
        assert(old_l.for_input()[c].0 == k);
        if c != d {
            if c < d {
                assert(old_l.for_input()[c].0 != old_l.for_input()[d].0);
            } else {
                assert(old_l.for_input()[d].0 != old_l.for_input()[c].0);
            }
        }
        if k == key && c != j {
            if c < j {
                assert(old_l.for_input()[c].0 != old_l.for_input()[j].0);
            } else {
                assert(old_l.for_input()[j].0 != old_l.for_input()[c].0);
            }
        }
    }
    assert(old_l.has_input(key));
    assert(new_l.priority_map() =~= old_l.priority_map().insert(key, p));
}

/// The priority of the listed input at slot `j` is the one its entry holds.
proof fn lemma_priority_at(l: ProcessedBindingLayout, j: int)
    requires
        l.holds(l.index()),
        0 <= j < l.for_input().len(),
    ensures
        l.has_input(l.for_input()[j].0),
        l.priority_of(l.for_input()[j].0) == l.for_input()[j].1.1,
        l.priority_map()[l.for_input()[j].0] == l.for_input()[j].1.1,
{
    let key = l.for_input()[j].0;
    assert(l.has_input(key));
    let c = choose|i: int| 0 <= i < l.for_input().len() && #[trigger] l.for_input()[i].0 == key;
    if c != j {
        if c < j {
            assert(l.for_input()[c].0 != l.for_input()[j].0);
        } else {
            assert(l.for_input()[j].0 != l.for_input()[c].0);
        }
    }
}

/// The positions listed for an action are positions of bindings.
proof fn lemma_indices_for_action_bounded(processed: Seq<ProcessedInputBinding>, action: u64)
    ensures
        forall|q: int| 0 <= q < indices_for_action(processed, action).len() ==> (#[trigger] indices_for_action(processed, action)[q]) < processed.len(),
    decreases processed.len(),
{
    if processed.len() > 0 {
        lemma_indices_for_action_bounded(processed.drop_last(), action);
        let rest = indices_for_action(processed.drop_last(), action);
        assert forall|q: int| 0 <= q < indices_for_action(processed, action).len() implies (#[trigger] indices_for_action(processed, action)[q]) < processed.len() by {
            if q < rest.len() {
                assert(indices_for_action(processed, action)[q] == rest[q]);
            }
        }
    }
}

impl ProcessedBindingLayout {
    /// The highest priority among the active actions of the bindings of the
    /// listed input at slot `j`; 0 when none is active.
    fn max_active_at(&self, j: usize, active: &[(u64, u32)]) -> (r: u32)
        requires
            self.holds(self.index()),
            j < self.for_input().len(),
        ensures
            r == max_active(self.index(), self.for_input()[j as int].1.0, active@),
    {
        let positions = &self.bindings_for_input[j].1.0;
        assert(self.for_input()[j as int].1.0 == positions@);
        let mut best: u32 = 0;
        let mut t: usize = 0;
        assert(positions@.take(0) =~= Seq::<usize>::empty());
        while t < positions.len()
            invariant
                self.holds(self.index()),
                j < self.for_input().len(),
                positions@ == self.for_input()[j as int].1.0,
                0 <= t <= positions@.len(),
                best == max_active(self.index(), positions@.take(t as int), active@),
            decreases positions@.len() - t,
        {
            let o = positions[t];
            proof {
                assert(positions@.take(t + 1).drop_last() =~= positions@.take(t as int));
                assert(positions@.take(t + 1).last() == o);
                lemma_indices_for_input_bounded(self.index(), self.for_input()[j as int].0);
                assert(positions@[t as int] == o);
            }
            match lookup_active(active, self.bindings_index[o].action) {
                Some(p) => {
                    if p > best {
                        best = p;
                    }
                },
                None => {},
            }
            t = t + 1;
        }
        assert(positions@.take(positions@.len() as int) =~= positions@);
        best
    }

    /// The positions of the bindings of `action`, in order.
    fn positions_of_action(&self, action: u64) -> (r: Vec<usize>)
        requires
            self.holds(self.index()),
        ensures
            r@ == indices_for_action(self.index(), action),
    {
        let mut out: Vec<usize> = Vec::new();
        match self.bindings_for_action(action) {
            Some(v) => {
                let mut t: usize = 0;
                while t < v.len()
                    invariant
                        0 <= t <= v@.len(),
                        out@ == v@.take(t as int),
                    decreases v@.len() - t,
                {
                    out.push(v[t]);
                    assert(out@ =~= v@.take(t + 1));
                    t = t + 1;
                }
                assert(v@.take(v@.len() as int) =~= v@);
            },
            None => {
                assert(out@ =~= indices_for_action(self.index(), action));
            },
        }
        out
    }

    /// Enables `action` for an action set of priority `priority`; `active`
    /// gives the priority of each active action. Returns the bindings to
    /// interrupt and to activate, in order, and raises the priorities of the
    /// input components that the action takes over.
    pub fn enable_action(&mut self, action: u64, priority: u32, active: &[(u64, u32)]) -> (r: Vec<BindingChange>)
        requires
            old(self).holds(old(self).index()),
        ensures
            final(self).holds(final(self).index()),
            final(self).index() == old(self).index(),
            (final(self).priority_map(), r@) == enable_fold(
                old(self).priority_map(),
                old(self).index(),
                indices_for_action(old(self).index(), action),
                priority,
                active@,
            ),
    {
        let bs = self.positions_of_action(action);
        let ghost index = self.index();
        let ghost prio0 = self.priority_map();
        let mut changes: Vec<BindingChange> = Vec::new();
        let mut t: usize = 0;
        assert(bs@.take(0) =~= Seq::<usize>::empty());
        proof {
            lemma_indices_for_action_bounded(index, action);
        }
        while t < bs.len()
            invariant
                self.holds(self.index()),
                self.index() == index,
                bs@ == indices_for_action(index, action),
                forall|q: int| 0 <= q < bs@.len() ==> (#[trigger] bs@[q]) < index.len(),
                0 <= t <= bs@.len(),
                (self.priority_map(), changes@) == enable_fold(prio0, index, bs@.take(t as int), priority, active@),
            decreases bs@.len() - t,
        {
            let b = bs[t];
            proof {
                assert(bs@.take(t + 1).drop_last() =~= bs@.take(t as int));
                assert(bs@.take(t + 1).last() == b);
                assert(bs@[t as int] == b);
            }
            let key = self.bindings_index[b].input_component;
            proof {
                assert(index[b as int].input_component == key);
                let w = choose|i: int| 0 <= i < self.for_input().len() && #[trigger] self.for_input()[i].0 == (#[trigger] index[b as int]).input_component;
                assert(self.has_input(key));
            }
            let j = self.input_slot(key);
            let old_max = self.bindings_for_input[j].1.1;
            proof {
                assert(self.for_input()[j as int].1.1 == old_max);
                lemma_priority_at(*self, j as int);
            }
            if old_max < priority {
                let mut interrupts = self.changes_at(j, old_max, active, true);
                let ghost before = changes@;
                changes.append(&mut interrupts);
                changes.push(BindingChange::Activate(b));
                let ghost old_layout = *self;
                self.bindings_for_input[j].1.1 = priority;
                proof {
                    assert(self.for_input() =~= old_layout.for_input().update(
                        j as int,
                        (old_layout.for_input()[j as int].0, (old_layout.for_input()[j as int].1.0, priority)),
                    ));
                    lemma_set_priority(old_layout, *self, j as int, priority);
                }
            }
            t = t + 1;
        }
        assert(bs@.take(bs@.len() as int) =~= bs@);
        changes
    }

    /// Disables `action` for an action set of priority `priority`; `active`
    /// gives the priority of each action that stays active. Returns the
    /// bindings to interrupt and to activate, in order, and lowers the
    /// priorities of the input components that the action gives up.
    pub fn disable_action(&mut self, action: u64, priority: u32, active: &[(u64, u32)]) -> (r: Vec<BindingChange>)
        requires
            old(self).holds(old(self).index()),
        ensures
            final(self).holds(final(self).index()),
            final(self).index() == old(self).index(),
            (final(self).priority_map(), r@) == disable_fold(
                old(self).priority_map(),
                old(self).index(),
                indices_for_action(old(self).index(), action),
                priority,
                active@,
            ),
    {
        let bs = self.positions_of_action(action);
        let ghost index = self.index();
        let ghost prio0 = self.priority_map();
        let mut changes: Vec<BindingChange> = Vec::new();
        let mut t: usize = 0;
        assert(bs@.take(0) =~= Seq::<usize>::empty());
        proof {
            lemma_indices_for_action_bounded(index, action);
        }
        while t < bs.len()
            invariant
                self.holds(self.index()),
                self.index() == index,
                bs@ == indices_for_action(index, action),
                forall|q: int| 0 <= q < bs@.len() ==> (#[trigger] bs@[q]) < index.len(),
                0 <= t <= bs@.len(),
                (self.priority_map(), changes@) == disable_fold(prio0, index, bs@.take(t as int), priority, active@),
            decreases bs@.len() - t,
        {
            let b = bs[t];
            proof {
                assert(bs@.take(t + 1).drop_last() =~= bs@.take(t as int));
                assert(bs@.take(t + 1).last() == b);
                assert(bs@[t as int] == b);
            }
            let key = self.bindings_index[b].input_component;
            proof {
                assert(index[b as int].input_component == key);
                let w = choose|i: int| 0 <= i < self.for_input().len() && #[trigger] self.for_input()[i].0 == (#[trigger] index[b as int]).input_component;
                assert(self.has_input(key));
            }
            let j = self.input_slot(key);
            let old_max = self.bindings_for_input[j].1.1;
            proof {
                assert(self.for_input()[j as int].1.1 == old_max);
                lemma_priority_at(*self, j as int);
            }
            if old_max == priority {
                changes.push(BindingChange::Interrupt(b));
                let new_max = self.max_active_at(j, active);
                if new_max < old_max {
                    let mut activations = self.changes_at(j, new_max, active, false);
                    changes.append(&mut activations);
                    let ghost old_layout = *self;
                    self.bindings_for_input[j].1.1 = new_max;
                    proof {
                        assert(self.for_input() =~= old_layout.for_input().update(
                            j as int,
                            (old_layout.for_input()[j as int].0, (old_layout.for_input()[j as int].1.0, new_max)),
                        ));
                        lemma_set_priority(old_layout, *self, j as int, new_max);
                    }
                }
            }
            t = t + 1;
        }
        assert(bs@.take(bs@.len() as int) =~= bs@);
        changes
    }
}

/// Enabling each of `actions`, in order, for an action set at `priority`.
pub open spec fn enable_actions(
    prio: Map<(UserPath, InputPath), u32>,
    index: Seq<ProcessedInputBinding>,
    actions: Seq<u64>,
    priority: u32,
    active: Seq<(u64, u32)>,
) -> (Map<(UserPath, InputPath), u32>, Seq<BindingChange>)
    decreases actions.len(),
{
    if actions.len() == 0 {
        (prio, Seq::empty())
    } else {
        let before = enable_actions(prio, index, actions.drop_last(), priority, active);
        let step = enable_fold(before.0, index, indices_for_action(index, actions.last()), priority, active);
        (step.0, before.1 + step.1)
    }
}

/// Disabling each of `actions`, in order, for an action set at `priority`.
pub open spec fn disable_actions(
    prio: Map<(UserPath, InputPath), u32>,
    index: Seq<ProcessedInputBinding>,
    actions: Seq<u64>,
    priority: u32,
    active: Seq<(u64, u32)>,
) -> (Map<(UserPath, InputPath), u32>, Seq<BindingChange>)
    decreases actions.len(),
{
    if actions.len() == 0 {
        (prio, Seq::empty())
    } else {
        let before = disable_actions(prio, index, actions.drop_last(), priority, active);
        let step = disable_fold(before.0, index, indices_for_action(index, actions.last()), priority, active);
        (step.0, before.1 + step.1)
    }
}

/// The baked actions of a set; empty for a set that was never baked.
pub open spec fn baked_of_set(set: ActionSet) -> Seq<u64> {
    match set@.baked {
        Some(b) => b,
        None => Seq::empty(),
    }
}

/// Enabling the baked actions of each of `sets`, in order, each at its
/// default priority.
pub open spec fn enable_sets(
    prio: Map<(UserPath, InputPath), u32>,
    index: Seq<ProcessedInputBinding>,
    sets: Seq<&ActionSet>,
    active: Seq<(u64, u32)>,
) -> (Map<(UserPath, InputPath), u32>, Seq<BindingChange>)
    decreases sets.len(),
{
    if sets.len() == 0 {
        (prio, Seq::empty())
    } else {
        let before = enable_sets(prio, index, sets.drop_last(), active);
        let set = *sets.last();
        let step = enable_actions(before.0, index, baked_of_set(set), set.default_priority, active);
        (step.0, before.1 + step.1)
    }
}

/// Disabling the baked actions of each of `sets`, in order, each at its
/// default priority.
pub open spec fn disable_sets(
    prio: Map<(UserPath, InputPath), u32>,
    index: Seq<ProcessedInputBinding>,
    sets: Seq<&ActionSet>,
    active: Seq<(u64, u32)>,
) -> (Map<(UserPath, InputPath), u32>, Seq<BindingChange>)
    decreases sets.len(),
{
    if sets.len() == 0 {
        (prio, Seq::empty())
    } else {
        let before = disable_sets(prio, index, sets.drop_last(), active);
        let set = *sets.last();
        let step = disable_actions(before.0, index, baked_of_set(set), set.default_priority, active);
        (step.0, before.1 + step.1)
    }
}

impl ProcessedBindingLayout {
    /// Enables the baked actions of one action set at its default priority.
    fn enable_set(&mut self, set: &ActionSet, active: &[(u64, u32)]) -> (r: Vec<BindingChange>)
        requires
            old(self).holds(old(self).index()),
            set@.baked is Some,
        ensures
            final(self).holds(final(self).index()),
            final(self).index() == old(self).index(),
            (final(self).priority_map(), r@) == enable_actions(
                old(self).priority_map(),
                old(self).index(),
                baked_of_set(*set),
                set.default_priority,
                active@,
            ),
    {
        let actions: &Vec<u64> = match &set.baked_actions {
            Some(b) => b,
            None => {
                proof {
                    assert(false);
                }
                return Vec::new();
            },
        };
        let ghost index = self.index();
        let ghost prio0 = self.priority_map();
        let mut changes: Vec<BindingChange> = Vec::new();
        let mut t: usize = 0;
        assert(actions@.take(0) =~= Seq::<u64>::empty());
        while t < actions.len()
            invariant
                self.holds(self.index()),
                self.index() == index,
                actions@ == baked_of_set(*set),
                0 <= t <= actions@.len(),
                (self.priority_map(), changes@) == enable_actions(prio0, index, actions@.take(t as int), set.default_priority, active@),
            decreases actions@.len() - t,
        {
            proof {
                assert(actions@.take(t + 1).drop_last() =~= actions@.take(t as int));
                assert(actions@.take(t + 1).last() == actions@[t as int]);
            }
            let mut step = self.enable_action(actions[t], set.default_priority, active);
            changes.append(&mut step);
            t = t + 1;
        }
        assert(actions@.take(actions@.len() as int) =~= actions@);
        changes
    }

    /// Disables the baked actions of one action set at its default priority.
    fn disable_set(&mut self, set: &ActionSet, active: &[(u64, u32)]) -> (r: Vec<BindingChange>)
        requires
            old(self).holds(old(self).index()),
            set@.baked is Some,
        ensures
            final(self).holds(final(self).index()),
            final(self).index() == old(self).index(),
            (final(self).priority_map(), r@) == disable_actions(
                old(self).priority_map(),
                old(self).index(),
                baked_of_set(*set),
                set.default_priority,
                active@,
            ),
    {
        let actions: &Vec<u64> = match &set.baked_actions {
            Some(b) => b,
            None => {
                proof {
                    assert(false);
                }
                return Vec::new();
            },
        };
        let ghost index = self.index();
        let ghost prio0 = self.priority_map();
        let mut changes: Vec<BindingChange> = Vec::new();
        let mut t: usize = 0;
        assert(actions@.take(0) =~= Seq::<u64>::empty());
        while t < actions.len()
            invariant
                self.holds(self.index()),
                self.index() == index,
                actions@ == baked_of_set(*set),
                0 <= t <= actions@.len(),
                (self.priority_map(), changes@) == disable_actions(prio0, index, actions@.take(t as int), set.default_priority, active@),
            decreases actions@.len() - t,
        {
            proof {
                assert(actions@.take(t + 1).drop_last() =~= actions@.take(t as int));
                assert(actions@.take(t + 1).last() == actions@[t as int]);
            }
            let mut step = self.disable_action(actions[t], set.default_priority, active);
            changes.append(&mut step);
            t = t + 1;
        }
        assert(actions@.take(actions@.len() as int) =~= actions@);
        changes
    }

    /// Switches action sets: first enables the baked actions of each of
    /// `enabling` (highest priority first), then disables those of each of
    /// `disabling` (lowest priority first), each at its set's default
    /// priority. `active` gives the priority of each active action. Returns
    /// the bindings to interrupt and to activate, in order.
    pub fn change_active_action_sets(
        &mut self,
        disabling: &[&ActionSet],
        enabling: &[&ActionSet],
        active: &[(u64, u32)],
    ) -> (r: Vec<BindingChange>)
        requires
            old(self).holds(old(self).index()),
            forall|i: int| 0 <= i < disabling@.len() ==> (#[trigger] disabling@[i])@.baked is Some,
            forall|i: int| 0 <= i < enabling@.len() ==> (#[trigger] enabling@[i])@.baked is Some,
        ensures
            final(self).holds(final(self).index()),
            final(self).index() == old(self).index(),
            ({
                let on = enable_sets(old(self).priority_map(), old(self).index(), enabling@, active@);
                let off = disable_sets(on.0, old(self).index(), disabling@, active@);
                (final(self).priority_map(), r@) == (off.0, on.1 + off.1)
            }),
    {
        let ghost index = self.index();
        let ghost prio0 = self.priority_map();
        let mut changes: Vec<BindingChange> = Vec::new();
        let mut i: usize = 0;
        assert(enabling@.take(0) =~= Seq::<&ActionSet>::empty());
        while i < enabling.len()
            invariant
                self.holds(self.index()),
                self.index() == index,
                forall|k: int| 0 <= k < enabling@.len() ==> (#[trigger] enabling@[k])@.baked is Some,
                0 <= i <= enabling@.len(),
                (self.priority_map(), changes@) == enable_sets(prio0, index, enabling@.take(i as int), active@),
            decreases enabling@.len() - i,
        {
            proof {
                assert(enabling@.take(i + 1).drop_last() =~= enabling@.take(i as int));
                assert(enabling@.take(i + 1).last() == enabling@[i as int]);
            }
            let mut step = self.enable_set(enabling[i], active);
            changes.append(&mut step);
            i = i + 1;
        }
        assert(enabling@.take(enabling@.len() as int) =~= enabling@);
        let ghost on = (self.priority_map(), changes@);
        let mut offs: Vec<BindingChange> = Vec::new();
        let mut i: usize = 0;
        assert(disabling@.take(0) =~= Seq::<&ActionSet>::empty());
        while i < disabling.len()
            invariant
                self.holds(self.index()),
                self.index() == index,
                forall|k: int| 0 <= k < disabling@.len() ==> (#[trigger] disabling@[k])@.baked is Some,
                0 <= i <= disabling@.len(),
                (self.priority_map(), offs@) == disable_sets(on.0, index, disabling@.take(i as int), active@),
            decreases disabling@.len() - i,
        {
            proof {
                assert(disabling@.take(i + 1).drop_last() =~= disabling@.take(i as int));
                assert(disabling@.take(i + 1).last() == disabling@[i as int]);
            }
            let mut step = self.disable_set(disabling[i], active);
            offs.append(&mut step);
            i = i + 1;
        }
        assert(disabling@.take(disabling@.len() as int) =~= disabling@);
        changes.append(&mut offs);
        changes
    }
}

/// The positions listed for an input component are positions of bindings.
proof fn lemma_indices_for_input_bounded(processed: Seq<ProcessedInputBinding>, input: (UserPath, InputPath))
    ensures
        forall|q: int| 0 <= q < indices_for_input(processed, input).len() ==> (#[trigger] indices_for_input(processed, input)[q]) < processed.len(),
    decreases processed.len(),
{
    if processed.len() > 0 {
        lemma_indices_for_input_bounded(processed.drop_last(), input);
        let rest = indices_for_input(processed.drop_last(), input);
        assert forall|q: int| 0 <= q < indices_for_input(processed, input).len() implies (#[trigger] indices_for_input(processed, input)[q]) < processed.len() by {
            if q < rest.len() {
                assert(indices_for_input(processed, input)[q] == rest[q]);
            }
        }
    }
}

/// A named binding layout for an interaction profile: its bindings as given
/// and as processed.
#[derive(Debug, Clone)]
pub struct BindingLayout {
    pub name: String,
    pub interaction_profile: InteractionProfilePath,
    pub bindings: Vec<SimpleBinding>,
    pub processed_cache: ProcessedBindingLayout,
}

/// Processing `bindings` for `interaction_profile` does not reach a binding
/// whose path has no `/input` past its start.
pub open spec fn layout_defined(
    paths: PathManager,
    profiles: InteractionProfileTypes,
    actions: Seq<ActionView>,
    interaction_profile: InteractionProfilePath,
    bindings: Seq<SimpleBinding>,
) -> bool {
    profiles.types().contains_key(interaction_profile) ==> !(process_bindings(
        paths.strings(),
        paths.names(),
        profiles.types()[interaction_profile],
        actions,
        bindings,
    ) is Stuck)
}

/// What creating the binding layout `name` does: an unknown profile is
/// refused with its path string, or its handle where it has none, and
/// interns nothing; otherwise the bindings are processed in order, and the
/// layout holds the processed bindings or the first refusal is returned,
/// with the paths interned on the way.
pub open spec fn layout_created(
    before: PathManager,
    after: PathManager,
    profiles: InteractionProfileTypes,
    actions: Seq<ActionView>,
    name: Seq<char>,
    interaction_profile: InteractionProfilePath,
    bindings: Seq<SimpleBinding>,
    r: Result<BindingLayout, CreateBindingLayoutError>,
) -> bool {
    if !profiles.types().contains_key(interaction_profile) {
        &&& after.strings() == before.strings()
        &&& after.names() == before.names()
        &&& r matches Err(e) && e@ == if before.names().contains_key(interaction_profile) {
            LayoutError::BadInteractionProfilePath(before.names()[interaction_profile])
        } else {
            LayoutError::InvalidPathHandle(interaction_profile)
        }
    } else {
        match process_bindings(before.strings(), before.names(), profiles.types()[interaction_profile], actions, bindings) {
            LayoutOutcome::Done(ids, names, processed) => {
                &&& after.strings() == ids
                &&& after.names() == names
                &&& r matches Ok(layout) && {
                    &&& layout.name@ == name
                    &&& layout.interaction_profile == interaction_profile
                    &&& layout.bindings@ == bindings
                    &&& layout.processed_cache.holds(processed)
                    &&& layout.processed_cache.unraised()
                }
            },
            LayoutOutcome::Failed(ids, names, e) => {
                &&& after.strings() == ids
                &&& after.names() == names
                &&& r matches Err(x) && x@ == e
            },
            LayoutOutcome::Stuck(..) => false,
        }
    }
}

/// What attempting to create the binding layout `name` does: where
/// processing reaches a binding whose path has no `/input` past its start,
/// nothing is created and the paths interned before that binding stay
/// interned; otherwise as `layout_created`.
pub open spec fn layout_attempted(
    before: PathManager,
    after: PathManager,
    profiles: InteractionProfileTypes,
    actions: Seq<ActionView>,
    name: Seq<char>,
    interaction_profile: InteractionProfilePath,
    bindings: Seq<SimpleBinding>,
    r: Option<Result<BindingLayout, CreateBindingLayoutError>>,
) -> bool {
    if layout_defined(before, profiles, actions, interaction_profile, bindings) {
        r matches Some(x) && layout_created(before, after, profiles, actions, name, interaction_profile, bindings, x)
    } else {
        &&& r is None
        &&& process_bindings(before.strings(), before.names(), profiles.types()[interaction_profile], actions, bindings)
            == LayoutOutcome::Stuck(after.strings(), after.names())
    }
}

impl Instance {
    /// As `create_binding_layout`, for any bindings: where processing
    /// reaches a binding whose path has no `/input` past its start, `None`.
    pub fn try_create_binding_layout(
        &self,
        paths: &mut PathManager,
        profiles: &InteractionProfileTypes,
        name: &str,
        interaction_profile: InteractionProfilePath,
        bindings: &[SimpleBinding],
    ) -> (r: Option<Result<BindingLayout, CreateBindingLayoutError>>)
        requires
            old(paths).wf(),
            profiles.wf(),
            self.wf(),
            old(paths).count() + 2 * bindings@.len() <= u32::MAX,
        ensures
            final(paths).wf(),
            layout_attempted(*old(paths), *final(paths), *profiles, self.all_actions(), name@, interaction_profile, bindings@, r),
    {
        match ProcessedBindingLayout::try_new(paths, profiles, self, interaction_profile, bindings) {
            Some(Ok(processed)) => Some(Ok(BindingLayout {
                name: name.to_owned(),
                interaction_profile,
                bindings: vstd::slice::slice_to_vec(bindings),
                processed_cache: processed,
            })),
            Some(Err(e)) => Some(Err(e)),
            None => None,
        }
    }

    /// A binding layout named `name` for the interaction profile
    /// `interaction_profile`, processed as `ProcessedBindingLayout::new`
    /// does it with this instance's actions.
    pub fn create_binding_layout(
        &self,
        paths: &mut PathManager,
        profiles: &InteractionProfileTypes,
        name: &str,
        interaction_profile: InteractionProfilePath,
        bindings: &[SimpleBinding],
    ) -> (r: Result<BindingLayout, CreateBindingLayoutError>)
        requires
            old(paths).wf(),
            profiles.wf(),
            self.wf(),
            old(paths).count() + 2 * bindings@.len() <= u32::MAX,
            layout_defined(*old(paths), *profiles, self.all_actions(), interaction_profile, bindings@),
        ensures
            final(paths).wf(),
            layout_created(*old(paths), *final(paths), *profiles, self.all_actions(), name@, interaction_profile, bindings@, r),
    {
        match ProcessedBindingLayout::new(paths, profiles, self, interaction_profile, bindings) {
            Ok(processed) => Ok(BindingLayout {
                name: name.to_owned(),
                interaction_profile,
                bindings: vstd::slice::slice_to_vec(bindings),
                processed_cache: processed,
            }),
            Err(e) => Err(e),
        }
    }
}

/// An action with a listed position has a binding.
proof fn lemma_indices_for_action_listed(processed: Seq<ProcessedInputBinding>, action: u64)
    requires
        indices_for_action(processed, action).len() > 0,
    ensures
        exists|k: int| 0 <= k < processed.len() && processed[k].action == action,
    decreases processed.len(),
{
    if processed.last().action != action {
        lemma_indices_for_action_listed(processed.drop_last(), action);
        let k = choose|k: int| 0 <= k < processed.drop_last().len() && processed.drop_last()[k].action == action;
        assert(processed[k] == processed.drop_last()[k]);
    } else {
        assert(processed[processed.len() - 1].action == action);
    }
}

/// An input component with a listed position has a binding.
proof fn lemma_indices_for_input_listed(processed: Seq<ProcessedInputBinding>, input: (UserPath, InputPath))
    requires
        indices_for_input(processed, input).len() > 0,
    ensures
        exists|k: int| 0 <= k < processed.len() && processed[k].input_component == input,
    decreases processed.len(),
{
    if processed.last().input_component != input {
        lemma_indices_for_input_listed(processed.drop_last(), input);
        let k = choose|k: int| 0 <= k < processed.drop_last().len() && processed.drop_last()[k].input_component == input;
        assert(processed[k] == processed.drop_last()[k]);
    } else {
        assert(processed[processed.len() - 1].input_component == input);
    }
}

} // verus!
