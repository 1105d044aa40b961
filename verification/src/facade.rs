use std::marker::PhantomData;
use std::sync::Arc;

use vstd::prelude::*;

use crate::action::{parent_child, ActionCompoundType, ChildActionType};
use crate::action_type::ActionType;
use crate::application::ApplicationInfo;
use crate::application_instance::{after_taking, taken_actions, ApplicationInstance};
use crate::binding::SimpleBinding;
use crate::binding_layout::{layout_attempted, layout_created, layout_defined, BindingLayout};
use crate::instance::{action_at, created_actions, handle_range, valid_handle, ActionSetView};
use crate::path_manager::got_path;
use crate::runtime::Runtime;
use crate::types::{CreateBindingLayoutError, PathFormatError, SuPath};

verus! {

/// A part of the interface: embedded in this process, or reached through a
/// foreign interface, which is not available.
pub enum Inner<E> {
    Embedded(E),
    FFI,
}

impl<E> Inner<E> {
    /// The embedded part, if it is one.
    pub fn get(&self) -> (r: Option<&E>)
        ensures
            match *self {
                Inner::Embedded(e) => r == Some(&e),
                Inner::FFI => r is None,
            },
    {
        match self {
            Inner::Embedded(e) => Some(e),
            Inner::FFI => None,
        }
    }
}

/// The runtime selected for this process.
pub struct SuInputRuntime(pub Inner<Runtime>);

/// An instance of the interface, by its handle in the runtime.
pub struct SuInstance(pub Inner<u64>);

/// An action set, by the handle of its instance and its own handle.
pub struct SuActionSet(pub Inner<(u64, u64)>);

/// A binding layout, shared with the application instances that use it.
pub struct SuBindingLayout(pub Inner<Arc<BindingLayout>>);

/// An application instance.
pub struct SuApplicationInstance(pub Inner<ApplicationInstance>);

/// An action of data type `T`, by the handle of its instance and its own
/// handle.
pub struct SuAction<T: ActionType>(pub Inner<(u64, u64)>, pub PhantomData<T>);

/// The handles of the action sets `sets` within their instance.
pub open spec fn set_handles(sets: Seq<&SuActionSet>) -> Seq<u64> {
    sets.map_values(|s: &SuActionSet| (s.0->0).1)
}

/// `Arc::clone` (std): another pointer to the same binding layout, so the
/// two point to equal values.
#[verifier::external_body]
fn share_layout(layout: &Arc<BindingLayout>) -> (r: Arc<BindingLayout>)
    ensures
        r == *layout,
{
    Arc::clone(layout)
}

/// What an application instance is created from.
pub struct ApplicationInstanceCreateInfo<'a> {
    pub application_info: &'a ApplicationInfo<'a>,
    pub sub_name: Option<&'a str>,
    pub action_sets: &'a [&'a SuActionSet],
    pub binding_layouts: &'a [&'a SuBindingLayout],
}

impl SuInputRuntime {
    /// The embedded runtime.
    pub open spec fn runtime(self) -> Runtime {
        self.0->0
    }

    /// The runtime is embedded and well formed.
    pub open spec fn wf(self) -> bool {
        self.0 is Embedded && self.runtime().wf()
    }

    /// Creates an instance for accessing the interface.
    pub fn create_instance(&mut self) -> (r: SuInstance)
        requires
            old(self).wf(),
            old(self).runtime().instances().len() < u64::MAX,
        ensures
            final(self).wf(),
            r.0 == Inner::Embedded((old(self).runtime().instances().len() + 1) as u64),
            final(self).runtime().instances().len() == old(self).runtime().instances().len() + 1,
            final(self).runtime().instances().drop_last() == old(self).runtime().instances(),
            final(self).runtime().instances().last().sets() == Seq::<ActionSetView>::empty(),
            final(self).runtime().instances().last().all_actions() == Seq::<crate::action::ActionView>::empty(),
            final(self).runtime().paths == old(self).runtime().paths,
            final(self).runtime().interaction_profile_types == old(self).runtime().interaction_profile_types,
    {
        match &mut self.0 {
            Inner::Embedded(runtime) => {
                let h = runtime.create_instance();
                assert(runtime.instances().drop_last() =~= old(self).runtime().instances());
                SuInstance(Inner::Embedded(h))
            },
            Inner::FFI => {
                assert(false);
                SuInstance(Inner::FFI)
            },
        }
    }
}

impl SuInstance {
    /// The handle of the instance.
    pub open spec fn handle(self) -> u64 {
        self.0->0
    }

    /// The instance is embedded in `runtime`, which is well formed.
    pub open spec fn lives_in(self, runtime: SuInputRuntime) -> bool {
        &&& self.0 is Embedded
        &&& runtime.wf()
        &&& runtime.runtime().has_instance(self.handle())
    }

    /// The path of `path_string`, interned in the runtime's paths.
    pub fn get_path(&self, runtime: &mut SuInputRuntime, path_string: &str) -> (r: Result<SuPath, PathFormatError>)
        requires
            self.lives_in(*old(runtime)),
            old(runtime).runtime().paths.count() <= u32::MAX,
        ensures
            self.lives_in(*final(runtime)),
            got_path(old(runtime).runtime().paths, final(runtime).runtime().paths, path_string@, r),
            final(runtime).runtime().instances() == old(runtime).runtime().instances(),
            final(runtime).runtime().interaction_profile_types == old(runtime).runtime().interaction_profile_types,
    {
        match &mut runtime.0 {
            Inner::Embedded(rt) => rt.paths.get_path(path_string),
            Inner::FFI => {
                assert(false);
                Err(PathFormatError)
            },
        }
    }

    /// Creates an action set in this instance.
    pub fn create_action_set(&self, runtime: &mut SuInputRuntime, name: &str, default_priority: u32) -> (r: SuActionSet)
        requires
            self.lives_in(*old(runtime)),
            old(runtime).runtime().instances()[self.handle() - 1].sets().len() < u64::MAX,
        ensures
            self.lives_in(*final(runtime)),
            ({
                let before = old(runtime).runtime().instances()[self.handle() - 1];
                let after = final(runtime).runtime().instances()[self.handle() - 1];
                &&& r.0 == Inner::Embedded((self.handle(), before.sets().len() as u64))
                &&& after.sets() == before.sets().push(ActionSetView {
                    handle: before.sets().len() as u64,
                    name: name@,
                    default_priority,
                    actions: seq![],
                    baked: None,
                })
                &&& after.all_actions() == before.all_actions()
            }),
            final(runtime).runtime().instances().len() == old(runtime).runtime().instances().len(),
            forall|i: int| 0 <= i < old(runtime).runtime().instances().len() && i != self.handle() - 1
                ==> final(runtime).runtime().instances()[i] == old(runtime).runtime().instances()[i],
            final(runtime).runtime().paths == old(runtime).runtime().paths,
            final(runtime).runtime().interaction_profile_types == old(runtime).runtime().interaction_profile_types,
    {
        let h = match self.0 {
            Inner::Embedded(h) => h,
            Inner::FFI => 0,
        };
        match &mut runtime.0 {
            Inner::Embedded(rt) => {
                let n = rt.instances.len();
                assert(h - 1 < n);
                let i = (h - 1) as usize;
                let set = rt.instances[i].create_action_set(name.to_owned(), default_priority);
                assert(rt.instances()[i as int].id() == h);
                SuActionSet(Inner::Embedded((h, set)))
            },
            Inner::FFI => {
                assert(false);
                SuActionSet(Inner::FFI)
            },
        }
    }

    /// Creates a binding layout named `name` for `interaction_profile` from
    /// the actions of this instance.
    pub fn create_binding_layout(
        &self,
        runtime: &mut SuInputRuntime,
        name: &str,
        interaction_profile: SuPath,
        bindings: &[SimpleBinding],
    ) -> (r: Result<SuBindingLayout, CreateBindingLayoutError>)
        requires
            self.lives_in(*old(runtime)),
            old(runtime).runtime().paths.count() + 2 * bindings@.len() <= u32::MAX,
            layout_defined(
                old(runtime).runtime().paths,
                old(runtime).runtime().interaction_profile_types,
                old(runtime).runtime().instances()[self.handle() - 1].all_actions(),
                interaction_profile,
                bindings@,
            ),
        ensures
            self.lives_in(*final(runtime)),
            layout_created(
                old(runtime).runtime().paths,
                final(runtime).runtime().paths,
                old(runtime).runtime().interaction_profile_types,
                old(runtime).runtime().instances()[self.handle() - 1].all_actions(),
                name@,
                interaction_profile,
                bindings@,
                match r {
                    Ok(l) => Ok(*(l.0->0)),
                    Err(e) => Err(e),
                },
            ),
            r matches Ok(l) ==> l.0 is Embedded,
            final(runtime).runtime().instances() == old(runtime).runtime().instances(),
            final(runtime).runtime().interaction_profile_types == old(runtime).runtime().interaction_profile_types,
    {
        let h = match self.0 {
            Inner::Embedded(h) => h,
            Inner::FFI => 0,
        };
        match &mut runtime.0 {
            Inner::Embedded(rt) => {
                let n = rt.instances.len();
                assert(h - 1 < n);
                let i = (h - 1) as usize;
                match rt.instances[i].create_binding_layout(
                    &mut rt.paths,
                    &rt.interaction_profile_types,
                    name,
                    interaction_profile,
                    bindings,
                ) {
                    Ok(layout) => Ok(SuBindingLayout(Inner::Embedded(Arc::new(layout)))),
                    Err(e) => Err(e),
                }
            },
            Inner::FFI => {
                assert(false);
                Err(CreateBindingLayoutError::InvalidPathHandle(interaction_profile))
            },
        }
    }

    /// As `create_binding_layout`, for any bindings: where processing reaches
    /// a binding whose path has no `/input` past its start, `None`, with the
    /// paths interned before that binding.
    pub fn try_create_binding_layout(
        &self,
        runtime: &mut SuInputRuntime,
        name: &str,
        interaction_profile: SuPath,
        bindings: &[SimpleBinding],
    ) -> (r: Option<Result<SuBindingLayout, CreateBindingLayoutError>>)
        requires
            self.lives_in(*old(runtime)),
            old(runtime).runtime().paths.count() + 2 * bindings@.len() <= u32::MAX,
        ensures
            self.lives_in(*final(runtime)),
            layout_attempted(
                old(runtime).runtime().paths,
                final(runtime).runtime().paths,
                old(runtime).runtime().interaction_profile_types,
                old(runtime).runtime().instances()[self.handle() - 1].all_actions(),
                name@,
                interaction_profile,
                bindings@,
                match r {
                    Some(Ok(l)) => Some(Ok(*(l.0->0))),
                    Some(Err(e)) => Some(Err(e)),
                    None => None,
                },
            ),
            r matches Some(Ok(l)) ==> l.0 is Embedded,
            final(runtime).runtime().instances() == old(runtime).runtime().instances(),
            final(runtime).runtime().interaction_profile_types == old(runtime).runtime().interaction_profile_types,
    {
        let h = match self.0 {
            Inner::Embedded(h) => h,
            Inner::FFI => 0,
        };
        match &mut runtime.0 {
            Inner::Embedded(rt) => {
                let n = rt.instances.len();
                assert(h - 1 < n);
                let i = (h - 1) as usize;
                match rt.instances[i].try_create_binding_layout(
                    &mut rt.paths,
                    &rt.interaction_profile_types,
                    name,
                    interaction_profile,
                    bindings,
                ) {
                    Some(Ok(layout)) => Some(Ok(SuBindingLayout(Inner::Embedded(Arc::new(layout))))),
                    Some(Err(e)) => Some(Err(e)),
                    None => None,
                }
            },
            Inner::FFI => {
                assert(false);
                None
            },
        }
    }

    /// Creates an application instance of this instance over the given
    /// action sets, which belong to this instance, and binding layouts: each
    /// set is baked, and the application instance takes the baked actions of
    /// all of them and shares the layouts.
    pub fn create_application_instance(
        &self,
        runtime: &mut SuInputRuntime,
        create_info: &ApplicationInstanceCreateInfo,
    ) -> (r: SuApplicationInstance)
        requires
            self.lives_in(*old(runtime)),
            forall|k: int| 0 <= k < create_info.action_sets@.len() ==> {
                &&& (#[trigger] create_info.action_sets@[k]).0 is Embedded
                &&& (create_info.action_sets@[k].0->0).0 == self.handle()
                &&& (create_info.action_sets@[k].0->0).1 < old(runtime).runtime().instances()[self.handle() - 1].sets().len()
            },
            forall|k: int| 0 <= k < create_info.binding_layouts@.len() ==> (#[trigger] create_info.binding_layouts@[k]).0 is Embedded,
        ensures
            self.lives_in(*final(runtime)),
            r.0 is Embedded,
            ({
                let before = old(runtime).runtime().instances()[self.handle() - 1];
                let after = final(runtime).runtime().instances()[self.handle() - 1];
                let hs = set_handles(create_info.action_sets@);
                let ai = r.0->0;
                &&& after.all_actions() == before.all_actions()
                &&& after.sets().len() == before.sets().len()
                &&& forall|j: int| 0 <= j < before.sets().len() ==> #[trigger] after.sets()[j] == after_taking(before.sets(), hs, j)
                &&& ai.application_name@ == create_info.application_info.name@
                &&& (ai.sub_name matches Some(s) ==> create_info.sub_name matches Some(t) && s@ == t@)
                &&& (ai.sub_name is None ==> create_info.sub_name is None)
                &&& ai.action_sets@.no_duplicates()
                &&& ai.action_sets@.to_set() == hs.to_set()
                &&& ai.actions@.no_duplicates()
                &&& ai.actions@.to_set() == taken_actions(before.sets(), hs)
                &&& ai.binding_layouts@.len() == create_info.binding_layouts@.len()
                &&& forall|k: int| 0 <= k < ai.binding_layouts@.len() ==> #[trigger] ai.binding_layouts@[k] == create_info.binding_layouts@[k].0->0
            }),
            final(runtime).runtime().instances().len() == old(runtime).runtime().instances().len(),
            forall|i: int| 0 <= i < old(runtime).runtime().instances().len() && i != self.handle() - 1
                ==> final(runtime).runtime().instances()[i] == old(runtime).runtime().instances()[i],
            final(runtime).runtime().paths == old(runtime).runtime().paths,
            final(runtime).runtime().interaction_profile_types == old(runtime).runtime().interaction_profile_types,
    {
        let h = match self.0 {
            Inner::Embedded(h) => h,
            Inner::FFI => 0,
        };
        let mut sets: Vec<u64> = Vec::new();
        let mut k: usize = 0;
        while k < create_info.action_sets.len()
            invariant
                0 <= k <= create_info.action_sets@.len(),
                sets@ == set_handles(create_info.action_sets@).take(k as int),
                forall|q: int| 0 <= q < create_info.action_sets@.len() ==> (#[trigger] create_info.action_sets@[q]).0 is Embedded,
            decreases create_info.action_sets@.len() - k,
        {
            let set = match create_info.action_sets[k].0 {
                Inner::Embedded((_, s)) => s,
                Inner::FFI => 0,
            };
            sets.push(set);
            assert(sets@ =~= set_handles(create_info.action_sets@).take(k + 1));
            k = k + 1;
        }
        assert(sets@ =~= set_handles(create_info.action_sets@));
        let mut layouts: Vec<Arc<BindingLayout>> = Vec::new();
        let mut k: usize = 0;
        while k < create_info.binding_layouts.len()
            invariant
                0 <= k <= create_info.binding_layouts@.len(),
                layouts@.len() == k,
                forall|q: int| 0 <= q < k ==> #[trigger] layouts@[q] == create_info.binding_layouts@[q].0->0,
                forall|q: int| 0 <= q < create_info.binding_layouts@.len() ==> (#[trigger] create_info.binding_layouts@[q]).0 is Embedded,
            decreases create_info.binding_layouts@.len() - k,
        {
            match &create_info.binding_layouts[k].0 {
                Inner::Embedded(layout) => {
                    layouts.push(share_layout(layout));
                },
                Inner::FFI => {
                    assert(false);
                },
            }
            k = k + 1;
        }
        match &mut runtime.0 {
            Inner::Embedded(rt) => {
                let n = rt.instances.len();
                assert(h - 1 < n);
                let i = (h - 1) as usize;
                proof {
                    assert forall|q: int| 0 <= q < sets@.len() implies #[trigger] sets@[q] < rt.instances()[i as int].sets().len() by {
                        assert(sets@[q] == (create_info.action_sets@[q].0->0).1);
                    }
                }
                let ai = rt.instances[i].create_application_instance(
                    create_info.application_info,
                    create_info.sub_name,
                    sets.as_slice(),
                    layouts,
                );
                assert(rt.instances()[i as int].id() == h);
                SuApplicationInstance(Inner::Embedded(ai))
            },
            Inner::FFI => {
                assert(false);
                SuApplicationInstance(Inner::FFI)
            },
        }
    }
}

impl SuActionSet {
    /// Creates an action of type `T` in this action set; the child actions
    /// of a compound action are created first and the action itself last.
    pub fn create_action<T: ActionType>(&self, runtime: &mut SuInputRuntime, name: &str, create_info: T::CreateInfo) -> (r: SuAction<T>)
        requires
            self.0 is Embedded,
            old(runtime).wf(),
            old(runtime).runtime().has_instance((self.0->0).0),
            (self.0->0).1 < old(runtime).runtime().instances()[(self.0->0).0 - 1].sets().len(),
            old(runtime).runtime().instances()[(self.0->0).0 - 1].all_actions().len() + 8 < u64::MAX,
        ensures
            final(runtime).wf(),
            ({
                let i = (self.0->0).0 - 1;
                let set = (self.0->0).1;
                let before = old(runtime).runtime().instances()[i];
                let after = final(runtime).runtime().instances()[i];
                let n = before.all_actions().len() as int;
                let created = created_actions(n, set, name@, T::spec_create_info(create_info));
                &&& after.all_actions() == before.all_actions() + created
                &&& after.sets() == before.sets().update(
                    set as int,
                    ActionSetView {
                        actions: before.sets()[set as int].actions + handle_range(n, created.len() as int),
                        ..before.sets()[set as int]
                    },
                )
                &&& r.0 == Inner::Embedded(((self.0->0).0, (n + created.len()) as u64))
            }),
            final(runtime).runtime().instances().len() == old(runtime).runtime().instances().len(),
            forall|j: int| 0 <= j < old(runtime).runtime().instances().len() && j != (self.0->0).0 - 1
                ==> final(runtime).runtime().instances()[j] == old(runtime).runtime().instances()[j],
            final(runtime).runtime().paths == old(runtime).runtime().paths,
            final(runtime).runtime().interaction_profile_types == old(runtime).runtime().interaction_profile_types,
    {
        let (h, set) = match self.0 {
            Inner::Embedded(p) => p,
            Inner::FFI => (0, 0),
        };
        let info = T::create_info(create_info);
        match &mut runtime.0 {
            Inner::Embedded(rt) => {
                let n = rt.instances.len();
                assert(h - 1 < n);
                let i = (h - 1) as usize;
                let action = rt.instances[i].create_action(set, name.to_owned(), info);
                assert(rt.instances()[i as int].id() == h);
                SuAction(Inner::Embedded((h, action)), PhantomData)
            },
            Inner::FFI => {
                assert(false);
                SuAction(Inner::FFI, PhantomData)
            },
        }
    }
}

impl<T: ActionType> SuAction<T> {
    /// The handle of the action within its instance.
    pub fn handle(&self) -> (r: u64)
        requires
            self.0 is Embedded,
        ensures
            r == (self.0->0).1,
    {
        match self.0 {
            Inner::Embedded((_, h)) => h,
            Inner::FFI => 0,
        }
    }

    /// The handle of this compound action's child of kind `ty`.
    pub fn get_child_action(&self, runtime: &SuInputRuntime, ty: ChildActionType) -> (r: u64)
        requires
            self.0 is Embedded,
            runtime.wf(),
            runtime.runtime().has_instance((self.0->0).0),
            valid_handle(runtime.runtime().instances()[(self.0->0).0 - 1].all_actions(), (self.0->0).1),
            action_at(runtime.runtime().instances()[(self.0->0).0 - 1].all_actions(), (self.0->0).1).compound
                matches ActionCompoundType::Parent { ty: p } && parent_child(p, ty) is Some,
        ensures
            action_at(runtime.runtime().instances()[(self.0->0).0 - 1].all_actions(), (self.0->0).1).compound
                matches ActionCompoundType::Parent { ty: p } && parent_child(p, ty) == Some(r),
    {
        let (h, a) = match self.0 {
            Inner::Embedded(p) => p,
            Inner::FFI => (0, 0),
        };
        match &runtime.0 {
            Inner::Embedded(rt) => {
                let instance = rt.instance(h);
                match instance.get_action(a) {
                    Some(action) => action.get_child_action(ty),
                    None => 0,
                }
            },
            Inner::FFI => 0,
        }
    }
}

} // verus!
