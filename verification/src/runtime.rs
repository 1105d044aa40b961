use vstd::prelude::*;

use crate::controller_paths::GameControllerPaths;
use crate::device_type::DeviceTypes;
use crate::instance::Instance;
use crate::interaction_profile_types::InteractionProfileTypes;
use crate::path_manager::PathManager;
use crate::paths::CommonPaths;

verus! {

/// The runtime: its paths, device types and interaction profile types, and
/// the instances created in it.
pub struct Runtime {
    pub paths: PathManager,
    pub common_paths: CommonPaths,
    pub controller_paths: GameControllerPaths,
    pub device_types: DeviceTypes,
    pub interaction_profile_types: InteractionProfileTypes,
    pub instances: Vec<Instance>,
}

impl Runtime {
    /// The instances, the one with handle `h` at index `h - 1`.
    pub open spec fn instances(self) -> Seq<Instance> {
        self.instances@
    }

    /// The parts are well formed, and instance `h` sits at index `h - 1`.
    pub open spec fn wf(self) -> bool {
        &&& self.paths.wf()
        &&& self.device_types.wf()
        &&& self.interaction_profile_types.wf()
        &&& forall|i: int| 0 <= i < self.instances().len() ==> {
            &&& (#[trigger] self.instances()[i]).wf()
            &&& self.instances()[i].id() == i + 1
        }
    }

    /// `h` is the handle of an instance of this runtime.
    pub open spec fn has_instance(self, h: u64) -> bool {
        1 <= h <= self.instances().len()
    }

    /// A runtime over the given parts, without instances.
    pub fn new(
        paths: PathManager,
        common_paths: CommonPaths,
        controller_paths: GameControllerPaths,
        device_types: DeviceTypes,
        interaction_profile_types: InteractionProfileTypes,
    ) -> (r: Self)
        ensures
            r.paths == paths,
            r.common_paths == common_paths,
            r.controller_paths == controller_paths,
            r.device_types == device_types,
            r.interaction_profile_types == interaction_profile_types,
            r.instances() == Seq::<Instance>::empty(),
    {
        Runtime {
            paths,
            common_paths,
            controller_paths,
            device_types,
            interaction_profile_types,
            instances: Vec::new(),
        }
    }

    /// Creates an instance; its handle is one more than the number of
    /// instances created before.
    pub fn create_instance(&mut self) -> (h: u64)
        requires
            old(self).wf(),
            old(self).instances().len() < u64::MAX,
        ensures
            final(self).wf(),
            h == old(self).instances().len() + 1,
            final(self).instances() == old(self).instances().push(final(self).instances()[h - 1]),
            final(self).instances()[h - 1].id() == h,
            final(self).instances()[h - 1].sets() == Seq::<crate::instance::ActionSetView>::empty(),
            final(self).instances()[h - 1].all_actions() == Seq::<crate::action::ActionView>::empty(),
            final(self).paths == old(self).paths,
            final(self).device_types == old(self).device_types,
            final(self).interaction_profile_types == old(self).interaction_profile_types,
    {
        let n = self.instances.len();
        let h = n as u64 + 1;
        let instance = Instance::new(h);
        self.instances.push(instance);
        assert(self.instances()[n as int] == instance);
        h
    }

    /// The instance with handle `h`.
    pub fn instance(&self, h: u64) -> (r: &Instance)
        requires
            self.has_instance(h),
        ensures
            *r == self.instances()[h - 1],
    {
        let n = self.instances.len();
        assert(h - 1 < n);
        let i = (h - 1) as usize;
        &self.instances[i]
    }
}

/// The windows among `windows`, each once, in the order they first occur;
/// sessions without a window are skipped.
pub open spec fn distinct_windows(windows: Seq<Option<usize>>) -> Seq<usize>
    decreases windows.len(),
{
    if windows.len() == 0 {
        Seq::empty()
    } else {
        let rest = distinct_windows(windows.drop_last());
        match windows.last() {
            Some(w) => if rest.contains(w) {
                rest
            } else {
                rest.push(w)
            },
            None => rest,
        }
    }
}

/// The windows that the drivers are told about: the window of each session
/// that has one, each once, in the order the sessions come.
pub fn session_windows(windows: &[Option<usize>]) -> (r: Vec<usize>)
    ensures
        r@ == distinct_windows(windows@),
        r@.no_duplicates(),
{
    let mut r: Vec<usize> = Vec::new();
    let mut i: usize = 0;
    assert(windows@.take(0) =~= Seq::<Option<usize>>::empty());
    while i < windows.len()
        invariant
            0 <= i <= windows@.len(),
            r@ == distinct_windows(windows@.take(i as int)),
            r@.no_duplicates(),
        decreases windows@.len() - i,
    {
        proof {
            assert(windows@.take(i + 1).drop_last() =~= windows@.take(i as int));
            assert(windows@.take(i + 1).last() == windows@[i as int]);
        }
        match windows[i] {
            Some(w) => {
                let mut seen = false;
                let mut k: usize = 0;
                while k < r.len()
                    invariant
                        0 <= k <= r@.len(),
                        seen <==> exists|q: int| 0 <= q < k && r@[q] == w,
                    decreases r@.len() - k,
                {
                    if r[k] == w {
                        seen = true;
                    }
                    k = k + 1;
                }
                if !seen {
                    let ghost pre = r@;
                    r.push(w);
                    assert forall|a: int, b: int| 0 <= a < b < r@.len() implies r@[a] != r@[b] by {
                        if b == pre.len() {
                            assert(r@[a] == pre[a]);
                        }
                    }
                } else {
                    assert(r@.contains(w));
                }
            },
            None => {},
        }
        i = i + 1;
    }
    assert(windows@.take(windows@.len() as int) =~= windows@);
    r
}

} // verus!
