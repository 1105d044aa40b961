use vstd::prelude::*;
use std::collections::VecDeque;

use crate::types::Time;

verus! {

/// One press of a button: when it went down and, once released, when it
/// came up.
#[derive(Debug, Clone, Copy, PartialEq, Eq, Structural)]
pub struct Cycle {
    pub press_time: Time,
    pub release_time: Option<Time>,
}

/// The kinds of button activators.
#[derive(Debug, Clone, Copy, PartialEq, Eq, Structural)]
pub enum ActivatorType {
    Hold,
    Press,
    Release,
    LongHold,
    SingleTap,
    DoubleTap,
    TripleTap,
}

/// The order in which activators block each other, highest first.
#[derive(Debug, Clone, Copy, PartialEq, Eq, PartialOrd, Ord, Structural)]
pub enum ActivatorBlockPriority {
    TripleTap,
    DoubleTap,
    LongHold,
    SingleTap,
    Hold,
}

/// Whether an activator can fire for the press cycles seen so far.
#[derive(Debug, Clone, Copy, PartialEq, Eq, Structural)]
pub enum RunTest {
    MightRun,
    CanRun,
    CannotRun,
}

/// The press cycles of one button, in order.
pub struct ButtonActivatorSystem {
    cycle_buffer: VecDeque<Cycle>,
}

/// Presses and releases alternate: every cycle but the last is released.
pub open spec fn cycles_alternate(cycles: Seq<Cycle>) -> bool {
    forall|i: int| 0 <= i < cycles.len() - 1 ==> (#[trigger] cycles[i]).release_time is Some
}

impl ButtonActivatorSystem {
    /// The recorded press cycles, oldest first.
    pub closed spec fn cycles(self) -> Seq<Cycle> {
        self.cycle_buffer@
    }

    /// A system that has seen no press.
    pub fn new() -> (r: Self)
        ensures
            r.cycles() == Seq::<Cycle>::empty(),
    {
        ButtonActivatorSystem { cycle_buffer: VecDeque::new() }
    }

    /// Records a press (`state`) or a release of the button at `time`. A press
    /// opens a new cycle; a release closes the last one.
    pub fn on_event(&mut self, state: bool, time: Time)
        requires
            state ==> old(self).cycles().len() == 0 || old(self).cycles().last().release_time is Some,
            !state ==> old(self).cycles().len() == 0 || old(self).cycles().last().release_time is None,
        ensures
            state ==> final(self).cycles() == old(self).cycles().push(
                Cycle { press_time: time, release_time: None },
            ),
            !state ==> final(self).cycles() == if old(self).cycles().len() == 0 {
                old(self).cycles()
            } else {
                old(self).cycles().update(
                    old(self).cycles().len() - 1,
                    Cycle { release_time: Some(time), ..old(self).cycles().last() },
                )
            },
    {
        if state {
            self.cycle_buffer.push_back(Cycle { press_time: time, release_time: None });
        } else {
            let ghost pre = self.cycle_buffer@;
            match self.cycle_buffer.pop_back() {
                Some(last) => {
                    self.cycle_buffer.push_back(Cycle { release_time: Some(time), ..last });
                    assert(self.cycle_buffer@ =~= pre.update(pre.len() - 1, Cycle { release_time: Some(time), ..pre.last() }));
                },
                None => {},
            }
        }
    }

    /// Advances time; nothing is time-driven yet.
    pub fn tick(&mut self, time: Time)
        ensures
            final(self).cycles() == old(self).cycles(),
    {
    }
}

/// Press and release alternation is kept by well-ordered button events.
pub proof fn lemma_cycles_alternate_kept(pre: Seq<Cycle>, state: bool, time: Time, post: Seq<Cycle>)
    requires
        cycles_alternate(pre),
        state ==> pre.len() == 0 || pre.last().release_time is Some,
        state ==> post == pre.push(Cycle { press_time: time, release_time: None }),
        !state ==> post == if pre.len() == 0 {
            pre
        } else {
            pre.update(pre.len() - 1, Cycle { release_time: Some(time), ..pre.last() })
        },
    ensures
        cycles_alternate(post),
{
    assert forall|i: int| 0 <= i < post.len() - 1 implies (#[trigger] post[i]).release_time is Some by {
        if state {
            if i < pre.len() - 1 {
                assert(post[i] == pre[i]);
            } else {
                assert(post[i] == pre.last());
            }
        } else {
            assert(post[i] == pre[i]);
        }
    }
}

/// Fires after three taps within `max_duration` of the first press.
pub struct TripleTapActivator {
    pub max_duration: Time,
    pub active: bool,
}

impl TripleTapActivator {
    /// The blocking priority of triple taps.
    pub fn block_priority(&self) -> (r: ActivatorBlockPriority)
        ensures
            r == ActivatorBlockPriority::TripleTap,
    {
        ActivatorBlockPriority::TripleTap
    }

    /// A triple tap is cancelled if `max_duration` passes after the first
    /// press before the third press. One cycle: might still run. Two cycles:
    /// might run while the second one (its release, else its press) comes
    /// within `max_duration` of the first press. Three or more: can run if
    /// the third press comes within that. Otherwise it cannot run.
    pub fn test_event(&self, cycles: &[Cycle]) -> (r: RunTest)
        requires
            cycles@.len() > 0,
            cycles@[0].press_time.0 + self.max_duration.0 <= u64::MAX,
        ensures
            r == self.spec_test_event(cycles@),
    {
        if cycles.len() == 1 {
            return RunTest::MightRun;
        } else if cycles.len() == 2 {
            let last_event = match cycles[1].release_time {
                Some(t) => t,
                None => cycles[1].press_time,
            };
            if last_event.0 <= cycles[0].press_time.0 + self.max_duration.0 {
                return RunTest::MightRun;
            }
        } else {
            if cycles[2].press_time.0 <= cycles[0].press_time.0 + self.max_duration.0 {
                return RunTest::CanRun;
            }
        }
        RunTest::CannotRun
    }

    /// Once `max_duration` has passed since the first press without a third
    /// press, the triple tap cannot run any more; otherwise the same test as
    /// `test_event`.
    pub fn test_tick(&self, cycles: &[Cycle], time: Time) -> (r: RunTest)
        requires
            cycles@.len() > 0,
            cycles@[0].press_time.0 + self.max_duration.0 <= u64::MAX,
        ensures
            r == if cycles@[0].press_time.0 + self.max_duration.0 < time.0 && cycles@.len() < 3 {
                RunTest::CannotRun
            } else {
                self.spec_test_event(cycles@)
            },
    {
        if cycles[0].press_time.0 + self.max_duration.0 < time.0 && cycles.len() < 3 {
            RunTest::CannotRun
        } else {
            self.test_event(cycles)
        }
    }

    /// The result of `test_event` on `cycles`.
    pub open spec fn spec_test_event(&self, cycles: Seq<Cycle>) -> RunTest {
        if cycles.len() == 1 {
            RunTest::MightRun
        } else if cycles.len() == 2 {
            let last = match cycles[1].release_time {
                Some(t) => t,
                None => cycles[1].press_time,
            };
            if last.0 <= cycles[0].press_time.0 + self.max_duration.0 {
                RunTest::MightRun
            } else {
                RunTest::CannotRun
            }
        } else if cycles[2].press_time.0 <= cycles[0].press_time.0 + self.max_duration.0 {
            RunTest::CanRun
        } else {
            RunTest::CannotRun
        }
    }

    /// Running needs the fourth cycle; nothing else happens yet.
    pub fn run(&self, cycles: &[Cycle])
        requires
            cycles@.len() > 3,
    {
        let _cycle = &cycles[3];
    }
}

/// The kinds of single-button activators.
#[derive(Debug, Clone, Copy, PartialEq, Eq, Structural)]
pub enum SButtonActivatorType {
    Hold,
    Press,
    Release,
    LongHold,
    SingleTap,
    DoubleTap,
    TripleTap,
}

/// Activates when a press is held.
pub struct LongHoldActivator {
    pub min_hold_dir: Time,
    pub last_press_time: Option<Time>,
    pub active: bool,
}

impl LongHoldActivator {
    /// A press records its time; a release forgets it and deactivates.
    pub fn on_event(&mut self, pressed: bool, time: Time)
        ensures
            pressed ==> final(self).last_press_time == Some(time) && final(self).active
                == old(self).active,
            !pressed ==> final(self).last_press_time is None && !final(self).active,
            final(self).min_hold_dir == old(self).min_hold_dir,
    {
        if pressed {
            self.last_press_time = Some(time);
        } else {
            self.last_press_time = None;
            self.active = false;
        }
    }

    /// Activates once a recorded press has been held for at least
    /// `min_hold_dir`, that is when `time` is at least the press time plus
    /// `min_hold_dir`.
    pub fn tick(&mut self, time: Time)
        ensures
            final(self).last_press_time == old(self).last_press_time,
            final(self).min_hold_dir == old(self).min_hold_dir,
            final(self).active == (old(self).active || (old(self).last_press_time matches Some(t)
                && time.0 >= t.0 + old(self).min_hold_dir.0)),
    {
        if !self.active {
            if let Some(last_press_time) = self.last_press_time {
                if time.0 >= last_press_time.0 && time.0 - last_press_time.0 >= self.min_hold_dir.0 {
                    self.active = true;
                }
            }
        }
    }
}

} // verus!
