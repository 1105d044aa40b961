use vstd::prelude::*;

use crate::action::ChildActionType;

verus! {

/// A boolean action event: the new state and whether it differs from the
/// previously reported state.
#[derive(Debug, Clone, Copy, PartialEq, Eq, Structural)]
pub struct BooleanEvent {
    pub state: bool,
    pub changed: bool,
}

/// Combined state of a sticky boolean action: the parent action and its
/// `sticky_press`, `sticky_toggle` and `sticky_release` children.
#[derive(Debug, Clone, Copy)]
pub struct StickyBoolState {
    combined_state: bool,
    parent_state: bool,
    stuck: bool,
    sticky_press_state: bool,
    release_state: bool,
}

/// One step of the sticky boolean state machine: `post` and `out` are the
/// state and the fired event after `event`, coming from the action of kind
/// `child_type`, arrives in state `pre`.
pub open spec fn sticky_step(
    pre: StickyBoolState,
    event: BooleanEvent,
    child_type: ChildActionType,
    post: StickyBoolState,
    out: Option<BooleanEvent>,
) -> bool {
    // any fired event reports the new combined state and whether it changed
    &&& match out {
        Some(e) => e.state == post.combined() && e.changed == (e.state != pre.combined()),
        None => post.combined() == pre.combined(),
    }
    &&& post.released() == pre.released()
    &&& child_type == ChildActionType::Parent ==> {
        if event.state {
            &&& out == Some(BooleanEvent { state: true, changed: !pre.combined() })
            &&& post.parent()
            &&& post.is_stuck() == pre.is_stuck()
            &&& post.pressed() == pre.pressed()
        } else if pre.parent() {
            &&& !post.parent()
            &&& post.is_stuck() == pre.is_stuck()
            &&& post.pressed() == pre.pressed()
            &&& if !pre.pressed() && !pre.is_stuck() {
                out == Some(BooleanEvent { state: false, changed: pre.combined() })
            } else {
                out is None
            }
        } else {
            &&& out is None
            &&& post == pre
        }
    }
    &&& child_type == ChildActionType::StickyPress ==> {
        if event.state {
            &&& out == Some(BooleanEvent { state: true, changed: !pre.combined() })
            &&& post.pressed()
            &&& post.is_stuck() == !pre.released()
            &&& post.parent() == pre.parent()
        } else if pre.pressed() {
            &&& !post.pressed()
            &&& post.is_stuck() == pre.is_stuck()
            &&& post.parent() == pre.parent()
            &&& if !pre.parent() && !pre.is_stuck() {
                out == Some(BooleanEvent { state: false, changed: pre.combined() })
            } else {
                out is None
            }
        } else {
            &&& out is None
            &&& post == pre
        }
    }
    &&& child_type == ChildActionType::StickyToggle ==> {
        &&& post.parent() == pre.parent()
        &&& post.pressed() == pre.pressed()
        &&& if event.state && event.changed {
            &&& post.is_stuck() == !pre.is_stuck()
            &&& if !pre.is_stuck() {
                out == Some(BooleanEvent { state: true, changed: !pre.combined() })
            } else if !pre.parent() && !pre.pressed() && pre.combined() {
                out == Some(BooleanEvent { state: false, changed: true })
            } else {
                out is None
            }
        } else {
            &&& out is None
            &&& post == pre
        }
    }
    &&& child_type == ChildActionType::StickyRelease ==> {
        &&& post.parent() == pre.parent()
        &&& post.pressed() == pre.pressed()
        &&& if event.state && event.changed {
            &&& !post.is_stuck()
            &&& if !pre.parent() && !pre.pressed() && pre.combined() {
                out == Some(BooleanEvent { state: false, changed: true })
            } else {
                out is None
            }
        } else {
            &&& out is None
            &&& post == pre
        }
    }
}

/// The child kinds that a sticky boolean action accepts.
pub open spec fn is_sticky_child(child_type: ChildActionType) -> bool {
    ||| child_type == ChildActionType::Parent
    ||| child_type == ChildActionType::StickyPress
    ||| child_type == ChildActionType::StickyToggle
    ||| child_type == ChildActionType::StickyRelease
}

/// Every step of the sticky state machine keeps the combined state equal to
/// "parent held, or sticky press held, or latched".
pub proof fn lemma_sticky_step_keeps_consistent(
    pre: StickyBoolState,
    event: BooleanEvent,
    child_type: ChildActionType,
    post: StickyBoolState,
    out: Option<BooleanEvent>,
)
    requires
        pre.consistent(),
        is_sticky_child(child_type),
        sticky_step(pre, event, child_type, post, out),
    ensures
        post.consistent(),
{
}

/// Once a sticky press has latched the action, releasing the parent or the
/// sticky press fires nothing and the action stays on.
pub proof fn lemma_sticky_press_latches(
    s0: StickyBoolState,
    press: BooleanEvent,
    s1: StickyBoolState,
    out1: Option<BooleanEvent>,
    release: BooleanEvent,
    child_type: ChildActionType,
    s2: StickyBoolState,
    out2: Option<BooleanEvent>,
)
    requires
        s0.consistent(),
        press.state,
        sticky_step(s0, press, ChildActionType::StickyPress, s1, out1),
        !release.state,
        child_type == ChildActionType::Parent || child_type == ChildActionType::StickyPress,
        sticky_step(s1, release, child_type, s2, out2),
    ensures
        out1 == Some(BooleanEvent { state: true, changed: !s0.combined() }),
        out2 is None,
        s2.combined(),
{
}

/// A sticky release after a latching press turns the action off (unless the
/// parent or sticky press is still held).
pub proof fn lemma_sticky_release_unlatches(
    s0: StickyBoolState,
    release: BooleanEvent,
    s1: StickyBoolState,
    out: Option<BooleanEvent>,
)
    requires
        s0.consistent(),
        s0.is_stuck(),
        !s0.parent(),
        !s0.pressed(),
        release.state,
        release.changed,
        sticky_step(s0, release, ChildActionType::StickyRelease, s1, out),
    ensures
        out == Some(BooleanEvent { state: false, changed: true }),
        !s1.combined(),
        s1.consistent(),
{
}

/// Toggling the latch off while neither the parent nor the sticky press is
/// held turns the action off, also when the parent was held while the latch
/// was set and released since.
pub proof fn lemma_sticky_toggle_off_releases(
    s0: StickyBoolState,
    toggle: BooleanEvent,
    s1: StickyBoolState,
    out: Option<BooleanEvent>,
)
    requires
        s0.consistent(),
        s0.is_stuck(),
        !s0.parent(),
        !s0.pressed(),
        toggle.state,
        toggle.changed,
        sticky_step(s0, toggle, ChildActionType::StickyToggle, s1, out),
    ensures
        out == Some(BooleanEvent { state: false, changed: true }),
        !s1.combined(),
        s1.consistent(),
{
}

/// Releasing the parent while the latch is set keeps the action on, and the
/// parent no longer counts as held.
pub proof fn lemma_sticky_parent_release_while_latched(
    s0: StickyBoolState,
    release: BooleanEvent,
    s1: StickyBoolState,
    out: Option<BooleanEvent>,
)
    requires
        s0.consistent(),
        s0.is_stuck(),
        s0.parent(),
        !release.state,
        sticky_step(s0, release, ChildActionType::Parent, s1, out),
    ensures
        out is None,
        s1.combined(),
        !s1.parent(),
        s1.is_stuck(),
{
}

/// Two toggles in a row leave the latch as it was.
pub proof fn lemma_sticky_toggle_twice(
    s0: StickyBoolState,
    e: BooleanEvent,
    s1: StickyBoolState,
    out1: Option<BooleanEvent>,
    s2: StickyBoolState,
    out2: Option<BooleanEvent>,
)
    requires
        sticky_step(s0, e, ChildActionType::StickyToggle, s1, out1),
        sticky_step(s1, e, ChildActionType::StickyToggle, s2, out2),
    ensures
        s2.is_stuck() == s0.is_stuck(),
        s2.parent() == s0.parent(),
        s2.pressed() == s0.pressed(),
{
}

impl StickyBoolState {
    /// The combined state reported for the action.
    pub closed spec fn combined(self) -> bool {
        self.combined_state
    }

    /// The parent action is held.
    pub closed spec fn parent(self) -> bool {
        self.parent_state
    }

    /// The sticky latch is set.
    pub closed spec fn is_stuck(self) -> bool {
        self.stuck
    }

    /// The sticky press child is held.
    pub closed spec fn pressed(self) -> bool {
        self.sticky_press_state
    }

    /// The sticky release child is held.
    pub closed spec fn released(self) -> bool {
        self.release_state
    }

    /// The combined state is on exactly when the parent, the sticky press or
    /// the stuck latch is on; the release latch is never set.
    pub open spec fn consistent(self) -> bool {
        &&& self.combined() == (self.parent() || self.pressed() || self.is_stuck())
        &&& !self.released()
    }

    /// A state with everything released.
    pub fn new() -> (s: Self)
        ensures
            !s.combined(),
            !s.parent(),
            !s.is_stuck(),
            !s.pressed(),
            !s.released(),
    {
        StickyBoolState {
            combined_state: false,
            parent_state: false,
            stuck: false,
            sticky_press_state: false,
            release_state: false,
        }
    }

    /// Feeds a boolean event of the parent action or of one of its sticky
    /// children into the combined state. Returns the event that the combined
    /// action fires, if any.
    pub fn on_action_event(&mut self, event: BooleanEvent, child_type: ChildActionType) -> (out:
        Option<BooleanEvent>)
        requires
            is_sticky_child(child_type),
        ensures
            sticky_step(*old(self), event, child_type, *final(self), out),
    {
        let new_child_state = event.state;
        let changed = event.changed;
        let new_state: Option<bool> = match child_type {
            ChildActionType::Parent => {
                if new_child_state {
                    self.parent_state = true;
                    Some(true)
                } else if self.parent_state {
                    self.parent_state = false;
                    if !self.sticky_press_state && !self.stuck {
                        Some(false)
                    } else {
                        None
                    }
                } else {
                    None
                }
            },
            ChildActionType::StickyPress => {
                if new_child_state {
                    self.sticky_press_state = true;
                    self.stuck = !self.release_state;
                    Some(true)
                } else if self.sticky_press_state {
                    self.sticky_press_state = false;
                    if !self.parent_state && !self.stuck {
                        Some(false)
                    } else {
                        None
                    }
                } else {
                    None
                }
            },
            ChildActionType::StickyToggle => {
                if new_child_state && changed {
                    self.stuck = !self.stuck;
                    if self.stuck {
                        Some(true)
                    } else if !self.parent_state && !self.sticky_press_state
                        && self.combined_state {
                        Some(false)
                    } else {
                        None
                    }
                } else {
                    None
                }
            },
            _ => {
                if new_child_state && changed {
                    self.stuck = false;
                    if !self.parent_state && !self.sticky_press_state && self.combined_state {
                        Some(false)
                    } else {
                        None
                    }
                } else {
                    None
                }
            },
        };
        match new_state {
            Some(new_state) => {
                let out = BooleanEvent { state: new_state, changed: new_state != self.combined_state };
                self.combined_state = new_state;
                Some(out)
            },
            None => None,
        }
    }

    /// Releases the stuck latch (keeping it only while the sticky press is
    /// held). When that turns the action off, returns the release event.
    ///
    /// The combined state itself is left as it was.
    pub fn handle_event(&mut self) -> (out: Option<BooleanEvent>)
        ensures
            final(self).combined() == old(self).combined(),
            final(self).parent() == old(self).parent(),
            final(self).pressed() == old(self).pressed(),
            final(self).released() == old(self).released(),
            final(self).is_stuck() == (old(self).is_stuck() && old(self).pressed()),
            out == (if old(self).is_stuck() && old(self).combined() && !old(self).parent()
                && !old(self).pressed() {
                Some(BooleanEvent { state: false, changed: true })
            } else {
                None::<BooleanEvent>
            }),
    {
        if self.stuck {
            self.stuck = self.sticky_press_state;
            if self.combined_state && !self.parent_state && !self.stuck {
                Some(BooleanEvent { state: false, changed: true })
            } else {
                None
            }
        } else {
            None
        }
    }

    /// The current combined boolean state.
    pub fn get_state(&self) -> (r: bool)
        ensures
            r == self.combined(),
    {
        self.combined_state
    }
}

} // verus!
