use vstd::prelude::*;

use crate::compound_action::BooleanEvent;

verus! {

/// The state a sticky boolean parent action keeps between events: its
/// combined state, whether it is stuck, and the handles of its
/// `sticky_press`, `sticky_release` and `sticky_toggle` children.
#[derive(Debug, Clone, Copy, PartialEq, Eq, Structural)]
pub struct StickyBoolParent {
    pub combined_state: bool,
    pub stuck: bool,
    pub press: u64,
    pub release: u64,
    pub toggle: u64,
}

/// The boolean state of `action` among `states`: the first entry for it
/// counts, and an action without an entry is off.
pub open spec fn bool_state(states: Seq<(u64, bool)>, action: u64) -> bool
    decreases states.len(),
{
    if states.len() == 0 {
        false
    } else if states[0].0 == action {
        states[0].1
    } else {
        bool_state(states.drop_first(), action)
    }
}

/// Whether a sticky parent is stuck after its children report `toggle`,
/// `release` and `press`: a toggle flips it; then a press sticks it, and a
/// release without a press unsticks it.
pub open spec fn next_stuck(stuck: bool, toggle: bool, release: bool, press: bool) -> bool {
    let flipped = if toggle { !stuck } else { stuck };
    if (flipped && release) || press {
        press
    } else {
        flipped
    }
}

/// Looks up the boolean state of `action`.
pub fn lookup_bool(states: &[(u64, bool)], action: u64) -> (r: bool)
    ensures
        r == bool_state(states@, action),
{
    let mut i: usize = 0;
    assert(states@.subrange(0, states@.len() as int) =~= states@);
    while i < states.len()
        invariant
            0 <= i <= states@.len(),
            bool_state(states@, action) == bool_state(states@.subrange(i as int, states@.len() as int), action),
        decreases states@.len() - i,
    {
        let ghost rest = states@.subrange(i as int, states@.len() as int);
        assert(rest[0] == states@[i as int]);
        if states[i].0 == action {
            return states[i].1;
        }
        assert(rest.drop_first() =~= states@.subrange(i + 1, states@.len() as int));
        i = i + 1;
    }
    false
}

/// Recomputes a sticky boolean parent from the current states of the parent
/// action and of its children. The parent's combined state is on while the
/// parent action is on or the parent is stuck; an event is returned only
/// when the combined state changes.
pub fn handle_sticky_bool_event(parent: u64, sticky: &mut StickyBoolParent, action_states: &[(u64, bool)]) -> (r: Option<BooleanEvent>)
    ensures
        ({
            let pre = *old(sticky);
            let stuck = next_stuck(
                pre.stuck,
                bool_state(action_states@, pre.toggle),
                bool_state(action_states@, pre.release),
                bool_state(action_states@, pre.press),
            );
            let combined = bool_state(action_states@, parent) || stuck;
            &&& *final(sticky) == StickyBoolParent { combined_state: combined, stuck, ..pre }
            &&& r == if combined != pre.combined_state {
                Some(BooleanEvent { state: combined, changed: true })
            } else {
                None
            }
        }),
{
    let parent_on = lookup_bool(action_states, parent);
    let toggle = lookup_bool(action_states, sticky.toggle);
    let release = lookup_bool(action_states, sticky.release);
    let press = lookup_bool(action_states, sticky.press);

    if toggle {
        sticky.stuck = !sticky.stuck;
    }
    if (sticky.stuck && release) || press {
        sticky.stuck = press;
    }
    let last_state = sticky.combined_state;
    sticky.combined_state = parent_on || sticky.stuck;
    if last_state != sticky.combined_state {
        Some(BooleanEvent { state: sticky.combined_state, changed: true })
    } else {
        None
    }
}

/// A press sticks the parent and a lone release unsticks it, whatever came
/// before.
pub proof fn lemma_press_sticks_release_unsticks(stuck: bool, toggle: bool)
    ensures
        next_stuck(stuck, toggle, false, true),
        next_stuck(stuck, toggle, true, true),
        !next_stuck(stuck, false, true, false),
{
}

/// A lone toggle flips whether the parent is stuck, and with no child active
/// the parent stays as it was.
pub proof fn lemma_toggle_flips_idle_keeps(stuck: bool)
    ensures
        next_stuck(stuck, true, false, false) == !stuck,
        next_stuck(stuck, false, false, false) == stuck,
{
}

} // verus!
