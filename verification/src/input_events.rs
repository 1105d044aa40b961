use vstd::prelude::*;

verus! {

/// Some source in `others` is on.
pub open spec fn any_on(others: Seq<bool>) -> bool {
    exists|i: int| 0 <= i < others.len() && #[trigger] others[i]
}

/// The aggregate of boolean sources after an event from one of them: the new
/// state and whether it changed, or `None` when the aggregate stays.
pub open spec fn bool_aggregate(event_state: bool, prev_state: bool, others: Seq<bool>) -> Option<(bool, bool)> {
    if event_state {
        Some((true, !prev_state))
    } else if any_on(others) {
        None
    } else {
        Some((false, prev_state))
    }
}

/// Aggregation of boolean sources into one state, on an event from one
/// source: `event_state` is the new state of that source, `prev_state` the
/// aggregated state before, `others` the states of the other sources.
///
/// A source turning on turns the aggregate on (reporting whether it changed).
/// A source turning off turns the aggregate off only if no other source is on;
/// then the second component is the previous aggregated state. `None` means
/// the aggregate does not change.
pub fn aggregate_bool(event_state: bool, prev_state: bool, others: &[bool]) -> (r: Option<(bool, bool)>)
    ensures
        r == bool_aggregate(event_state, prev_state, others@),
{
    if event_state {
        Some((true, !prev_state))
    } else {
        let mut i: usize = 0;
        while i < others.len()
            invariant
                !event_state,
                0 <= i <= others@.len(),
                forall|j: int| 0 <= j < i ==> !others@[j],
            decreases others@.len() - i,
        {
            if others[i] {
                assert(others@[i as int]);
                assert(any_on(others@));
                return None;
            }
            i = i + 1;
        }
        Some((false, prev_state))
    }
}

/// A source other than `source` that has a state.
pub open spec fn is_other_with_state(source: u64) -> spec_fn((u64, Option<bool>)) -> bool {
    |e: (u64, Option<bool>)| e.0 != source && e.1 is Some
}

/// The state of a source that has one.
pub open spec fn state_of(e: (u64, Option<bool>)) -> bool {
    e.1->0
}

/// The states of the sources other than `source` that have a state.
pub open spec fn other_states(sources: Seq<(u64, Option<bool>)>, source: u64) -> Seq<bool> {
    sources.filter(is_other_with_state(source)).map_values(|e: (u64, Option<bool>)| state_of(e))
}

/// Aggregates an event from `source` against the other sources of the same
/// index: the previous aggregated state defaults to off, and sources without
/// a state are left out.
pub fn aggregate_bool_sources(
    event_state: bool,
    prev_state: Option<bool>,
    sources: &[(u64, Option<bool>)],
    source: u64,
) -> (r: Option<(bool, bool)>)
    ensures
        r == if event_state {
            Some((true, !(prev_state == Some(true))))
        } else if any_on(other_states(sources@, source)) {
            None::<(bool, bool)>
        } else {
            Some((false, prev_state == Some(true)))
        },
{
    let prev = match prev_state {
        Some(p) => p,
        None => false,
    };
    let mut others: Vec<bool> = Vec::new();
    let mut i: usize = 0;
    while i < sources.len()
        invariant
            0 <= i <= sources@.len(),
            others@ == other_states(sources@.subrange(0, i as int), source),
        decreases sources@.len() - i,
    {
        let (id, state) = sources[i];
        let ghost f = is_other_with_state(source);
        let ghost g = |e: (u64, Option<bool>)| state_of(e);
        let ghost prev_others = others@;
        proof {
            assert(sources@.subrange(0, i + 1) =~= sources@.subrange(0, i as int).push(sources@[i as int]));
            sources@.subrange(0, i as int).lemma_filter_push(sources@[i as int], f);
        }
        if id != source {
            match state {
                Some(s) => {
                    others.push(s);
                },
                None => {},
            }
        }
        proof {
            let sub = sources@.subrange(0, i as int);
            let x = sources@[i as int];
            if f(x) {
                assert(sub.push(x).filter(f) == sub.filter(f).push(x));
                assert(sub.filter(f).push(x).map_values(g) =~= sub.filter(f).map_values(g).push(g(x)));
                assert(others@ =~= prev_others.push(g(x)));
            } else {
                assert(sub.push(x).filter(f) == sub.filter(f));
                assert(others@ == prev_others);
            }
            assert(others@ =~= other_states(sources@.subrange(0, i + 1), source));
        }
        i = i + 1;
    }
    assert(sources@.subrange(0, sources@.len() as int) =~= sources@);
    aggregate_bool(event_state, prev, others.as_slice())
}

/// Aggregates a boolean binding's new state for its action in two steps:
/// first against the other bindings of the action in the same binding layout
/// (`same_layout`), then, if the layout's state for the action changes,
/// against the action's states in the user's other binding layouts
/// (`other_layouts`), with `prev_state` the action's state for the user.
/// Returns the action's new state and whether it changed, if it fires.
pub fn aggregate_action_bool(event_state: bool, prev_state: bool, same_layout: &[bool], other_layouts: &[bool]) -> (r: Option<(bool, bool)>)
    ensures
        r == match bool_aggregate(event_state, prev_state, same_layout@) {
            Some((layout_state, _)) => bool_aggregate(layout_state, prev_state, other_layouts@),
            None => None,
        },
{
    match aggregate_bool(event_state, prev_state, same_layout) {
        Some((layout_state, _)) => aggregate_bool(layout_state, prev_state, other_layouts),
        None => None,
    }
}

} // verus!
