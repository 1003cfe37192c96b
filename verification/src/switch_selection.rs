//! Selection of the transition group `G_switch` for a SWITCH message.
//!
//! `G_switch` is the smallest group `g` such that
//!
//!   (a) `g` is at or above the subscriber's Minimum Switching Group ID,
//!   (b) `g` is present on both the current and the target track, and
//!   (c) every group of `[g, live_edge)` that the current track has, the target
//!       track has too.
//!
//! Condition (c) is conditional: a hole that both tracks share blocks nothing,
//! because the subscriber was never going to get those groups from the current
//! track either. The range is half-open: the live-edge group itself travels on
//! the target's live streams.

use std::collections::BTreeSet;
use vstd::prelude::*;

verus! {

/// Outcome of [`compute_switch_group`].
#[derive(Debug, Clone, Copy, PartialEq, Eq, Structural)]
pub enum SwitchSelection {
    /// The smallest valid boundary; the switch happens here.
    Ready(u64),
    /// No group satisfies the three conditions at the moment.
    NoCommonBoundary,
}

/// A group that the current track has below the live edge and the target
/// lacks: a switch at or below it would lose content.
pub open spec fn is_blocking(
    current: Set<u64>,
    target: Set<u64>,
    live_edge: u64,
    group: u64,
) -> bool {
    group < live_edge && current.contains(group) && !target.contains(group)
}

/// Conditions (a), (b) and (c) of the module documentation, for one group.
pub open spec fn is_switch_boundary(
    min_group: u64,
    current: Set<u64>,
    target: Set<u64>,
    live_edge: u64,
    group: u64,
) -> bool {
    &&& min_group <= group
    &&& current.contains(group)
    &&& target.contains(group)
    &&& forall|other: u64|
        group <= other < live_edge && #[trigger] current.contains(other) ==> target.contains(other)
}

/// `selection` names the smallest switch boundary, or says that there is none.
pub open spec fn is_selection(
    min_group: u64,
    current: Set<u64>,
    target: Set<u64>,
    live_edge: u64,
    selection: SwitchSelection,
) -> bool {
    match selection {
        SwitchSelection::Ready(g) => {
            &&& is_switch_boundary(min_group, current, target, live_edge, g)
            &&& forall|other: u64|
                #[trigger] is_switch_boundary(min_group, current, target, live_edge, other) ==> g
                    <= other
        },
        SwitchSelection::NoCommonBoundary => forall|other: u64|
            !#[trigger] is_switch_boundary(min_group, current, target, live_edge, other),
    }
}

/// One past the highest blocking group; 0 when nothing blocks.
fn blocking_ceiling(
    current_available: &BTreeSet<u64>,
    target_available: &BTreeSet<u64>,
    target_live_edge: u64,
) -> (ceiling: u64)
    ensures
        forall|g: u64|
            #[trigger] is_blocking(current_available@, target_available@, target_live_edge, g)
                ==> g < ceiling,
        ceiling > 0 ==> is_blocking(
            current_available@,
            target_available@,
            target_live_edge,
            (ceiling - 1) as u64,
        ),
{
    broadcast use vstd::std_specs::btree::group_btree_axioms;

    let mut ceiling: u64 = 0;
    for g in it: current_available.iter()
        invariant
            it.seq().unref().to_set() == current_available@,
            forall|i: int|
                0 <= i < it.index() ==> {
                    let group = *(#[trigger] it.seq()[i]);
                    is_blocking(current_available@, target_available@, target_live_edge, group)
                        ==> group < ceiling
                },
            ceiling > 0 ==> is_blocking(
                current_available@,
                target_available@,
                target_live_edge,
                (ceiling - 1) as u64,
            ),
    {
        proof {
            assert(it.seq().unref()[it.index()] == *g);
            assert(current_available@.contains(*g));
        }
        if *g < target_live_edge && !target_available.contains(g) && *g >= ceiling {
            ceiling = *g + 1;
        }
    }
    ceiling
}

/// Selects `G_switch`: the smallest group that satisfies conditions (a) to (c).
///
/// Condition (c) holds exactly above the highest blocking group, so the answer
/// is the smallest common group at or above both the subscriber's minimum and
/// the blocking ceiling.
pub fn compute_switch_group(
    min_switch_group: u64,
    current_available: &BTreeSet<u64>,
    target_available: &BTreeSet<u64>,
    target_live_edge: u64,
) -> (selection: SwitchSelection)
    ensures
        is_selection(
            min_switch_group,
            current_available@,
            target_available@,
            target_live_edge,
            selection,
        ),
{
    broadcast use vstd::std_specs::btree::group_btree_axioms;

    let ceiling: u64 = blocking_ceiling(current_available, target_available, target_live_edge);
    let floor: u64 = if min_switch_group < ceiling {
        ceiling
    } else {
        min_switch_group
    };

    let mut selection: SwitchSelection = SwitchSelection::NoCommonBoundary;
    let ghost cur = current_available@;
    let ghost tgt = target_available@;
    for g in it: current_available.iter()
        invariant
            cur == current_available@,
            tgt == target_available@,
            it.seq().unref().to_set() == cur,
            forall|i: int|
                0 <= i < it.index() ==> {
                    let group = *(#[trigger] it.seq()[i]);
                    floor <= group && tgt.contains(group) ==> (selection matches
                        SwitchSelection::Ready(best) && best <= group)
                },
            selection matches SwitchSelection::Ready(best) ==> floor <= best && cur.contains(best)
                && tgt.contains(best),
    {
        proof {
            assert(it.seq().unref()[it.index()] == *g);
            assert(cur.contains(*g));
        }
        if *g >= floor && target_available.contains(g) {
            match selection {
                SwitchSelection::Ready(best) => {
                    if *g < best {
                        selection = SwitchSelection::Ready(*g);
                    }
                },
                SwitchSelection::NoCommonBoundary => {
                    selection = SwitchSelection::Ready(*g);
                },
            }
        }
    }
    proof {
        assert forall|other: u64|
            #[trigger] is_switch_boundary(
                min_switch_group,
                cur,
                tgt,
                target_live_edge,
                other,
            ) implies (selection matches SwitchSelection::Ready(best) && best <= other) by {
            law_boundary_clears_blocking_groups(
                min_switch_group,
                cur,
                tgt,
                target_live_edge,
                other,
            );
            if ceiling > 0 {
                assert(is_blocking(cur, tgt, target_live_edge, (ceiling - 1) as u64));
            }
            assert(floor <= other);
        }
        if let SwitchSelection::Ready(best) = selection {
            assert forall|other: u64|
                best <= other < target_live_edge && #[trigger] cur.contains(
                    other,
                ) implies tgt.contains(other) by {
                assert(!is_blocking(cur, tgt, target_live_edge, other));
            }
        }
    }
    selection
}

/// Condition (c) has a closed form: a group is a boundary exactly when it is a
/// common group at or above the minimum that lies above every blocking group.
pub proof fn law_boundary_clears_blocking_groups(
    min_group: u64,
    current: Set<u64>,
    target: Set<u64>,
    live_edge: u64,
    group: u64,
)
    ensures
        is_switch_boundary(min_group, current, target, live_edge, group) <==> {
            &&& min_group <= group
            &&& current.contains(group)
            &&& target.contains(group)
            &&& forall|b: u64|
                #[trigger] is_blocking(current, target, live_edge, b) ==> b < group
        },
{
    if is_switch_boundary(min_group, current, target, live_edge, group) {
        assert forall|b: u64| #[trigger] is_blocking(current, target, live_edge, b) implies b
            < group by {
            assert(current.contains(b));
        }
    }
    if forall|b: u64| #[trigger] is_blocking(current, target, live_edge, b) ==> b < group {
        assert forall|other: u64|
            group <= other < live_edge && #[trigger] current.contains(
                other,
            ) implies target.contains(other) by {
            assert(!is_blocking(current, target, live_edge, other) || other < group);
        }
    }
}

/// The selection is a function of its inputs: two selections for the same
/// inputs are the same.
pub proof fn law_selection_is_unique(
    min_group: u64,
    current: Set<u64>,
    target: Set<u64>,
    live_edge: u64,
    a: SwitchSelection,
    b: SwitchSelection,
)
    requires
        is_selection(min_group, current, target, live_edge, a),
        is_selection(min_group, current, target, live_edge, b),
    ensures
        a == b,
{
    match (a, b) {
        (SwitchSelection::Ready(x), SwitchSelection::Ready(y)) => {
            assert(is_switch_boundary(min_group, current, target, live_edge, x));
            assert(is_switch_boundary(min_group, current, target, live_edge, y));
        },
        (SwitchSelection::Ready(x), _) => {
            assert(is_switch_boundary(min_group, current, target, live_edge, x));
        },
        (_, SwitchSelection::Ready(y)) => {
            assert(is_switch_boundary(min_group, current, target, live_edge, y));
        },
        _ => {},
    }
}

/// A switch at the selected group loses nothing: every group from there to the
/// live edge that the current track would have delivered is on the target.
pub proof fn law_switch_loses_no_group(
    min_group: u64,
    current: Set<u64>,
    target: Set<u64>,
    live_edge: u64,
    g_switch: u64,
    group: u64,
)
    requires
        is_selection(min_group, current, target, live_edge, SwitchSelection::Ready(g_switch)),
        g_switch <= group < live_edge,
        current.contains(group),
    ensures
        target.contains(group),
{
}

/// A hole that both tracks share blocks nothing: when the two tracks hold the
/// same groups, the smallest of them at or above the minimum is selected.
pub proof fn law_shared_holes_never_block(
    min_group: u64,
    available: Set<u64>,
    live_edge: u64,
    g: u64,
)
    requires
        available.contains(g),
        min_group <= g,
        forall|other: u64| #[trigger] available.contains(other) && min_group <= other ==> g
            <= other,
    ensures
        is_selection(min_group, available, available, live_edge, SwitchSelection::Ready(g)),
{
}

/// A target that holds every group from the minimum to the live edge is switched
/// to at the minimum itself, where the current track has that group.
pub proof fn law_complete_target_honours_the_minimum(
    min_group: u64,
    current: Set<u64>,
    target: Set<u64>,
    live_edge: u64,
)
    requires
        min_group <= live_edge,
        current.contains(min_group),
        forall|group: u64| min_group <= group <= live_edge ==> #[trigger] target.contains(group),
    ensures
        is_selection(min_group, current, target, live_edge, SwitchSelection::Ready(min_group)),
{
}

/// At or above the live edge a common group at or above the minimum is a
/// boundary with no further condition.
pub proof fn law_boundary_at_or_above_live_edge(
    min_group: u64,
    current: Set<u64>,
    target: Set<u64>,
    live_edge: u64,
    group: u64,
)
    requires
        live_edge <= group,
    ensures
        is_switch_boundary(min_group, current, target, live_edge, group) <==> (min_group <= group
            && current.contains(group) && target.contains(group)),
{
}

/// Tracks whose group ids never meet have no boundary, whatever the minimum
/// and the live edge.
pub proof fn law_misaligned_tracks_have_no_boundary(
    min_group: u64,
    current: Set<u64>,
    target: Set<u64>,
    live_edge: u64,
)
    requires
        current.disjoint(target),
    ensures
        is_selection(min_group, current, target, live_edge, SwitchSelection::NoCommonBoundary),
{
}

/// Raising the minimum never lowers the selected group.
pub proof fn law_selection_is_monotone_in_minimum(
    low: u64,
    high: u64,
    current: Set<u64>,
    target: Set<u64>,
    live_edge: u64,
    g_low: u64,
    g_high: u64,
)
    requires
        low <= high,
        is_selection(low, current, target, live_edge, SwitchSelection::Ready(g_low)),
        is_selection(high, current, target, live_edge, SwitchSelection::Ready(g_high)),
    ensures
        g_low <= g_high,
{
    assert(is_switch_boundary(low, current, target, live_edge, g_high));
}

/// A boundary is a group that both tracks have, at or above the minimum, from
/// which on the target lacks nothing that the current track has below the live
/// edge. A group at the live edge that the target lacks blocks nothing.
pub proof fn law_boundary_conditions(
    min_group: u64,
    current: Set<u64>,
    target: Set<u64>,
    live_edge: u64,
    group: u64,
    other: u64,
)
    ensures
        is_switch_boundary(min_group, current, target, live_edge, group) ==> min_group <= group
            && current.contains(group) && target.contains(group),
        is_switch_boundary(min_group, current, target, live_edge, group) && group <= other && other
            < live_edge && current.contains(other) ==> target.contains(other),
        min_group <= group && current.contains(group) && target.contains(group) && (forall|h: u64|
            group <= h && h < live_edge && #[trigger] current.contains(h) ==> target.contains(h))
            ==> is_switch_boundary(min_group, current, target, live_edge, group),
        is_blocking(current, target, live_edge, other) <==> other < live_edge && current.contains(
            other,
        ) && !target.contains(other),
{
}

/// The selection is the first boundary: it is one, none below it is, and none is
/// named only where there is none.
pub proof fn law_selection_is_the_first_boundary(
    min_group: u64,
    current: Set<u64>,
    target: Set<u64>,
    live_edge: u64,
    selection: SwitchSelection,
    group: u64,
)
    requires
        is_selection(min_group, current, target, live_edge, selection),
        min_group <= group,
        current.contains(group),
        target.contains(group),
        forall|h: u64|
            group <= h && h < live_edge && #[trigger] current.contains(h) ==> target.contains(h),
    ensures
        selection matches SwitchSelection::Ready(chosen) && min_group <= chosen && chosen <= group,
{
    assert(is_switch_boundary(min_group, current, target, live_edge, group));
}

} // verus!
