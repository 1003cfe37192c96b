//! SUBSCRIBEs that wait for the live edge to come far enough.

use crate::model::Location;
use vstd::prelude::*;

verus! {

/// A SUBSCRIBE that cannot be served yet, because the live edge has not come
/// past `delay_groups`.
#[derive(Debug, Clone, Copy, PartialEq, Eq, Structural)]
pub struct PendingSubscribe {
    pub request_id: u64,
    pub delay_groups: u64,
}

/// A SUBSCRIBE that can be served now, and where it starts.
#[derive(Debug, Clone, Copy, PartialEq, Eq, Structural)]
pub struct ResolvedPending {
    pub request_id: u64,
    pub start_location: Location,
}

/// The SUBSCRIBEs that a track holds, in the order in which they came.
#[derive(Debug)]
pub struct HoldingSubscribes {
    inner: Vec<PendingSubscribe>,
}

impl View for HoldingSubscribes {
    type V = Seq<PendingSubscribe>;

    closed spec fn view(&self) -> Seq<PendingSubscribe> {
        self.inner@
    }
}

/// Those of `held` that a live edge in `group` releases, with their start: so
/// many groups behind the live edge as they asked for.
pub open spec fn released(held: Seq<PendingSubscribe>, group: u64) -> Seq<ResolvedPending>
    decreases held.len(),
{
    if held.len() == 0 {
        Seq::empty()
    } else {
        let rest = released(held.drop_last(), group);
        let last = held.last();
        if last.delay_groups <= group {
            rest.push(
                ResolvedPending {
                    request_id: last.request_id,
                    start_location: Location {
                        group: (group - last.delay_groups) as u64,
                        object: 0,
                    },
                },
            )
        } else {
            rest
        }
    }
}

/// Those of `held` that a live edge in `group` does not release.
pub open spec fn still_held(held: Seq<PendingSubscribe>, group: u64) -> Seq<PendingSubscribe>
    decreases held.len(),
{
    if held.len() == 0 {
        Seq::empty()
    } else {
        let rest = still_held(held.drop_last(), group);
        if held.last().delay_groups <= group {
            rest
        } else {
            rest.push(held.last())
        }
    }
}

impl Default for HoldingSubscribes {
    fn default() -> (holding: Self)
        ensures
            holding@ == Seq::<PendingSubscribe>::empty(),
    {
        HoldingSubscribes { inner: Vec::new() }
    }
}

impl HoldingSubscribes {
    /// Adds a SUBSCRIBE that cannot be served yet.
    pub fn register(&mut self, request_id: u64, delay_groups: u64)
        ensures
            final(self)@ == old(self)@.push(PendingSubscribe { request_id, delay_groups }),
    {
        self.inner.push(PendingSubscribe { request_id, delay_groups });
    }

    /// Takes out every SUBSCRIBE that the live edge has come far enough for, in
    /// the order in which they came. The others stay, in their order.
    pub fn try_resolve(&mut self, largest: Location) -> (resolved: Vec<ResolvedPending>)
        ensures
            resolved@ == released(old(self)@, largest.group),
            final(self)@ == still_held(old(self)@, largest.group),
    {
        let ghost held = self.inner@;
        let mut resolved: Vec<ResolvedPending> = Vec::new();
        let mut kept: Vec<PendingSubscribe> = Vec::new();
        let mut i: usize = 0;
        while i < self.inner.len()
            invariant
                i <= self.inner.len(),
                self.inner@ == held,
                resolved@ == released(held.take(i as int), largest.group),
                kept@ == still_held(held.take(i as int), largest.group),
            decreases self.inner.len() - i,
        {
            let p: PendingSubscribe = self.inner[i];
            if largest.group >= p.delay_groups {
                resolved.push(
                    ResolvedPending {
                        request_id: p.request_id,
                        start_location: Location {
                            group: largest.group - p.delay_groups,
                            object: 0,
                        },
                    },
                );
            } else {
                kept.push(p);
            }
            i = i + 1;
            proof {
                assert(held.take(i as int).drop_last() =~= held.take(i - 1));
                assert(held.take(i as int).last() == p);
            }
        }
        proof {
            assert(held.take(i as int) =~= held);
        }
        self.inner = kept;
        resolved
    }

    /// The number of SUBSCRIBEs held.
    pub fn len(&self) -> (len: usize)
        ensures
            len == self@.len(),
    {
        self.inner.len()
    }
}

/// Nothing is lost: every SUBSCRIBE is either released or still held.
pub proof fn law_resolution_partitions(held: Seq<PendingSubscribe>, group: u64)
    ensures
        released(held, group).len() + still_held(held, group).len() == held.len(),
    decreases held.len(),
{
    if held.len() > 0 {
        law_resolution_partitions(held.drop_last(), group);
    }
}

/// Exactly the SUBSCRIBEs whose delay the live edge has not reached stay held.
pub proof fn law_still_held_are_too_young(held: Seq<PendingSubscribe>, group: u64, i: int)
    requires
        0 <= i < still_held(held, group).len(),
    ensures
        still_held(held, group)[i].delay_groups > group,
        held.contains(still_held(held, group)[i]),
    decreases held.len(),
{
    let rest = still_held(held.drop_last(), group);
    if i < rest.len() {
        law_still_held_are_too_young(held.drop_last(), group, i);
        let j = choose|j: int|
            0 <= j < held.drop_last().len() && held.drop_last()[j] == rest[i];
        assert(held[j] == rest[i]);
    } else {
        assert(held[held.len() - 1] == held.last());
    }
}

/// A second resolution at the same live edge releases nothing more.
pub proof fn law_resolution_is_complete(held: Seq<PendingSubscribe>, group: u64)
    ensures
        released(still_held(held, group), group).len() == 0,
        still_held(still_held(held, group), group) == still_held(held, group),
    decreases held.len(),
{
    if held.len() > 0 {
        law_resolution_is_complete(held.drop_last(), group);
        let rest = still_held(held.drop_last(), group);
        if held.last().delay_groups > group {
            assert(rest.push(held.last()).drop_last() =~= rest);
        }
    }
}

/// What stays held is what was held and is too young, in the same order.
pub proof fn law_held_is_filtered(held: Seq<PendingSubscribe>, group: u64)
    ensures
        still_held(held, group) == held.filter(|p: PendingSubscribe| group < p.delay_groups),
    decreases held.len(),
{
    reveal(Seq::filter);
    if held.len() > 0 {
        law_held_is_filtered(held.drop_last(), group);
    }
}

/// A SUBSCRIBE stays held exactly when it was held and asks for more groups than
/// there are.
pub proof fn law_the_young_are_held(held: Seq<PendingSubscribe>, group: u64, p: PendingSubscribe)
    ensures
        still_held(held, group).contains(p) <==> held.contains(p) && group < p.delay_groups,
    decreases held.len(),
{
    if held.len() > 0 {
        let front = held.drop_last();
        law_the_young_are_held(front, group, p);
        assert(held =~= front.push(held.last()));
        if held.contains(p) {
            let i = choose|i: int| 0 <= i < held.len() && held[i] == p;
            if i < front.len() {
                assert(front[i] == p);
            }
        }
        if front.contains(p) {
            let i = choose|i: int| 0 <= i < front.len() && front[i] == p;
            assert(held[i] == p);
        }
        if held.last() == p {
            assert(held[held.len() - 1] == p);
        }
        let rest = still_held(front, group);
        if held.last().delay_groups > group {
            assert(rest.push(held.last())[rest.len() as int] == held.last());
            if rest.contains(p) {
                let i = choose|i: int| 0 <= i < rest.len() && rest[i] == p;
                assert(rest.push(held.last())[i] == p);
            }
            if rest.push(held.last()).contains(p) {
                let i = choose|i: int|
                    0 <= i < rest.len() + 1 && rest.push(held.last())[i] == p;
                if i < rest.len() {
                    assert(rest[i] == p);
                }
            }
        }
    }
}

/// Whatever is released was held and is old enough, and starts at the beginning
/// of the group so many groups behind the live edge.
pub proof fn law_released_start_behind_the_edge(held: Seq<PendingSubscribe>, group: u64, i: int)
    requires
        0 <= i < released(held, group).len(),
    ensures
        exists|j: int|
            0 <= j < held.len() && (#[trigger] held[j]).request_id == released(
                held,
                group,
            )[i].request_id && released(held, group)[i].start_location.group + held[j].delay_groups
                == group,
        released(held, group)[i].start_location.object == 0,
    decreases held.len(),
{
    let front = held.drop_last();
    let rest = released(front, group);
    if i < rest.len() {
        law_released_start_behind_the_edge(front, group, i);
        let j = choose|j: int|
            0 <= j < front.len() && (#[trigger] front[j]).request_id == rest[i].request_id
                && rest[i].start_location.group + front[j].delay_groups == group;
        assert(held[j] == front[j]);
    } else {
        assert(held[held.len() - 1] == held.last());
    }
}

/// Every SUBSCRIBE that is old enough is released.
pub proof fn law_the_old_are_released(held: Seq<PendingSubscribe>, group: u64, j: int)
    requires
        0 <= j < held.len(),
        held[j].delay_groups <= group,
    ensures
        exists|i: int|
            0 <= i < released(held, group).len() && (#[trigger] released(
                held,
                group,
            )[i]).request_id == held[j].request_id && released(held, group)[i].start_location.group
                + held[j].delay_groups == group,
    decreases held.len(),
{
    let front = held.drop_last();
    let rest = released(front, group);
    if j < front.len() {
        law_the_old_are_released(front, group, j);
        let i = choose|i: int|
            0 <= i < rest.len() && (#[trigger] rest[i]).request_id == front[j].request_id
                && rest[i].start_location.group + front[j].delay_groups == group;
        assert(released(held, group)[i] == rest[i]);
    } else {
        assert(released(held, group)[rest.len() as int].request_id == held[j].request_id);
    }
}

} // verus!
