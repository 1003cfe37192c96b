//! The joining replay: cached objects that go out before live ones do, so that a
//! subscription with a start location misses nothing.
//!
//! The owner asks [`replay_range`] what to read from the cache, hands each object
//! that it reads to [`JoiningReplay::next`], delivers the event that it gets back,
//! and ends with [`finish_joining`]. The replay keeps per subgroup the highest
//! object id that it delivered; only afterwards do these marks enter the
//! subscription's state, so the replay never filters its own objects.

use crate::keyed::{self, KeyedList};
use crate::model::Location;
use crate::streams::{build_stream_id, HeaderInfo, StreamId, SubgroupHeader, SubgroupKey};
use crate::subscription::{ObjectEvent, StateView, SubscriptionState};
use vstd::prelude::*;

verus! {

/// An object as the cache holds it, without its payload.
#[derive(Debug, Clone, Copy, PartialEq, Eq, Structural)]
pub struct CachedObject {
    pub group_id: u64,
    pub subgroup_id: u64,
    pub object_id: u64,
    pub publisher_priority: u8,
    pub has_properties: bool,
}

impl CachedObject {
    pub open spec fn key(self) -> SubgroupKey {
        SubgroupKey { group_id: self.group_id, subgroup_id: self.subgroup_id }
    }
}

/// The range that a joining subscription has replayed: from its start to the
/// last object it knows of, or, where it knows of none, to the end of the newest
/// group in the cache. `None` when there is nothing to replay.
pub open spec fn replay_range_of(state: StateView, newest_group: Option<u64>) -> Option<
    (Location, Location),
> {
    let end = match state.last_received_object_location {
        Some(location) => Some(location),
        None => match newest_group {
            Some(group) => Some(Location { group, object: u64::MAX }),
            None => None,
        },
    };
    match (state.start_location, end) {
        (Some(start), Some(end)) => if state.is_joining && start.precedes(end) {
            Some((start, end))
        } else {
            None
        },
        _ => None,
    }
}

/// What a subscription has to replay from the cache, if anything.
pub fn replay_range(state: &SubscriptionState, newest_group: Option<u64>) -> (range: Option<
    (Location, Location),
>)
    ensures
        range == replay_range_of(state@, newest_group),
{
    if !state.is_joining {
        return None;
    }
    let end: Location = match state.last_received_object_location {
        Some(location) => location,
        None => match newest_group {
            Some(group) => Location { group, object: u64::MAX },
            None => {
                return None;
            },
        },
    };
    match state.start_location {
        Some(start) => if start.precedes(end) {
            Some((start, end))
        } else {
            None
        },
        None => None,
    }
}

/// The higher of a subgroup's mark and a new object id.
pub open spec fn raised(marks: Map<SubgroupKey, u64>, key: SubgroupKey, object_id: u64) -> Map<
    SubgroupKey,
    u64,
> {
    if marks.contains_key(key) && object_id <= marks[key] {
        marks
    } else {
        marks.insert(key, object_id)
    }
}

/// Per subgroup, the highest object id among some objects.
pub open spec fn marks_of(objects: Seq<CachedObject>) -> Map<SubgroupKey, u64>
    decreases objects.len(),
{
    if objects.len() == 0 {
        Map::empty()
    } else {
        raised(marks_of(objects.drop_last()), objects.last().key(), objects.last().object_id)
    }
}

/// Per subgroup, the higher of two marks.
pub open spec fn merged(a: Map<SubgroupKey, u64>, b: Map<SubgroupKey, u64>) -> Map<
    SubgroupKey,
    u64,
> {
    Map::new(
        |key: SubgroupKey| a.contains_key(key) || b.contains_key(key),
        |key: SubgroupKey|
            if !b.contains_key(key) || (a.contains_key(key) && b[key] <= a[key]) {
                a[key]
            } else {
                b[key]
            },
    )
}

/// Raises the mark of a subgroup.
fn raise(marks: &mut KeyedList<SubgroupKey, u64>, key: SubgroupKey, object_id: u64)
    ensures
        final(marks)@ == raised(old(marks)@, key, object_id),
{
    match marks.get(key) {
        Some(mark) => {
            if object_id > mark {
                marks.insert(key, object_id);
            }
        },
        None => {
            marks.insert(key, object_id);
        },
    }
}

/// One pass over the cache.
#[derive(Debug)]
pub struct JoiningReplay {
    relay_track_id: u64,
    current: Option<(u64, StreamId)>,
    marks: KeyedList<SubgroupKey, u64>,
}

/// What a [`JoiningReplay`] stands for.
#[verifier::ext_equal]
pub struct ReplayView {
    pub relay_track_id: u64,
    /// The group and the stream of the last header.
    pub current: Option<(u64, StreamId)>,
    pub marks: Map<SubgroupKey, u64>,
}

impl View for JoiningReplay {
    type V = ReplayView;

    closed spec fn view(&self) -> ReplayView {
        ReplayView {
            relay_track_id: self.relay_track_id,
            current: self.current,
            marks: self.marks@,
        }
    }
}

impl ReplayView {
    /// An object starts a stream of its own when it is the first, or when its
    /// group is later than the one before.
    pub open spec fn starts_stream(self, object: CachedObject) -> bool {
        match self.current {
            Some((group, _)) => object.group_id > group,
            None => true,
        }
    }

    /// The header of the stream that an object starts. Whether the object is
    /// the first of its subgroup the cache does not tell, so the header never
    /// says so.
    pub open spec fn header(self, object: CachedObject) -> HeaderInfo {
        HeaderInfo::Subgroup {
            header: SubgroupHeader {
                track_alias: self.relay_track_id,
                group_id: object.group_id,
                subgroup_id: Some(object.subgroup_id),
                publisher_priority: Some(object.publisher_priority),
                has_properties: object.has_properties,
                contains_end_of_group: false,
                first_object: false,
            },
        }
    }

    /// The stream that an object goes out on.
    pub open spec fn stream(self, object: CachedObject) -> StreamId {
        if self.starts_stream(object) {
            self.header(object).stream_id(self.relay_track_id)
        } else {
            (self.current->0).1
        }
    }

    /// The event that delivers an object.
    pub open spec fn event(self, object: CachedObject) -> ObjectEvent {
        ObjectEvent {
            location: Location { group: object.group_id, object: object.object_id },
            subgroup_id: Some(object.subgroup_id),
            stream_id: self.stream(object),
            header_info: if self.starts_stream(object) {
                Some(self.header(object))
            } else {
                None
            },
        }
    }

    /// The pass after an object. Past the last possible group every object
    /// starts a stream of its own.
    pub open spec fn after(self, object: CachedObject) -> ReplayView {
        ReplayView {
            current: if object.group_id == u64::MAX {
                None
            } else if self.starts_stream(object) {
                Some((object.group_id, self.stream(object)))
            } else {
                self.current
            },
            marks: raised(self.marks, object.key(), object.object_id),
            ..self
        }
    }

    /// The pass after some objects.
    pub open spec fn after_all(self, objects: Seq<CachedObject>) -> ReplayView
        decreases objects.len(),
    {
        if objects.len() == 0 {
            self
        } else {
            self.after_all(objects.drop_last()).after(objects.last())
        }
    }
}

impl JoiningReplay {
    pub fn new(relay_track_id: u64) -> (replay: JoiningReplay)
        ensures
            replay@ == (ReplayView { relay_track_id, current: None, marks: Map::empty() }),
    {
        JoiningReplay { relay_track_id, current: None, marks: KeyedList::new() }
    }

    /// Takes the next object of the cache and returns the event that delivers
    /// it.
    pub fn next(&mut self, object: &CachedObject) -> (event: ObjectEvent)
        ensures
            event == old(self)@.event(*object),
            final(self)@ == old(self)@.after(*object),
    {
        let ghost before = self@;
        let reused: Option<StreamId> = match self.current {
            Some((group, stream_id)) => if object.group_id > group {
                None
            } else {
                Some(stream_id)
            },
            None => None,
        };
        let (stream_id, header_info): (StreamId, Option<HeaderInfo>) = match reused {
            Some(stream_id) => (stream_id, None),
            None => {
                let header: HeaderInfo = HeaderInfo::Subgroup {
                    header: SubgroupHeader::new_with_explicit_id(
                        self.relay_track_id,
                        object.group_id,
                        object.subgroup_id,
                        Some(object.publisher_priority),
                        object.has_properties,
                        false,
                        false,
                    ),
                };
                let stream_id: StreamId = build_stream_id(self.relay_track_id, &header);
                self.current = Some((object.group_id, stream_id));
                (stream_id, Some(header))
            },
        };
        if object.group_id == u64::MAX {
            self.current = None;
        }
        raise(
            &mut self.marks,
            SubgroupKey { group_id: object.group_id, subgroup_id: object.subgroup_id },
            object.object_id,
        );
        proof {
            assert(self@ =~= before.after(*object));
        }
        ObjectEvent {
            location: Location { group: object.group_id, object: object.object_id },
            subgroup_id: Some(object.subgroup_id),
            stream_id,
            header_info,
        }
    }
}

/// The state of a subscription that has joined, given the end of what was replayed
/// and the marks of the replay.
pub open spec fn joined(
    state: StateView,
    replayed: Option<(Location, Map<SubgroupKey, u64>)>,
) -> StateView {
    match replayed {
        Some((end, marks)) => StateView {
            last_received_object_location: Some(end),
            replay_watermarks: merged(state.replay_watermarks, marks),
            is_joining: false,
            ..state
        },
        None => StateView { is_joining: false, ..state },
    }
}

/// Ends the joining of a subscription: what the replay delivered is marked, the
/// end of its range counts as received, and live objects flow from here on.
/// Where nothing was replayed, joining just ends.
pub fn finish_joining(state: &mut SubscriptionState, replayed: Option<(Location, JoiningReplay)>)
    ensures
        final(state)@ == match replayed {
            Some((end, replay)) => (StateView {
                last_received_object_location: Some(end),
                replay_watermarks: merged(old(state)@.replay_watermarks, replay@.marks),
                is_joining: false,
                ..old(state)@
            }),
            None => (StateView { is_joining: false, ..old(state)@ }),
        },
        final(state)@ == joined(
            old(state)@,
            match replayed {
                Some((end, replay)) => Some((end, replay@.marks)),
                None => None,
            },
        ),
{
    let ghost before = state@;
    state.is_joining = false;
    if let Some((end, replay)) = replayed {
        state.last_received_object_location = Some(end);
        let entries: &Vec<(SubgroupKey, u64)> = replay.marks.entries();
        let ghost old_marks = state.replay_watermarks@;
        let mut marks: KeyedList<SubgroupKey, u64> = KeyedList::new();
        std::mem::swap(&mut marks, &mut state.replay_watermarks);
        let mut i: usize = 0;
        proof {
            keyed::lemma_map_of(entries@);
            assert(old_marks =~= merged(old_marks, keyed::map_of(entries@.take(0))));
        }
        while i < entries.len()
            invariant
                i <= entries.len(),
                keyed::distinct_keys(entries@),
                marks@ == merged(old_marks, keyed::map_of(entries@.take(i as int))),
            decreases entries.len() - i,
        {
            let (key, object_id): (SubgroupKey, u64) = entries[i];
            let ghost done = entries@.take(i as int);
            let ghost more = entries@.take(i + 1);
            raise(&mut marks, key, object_id);
            proof {
                assert(more.drop_last() =~= done);
                assert(more.last() == (key, object_id));
                assert forall|a: int, b: int| 0 <= a < b < done.len() implies (
                #[trigger] done[a]).0 != (#[trigger] done[b]).0 by {
                    assert(done[a] == entries@[a] && done[b] == entries@[b]);
                }
                keyed::lemma_map_of(done);
                assert(!keyed::map_of(done).contains_key(key)) by {
                    if keyed::map_of(done).contains_key(key) {
                        let j = choose|j: int| 0 <= j < done.len() && (#[trigger] done[j]).0 == key;
                        assert(entries@[j].0 != entries@[i as int].0);
                    }
                }
                assert(marks@ =~= merged(old_marks, keyed::map_of(more)));
            }
            i = i + 1;
        }
        proof {
            assert(entries@.take(i as int) =~= entries@);
        }
        state.replay_watermarks = marks;
    }
}

/// What a whole pass leaves behind: the marks are those of its objects.
pub proof fn law_replay_marks_its_objects(replay: ReplayView, objects: Seq<CachedObject>)
    requires
        replay.marks == Map::<SubgroupKey, u64>::empty(),
    ensures
        replay.after_all(objects).marks == marks_of(objects),
        replay.after_all(objects).relay_track_id == replay.relay_track_id,
    decreases objects.len(),
{
    if objects.len() > 0 {
        law_replay_marks_its_objects(replay, objects.drop_last());
    }
}

/// An object arrives again exactly when the replay delivered its subgroup up to
/// it: after a replay of `objects` on a fresh subscription, a location is taken
/// for a duplicate if and only if some replayed object of the same subgroup has
/// its id or a larger one.
pub proof fn law_duplicate_iff_replayed(
    state: StateView,
    objects: Seq<CachedObject>,
    location: Location,
    subgroup_id: u64,
)
    requires
        state.replay_watermarks == merged(Map::empty(), marks_of(objects)),
    ensures
        state.replayed(location, Some(subgroup_id)) <==> exists|i: int|
            0 <= i < objects.len() && (#[trigger] objects[i]).group_id == location.group
                && objects[i].subgroup_id == subgroup_id && location.object
                <= objects[i].object_id,
        !state.replayed(location, None),
{
    let key = SubgroupKey { group_id: location.group, subgroup_id };
    lemma_mark_is_highest(objects, key);
    if state.replayed(location, Some(subgroup_id)) {
        let i = choose|i: int|
            0 <= i < objects.len() && (#[trigger] objects[i]).key() == key && objects[i].object_id
                == marks_of(objects)[key];
        assert(objects[i].group_id == location.group);
    }
    if exists|i: int|
        0 <= i < objects.len() && (#[trigger] objects[i]).group_id == location.group
            && objects[i].subgroup_id == subgroup_id && location.object <= objects[i].object_id {
        let i = choose|i: int|
            0 <= i < objects.len() && (#[trigger] objects[i]).group_id == location.group
                && objects[i].subgroup_id == subgroup_id && location.object
                <= objects[i].object_id;
        assert(objects[i].key() == key);
    }
}

proof fn lemma_mark_is_highest(objects: Seq<CachedObject>, key: SubgroupKey)
    ensures
        forall|i: int|
            0 <= i < objects.len() && (#[trigger] objects[i]).key() == key ==> marks_of(
                objects,
            ).contains_key(key) && objects[i].object_id <= marks_of(objects)[key],
        marks_of(objects).contains_key(key) ==> exists|i: int|
            0 <= i < objects.len() && (#[trigger] objects[i]).key() == key && objects[i].object_id
                == marks_of(objects)[key],
    decreases objects.len(),
{
    if objects.len() > 0 {
        let rest = objects.drop_last();
        lemma_mark_is_highest(rest, key);
        assert(objects[objects.len() - 1] == objects.last());
        assert forall|i: int|
            0 <= i < objects.len() && (#[trigger] objects[i]).key() == key implies marks_of(
            objects,
        ).contains_key(key) && objects[i].object_id <= marks_of(objects)[key] by {
            if i < rest.len() {
                assert(rest[i].key() == key);
            }
        }
        if marks_of(objects).contains_key(key) {
            if objects.last().key() == key && marks_of(objects)[key] == objects.last().object_id {
                assert(objects[objects.len() - 1].key() == key);
            } else {
                assert(marks_of(rest).contains_key(key) && marks_of(rest)[key] == marks_of(
                    objects,
                )[key]);
                let i = choose|i: int|
                    0 <= i < rest.len() && (#[trigger] rest[i]).key() == key && rest[i].object_id
                        == marks_of(rest)[key];
                assert(objects[i].key() == key);
            }
        }
    }
}

/// Every replayed object that also sits in the queue of live events is dropped
/// there.
pub proof fn law_replayed_object_is_not_sent_again(
    state: StateView,
    objects: Seq<CachedObject>,
    i: int,
)
    requires
        state.replay_watermarks == merged(Map::empty(), marks_of(objects)),
        0 <= i < objects.len(),
    ensures
        state.replayed(
            Location { group: objects[i].group_id, object: objects[i].object_id },
            Some(objects[i].subgroup_id),
        ),
{
    law_duplicate_iff_replayed(
        state,
        objects,
        Location { group: objects[i].group_id, object: objects[i].object_id },
        objects[i].subgroup_id,
    );
}

/// A straggler is not swallowed: an object of a subgroup that the replay did
/// not touch, in an older group or beside an interleaved subgroup, passes.
pub proof fn law_straggler_passes(
    state: StateView,
    objects: Seq<CachedObject>,
    location: Location,
    subgroup_id: u64,
)
    requires
        state.replay_watermarks == merged(Map::empty(), marks_of(objects)),
        forall|i: int|
            0 <= i < objects.len() ==> (#[trigger] objects[i]).group_id != location.group
                || objects[i].subgroup_id != subgroup_id || objects[i].object_id < location.object,
    ensures
        !state.replayed(location, Some(subgroup_id)),
{
    law_duplicate_iff_replayed(state, objects, location, subgroup_id);
}

/// A replay in group order sends every object on a stream of its own group.
pub proof fn law_replay_stream_is_of_the_group(
    replay: ReplayView,
    objects: Seq<CachedObject>,
    next: CachedObject,
)
    requires
        replay.current is None,
        forall|i: int, j: int|
            0 <= i < j < objects.len() ==> (#[trigger] objects[i]).group_id <= (
            #[trigger] objects[j]).group_id,
        forall|i: int| 0 <= i < objects.len() ==> (#[trigger] objects[i]).group_id <= next.group_id,
    ensures
        replay.after_all(objects).event(next).stream_id matches StreamId::Subgroup {
            track_alias,
            group_id,
            ..
        } && track_alias == replay.relay_track_id && group_id == next.group_id,
    decreases objects.len(),
{
    let pass = replay.after_all(objects);
    lemma_relay_track_id_stays(replay, objects);
    if objects.len() > 0 {
        let rest = objects.drop_last();
        let last = objects.last();
        assert(objects[objects.len() - 1] == last);
        assert forall|i: int| 0 <= i < rest.len() implies (#[trigger] rest[i]).group_id
            <= last.group_id by {
            assert(objects[i].group_id <= objects[objects.len() - 1].group_id);
        }
        assert forall|i: int, j: int| 0 <= i < j < rest.len() implies (
        #[trigger] rest[i]).group_id <= (#[trigger] rest[j]).group_id by {
            assert(objects[i].group_id <= objects[j].group_id);
        }
        law_replay_stream_is_of_the_group(replay, rest, last);
        let before = replay.after_all(rest);
        assert(pass == before.after(last));
        lemma_current_group(replay, rest);
        if let Some((group, stream)) = pass.current {
            if before.starts_stream(last) {
                assert(group == last.group_id && stream == before.stream(last));
            } else {
                assert(stream == before.stream(last));
            }
        }
        lemma_current_group(replay, objects);
    }
}

proof fn lemma_relay_track_id_stays(replay: ReplayView, objects: Seq<CachedObject>)
    ensures
        replay.after_all(objects).relay_track_id == replay.relay_track_id,
    decreases objects.len(),
{
    if objects.len() > 0 {
        lemma_relay_track_id_stays(replay, objects.drop_last());
    }
}

/// In group order the current group is the group of the last object.
proof fn lemma_current_group(replay: ReplayView, objects: Seq<CachedObject>)
    requires
        replay.current is None,
        forall|i: int, j: int|
            0 <= i < j < objects.len() ==> (#[trigger] objects[i]).group_id <= (
            #[trigger] objects[j]).group_id,
    ensures
        objects.len() == 0 ==> replay.after_all(objects).current is None,
        objects.len() > 0 ==> (replay.after_all(objects).current matches Some((group, _)) ==> group
            == objects.last().group_id),
        objects.len() > 0 && objects.last().group_id < u64::MAX ==> replay.after_all(
            objects,
        ).current is Some,
    decreases objects.len(),
{
    if objects.len() > 0 {
        let rest = objects.drop_last();
        assert forall|i: int, j: int| 0 <= i < j < rest.len() implies (
        #[trigger] rest[i]).group_id <= (#[trigger] rest[j]).group_id by {
            assert(objects[i].group_id <= objects[j].group_id);
        }
        lemma_current_group(replay, rest);
        if rest.len() > 0 {
            assert(objects[rest.len() - 1].group_id <= objects[objects.len() - 1].group_id);
        }
    }
}

/// The event that delivers a cached object names that very object: its group, its
/// id and its subgroup. So different objects of a group are told apart.
pub proof fn law_event_names_its_object(
    replay: ReplayView,
    later: ReplayView,
    object: CachedObject,
    other: CachedObject,
)
    ensures
        replay.event(object).location.group == object.group_id,
        replay.event(object).location.object == object.object_id,
        replay.event(object).subgroup_id == Some(object.subgroup_id),
        object.object_id != other.object_id ==> replay.event(object).location != later.event(
            other,
        ).location,
        object.group_id != other.group_id ==> replay.event(object).location != later.event(
            other,
        ).location,
{
}

/// What the replay delivers is what it marks: once the replay has ended, each of
/// its events is known as replayed, and so is dropped when it comes again.
pub proof fn law_delivered_events_are_marked(
    replay: ReplayView,
    objects: Seq<CachedObject>,
    i: int,
    state: StateView,
    end: Location,
)
    requires
        replay.marks == Map::<SubgroupKey, u64>::empty(),
        0 <= i < objects.len(),
    ensures
        ({
            let event = replay.after_all(objects.take(i)).event(objects[i]);
            let after = joined(state, Some((end, replay.after_all(objects).marks)));
            event.subgroup_id matches Some(subgroup_id) && {
                let key = SubgroupKey { group_id: event.location.group, subgroup_id };
                after.replay_watermarks.contains_key(key) && event.location.object
                    <= after.replay_watermarks[key]
            }
        }),
{
    law_replay_marks_its_objects(replay, objects);
    lemma_mark_is_highest(objects, objects[i].key());
    assert(objects[i].key() == objects[i].key());
}

/// A stream is started with the first object of all and with the first of each
/// later group. Its header names the object's group, subgroup and priority and
/// promises neither the first object nor the end of the group; the event carries
/// it, and the stream is the one that the header names.
pub proof fn law_replay_opens_a_stream_per_group(replay: ReplayView, object: CachedObject)
    ensures
        replay.event(object).header_info is Some <==> (replay.current matches Some((group, _))
            ==> group < object.group_id),
        replay.event(object).header_info matches Some(header) ==> {
            &&& header matches HeaderInfo::Subgroup { header: h } && h.group_id == object.group_id
                && h.subgroup_id == Some(object.subgroup_id) && h.publisher_priority == Some(
                object.publisher_priority,
            ) && h.has_properties == object.has_properties && h.track_alias
                == replay.relay_track_id && !h.contains_end_of_group && !h.first_object
            &&& replay.event(object).stream_id == (StreamId::Subgroup {
                track_alias: replay.relay_track_id,
                group_id: object.group_id,
                subgroup_id: Some(object.subgroup_id),
            })
        },
        replay.event(object).header_info is None ==> (replay.current matches Some((_, stream_id))
            && replay.event(object).stream_id == stream_id),
{
}

/// The objects of one group go out on the stream that the first of them started.
pub proof fn law_a_group_stays_on_its_stream(
    replay: ReplayView,
    first: CachedObject,
    next: CachedObject,
)
    requires
        replay.event(first).header_info is Some,
        next.group_id == first.group_id,
        first.group_id < u64::MAX,
    ensures
        replay.after(first).event(next).header_info is None,
        replay.after(first).event(next).stream_id == replay.event(first).stream_id,
        replay.after(first).after(next).current == replay.after(first).current,
{
}

/// What is replayed begins with the start that was asked for and ends with the
/// last location received or, where none was, with the newest group in the cache,
/// all of it. Nothing is replayed where the subscription is not joining, has no
/// start, or the range would be empty.
pub proof fn law_replay_covers_what_was_asked(
    state: StateView,
    newest_group: Option<u64>,
    place: Location,
)
    ensures
        match replay_range_of(state, newest_group) {
            Some((start, end)) => {
                &&& state.is_joining
                &&& state.start_location == Some(start)
                &&& start.group < end.group || (start.group == end.group && start.object
                    < end.object)
                &&& state.last_received_object_location is Some
                    ==> state.last_received_object_location == Some(end)
                &&& state.last_received_object_location is None ==> newest_group == Some(
                    end.group,
                ) && (place.group <= end.group ==> !end.precedes(place))
            },
            None => {
                ||| !state.is_joining
                ||| state.start_location is None
                ||| state.last_received_object_location is None && newest_group is None
                ||| state.last_received_object_location matches Some(end) && !(
                state.start_location->0).precedes(end)
                ||| state.last_received_object_location is None && (newest_group matches Some(group)
                    && !(state.start_location->0).precedes(
                    Location { group, object: u64::MAX },
                ))
            },
        },
{
}

/// Marks only rise: after an object has been marked, its subgroup's mark is the
/// higher of the two, and no other subgroup's mark has changed.
pub proof fn law_marks_only_rise(
    marks: Map<SubgroupKey, u64>,
    key: SubgroupKey,
    object_id: u64,
    other: SubgroupKey,
)
    ensures
        ({
            let after = raised(marks, key, object_id);
            &&& after.contains_key(key)
            &&& after[key] >= object_id
            &&& after[key] == object_id || (marks.contains_key(key) && after[key] == marks[key])
            &&& marks.contains_key(key) ==> after[key] >= marks[key]
            &&& other != key ==> (after.contains_key(other) <==> marks.contains_key(other))
            &&& other != key && marks.contains_key(other) ==> after[other] == marks[other]
        }),
{
}

/// Where two sets of marks are put together, a subgroup has the higher of its
/// marks, and only marked subgroups have one.
pub proof fn law_merging_keeps_the_higher_mark(
    a: Map<SubgroupKey, u64>,
    b: Map<SubgroupKey, u64>,
    key: SubgroupKey,
)
    ensures
        merged(a, b).contains_key(key) <==> a.contains_key(key) || b.contains_key(key),
        a.contains_key(key) ==> merged(a, b)[key] >= a[key],
        b.contains_key(key) ==> merged(a, b)[key] >= b[key],
        merged(a, b).contains_key(key) ==> (a.contains_key(key) && merged(a, b)[key] == a[key]) || (
        b.contains_key(key) && merged(a, b)[key] == b[key]),
{
}

/// Joining ends once and for all, and changes only what the replay has to do
/// with: without a replay nothing but the joining itself.
pub proof fn law_joining_ends(
    state: StateView,
    end: Location,
    marks: Map<SubgroupKey, u64>,
    newest_group: Option<u64>,
    key: SubgroupKey,
)
    ensures
        ({
            let after = joined(state, Some((end, marks)));
            &&& !after.is_joining
            &&& after.last_received_object_location == Some(end)
            &&& replay_range_of(after, newest_group) is None
            &&& marks.contains_key(key) ==> after.replay_watermarks.contains_key(key)
                && after.replay_watermarks[key] >= marks[key]
            &&& state.replay_watermarks.contains_key(key) ==> after.replay_watermarks.contains_key(
                key,
            ) && after.replay_watermarks[key] >= state.replay_watermarks[key]
            &&& after.replay_watermarks.contains_key(key) ==> marks.contains_key(key)
                || state.replay_watermarks.contains_key(key)
            &&& after == (StateView {
                is_joining: false,
                last_received_object_location: Some(end),
                replay_watermarks: after.replay_watermarks,
                ..state
            })
        }),
        joined(state, None) == (StateView { is_joining: false, ..state }),
{
}

} // verus!
