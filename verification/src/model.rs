//! Values that MoQ control messages carry: locations, track names and message
//! parameters.

use vstd::prelude::*;

verus! {

/// Position of an object on a track: its group, and its id within the group.
#[derive(Debug, Clone, Copy, PartialEq, Eq, PartialOrd, Ord, Hash, Structural)]
pub struct Location {
    pub group: u64,
    pub object: u64,
}

impl Location {
    pub fn new(group: u64, object: u64) -> (location: Location)
        ensures
            location == (Location { group, object }),
    {
        Location { group, object }
    }

    /// Locations are ordered by group first, then by object.
    pub open spec fn spec_precedes(self, other: Location) -> bool {
        self.group < other.group || (self.group == other.group && self.object < other.object)
    }

    /// Whether this location comes strictly before `other`.
    #[verifier::when_used_as_spec(spec_precedes)]
    pub fn precedes(self, other: Location) -> (before: bool)
        ensures
            before == self.spec_precedes(other),
    {
        self.group < other.group || (self.group == other.group && self.object < other.object)
    }
}

/// The later of a location seen before, if any, and a new one.
pub open spec fn later_of(seen: Option<Location>, location: Location) -> Location {
    match seen {
        Some(max) => if max.precedes(location) {
            location
        } else {
            max
        },
        None => location,
    }
}

/// Order in which a subscriber wants the groups of a track.
#[derive(Debug, Clone, Copy, PartialEq, Eq, Structural)]
pub enum GroupOrder {
    Original,
    Ascending,
    Descending,
}

/// Where a subscription starts and ends.
#[derive(Debug, Clone, Copy, PartialEq, Eq, Structural)]
pub enum FilterType {
    LatestObject,
    NextGroupStart,
    AbsoluteStart,
    AbsoluteRange,
}

/// A typed parameter of a control message.
#[derive(Debug, Clone, Copy, PartialEq, Eq, Structural)]
pub enum MessageParameter {
    /// How many groups behind the live edge the subscriber wants to start.
    DelayGroups { groups: u64 },
    /// Whether objects are to be sent.
    Forward { forward: bool },
    GroupOrder { order: GroupOrder },
    /// The largest location the sender knows of.
    LargestObject { location: Location },
    ObjectDeliveryTimeout { timeout: u64 },
    SubscriberPriority { priority: u8 },
    SubscriptionFilter {
        filter_type: FilterType,
        start_location: Option<Location>,
        end_group: Option<u64>,
    },
    /// Where the seam of a switch lies.
    SwitchTransition { switching_group_id: u64, live_edge_group_id: u64 },
    /// Any other parameter, carried through: its type, and its value or the
    /// number under which the caller keeps a value of more than one integer.
    Other { parameter_type: u64, value: u64 },
}

/// The type of a message parameter, without its value.
#[derive(Debug, Clone, Copy, PartialEq, Eq, Structural)]
pub enum ParameterKind {
    DelayGroups,
    Forward,
    GroupOrder,
    LargestObject,
    ObjectDeliveryTimeout,
    SubscriberPriority,
    SubscriptionFilter,
    SwitchTransition,
    Other(u64),
}

impl MessageParameter {
    pub open spec fn spec_kind(self) -> ParameterKind {
        match self {
            MessageParameter::DelayGroups { .. } => ParameterKind::DelayGroups,
            MessageParameter::Forward { .. } => ParameterKind::Forward,
            MessageParameter::GroupOrder { .. } => ParameterKind::GroupOrder,
            MessageParameter::LargestObject { .. } => ParameterKind::LargestObject,
            MessageParameter::ObjectDeliveryTimeout { .. } => ParameterKind::ObjectDeliveryTimeout,
            MessageParameter::SubscriberPriority { .. } => ParameterKind::SubscriberPriority,
            MessageParameter::SubscriptionFilter { .. } => ParameterKind::SubscriptionFilter,
            MessageParameter::SwitchTransition { .. } => ParameterKind::SwitchTransition,
            MessageParameter::Other { parameter_type, .. } => ParameterKind::Other(parameter_type),
        }
    }

    /// The type of this parameter.
    #[verifier::when_used_as_spec(spec_kind)]
    pub fn kind(self) -> (kind: ParameterKind)
        ensures
            kind == self.spec_kind(),
    {
        match self {
            MessageParameter::DelayGroups { .. } => ParameterKind::DelayGroups,
            MessageParameter::Forward { .. } => ParameterKind::Forward,
            MessageParameter::GroupOrder { .. } => ParameterKind::GroupOrder,
            MessageParameter::LargestObject { .. } => ParameterKind::LargestObject,
            MessageParameter::ObjectDeliveryTimeout { .. } => ParameterKind::ObjectDeliveryTimeout,
            MessageParameter::SubscriberPriority { .. } => ParameterKind::SubscriberPriority,
            MessageParameter::SubscriptionFilter { .. } => ParameterKind::SubscriptionFilter,
            MessageParameter::SwitchTransition { .. } => ParameterKind::SwitchTransition,
            MessageParameter::Other { parameter_type, .. } => ParameterKind::Other(parameter_type),
        }
    }

    pub fn new_delay_groups(groups: u64) -> (parameter: MessageParameter)
        ensures
            parameter == (MessageParameter::DelayGroups { groups }),
    {
        MessageParameter::DelayGroups { groups }
    }

    pub fn new_forward(forward: bool) -> (parameter: MessageParameter)
        ensures
            parameter == (MessageParameter::Forward { forward }),
    {
        MessageParameter::Forward { forward }
    }

    pub fn new_largest_object(location: Location) -> (parameter: MessageParameter)
        ensures
            parameter == (MessageParameter::LargestObject { location }),
    {
        MessageParameter::LargestObject { location }
    }

    pub fn new_object_delivery_timeout(timeout: u64) -> (parameter: MessageParameter)
        ensures
            parameter == (MessageParameter::ObjectDeliveryTimeout { timeout }),
    {
        MessageParameter::ObjectDeliveryTimeout { timeout }
    }

    pub fn new_subscription_filter(
        filter_type: FilterType,
        start_location: Option<Location>,
        end_group: Option<u64>,
    ) -> (parameter: MessageParameter)
        ensures
            parameter == (MessageParameter::SubscriptionFilter {
                filter_type,
                start_location,
                end_group,
            }),
    {
        MessageParameter::SubscriptionFilter { filter_type, start_location, end_group }
    }
}

/// The first parameter of a kind in a list.
pub open spec fn first_of_kind(params: Seq<MessageParameter>, kind: ParameterKind) -> Option<
    MessageParameter,
>
    decreases params.len(),
{
    if params.len() == 0 {
        None
    } else if params[0].kind() == kind {
        Some(params[0])
    } else {
        first_of_kind(params.skip(1), kind)
    }
}

/// The first parameter of a kind in a list.
pub fn find_parameter(params: &Vec<MessageParameter>, kind: ParameterKind) -> (found: Option<
    MessageParameter,
>)
    ensures
        found == first_of_kind(params@, kind),
        found matches Some(p) ==> p.kind() == kind,
{
    let mut i: usize = 0;
    proof {
        assert(params@.skip(0) =~= params@);
    }
    while i < params.len()
        invariant
            i <= params.len(),
            first_of_kind(params@, kind) == first_of_kind(params@.skip(i as int), kind),
        decreases params.len() - i,
    {
        let p: MessageParameter = params[i];
        proof {
            assert(params@.skip(i as int)[0] == p);
            assert(params@.skip(i as int).skip(1) =~= params@.skip(i + 1));
        }
        if p.kind() == kind {
            return Some(p);
        }
        i = i + 1;
    }
    None
}

/// A list of parameters in which one has been set: the first of its kind is
/// replaced, and where there is none it is added at the end.
pub open spec fn with_parameter(
    params: Seq<MessageParameter>,
    parameter: MessageParameter,
) -> Seq<MessageParameter>
    decreases params.len(),
{
    if params.len() == 0 {
        seq![parameter]
    } else if params[0].kind() == parameter.kind() {
        params.update(0, parameter)
    } else {
        seq![params[0]] + with_parameter(params.skip(1), parameter)
    }
}

/// Sets a parameter: replaces the first of its kind, or adds it at the end.
pub fn set_param(params: &mut Vec<MessageParameter>, parameter: MessageParameter)
    ensures
        final(params)@ == with_parameter(old(params)@, parameter),
{
    let ghost before = params@;
    let mut i: usize = 0;
    proof {
        assert(before.skip(0) =~= before);
        assert(before.take(0) + with_parameter(before, parameter) =~= with_parameter(
            before,
            parameter,
        ));
    }
    while i < params.len()
        invariant
            i <= params.len(),
            before == old(params)@,
            params@ == before,
            with_parameter(before, parameter) == before.take(i as int) + with_parameter(
                before.skip(i as int),
                parameter,
            ),
        decreases params.len() - i,
    {
        let p: MessageParameter = params[i];
        proof {
            assert(before.skip(i as int)[0] == p);
        }
        if p.kind() == parameter.kind() {
            params.set(i, parameter);
            proof {
                assert(before.take(i as int) + before.skip(i as int).update(0, parameter)
                    =~= before.update(i as int, parameter));
            }
            return ;
        }
        proof {
            assert(before.skip(i as int).skip(1) =~= before.skip(i + 1));
            assert(before.take(i as int) + (seq![p] + with_parameter(before.skip(i + 1), parameter))
                =~= before.take(i + 1) + with_parameter(before.skip(i + 1), parameter));
        }
        i = i + 1;
    }
    params.push(parameter);
    proof {
        assert(before.take(i as int) + seq![parameter] =~= before.push(parameter));
    }
}

/// A list of parameters after each of `updates` has been set in turn.
pub open spec fn with_parameters(
    params: Seq<MessageParameter>,
    updates: Seq<MessageParameter>,
) -> Seq<MessageParameter>
    decreases updates.len(),
{
    if updates.len() == 0 {
        params
    } else {
        with_parameter(with_parameters(params, updates.drop_last()), updates.last())
    }
}

/// Applies an update: a parameter that the update names takes its new value, the
/// others keep theirs, and none is removed.
pub fn apply_message_parameter_update(
    params: &mut Vec<MessageParameter>,
    updates: &Vec<MessageParameter>,
)
    ensures
        final(params)@ == with_parameters(old(params)@, updates@),
{
    let ghost before = params@;
    let mut i: usize = 0;
    while i < updates.len()
        invariant
            i <= updates.len(),
            params@ == with_parameters(before, updates@.take(i as int)),
        decreases updates.len() - i,
    {
        set_param(params, updates[i]);
        i = i + 1;
        proof {
            assert(updates@.take(i as int).drop_last() =~= updates@.take(i - 1));
        }
    }
    proof {
        assert(updates@.take(i as int) =~= updates@);
    }
}

/// After a parameter has been set, it is the first of its kind.
pub proof fn law_set_parameter_is_read_back(
    params: Seq<MessageParameter>,
    parameter: MessageParameter,
)
    ensures
        first_of_kind(with_parameter(params, parameter), parameter.kind()) == Some(parameter),
    decreases params.len(),
{
    if params.len() > 0 && params[0].kind() != parameter.kind() {
        law_set_parameter_is_read_back(params.skip(1), parameter);
        let rest = with_parameter(params.skip(1), parameter);
        assert((seq![params[0]] + rest).skip(1) =~= rest);
    }
}

/// Setting a parameter changes no other kind.
pub proof fn law_set_parameter_keeps_other_kinds(
    params: Seq<MessageParameter>,
    parameter: MessageParameter,
    kind: ParameterKind,
)
    requires
        kind != parameter.kind(),
    ensures
        first_of_kind(with_parameter(params, parameter), kind) == first_of_kind(params, kind),
    decreases params.len(),
{
    reveal_with_fuel(first_of_kind, 2);
    if params.len() == 0 {
        assert(seq![parameter].skip(1) =~= Seq::<MessageParameter>::empty());
    } else if params[0].kind() == parameter.kind() {
        assert(params.update(0, parameter).skip(1) =~= params.skip(1));
    } else {
        law_set_parameter_keeps_other_kinds(params.skip(1), parameter, kind);
        let rest = with_parameter(params.skip(1), parameter);
        assert((seq![params[0]] + rest).skip(1) =~= rest);
    }
}

/// An update that does not name a kind leaves it as it was.
pub proof fn law_update_keeps_unnamed_kinds(
    params: Seq<MessageParameter>,
    updates: Seq<MessageParameter>,
    kind: ParameterKind,
)
    requires
        forall|i: int| 0 <= i < updates.len() ==> (#[trigger] updates[i]).kind() != kind,
    ensures
        first_of_kind(with_parameters(params, updates), kind) == first_of_kind(params, kind),
    decreases updates.len(),
{
    if updates.len() > 0 {
        law_update_keeps_unnamed_kinds(params, updates.drop_last(), kind);
        law_set_parameter_keeps_other_kinds(
            with_parameters(params, updates.drop_last()),
            updates.last(),
            kind,
        );
    }
}

/// The subscriber priority that a parameter list asks for; 128 by default.
pub open spec fn subscriber_priority_of(params: Seq<MessageParameter>) -> u8 {
    match first_of_kind(params, ParameterKind::SubscriberPriority) {
        Some(MessageParameter::SubscriberPriority { priority }) => priority,
        _ => 128,
    }
}

/// The group order that a parameter list asks for; ascending by default.
pub open spec fn group_order_of(params: Seq<MessageParameter>) -> GroupOrder {
    match first_of_kind(params, ParameterKind::GroupOrder) {
        Some(MessageParameter::GroupOrder { order }) => order,
        _ => GroupOrder::Ascending,
    }
}

/// The forward state that a parameter list asks for; on by default.
pub open spec fn forward_of(params: Seq<MessageParameter>) -> bool {
    match first_of_kind(params, ParameterKind::Forward) {
        Some(MessageParameter::Forward { forward }) => forward,
        _ => true,
    }
}

/// The filter that a parameter list names, if any.
pub open spec fn filter_of(params: Seq<MessageParameter>) -> Option<
    (FilterType, Option<Location>, Option<u64>),
> {
    match first_of_kind(params, ParameterKind::SubscriptionFilter) {
        Some(MessageParameter::SubscriptionFilter { filter_type, start_location, end_group }) =>
            Some((filter_type, start_location, end_group)),
        _ => None,
    }
}

/// The delay that a parameter list asks for, if any.
pub open spec fn delay_groups_of(params: Seq<MessageParameter>) -> Option<u64> {
    match first_of_kind(params, ParameterKind::DelayGroups) {
        Some(MessageParameter::DelayGroups { groups }) => Some(groups),
        _ => None,
    }
}

pub fn subscriber_priority(params: &Vec<MessageParameter>) -> (priority: u8)
    ensures
        priority == subscriber_priority_of(params@),
{
    match find_parameter(params, ParameterKind::SubscriberPriority) {
        Some(MessageParameter::SubscriberPriority { priority }) => priority,
        _ => 128,
    }
}

pub fn group_order(params: &Vec<MessageParameter>) -> (order: GroupOrder)
    ensures
        order == group_order_of(params@),
{
    match find_parameter(params, ParameterKind::GroupOrder) {
        Some(MessageParameter::GroupOrder { order }) => order,
        _ => GroupOrder::Ascending,
    }
}

pub fn forward_state(params: &Vec<MessageParameter>) -> (forward: bool)
    ensures
        forward == forward_of(params@),
{
    match find_parameter(params, ParameterKind::Forward) {
        Some(MessageParameter::Forward { forward }) => forward,
        _ => true,
    }
}

pub fn subscription_filter(params: &Vec<MessageParameter>) -> (filter: Option<
    (FilterType, Option<Location>, Option<u64>),
>)
    ensures
        filter == filter_of(params@),
{
    match find_parameter(params, ParameterKind::SubscriptionFilter) {
        Some(MessageParameter::SubscriptionFilter { filter_type, start_location, end_group }) =>
            Some((filter_type, start_location, end_group)),
        _ => None,
    }
}

/// Looking for a kind finds the first parameter of that kind, and finds nothing
/// only where the list has none.
pub proof fn law_first_of_a_kind_is_found(
    params: Seq<MessageParameter>,
    kind: ParameterKind,
)
    ensures
        match first_of_kind(params, kind) {
            Some(found) => exists|i: int|
                0 <= i < params.len() && #[trigger] params[i] == found && found.kind() == kind
                    && forall|j: int| 0 <= j < i ==> (#[trigger] params[j]).kind() != kind,
            None => forall|i: int| 0 <= i < params.len() ==> (#[trigger] params[i]).kind() != kind,
        },
    decreases params.len(),
{
    if params.len() > 0 {
        let rest = params.skip(1);
        law_first_of_a_kind_is_found(rest, kind);
        if params[0].kind() == kind {
            assert(params[0] == first_of_kind(params, kind)->0);
        } else {
            match first_of_kind(rest, kind) {
                Some(found) => {
                    let i = choose|i: int|
                        0 <= i < rest.len() && #[trigger] rest[i] == found && found.kind() == kind
                            && forall|j: int| 0 <= j < i ==> (#[trigger] rest[j]).kind() != kind;
                    assert(params[i + 1] == found);
                    assert forall|j: int| 0 <= j < i + 1 implies (#[trigger] params[j]).kind()
                        != kind by {
                        if j > 0 {
                            assert(rest[j - 1] == params[j]);
                        }
                    }
                },
                None => {
                    assert forall|j: int| 0 <= j < params.len() implies (
                    #[trigger] params[j]).kind() != kind by {
                        if j > 0 {
                            assert(rest[j - 1] == params[j]);
                        }
                    }
                },
            }
        }
    }
}

/// Two parameters are of one kind exactly when they are the same variant and, for
/// one that is only carried through, of the same type.
pub proof fn law_kind_is_the_variant(a: MessageParameter, b: MessageParameter)
    ensures
        a.kind() == b.kind() <==> {
            ||| a is DelayGroups && b is DelayGroups
            ||| a is Forward && b is Forward
            ||| a is GroupOrder && b is GroupOrder
            ||| a is LargestObject && b is LargestObject
            ||| a is ObjectDeliveryTimeout && b is ObjectDeliveryTimeout
            ||| a is SubscriberPriority && b is SubscriberPriority
            ||| a is SubscriptionFilter && b is SubscriptionFilter
            ||| a is SwitchTransition && b is SwitchTransition
            ||| a matches MessageParameter::Other { parameter_type: t, .. } && (b matches
                MessageParameter::Other { parameter_type: u, .. } && t == u)
        },
        a is DelayGroups <==> a.kind() == ParameterKind::DelayGroups,
        a is Forward <==> a.kind() == ParameterKind::Forward,
        a is GroupOrder <==> a.kind() == ParameterKind::GroupOrder,
        a is LargestObject <==> a.kind() == ParameterKind::LargestObject,
        a is ObjectDeliveryTimeout <==> a.kind() == ParameterKind::ObjectDeliveryTimeout,
        a is SubscriberPriority <==> a.kind() == ParameterKind::SubscriberPriority,
        a is SubscriptionFilter <==> a.kind() == ParameterKind::SubscriptionFilter,
        a is SwitchTransition <==> a.kind() == ParameterKind::SwitchTransition,
{
}

/// Setting a parameter takes nothing away and adds at most the parameter itself:
/// every place of the list keeps what it holds, but for at most one place that
/// held the same kind, and where there was none the list grows by one.
pub proof fn law_set_parameter_replaces_in_place(
    params: Seq<MessageParameter>,
    parameter: MessageParameter,
)
    ensures
        ({
            let set = with_parameter(params, parameter);
            if exists|i: int| 0 <= i < params.len() && (#[trigger] params[i]).kind()
                == parameter.kind() {
                exists|i: int|
                    0 <= i < params.len() && (#[trigger] params[i]).kind() == parameter.kind()
                        && set == params.update(i, parameter) && forall|j: int|
                        0 <= j < i ==> (#[trigger] params[j]).kind() != parameter.kind()
            } else {
                set == params.push(parameter)
            }
        }),
    decreases params.len(),
{
    let set = with_parameter(params, parameter);
    if params.len() == 0 {
        assert(set =~= params.push(parameter));
    } else if params[0].kind() == parameter.kind() {
        assert(set == params.update(0, parameter));
    } else {
        let rest = params.skip(1);
        law_set_parameter_replaces_in_place(rest, parameter);
        if exists|i: int| 0 <= i < rest.len() && (#[trigger] rest[i]).kind() == parameter.kind() {
            let i = choose|i: int|
                0 <= i < rest.len() && (#[trigger] rest[i]).kind() == parameter.kind()
                    && with_parameter(rest, parameter) == rest.update(i, parameter) && forall|
                    j: int,
                | 0 <= j < i ==> (#[trigger] rest[j]).kind() != parameter.kind();
            assert(params[i + 1].kind() == parameter.kind());
            assert(set =~= params.update(i + 1, parameter));
            assert forall|j: int| 0 <= j < i + 1 implies (#[trigger] params[j]).kind()
                != parameter.kind() by {
                if j > 0 {
                    assert(rest[j - 1] == params[j]);
                }
            }
        } else {
            assert forall|i: int| 0 <= i < params.len() implies (#[trigger] params[i]).kind()
                != parameter.kind() by {
                if i > 0 {
                    assert(rest[i - 1] == params[i]);
                }
            }
            assert(set =~= params.push(parameter));
        }
    }
}

/// What an update names takes effect: of the parameters of one kind in it, the
/// last one is the first of its kind afterwards.
pub proof fn law_update_puts_the_last_of_a_kind_in_force(
    params: Seq<MessageParameter>,
    updates: Seq<MessageParameter>,
    last: int,
)
    requires
        0 <= last < updates.len(),
        forall|i: int|
            last < i < updates.len() ==> (#[trigger] updates[i]).kind() != updates[last].kind(),
    ensures
        first_of_kind(with_parameters(params, updates), updates[last].kind()) == Some(
            updates[last],
        ),
    decreases updates.len(),
{
    let before = with_parameters(params, updates.drop_last());
    if last == updates.len() - 1 {
        law_set_parameter_is_read_back(before, updates.last());
    } else {
        law_update_puts_the_last_of_a_kind_in_force(params, updates.drop_last(), last);
        law_set_parameter_keeps_other_kinds(before, updates.last(), updates[last].kind());
    }
}

/// The value that a list asks for is that of its first parameter of the kind,
/// wherever that stands.
pub proof fn law_first_value_counts(params: Seq<MessageParameter>, i: int)
    requires
        0 <= i < params.len(),
        forall|j: int| 0 <= j < i ==> (#[trigger] params[j]).kind() != params[i].kind(),
    ensures
        params[i] matches MessageParameter::SubscriberPriority { priority }
            ==> subscriber_priority_of(params) == priority,
        params[i] matches MessageParameter::GroupOrder { order } ==> group_order_of(params)
            == order,
        params[i] matches MessageParameter::Forward { forward } ==> forward_of(params) == forward,
        params[i] matches MessageParameter::DelayGroups { groups } ==> delay_groups_of(params)
            == Some(groups),
        params[i] matches MessageParameter::SubscriptionFilter {
            filter_type,
            start_location,
            end_group,
        } ==> filter_of(params) == Some((filter_type, start_location, end_group)),
{
    law_first_of_a_kind_is_found(params, params[i].kind());
    let found = first_of_kind(params, params[i].kind())->0;
    let k = choose|k: int|
        0 <= k < params.len() && #[trigger] params[k] == found && found.kind() == params[i].kind()
            && forall|j: int| 0 <= j < k ==> (#[trigger] params[j]).kind() != params[i].kind();
    assert(k == i) by {
        if k < i {
            assert(params[k].kind() != params[i].kind());
        }
        if i < k {
            assert(params[i].kind() != params[i].kind());
        }
    }
}

/// A list that does not name a value asks for the default: priority 128, groups
/// in ascending order, forwarding on, no delay and no filter.
pub proof fn law_defaults(params: Seq<MessageParameter>)
    ensures
        (forall|i: int| 0 <= i < params.len() ==> !((#[trigger] params[i]) is SubscriberPriority))
            ==> subscriber_priority_of(params) == 128,
        (forall|i: int| 0 <= i < params.len() ==> !((#[trigger] params[i]) is GroupOrder))
            ==> group_order_of(params) == GroupOrder::Ascending,
        (forall|i: int| 0 <= i < params.len() ==> !((#[trigger] params[i]) is Forward))
            ==> forward_of(params),
        (forall|i: int| 0 <= i < params.len() ==> !((#[trigger] params[i]) is DelayGroups))
            ==> delay_groups_of(params) is None,
        (forall|i: int| 0 <= i < params.len() ==> !((#[trigger] params[i]) is SubscriptionFilter))
            ==> filter_of(params) is None,
{
    law_first_of_a_kind_is_found(params, ParameterKind::SubscriberPriority);
    law_first_of_a_kind_is_found(params, ParameterKind::GroupOrder);
    law_first_of_a_kind_is_found(params, ParameterKind::Forward);
    law_first_of_a_kind_is_found(params, ParameterKind::DelayGroups);
    law_first_of_a_kind_is_found(params, ParameterKind::SubscriptionFilter);
}

/// Locations are in one order: no location precedes itself, of two different ones
/// one precedes the other, and the order carries over. A later group is later,
/// whatever the objects are.
pub proof fn law_locations_are_ordered(a: Location, b: Location, c: Location)
    ensures
        !a.precedes(a),
        a != b ==> (a.precedes(b) <==> !b.precedes(a)),
        a.precedes(b) && b.precedes(c) ==> a.precedes(c),
        a.group < b.group ==> a.precedes(b),
        a.group == b.group ==> (a.precedes(b) <==> a.object < b.object),
{
}

/// The later of two locations is one of the two, and neither is later than it.
pub proof fn law_later_is_the_maximum(seen: Option<Location>, location: Location)
    ensures
        ({
            let later = later_of(seen, location);
            &&& later == location || seen == Some(later)
            &&& !later.precedes(location)
            &&& seen matches Some(before) ==> !later.precedes(before)
        }),
{
}

} // verus!
